//! Decisions on the values that IOKit reports for disks and the GPU.
use vstd::prelude::*;

verus! {

/// The default IOKit main port.
#[allow(non_snake_case)]
pub fn kIOMainPortDefault() -> (r: u32)
    ensures
        r == 0,
{
    0
}

/// A cumulative I/O byte counter as read from a statistics dictionary: the
/// number's 64-bit value reinterpreted as unsigned, or 0 when the entry is
/// missing or not an integer.
pub fn io_counter(value: Option<i64>) -> (r: u64)
    ensures
        r == (match value {
            Some(v) => v as u64,
            None => 0u64,
        }),
{
    match value {
        Some(v) => v as u64,
        None => 0,
    }
}

/// The first entry that holds a value.
pub open spec fn first_present(s: Seq<Option<i64>>) -> Option<i64>
    decreases s.len(),
{
    if s.len() == 0 {
        None
    } else if s[0] is Some {
        s[0]
    } else {
        first_present(s.drop_first())
    }
}

/// The last entry that holds a value.
pub open spec fn last_present(s: Seq<Option<i64>>) -> Option<i64>
    decreases s.len(),
{
    if s.len() == 0 {
        None
    } else if s.last() is Some {
        s.last()
    } else {
        last_present(s.drop_last())
    }
}

/// A GPU's utilization from its performance statistics: the values found
/// under the known key names, tried in order; the first one present wins.
pub fn utilization_from_keys(values: &Vec<Option<i64>>) -> (r: Option<i64>)
    ensures
        r == first_present(values@),
{
    let mut i: usize = 0;
    assert(values@.skip(0) =~= values@);
    while i < values.len()
        invariant
            i <= values@.len(),
            first_present(values@) == first_present(values@.skip(i as int)),
        decreases values.len() - i,
    {
        assert(values@.skip(i as int).drop_first() =~= values@.skip(i + 1));
        assert(values@.skip(i as int)[0] == values@[i as int]);
        if values[i].is_some() {
            return values[i];
        }
        i = i + 1;
    }
    assert(values@.skip(i as int) =~= Seq::<Option<i64>>::empty());
    None
}

/// The GPU utilization across the accelerator services, in the order IOKit
/// lists them: the last service that gave a reading wins.
pub fn latest_utilization(readings: &Vec<Option<i64>>) -> (r: Option<i64>)
    ensures
        r == last_present(readings@),
{
    let mut best: Option<i64> = None;
    let mut i: usize = 0;
    while i < readings.len()
        invariant
            i <= readings@.len(),
            best == last_present(readings@.take(i as int)),
        decreases readings.len() - i,
    {
        assert(readings@.take(i + 1).drop_last() =~= readings@.take(i as int));
        if readings[i].is_some() {
            best = readings[i];
        }
        i = i + 1;
    }
    assert(readings@.take(readings@.len() as int) =~= readings@);
    best
}

/// GPU key selection: a value is found exactly when some key holds one, and
/// it is the value of the first key that does.
pub proof fn law_first_present(s: Seq<Option<i64>>)
    ensures
        first_present(s) is Some <==> exists|i: int| 0 <= i < s.len() && #[trigger] s[i] is Some,
        first_present(s) is Some ==> exists|i: int|
            0 <= i < s.len() && #[trigger] s[i] == first_present(s) && forall|j: int|
                0 <= j < i ==> s[j] is None,
    decreases s.len(),
{
    if s.len() > 0 {
        let rest = s.drop_first();
        law_first_present(rest);
        if s[0] is None {
            if exists|i: int| 0 <= i < s.len() && #[trigger] s[i] is Some {
                let i = choose|i: int| 0 <= i < s.len() && #[trigger] s[i] is Some;
                assert(rest[i - 1] == s[i]);
            }
            if first_present(rest) is Some {
                let i = choose|i: int|
                    0 <= i < rest.len() && #[trigger] rest[i] == first_present(rest) && forall|j: int|
                        0 <= j < i ==> rest[j] is None;
                assert(s[i + 1] == rest[i]);
                assert forall|j: int| 0 <= j < i + 1 implies s[j] is None by {
                    if j > 0 {
                        assert(s[j] == rest[j - 1]);
                    }
                }
            }
        }
    }
}

/// GPU service selection: a reading is found exactly when some service gave
/// one, and it is the reading of the last service that did.
pub proof fn law_last_present(s: Seq<Option<i64>>)
    ensures
        last_present(s) is Some <==> exists|i: int| 0 <= i < s.len() && #[trigger] s[i] is Some,
        last_present(s) is Some ==> exists|i: int|
            0 <= i < s.len() && #[trigger] s[i] == last_present(s) && forall|j: int|
                i < j < s.len() ==> s[j] is None,
    decreases s.len(),
{
    if s.len() > 0 {
        let rest = s.drop_last();
        law_last_present(rest);
        if s.last() is None {
            if exists|i: int| 0 <= i < s.len() && #[trigger] s[i] is Some {
                let i = choose|i: int| 0 <= i < s.len() && #[trigger] s[i] is Some;
                assert(rest[i] == s[i]);
            }
            if last_present(rest) is Some {
                let i = choose|i: int|
                    0 <= i < rest.len() && #[trigger] rest[i] == last_present(rest) && forall|j: int|
                        i < j < rest.len() ==> rest[j] is None;
                assert(s[i] == rest[i]);
                assert forall|j: int| i < j < s.len() implies s[j] is None by {
                    if j < s.len() - 1 {
                        assert(s[j] == rest[j]);
                    }
                }
            }
        } else {
            assert(s[s.len() - 1] == last_present(s));
        }
    }
}

} // verus!
