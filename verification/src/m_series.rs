//! Apple Silicon core topology and memory pressure, decided from the values
//! that the `sysctl` interface reports.
use vstd::prelude::*;
use crate::text::{seq_contains, contains_bytes};
use crate::types::{CoreType, MemoryPressure};

verus! {

/// Topology of Apple Silicon cores.
#[derive(Clone, Copy, Debug)]
pub struct CoreTopology {
    pub efficiency_count: usize,
    pub performance_count: usize,
}

/// The bytes `A`, `p`, `p`, `l`, `e`.
pub open spec fn apple_marker() -> Seq<u8> {
    seq![65u8, 112u8, 112u8, 108u8, 101u8]
}

/// `buf` holds a NUL byte at `k` and none before it.
pub open spec fn first_nul_at(buf: Seq<u8>, k: int) -> bool {
    &&& 0 <= k < buf.len()
    &&& buf[k] == 0
    &&& forall|j: int| 0 <= j < k ==> buf[j] != 0
}

/// The text of a NUL-terminated byte buffer: the bytes before the first NUL,
/// or nothing when the buffer holds no NUL.
pub open spec fn spec_c_text(buf: Seq<u8>) -> Option<Seq<u8>> {
    if exists|k: int| first_nul_at(buf, k) {
        let k = choose|k: int| first_nul_at(buf, k);
        Some(buf.take(k))
    } else {
        None
    }
}

/// The topology that the brand text and the two per-level core counts describe.
pub open spec fn spec_core_topology(
    brand: Option<Seq<u8>>,
    performance_cores: Option<u32>,
    efficiency_cores: Option<u32>,
) -> Option<(nat, nat)> {
    match brand {
        None => None,
        Some(buf) => match spec_c_text(buf) {
            None => None,
            Some(text) => if !seq_contains(text, apple_marker()) {
                None
            } else {
                match (performance_cores, efficiency_cores) {
                    (Some(p), Some(e)) => if p == 0 || e == 0 {
                        None
                    } else {
                        Some((e as nat, p as nat))
                    },
                    _ => None,
                }
            },
        },
    }
}

proof fn lemma_first_nul_unique(buf: Seq<u8>, a: int, b: int)
    requires
        first_nul_at(buf, a),
        first_nul_at(buf, b),
    ensures
        a == b,
{
    if a < b {
        assert(buf[a] != 0);
    } else if b < a {
        assert(buf[b] != 0);
    }
}

/// The bytes of a buffer up to its first NUL, as `CStr::from_bytes_until_nul`
/// takes them; `None` when there is no NUL.
pub fn c_text(buf: &[u8]) -> (r: Option<Vec<u8>>)
    ensures
        match r {
            Some(t) => spec_c_text(buf@) == Some(t@),
            None => spec_c_text(buf@).is_none(),
        },
{
    let mut out: Vec<u8> = Vec::new();
    let mut i: usize = 0;
    while i < buf.len()
        invariant
            i <= buf@.len(),
            out@ == buf@.take(i as int),
            forall|j: int| 0 <= j < i ==> buf@[j] != 0,
        decreases buf.len() - i,
    {
        if buf[i] == 0 {
            assert(first_nul_at(buf@, i as int));
            proof {
                let k = choose|k: int| first_nul_at(buf@, k);
                lemma_first_nul_unique(buf@, k, i as int);
            }
            return Some(out);
        }
        out.push(buf[i]);
        i = i + 1;
        assert(out@ =~= buf@.take(i as int));
    }
    assert(!exists|k: int| first_nul_at(buf@, k));
    None
}

/// Detect Apple Silicon E/P core counts from what `sysctl` reported:
/// the raw `machdep.cpu.brand_string` buffer and the logical core counts of
/// `hw.perflevel0` (performance cores) and `hw.perflevel1` (efficiency cores).
/// Returns `None` on Intel Macs or if a reading is missing or zero.
pub fn detect_core_topology(
    brand: Option<&[u8]>,
    performance_cores: Option<u32>,
    efficiency_cores: Option<u32>,
) -> (r: Option<CoreTopology>)
    ensures
        match spec_core_topology(
            match brand {
                Some(b) => Some(b@),
                None => None,
            },
            performance_cores,
            efficiency_cores,
        ) {
            Some((e, p)) => r matches Some(t) && t.efficiency_count == e && t.performance_count
                == p,
            None => r is None,
        },
{
    let buf = match brand {
        Some(b) => b,
        None => return None,
    };
    let text = match c_text(buf) {
        Some(t) => t,
        None => return None,
    };
    let marker: [u8; 5] = [65u8, 112u8, 112u8, 108u8, 101u8];
    assert(marker@ =~= apple_marker());
    if !contains_bytes(text.as_slice(), &marker) {
        return None;
    }
    let p = match performance_cores {
        Some(p) => p,
        None => return None,
    };
    let e = match efficiency_cores {
        Some(e) => e,
        None => return None,
    };
    if p == 0 || e == 0 {
        return None;
    }
    Some(CoreTopology { efficiency_count: e as usize, performance_count: p as usize })
}

/// The outcome of a `sysctl` read of a 32-bit value: the value when the call
/// returned status 0, nothing otherwise.
pub fn sysctl_u32_reading(status: i32, value: u32) -> (r: Option<u32>)
    ensures
        r == (if status == 0 {
            Some(value)
        } else {
            None
        }),
{
    if status != 0 {
        None
    } else {
        Some(value)
    }
}

/// The macOS memory pressure level from the `kern.memorystatus_vm_pressure_level`
/// read: 1 (normal), 2 (warn) or 4 (critical) as the kernel reports it, or
/// `None` if the read failed.
pub fn memory_pressure_level(status: i32, value: u32) -> (r: Option<u32>)
    ensures
        r == (if status == 0 {
            Some(value)
        } else {
            None
        }),
{
    sysctl_u32_reading(status, value)
}

/// The pressure that a kernel pressure level stands for: 1 is normal, 2 warn,
/// 4 critical; any other level, or none, counts as normal.
pub open spec fn spec_pressure(level: Option<u32>) -> MemoryPressure {
    match level {
        Some(2) => MemoryPressure::Warn,
        Some(4) => MemoryPressure::Critical,
        _ => MemoryPressure::Normal,
    }
}

/// Classify a kernel memory pressure level.
pub fn pressure_from_level(level: Option<u32>) -> (r: MemoryPressure)
    ensures
        r == spec_pressure(level),
{
    match level {
        Some(1) => MemoryPressure::Normal,
        Some(2) => MemoryPressure::Warn,
        Some(4) => MemoryPressure::Critical,
        _ => MemoryPressure::Normal,
    }
}

/// The kind of core `index`: with a topology, the first `efficiency_count`
/// cores are efficiency cores and the rest performance cores; without one,
/// every core is of unknown kind.
pub open spec fn spec_core_type(index: int, topology: Option<CoreTopology>) -> CoreType {
    match topology {
        Some(t) => if index < t.efficiency_count {
            CoreType::Efficiency
        } else {
            CoreType::Performance
        },
        None => CoreType::Unknown,
    }
}

/// The kind of core `index` under `topology`.
pub fn core_type_for(index: usize, topology: &Option<CoreTopology>) -> (r: CoreType)
    ensures
        r == spec_core_type(index as int, *topology),
{
    match topology {
        Some(t) => if index < t.efficiency_count {
            CoreType::Efficiency
        } else {
            CoreType::Performance
        },
        None => CoreType::Unknown,
    }
}

/// The kinds of `cpu_count` cores, in core order.
pub fn core_types(cpu_count: usize, topology: &Option<CoreTopology>) -> (r: Vec<CoreType>)
    ensures
        r@.len() == cpu_count,
        forall|i: int| 0 <= i < cpu_count ==> r@[i] == spec_core_type(i, *topology),
{
    let mut r: Vec<CoreType> = Vec::new();
    let mut i: usize = 0;
    while i < cpu_count
        invariant
            i <= cpu_count,
            r@.len() == i,
            forall|k: int| 0 <= k < i ==> r@[k] == spec_core_type(k, *topology),
        decreases cpu_count - i,
    {
        r.push(core_type_for(i, topology));
        i = i + 1;
    }
    r
}

/// Number of entries of `s` equal to `t`.
pub open spec fn count_kind(s: Seq<CoreType>, t: CoreType) -> nat
    decreases s.len(),
{
    if s.len() == 0 {
        0
    } else {
        count_kind(s.drop_last(), t) + (if s.last() == t {
            1nat
        } else {
            0nat
        })
    }
}

proof fn lemma_count_prefix(s: Seq<CoreType>, topology: Option<CoreTopology>, n: int)
    requires
        0 <= n <= s.len(),
        forall|i: int| 0 <= i < s.len() ==> s[i] == spec_core_type(i, topology),
    ensures
        count_kind(s.take(n), CoreType::Efficiency) == (match topology {
            Some(t) => if n < t.efficiency_count {
                n
            } else {
                t.efficiency_count as int
            },
            None => 0,
        }),
        count_kind(s.take(n), CoreType::Performance) == (match topology {
            Some(t) => if n < t.efficiency_count {
                0
            } else {
                n - t.efficiency_count
            },
            None => 0,
        }),
        count_kind(s.take(n), CoreType::Unknown) == (match topology {
            Some(t) => 0,
            None => n,
        }),
    decreases n,
{
    if n > 0 {
        lemma_count_prefix(s, topology, n - 1);
        assert(s.take(n).drop_last() =~= s.take(n - 1));
    }
}

/// Core-kind split: under a topology with `e` efficiency cores, a machine with
/// `n` cores has `min(n, e)` efficiency cores and the rest performance cores;
/// without a topology all `n` cores are of unknown kind.
pub proof fn law_core_kind_counts(kinds: Seq<CoreType>, topology: Option<CoreTopology>)
    requires
        forall|i: int| 0 <= i < kinds.len() ==> kinds[i] == spec_core_type(i, topology),
    ensures
        match topology {
            Some(t) => {
                let e = if kinds.len() < t.efficiency_count {
                    kinds.len() as int
                } else {
                    t.efficiency_count as int
                };
                &&& count_kind(kinds, CoreType::Efficiency) == e
                &&& count_kind(kinds, CoreType::Performance) == kinds.len() - e
                &&& count_kind(kinds, CoreType::Unknown) == 0
            },
            None => {
                &&& count_kind(kinds, CoreType::Efficiency) == 0
                &&& count_kind(kinds, CoreType::Performance) == 0
                &&& count_kind(kinds, CoreType::Unknown) == kinds.len()
            },
        },
{
    lemma_count_prefix(kinds, topology, kinds.len() as int);
    assert(kinds.take(kinds.len() as int) =~= kinds);
}

/// Topology detection: when the brand text (the bytes before the buffer's
/// first NUL) contains `Apple` and both core counts are read and non-zero,
/// the topology has exactly those counts, efficiency cores from the
/// efficiency level and performance cores from the performance level,
/// whatever their relative sizes; when a count is zero or missing, or the
/// brand is missing, there is none.
pub proof fn law_topology_from_readings(
    buf: Seq<u8>,
    nul: int,
    at: int,
    performance_cores: Option<u32>,
    efficiency_cores: Option<u32>,
)
    requires
        0 <= nul < buf.len(),
        buf[nul] == 0,
        forall|j: int| 0 <= j < nul ==> buf[j] != 0,
        0 <= at && at + 5 <= nul,
        buf[at] == 65u8 && buf[at + 1] == 112u8 && buf[at + 2] == 112u8 && buf[at + 3] == 108u8
            && buf[at + 4] == 101u8,
    ensures
        (performance_cores matches Some(p) && efficiency_cores matches Some(e) && p != 0 && e != 0)
            ==> spec_core_topology(Some(buf), performance_cores, efficiency_cores) == Some(
            (efficiency_cores->0 as nat, performance_cores->0 as nat),
        ),
        (performance_cores is None || efficiency_cores is None || performance_cores == Some(0u32)
            || efficiency_cores == Some(0u32)) ==> spec_core_topology(
            Some(buf),
            performance_cores,
            efficiency_cores,
        ) is None,
        spec_core_topology(None, performance_cores, efficiency_cores) is None,
{
    assert(first_nul_at(buf, nul));
    let k = choose|k: int| first_nul_at(buf, k);
    lemma_first_nul_unique(buf, k, nul);
    let text = buf.take(nul);
    assert(text.subrange(at, at + 5) =~= apple_marker());
    assert(crate::text::occurs_at(text, apple_marker(), at));
}

/// The text of a buffer is the part before its first NUL: it holds no NUL,
/// and the buffer has a NUL right after it; a buffer without a NUL has no text.
pub proof fn law_c_text(buf: Seq<u8>)
    ensures
        spec_c_text(buf) matches Some(t) ==> t.len() < buf.len() && buf[t.len() as int] == 0 && t
            == buf.take(t.len() as int) && forall|j: int| 0 <= j < t.len() ==> t[j] != 0,
        spec_c_text(buf) is None <==> forall|j: int| 0 <= j < buf.len() ==> buf[j] != 0,
{
    if exists|k: int| first_nul_at(buf, k) {
        let k = choose|k: int| first_nul_at(buf, k);
        assert(buf.take(k).len() == k);
        assert(!(forall|j: int| 0 <= j < buf.len() ==> buf[j] != 0));
    } else {
        assert forall|j: int| 0 <= j < buf.len() implies buf[j] != 0 by {
            if buf[j] == 0 {
                lemma_first_nul_exists(buf, j);
            }
        }
    }
}

proof fn lemma_first_nul_exists(buf: Seq<u8>, j: int)
    requires
        0 <= j < buf.len(),
        buf[j] == 0,
    ensures
        exists|k: int| first_nul_at(buf, k),
    decreases j,
{
    if forall|i: int| 0 <= i < j ==> buf[i] != 0 {
        assert(first_nul_at(buf, j));
    } else {
        let i = choose|i: int| 0 <= i < j && buf[i] == 0;
        lemma_first_nul_exists(buf, i);
    }
}

/// Memory pressure: level 2 is warn, level 4 critical, and every other level
/// (1 included), or a failed read, is normal.
pub proof fn law_pressure_levels(level: u32)
    ensures
        spec_pressure(Some(2)) == MemoryPressure::Warn,
        spec_pressure(Some(4)) == MemoryPressure::Critical,
        spec_pressure(Some(1)) == MemoryPressure::Normal,
        spec_pressure(None) == MemoryPressure::Normal,
        level != 2 && level != 4 ==> spec_pressure(Some(level)) == MemoryPressure::Normal,
{
}

/// A brand text without `Apple` before the buffer's first NUL gives no
/// topology, whatever the core counts.
pub proof fn law_topology_needs_apple(
    buf: Seq<u8>,
    nul: int,
    performance_cores: Option<u32>,
    efficiency_cores: Option<u32>,
)
    requires
        0 <= nul < buf.len(),
        buf[nul] == 0,
        forall|j: int| 0 <= j < nul ==> buf[j] != 0,
        forall|at: int|
            0 <= at && at + 5 <= nul ==> !(#[trigger] buf[at] == 65u8 && buf[at + 1] == 112u8 && buf[at + 2]
                == 112u8 && buf[at + 3] == 108u8 && buf[at + 4] == 101u8),
    ensures
        spec_core_topology(Some(buf), performance_cores, efficiency_cores) is None,
{
    assert(first_nul_at(buf, nul));
    let k = choose|k: int| first_nul_at(buf, k);
    lemma_first_nul_unique(buf, k, nul);
    let text = buf.take(nul);
    assert forall|at: int| !crate::text::occurs_at(text, apple_marker(), at) by {
        if crate::text::occurs_at(text, apple_marker(), at) {
            assert(text.subrange(at, at + 5)[0] == buf[at]);
            assert(text.subrange(at, at + 5)[1] == buf[at + 1]);
            assert(text.subrange(at, at + 5)[2] == buf[at + 2]);
            assert(text.subrange(at, at + 5)[3] == buf[at + 3]);
            assert(text.subrange(at, at + 5)[4] == buf[at + 4]);
        }
    }
}

/// Core kinds by index: with a topology of `e` efficiency cores, cores
/// `0 .. e` are efficiency cores and all later ones performance cores;
/// without a topology every core is of unknown kind.
pub proof fn law_core_kind_by_index(index: int, topology: Option<CoreTopology>)
    requires
        0 <= index,
    ensures
        topology matches Some(t) && index < t.efficiency_count ==> spec_core_type(index, topology)
            == CoreType::Efficiency,
        topology matches Some(t) && index >= t.efficiency_count ==> spec_core_type(index, topology)
            == CoreType::Performance,
        topology is None ==> spec_core_type(index, topology) == CoreType::Unknown,
{
}

} // verus!
