//! Alert decisions: when a metric that exceeded its threshold raises a
//! notification, the cooldown between repeated notifications, and the
//! labels the notifications use.
use vstd::prelude::*;
use crate::name_map::NameMap;
use crate::text::str_eq;

verus! {

/// Nanoseconds in a second.
pub const NANOS_PER_SEC: u64 = 1_000_000_000;

/// Seconds between reloads of the thresholds from the database.
pub const RELOAD_INTERVAL_SECS: u64 = 60;

/// Whole seconds from `since_ns` to `now_ns` on the monotonic clock, as
/// `Duration::as_secs` counts them; 0 when `now_ns` is not after `since_ns`.
pub open spec fn whole_secs_between(since_ns: u64, now_ns: u64) -> nat {
    if now_ns >= since_ns {
        ((now_ns - since_ns) / (NANOS_PER_SEC as int)) as nat
    } else {
        0
    }
}

/// Whole seconds elapsed from `since_ns` to `now_ns`.
pub fn whole_secs_elapsed(since_ns: u64, now_ns: u64) -> (r: u64)
    ensures
        r == whole_secs_between(since_ns, now_ns),
{
    if now_ns >= since_ns {
        (now_ns - since_ns) / NANOS_PER_SEC
    } else {
        0
    }
}

/// What the alert checker keeps for one metric type: whether alerts are on,
/// the minimum whole seconds between two alerts, and when the last alert
/// fired (nanoseconds on the monotonic clock).
#[derive(Clone, Copy, Debug)]
pub struct AlertRule {
    pub enabled: bool,
    pub cooldown_secs: u32,
    pub last_fired_ns: Option<u64>,
}

/// The cooldown since the last alert has run out (or no alert fired yet).
pub open spec fn cooldown_over(rule: AlertRule, now_ns: u64) -> bool {
    match rule.last_fired_ns {
        None => true,
        Some(t) => whole_secs_between(t, now_ns) >= rule.cooldown_secs,
    }
}

/// A metric whose value exceeds its threshold raises an alert when alerts are
/// on for it and its cooldown is over.
pub open spec fn spec_should_fire(rule: AlertRule, exceeds: bool, now_ns: u64) -> bool {
    rule.enabled && exceeds && cooldown_over(rule, now_ns)
}

/// The rule after an alert fired at `now_ns`.
pub open spec fn fired(rule: AlertRule, now_ns: u64) -> AlertRule {
    AlertRule { last_fired_ns: Some(now_ns), ..rule }
}

/// The rules after loading a row of the thresholds table: the settings come
/// from the row, the time of the last alert stays what it was.
pub open spec fn spec_load(
    rules: Map<Seq<char>, AlertRule>,
    metric_type: Seq<char>,
    enabled: bool,
    cooldown_secs: u32,
) -> Map<Seq<char>, AlertRule> {
    rules.insert(
        metric_type,
        AlertRule {
            enabled,
            cooldown_secs,
            last_fired_ns: if rules.contains_key(metric_type) {
                rules[metric_type].last_fired_ns
            } else {
                None
            },
        },
    )
}

/// Whether a check of `metric_type` raises an alert: only a metric with a rule can.
pub open spec fn spec_check_fires(
    rules: Map<Seq<char>, AlertRule>,
    metric_type: Seq<char>,
    exceeds: bool,
    now_ns: u64,
) -> bool {
    rules.contains_key(metric_type) && spec_should_fire(rules[metric_type], exceeds, now_ns)
}

/// The rules after a check: an alert that fired records its time.
pub open spec fn spec_after_check(
    rules: Map<Seq<char>, AlertRule>,
    metric_type: Seq<char>,
    exceeds: bool,
    now_ns: u64,
) -> Map<Seq<char>, AlertRule> {
    if spec_check_fires(rules, metric_type, exceeds, now_ns) {
        rules.insert(metric_type, fired(rules[metric_type], now_ns))
    } else {
        rules
    }
}

/// The alert rules by metric type, and when they were last loaded.
pub struct AlertGate {
    rules: NameMap<AlertRule>,
    last_reload_ns: u64,
}

impl AlertGate {
    /// Each metric type has at most one rule.
    pub closed spec fn wf(&self) -> bool {
        self.rules.wf()
    }

    /// The rules by metric type.
    pub closed spec fn rules(&self) -> Map<Seq<char>, AlertRule> {
        self.rules.view()
    }

    /// When the rules were last loaded (nanoseconds on the monotonic clock).
    pub closed spec fn last_reload(&self) -> u64 {
        self.last_reload_ns
    }

    /// A gate without rules, loaded at `now_ns`.
    pub fn new(now_ns: u64) -> (r: Self)
        ensures
            r.wf(),
            r.rules() == Map::<Seq<char>, AlertRule>::empty(),
            r.last_reload() == now_ns,
    {
        AlertGate { rules: NameMap::new(), last_reload_ns: now_ns }
    }

    /// The rules are due for a reload: a whole minute has passed since the last one.
    pub fn reload_due(&self, now_ns: u64) -> (r: bool)
        ensures
            r == (whole_secs_between(self.last_reload(), now_ns) >= RELOAD_INTERVAL_SECS),
    {
        whole_secs_elapsed(self.last_reload_ns, now_ns) >= RELOAD_INTERVAL_SECS
    }

    /// Record a reload at `now_ns`.
    pub fn mark_reloaded(&mut self, now_ns: u64)
        requires
            old(self).wf(),
        ensures
            final(self).wf(),
            final(self).rules() == old(self).rules(),
            final(self).last_reload() == now_ns,
    {
        self.last_reload_ns = now_ns;
    }

    /// Load one row of the thresholds table.
    pub fn load_rule(&mut self, metric_type: &str, enabled: bool, cooldown_secs: u32)
        requires
            old(self).wf(),
        ensures
            final(self).wf(),
            final(self).rules() == spec_load(old(self).rules(), metric_type@, enabled, cooldown_secs),
            final(self).last_reload() == old(self).last_reload(),
    {
        let last_fired_ns = match self.rules.get(metric_type) {
            Some(rule) => rule.last_fired_ns,
            None => None,
        };
        self.rules.insert(metric_type, AlertRule { enabled, cooldown_secs, last_fired_ns });
    }

    /// Check a metric whose value did (`exceeds`) or did not exceed its
    /// threshold at `now_ns`; returns whether an alert is to be sent.
    pub fn check(&mut self, metric_type: &str, exceeds: bool, now_ns: u64) -> (r: bool)
        requires
            old(self).wf(),
        ensures
            final(self).wf(),
            r == spec_check_fires(old(self).rules(), metric_type@, exceeds, now_ns),
            final(self).rules() == spec_after_check(old(self).rules(), metric_type@, exceeds, now_ns),
            final(self).last_reload() == old(self).last_reload(),
    {
        let rule = match self.rules.get(metric_type) {
            Some(rule) => rule,
            None => return false,
        };
        if !(rule.enabled && exceeds) {
            return false;
        }
        match rule.last_fired_ns {
            Some(t) => {
                if whole_secs_elapsed(t, now_ns) < rule.cooldown_secs as u64 {
                    return false;
                }
            },
            None => {},
        }
        self.rules.insert(metric_type, AlertRule { last_fired_ns: Some(now_ns), ..rule });
        true
    }
}

/// Cooldown: once an alert fired for a metric at `fired_at`, no further alert
/// fires for it at a later time `now_ns` less than its cooldown (in whole
/// seconds) after, whatever the value.
pub proof fn law_no_repeat_within_cooldown(
    rule: AlertRule,
    exceeds: bool,
    fired_at: u64,
    later_exceeds: bool,
    now_ns: u64,
)
    requires
        spec_should_fire(rule, exceeds, fired_at),
        fired_at <= now_ns,
        whole_secs_between(fired_at, now_ns) < rule.cooldown_secs,
    ensures
        !spec_should_fire(fired(rule, fired_at), later_exceeds, now_ns),
{
}

/// After the cooldown has run out, a metric that still exceeds its threshold
/// alerts again.
pub proof fn law_repeat_after_cooldown(rule: AlertRule, fired_at: u64, now_ns: u64)
    requires
        rule.enabled,
        whole_secs_between(fired_at, now_ns) >= rule.cooldown_secs,
    ensures
        spec_should_fire(fired(rule, fired_at), true, now_ns),
{
}

/// A disabled rule never alerts, and a value that does not exceed the
/// threshold never alerts.
pub proof fn law_alert_needs_enabled_breach(rule: AlertRule, exceeds: bool, now_ns: u64)
    ensures
        spec_should_fire(rule, exceeds, now_ns) ==> rule.enabled && exceeds,
{
}

/// Reloading the thresholds keeps the time of the last alert of each metric,
/// so a reload does not cut a cooldown short.
pub proof fn law_reload_keeps_last_alert(
    rules: Map<Seq<char>, AlertRule>,
    metric_type: Seq<char>,
    enabled: bool,
    cooldown_secs: u32,
    other: Seq<char>,
)
    ensures
        rules.contains_key(other) ==> spec_load(rules, metric_type, enabled, cooldown_secs).contains_key(other)
            && spec_load(rules, metric_type, enabled, cooldown_secs)[other].last_fired_ns == rules[other].last_fired_ns,
        other != metric_type ==> spec_load(rules, metric_type, enabled, cooldown_secs).contains_key(other)
            == rules.contains_key(other),
{
}

/// A metric type without a rule never alerts, and a check changes no other
/// metric's rule.
pub proof fn law_check_is_local(
    rules: Map<Seq<char>, AlertRule>,
    metric_type: Seq<char>,
    exceeds: bool,
    now_ns: u64,
    other: Seq<char>,
)
    ensures
        !rules.contains_key(metric_type) ==> !spec_check_fires(rules, metric_type, exceeds, now_ns),
        other != metric_type ==> spec_after_check(rules, metric_type, exceeds, now_ns).contains_key(other)
            == rules.contains_key(other),
        other != metric_type && rules.contains_key(other) ==> spec_after_check(
            rules,
            metric_type,
            exceeds,
            now_ns,
        )[other] == rules[other],
{
}

/// The label a notification shows for a metric type: the six known types get
/// a readable name, any other type is shown as it is.
pub open spec fn spec_label(metric_type: Seq<char>) -> Seq<char> {
    if metric_type == "cpu"@ {
        "CPU"@
    } else if metric_type == "memory"@ {
        "Memory"@
    } else if metric_type == "disk_write"@ {
        "Disk Write"@
    } else if metric_type == "disk_read"@ {
        "Disk Read"@
    } else if metric_type == "net_in"@ {
        "Network In"@
    } else if metric_type == "net_out"@ {
        "Network Out"@
    } else {
        metric_type
    }
}

/// The readable label of a metric type.
pub fn metric_type_label<'a>(metric_type: &'a str) -> (r: &'a str)
    ensures
        r@ == spec_label(metric_type@),
{
    if str_eq(metric_type, "cpu") {
        "CPU"
    } else if str_eq(metric_type, "memory") {
        "Memory"
    } else if str_eq(metric_type, "disk_write") {
        "Disk Write"
    } else if str_eq(metric_type, "disk_read") {
        "Disk Read"
    } else if str_eq(metric_type, "net_in") {
        "Network In"
    } else if str_eq(metric_type, "net_out") {
        "Network Out"
    } else {
        metric_type
    }
}

/// The `enabled` column value stored for a threshold: 1 when on, 0 when off.
pub fn enabled_to_column(enabled: bool) -> (r: i32)
    ensures
        r == (if enabled {
            1i32
        } else {
            0i32
        }),
{
    if enabled {
        1
    } else {
        0
    }
}

/// Whether a stored `enabled` column value means on: any value but 0.
pub fn enabled_from_column(value: i32) -> (r: bool)
    ensures
        r == (value != 0),
{
    value != 0
}

/// A threshold's on/off setting reads back as it was stored.
pub proof fn law_enabled_round_trip(enabled: bool)
    ensures
        ((if enabled {
            1i32
        } else {
            0i32
        }) != 0) == enabled,
{
}

/// Loading a row of the thresholds table gives that metric exactly the
/// row's enabled flag and cooldown: a reload can turn alerts off or on and
/// change the cooldown.
pub proof fn law_load_takes_row_settings(
    rules: Map<Seq<char>, AlertRule>,
    metric_type: Seq<char>,
    enabled: bool,
    cooldown_secs: u32,
)
    ensures
        spec_load(rules, metric_type, enabled, cooldown_secs).contains_key(metric_type),
        spec_load(rules, metric_type, enabled, cooldown_secs)[metric_type].enabled == enabled,
        spec_load(rules, metric_type, enabled, cooldown_secs)[metric_type].cooldown_secs
            == cooldown_secs,
        !rules.contains_key(metric_type) ==> spec_load(
            rules,
            metric_type,
            enabled,
            cooldown_secs,
        )[metric_type].last_fired_ns is None,
{
}

/// Whole seconds: for a later time, the whole seconds `w` between the two
/// times satisfy `w` seconds <= elapsed < `w + 1` seconds; an earlier time
/// counts as no time at all.
pub proof fn law_whole_secs(since_ns: u64, now_ns: u64)
    ensures
        now_ns >= since_ns ==> whole_secs_between(since_ns, now_ns) * 1_000_000_000 <= now_ns
            - since_ns < (whole_secs_between(since_ns, now_ns) + 1) * 1_000_000_000,
        now_ns < since_ns ==> whole_secs_between(since_ns, now_ns) == 0,
{
    if now_ns >= since_ns {
        let d = (now_ns - since_ns) as int;
        assert(d / 1_000_000_000 * 1_000_000_000 <= d < (d / 1_000_000_000 + 1) * 1_000_000_000)
            by (nonlinear_arith);
    }
}

/// A check alerts exactly when the metric has a rule that is enabled, its
/// value exceeds the threshold, and either no alert fired yet or at least the
/// cooldown has passed (in whole seconds) since the last one; an alert
/// records its time and keeps the rule's settings, no alert changes nothing.
pub proof fn law_check_decides(
    rules: Map<Seq<char>, AlertRule>,
    metric_type: Seq<char>,
    exceeds: bool,
    now_ns: u64,
)
    ensures
        spec_check_fires(rules, metric_type, exceeds, now_ns) <==> (rules.contains_key(metric_type)
            && rules[metric_type].enabled && exceeds && (rules[metric_type].last_fired_ns is None
            || whole_secs_between(rules[metric_type].last_fired_ns->0, now_ns)
            >= rules[metric_type].cooldown_secs)),
        spec_check_fires(rules, metric_type, exceeds, now_ns) ==> {
            let after = spec_after_check(rules, metric_type, exceeds, now_ns);
            &&& after.contains_key(metric_type)
            &&& after[metric_type].last_fired_ns == Some(now_ns)
            &&& after[metric_type].enabled == rules[metric_type].enabled
            &&& after[metric_type].cooldown_secs == rules[metric_type].cooldown_secs
            &&& after.dom() == rules.dom()
        },
        !spec_check_fires(rules, metric_type, exceeds, now_ns) ==> spec_after_check(
            rules,
            metric_type,
            exceeds,
            now_ns,
        ) == rules,
{
    if spec_check_fires(rules, metric_type, exceeds, now_ns) {
        let after = spec_after_check(rules, metric_type, exceeds, now_ns);
        assert(after.dom() =~= rules.dom());
    }
}

/// Labels: the six known metric types get their readable names, and any other
/// metric type is shown unchanged.
pub proof fn law_labels(metric_type: Seq<char>)
    ensures
        spec_label("cpu"@) == "CPU"@,
        spec_label("memory"@) == "Memory"@,
        spec_label("disk_write"@) == "Disk Write"@,
        spec_label("disk_read"@) == "Disk Read"@,
        spec_label("net_in"@) == "Network In"@,
        spec_label("net_out"@) == "Network Out"@,
        metric_type != "cpu"@ && metric_type != "memory"@ && metric_type != "disk_write"@
            && metric_type != "disk_read"@ && metric_type != "net_in"@ && metric_type
            != "net_out"@ ==> spec_label(metric_type) == metric_type,
{
    reveal_strlit("cpu");
    reveal_strlit("memory");
    reveal_strlit("disk_write");
    reveal_strlit("disk_read");
    reveal_strlit("net_in");
    reveal_strlit("net_out");
    assert("memory"@.len() != "cpu"@.len());
    assert("disk_write"@.len() != "cpu"@.len());
    assert("disk_write"@.len() != "memory"@.len());
    assert("disk_read"@.len() != "cpu"@.len());
    assert("disk_read"@.len() != "memory"@.len());
    assert("disk_read"@.len() != "disk_write"@.len());
    assert("net_in"@.len() != "cpu"@.len());
    assert("net_in"@[0] != "memory"@[0]);
    assert("net_in"@.len() != "disk_write"@.len());
    assert("net_in"@.len() != "disk_read"@.len());
}

} // verus!
