//! Native platform decisions: which process-scoped tunables a change sets,
//! and the CPU masks that affinity settings select.
//!
//! Setting the OS priority and affinity happens at the edge of the program.

use vstd::prelude::*;

use crate::candidate::{Knob, KnobValue, Move};
use crate::error::Error;
use crate::text::{ascii_lower, decimal, eq_ignore_ascii_case, str_eq, usize_to_decimal};

verus! {

/// Priority labels the native platform supports.
#[derive(Debug, Clone, Copy, PartialEq, Eq, Structural)]
pub enum PriorityLevel {
    Normal,
    AboveNormal,
    High,
}

/// The priority level named by `s`, ignoring ASCII case.
pub open spec fn priority_named(s: Seq<char>) -> Option<PriorityLevel> {
    let l = ascii_lower(s);
    if l == ascii_lower("normal"@) {
        Some(PriorityLevel::Normal)
    } else if l == ascii_lower("above_normal"@) || l == ascii_lower("above-normal"@) {
        Some(PriorityLevel::AboveNormal)
    } else if l == ascii_lower("high"@) {
        Some(PriorityLevel::High)
    } else {
        None
    }
}

impl PriorityLevel {
    pub open spec fn name(self) -> Seq<char> {
        match self {
            PriorityLevel::Normal => "normal"@,
            PriorityLevel::AboveNormal => "above_normal"@,
            PriorityLevel::High => "high"@,
        }
    }

    /// The Unix nice value of the level: 0, -5, -10.
    pub open spec fn nice(self) -> i32 {
        match self {
            PriorityLevel::Normal => 0i32,
            PriorityLevel::AboveNormal => -5i32,
            PriorityLevel::High => -10i32,
        }
    }

    /// Parse a priority label, ignoring ASCII case.
    pub fn parse(s: &str) -> (p: Option<PriorityLevel>)
        ensures
            p == priority_named(s@),
    {
        if eq_ignore_ascii_case(s, "normal") {
            Some(PriorityLevel::Normal)
        } else if eq_ignore_ascii_case(s, "above_normal") || eq_ignore_ascii_case(s, "above-normal") {
            Some(PriorityLevel::AboveNormal)
        } else if eq_ignore_ascii_case(s, "high") {
            Some(PriorityLevel::High)
        } else {
            None
        }
    }

    pub fn as_str(self) -> (s: &'static str)
        ensures
            s@ == self.name(),
    {
        match self {
            PriorityLevel::Normal => "normal",
            PriorityLevel::AboveNormal => "above_normal",
            PriorityLevel::High => "high",
        }
    }

    /// The Unix nice value the level is applied with.
    pub fn nice_value(self) -> (n: i32)
        ensures
            n == self.nice(),
    {
        match self {
            PriorityLevel::Normal => 0,
            PriorityLevel::AboveNormal => -5,
            PriorityLevel::High => -10,
        }
    }
}

/// Law: the priority levels are applied with Unix nice values that start at
/// 0 for `normal` and drop by 5 with each level up, so a higher level always
/// runs with a strictly lower nice value and none is above 0 or below -10.
pub proof fn lemma_nice_values_step_down()
    ensures
        PriorityLevel::Normal.nice() == 0,
        PriorityLevel::AboveNormal.nice() == PriorityLevel::Normal.nice() - 5,
        PriorityLevel::High.nice() == PriorityLevel::AboveNormal.nice() - 5,
        forall|p: PriorityLevel| -10 <= #[trigger] p.nice() <= 0,
        forall|p: PriorityLevel| p != PriorityLevel::Normal ==> #[trigger] p.nice() < 0,
{
}

/// The affinity settings the native platform knows.
#[derive(Debug, Clone, Copy, PartialEq, Eq, Structural)]
pub enum AffinityKind {
    All,
    Even,
    Odd,
    FirstHalf,
}

/// The affinity setting named exactly by `s`.
pub open spec fn affinity_named(s: Seq<char>) -> Option<AffinityKind> {
    if s == "all"@ {
        Some(AffinityKind::All)
    } else if s == "even"@ {
        Some(AffinityKind::Even)
    } else if s == "odd"@ {
        Some(AffinityKind::Odd)
    } else if s == "first_half"@ {
        Some(AffinityKind::FirstHalf)
    } else {
        None
    }
}

/// Whether CPU `i` is in the mask of `kind` on a machine with `logical` CPUs
/// (at most 64 count).
pub open spec fn cpu_selected(kind: AffinityKind, logical: nat, i: nat) -> bool {
    let l = if logical <= 64 {
        logical
    } else {
        64
    };
    match kind {
        AffinityKind::All => i < l,
        AffinityKind::Even => i < l && i % 2 == 0,
        AffinityKind::Odd => i < l && i % 2 == 1,
        AffinityKind::FirstHalf => i < (if l / 2 >= 1 {
            l / 2
        } else {
            1
        }),
    }
}

/// Bit `i` of `m`.
pub open spec fn bit(m: u64, i: u64) -> bool {
    (m >> i) & 1u64 == 1u64
}

/// The message for an unknown affinity setting.
pub open spec fn unknown_affinity_message(s: Seq<char>) -> Seq<char> {
    "unsupported affinity spec '"@ + s + "' (use all|even|odd|first_half)"@
}

proof fn lemma_low_bits(n: u64, i: u64)
    by (bit_vector)
    requires
        n < 64,
        i < 64,
    ensures
        bit(((1u64 << n) - 1u64) as u64, i) <==> i < n,
{
}

proof fn lemma_all_bits(i: u64)
    by (bit_vector)
    requires
        i < 64,
    ensures
        bit(0xffff_ffff_ffff_ffffu64, i),
{
}

proof fn lemma_set_bit(m: u64, j: u64, i: u64)
    by (bit_vector)
    requires
        j < 64,
        i < 64,
    ensures
        bit(m | (1u64 << j), i) <==> (bit(m, i) || i == j),
{
}

proof fn lemma_zero_bits(i: u64)
    by (bit_vector)
    requires
        i < 64,
    ensures
        !bit(0u64, i),
{
}

/// `(1 << n) - 1`: the lowest `n` bits.
fn low_mask(n: u64) -> (m: u64)
    requires
        n < 64,
    ensures
        forall|i: u64| i < 64 ==> (bit(m, i) <==> i < n),
{
    assert((1u64 << n) >= 1u64) by (bit_vector)
        requires
            n < 64,
    ;
    let m = (1u64 << n) - 1;
    assert forall|i: u64| i < 64 implies (bit(m, i) <==> i < n) by {
        lemma_low_bits(n, i);
    }
    m
}

/// Mask of every second CPU below `l`, starting at `start`.
fn stride_mask(start: u64, l: u64) -> (m: u64)
    requires
        start < 2,
        l <= 64,
    ensures
        forall|i: u64| i < 64 ==> (bit(m, i) <==> (i < l && i % 2 == start)),
{
    let mut m: u64 = 0;
    let mut j: u64 = start;
    assert forall|i: u64| i < 64 implies (bit(m, i) <==> (i < j && i < l && i % 2 == start)) by {
        lemma_zero_bits(i);
    }
    while j < l
        invariant
            start < 2,
            l <= 64,
            j % 2 == start,
            j <= l + 1,
            forall|i: u64| i < 64 ==> (bit(m, i) <==> (i < j && i < l && i % 2 == start)),
        decreases l + 1 - j,
    {
        let m2 = m | (1u64 << j);
        assert forall|i: u64| i < 64 implies (bit(m2, i) <==> (i < j + 2 && i < l && i % 2 == start)) by {
            lemma_set_bit(m, j, i);
            if i == j + 1 {
                assert(i % 2 != start);
            }
        }
        m = m2;
        j = j + 2;
    }
    m
}

/// The CPU mask of an affinity setting: `all`, `even`, `odd` or
/// `first_half` of the first 64 logical CPUs; any other setting is refused.
pub fn parse_affinity_mask(spec: &str, logical: usize) -> (r: Result<u64, Error>)
    ensures
        (match affinity_named(spec@) {
            Some(kind) => r matches Ok(m) && forall|i: u64|
                i < 64 ==> (bit(m, i) <==> cpu_selected(kind, logical as nat, i as nat)),
            None => r matches Err(Error::InvalidConfig(msg)) && msg@ == unknown_affinity_message(
                spec@,
            ),
        }),
{
    let l: u64 = if logical <= 64 {
        logical as u64
    } else {
        64
    };
    if str_eq(spec, "all") {
        if l >= 64 {
            let m = 0xffff_ffff_ffff_ffffu64;
            assert forall|i: u64| i < 64 implies (bit(m, i) <==> cpu_selected(
                AffinityKind::All,
                logical as nat,
                i as nat,
            )) by {
                lemma_all_bits(i);
            }
            Ok(m)
        } else {
            Ok(low_mask(l))
        }
    } else if str_eq(spec, "even") {
        Ok(stride_mask(0, l))
    } else if str_eq(spec, "odd") {
        Ok(stride_mask(1, l))
    } else if str_eq(spec, "first_half") {
        let half: u64 = if l / 2 >= 1 {
            l / 2
        } else {
            1
        };
        Ok(low_mask(half))
    } else {
        let mut msg = String::from_str("unsupported affinity spec '");
        msg.append(spec);
        msg.append("' (use all|even|odd|first_half)");
        Err(Error::InvalidConfig(msg))
    }
}

/// What applying a validated change does on the native platform.
#[derive(Debug, Clone)]
pub enum NativeAction {
    /// Set the benchmark worker-thread count.
    SetWorkers(usize),
    /// Set the benchmark rayon-thread count.
    SetRayon(usize),
    /// Set the process priority.
    SetPriority(PriorityLevel),
    /// Set the process affinity to a named setting.
    SetAffinity(String),
}

/// A thread count from a value: an integer that fits a `usize`.
pub open spec fn thread_count_of(k: Knob) -> Option<nat> {
    match k {
        Knob::Int(v) => if 0 <= v && v <= usize::MAX {
            Some(v as nat)
        } else {
            None
        },
        _ => None,
    }
}

/// How a native platform answers a change of `key` to `next` on a machine
/// with `logical` CPUs.
pub open spec fn native_plan_ok(key: Seq<char>, next: Knob, logical: nat, r: Result<NativeAction, Error>) -> bool {
    if key == "bench.worker_threads"@ || key == "bench.rayon_threads"@ {
        let name = if key == "bench.worker_threads"@ {
            "worker_threads"@
        } else {
            "rayon_threads"@
        };
        match thread_count_of(next) {
            None => r matches Err(Error::InvalidConfig(m)) && m@ == name + " must be int"@,
            Some(n) => if n == 0 || n > logical * 2 {
                r matches Err(Error::InvalidConfig(m)) && m@ == name + " "@ + decimal(n)
                    + " out of safe range"@
            } else if key == "bench.worker_threads"@ {
                r matches Ok(NativeAction::SetWorkers(w)) && w == n
            } else {
                r matches Ok(NativeAction::SetRayon(w)) && w == n
            },
        }
    } else if key == "process.priority"@ {
        match next {
            Knob::Text(s) => match priority_named(s) {
                Some(level) => r matches Ok(NativeAction::SetPriority(p)) && p == level,
                None => r matches Err(Error::InvalidConfig(m)) && m@ == "unsupported priority level "@
                    + s,
            },
            _ => r matches Err(Error::InvalidConfig(m)) && m@ == "process.priority must be string"@,
        }
    } else if key == "process.affinity"@ {
        match next {
            Knob::Text(s) => r matches Ok(NativeAction::SetAffinity(a)) && a@ == s,
            _ => r matches Err(Error::InvalidConfig(m)) && m@ == "process.affinity must be string"@,
        }
    } else {
        r matches Err(Error::Unsupported(m)) && m@ == "parameter '"@ + key
            + "' is not applied in Milestone 1 native platform"@
    }
}

fn thread_action(worker: bool, next: &KnobValue, logical: usize) -> (r: Result<NativeAction, Error>)
    requires
        logical <= usize::MAX / 2,
    ensures
        native_plan_ok(
            if worker {
                "bench.worker_threads"@
            } else {
                "bench.rayon_threads"@
            },
            next@,
            logical as nat,
            r,
        ),
{
    proof {
        reveal_strlit("bench.worker_threads");
        reveal_strlit("bench.rayon_threads");
    }
    let name = if worker {
        "worker_threads"
    } else {
        "rayon_threads"
    };
    assert(name@ == (if worker {
        "worker_threads"@
    } else {
        "rayon_threads"@
    }));
    assert("bench.worker_threads"@.len() == 20);
    assert("bench.rayon_threads"@.len() == 19);
    let n = match next.as_usize() {
        Some(n) => n,
        None => {
            let mut m = String::from_str(name);
            m.append(" must be int");
            return Err(Error::InvalidConfig(m));
        },
    };
    if n == 0 || n > logical * 2 {
        let mut m = String::from_str(name);
        m.append(" ");
        let d = usize_to_decimal(n);
        m.append(d.as_str());
        m.append(" out of safe range");
        return Err(Error::InvalidConfig(m));
    }
    if worker {
        Ok(NativeAction::SetWorkers(n))
    } else {
        Ok(NativeAction::SetRayon(n))
    }
}

/// Validate a change for the native platform: thread counts must be integers
/// in `1..=2*logical`, priorities a known level, affinities text; any other
/// key is not applied.
pub fn plan_native_change(key: &str, next: &KnobValue, logical: usize) -> (r: Result<NativeAction, Error>)
    requires
        logical <= usize::MAX / 2,
    ensures
        native_plan_ok(key@, next@, logical as nat, r),
{
    proof {
        reveal_strlit("bench.worker_threads");
        reveal_strlit("bench.rayon_threads");
        reveal_strlit("process.priority");
        reveal_strlit("process.affinity");
    }
    if str_eq(key, "bench.worker_threads") {
        thread_action(true, next, logical)
    } else if str_eq(key, "bench.rayon_threads") {
        thread_action(false, next, logical)
    } else if str_eq(key, "process.priority") {
        match next {
            KnobValue::Text(s) => match PriorityLevel::parse(s.as_str()) {
                Some(level) => Ok(NativeAction::SetPriority(level)),
                None => {
                    let mut m = String::from_str("unsupported priority level ");
                    m.append(s.as_str());
                    Err(Error::InvalidConfig(m))
                },
            },
            _ => Err(Error::InvalidConfig(String::from_str("process.priority must be string"))),
        }
    } else if str_eq(key, "process.affinity") {
        match next {
            KnobValue::Text(s) => Ok(NativeAction::SetAffinity(s.clone())),
            _ => Err(Error::InvalidConfig(String::from_str("process.affinity must be string"))),
        }
    } else {
        let mut m = String::from_str("parameter '");
        m.append(key);
        m.append("' is not applied in Milestone 1 native platform");
        Err(Error::Unsupported(m))
    }
}

/// The rollback of a change: the same key, from `next` back to `previous`.
pub open spec fn rollback_move(m: Move) -> Move {
    Move { key: m.key, previous: m.next, next: m.previous, rationale: "rollback"@ }
}

/// The rollback of a change: the same key, from `next` back to `previous`.
pub fn rollback_of(change: &crate::candidate::ParamChange) -> (r: crate::candidate::ParamChange)
    ensures
        r@ == rollback_move(change@),
{
    crate::candidate::ParamChange {
        key: change.key.clone(),
        previous: change.next.duplicate(),
        next: change.previous.duplicate(),
        rationale: String::from_str("rollback"),
    }
}

/// The parameter values the native platform tracks, keyed by parameter id.
#[derive(Debug)]
pub struct NativeParams {
    pub entries: Vec<(String, KnobValue)>,
}

/// Model of the parameter table.
pub open spec fn param_views(v: Seq<(String, KnobValue)>) -> Seq<(Seq<char>, Knob)> {
    v.map_values(|e: (String, KnobValue)| (e.0@, e.1@))
}

/// The value recorded for `key`, if any (the first entry with that key).
pub open spec fn param_lookup(s: Seq<(Seq<char>, Knob)>, key: Seq<char>) -> Option<Knob>
    decreases s.len(),
{
    if s.len() == 0 {
        None
    } else if s[0].0 == key {
        Some(s[0].1)
    } else {
        param_lookup(s.drop_first(), key)
    }
}

/// Each key occurs once.
pub open spec fn keys_unique(s: Seq<(Seq<char>, Knob)>) -> bool {
    forall|i: int, j: int| 0 <= i < j < s.len() ==> (#[trigger] s[i]).0 != (#[trigger] s[j]).0
}

/// The default thread count of the native platform: the logical CPU count
/// clamped to `1..=16`.
pub open spec fn default_threads(logical: nat) -> nat {
    if logical < 1 {
        1
    } else if logical > 16 {
        16
    } else {
        logical
    }
}

proof fn lemma_lookup_at(s: Seq<(Seq<char>, Knob)>, key: Seq<char>, i: int)
    requires
        0 <= i < s.len(),
        s[i].0 == key,
        forall|k: int| 0 <= k < i ==> s[k].0 != key,
    ensures
        param_lookup(s, key) == Some(s[i].1),
    decreases i,
{
    if i > 0 {
        lemma_lookup_at(s.drop_first(), key, i - 1);
    }
}

proof fn lemma_lookup_none(s: Seq<(Seq<char>, Knob)>, key: Seq<char>)
    requires
        forall|k: int| 0 <= k < s.len() ==> s[k].0 != key,
    ensures
        param_lookup(s, key) is None,
    decreases s.len(),
{
    if s.len() > 0 {
        lemma_lookup_none(s.drop_first(), key);
    }
}

proof fn lemma_lookup_other_push(s: Seq<(Seq<char>, Knob)>, e: (Seq<char>, Knob), key: Seq<char>)
    requires
        e.0 != key,
    ensures
        param_lookup(s.push(e), key) == param_lookup(s, key),
    decreases s.len(),
{
    if s.len() > 0 {
        assert(s.push(e).drop_first() =~= s.drop_first().push(e));
        lemma_lookup_other_push(s.drop_first(), e, key);
    } else {
        assert(s.push(e).drop_first() =~= Seq::<(Seq<char>, Knob)>::empty());
        assert(param_lookup(Seq::<(Seq<char>, Knob)>::empty(), key) is None);
        assert(s =~= Seq::<(Seq<char>, Knob)>::empty());
    }
}

impl NativeParams {
    /// The table as the platform starts: worker and rayon threads at the
    /// default count, priority `normal`, affinity `all`.
    pub fn detected(logical: usize) -> (p: NativeParams)
        ensures
            param_views(p.entries@) == seq![
                ("bench.worker_threads"@, Knob::Int(default_threads(logical as nat) as int)),
                ("bench.rayon_threads"@, Knob::Int(default_threads(logical as nat) as int)),
                ("process.priority"@, Knob::Text("normal"@)),
                ("process.affinity"@, Knob::Text("all"@)),
            ],
            keys_unique(param_views(p.entries@)),
    {
        proof {
            reveal_strlit("bench.worker_threads");
            reveal_strlit("bench.rayon_threads");
            reveal_strlit("process.priority");
            reveal_strlit("process.affinity");
        }
        let d: usize = if logical < 1 {
            1
        } else if logical > 16 {
            16
        } else {
            logical
        };
        let mut entries: Vec<(String, KnobValue)> = Vec::new();
        entries.push((String::from_str("bench.worker_threads"), KnobValue::Int(d as i64)));
        entries.push((String::from_str("bench.rayon_threads"), KnobValue::Int(d as i64)));
        entries.push((String::from_str("process.priority"), KnobValue::Text(String::from_str("normal"))));
        entries.push((String::from_str("process.affinity"), KnobValue::Text(String::from_str("all"))));
        let p = NativeParams { entries };
        assert(param_views(p.entries@) =~= seq![
            ("bench.worker_threads"@, Knob::Int(default_threads(logical as nat) as int)),
            ("bench.rayon_threads"@, Knob::Int(default_threads(logical as nat) as int)),
            ("process.priority"@, Knob::Text("normal"@)),
            ("process.affinity"@, Knob::Text("all"@)),
        ]);
        assert("bench.worker_threads"@.len() == 20);
        assert("bench.rayon_threads"@.len() == 19);
        assert("process.priority"@.len() == 16);
        assert("process.affinity"@.len() == 16);
        assert("process.priority"@[8] == 'p');
        assert("process.affinity"@[8] == 'a');
        p
    }

    fn position(&self, key: &str) -> (r: Option<usize>)
        ensures
            (match r {
                Some(i) => i < self.entries@.len() && param_views(self.entries@)[i as int].0 == key@
                    && forall|k: int| 0 <= k < i ==> param_views(self.entries@)[k].0 != key@,
                None => forall|k: int|
                    0 <= k < self.entries@.len() ==> param_views(self.entries@)[k].0 != key@,
            }),
    {
        let ghost s = param_views(self.entries@);
        for i in 0..self.entries.len()
            invariant
                s == param_views(self.entries@),
                forall|k: int| 0 <= k < i ==> s[k].0 != key@,
        {
            assert(s[i as int].0 == self.entries@[i as int].0@);
            if str_eq(self.entries[i].0.as_str(), key) {
                return Some(i);
            }
        }
        None
    }

    /// The current value of a parameter; an unknown key is unsupported.
    pub fn read(&self, key: &str) -> (r: Result<KnobValue, Error>)
        ensures
            (match param_lookup(param_views(self.entries@), key@) {
                Some(v) => r matches Ok(x) && x@ == v,
                None => r matches Err(Error::Unsupported(m)) && m@ == "unknown or unsupported param "@
                    + key@,
            }),
    {
        match self.position(key) {
            Some(i) => {
                proof {
                    lemma_lookup_at(param_views(self.entries@), key@, i as int);
                }
                Ok(self.entries[i].1.duplicate())
            },
            None => {
                proof {
                    lemma_lookup_none(param_views(self.entries@), key@);
                }
                let mut m = String::from_str("unknown or unsupported param ");
                m.append(key);
                Err(Error::Unsupported(m))
            },
        }
    }

    /// Record a parameter's new value.
    pub fn set(&mut self, key: &str, value: KnobValue)
        requires
            keys_unique(param_views(old(self).entries@)),
        ensures
            keys_unique(param_views(final(self).entries@)),
            set_effect(param_views(old(self).entries@), param_views(final(self).entries@), key@, value@),
    {
        let ghost s = param_views(self.entries@);
        match self.position(key) {
            Some(i) => {
                let name = self.entries[i].0.clone();
                let ghost v = value@;
                self.entries.set(i, (name, value));
                proof {
                    let t = param_views(self.entries@);
                    assert(t =~= s.update(i as int, (key@, v)));
                    lemma_lookup_at(t, key@, i as int);
                    assert forall|k: Seq<char>| k != key@ implies param_lookup(t, k) == param_lookup(s, k) by {
                        lemma_lookup_update_other(s, i as int, (key@, v), k);
                    }
                    assert forall|a: int, b: int| 0 <= a < b < t.len() implies (#[trigger] t[a]).0
                        != (#[trigger] t[b]).0 by {
                        assert(s[a].0 == t[a].0 || a == i);
                        assert(s[b].0 == t[b].0 || b == i);
                    }
                }
            },
            None => {
                let ghost v = value@;
                self.entries.push((String::from_str(key), value));
                proof {
                    let t = param_views(self.entries@);
                    assert(t =~= s.push((key@, v)));
                    lemma_lookup_at(t, key@, s.len() as int);
                    assert forall|k: Seq<char>| k != key@ implies param_lookup(t, k) == param_lookup(s, k) by {
                        lemma_lookup_other_push(s, (key@, v), k);
                    }
                }
            },
        }
    }

    /// Whether the parameter currently holds `value` (`verify_change`).
    pub fn holds(&self, key: &str, value: &KnobValue) -> (b: bool)
        ensures
            b == (param_lookup(param_views(self.entries@), key@) == Some(value@)),
    {
        match self.position(key) {
            Some(i) => {
                proof {
                    lemma_lookup_at(param_views(self.entries@), key@, i as int);
                }
                self.entries[i].1.same_as(value)
            },
            None => {
                proof {
                    lemma_lookup_none(param_views(self.entries@), key@);
                }
                false
            },
        }
    }
}

/// What setting `key` to `v` does to a table: `key` now reads `v`, and
/// every other key reads as before.
pub open spec fn set_effect(
    before: Seq<(Seq<char>, Knob)>,
    after: Seq<(Seq<char>, Knob)>,
    key: Seq<char>,
    v: Knob,
) -> bool {
    &&& param_lookup(after, key) == Some(v)
    &&& forall|k: Seq<char>| k != key ==> #[trigger] param_lookup(after, k) == param_lookup(before, k)
}

/// Law: applying a change to the parameter table and then applying its
/// rollback leaves every parameter reading as it did before, provided the
/// change started from the value the table held.
pub proof fn lemma_apply_then_rollback_restores(
    s0: Seq<(Seq<char>, Knob)>,
    s1: Seq<(Seq<char>, Knob)>,
    s2: Seq<(Seq<char>, Knob)>,
    c: Move,
)
    requires
        param_lookup(s0, c.key) == Some(c.previous),
        set_effect(s0, s1, c.key, c.next),
        set_effect(s1, s2, rollback_move(c).key, rollback_move(c).next),
    ensures
        forall|k: Seq<char>| #[trigger] param_lookup(s2, k) == param_lookup(s0, k),
{
    assert forall|k: Seq<char>| #[trigger] param_lookup(s2, k) == param_lookup(s0, k) by {
        if k != c.key {
            assert(param_lookup(s2, k) == param_lookup(s1, k));
            assert(param_lookup(s1, k) == param_lookup(s0, k));
        }
    }
}

/// Law: the rollback of a rollback sets the same key from and to the same
/// values as the change itself.
pub proof fn lemma_rollback_involution(m: Move)
    ensures
        rollback_move(rollback_move(m)).key == m.key,
        rollback_move(rollback_move(m)).previous == m.previous,
        rollback_move(rollback_move(m)).next == m.next,
{
}

proof fn lemma_lookup_update_other(s: Seq<(Seq<char>, Knob)>, i: int, e: (Seq<char>, Knob), key: Seq<char>)
    requires
        0 <= i < s.len(),
        e.0 == s[i].0,
        e.0 != key,
    ensures
        param_lookup(s.update(i, e), key) == param_lookup(s, key),
    decreases s.len(),
{
    if i > 0 {
        assert(s.update(i, e).drop_first() =~= s.drop_first().update(i - 1, e));
        lemma_lookup_update_other(s.drop_first(), i - 1, e, key);
    } else {
        assert(s.update(i, e).drop_first() =~= s.drop_first());
    }
}

/// Whether an optimize mode may run on a platform: every mode is available
/// without the privileged agent.
pub fn mode_allowed(mode: crate::config::OptimizeMode) -> (r: Result<(), Error>)
    ensures
        r is Ok,
{
    if !mode.supported_without_agent() {
        let mut m = String::from_str("optimize mode '");
        m.append(mode.as_str());
        m.append("' is not available in Milestone 1 (use --mode safe)");
        return Err(Error::Unsupported(m));
    }
    Ok(())
}

} // verus!
