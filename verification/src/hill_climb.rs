//! Deterministic hill-climb planning over a small discrete parameter space.
//!
//! The strategy reads the platform's current knob values and topology; this
//! module turns those readings into the ordered neighborhood it explores and
//! decides when the search must stop.

use vstd::prelude::*;

use crate::candidate::{
    content_hash_of, find_first_with_key, first_with_key, knob_display, knob_int, meta_entries,
    meta_insert, meta_new, meta_position, move_views, Candidate, Knob, KnobValue, Move, ParamChange,
};
use crate::classification::ComparisonClass;
use crate::text::{decimal, join, join_strings, str_eq, u64_to_decimal, usize_to_decimal, views};

verus! {

/// The integer progress fields of a search context.
#[derive(Debug, Clone)]
pub struct SearchProgress {
    pub generation: usize,
    pub experiments_done: usize,
    pub plateau_count: usize,
    pub last_class: Option<ComparisonClass>,
    pub elapsed_secs: u64,
    pub max_experiments: usize,
    pub time_budget_secs: u64,
    pub plateau_limit: usize,
}

/// Why a budgeted search stops before proposing anything, if it must.
pub open spec fn budget_stop(p: SearchProgress) -> Option<Seq<char>> {
    if p.experiments_done >= p.max_experiments {
        Some("max experiments reached"@)
    } else if p.elapsed_secs >= p.time_budget_secs {
        Some("time budget exhausted"@)
    } else if p.plateau_count >= p.plateau_limit {
        Some("plateau detected"@)
    } else {
        None
    }
}

/// The hill-climb also stops on unstable results once a plateau has begun.
pub open spec fn hill_climb_stop(p: SearchProgress) -> Option<Seq<char>> {
    match budget_stop(p) {
        Some(r) => Some(r),
        None => if p.last_class == Some(ComparisonClass::UnstableResult) && p.plateau_count >= 2 {
            Some("unstable results"@)
        } else {
            None
        },
    }
}

impl SearchProgress {
    /// Stop reason shared by every strategy: experiment count, time, plateau.
    pub fn budget_stop_reason(&self) -> (r: Option<String>)
        ensures
            (match r {
                Some(s) => Some(s@),
                None => None::<Seq<char>>,
            }) == budget_stop(*self),
    {
        if self.experiments_done >= self.max_experiments {
            Some(String::from_str("max experiments reached"))
        } else if self.elapsed_secs >= self.time_budget_secs {
            Some(String::from_str("time budget exhausted"))
        } else if self.plateau_count >= self.plateau_limit {
            Some(String::from_str("plateau detected"))
        } else {
            None
        }
    }

    /// Stop reason of the hill-climb.
    pub fn hill_climb_stop_reason(&self) -> (r: Option<String>)
        ensures
            (match r {
                Some(s) => Some(s@),
                None => None::<Seq<char>>,
            }) == hill_climb_stop(*self),
    {
        let b = self.budget_stop_reason();
        if b.is_some() {
            return b;
        }
        let unstable = match self.last_class {
            Some(ComparisonClass::UnstableResult) => true,
            _ => false,
        };
        if unstable && self.plateau_count >= 2 {
            Some(String::from_str("unstable results"))
        } else {
            None
        }
    }
}

/// One of the thread counts the hill-climb considers around `cur`.
pub open spec fn is_thread_candidate(cur: nat, logical: nat, x: nat) -> bool {
    let below = if cur >= 3 { (cur - 2) as nat } else { 1nat };
    let above = if cur + 2 <= (if logical >= cur { logical } else { cur }) {
        cur + 2
    } else {
        if logical >= cur { logical } else { cur }
    };
    let half = if logical / 2 >= 1 { logical / 2 } else { 1nat };
    let three_quarters = if logical * 3 / 4 >= 1 { logical * 3 / 4 } else { 1nat };
    ||| x == 1
    ||| x == 2
    ||| x == below
    ||| x == cur
    ||| x == above
    ||| x == logical
    ||| x == half
    ||| x == three_quarters
}

/// A candidate that also respects the oversubscription caps.
pub open spec fn thread_choice_ok(cur: nat, logical: nat, x: nat) -> bool {
    let cap = if logical >= 1 { logical } else { 1nat };
    &&& is_thread_candidate(cur, logical, x)
    &&& 1 <= x
    &&& x <= cap * 2
    &&& x <= 64
}

/// The admissible thread counts among `1..=k`, ascending.
pub open spec fn thread_choices_upto(cur: nat, logical: nat, k: nat) -> Seq<usize>
    decreases k,
{
    if k == 0 {
        Seq::empty()
    } else if thread_choice_ok(cur, logical, k) {
        thread_choices_upto(cur, logical, (k - 1) as nat).push(k as usize)
    } else {
        thread_choices_upto(cur, logical, (k - 1) as nat)
    }
}

/// The sorted, de-duplicated thread counts the hill-climb tries around `cur`.
pub open spec fn thread_choices(cur: nat, logical: nat) -> Seq<usize> {
    thread_choices_upto(cur, logical, 64)
}

proof fn lemma_choices_upto(cur: nat, logical: nat, k: nat)
    requires
        k <= 64,
    ensures
        forall|i: int, j: int|
            0 <= i < j < thread_choices_upto(cur, logical, k).len() ==> thread_choices_upto(
                cur,
                logical,
                k,
            )[i] < thread_choices_upto(cur, logical, k)[j],
        forall|x: usize|
            #[trigger] thread_choices_upto(cur, logical, k).contains(x) ==> x <= k
                && thread_choice_ok(cur, logical, x as nat),
        forall|x: usize|
            x <= k && #[trigger] thread_choice_ok(cur, logical, x as nat) ==> thread_choices_upto(
                cur,
                logical,
                k,
            ).contains(x),
    decreases k,
{
    if k > 0 {
        let k1 = (k - 1) as nat;
        lemma_choices_upto(cur, logical, k1);
        let p = thread_choices_upto(cur, logical, k1);
        let s = thread_choices_upto(cur, logical, k);
        if thread_choice_ok(cur, logical, k) {
            assert(s == p.push(k as usize));
            assert((k as usize) as nat == k);
            assert forall|x: usize| s.contains(x) implies x <= k && thread_choice_ok(
                cur,
                logical,
                x as nat,
            ) by {
                let i = choose|i: int| 0 <= i < s.len() && s[i] == x;
                if i < p.len() {
                    assert(p[i] == x);
                    assert(p.contains(x));
                } else {
                    assert(i == p.len());
                    assert(s[i] == k as usize);
                }
            }
            assert forall|x: usize| x <= k && thread_choice_ok(cur, logical, x as nat) implies s.contains(
                x,
            ) by {
                if x == k {
                    assert(s[p.len() as int] == x);
                } else {
                    assert(p.contains(x));
                    let i = choose|i: int| 0 <= i < p.len() && p[i] == x;
                    assert(s[i] == x);
                }
            }
            assert forall|i: int, j: int| 0 <= i < j < s.len() implies s[i] < s[j] by {
                if j == p.len() {
                    assert(p.contains(p[i]));
                    assert(p[i] <= k1);
                    assert(s[j] == k as usize);
                } else {
                    assert(s[i] == p[i] && s[j] == p[j]);
                }
            }
        } else {
            assert(s == p);
        }
    }
}

/// Law: the thread choices are strictly increasing (sorted and free of
/// duplicates) and hold exactly the admissible candidates.
pub proof fn lemma_thread_choices(cur: nat, logical: nat)
    ensures
        forall|i: int, j: int|
            0 <= i < j < thread_choices(cur, logical).len() ==> thread_choices(cur, logical)[i]
                < thread_choices(cur, logical)[j],
        forall|x: usize|
            thread_choices(cur, logical).contains(x) <==> thread_choice_ok(cur, logical, x as nat),
{
    lemma_choices_upto(cur, logical, 64);
}

/// Thread counts to try around `current`: 1, 2, current±2, current, the
/// machine's logical count and its half and three quarters; sorted,
/// de-duplicated, at least 1, at most twice the logical count and at most 64.
pub fn unique_thread_choices(current: usize, logical: usize) -> (v: Vec<usize>)
    requires
        current <= usize::MAX - 2,
        logical <= usize::MAX / 3,
    ensures
        v@ == thread_choices(current as nat, logical as nat),
{
    let below = if current >= 3 { current - 2 } else { 1 };
    let top = if logical >= current { logical } else { current };
    let above = if current + 2 <= top { current + 2 } else { top };
    let half = if logical / 2 >= 1 { logical / 2 } else { 1 };
    let tq = if logical * 3 / 4 >= 1 { logical * 3 / 4 } else { 1 };
    let cap = if logical >= 1 { logical } else { 1 };
    let mut v: Vec<usize> = Vec::new();
    let mut x: usize = 1;
    while x <= 64
        invariant
            1 <= x <= 65,
            below == (if current >= 3 { (current - 2) as nat } else { 1nat }),
            top == (if logical >= current { logical } else { current }),
            above == (if current + 2 <= top { current + 2 } else { top as int }),
            half == (if logical / 2 >= 1 { logical / 2 } else { 1 }),
            tq == (if logical * 3 / 4 >= 1 { logical * 3 / 4 } else { 1 }),
            cap == (if logical >= 1 { logical } else { 1 }),
            logical <= usize::MAX / 3,
            v@ == thread_choices_upto(current as nat, logical as nat, (x - 1) as nat),
        decreases 65 - x,
    {
        let cand = x == 1 || x == 2 || x == below || x == current || x == above || x == logical
            || x == half || x == tq;
        if cand && x <= cap * 2 {
            v.push(x);
        }
        x = x + 1;
    }
    v
}

/// Exploration priority (lower first): raising priority first, then nearby
/// and higher thread counts, lowering thread counts last but one, affinity last.
pub open spec fn move_priority(m: Move) -> int {
    if m.key == "process.priority"@ {
        if m.next == Knob::Text("above_normal"@) {
            5
        } else {
            40
        }
    } else if m.key == "bench.worker_threads"@ || m.key == "bench.rayon_threads"@ {
        let n = knob_int(m.next);
        let cur = knob_int(m.previous);
        let delta = if n >= cur { n - cur } else { cur - n };
        20 + (if n < cur { 1000int } else { 0int }) + delta
    } else if m.key == "process.affinity"@ {
        500
    } else {
        100
    }
}

/// Moves of a thread knob from `cur` to each choice other than `cur`.
pub open spec fn thread_moves(key: Seq<char>, cur: nat, choices: Seq<usize>, worker: bool) -> Seq<Move>
    decreases choices.len(),
{
    if choices.len() == 0 {
        Seq::empty()
    } else {
        let rest = thread_moves(key, cur, choices.drop_last(), worker);
        let n = choices.last() as nat;
        if n != cur {
            rest.push(
                Move {
                    key,
                    previous: Knob::Int(cur as int),
                    next: Knob::Int(n as int),
                    rationale: thread_rationale(worker, cur, n),
                },
            )
        } else {
            rest
        }
    }
}

/// Rationale of a worker-thread (`worker`) or rayon-thread move.
pub open spec fn thread_rationale(worker: bool, cur: nat, n: nat) -> Seq<char> {
    if worker {
        "Hill-climb worker_threads "@ + decimal(cur) + "->"@ + decimal(n) + " to test parallel scaling"@
    } else {
        "Hill-climb rayon_threads "@ + decimal(cur) + "->"@ + decimal(n)
    }
}

/// Moves of a text knob from `cur` to each of `options` other than `cur`.
pub open spec fn text_moves(key: Seq<char>, cur: Seq<char>, options: Seq<Seq<char>>, why: Seq<char>) -> Seq<Move>
    decreases options.len(),
{
    if options.len() == 0 {
        Seq::empty()
    } else {
        let rest = text_moves(key, cur, options.drop_last(), why);
        let o = options.last();
        if o != cur {
            rest.push(
                Move {
                    key,
                    previous: Knob::Text(cur),
                    next: Knob::Text(o),
                    rationale: why + cur + "->"@ + o,
                },
            )
        } else {
            rest
        }
    }
}

/// Stable insertion: `m` goes after every element of priority at most its own.
pub open spec fn insert_by_priority(s: Seq<Move>, m: Move) -> Seq<Move>
    decreases s.len(),
{
    if s.len() == 0 {
        seq![m]
    } else if move_priority(s.last()) <= move_priority(m) {
        s.push(m)
    } else {
        insert_by_priority(s.drop_last(), m).push(s.last())
    }
}

/// Stable sort by priority (`sort_by_key`).
pub open spec fn sort_by_priority(s: Seq<Move>) -> Seq<Move>
    decreases s.len(),
{
    if s.len() == 0 {
        Seq::empty()
    } else {
        insert_by_priority(sort_by_priority(s.drop_last()), s.last())
    }
}

/// How much a move raises a worker- or rayon-thread count, when it is such
/// a raise.
pub open spec fn thread_raise(m: Move) -> Option<int> {
    if m.key == "bench.worker_threads"@ || m.key == "bench.rayon_threads"@ {
        match (m.previous, m.next) {
            (Knob::Int(c), Knob::Int(n)) => if n > c {
                Some(n - c)
            } else {
                None
            },
            _ => None,
        }
    } else {
        None
    }
}

/// Moves in order of non-decreasing priority.
pub open spec fn priority_sorted(s: Seq<Move>) -> bool {
    forall|i: int, j: int| 0 <= i < j < s.len() ==> move_priority(#[trigger] s[i]) <= move_priority(#[trigger] s[j])
}

proof fn lemma_insert_bounded(s: Seq<Move>, m: Move, p: int)
    requires
        forall|i: int| 0 <= i < s.len() ==> move_priority(#[trigger] s[i]) <= p,
        move_priority(m) <= p,
    ensures
        forall|i: int| 0 <= i < insert_by_priority(s, m).len() ==> move_priority(#[trigger] insert_by_priority(s, m)[i]) <= p,
        insert_by_priority(s, m).len() == s.len() + 1,
    decreases s.len(),
{
    if s.len() > 0 && move_priority(s.last()) > move_priority(m) {
        let d = s.drop_last();
        assert forall|i: int| 0 <= i < d.len() implies move_priority(#[trigger] d[i]) <= p by {
            assert(d[i] == s[i]);
        }
        lemma_insert_bounded(d, m, p);
        let r = insert_by_priority(s, m);
        assert forall|i: int| 0 <= i < r.len() implies move_priority(#[trigger] r[i]) <= p by {
            if i < r.len() - 1 {
                assert(r[i] == insert_by_priority(d, m)[i]);
            } else {
                assert(r[i] == s[s.len() - 1]);
            }
        }
    }
}

proof fn lemma_insert_sorted(s: Seq<Move>, m: Move)
    requires
        priority_sorted(s),
    ensures
        priority_sorted(insert_by_priority(s, m)),
        insert_by_priority(s, m).len() == s.len() + 1,
    decreases s.len(),
{
    if s.len() == 0 {
    } else if move_priority(s.last()) <= move_priority(m) {
        let r = s.push(m);
        assert forall|i: int, j: int| 0 <= i < j < r.len() implies move_priority(#[trigger] r[i]) <= move_priority(
            #[trigger] r[j],
        ) by {
            if j == s.len() {
                if i < s.len() - 1 {
                    assert(move_priority(s[i]) <= move_priority(s[s.len() - 1]));
                }
            } else {
                assert(r[i] == s[i] && r[j] == s[j]);
            }
        }
    } else {
        let d = s.drop_last();
        let last = s.last();
        assert(priority_sorted(d)) by {
            assert forall|i: int, j: int| 0 <= i < j < d.len() implies move_priority(#[trigger] d[i]) <= move_priority(
                #[trigger] d[j],
            ) by {
                assert(d[i] == s[i] && d[j] == s[j]);
            }
        }
        lemma_insert_sorted(d, m);
        assert forall|i: int| 0 <= i < d.len() implies move_priority(#[trigger] d[i]) <= move_priority(last) by {
            assert(d[i] == s[i]);
            assert(move_priority(s[i]) <= move_priority(s[s.len() - 1]));
        }
        lemma_insert_bounded(d, m, move_priority(last));
        let r0 = insert_by_priority(d, m);
        let r = insert_by_priority(s, m);
        assert(r == r0.push(last));
        assert forall|i: int, j: int| 0 <= i < j < r.len() implies move_priority(#[trigger] r[i]) <= move_priority(
            #[trigger] r[j],
        ) by {
            assert(r[i] == r0[i]);
            if j < r0.len() {
                assert(r[j] == r0[j]);
            } else {
                assert(r[j] == last);
            }
        }
    }
}

proof fn lemma_sort_sorted(s: Seq<Move>)
    ensures
        priority_sorted(sort_by_priority(s)),
        sort_by_priority(s).len() == s.len(),
    decreases s.len(),
{
    if s.len() > 0 {
        lemma_sort_sorted(s.drop_last());
        lemma_insert_sorted(sort_by_priority(s.drop_last()), s.last());
    }
}

proof fn lemma_raise_priority(m: Move)
    requires
        thread_raise(m) is Some,
    ensures
        move_priority(m) == 20 + thread_raise(m)->0,
{
    reveal_strlit("bench.worker_threads");
    reveal_strlit("bench.rayon_threads");
    reveal_strlit("process.priority");
    assert(m.key != "process.priority"@) by {
        if m.key == "bench.worker_threads"@ {
            assert("bench.worker_threads"@[0] != "process.priority"@[0]);
        } else {
            assert("bench.rayon_threads"@[0] != "process.priority"@[0]);
        }
    }
}

/// Law: the exploration order (the sorted neighborhood, before the seeded
/// swap) tries a thread-count raise by less before a raise by more, whether
/// it raises worker or rayon threads: the priority of a raise is 20 plus the
/// amount raised.
pub proof fn lemma_smaller_raises_first(s: Seq<Move>)
    ensures
        forall|a: int, b: int|
            0 <= a < sort_by_priority(s).len() && 0 <= b < sort_by_priority(s).len()
                && (#[trigger] thread_raise(sort_by_priority(s)[a])) is Some
                && (#[trigger] thread_raise(sort_by_priority(s)[b])) is Some
                && thread_raise(sort_by_priority(s)[a])->0 < thread_raise(sort_by_priority(s)[b])->0 ==> a < b,
        forall|m: Move| #[trigger] thread_raise(m) is Some ==> move_priority(m) == 20 + thread_raise(m)->0,
{
    let t = sort_by_priority(s);
    lemma_sort_sorted(s);
    assert forall|m: Move| #[trigger] thread_raise(m) is Some implies move_priority(m) == 20 + thread_raise(m)->0 by {
        lemma_raise_priority(m);
    }
    assert forall|a: int, b: int|
        0 <= a < t.len() && 0 <= b < t.len() && (#[trigger] thread_raise(t[a])) is Some
            && (#[trigger] thread_raise(t[b])) is Some && thread_raise(t[a])->0 < thread_raise(t[b])->0 implies a < b by {
        lemma_raise_priority(t[a]);
        lemma_raise_priority(t[b]);
        if b < a {
            assert(move_priority(t[b]) <= move_priority(t[a]));
        }
    }
}

/// A thread count read from the platform, when it is a non-negative integer
/// that fits a `usize`.
pub open spec fn reading_count(r: Option<i64>) -> Option<nat> {
    match r {
        Some(v) => if 0 <= v && v <= usize::MAX {
            Some(v as nat)
        } else {
            None
        },
        None => None,
    }
}

/// A reading leaves room for `current + 2` in a `usize`.
pub open spec fn reading_fits(r: Option<i64>) -> bool {
    match r {
        Some(v) => v <= usize::MAX - 2,
        None => true,
    }
}

/// The logical CPU count, at least 1.
pub open spec fn logical_count(raw: nat) -> nat {
    if raw >= 1 {
        raw
    } else {
        1
    }
}

/// The worker-thread count the neighborhood is built around: the reading, or
/// the logical count clamped to `1..=8`.
pub open spec fn start_workers(logical: nat, reading: Option<i64>) -> nat {
    match reading_count(reading) {
        Some(n) => n,
        None => if logical <= 8 {
            logical
        } else {
            8
        },
    }
}

/// The rayon-thread count the neighborhood is built around: the reading, or
/// the worker count.
pub open spec fn start_rayon(workers: nat, reading: Option<i64>) -> nat {
    match reading_count(reading) {
        Some(n) => n,
        None => workers,
    }
}

/// The key of the worker-thread (`worker`) or rayon-thread knob.
pub open spec fn thread_key(worker: bool) -> Seq<char> {
    if worker {
        "bench.worker_threads"@
    } else {
        "bench.rayon_threads"@
    }
}

/// Priority moves, when the current priority was read as text.
pub open spec fn priority_moves(reading: Option<Seq<char>>) -> Seq<Move> {
    match reading {
        Some(c) => text_moves(
            "process.priority"@,
            c,
            seq!["above_normal"@, "normal"@],
            "Try process priority "@,
        ),
        None => Seq::empty(),
    }
}

/// Affinity moves, on machines with at least 4 logical CPUs.
pub open spec fn affinity_moves(logical: nat, reading: Option<Seq<char>>) -> Seq<Move> {
    if logical >= 4 {
        match reading {
            Some(c) => text_moves("process.affinity"@, c, seq!["first_half"@, "all"@], "Try affinity "@),
            None => Seq::empty(),
        }
    } else {
        Seq::empty()
    }
}

/// The view of an optional string.
pub open spec fn opt_view(o: Option<String>) -> Option<Seq<char>> {
    match o {
        Some(s) => Some(s@),
        None => None,
    }
}

/// Every move, in the order it is generated: worker threads, rayon threads,
/// priority, affinity.
pub open spec fn raw_neighborhood(
    logical_raw: nat,
    workers: Option<i64>,
    rayon: Option<i64>,
    priority: Option<Seq<char>>,
    affinity: Option<Seq<char>>,
) -> Seq<Move> {
    let logical = logical_count(logical_raw);
    let cw = start_workers(logical, workers);
    let cr = start_rayon(cw, rayon);
    thread_moves(thread_key(true), cw, thread_choices(cw, logical), true) + thread_moves(
        thread_key(false),
        cr,
        thread_choices(cr, logical),
        false,
    ) + priority_moves(priority) + affinity_moves(logical, affinity)
}

/// The end of the leading run, from `i`, of moves with priority below 100.
pub open spec fn band_from(s: Seq<Move>, i: nat) -> nat
    decreases s.len() - i,
{
    if i >= s.len() {
        i
    } else if move_priority(s[i as int]) < 100 {
        band_from(s, i + 1)
    } else {
        i
    }
}

/// `s` with the elements at `i` and `j` exchanged.
pub open spec fn swapped(s: Seq<Move>, i: int, j: int) -> Seq<Move> {
    s.update(i, s[j]).update(j, s[i])
}

/// The seeded light shuffle: one swap inside the leading band (at least 2
/// long) of a neighborhood longer than 3.
pub open spec fn shuffle_band(s: Seq<Move>, seed: u64) -> Seq<Move> {
    if s.len() > 3 {
        let b = if band_from(s, 0) >= 2 {
            band_from(s, 0)
        } else {
            2
        };
        swapped(s, ((seed as usize) as nat % b) as int, (((seed >> 8u64) as usize) as nat % b) as int)
    } else {
        s
    }
}

/// The hill-climb's exploration order.
pub open spec fn neighborhood(
    seed: u64,
    logical_raw: nat,
    workers: Option<i64>,
    rayon: Option<i64>,
    priority: Option<Seq<char>>,
    affinity: Option<Seq<char>>,
) -> Seq<Move> {
    shuffle_band(sort_by_priority(raw_neighborhood(logical_raw, workers, rayon, priority, affinity)), seed)
}

fn neighbor_priority(m: &ParamChange) -> (p: i128)
    ensures
        p as int == move_priority(m@),
{
    let key = m.key.as_str();
    if str_eq(key, "process.priority") {
        let above = match &m.next {
            KnobValue::Text(t) => str_eq(t.as_str(), "above_normal"),
            _ => false,
        };
        if above {
            5
        } else {
            40
        }
    } else if str_eq(key, "bench.worker_threads") || str_eq(key, "bench.rayon_threads") {
        let n: i128 = match &m.next {
            KnobValue::Int(v) => *v as i128,
            _ => 0,
        };
        let cur: i128 = match &m.previous {
            KnobValue::Int(v) => *v as i128,
            _ => 0,
        };
        let delta: i128 = if n >= cur {
            n - cur
        } else {
            cur - n
        };
        let penalty: i128 = if n < cur {
            1000
        } else {
            0
        };
        20 + penalty + delta
    } else if str_eq(key, "process.affinity") {
        500
    } else {
        100
    }
}

proof fn lemma_insert_position(s: Seq<Move>, m: Move, k: int)
    requires
        0 <= k <= s.len(),
        forall|i: int| k <= i < s.len() ==> move_priority(#[trigger] s[i]) > move_priority(m),
        k > 0 ==> move_priority(s[k - 1]) <= move_priority(m),
    ensures
        insert_by_priority(s, m) == s.insert(k, m),
    decreases s.len(),
{
    if s.len() == 0 {
        assert(seq![m] =~= s.insert(k, m));
    } else if move_priority(s.last()) <= move_priority(m) {
        assert(k == s.len());
        assert(s.push(m) =~= s.insert(k, m));
    } else {
        lemma_insert_position(s.drop_last(), m, k);
        assert(s.drop_last().insert(k, m).push(s.last()) =~= s.insert(k, m));
    }
}

fn insert_sorted(v: &mut Vec<ParamChange>, m: ParamChange)
    ensures
        move_views(final(v)@) == insert_by_priority(move_views(old(v)@), m@),
{
    let pm = neighbor_priority(&m);
    let ghost s = move_views(v@);
    let mut k = v.len();
    while k > 0
        invariant
            k <= v.len(),
            s == move_views(v@),
            forall|i: int| k <= i < v.len() ==> move_priority(#[trigger] s[i]) > pm,
        ensures
            k <= v.len(),
            forall|i: int| k <= i < v.len() ==> move_priority(#[trigger] s[i]) > pm,
            k > 0 ==> move_priority(s[k - 1]) <= pm,
        decreases k,
    {
        let p = neighbor_priority(&v[k - 1]);
        if p <= pm {
            break;
        }
        k = k - 1;
    }
    proof {
        lemma_insert_position(s, m@, k as int);
    }
    v.insert(k, m);
    assert(move_views(v@) =~= s.insert(k as int, m@));
}

fn sort_moves(v: Vec<ParamChange>) -> (r: Vec<ParamChange>)
    ensures
        move_views(r@) == sort_by_priority(move_views(v@)),
{
    let ghost all = move_views(v@);
    let mut rest = v;
    let mut out: Vec<ParamChange> = Vec::new();
    let ghost mut i: int = 0;
    while rest.len() > 0
        invariant
            0 <= i <= all.len(),
            rest.len() + i == all.len(),
            move_views(rest@) == all.skip(i),
            move_views(out@) == sort_by_priority(all.take(i)),
        decreases rest.len(),
    {
        let ghost r0 = rest@;
        let m = rest.remove(0);
        proof {
            assert(move_views(r0)[0] == r0[0]@);
            assert(all.skip(i)[0] == all[i]);
            assert(m@ == all[i]);
            assert forall|t: int| 0 <= t < rest.len() implies move_views(rest@)[t] == all.skip(i + 1)[t] by {
                assert(rest@[t] == r0[t + 1]);
                assert(move_views(r0)[t + 1] == r0[t + 1]@);
            }
            assert(move_views(rest@) =~= all.skip(i + 1));
            assert(all.take(i + 1).drop_last() =~= all.take(i));
        }
        insert_sorted(&mut out, m);
        proof {
            i = i + 1;
        }
    }
    assert(all.take(i) =~= all);
    out
}

fn swap_moves(v: &mut Vec<ParamChange>, i: usize, j: usize)
    requires
        i < old(v).len(),
        j < old(v).len(),
    ensures
        move_views(final(v)@) == swapped(move_views(old(v)@), i as int, j as int),
{
    let ghost s = move_views(v@);
    if i == j {
        assert(swapped(s, i as int, j as int) =~= s);
        return;
    }
    let lo = if i < j {
        i
    } else {
        j
    };
    let hi = if i < j {
        j
    } else {
        i
    };
    let a = v.remove(hi);
    let b = v.remove(lo);
    v.insert(lo, a);
    v.insert(hi, b);
    assert(move_views(v@) =~= swapped(s, i as int, j as int));
}

fn shuffle_moves(v: Vec<ParamChange>, seed: u64) -> (r: Vec<ParamChange>)
    ensures
        move_views(r@) == shuffle_band(move_views(v@), seed),
{
    let mut v = v;
    if v.len() > 3 {
        let ghost s = move_views(v@);
        let mut band: usize = 0;
        while band < v.len()
            invariant
                band <= v.len(),
                s == move_views(v@),
                band_from(s, 0) == band_from(s, band as nat),
            ensures
                band <= v.len(),
                band_from(s, 0) == band as nat,
            decreases v.len() - band,
        {
            if neighbor_priority(&v[band]) >= 100 {
                break;
            }
            band = band + 1;
        }
        let b = if band >= 2 {
            band
        } else {
            2
        };
        let i = (seed as usize) % b;
        let j = ((seed >> 8u64) as usize) % b;
        swap_moves(&mut v, i, j);
    }
    v
}

fn reading_to_count(r: Option<i64>) -> (c: Option<usize>)
    ensures
        (match c {
            Some(n) => reading_count(r) == Some(n as nat),
            None => reading_count(r) is None,
        }),
{
    match r {
        Some(v) => if v >= 0 && (v as u64) <= (usize::MAX as u64) {
            Some(v as usize)
        } else {
            None
        },
        None => None,
    }
}

fn thread_rationale_text(worker: bool, cur: usize, n: usize) -> (r: String)
    ensures
        r@ == thread_rationale(worker, cur as nat, n as nat),
{
    let mut s = if worker {
        String::from_str("Hill-climb worker_threads ")
    } else {
        String::from_str("Hill-climb rayon_threads ")
    };
    let c = usize_to_decimal(cur);
    s.append(c.as_str());
    s.append("->");
    let d = usize_to_decimal(n);
    s.append(d.as_str());
    if worker {
        s.append(" to test parallel scaling");
    }
    s
}

fn push_thread_moves(out: &mut Vec<ParamChange>, worker: bool, cur: usize, logical: usize)
    requires
        cur <= i64::MAX,
        cur <= usize::MAX - 2,
        logical <= usize::MAX / 3,
    ensures
        move_views(final(out)@) == move_views(old(out)@) + thread_moves(
            thread_key(worker),
            cur as nat,
            thread_choices(cur as nat, logical as nat),
            worker,
        ),
{
    let choices = unique_thread_choices(cur, logical);
    proof {
        lemma_thread_choices(cur as nat, logical as nat);
    }
    let ghost base = move_views(out@);
    let ghost key = thread_key(worker);
    let mut k: usize = 0;
    while k < choices.len()
        invariant
            k <= choices.len(),
            choices@ == thread_choices(cur as nat, logical as nat),
            forall|x: usize| choices@.contains(x) <==> thread_choice_ok(cur as nat, logical as nat, x as nat),
            cur <= i64::MAX,
            key == thread_key(worker),
            move_views(out@) == base + thread_moves(key, cur as nat, choices@.take(k as int), worker),
        decreases choices.len() - k,
    {
        let n = choices[k];
        proof {
            assert(choices@.contains(choices@[k as int]));
            assert(choices@.take(k + 1).drop_last() =~= choices@.take(k as int));
            assert(choices@.take(k + 1).last() == n);
        }
        if n != cur {
            let name = if worker {
                String::from_str("bench.worker_threads")
            } else {
                String::from_str("bench.rayon_threads")
            };
            let m = ParamChange {
                key: name,
                previous: KnobValue::Int(cur as i64),
                next: KnobValue::Int(n as i64),
                rationale: thread_rationale_text(worker, cur, n),
            };
            let ghost before = move_views(out@);
            out.push(m);
            proof {
                assert(move_views(out@) =~= before.push(m@));
            }
        }
        k = k + 1;
    }
    assert(choices@.take(choices.len() as int) =~= choices@);
}

fn push_text_move(out: &mut Vec<ParamChange>, key: &str, cur: &str, option: &str, why: &str)
    ensures
        move_views(final(out)@) == move_views(old(out)@) + (if option@ != cur@ {
            seq![
                Move {
                    key: key@,
                    previous: Knob::Text(cur@),
                    next: Knob::Text(option@),
                    rationale: why@ + cur@ + "->"@ + option@,
                },
            ]
        } else {
            Seq::empty()
        }),
{
    if !str_eq(option, cur) {
        let mut r = String::from_str(why);
        r.append(cur);
        r.append("->");
        r.append(option);
        let m = ParamChange {
            key: String::from_str(key),
            previous: KnobValue::Text(String::from_str(cur)),
            next: KnobValue::Text(String::from_str(option)),
            rationale: r,
        };
        let ghost before = move_views(out@);
        out.push(m);
        assert(move_views(out@) =~= before + seq![m@]);
    } else {
        assert(move_views(out@) =~= move_views(out@) + Seq::<Move>::empty());
    }
}

fn push_text_moves(out: &mut Vec<ParamChange>, key: &str, cur: &str, first: &str, second: &str, why: &str)
    ensures
        move_views(final(out)@) == move_views(old(out)@) + text_moves(key@, cur@, seq![first@, second@], why@),
{
    let ghost base = move_views(out@);
    push_text_move(out, key, cur, first, why);
    push_text_move(out, key, cur, second, why);
    proof {
        let opts = seq![first@, second@];
        assert(opts.drop_last() =~= seq![first@]);
        assert(seq![first@].drop_last() =~= Seq::<Seq<char>>::empty());
        reveal_with_fuel(text_moves, 3);
        assert(move_views(out@) =~= base + text_moves(key@, cur@, opts, why@));
    }
}

/// The hill-climb's ordered neighborhood, built from the platform's readings:
/// the logical CPU count, the current worker and rayon thread counts (when
/// read as integers), and the current priority and affinity (when read as
/// text). Moves are sorted by exploration priority (stable), then two moves of
/// the leading band are exchanged as the seed picks.
pub fn plan_neighborhood(
    seed: u64,
    logical_cpus: usize,
    worker_threads: Option<i64>,
    rayon_threads: Option<i64>,
    priority: Option<String>,
    affinity: Option<String>,
) -> (v: Vec<ParamChange>)
    requires
        logical_cpus <= usize::MAX / 3,
        reading_fits(worker_threads),
        reading_fits(rayon_threads),
    ensures
        move_views(v@) == neighborhood(
            seed,
            logical_cpus as nat,
            worker_threads,
            rayon_threads,
            opt_view(priority),
            opt_view(affinity),
        ),
{
    let logical: usize = if logical_cpus >= 1 {
        logical_cpus
    } else {
        1
    };
    let cw: usize = match reading_to_count(worker_threads) {
        Some(n) => n,
        None => if logical <= 8 {
            logical
        } else {
            8
        },
    };
    let cr: usize = match reading_to_count(rayon_threads) {
        Some(n) => n,
        None => cw,
    };
    let mut moves: Vec<ParamChange> = Vec::new();
    let ghost z = move_views(moves@);
    push_thread_moves(&mut moves, true, cw, logical);
    let ghost a = move_views(moves@);
    push_thread_moves(&mut moves, false, cr, logical);
    let ghost b = move_views(moves@);
    match &priority {
        Some(c) => push_text_moves(
            &mut moves,
            "process.priority",
            c.as_str(),
            "above_normal",
            "normal",
            "Try process priority ",
        ),
        None => {},
    }
    let ghost c = move_views(moves@);
    if logical >= 4 {
        match &affinity {
            Some(c) => push_text_moves(&mut moves, "process.affinity", c.as_str(), "first_half", "all", "Try affinity "),
            None => {},
        }
    }
    proof {
        let raw = raw_neighborhood(logical_cpus as nat, worker_threads, rayon_threads, opt_view(priority), opt_view(affinity));
        assert(z =~= Seq::<Move>::empty());
        assert(c =~= b + priority_moves(opt_view(priority)));
        assert(move_views(moves@) =~= raw);
    }
    let sorted = sort_moves(moves);
    shuffle_moves(sorted, seed)
}

/// The content hash of what a step proposed, if it proposed anything.
pub open spec fn proposed_hash(r: Option<Candidate>) -> Option<Seq<char>> {
    match r {
        Some(c) => Some(content_hash_of(move_views(c.changes@))),
        None => None,
    }
}

/// One step of the record of tried hashes: a step that proposes nothing
/// leaves it as it was; one that proposes a candidate appends its hash, which
/// was not in it before.
pub open spec fn tried_step(before: Seq<Seq<char>>, after: Seq<Seq<char>>, proposed: Option<Seq<char>>) -> bool {
    match proposed {
        None => after == before,
        Some(h) => !before.contains(h) && after == before.push(h),
    }
}

proof fn lemma_tried_keeps(tried: Seq<Seq<Seq<char>>>, props: Seq<Option<Seq<char>>>, i: int, k: int)
    requires
        tried.len() == props.len() + 1,
        forall|t: int| 0 <= t < props.len() ==> tried_step(#[trigger] tried[t], tried[t + 1], props[t]),
        0 <= i < k <= props.len(),
        props[i] is Some,
    ensures
        tried[k].contains(props[i]->0),
    decreases k - i,
{
    if k == i + 1 {
        assert(tried_step(tried[i], tried[i + 1], props[i]));
        assert(tried[k][tried[i].len() as int] == props[i]->0);
    } else {
        lemma_tried_keeps(tried, props, i, k - 1);
        assert(tried_step(tried[k - 1], tried[k], props[k - 1]));
        let h = props[i]->0;
        let prev = tried[k - 1];
        let j = choose|j: int| 0 <= j < prev.len() && #[trigger] prev[j] == h;
        match props[k - 1] {
            Some(x) => assert(tried[k][j] == h),
            None => {},
        }
    }
}

/// Law: over any run of a hill-climb (its tried hashes before each step and
/// after the last, and what each step proposed), no two proposals have the
/// same content hash.
pub proof fn lemma_run_proposes_distinct(tried: Seq<Seq<Seq<char>>>, props: Seq<Option<Seq<char>>>)
    requires
        tried.len() == props.len() + 1,
        forall|t: int| 0 <= t < props.len() ==> tried_step(#[trigger] tried[t], tried[t + 1], props[t]),
    ensures
        forall|i: int, j: int|
            0 <= i < j < props.len() && (#[trigger] props[i]) is Some && (#[trigger] props[j]) is Some
                ==> props[i] != props[j],
{
    assert forall|i: int, j: int|
        0 <= i < j < props.len() && (#[trigger] props[i]) is Some && (#[trigger] props[j]) is Some
            implies props[i] != props[j] by {
        lemma_tried_keeps(tried, props, i, j);
        assert(tried_step(tried[j], tried[j + 1], props[j]));
    }
}

/// Law, over the calls of one strategy: take the states a hill-climb goes
/// through (after `new`, then after each call of `ensure_neighborhood`,
/// `skip_pending` or `consider`) and what each call proposed (`None` for the
/// first two). Each call's `ensures` gives `tried_step` for its pair of
/// states. Then every proposal stays recorded as tried in every later state,
/// and no two proposals of the run have the same content hash.
pub proof fn lemma_strategy_calls_propose_distinct(states: Seq<HillClimbState>, props: Seq<Option<Seq<char>>>)
    requires
        states.len() == props.len() + 1,
        forall|k: int| 0 <= k < props.len() ==> tried_step(#[trigger] states[k].tried, states[k + 1].tried, props[k]),
    ensures
        forall|i: int, k: int|
            0 <= i < k <= props.len() && (#[trigger] props[i]) is Some ==> (#[trigger] states[k].tried).contains(
                props[i]->0,
            ),
        forall|i: int, j: int|
            0 <= i < j < props.len() && (#[trigger] props[i]) is Some && (#[trigger] props[j]) is Some
                ==> props[i] != props[j],
{
    let tried = states.map_values(|st: HillClimbState| st.tried);
    assert forall|t: int| 0 <= t < props.len() implies tried_step(#[trigger] tried[t], tried[t + 1], props[t]) by {
        assert(tried[t] == states[t].tried);
        assert(tried[t + 1] == states[t + 1].tried);
    }
    assert forall|i: int, k: int|
        0 <= i < k <= props.len() && (#[trigger] props[i]) is Some implies (#[trigger] states[k].tried).contains(
            props[i]->0,
        ) by {
        lemma_tried_keeps(tried, props, i, k);
        assert(tried[k] == states[k].tried);
    }
    lemma_run_proposes_distinct(tried, props);
}

/// What a strategy decides next: try a candidate, or stop with a reason.
#[derive(Debug, Clone)]
pub enum SearchDecision {
    Try(Candidate),
    Stop { reason: String },
}

/// Deterministic hill-climbing over a small discrete parameter space.
pub struct HillClimbStrategy {
    seed: u64,
    /// Tried content hashes.
    tried: Vec<String>,
    neighborhood_order: Vec<ParamChange>,
    cursor: usize,
    initialized: bool,
}

/// Model of a [`HillClimbStrategy`].
pub struct HillClimbState {
    pub seed: u64,
    pub tried: Seq<Seq<char>>,
    pub order: Seq<Move>,
    pub cursor: nat,
    pub initialized: bool,
}

impl View for HillClimbStrategy {
    type V = HillClimbState;

    closed spec fn view(&self) -> HillClimbState {
        HillClimbState {
            seed: self.seed,
            tried: views(self.tried@),
            order: move_views(self.neighborhood_order@),
            cursor: self.cursor as nat,
            initialized: self.initialized,
        }
    }
}

/// The value a change starts from: the last change of the current best with
/// the same key, or else what the platform reads.
pub open spec fn effective_previous(reading: Knob, best: Seq<Move>, key: Seq<char>) -> Knob
    decreases best.len(),
{
    if best.len() == 0 {
        reading
    } else if best.last().key == key {
        best.last().next
    } else {
        effective_previous(reading, best.drop_last(), key)
    }
}

/// The current best's changes with `ch` folded in: a change of the same key
/// takes `ch`'s target and rationale and keeps its own starting value;
/// otherwise `ch` is appended, starting from `previous`.
pub open spec fn merged_changes(best: Seq<Move>, ch: Move, previous: Knob) -> Seq<Move> {
    match first_with_key(best, ch.key) {
        Some(i) => best.update(
            i,
            Move { key: ch.key, previous: best[i].previous, next: ch.next, rationale: ch.rationale },
        ),
        None => best.push(Move { key: ch.key, previous, next: ch.next, rationale: ch.rationale }),
    }
}

/// `key=next` of one change, as in a candidate label.
pub open spec fn label_part(m: Move) -> Seq<char> {
    m.key + "="@ + knob_display(m.next)
}

/// A candidate's label: its `key=next` parts joined by `,`.
pub open spec fn label_of(changes: Seq<Move>) -> Seq<char> {
    join(changes.map_values(|m: Move| label_part(m)), ","@)
}

/// The candidate id `hc-<generation>-<cursor>`.
pub open spec fn proposal_id(generation: nat, cursor: nat) -> Seq<char> {
    "hc-"@ + decimal(generation) + "-"@ + decimal(cursor)
}

/// The metadata of a hill-climb candidate.
pub open spec fn proposal_meta(generation: nat, seed: u64) -> Seq<(Seq<char>, Seq<char>)> {
    seq![
        ("strategy"@, "hill_climb"@),
        ("generation"@, decimal(generation)),
        ("seed"@, decimal(seed as nat)),
    ]
}

/// What `consider` proposes for the change at the cursor, before the
/// tried-hash check: `None` when the change would not change anything.
pub open spec fn proposal(
    state: HillClimbState,
    reading: Knob,
    generation: nat,
    best: Seq<Move>,
) -> Option<Seq<Move>> {
    let ch = state.order[state.cursor as int];
    let previous = effective_previous(reading, best, ch.key);
    if previous == ch.next {
        None
    } else {
        Some(merged_changes(best, ch, previous))
    }
}

fn copy_changes(v: &Vec<ParamChange>) -> (r: Vec<ParamChange>)
    ensures
        move_views(r@) == move_views(v@),
{
    let mut out: Vec<ParamChange> = Vec::new();
    for i in 0..v.len()
        invariant
            move_views(out@) == move_views(v@).take(i as int),
    {
        let c = v[i].duplicate();
        let ghost before = out@;
        out.push(c);
        proof {
            assert(move_views(out@) =~= move_views(before).push(c@));
            assert(move_views(v@).take(i + 1) =~= move_views(v@).take(i as int).push(v@[i as int]@));
        }
    }
    assert(move_views(v@).take(v.len() as int) =~= move_views(v@));
    out
}

fn label_text(changes: &Vec<ParamChange>) -> (s: String)
    ensures
        s@ == label_of(move_views(changes@)),
{
    let ghost all = move_views(changes@);
    let mut parts: Vec<String> = Vec::new();
    for i in 0..changes.len()
        invariant
            all == move_views(changes@),
            views(parts@) == all.take(i as int).map_values(|m: Move| label_part(m)),
    {
        let mut p = changes[i].key.clone();
        p.append("=");
        let d = changes[i].next.display();
        p.append(d.as_str());
        let ghost before = views(parts@);
        parts.push(p);
        proof {
            assert(views(parts@) =~= before.push(p@));
            assert(all.take(i + 1).map_values(|m: Move| label_part(m)) =~= all.take(
                i as int,
            ).map_values(|m: Move| label_part(m)).push(label_part(all[i as int])));
        }
    }
    assert(all.take(changes.len() as int) =~= all);
    join_strings(&parts, ",")
}

fn contains_text(v: &Vec<String>, s: &str) -> (r: bool)
    ensures
        r == views(v@).contains(s@),
{
    for i in 0..v.len()
        invariant
            forall|k: int| 0 <= k < i ==> v@[k]@ != s@,
    {
        if str_eq(v[i].as_str(), s) {
            assert(views(v@)[i as int] == s@);
            return true;
        }
    }
    proof {
        if views(v@).contains(s@) {
            let k = choose|k: int| 0 <= k < views(v@).len() && views(v@)[k] == s@;
            assert(v@[k]@ == s@);
        }
    }
    false
}

impl HillClimbStrategy {
    /// A fresh strategy with the given seed and no neighborhood yet.
    /// The tried record never holds a content hash twice.
    #[verifier::type_invariant]
    spec fn tried_distinct(self) -> bool {
        views(self.tried@).no_duplicates()
    }

    pub fn new(seed: u64) -> (h: HillClimbStrategy)
        ensures
            h@.seed == seed,
            h@.tried.len() == 0,
            h@.order.len() == 0,
            h@.cursor == 0,
            !h@.initialized,
    {
        HillClimbStrategy {
            seed,
            tried: Vec::new(),
            neighborhood_order: Vec::new(),
            cursor: 0,
            initialized: false,
        }
    }

    /// The strategy's name.
    pub fn name(&self) -> (s: &'static str)
        ensures
            s@ == "hill_climb"@,
    {
        "hill_climb"
    }

    /// The seed the strategy was made with.
    pub fn seed(&self) -> (s: u64)
        ensures
            s == self@.seed,
    {
        self.seed
    }

    /// Whether the neighborhood still has to be built from platform readings.
    pub fn needs_neighborhood(&self) -> (b: bool)
        ensures
            b == !self@.initialized,
    {
        !self.initialized
    }

    /// Build the neighborhood from the platform's readings, once; later calls
    /// leave the strategy unchanged.
    pub fn ensure_neighborhood(
        &mut self,
        logical_cpus: usize,
        worker_threads: Option<i64>,
        rayon_threads: Option<i64>,
        priority: Option<String>,
        affinity: Option<String>,
    )
        requires
            logical_cpus <= usize::MAX / 3,
            reading_fits(worker_threads),
            reading_fits(rayon_threads),
        ensures
            tried_step(old(self)@.tried, final(self)@.tried, None),
            final(self)@.tried.no_duplicates(),
            old(self)@.initialized ==> final(self)@ == old(self)@,
            !old(self)@.initialized ==> final(self)@ == (HillClimbState {
                order: neighborhood(
                    old(self)@.seed,
                    logical_cpus as nat,
                    worker_threads,
                    rayon_threads,
                    opt_view(priority),
                    opt_view(affinity),
                ),
                initialized: true,
                ..old(self)@
            }),
    {
        proof {
            use_type_invariant(&*self);
        }
        if self.initialized {
            return;
        }
        self.neighborhood_order = plan_neighborhood(
            self.seed,
            logical_cpus,
            worker_threads,
            rayon_threads,
            priority,
            affinity,
        );
        self.initialized = true;
    }

    /// The key of the next change to consider, if any is left.
    pub fn pending_key(&self) -> (k: Option<String>)
        ensures
            self@.cursor < self@.order.len() ==> (k matches Some(s) && s@
                == self@.order[self@.cursor as int].key),
            self@.cursor >= self@.order.len() ==> k is None,
    {
        if self.cursor < self.neighborhood_order.len() {
            Some(self.neighborhood_order[self.cursor].key.clone())
        } else {
            None
        }
    }

    /// Pass over the change at the cursor without proposing anything (the
    /// platform could not read its key).
    pub fn skip_pending(&mut self)
        requires
            old(self)@.cursor < old(self)@.order.len(),
        ensures
            final(self)@ == (HillClimbState { cursor: old(self)@.cursor + 1, ..old(self)@ }),
            tried_step(old(self)@.tried, final(self)@.tried, None),
            final(self)@.tried.no_duplicates(),
    {
        proof {
            use_type_invariant(&*self);
        }
        let n = self.neighborhood_order.len();
        assert(self.cursor < n);
        self.cursor = self.cursor + 1;
    }

    /// Consider the change at the cursor, given what the platform reads for
    /// its key: advance the cursor, and propose a candidate unless the change
    /// would not change anything or its content hash was tried before.
    pub fn consider(&mut self, reading: KnobValue, generation: usize, best: &Candidate) -> (r: Option<
        Candidate,
    >)
        requires
            old(self)@.cursor < old(self)@.order.len(),
        ensures
            final(self)@.cursor == old(self)@.cursor + 1,
            final(self)@.order == old(self)@.order,
            final(self)@.seed == old(self)@.seed,
            final(self)@.initialized == old(self)@.initialized,
            (match proposal(old(self)@, reading@, generation as nat, move_views(best.changes@)) {
                None => r is None && final(self)@.tried == old(self)@.tried,
                Some(changes) => {
                    let h = content_hash_of(changes);
                    if old(self)@.tried.contains(h) {
                        r is None && final(self)@.tried == old(self)@.tried
                    } else {
                        &&& r matches Some(c)
                        &&& move_views(c.changes@) == changes
                        &&& c.id@ == proposal_id(generation as nat, old(self)@.cursor + 1)
                        &&& c.label@ == label_of(changes)
                        &&& meta_entries(c.meta) == proposal_meta(generation as nat, old(self)@.seed)
                        &&& final(self)@.tried == old(self)@.tried.push(h)
                    }
                },
            }),
            tried_step(old(self)@.tried, final(self)@.tried, proposed_hash(r)),
            final(self)@.tried.no_duplicates(),
    {
        proof {
            use_type_invariant(&*self);
        }
        let ghost st = self@;
        let n = self.neighborhood_order.len();
        let change = self.neighborhood_order[self.cursor].duplicate();
        assert(self.cursor < n);
        self.cursor = self.cursor + 1;
        let ghost bm = move_views(best.changes@);
        let mut previous = reading;
        for i in 0..best.changes.len()
            invariant
                bm == move_views(best.changes@),
                previous@ == effective_previous(reading@, bm.take(i as int), change@.key),
        {
            proof {
                assert(bm.take(i + 1).drop_last() =~= bm.take(i as int));
                assert(bm.take(i + 1).last() == best.changes@[i as int]@);
            }
            if str_eq(best.changes[i].key.as_str(), change.key.as_str()) {
                previous = best.changes[i].next.duplicate();
            }
        }
        assert(bm.take(best.changes.len() as int) =~= bm);
        if previous.same_as(&change.next) {
            return None;
        }
        let mut changes = copy_changes(&best.changes);
        let pos = find_first_with_key(&changes, change.key.as_str());
        match pos {
            Some(p) => {
                let merged = ParamChange {
                    key: change.key.clone(),
                    previous: changes[p].previous.duplicate(),
                    next: change.next.duplicate(),
                    rationale: change.rationale.clone(),
                };
                changes.set(p, merged);
                assert(move_views(changes@) =~= merged_changes(bm, change@, previous@));
            },
            None => {
                let added = ParamChange {
                    key: change.key.clone(),
                    previous,
                    next: change.next.duplicate(),
                    rationale: change.rationale.clone(),
                };
                let ghost before = changes@;
                changes.push(added);
                assert(move_views(changes@) =~= merged_changes(bm, change@, previous@));
            },
        }
        proof {
            reveal_strlit("strategy");
            reveal_strlit("generation");
            reveal_strlit("seed");
        }
        let mut meta = meta_new();
        meta_insert(&mut meta, String::from_str("strategy"), String::from_str("hill_climb"));
        assert(meta_entries(meta) =~= seq![("strategy"@, "hill_climb"@)]);
        assert("strategy"@.len() != "generation"@.len());
        assert(meta_position(meta_entries(meta), "generation"@) is None) by {
            let e = meta_entries(meta);
            assert forall|i: int| 0 <= i < e.len() implies (#[trigger] e[i]).0 != "generation"@ by {
                assert(e[i] == ("strategy"@, "hill_climb"@));
            }
        }
        meta_insert(&mut meta, String::from_str("generation"), usize_to_decimal(generation));
        assert(meta_entries(meta) =~= seq![("strategy"@, "hill_climb"@), ("generation"@, decimal(generation as nat))]);
        let sd = u64_to_decimal(self.seed);
        assert(meta_position(meta_entries(meta), "seed"@) is None) by {
            let e = meta_entries(meta);
            assert forall|i: int| 0 <= i < e.len() implies (#[trigger] e[i]).0 != "seed"@ by {
                assert(e[i].0 == "strategy"@ || e[i].0 == "generation"@);
                assert("strategy"@.len() != "seed"@.len() && "generation"@.len() != "seed"@.len());
            }
        }
        meta_insert(&mut meta, String::from_str("seed"), sd);
        assert(meta_entries(meta) =~= proposal_meta(generation as nat, self.seed));
        let mut id = String::from_str("hc-");
        let g = usize_to_decimal(generation);
        id.append(g.as_str());
        id.append("-");
        let c = usize_to_decimal(self.cursor);
        id.append(c.as_str());
        let label = label_text(&changes);
        let candidate = Candidate { id, label, changes, meta };
        let hash = candidate.content_hash();
        if contains_text(&self.tried, hash.as_str()) {
            return None;
        }
        let ghost tried_before = self.tried@;
        let mut tried: Vec<String> = Vec::new();
        std::mem::swap(&mut tried, &mut self.tried);
        tried.push(hash);
        assert(views(tried@) =~= views(tried_before).push(hash@));
        self.tried = tried;
        Some(candidate)
    }
}

} // verus!
