//! The arms of the ε-greedy bandit: discrete reversible changes.
//!
//! Rewards are measured scores and are kept at the edge of the program; the
//! arm set is decided here.

use vstd::prelude::*;

use crate::candidate::{knob_display, move_views, Knob, KnobValue, Move, ParamChange};
use crate::hill_climb::{logical_count, opt_view, reading_count, start_workers};
use crate::text::{decimal, lemma_decimal_injective, str_eq, usize_to_decimal, views};

verus! {

/// A worker-thread arm is kept when it changes the count and stays within
/// `1..=2*logical` and at most 64.
pub open spec fn arm_ok(n: nat, cur: nat, logical: nat) -> bool {
    n != cur && n >= 1 && n <= logical * 2 && n <= 64
}

/// Worker-thread counts tried as arms, in order: 1, 2, half the logical
/// count, the logical count, the current count.
pub open spec fn worker_arm_candidates(logical: nat, cur: nat) -> Seq<nat> {
    seq![1, 2, if logical / 2 >= 1 { logical / 2 } else { 1 }, logical, cur]
}

/// The worker-thread arms among the candidates.
pub open spec fn worker_arms(logical: nat, cur: nat, cands: Seq<nat>) -> Seq<Move>
    decreases cands.len(),
{
    if cands.len() == 0 {
        Seq::empty()
    } else {
        let rest = worker_arms(logical, cur, cands.drop_last());
        let n = cands.last();
        if arm_ok(n, cur, logical) {
            rest.push(
                Move {
                    key: "bench.worker_threads"@,
                    previous: Knob::Int(cur as int),
                    next: Knob::Int(n as int),
                    rationale: "\u{3b5}-greedy arm worker_threads="@ + decimal(n),
                },
            )
        } else {
            rest
        }
    }
}

/// The priority arms, when the priority was read as text.
pub open spec fn priority_arms(reading: Option<Seq<char>>) -> Seq<Move> {
    match reading {
        Some(c) => (if "above_normal"@ != c {
            seq![
                Move {
                    key: "process.priority"@,
                    previous: Knob::Text(c),
                    next: Knob::Text("above_normal"@),
                    rationale: "\u{3b5}-greedy arm priority=above_normal"@,
                },
            ]
        } else {
            Seq::empty()
        }) + (if "normal"@ != c {
            seq![
                Move {
                    key: "process.priority"@,
                    previous: Knob::Text(c),
                    next: Knob::Text("normal"@),
                    rationale: "\u{3b5}-greedy arm priority=normal"@,
                },
            ]
        } else {
            Seq::empty()
        }),
        None => Seq::empty(),
    }
}

/// `key=next`, the text arms are told apart by.
pub open spec fn arm_label(m: Move) -> Seq<char> {
    m.key + "="@ + knob_display(m.next)
}

/// Some arm of `s` has label `l`.
pub open spec fn label_seen(s: Seq<Move>, l: Seq<char>) -> bool {
    exists|j: int| 0 <= j < s.len() && arm_label(#[trigger] s[j]) == l
}

/// The arms in order, keeping the first of each label.
pub open spec fn dedup_arms(s: Seq<Move>) -> Seq<Move>
    decreases s.len(),
{
    if s.len() == 0 {
        Seq::empty()
    } else if label_seen(s.drop_last(), arm_label(s.last())) {
        dedup_arms(s.drop_last())
    } else {
        dedup_arms(s.drop_last()).push(s.last())
    }
}

/// The bandit's arms for the readings: worker-thread arms around the current
/// count, then priority arms, without repeated `key=next` labels.
pub open spec fn epsilon_arms(logical_raw: nat, workers: Option<i64>, priority: Option<Seq<char>>) -> Seq<Move> {
    let logical = logical_count(logical_raw);
    let cur = start_workers(logical, workers);
    dedup_arms(worker_arms(logical, cur, worker_arm_candidates(logical, cur)) + priority_arms(priority))
}

/// A worker-thread arm from `cur` to `n`.
pub open spec fn worker_arm(cur: nat, n: nat) -> Move {
    Move {
        key: "bench.worker_threads"@,
        previous: Knob::Int(cur as int),
        next: Knob::Int(n as int),
        rationale: "\u{3b5}-greedy arm worker_threads="@ + decimal(n),
    }
}

proof fn lemma_worker_arms_shape(logical: nat, cur: nat, cands: Seq<nat>, j: int)
    requires
        0 <= j < worker_arms(logical, cur, cands).len(),
    ensures
        exists|m: nat| worker_arms(logical, cur, cands)[j] == worker_arm(cur, m),
    decreases cands.len(),
{
    let rest = worker_arms(logical, cur, cands.drop_last());
    if j < rest.len() {
        lemma_worker_arms_shape(logical, cur, cands.drop_last(), j);
        let m = choose|m: nat| rest[j] == worker_arm(cur, m);
        assert(worker_arms(logical, cur, cands)[j] == worker_arm(cur, m));
    } else {
        assert(worker_arms(logical, cur, cands)[j] == worker_arm(cur, cands.last()));
    }
}

proof fn lemma_worker_arms_has(logical: nat, cur: nat, cands: Seq<nat>, i: int)
    requires
        0 <= i < cands.len(),
        arm_ok(cands[i], cur, logical),
    ensures
        worker_arms(logical, cur, cands).contains(worker_arm(cur, cands[i])),
    decreases cands.len(),
{
    let rest = worker_arms(logical, cur, cands.drop_last());
    let w = worker_arms(logical, cur, cands);
    if i < cands.len() - 1 {
        assert(cands.drop_last()[i] == cands[i]);
        lemma_worker_arms_has(logical, cur, cands.drop_last(), i);
        let k = choose|k: int| 0 <= k < rest.len() && rest[k] == worker_arm(cur, cands[i]);
        assert(w[k] == rest[k]);
    } else {
        assert(w[w.len() - 1] == worker_arm(cur, cands[i]));
    }
}

proof fn lemma_priority_arm_keys(reading: Option<Seq<char>>, i: int)
    requires
        0 <= i < priority_arms(reading).len(),
    ensures
        priority_arms(reading)[i].key == "process.priority"@,
{
}

proof fn lemma_dedup_arms_keeps(s: Seq<Move>, j: int)
    requires
        0 <= j < s.len(),
    ensures
        exists|k: int|
            0 <= k < dedup_arms(s).len() && arm_label(#[trigger] dedup_arms(s)[k]) == arm_label(s[j])
                && s.contains(dedup_arms(s)[k]),
    decreases s.len(),
{
    let d = s.drop_last();
    let r = dedup_arms(s);
    let rd = dedup_arms(d);
    if j < s.len() - 1 {
        lemma_dedup_arms_keeps(d, j);
        let k = choose|k: int|
            0 <= k < rd.len() && arm_label(#[trigger] rd[k]) == arm_label(d[j]) && d.contains(rd[k]);
        assert(r[k] == rd[k]);
        let t = choose|t: int| 0 <= t < d.len() && d[t] == rd[k];
        assert(s[t] == rd[k]);
        assert(d[j] == s[j]);
    } else if label_seen(d, arm_label(s.last())) {
        let t = choose|t: int| 0 <= t < d.len() && arm_label(#[trigger] d[t]) == arm_label(s.last());
        lemma_dedup_arms_keeps(d, t);
        let k = choose|k: int|
            0 <= k < rd.len() && arm_label(#[trigger] rd[k]) == arm_label(d[t]) && d.contains(rd[k]);
        let u = choose|u: int| 0 <= u < d.len() && d[u] == rd[k];
        assert(s[u] == rd[k]);
        assert(r[k] == rd[k]);
    } else {
        assert(r[r.len() - 1] == s.last());
        assert(s[s.len() - 1] == s.last());
    }
}

/// The worker count the bandit starts from: the reading when it is a
/// non-negative count, else the logical count capped at 8.
pub open spec fn bandit_current(logical: nat, workers: Option<i64>) -> nat {
    match workers {
        Some(w) => if 0 <= w && w <= usize::MAX {
            w as nat
        } else if logical <= 8 {
            logical
        } else {
            8
        },
        None => if logical <= 8 {
            logical
        } else {
            8
        },
    }
}

/// Law: with at least two logical CPUs, the bandit has a worker-thread arm
/// from the current count to each of 1, 2, half the logical count and the
/// logical count, whenever that count differs from the current one and lies
/// in `1..=2*logical` and at most 64.
pub proof fn lemma_worker_arms_cover(logical: nat, workers: Option<i64>, priority: Option<Seq<char>>, n: nat)
    requires
        logical >= 2,
        n == 1 || n == 2 || n == logical / 2 || n == logical,
        n != bandit_current(logical, workers),
        1 <= n <= 2 * logical,
        n <= 64,
    ensures
        exists|j: int|
            0 <= j < epsilon_arms(logical, workers, priority).len() && {
                let a = #[trigger] epsilon_arms(logical, workers, priority)[j];
                &&& a.key == "bench.worker_threads"@
                &&& a.previous == Knob::Int(bandit_current(logical, workers) as int)
                &&& a.next == Knob::Int(n as int)
            },
{
    reveal_strlit("bench.worker_threads");
    reveal_strlit("process.priority");
    let cur = bandit_current(logical, workers);
    assert(logical_count(logical) == logical);
    assert(start_workers(logical, workers) == cur);
    let cands = worker_arm_candidates(logical, cur);
    let i: int = if n == 1 {
        0
    } else if n == 2 {
        1
    } else if n == logical / 2 {
        2
    } else {
        3
    };
    assert(cands[i] == n);
    let wa = worker_arms(logical, cur, cands);
    lemma_worker_arms_has(logical, cur, cands, i);
    let target = worker_arm(cur, n);
    let ji = choose|ji: int| 0 <= ji < wa.len() && wa[ji] == target;
    let raw = wa + priority_arms(priority);
    assert(raw[ji] == target);
    lemma_dedup_arms_keeps(raw, ji);
    let out = dedup_arms(raw);
    assert(out == epsilon_arms(logical, workers, priority));
    let k = choose|k: int|
        0 <= k < out.len() && arm_label(#[trigger] out[k]) == arm_label(raw[ji]) && raw.contains(out[k]);
    let y = out[k];
    let t = choose|t: int| 0 <= t < raw.len() && raw[t] == y;
    let prefix = "bench.worker_threads"@ + "="@;
    assert(arm_label(target) == prefix + decimal(n));
    if t >= wa.len() {
        lemma_priority_arm_keys(priority, t - wa.len());
        assert(y.key == "process.priority"@);
        assert(arm_label(y)[0] == "process.priority"@[0]);
        assert(arm_label(target)[0] == "bench.worker_threads"@[0]);
        assert(false);
    } else {
        assert(y == wa[t]);
        lemma_worker_arms_shape(logical, cur, cands, t);
        let m = choose|m: nat| wa[t] == worker_arm(cur, m);
        assert(arm_label(y) == prefix + decimal(m));
        let lab = arm_label(y);
        assert(decimal(m) =~= lab.subrange(prefix.len() as int, lab.len() as int));
        assert(decimal(n) =~= lab.subrange(prefix.len() as int, lab.len() as int));
        lemma_decimal_injective(m, n);
        assert(y == target);
    }
}

fn label_text(m: &ParamChange) -> (s: String)
    ensures
        s@ == arm_label(m@),
{
    let mut s = m.key.clone();
    s.append("=");
    let d = m.next.display();
    s.append(d.as_str());
    s
}

fn dedup_by_label(v: Vec<ParamChange>) -> (r: Vec<ParamChange>)
    ensures
        move_views(r@) == dedup_arms(move_views(v@)),
{
    let ghost all = move_views(v@);
    let mut rest = v;
    let mut out: Vec<ParamChange> = Vec::new();
    let mut labels: Vec<String> = Vec::new();
    let ghost mut i: int = 0;
    while rest.len() > 0
        invariant
            0 <= i <= all.len(),
            rest.len() + i == all.len(),
            move_views(rest@) == all.skip(i),
            move_views(out@) == dedup_arms(all.take(i)),
            views(labels@) == move_views(out@).map_values(|m: Move| arm_label(m)),
            forall|l: Seq<char>| label_seen(move_views(out@), l) <==> label_seen(all.take(i), l),
        decreases rest.len(),
    {
        let ghost r0 = rest@;
        let m = rest.remove(0);
        proof {
            assert(move_views(r0)[0] == r0[0]@);
            assert(all.skip(i)[0] == all[i]);
            assert forall|t: int| 0 <= t < rest.len() implies move_views(rest@)[t] == all.skip(i + 1)[t] by {
                assert(rest@[t] == r0[t + 1]);
                assert(move_views(r0)[t + 1] == r0[t + 1]@);
            }
            assert(move_views(rest@) =~= all.skip(i + 1));
            assert(all.take(i + 1).drop_last() =~= all.take(i));
            assert(all.take(i + 1).last() == m@);
        }
        let l = label_text(&m);
        let mut seen = false;
        for k in 0..labels.len()
            invariant
                seen <==> exists|j: int| 0 <= j < k && (#[trigger] labels@[j])@ == l@,
        {
            if str_eq(labels[k].as_str(), l.as_str()) {
                seen = true;
            }
        }
        let ghost out0 = move_views(out@);
        let ghost prefix = all.take(i + 1);
        proof {
            assert(views(labels@).len() == labels@.len());
            assert(out0.map_values(|m: Move| arm_label(m)).len() == out0.len());
            assert forall|j: int| 0 <= j < labels.len() implies labels@[j]@ == arm_label(
                out0[j],
            ) by {
                assert(views(labels@)[j] == labels@[j]@);
                assert(out0.map_values(|m: Move| arm_label(m))[j] == arm_label(out0[j]));
            }
            if seen {
                let j = choose|j: int| 0 <= j < labels.len() && (#[trigger] labels@[j])@ == l@;
                assert(arm_label(out0[j]) == l@);
                assert(label_seen(out0, l@));
            }
            if label_seen(out0, l@) {
                let j = choose|j: int| 0 <= j < out0.len() && arm_label(#[trigger] out0[j]) == l@;
                assert(labels@[j]@ == arm_label(out0[j]));
            }
            assert forall|x: Seq<char>| label_seen(prefix, x) <==> (label_seen(all.take(i), x) || x == l@) by {
                if label_seen(prefix, x) {
                    let j = choose|j: int| 0 <= j < prefix.len() && arm_label(#[trigger] prefix[j]) == x;
                    if j < i {
                        assert(all.take(i)[j] == prefix[j]);
                    }
                }
                if label_seen(all.take(i), x) {
                    let j = choose|j: int| 0 <= j < all.take(i).len() && arm_label(#[trigger] all.take(i)[j]) == x;
                    assert(prefix[j] == all.take(i)[j]);
                }
                if x == l@ {
                    assert(prefix[i] == m@);
                }
            }
        }
        if !seen {
            let ghost lb = labels@;
            labels.push(l);
            out.push(m);
            proof {
                assert(move_views(out@) =~= out0.push(m@));
                assert(views(labels@) =~= views(lb).push(arm_label(m@)));
                assert(views(labels@) =~= move_views(out@).map_values(|m: Move| arm_label(m)));
                assert forall|x: Seq<char>| label_seen(move_views(out@), x) <==> (label_seen(out0, x) || x == arm_label(m@)) by {
                    if label_seen(move_views(out@), x) {
                        let j = choose|j: int| 0 <= j < move_views(out@).len() && arm_label(#[trigger] move_views(out@)[j]) == x;
                        if j < out0.len() {
                            assert(out0[j] == move_views(out@)[j]);
                        }
                    }
                    if label_seen(out0, x) {
                        let j = choose|j: int| 0 <= j < out0.len() && arm_label(#[trigger] out0[j]) == x;
                        assert(move_views(out@)[j] == out0[j]);
                    }
                    if x == arm_label(m@) {
                        assert(move_views(out@)[out0.len() as int] == m@);
                    }
                }
            }
        }
        proof {
            assert forall|x: Seq<char>| label_seen(move_views(out@), x) <==> label_seen(prefix, x) by {
                assert(label_seen(out0, x) <==> label_seen(all.take(i), x));
                if seen {
                    if x == l@ {
                        assert(label_seen(out0, x));
                    }
                }
            }
            i = i + 1;
        }
    }
    assert(all.take(i) =~= all);
    out
}

/// The arms of the ε-greedy bandit, from the logical CPU count, the current
/// worker-thread count (when read as an integer) and the current priority
/// (when read as text).
pub fn epsilon_arm_changes(logical_cpus: usize, worker_threads: Option<i64>, priority: Option<String>) -> (v: Vec<
    ParamChange,
>)
    requires
        logical_cpus <= usize::MAX / 2,
    ensures
        move_views(v@) == epsilon_arms(logical_cpus as nat, worker_threads, opt_view(priority)),
{
    let logical: usize = if logical_cpus >= 1 {
        logical_cpus
    } else {
        1
    };
    let cur: usize = match worker_threads {
        Some(w) => if w >= 0 && (w as u64) <= (usize::MAX as u64) {
            w as usize
        } else if logical <= 8 {
            logical
        } else {
            8
        },
        None => if logical <= 8 {
            logical
        } else {
            8
        },
    };
    assert(cur == start_workers(logical as nat, worker_threads));
    assert(cur <= i64::MAX);
    let half: usize = if logical / 2 >= 1 {
        logical / 2
    } else {
        1
    };
    let cands: Vec<usize> = vec![1, 2, half, logical, cur];
    let ghost spec_cands = worker_arm_candidates(logical as nat, cur as nat);
    assert(cands@.map_values(|n: usize| n as nat) =~= spec_cands);
    let mut raw: Vec<ParamChange> = Vec::new();
    for k in 0..5usize
        invariant
            cands@.len() == 5,
            cands@.map_values(|n: usize| n as nat) == spec_cands,
            cur <= i64::MAX,
            logical <= usize::MAX / 2,
            move_views(raw@) == worker_arms(logical as nat, cur as nat, spec_cands.take(k as int)),
    {
        let n = cands[k];
        proof {
            assert(spec_cands.take(k + 1).drop_last() =~= spec_cands.take(k as int));
            assert(spec_cands.take(k + 1).last() == n as nat);
        }
        if n != cur && n >= 1 && n <= logical * 2 && n <= 64 {
            let mut why = String::from_str("\u{3b5}-greedy arm worker_threads=");
            let d = usize_to_decimal(n);
            why.append(d.as_str());
            let m = ParamChange {
                key: String::from_str("bench.worker_threads"),
                previous: KnobValue::Int(cur as i64),
                next: KnobValue::Int(n as i64),
                rationale: why,
            };
            let ghost before = move_views(raw@);
            raw.push(m);
            assert(move_views(raw@) =~= before.push(m@));
        }
    }
    assert(spec_cands.take(5) =~= spec_cands);
    let ghost a = move_views(raw@);
    match &priority {
        Some(c) => {
            if !str_eq("above_normal", c.as_str()) {
                let m = ParamChange {
                    key: String::from_str("process.priority"),
                    previous: KnobValue::Text(c.clone()),
                    next: KnobValue::Text(String::from_str("above_normal")),
                    rationale: String::from_str("\u{3b5}-greedy arm priority=above_normal"),
                };
                raw.push(m);
            }
            let ghost b = move_views(raw@);
            if !str_eq("normal", c.as_str()) {
                let m = ParamChange {
                    key: String::from_str("process.priority"),
                    previous: KnobValue::Text(c.clone()),
                    next: KnobValue::Text(String::from_str("normal")),
                    rationale: String::from_str("\u{3b5}-greedy arm priority=normal"),
                };
                raw.push(m);
            }
            assert(move_views(raw@) =~= a + priority_arms(opt_view(priority)));
        },
        None => {
            assert(move_views(raw@) =~= a + priority_arms(opt_view(priority)));
        },
    }
    dedup_by_label(raw)
}

} // verus!
