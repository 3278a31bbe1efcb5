//! Objective notes and adaptive parameter importance.
//!
//! Scores are measured quantities and are combined at the edge of the
//! program; the notes and the accept counts are kept here.

use vstd::prelude::*;

use crate::candidate::{lemma_lex_antisymmetric, lemma_lex_total, lemma_lex_transitive, lex_le, lex_lt, str_le};
use crate::goals::OptimizeGoal;
use crate::text::{str_eq, views};

verus! {

/// Notes about frontiers an objective cannot measure (no invented curves).
pub open spec fn objective_notes_for(goal: OptimizeGoal, temperature_known: bool) -> Seq<Seq<char>> {
    match goal {
        OptimizeGoal::Efficiency => seq!["Efficiency uses score-per-worker when worker count is known."@],
        OptimizeGoal::Quiet | OptimizeGoal::Sustained => if !temperature_known {
            seq!["Thermal frontier unavailable without temperature sensors; not fabricated."@]
        } else {
            Seq::empty()
        },
        OptimizeGoal::Gaming => seq![
            "GPU contribution unsupported; objective uses CPU/realtime proxies only."@,
        ],
        _ => Seq::empty(),
    }
}

/// The notes of an objective score for `goal`, given whether a temperature
/// reading exists.
pub fn objective_notes(goal: OptimizeGoal, temperature_known: bool) -> (v: Vec<String>)
    ensures
        views(v@) == objective_notes_for(goal, temperature_known),
{
    let mut notes: Vec<String> = Vec::new();
    match goal {
        OptimizeGoal::Efficiency => {
            notes.push(String::from_str("Efficiency uses score-per-worker when worker count is known."));
        },
        OptimizeGoal::Quiet | OptimizeGoal::Sustained => {
            if !temperature_known {
                notes.push(
                    String::from_str(
                        "Thermal frontier unavailable without temperature sensors; not fabricated.",
                    ),
                );
            }
        },
        OptimizeGoal::Gaming => {
            notes.push(
                String::from_str(
                    "GPU contribution unsupported; objective uses CPU/realtime proxies only.",
                ),
            );
        },
        _ => {},
    }
    assert(views(notes@) =~= objective_notes_for(goal, temperature_known));
    notes
}

/// Trials and accepts of one parameter.
#[derive(Debug, Clone, Copy, Default)]
pub struct ImportanceStat {
    pub trials: u32,
    pub accepts: u32,
}

/// Adaptive parameter importance from experiment outcomes (frequency of
/// accepts), one entry per parameter key in ascending key order.
#[derive(Debug, Clone, Default)]
pub struct ParamImportance {
    pub counts: Vec<(String, ImportanceStat)>,
}

/// Model of the entries: keys and their counts.
pub open spec fn entry_views(v: Seq<(String, ImportanceStat)>) -> Seq<(Seq<char>, ImportanceStat)> {
    v.map_values(|e: (String, ImportanceStat)| (e.0@, e.1))
}

/// Keys are strictly ascending (so each key occurs once).
pub open spec fn keys_ascending(s: Seq<(Seq<char>, ImportanceStat)>) -> bool {
    forall|i: int, j: int| 0 <= i < j < s.len() ==> lex_lt(#[trigger] s[i].0, #[trigger] s[j].0)
}

/// The counts after one more trial, accepted or not.
pub open spec fn bumped(s: ImportanceStat, accepted: bool) -> ImportanceStat {
    ImportanceStat {
        trials: (s.trials + 1) as u32,
        accepts: if accepted {
            (s.accepts + 1) as u32
        } else {
            s.accepts
        },
    }
}

/// The first trial of a key.
pub open spec fn first_trial(accepted: bool) -> ImportanceStat {
    ImportanceStat { trials: 1, accepts: if accepted { 1 } else { 0 } }
}

/// No entry has more accepts than trials.
pub open spec fn accepts_within_trials(s: Seq<(Seq<char>, ImportanceStat)>) -> bool {
    forall|i: int| 0 <= i < s.len() ==> (#[trigger] s[i]).1.accepts <= s[i].1.trials
}

impl ParamImportance {
    pub open spec fn entries(&self) -> Seq<(Seq<char>, ImportanceStat)> {
        entry_views(self.counts@)
    }

    /// Record one trial of parameter `key`: its trial count goes up, and its
    /// accept count too when the trial was accepted; an unseen key gets its
    /// first entry at its place in key order.
    pub fn record(&mut self, key: &str, accepted: bool)
        requires
            keys_ascending(old(self).entries()),
            forall|i: int|
                0 <= i < old(self).entries().len() && (#[trigger] old(self).entries()[i]).0 == key@
                    ==> old(self).entries()[i].1.trials < u32::MAX && (accepted ==> old(
                    self,
                ).entries()[i].1.accepts < u32::MAX),
        ensures
            keys_ascending(final(self).entries()),
            accepts_within_trials(old(self).entries()) ==> accepts_within_trials(final(self).entries()),
            (exists|p: int|
                0 <= p < old(self).entries().len() && (#[trigger] old(self).entries()[p]).0 == key@)
                ==> (exists|p: int|
                0 <= p < old(self).entries().len() && (#[trigger] old(self).entries()[p]).0 == key@
                    && final(self).entries() == old(self).entries().update(
                    p,
                    (key@, bumped(old(self).entries()[p].1, accepted)),
                )),
            !(exists|p: int|
                0 <= p < old(self).entries().len() && (#[trigger] old(self).entries()[p]).0 == key@)
                ==> (exists|q: int|
                0 <= q <= old(self).entries().len() && final(self).entries() == old(
                    self,
                ).entries().insert(q, (key@, first_trial(accepted)))),
    {
        let ghost s = self.entries();
        let n = self.counts.len();
        let mut i: usize = 0;
        while i < n
            invariant
                n == self.counts@.len(),
                s == self.entries(),
                s == old(self).entries(),
                keys_ascending(s),
                i <= n,
                forall|k: int| 0 <= k < i ==> s[k].0 != key@,
                forall|k: int|
                    0 <= k < s.len() && (#[trigger] s[k]).0 == key@ ==> s[k].1.trials < u32::MAX
                        && (accepted ==> s[k].1.accepts < u32::MAX),
            decreases n - i,
        {
            if str_eq(self.counts[i].0.as_str(), key) {
                let old_stat = self.counts[i].1;
                assert(s[i as int] == (self.counts@[i as int].0@, old_stat));
                let stat = ImportanceStat {
                    trials: old_stat.trials + 1,
                    accepts: if accepted {
                        old_stat.accepts + 1
                    } else {
                        old_stat.accepts
                    },
                };
                let name = self.counts[i].0.clone();
                self.counts.set(i, (name, stat));
                proof {
                    assert(s[i as int].0 == key@);
                    assert(old(self).entries()[i as int].0 == key@);
                    assert(self.entries() =~= s.update(i as int, (key@, bumped(s[i as int].1, accepted))));
                    assert forall|a: int, b: int| 0 <= a < b < self.entries().len() implies lex_lt(
                        #[trigger] self.entries()[a].0,
                        #[trigger] self.entries()[b].0,
                    ) by {
                        assert(s[a].0 == self.entries()[a].0);
                        assert(s[b].0 == self.entries()[b].0);
                    }
                }
                return;
            }
            i = i + 1;
        }
        let mut q: usize = 0;
        while q < n
            invariant
                n == self.counts@.len(),
                s == self.entries(),
                s == old(self).entries(),
                keys_ascending(s),
                q <= n,
                forall|k: int| 0 <= k < n ==> s[k].0 != key@,
                forall|k: int| 0 <= k < q ==> lex_lt(#[trigger] s[k].0, key@),
            ensures
                q <= n,
                forall|k: int| 0 <= k < q ==> lex_lt(#[trigger] s[k].0, key@),
                q < n ==> !lex_le(s[q as int].0, key@),
            decreases n - q,
        {
            if !str_le(self.counts[q].0.as_str(), key) {
                break;
            }
            q = q + 1;
        }
        proof {
            assert forall|k: int| q <= k < n implies lex_lt(key@, #[trigger] s[k].0) by {
                lemma_lex_total(s[q as int].0, key@);
                if k > q {
                    assert(lex_lt(s[q as int].0, s[k].0));
                    lemma_lex_transitive(key@, s[q as int].0, s[k].0);
                    if key@ == s[k].0 {
                        lemma_lex_antisymmetric(s[q as int].0, key@);
                    }
                }
            }
        }
        self.counts.insert(q, (String::from_str(key), ImportanceStat { trials: 1, accepts: if accepted { 1 } else { 0 } }));
        proof {
            assert(!(exists|p: int| 0 <= p < old(self).entries().len() && (#[trigger] old(self).entries()[p]).0 == key@));
            let t = s.insert(q as int, (key@, first_trial(accepted)));
            assert(self.entries() =~= t);
            assert forall|a: int, b: int| 0 <= a < b < t.len() implies lex_lt(
                #[trigger] t[a].0,
                #[trigger] t[b].0,
            ) by {
                if a < q && b == q {
                } else if a < q && b > q {
                    assert(t[b] == s[b - 1]);
                    lemma_lex_transitive(s[a].0, key@, s[b - 1].0);
                    if s[a].0 == s[b - 1].0 {
                        lemma_lex_antisymmetric(s[a].0, key@);
                    }
                } else if a == q {
                    assert(t[b] == s[b - 1]);
                } else if a > q {
                    assert(t[a] == s[a - 1]);
                    assert(t[b] == s[b - 1]);
                } else {
                    assert(t[a] == s[a]);
                    assert(t[b] == s[b]);
                }
            }
        }
    }
}

} // verus!
