//! Crash-recovery journal for in-flight parameter changes.
//!
//! The journal's record and its transitions are kept here; writing the
//! record to disk after each transition, and applying rollbacks through the
//! platform, happen at the edge of the program.

use vstd::prelude::*;

use crate::candidate::{move_views, Candidate, Move, ParamChange};
use crate::text::str_eq;

verus! {

/// The journal entry of one experiment in flight.
#[derive(Debug, Clone)]
pub struct RecoveryRecord {
    pub experiment_id: String,
    pub candidate: Candidate,
    pub applied: Vec<ParamChange>,
    /// RFC 3339 time at which the experiment began.
    pub started_at: String,
    pub status: String,
    pub last_error: Option<String>,
}

/// Statuses of a record that an interrupted run leaves behind.
pub open spec fn interrupted_status(s: Seq<char>) -> bool {
    s == "running"@ || s == "applied"@ || s == "failed"@
}

/// The journal: at most one record.
#[derive(Debug)]
pub struct RecoveryJournal {
    pub record: Option<RecoveryRecord>,
}

/// Law: the record that `begin`, `record_applied` or `fail` leaves behind is
/// reported as interrupted; the one that `complete` or `rolled_back` leaves
/// behind is not.
pub proof fn lemma_unfinished_records_are_interrupted()
    ensures
        interrupted_status("running"@),
        interrupted_status("applied"@),
        interrupted_status("failed"@),
        !interrupted_status("complete"@),
        !interrupted_status("rolled_back"@),
{
    reveal_strlit("running");
    reveal_strlit("applied");
    reveal_strlit("failed");
    reveal_strlit("complete");
    reveal_strlit("rolled_back");
    assert("complete"@[0] != "running"@[0]);
    assert("complete"@[0] != "applied"@[0]);
    assert("complete"@[0] != "failed"@[0]);
    assert("rolled_back"@.len() != "running"@.len() && "rolled_back"@.len() != "applied"@.len());
    assert("rolled_back"@.len() != "failed"@.len());
}

/// The changes applied so far, last first.
pub open spec fn reversed(s: Seq<Move>) -> Seq<Move> {
    Seq::new(s.len(), |i: int| s[s.len() - 1 - i])
}

/// Some change of `applied` has key `k`.
pub open spec fn key_applied(applied: Seq<Move>, k: Seq<char>) -> bool {
    exists|j: int| 0 <= j < applied.len() && (#[trigger] applied[j]).key == k
}

/// The declared changes whose key was not applied, last first.
pub open spec fn unapplied_reversed(changes: Seq<Move>, applied: Seq<Move>) -> Seq<Move>
    decreases changes.len(),
{
    if changes.len() == 0 {
        Seq::empty()
    } else {
        (if key_applied(applied, changes.last().key) {
            Seq::empty()
        } else {
            seq![changes.last()]
        }) + unapplied_reversed(changes.drop_last(), applied)
    }
}

/// The changes before the first change with key `k`, in order.
pub open spec fn before_key(changes: Seq<Move>, k: Seq<char>) -> Seq<Move>
    decreases changes.len(),
{
    if changes.len() == 0 {
        Seq::empty()
    } else if changes[0].key == k {
        Seq::empty()
    } else {
        seq![changes[0]] + before_key(changes.drop_first(), k)
    }
}

fn reversed_changes(v: &Vec<ParamChange>) -> (r: Vec<ParamChange>)
    ensures
        move_views(r@) == reversed(move_views(v@)),
{
    let ghost s = move_views(v@);
    let mut out: Vec<ParamChange> = Vec::new();
    let mut k = v.len();
    while k > 0
        invariant
            k <= v.len(),
            s == move_views(v@),
            move_views(out@) == reversed(s).take(v.len() - k),
        decreases k,
    {
        k = k - 1;
        let c = v[k].duplicate();
        let ghost before = move_views(out@);
        out.push(c);
        proof {
            assert(move_views(out@) =~= before.push(c@));
            assert(reversed(s).take(v.len() - k) =~= reversed(s).take(v.len() - k - 1).push(s[k as int]));
        }
    }
    assert(reversed(s).take(v.len() as int) =~= reversed(s));
    out
}

impl RecoveryRecord {
    /// The rollbacks recovery performs: first each applied change, last
    /// first; then, best effort, each declared change whose key was never
    /// applied, last first.
    pub fn recovery_steps(&self) -> (r: (Vec<ParamChange>, Vec<ParamChange>))
        ensures
            move_views(r.0@) == reversed(move_views(self.applied@)),
            move_views(r.1@) == unapplied_reversed(
                move_views(self.candidate.changes@),
                move_views(self.applied@),
            ),
    {
        let first = reversed_changes(&self.applied);
        let ghost app = move_views(self.applied@);
        let ghost ch = move_views(self.candidate.changes@);
        let mut second: Vec<ParamChange> = Vec::new();
        let n = self.candidate.changes.len();
        let mut k = n;
        proof {
            assert(ch.take(n as int) =~= ch);
            assert(move_views(second@) + unapplied_reversed(ch, app) =~= unapplied_reversed(ch, app));
        }
        while k > 0
            invariant
                k <= n,
                n == self.candidate.changes@.len(),
                app == move_views(self.applied@),
                ch == move_views(self.candidate.changes@),
                move_views(second@) + unapplied_reversed(ch.take(k as int), app)
                    == unapplied_reversed(ch, app),
            decreases k,
        {
            k = k - 1;
            let c = &self.candidate.changes[k];
            let mut found = false;
            for j in 0..self.applied.len()
                invariant
                    app == move_views(self.applied@),
                    found <==> exists|t: int| 0 <= t < j && (#[trigger] app[t]).key == c@.key,
            {
                assert(app[j as int] == self.applied@[j as int]@);
                if str_eq(self.applied[j].key.as_str(), c.key.as_str()) {
                    found = true;
                }
            }
            proof {
                assert(ch.take(k + 1).drop_last() =~= ch.take(k as int));
                assert(ch.take(k + 1).last() == c@);
                assert(found == key_applied(app, c@.key));
            }
            if !found {
                let d = c.duplicate();
                let ghost before = move_views(second@);
                second.push(d);
                assert(move_views(second@) =~= before + seq![c@]);
                assert(move_views(second@) + unapplied_reversed(ch.take(k as int), app)
                    =~= before + unapplied_reversed(ch.take(k + 1), app));
            } else {
                assert(unapplied_reversed(ch.take(k + 1), app) =~= unapplied_reversed(ch.take(k as int), app));
            }
        }
        assert(ch.take(0) =~= Seq::<Move>::empty());
        assert(move_views(second@) =~= move_views(second@) + unapplied_reversed(ch.take(0), app));
        (first, second)
    }
}

impl RecoveryJournal {
    /// An empty journal.
    pub fn new() -> (j: RecoveryJournal)
        ensures
            j.record is None,
    {
        RecoveryJournal { record: None }
    }

    /// The record left by an interrupted run: one whose status is
    /// `running`, `applied` or `failed`.
    pub fn interrupted(&self) -> (r: Option<&RecoveryRecord>)
        ensures
            (match self.record {
                Some(rec) => if interrupted_status(rec.status@) {
                    r == Some(&rec)
                } else {
                    r is None
                },
                None => r is None,
            }),
    {
        match &self.record {
            Some(rec) => {
                let s = rec.status.as_str();
                if str_eq(s, "running") || str_eq(s, "applied") || str_eq(s, "failed") {
                    Some(rec)
                } else {
                    None
                }
            },
            None => None,
        }
    }

    /// Begin an experiment: a fresh `running` record with nothing applied.
    pub fn begin(&mut self, experiment_id: &str, candidate: Candidate, started_at: String)
        ensures
            final(self).record matches Some(r) && r.experiment_id@ == experiment_id@ && r.candidate
                == candidate && r.applied@.len() == 0 && r.started_at@ == started_at@
                && r.status@ == "running"@ && r.last_error is None,
    {
        self.record = Some(
            RecoveryRecord {
                experiment_id: String::from_str(experiment_id),
                candidate,
                applied: Vec::new(),
                started_at,
                status: String::from_str("running"),
                last_error: None,
            },
        );
    }

    /// Note one applied change: it joins the applied list and the status
    /// becomes `applied`; without a record nothing changes.
    pub fn record_applied(&mut self, change: &ParamChange)
        ensures
            (match old(self).record {
                None => final(self).record is None,
                Some(o) => final(self).record matches Some(r) && r.experiment_id == o.experiment_id
                    && r.candidate == o.candidate && move_views(r.applied@) == move_views(
                    o.applied@,
                ).push(change@) && r.started_at == o.started_at && r.status@ == "applied"@
                    && r.last_error == o.last_error,
            }),
    {
        match &mut self.record {
            Some(r) => {
                let ghost before = move_views(r.applied@);
                r.applied.push(change.duplicate());
                assert(move_views(r.applied@) =~= before.push(change@));
                r.status = String::from_str("applied");
            },
            None => {},
        }
    }

    fn set_status(&mut self, status: &str)
        ensures
            (match old(self).record {
                None => final(self).record is None,
                Some(o) => final(self).record matches Some(r) && r.experiment_id == o.experiment_id
                    && r.candidate == o.candidate && r.applied == o.applied && r.started_at
                    == o.started_at && r.status@ == status@ && r.last_error == o.last_error,
            }),
    {
        match &mut self.record {
            Some(r) => {
                r.status = String::from_str(status);
            },
            None => {},
        }
    }

    /// Mark the experiment complete (written out, then the journal is cleared).
    pub fn complete(&mut self)
        ensures
            (match old(self).record {
                None => final(self).record is None,
                Some(o) => final(self).record matches Some(r) && r.experiment_id == o.experiment_id
                    && r.candidate == o.candidate && r.applied == o.applied && r.started_at
                    == o.started_at && r.status@ == "complete"@ && r.last_error == o.last_error,
            }),
    {
        self.set_status("complete");
    }

    /// Mark the experiment rolled back (written out, then the journal is cleared).
    pub fn rolled_back(&mut self)
        ensures
            (match old(self).record {
                None => final(self).record is None,
                Some(o) => final(self).record matches Some(r) && r.experiment_id == o.experiment_id
                    && r.candidate == o.candidate && r.applied == o.applied && r.started_at
                    == o.started_at && r.status@ == "rolled_back"@ && r.last_error == o.last_error,
            }),
    {
        self.set_status("rolled_back");
    }

    /// Mark the experiment failed with the error's text.
    pub fn fail(&mut self, err: &str)
        ensures
            (match old(self).record {
                None => final(self).record is None,
                Some(o) => final(self).record matches Some(r) && r.experiment_id == o.experiment_id
                    && r.candidate == o.candidate && r.applied == o.applied && r.started_at
                    == o.started_at && r.status@ == "failed"@ && (r.last_error matches Some(e)
                    && e@ == err@),
            }),
    {
        match &mut self.record {
            Some(r) => {
                r.status = String::from_str("failed");
                r.last_error = Some(String::from_str(err));
            },
            None => {},
        }
    }

    /// Forget the record.
    pub fn clear(&mut self)
        ensures
            final(self).record is None,
    {
        self.record = None;
    }
}

/// The changes to roll back when applying a candidate fails at a change with
/// key `failed_key`: those before the first change with that key, in order.
pub fn rollback_before(changes: &Vec<ParamChange>, failed_key: &str) -> (r: Vec<ParamChange>)
    ensures
        move_views(r@) == before_key(move_views(changes@), failed_key@),
{
    let ghost s = move_views(changes@);
    let mut out: Vec<ParamChange> = Vec::new();
    let mut i: usize = 0;
    proof {
        assert(s.skip(0) =~= s);
        assert(move_views(out@) + before_key(s, failed_key@) =~= before_key(s, failed_key@));
    }
    while i < changes.len()
        invariant
            i <= changes.len(),
            s == move_views(changes@),
            move_views(out@) + before_key(s.skip(i as int), failed_key@) == before_key(s, failed_key@),
        decreases changes.len() - i,
    {
        proof {
            assert(s.skip(i as int)[0] == changes@[i as int]@);
            assert(s.skip(i as int).drop_first() =~= s.skip(i + 1));
        }
        if str_eq(changes[i].key.as_str(), failed_key) {
            assert(before_key(s.skip(i as int), failed_key@) =~= Seq::<Move>::empty());
            assert(move_views(out@) =~= move_views(out@) + Seq::<Move>::empty());
            return out;
        }
        let c = changes[i].duplicate();
        let ghost before = move_views(out@);
        out.push(c);
        proof {
            assert(move_views(out@) =~= before.push(c@));
            assert(before + before_key(s.skip(i as int), failed_key@) =~= move_views(out@) + before_key(
                s.skip(i + 1),
                failed_key@,
            ));
        }
        i = i + 1;
    }
    assert(s.skip(i as int) =~= Seq::<Move>::empty());
    assert(move_views(out@) =~= move_views(out@) + Seq::<Move>::empty());
    out
}

} // verus!
