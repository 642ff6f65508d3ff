//! The results of a run: each goes into its own slot, and into no other.
use crate::course::{Ledger, Outcome, Run};
use crate::operation::Catalog;
use crate::run::{Action, Guard, Slot, Step};
use vstd::prelude::*;

verus! {

/// The result in each slot of a record phase is what was last filed there; filing anything else
/// leaves it.
pub proof fn lemma_record_results<R>(
    l: Ledger<R>,
    slot: Slot,
    result: Option<R>,
    c: Catalog,
    samples: u32,
)
    ensures
        ({
            let after = l.filed(slot, result, c, samples);
            &&& after.creates == if slot is Creates {
                result
            } else {
                l.creates
            }
            &&& after.reads == if slot is Reads {
                result
            } else {
                l.reads
            }
            &&& after.updates == if slot is Updates {
                result
            } else {
                l.updates
            }
            &&& after.deletes == if slot is Deletes {
                result
            } else {
                l.deletes
            }
            &&& after.at == l.at
        }),
{
}

/// A scan is opened with its id, its name and its repetitions and without a result; a leg is added
/// behind those of the last scan, with the result of its step; an index build or drop is noted with
/// the last scan, which counts as indexed exactly where the build has a result; nothing else touches
/// the scans, and no earlier scan changes.
pub proof fn lemma_scan_results<R>(
    l: Ledger<R>,
    slot: Slot,
    result: Option<R>,
    c: Catalog,
    samples: u32,
)
    ensures
        ({
            let after = l.filed(slot, result, c, samples);
            let n = l.scans.len() as int;
            &&& after.scans.len() == if slot is OpenScan {
                n + 1
            } else {
                n
            }
            &&& forall|k: int| 0 <= k < n - 1 ==> #[trigger] after.scans[k] == l.scans[k]
            &&& slot matches Slot::OpenScan { scan } ==> {
                let s = c.scans@[scan as int];
                &&& n > 0 ==> after.scans[n - 1] == l.scans[n - 1]
                &&& after.scans[n].id == s.id@
                &&& after.scans[n].name == s.name@
                &&& after.scans[n].iterations == (match s.iterations {
                    Some(given) => given as u32,
                    None => samples,
                })
                &&& after.scans[n].index_build is None
                &&& after.scans[n].index_remove is None
                &&& after.scans[n].runs.len() == 0
                &&& !after.found && !after.built
            }
            &&& !(slot is OpenScan) ==> after.found == l.found
            &&& !(slot is OpenScan) ==> after.built == if slot is IndexBuild {
                result is Some
            } else {
                l.built
            }
            &&& n > 0 && !(slot is OpenScan) ==> {
                let x = l.scans[n - 1];
                let y = after.scans[n - 1];
                &&& y.id == x.id
                &&& y.name == x.name
                &&& y.iterations == x.iterations
                &&& y.index_build == if slot is IndexBuild {
                    result
                } else {
                    x.index_build
                }
                &&& y.index_remove == if slot is IndexRemove {
                    result
                } else {
                    x.index_remove
                }
                &&& !(slot is Leg) ==> y.runs == x.runs
                &&& slot matches Slot::Leg { workload, indexed } ==> {
                    &&& y.runs.len() == x.runs.len() + 1
                    &&& y.runs.drop_last() == x.runs
                    &&& y.runs.last().workload == workload
                    &&& y.runs.last().indexed == indexed
                    &&& y.runs.last().result == result
                }
            }
        }),
{
    let after = l.filed(slot, result, c, samples);
    if l.scans.len() > 0 {
        if let Slot::Leg { workload, indexed } = slot {
            assert(after.scans.last().runs.drop_last() =~= l.scans.last().runs);
        }
    }
}

/// A batch is filed behind the earlier ones, with its name, its repetitions, its size and the result
/// of its step; nothing else touches the batches.
pub proof fn lemma_batch_results<R>(
    l: Ledger<R>,
    slot: Slot,
    result: Option<R>,
    c: Catalog,
    samples: u32,
)
    ensures
        ({
            let after = l.filed(slot, result, c, samples);
            &&& !(slot is Batch) ==> after.batches == l.batches
            &&& slot matches Slot::Batch { batch } ==> {
                let given = c.batches@[batch as int];
                &&& after.batches.len() == l.batches.len() + 1
                &&& after.batches.drop_last() == l.batches
                &&& after.batches.last().name == given.name@
                &&& after.batches.last().groups == given.batch_size
                &&& after.batches.last().result == result
                &&& after.batches.last().iterations == (match given.iterations {
                    Some(n) => n as u32,
                    None => samples,
                })
            }
        }),
{
    let after = l.filed(slot, result, c, samples);
    if slot is Batch {
        assert(after.batches.drop_last() =~= l.batches);
    }
}

/// A step is passed over exactly where it does nothing, where it needs the query set and there is
/// none, or where it needs the index and that was not built.
pub proof fn lemma_passed_over<R>(l: Ledger<R>, s: Step)
    ensures
        l.passes(s) <==> {
            ||| s.action == Action::Nothing
            ||| s.guard == Guard::Found && !l.found
            ||| s.guard == Guard::Built && !l.built
        },
{
}

/// What was measured is what is filed; a step without a measurement files none; only the building of
/// a query set says whether there is one; and each step takes the run on by one.
pub proof fn lemma_outcomes_filed<R>(
    l: Ledger<R>,
    s: Step,
    outcome: Outcome<R>,
    c: Catalog,
    samples: u32,
)
    ensures
        ({
            let after = l.done(s, outcome, c, samples);
            let result = match outcome {
                Outcome::Measured { result } => result,
                _ => None,
            };
            let filed = l.filed(s.slot, result, c, samples);
            &&& after.at == l.at + 1
            &&& after.creates == filed.creates
            &&& after.reads == filed.reads
            &&& after.updates == filed.updates
            &&& after.deletes == filed.deletes
            &&& after.scans == filed.scans
            &&& after.batches == filed.batches
            &&& after.built == filed.built
            &&& after.found == (match outcome {
                Outcome::Found { found } => found,
                _ => filed.found,
            })
            &&& l.passed(s, c, samples).at == l.at + 1
            &&& l.passed(s, c, samples) == (Ledger {
                at: l.at + 1,
                ..l.filed(s.slot, None, c, samples)
            })
        }),
{
}

/// Looking for the next step stops at the first one that is not passed over, and nowhere before.
pub proof fn lemma_next_step<R>(l: Ledger<R>, steps: Seq<Step>, c: Catalog, samples: u32)
    requires
        0 <= l.at <= steps.len(),
    ensures
        ({
            let after = l.settled(steps, c, samples);
            &&& l.at <= after.at <= steps.len()
            &&& after.at < steps.len() ==> !after.passes(steps[after.at])
            &&& l.at < steps.len() && !l.passes(steps[l.at]) ==> after == l
            &&& l.at < steps.len() && l.passes(steps[l.at]) ==> after == l.passed(
                steps[l.at],
                c,
                samples,
            ).settled(steps, c, samples)
        }),
    decreases steps.len() - l.at,
{
    if l.at < steps.len() && l.passes(steps[l.at]) {
        lemma_next_step(l.passed(steps[l.at], c, samples), steps, c, samples);
    }
}

/// A new ledger is empty.
pub proof fn lemma_nothing_filed<R>()
    ensures
        ({
            let l = Ledger::<R>::empty();
            &&& l.at == 0 && !l.found && !l.built
            &&& l.creates is None && l.reads is None && l.updates is None && l.deletes is None
            &&& l.scans.len() == 0 && l.batches.len() == 0
        }),
{
}

/// What a run has filed stands in its own fields: each phase under its name, each scan and each batch
/// with all that was filed for it.
pub proof fn lemma_run_shows<R>(run: Run<R>, i: int)
    ensures
        run.ledger().at == run.at,
        run.ledger().found == run.found,
        run.ledger().built == run.built,
        run.ledger().creates == run.creates,
        run.ledger().reads == run.reads,
        run.ledger().updates == run.updates,
        run.ledger().deletes == run.deletes,
        run.ledger().scans.len() == run.scans@.len(),
        run.ledger().batches.len() == run.batches@.len(),
        0 <= i < run.scans@.len() ==> {
            let shown = run.ledger().scans[i];
            let scan = run.scans@[i];
            &&& shown.id == scan.id@ && shown.name == scan.name@ && shown.iterations
                == scan.iterations
            &&& shown.index_build == scan.index_build && shown.index_remove == scan.index_remove
            &&& shown.runs == scan.runs@
        },
        0 <= i < run.batches@.len() ==> {
            let shown = run.ledger().batches[i];
            let batch = run.batches@[i];
            &&& shown.name == batch.name@ && shown.iterations == batch.iterations
            &&& shown.groups == batch.groups && shown.result == batch.result
        },
{
}

} // verus!
