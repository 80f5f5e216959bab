//! Aggregation across the date window: each date's fetch-and-parse produces
//! one outcome, and the outcomes are reduced to one accumulated record
//! sequence plus a parallel list of failure messages. A failed date
//! contributes no records and never aborts the rest of the window.
use vstd::prelude::*;

use crate::{OutageRecord, RecordModel};

verus! {

/// What one date of the window produced: the page's records in page order, or
/// a failure message for that date (fetch or transport trouble).
pub enum PageOutcome {
    Records(Vec<OutageRecord>),
    Failure(String),
}

/// Mathematical model of one date's outcome.
pub enum OutcomeModel {
    Records(Seq<RecordModel>),
    Failure(Seq<char>),
}

impl DeepView for PageOutcome {
    type V = OutcomeModel;

    open spec fn deep_view(&self) -> OutcomeModel {
        match self {
            PageOutcome::Records(rs) => OutcomeModel::Records(rs.deep_view()),
            PageOutcome::Failure(m) => OutcomeModel::Failure(m@),
        }
    }
}

/// The records of the successful outcomes, concatenated in window order with
/// each page's order kept.
pub open spec fn spec_merged(os: Seq<OutcomeModel>) -> Seq<RecordModel>
    decreases os.len(),
{
    if os.len() == 0 {
        Seq::empty()
    } else {
        spec_merged(os.drop_last()) + (match os.last() {
            OutcomeModel::Records(rs) => rs,
            OutcomeModel::Failure(_) => Seq::empty(),
        })
    }
}

/// The failure messages of the failed outcomes, in window order.
pub open spec fn spec_failures(os: Seq<OutcomeModel>) -> Seq<Seq<char>>
    decreases os.len(),
{
    if os.len() == 0 {
        Seq::empty()
    } else {
        spec_failures(os.drop_last()) + (match os.last() {
            OutcomeModel::Records(_) => Seq::empty(),
            OutcomeModel::Failure(m) => seq![m],
        })
    }
}

/// Reduces the window's outcomes into the accumulated record sequence and the
/// parallel list of failure messages: a failed date contributes zero records
/// and one message, and no failure aborts the merge.
pub fn merge_outcomes(outcomes: &Vec<PageOutcome>) -> (r: (Vec<OutageRecord>, Vec<String>))
    ensures
        r.0.deep_view() == spec_merged(outcomes.deep_view()),
        r.1.deep_view() == spec_failures(outcomes.deep_view()),
{
    let mut records: Vec<OutageRecord> = Vec::new();
    let mut failures: Vec<String> = Vec::new();
    let mut i: usize = 0;
    proof {
        assert(records.deep_view() =~= Seq::<RecordModel>::empty());
        assert(failures.deep_view() =~= Seq::<Seq<char>>::empty());
        assert(outcomes.deep_view().take(0) =~= Seq::<OutcomeModel>::empty());
    }
    while i < outcomes.len()
        invariant
            0 <= i <= outcomes.len(),
            outcomes.deep_view().len() == outcomes.len(),
            records.deep_view() == spec_merged(outcomes.deep_view().take(i as int)),
            failures.deep_view() == spec_failures(outcomes.deep_view().take(i as int)),
        decreases outcomes.len() - i,
    {
        let ghost dv = outcomes.deep_view();
        proof {
            assert(dv[i as int] == outcomes@[i as int].deep_view());
            assert(dv.take(i as int + 1).drop_last() =~= dv.take(i as int));
            assert(dv.take(i as int + 1).last() == dv[i as int]);
        }
        match &outcomes[i] {
            PageOutcome::Records(rs) => {
                let ghost rv = rs.deep_view();
                let ghost base = records.deep_view();
                let mut j: usize = 0;
                proof {
                    assert(rv.take(0) =~= Seq::<RecordModel>::empty());
                    assert(records.deep_view() =~= base + rv.take(0));
                }
                while j < rs.len()
                    invariant
                        0 <= j <= rs.len(),
                        rv == rs.deep_view(),
                        rv.len() == rs.len(),
                        records.deep_view() == base + rv.take(j as int),
                    decreases rs.len() - j,
                {
                    let ghost before = records.deep_view();
                    records.push(rs[j].duplicate());
                    proof {
                        assert(rv[j as int] == rs@[j as int]@);
                        assert(records.deep_view() =~= before.push(rv[j as int]));
                        assert(rv.take(j as int + 1) =~= rv.take(j as int).push(rv[j as int]));
                        assert(before.push(rv[j as int]) =~= base + rv.take(j as int + 1));
                    }
                    j = j + 1;
                }
                proof {
                    assert(rv.take(rs.len() as int) =~= rv);
                    assert(records.deep_view() =~= spec_merged(dv.take(i as int + 1)));
                    assert(failures.deep_view() =~= spec_failures(dv.take(i as int + 1)));
                }
            },
            PageOutcome::Failure(m) => {
                let ghost before = failures.deep_view();
                failures.push(m.clone());
                proof {
                    assert(failures.deep_view() =~= before.push(m@));
                    assert(before.push(m@) =~= spec_failures(dv.take(i as int)) + seq![m@]);
                    assert(failures.deep_view() =~= spec_failures(dv.take(i as int + 1)));
                    assert(records.deep_view() =~= spec_merged(dv.take(i as int + 1)));
                }
            },
        }
        i = i + 1;
    }
    proof {
        assert(outcomes.deep_view().take(outcomes.len() as int) =~= outcomes.deep_view());
    }
    (records, failures)
}

} // verus!
