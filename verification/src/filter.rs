//! Case-insensitive substring filtering of records over their location and
//! street fields. Case folding is done by the standard library behind a
//! trusted wrapper; the substring search and the filtering are verified.
use vstd::prelude::*;

use crate::text::{contains_seq, str_contains};
use crate::{OutageRecord, RecordModel};

verus! {

/// The lowercase form of a character sequence, as the standard library's case
/// folding produces it.
pub uninterp spec fn lower_of(s: Seq<char>) -> Seq<char>;

/// Relies on str::to_lowercase: the result depends on the characters alone.
#[verifier::external_body]
fn lowercase(s: &str) -> (r: String)
    ensures
        r@ == lower_of(s@),
{
    s.to_lowercase()
}

/// A record matches a (lowercased) filter when its lowercased location or its
/// lowercased street contains the filter as a substring.
pub open spec fn spec_matches(r: RecordModel, needle: Seq<char>) -> bool {
    contains_seq(lower_of(r.location), needle) || contains_seq(lower_of(r.street), needle)
}

/// The subsequence of `rs` whose records match `needle`, in original order.
pub open spec fn spec_filter(rs: Seq<RecordModel>, needle: Seq<char>) -> Seq<RecordModel>
    decreases rs.len(),
{
    if rs.len() == 0 {
        Seq::empty()
    } else if spec_matches(rs.last(), needle) {
        spec_filter(rs.drop_last(), needle).push(rs.last())
    } else {
        spec_filter(rs.drop_last(), needle)
    }
}

/// Whether the record's location or street contains `needle` after case
/// folding; `needle` is expected already lowercased.
pub fn record_matches(rec: &OutageRecord, needle: &str) -> (r: bool)
    ensures
        r == spec_matches(rec@, needle@),
{
    let loc = lowercase(rec.location.as_str());
    if str_contains(loc.as_str(), needle) {
        return true;
    }
    let street = lowercase(rec.street.as_str());
    str_contains(street.as_str(), needle)
}

/// Keeps the records whose location or street contains the filter string as a
/// case-insensitive substring, in original order; with no filter, every record
/// is returned unchanged, in original order.
pub fn filter_outages(outages: &Vec<OutageRecord>, filter: &Option<String>) -> (res: Vec<
    OutageRecord,
>)
    ensures
        match filter {
            Some(f) => res.deep_view() == spec_filter(outages.deep_view(), lower_of(f@)),
            None => res.deep_view() == outages.deep_view(),
        },
{
    match filter {
        Some(f) => {
            let needle = lowercase(f.as_str());
            let mut res: Vec<OutageRecord> = Vec::new();
            let mut i: usize = 0;
            proof {
                assert(res.deep_view() =~= Seq::<RecordModel>::empty());
                assert(outages.deep_view().take(0) =~= Seq::<RecordModel>::empty());
            }
            while i < outages.len()
                invariant
                    0 <= i <= outages.len(),
                    outages.deep_view().len() == outages.len(),
                    needle@ == lower_of(f@),
                    res.deep_view() == spec_filter(outages.deep_view().take(i as int), needle@),
                decreases outages.len() - i,
            {
                let ghost dv = outages.deep_view();
                proof {
                    assert(dv[i as int] == outages@[i as int]@);
                    assert(dv.take(i as int + 1).drop_last() =~= dv.take(i as int));
                    assert(dv.take(i as int + 1).last() == dv[i as int]);
                }
                if record_matches(&outages[i], needle.as_str()) {
                    let ghost dv0 = res.deep_view();
                    res.push(outages[i].duplicate());
                    proof {
                        assert(res.deep_view() =~= dv0.push(dv[i as int]));
                    }
                }
                i = i + 1;
            }
            proof {
                assert(outages.deep_view().take(outages.len() as int) =~= outages.deep_view());
            }
            res
        },
        None => {
            let mut res: Vec<OutageRecord> = Vec::new();
            let mut i: usize = 0;
            proof {
                assert(res.deep_view() =~= Seq::<RecordModel>::empty());
                assert(outages.deep_view().take(0) =~= Seq::<RecordModel>::empty());
            }
            while i < outages.len()
                invariant
                    0 <= i <= outages.len(),
                    outages.deep_view().len() == outages.len(),
                    res.deep_view() == outages.deep_view().take(i as int),
                decreases outages.len() - i,
            {
                let ghost dv = outages.deep_view();
                let ghost dv0 = res.deep_view();
                res.push(outages[i].duplicate());
                proof {
                    assert(dv[i as int] == outages@[i as int]@);
                    assert(res.deep_view() =~= dv0.push(dv[i as int]));
                    assert(dv.take(i as int + 1) =~= dv.take(i as int).push(dv[i as int]));
                }
                i = i + 1;
            }
            proof {
                assert(outages.deep_view().take(outages.len() as int) =~= outages.deep_view());
            }
            res
        },
    }
}

} // verus!
