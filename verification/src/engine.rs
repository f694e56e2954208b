//! The carving engine: catalog iteration over header-match iteration over
//! extent resolution, producing every candidate recovered-file record.

use vstd::prelude::*;
use crate::catalog::{SigSpec, SignatureDescriptor, catalog_wf, descriptor_views};
use crate::matcher::{find_all_matches, match_offsets, matches_at};
use crate::resolver::{resolve_extent, spec_resolved_len};

verus! {

/// One detected candidate: which catalog entry matched, where its header
/// starts in the buffer, and how many bytes the candidate spans.
#[derive(Clone, Copy, Debug, PartialEq, Eq, Structural)]
pub struct CandidateRecord {
    pub descriptor_index: usize,
    pub offset: usize,
    pub length: usize,
}

/// Mathematical model of a candidate record.
pub struct RecordSpec {
    pub descriptor_index: int,
    pub offset: int,
    pub length: int,
}

impl View for CandidateRecord {
    type V = RecordSpec;

    open spec fn view(&self) -> RecordSpec {
        RecordSpec {
            descriptor_index: self.descriptor_index as int,
            offset: self.offset as int,
            length: self.length as int,
        }
    }
}

/// The views of a sequence of candidate records.
pub open spec fn record_views(s: Seq<CandidateRecord>) -> Seq<RecordSpec> {
    s.map_values(|c: CandidateRecord| c@)
}

/// The record that descriptor `d` (at catalog index `idx`) produces for a
/// header match at position `h` of buffer `b`.
pub open spec fn record_at(b: Seq<u8>, d: SigSpec, idx: int, h: int) -> RecordSpec {
    RecordSpec { descriptor_index: idx, offset: h, length: spec_resolved_len(b, h, d) }
}

/// All records that descriptor `d` (at catalog index `idx`) produces for
/// buffer `b`: one per header occurrence, in match order.
pub open spec fn records_for_descriptor(b: Seq<u8>, d: SigSpec, idx: int) -> Seq<RecordSpec> {
    match_offsets(b, d.header).map_values(|h: int| record_at(b, d, idx, h))
}

/// The records of descriptors `idx`, `idx + 1`, ... of the catalog, in order.
pub open spec fn spec_carve_from(b: Seq<u8>, catalog: Seq<SigSpec>, idx: int) -> Seq<RecordSpec>
    decreases catalog.len() - idx,
{
    if idx < 0 || idx >= catalog.len() {
        Seq::empty()
    } else {
        records_for_descriptor(b, catalog[idx], idx) + spec_carve_from(b, catalog, idx + 1)
    }
}

/// Every candidate record that carving buffer `b` against `catalog` yields:
/// grouped by descriptor in catalog order, by match position within a
/// descriptor.
pub open spec fn spec_carve(b: Seq<u8>, catalog: Seq<SigSpec>) -> Seq<RecordSpec> {
    spec_carve_from(b, catalog, 0)
}

/// Appends to `results` the records of one descriptor, in match order.
fn carve_one_descriptor(
    slice: &[u8],
    d: &SignatureDescriptor,
    idx: usize,
    results: &mut Vec<CandidateRecord>,
)
    requires
        d@.wf(),
    ensures
        record_views(final(results)@)
            == record_views(old(results)@) + records_for_descriptor(slice@, d@, idx as int),
{
    let ghost base = record_views(old(results)@);
    let ghost expected = records_for_descriptor(slice@, d@, idx as int);
    let positions = find_all_matches(slice, &d.header);
    let n = positions.len();
    let mut k: usize = 0;
    while k < n
        invariant
            d@.wf(),
            n == positions@.len(),
            0 <= k <= n,
            positions@.map_values(|x: usize| x as int) == match_offsets(slice@, d@.header),
            expected == records_for_descriptor(slice@, d@, idx as int),
            record_views(results@) == base + expected.take(k as int),
        decreases n - k,
    {
        let h = positions[k];
        proof {
            crate::matcher::lemma_match_offsets_from_sound(slice@, d@.header, 0, k as int);
            assert(match_offsets(slice@, d@.header)[k as int] == h as int);
        }
        let len = resolve_extent(slice, h, d);
        let ghost prev = results@;
        results.push(CandidateRecord { descriptor_index: idx, offset: h, length: len });
        proof {
            assert(record_views(results@) =~= record_views(prev) + seq![record_at(slice@, d@, idx as int, h as int)]);
            assert(expected[k as int] == record_at(slice@, d@, idx as int, h as int));
            assert(base + expected.take(k as int) + seq![expected[k as int]]
                =~= base + expected.take(k + 1));
        }
        k += 1;
    }
    proof {
        assert(expected.take(n as int) =~= expected);
    }
}

/// Carves the whole buffer against a catalog: for each descriptor, in
/// catalog order, every header occurrence yields exactly one candidate
/// record, with the extent the resolver assigns it.
///
/// The scan is pure and one-shot: the result is a function of the buffer
/// and catalog alone, no candidate extends past the end of the buffer, and
/// overlapping detections are all reported, never suppressed.
pub fn carve_slice(slice: &[u8], catalog: &Vec<SignatureDescriptor>) -> (r: Vec<CandidateRecord>)
    requires
        catalog_wf(descriptor_views(catalog@)),
    ensures
        record_views(r@) == spec_carve(slice@, descriptor_views(catalog@)),
        forall|k: int| 0 <= k < r@.len()
            ==> (#[trigger] r@[k]).offset + r@[k].length <= slice@.len(),
{
    let ghost cm = descriptor_views(catalog@);
    let mut results: Vec<CandidateRecord> = Vec::new();
    let n = catalog.len();
    let mut idx: usize = 0;
    while idx < n
        invariant
            catalog_wf(cm),
            cm == descriptor_views(catalog@),
            n == catalog@.len(),
            0 <= idx <= n,
            record_views(results@) + spec_carve_from(slice@, cm, idx as int)
                == spec_carve(slice@, cm),
        decreases n - idx,
    {
        let d = &catalog[idx];
        proof {
            assert(cm[idx as int] == d@);
        }
        let ghost before = record_views(results@);
        carve_one_descriptor(slice, d, idx, &mut results);
        proof {
            assert(spec_carve_from(slice@, cm, idx as int)
                == records_for_descriptor(slice@, d@, idx as int)
                    + spec_carve_from(slice@, cm, idx + 1));
            assert(record_views(results@) + spec_carve_from(slice@, cm, idx + 1)
                =~= before + spec_carve_from(slice@, cm, idx as int));
        }
        idx += 1;
    }
    proof {
        assert(spec_carve_from(slice@, cm, n as int) =~= Seq::<RecordSpec>::empty());
        assert(record_views(results@) =~= record_views(results@) + Seq::<RecordSpec>::empty());
        lemma_carve_from_in_bounds(slice@, cm, 0);
        assert forall|k: int| 0 <= k < results@.len()
            implies (#[trigger] results@[k]).offset + results@[k].length <= slice@.len() by {
            assert(record_views(results@)[k] == results@[k]@);
            assert(record_views(results@) == spec_carve_from(slice@, cm, 0));
            assert(0 <= spec_carve_from(slice@, cm, 0)[k].offset
                && 0 <= spec_carve_from(slice@, cm, 0)[k].length
                && spec_carve_from(slice@, cm, 0)[k].offset
                    + spec_carve_from(slice@, cm, 0)[k].length <= slice@.len());
        }
    }
    results
}

/// Every record of a carve lies within the buffer: its offset plus its
/// length never exceeds the buffer's length.
pub proof fn lemma_carve_from_in_bounds(b: Seq<u8>, catalog: Seq<SigSpec>, idx: int)
    requires
        catalog_wf(catalog),
    ensures
        forall|k: int| 0 <= k < spec_carve_from(b, catalog, idx).len()
            ==> 0 <= #[trigger] spec_carve_from(b, catalog, idx)[k].offset
                && 0 <= spec_carve_from(b, catalog, idx)[k].length
                && spec_carve_from(b, catalog, idx)[k].offset
                    + spec_carve_from(b, catalog, idx)[k].length <= b.len(),
    decreases catalog.len() - idx,
{
    if idx < 0 || idx >= catalog.len() {
    } else {
        let d = catalog[idx];
        let own = records_for_descriptor(b, d, idx);
        assert forall|k: int| 0 <= k < own.len()
            implies 0 <= #[trigger] own[k].offset && 0 <= own[k].length
                && own[k].offset + own[k].length <= b.len() by {
            crate::matcher::lemma_match_offsets_from_sound(b, d.header, 0, k);
            let h = match_offsets(b, d.header)[k];
            crate::resolver::lemma_resolved_len_in_bounds(b, h, d);
        }
        lemma_carve_from_in_bounds(b, catalog, idx + 1);
        let rest = spec_carve_from(b, catalog, idx + 1);
        assert forall|k: int| 0 <= k < spec_carve_from(b, catalog, idx).len()
            implies 0 <= #[trigger] spec_carve_from(b, catalog, idx)[k].offset
                && 0 <= spec_carve_from(b, catalog, idx)[k].length
                && spec_carve_from(b, catalog, idx)[k].offset
                    + spec_carve_from(b, catalog, idx)[k].length <= b.len() by {
            if k < own.len() {
                assert(spec_carve_from(b, catalog, idx)[k] == own[k]);
            } else {
                assert(spec_carve_from(b, catalog, idx)[k] == rest[k - own.len()]);
            }
        }
    }
}

} // verus!
