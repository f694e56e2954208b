//! Laws of the carving engine, stated over its mathematical model and
//! proved once and for all.

use vstd::prelude::*;
use crate::catalog::{FooterSpec, SigSpec, catalog_wf};
use crate::engine::{
    RecordSpec, record_at, records_for_descriptor, spec_carve, spec_carve_from,
};
use crate::matcher::{
    lemma_match_offsets_from_complete, lemma_match_offsets_from_sorted,
    lemma_match_offsets_from_sound, lemma_match_offsets_first, match_offsets, matches_at,
};
use crate::resolver::{spec_fallback_len, spec_resolved_len};

verus! {

/// A descriptor whose header is longer than the buffer yields no candidates.
pub proof fn lemma_header_longer_than_buffer(b: Seq<u8>, d: SigSpec, idx: int)
    requires
        d.header.len() > b.len(),
    ensures
        records_for_descriptor(b, d, idx) == Seq::<RecordSpec>::empty(),
{
    assert(match_offsets(b, d.header) =~= Seq::<int>::empty());
    assert(records_for_descriptor(b, d, idx) =~= Seq::<RecordSpec>::empty());
}

/// Carving a buffer against one descriptor whose header is longer than the
/// buffer yields zero candidates.
pub proof fn lemma_carve_long_header_empty(b: Seq<u8>, d: SigSpec)
    requires
        d.header.len() > b.len(),
    ensures
        spec_carve(b, seq![d]) == Seq::<RecordSpec>::empty(),
{
    lemma_header_longer_than_buffer(b, d, 0);
    assert(spec_carve_from(b, seq![d], 1) =~= Seq::<RecordSpec>::empty());
    assert(spec_carve(b, seq![d]) =~= Seq::<RecordSpec>::empty());
}

/// Carving an empty buffer against any well-formed catalog yields zero
/// candidates for every descriptor.
pub proof fn lemma_carve_from_empty_buffer(b: Seq<u8>, catalog: Seq<SigSpec>, idx: int)
    requires
        b.len() == 0,
        catalog_wf(catalog),
    ensures
        spec_carve_from(b, catalog, idx) == Seq::<RecordSpec>::empty(),
    decreases catalog.len() - idx,
{
    if idx < 0 || idx >= catalog.len() {
        assert(spec_carve_from(b, catalog, idx) =~= Seq::<RecordSpec>::empty());
    } else {
        lemma_header_longer_than_buffer(b, catalog[idx], idx);
        lemma_carve_from_empty_buffer(b, catalog, idx + 1);
        assert(spec_carve_from(b, catalog, idx) =~= Seq::<RecordSpec>::empty());
    }
}

/// A buffer with exactly one occurrence of the header of a descriptor whose
/// footer policy is absent yields exactly one candidate: its offset is the
/// match position, its length the size bound clamped to the buffer.
pub proof fn lemma_single_match_absent_footer(b: Seq<u8>, d: SigSpec, o: int)
    requires
        d.wf(),
        d.footer == FooterSpec::Absent,
        matches_at(b, d.header, o),
        forall|j: int| j != o ==> !matches_at(b, d.header, j),
    ensures
        spec_carve(b, seq![d]) == seq![record_at(b, d, 0, o)],
        record_at(b, d, 0, o).length == spec_fallback_len(b.len() as int, o, d.size_bound),
{
    lemma_match_offsets_from_complete(b, d.header, 0, o);
    let ms = match_offsets(b, d.header);
    assert forall|k: int| 0 <= k < ms.len() implies ms[k] == o by {
        lemma_match_offsets_from_sound(b, d.header, 0, k);
    }
    if ms.len() > 1 {
        lemma_match_offsets_from_sorted(b, d.header, 0, 0, 1);
    }
    assert(ms.contains(o));
    assert(ms =~= seq![o]);
    assert(records_for_descriptor(b, d, 0) =~= seq![record_at(b, d, 0, o)]);
    assert(spec_carve_from(b, seq![d], 1) =~= Seq::<RecordSpec>::empty());
    assert(spec_carve(b, seq![d]) =~= seq![record_at(b, d, 0, o)]);
}

/// Inclusive-footer resolution: with the header at `o` and the footer's
/// first occurrence after it at relative offset `f`, the resolved length is
/// `header + f + footer`, and the candidate's final footer-length bytes are
/// exactly the footer pattern.
pub proof fn lemma_inclusive_footer_length(b: Seq<u8>, d: SigSpec, fp: Seq<u8>, o: int, f: int)
    requires
        d.wf(),
        d.footer == FooterSpec::Inclusive(fp),
        matches_at(b, d.header, o),
        matches_at(b.subrange(o + d.header.len(), b.len() as int), fp, f),
        forall|j: int| 0 <= j < f
            ==> !#[trigger] matches_at(b.subrange(o + d.header.len(), b.len() as int), fp, j),
    ensures
        spec_resolved_len(b, o, d) == d.header.len() + f + fp.len(),
        b.subrange(o + d.header.len() + f, o + d.header.len() + f + fp.len()) == fp,
{
    let sub = b.subrange(o + d.header.len(), b.len() as int);
    lemma_match_offsets_first(sub, fp, f);
    assert(b.subrange(o + d.header.len() + f, o + d.header.len() + f + fp.len())
        =~= sub.subrange(f, f + fp.len()));
}

/// Exclusive-footer resolution: with the header at `o` and the footer's
/// first occurrence after it at relative offset `f`, the resolved length is
/// `header + f`; the footer pattern follows immediately after the candidate
/// and is excluded from it.
pub proof fn lemma_exclusive_footer_length(b: Seq<u8>, d: SigSpec, fp: Seq<u8>, o: int, f: int)
    requires
        d.wf(),
        d.footer == FooterSpec::Exclusive(fp),
        matches_at(b, d.header, o),
        matches_at(b.subrange(o + d.header.len(), b.len() as int), fp, f),
        forall|j: int| 0 <= j < f
            ==> !#[trigger] matches_at(b.subrange(o + d.header.len(), b.len() as int), fp, j),
    ensures
        spec_resolved_len(b, o, d) == d.header.len() + f,
        b.subrange(
            o + spec_resolved_len(b, o, d),
            o + spec_resolved_len(b, o, d) + fp.len(),
        ) == fp,
{
    let sub = b.subrange(o + d.header.len(), b.len() as int);
    lemma_match_offsets_first(sub, fp, f);
    assert(b.subrange(o + d.header.len() + f, o + d.header.len() + f + fp.len())
        =~= sub.subrange(f, f + fp.len()));
}

/// Carving is deterministic: two runs over an unchanged buffer and catalog
/// yield identical record sequences.
pub proof fn lemma_carve_deterministic(
    b: Seq<u8>,
    catalog: Seq<SigSpec>,
    r1: Seq<RecordSpec>,
    r2: Seq<RecordSpec>,
)
    requires
        r1 == spec_carve(b, catalog),
        r2 == spec_carve(b, catalog),
    ensures
        r1 == r2,
{
}

/// Every header occurrence of every catalog entry is reported: the carve of
/// the whole catalog contains the record of descriptor `i`'s match at `o`.
pub proof fn lemma_carve_from_contains(b: Seq<u8>, catalog: Seq<SigSpec>, j: int, i: int, o: int)
    requires
        0 <= j <= i < catalog.len(),
        catalog[i].wf(),
        matches_at(b, catalog[i].header, o),
    ensures
        spec_carve_from(b, catalog, j).contains(record_at(b, catalog[i], i, o)),
    decreases i - j,
{
    let rec = record_at(b, catalog[i], i, o);
    if j == i {
        lemma_match_offsets_from_complete(b, catalog[i].header, 0, o);
        let ms = match_offsets(b, catalog[i].header);
        let w = choose|k: int| 0 <= k < ms.len() && ms[k] == o;
        assert(records_for_descriptor(b, catalog[i], i)[w] == rec);
        assert(spec_carve_from(b, catalog, j)[w] == rec);
    } else {
        lemma_carve_from_contains(b, catalog, j + 1, i, o);
        let rest = spec_carve_from(b, catalog, j + 1);
        let w = choose|k: int| 0 <= k < rest.len() && rest[k] == rec;
        let own_len = records_for_descriptor(b, catalog[j], j).len();
        assert(spec_carve_from(b, catalog, j)[own_len + w] == rec);
    }
}

/// Every record of descriptors `idx` onward carries a descriptor index of
/// at least `idx`.
proof fn lemma_carve_from_index_lower_bound(b: Seq<u8>, catalog: Seq<SigSpec>, idx: int, k: int)
    requires
        0 <= k < spec_carve_from(b, catalog, idx).len(),
    ensures
        spec_carve_from(b, catalog, idx)[k].descriptor_index >= idx,
    decreases catalog.len() - idx,
{
    if idx < 0 || idx >= catalog.len() {
    } else {
        let own = records_for_descriptor(b, catalog[idx], idx);
        if k < own.len() {
            assert(own[k].descriptor_index == idx);
        } else {
            lemma_carve_from_index_lower_bound(b, catalog, idx + 1, k - own.len());
        }
    }
}

proof fn lemma_carve_from_key_unique(b: Seq<u8>, catalog: Seq<SigSpec>, idx: int, k1: int, k2: int)
    requires
        0 <= k1 < k2 < spec_carve_from(b, catalog, idx).len(),
    ensures
        spec_carve_from(b, catalog, idx)[k1].descriptor_index
            != spec_carve_from(b, catalog, idx)[k2].descriptor_index
            || spec_carve_from(b, catalog, idx)[k1].offset
                != spec_carve_from(b, catalog, idx)[k2].offset,
    decreases catalog.len() - idx,
{
    if idx < 0 || idx >= catalog.len() {
    } else {
        let own = records_for_descriptor(b, catalog[idx], idx);
        let ms = match_offsets(b, catalog[idx].header);
        if k2 < own.len() {
            lemma_match_offsets_from_sorted(b, catalog[idx].header, 0, k1, k2);
            assert(own[k1].offset == ms[k1]);
            assert(own[k2].offset == ms[k2]);
        } else if k1 < own.len() {
            lemma_carve_from_index_lower_bound(b, catalog, idx + 1, k2 - own.len());
            assert(own[k1].descriptor_index == idx);
        } else {
            lemma_carve_from_key_unique(b, catalog, idx + 1, k1 - own.len(), k2 - own.len());
        }
    }
}

/// Distinct records of one carve never agree on both descriptor index and
/// offset: that pair is a unique key of the result, so an output writer may
/// name each recovered file after it without collisions.
pub proof fn lemma_record_key_unique(b: Seq<u8>, catalog: Seq<SigSpec>, k1: int, k2: int)
    requires
        0 <= k1 < k2 < spec_carve(b, catalog).len(),
    ensures
        spec_carve(b, catalog)[k1].descriptor_index
            != spec_carve(b, catalog)[k2].descriptor_index
            || spec_carve(b, catalog)[k1].offset != spec_carve(b, catalog)[k2].offset,
{
    lemma_carve_from_key_unique(b, catalog, 0, k1, k2);
}

/// Two descriptors whose headers both match at the same offset each produce
/// their own independent candidate record; neither suppresses the other.
pub proof fn lemma_overlapping_matches_independent(
    b: Seq<u8>,
    catalog: Seq<SigSpec>,
    i1: int,
    i2: int,
    o: int,
)
    requires
        0 <= i1 < catalog.len(),
        0 <= i2 < catalog.len(),
        catalog[i1].wf(),
        catalog[i2].wf(),
        matches_at(b, catalog[i1].header, o),
        matches_at(b, catalog[i2].header, o),
    ensures
        spec_carve(b, catalog).contains(record_at(b, catalog[i1], i1, o)),
        spec_carve(b, catalog).contains(record_at(b, catalog[i2], i2, o)),
{
    lemma_carve_from_contains(b, catalog, 0, i1, o);
    lemma_carve_from_contains(b, catalog, 0, i2, o);
}

} // verus!
