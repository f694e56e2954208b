use carver::catalog::{file_signatures, Footer, SignatureDescriptor};
use carver::engine::{carve_slice, CandidateRecord};
use carver::matcher::{find_all_matches, find_static_signature};
use carver::resolver::resolve_extent;

fn descriptor(ext: &str, bound: usize, header: &[u8], footer: Footer) -> SignatureDescriptor {
    SignatureDescriptor {
        extension: ext.to_string(),
        size_bound: bound,
        header: header.to_vec(),
        footer,
    }
}

#[test]
fn pdf_between_junk() {
    // b"XX" + b"%PDF-" + b"body" + b"%%EOF" + b"YY"
    let buffer = b"XX%PDF-body%%EOFYY".to_vec();
    let catalog = file_signatures();
    let records = carve_slice(&buffer, &catalog);
    assert_eq!(records.len(), 1);
    let rec = records[0];
    assert_eq!(catalog[rec.descriptor_index].extension, "pdf");
    assert_eq!(rec.descriptor_index, 9);
    assert_eq!(rec.offset, 2);
    assert_eq!(rec.length, 5 + 4 + 5);
}

#[test]
fn gif_without_terminator() {
    let mut buffer = b"AB".to_vec();
    buffer.extend_from_slice(b"GIF89adata");
    let catalog = file_signatures();
    let records = carve_slice(&buffer, &catalog);
    assert_eq!(records.len(), 1);
    let rec = records[0];
    assert_eq!(catalog[rec.descriptor_index].extension, "gif");
    assert_eq!(catalog[rec.descriptor_index].size_bound, 5_000_000);
    assert_eq!(rec.offset, 2);
    assert_eq!(rec.length, buffer.len() - 2);
}

#[test]
fn empty_buffer_yields_nothing() {
    let buffer: Vec<u8> = Vec::new();
    let catalog = file_signatures();
    let records = carve_slice(&buffer, &catalog);
    assert_eq!(records.len(), 0);
}

#[test]
fn header_longer_than_buffer_yields_nothing() {
    let catalog = vec![descriptor("dat", 100, b"LONGHEADER", Footer::Absent)];
    let records = carve_slice(b"LONG", &catalog);
    assert_eq!(records.len(), 0);
}

#[test]
fn single_header_absent_footer_clamps_to_bound() {
    let catalog = vec![descriptor("dat", 3, b"HD", Footer::Absent)];
    let records = carve_slice(b"xxHDyyyy", &catalog);
    assert_eq!(
        records,
        vec![CandidateRecord { descriptor_index: 0, offset: 2, length: 3 }]
    );
}

#[test]
fn single_header_absent_footer_clamps_to_buffer_end() {
    let catalog = vec![descriptor("dat", 1000, b"HD", Footer::Absent)];
    let records = carve_slice(b"xxHDyy", &catalog);
    assert_eq!(
        records,
        vec![CandidateRecord { descriptor_index: 0, offset: 2, length: 4 }]
    );
}

#[test]
fn inclusive_footer_includes_footer_bytes() {
    let catalog = vec![descriptor("dat", 1000, b"HH", Footer::Inclusive(b"FF".to_vec()))];
    let buffer = b"..HHabcFF..";
    let records = carve_slice(buffer, &catalog);
    assert_eq!(records.len(), 1);
    let rec = records[0];
    assert_eq!(rec.offset, 2);
    assert_eq!(rec.length, 2 + 3 + 2);
    assert_eq!(&buffer[rec.offset..rec.offset + rec.length], b"HHabcFF");
}

#[test]
fn exclusive_footer_excludes_footer_bytes() {
    let catalog = vec![descriptor("dat", 1000, b"HH", Footer::Exclusive(b"FF".to_vec()))];
    let buffer = b"..HHabcFF..";
    let records = carve_slice(buffer, &catalog);
    assert_eq!(records.len(), 1);
    let rec = records[0];
    assert_eq!(rec.offset, 2);
    assert_eq!(rec.length, 2 + 3);
    assert_eq!(&buffer[rec.offset..rec.offset + rec.length], b"HHabc");
}

#[test]
fn missing_footer_falls_back_to_bound() {
    let catalog = vec![descriptor("dat", 5, b"HH", Footer::Inclusive(b"FF".to_vec()))];
    let records = carve_slice(b"HHabcdefgh", &catalog);
    assert_eq!(
        records,
        vec![CandidateRecord { descriptor_index: 0, offset: 0, length: 5 }]
    );
}

#[test]
fn carving_twice_is_bit_identical() {
    let buffer = b"XX%PDF-body%%EOFYY<html>..</html>BM".to_vec();
    let catalog = file_signatures();
    let first = carve_slice(&buffer, &catalog);
    let second = carve_slice(&buffer, &catalog);
    assert_eq!(first, second);
}

#[test]
fn overlapping_descriptors_each_report() {
    let catalog = vec![
        descriptor("one", 4, b"AA", Footer::Absent),
        descriptor("two", 1000, b"AA", Footer::Exclusive(b"BB".to_vec())),
    ];
    let records = carve_slice(b"AAxxBB", &catalog);
    assert_eq!(
        records,
        vec![
            CandidateRecord { descriptor_index: 0, offset: 0, length: 4 },
            CandidateRecord { descriptor_index: 1, offset: 0, length: 4 },
        ]
    );
}

#[test]
fn multiple_matches_of_one_descriptor() {
    let catalog = vec![descriptor("dat", 2, b"HD", Footer::Absent)];
    let records = carve_slice(b"HDxxHDxx", &catalog);
    assert_eq!(
        records,
        vec![
            CandidateRecord { descriptor_index: 0, offset: 0, length: 2 },
            CandidateRecord { descriptor_index: 0, offset: 4, length: 2 },
        ]
    );
}

#[test]
fn find_static_signature_first_occurrence() {
    assert_eq!(find_static_signature(b"abcabc", b"bc"), Some(1));
}

#[test]
fn find_static_signature_at_buffer_end() {
    assert_eq!(find_static_signature(b"abcde", b"cde"), Some(2));
}

#[test]
fn find_static_signature_whole_buffer() {
    assert_eq!(find_static_signature(b"abc", b"abc"), Some(0));
}

#[test]
fn find_static_signature_absent() {
    assert_eq!(find_static_signature(b"abcde", b"xy"), None);
}

#[test]
fn find_static_signature_longer_than_buffer() {
    assert_eq!(find_static_signature(b"ab", b"abcde"), None);
}

#[test]
fn find_all_matches_overlapping() {
    assert_eq!(find_all_matches(b"aaaaa", b"aaa"), vec![0, 1, 2]);
}

#[test]
fn find_all_matches_empty_buffer() {
    assert_eq!(find_all_matches(b"", b"a"), Vec::<usize>::new());
}

#[test]
fn footer_tail_length_by_policy() {
    assert_eq!(Footer::Absent.file_size_after_footer_pos(), 0);
    assert_eq!(Footer::Exclusive(b"ABC".to_vec()).file_size_after_footer_pos(), 0);
    assert_eq!(Footer::Inclusive(b"ABC".to_vec()).file_size_after_footer_pos(), 3);
}

#[test]
fn resolve_extent_exact_values() {
    let d = descriptor("dat", 1000, b"HH", Footer::Inclusive(b"FF".to_vec()));
    assert_eq!(resolve_extent(b"HHabcFF", 0, &d), 7);
    let d = descriptor("dat", 1000, b"HH", Footer::Exclusive(b"FF".to_vec()));
    assert_eq!(resolve_extent(b"HHabcFF", 0, &d), 5);
    let d = descriptor("dat", 4, b"HH", Footer::Absent);
    assert_eq!(resolve_extent(b"HHabcdef", 0, &d), 4);
}

#[test]
fn catalog_shape() {
    let catalog = file_signatures();
    assert_eq!(catalog.len(), 26);
    assert_eq!(catalog[0].extension, "zip");
    assert_eq!(catalog[0].header, b"PK\x03\x04".to_vec());
    assert_eq!(catalog[9].extension, "pdf");
    assert_eq!(catalog[9].header, b"%PDF-".to_vec());
    match &catalog[9].footer {
        Footer::Inclusive(f) => assert_eq!(f, &b"%%EOF".to_vec()),
        _ => panic!("pdf footer should be inclusive"),
    }
    assert_eq!(catalog[13].extension, "gif");
    assert_eq!(catalog[13].size_bound, 5_000_000);
    for d in &catalog {
        assert!(!d.header.is_empty());
        match &d.footer {
            Footer::Inclusive(f) | Footer::Exclusive(f) => assert!(!f.is_empty()),
            Footer::Absent => {}
        }
    }
}
