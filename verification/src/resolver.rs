//! Extent resolution: turning a header match position and a descriptor into
//! the byte length of the candidate recovered file.

use vstd::prelude::*;
use crate::catalog::{Footer, FooterSpec, SigSpec, SignatureDescriptor, spec_footer_tail_len};
use crate::matcher::{find_static_signature, match_offsets, matches_at};

verus! {

/// The length used when no footer terminates the candidate: the descriptor's
/// size bound or the rest of the buffer, whichever is smaller.
pub open spec fn spec_fallback_len(buf_len: int, h: int, size_bound: int) -> int {
    if size_bound <= buf_len - h {
        size_bound
    } else {
        buf_len - h
    }
}

/// The resolved byte length of a candidate whose header matches buffer `b`
/// at position `h`, under descriptor `d`.
///
/// With no footer policy the length is the clamped size bound. Otherwise the
/// footer pattern is searched for in the bytes after the header; the first
/// occurrence ends the candidate (inclusive of the footer bytes or exclusive,
/// per policy), and a missing footer falls back to the clamped size bound.
pub open spec fn spec_resolved_len(b: Seq<u8>, h: int, d: SigSpec) -> int {
    match d.footer {
        FooterSpec::Absent => spec_fallback_len(b.len() as int, h, d.size_bound),
        FooterSpec::Inclusive(f) => {
            let ms = match_offsets(b.subrange(h + d.header.len(), b.len() as int), f);
            if ms.len() > 0 {
                d.header.len() + ms[0] + f.len()
            } else {
                spec_fallback_len(b.len() as int, h, d.size_bound)
            }
        },
        FooterSpec::Exclusive(f) => {
            let ms = match_offsets(b.subrange(h + d.header.len(), b.len() as int), f);
            if ms.len() > 0 {
                d.header.len() + ms[0]
            } else {
                spec_fallback_len(b.len() as int, h, d.size_bound)
            }
        },
    }
}

/// A resolved candidate never extends past the end of the buffer.
pub proof fn lemma_resolved_len_in_bounds(b: Seq<u8>, h: int, d: SigSpec)
    requires
        d.wf(),
        matches_at(b, d.header, h),
    ensures
        0 <= spec_resolved_len(b, h, d),
        h + spec_resolved_len(b, h, d) <= b.len(),
{
    match d.footer {
        FooterSpec::Absent => {},
        FooterSpec::Inclusive(f) => {
            let sub = b.subrange(h + d.header.len(), b.len() as int);
            let ms = match_offsets(sub, f);
            if ms.len() > 0 {
                crate::matcher::lemma_match_offsets_from_sound(sub, f, 0, 0);
            }
        },
        FooterSpec::Exclusive(f) => {
            let sub = b.subrange(h + d.header.len(), b.len() as int);
            let ms = match_offsets(sub, f);
            if ms.len() > 0 {
                crate::matcher::lemma_match_offsets_from_sound(sub, f, 0, 0);
            }
        },
    }
}

/// Computes the resolved length of the candidate whose header matches
/// `buffer` at position `h`, under descriptor `d`.
pub fn resolve_extent(buffer: &[u8], h: usize, d: &SignatureDescriptor) -> (len: usize)
    requires
        d@.wf(),
        matches_at(buffer@, d@.header, h as int),
    ensures
        len == spec_resolved_len(buffer@, h as int, d@),
        h + len <= buffer@.len(),
{
    let buf_len = buffer.len();
    let header_len = d.header.len();
    let tail = &buffer[h + header_len..buf_len];
    let found: Option<usize> = match &d.footer {
        Footer::Absent => None,
        Footer::Inclusive(f) => find_static_signature(tail, f),
        Footer::Exclusive(f) => find_static_signature(tail, f),
    };
    proof {
        lemma_resolved_len_in_bounds(buffer@, h as int, d@);
    }
    match found {
        Some(pos) => {
            let extra = d.footer.file_size_after_footer_pos();
            proof {
                if let FooterSpec::Inclusive(f) = d@.footer {
                    crate::matcher::lemma_match_offsets_from_sound(tail@, f, 0, 0);
                }
            }
            header_len + pos + extra
        },
        None => {
            let rest = buf_len - h;
            if d.size_bound <= rest {
                d.size_bound
            } else {
                rest
            }
        },
    }
}

} // verus!
