//! The signature catalog: an ordered, static list of file-type descriptors
//! (extension, size bound, header pattern, footer policy).

use vstd::prelude::*;
use vstd::string::StringExecFns;

verus! {

/// Footer policy of a file-type signature.
///
/// `Absent` means no footer search is made: a candidate's length is always
/// the size bound, clamped to the buffer. `Inclusive` includes the footer
/// pattern itself in the recovered length; `Exclusive` stops immediately
/// before it.
pub enum Footer {
    Absent,
    Inclusive(Vec<u8>),
    Exclusive(Vec<u8>),
}

/// Mathematical model of a footer policy.
#[verifier::ext_equal]
pub enum FooterSpec {
    Absent,
    Inclusive(Seq<u8>),
    Exclusive(Seq<u8>),
}

impl View for Footer {
    type V = FooterSpec;

    open spec fn view(&self) -> FooterSpec {
        match self {
            Footer::Absent => FooterSpec::Absent,
            Footer::Inclusive(f) => FooterSpec::Inclusive(f@),
            Footer::Exclusive(f) => FooterSpec::Exclusive(f@),
        }
    }
}

impl Footer {
    /// How many bytes beyond the footer's match position belong to the file:
    /// the footer's own length under the inclusive policy, nothing otherwise.
    pub fn file_size_after_footer_pos(&self) -> (n: usize)
        ensures
            n == spec_footer_tail_len(self@),
    {
        match self {
            Footer::Absent => 0,
            Footer::Exclusive(_) => 0,
            Footer::Inclusive(data) => data.len(),
        }
    }
}

/// Bytes counted past the footer match position: the footer pattern's length
/// under the inclusive policy, zero otherwise.
pub open spec fn spec_footer_tail_len(f: FooterSpec) -> int {
    match f {
        FooterSpec::Absent => 0,
        FooterSpec::Exclusive(_) => 0,
        FooterSpec::Inclusive(data) => data.len() as int,
    }
}

/// One file-type signature: extension, fallback size bound, header pattern,
/// footer policy.
pub struct SignatureDescriptor {
    pub extension: String,
    pub size_bound: usize,
    pub header: Vec<u8>,
    pub footer: Footer,
}

/// Mathematical model of a signature descriptor.
#[verifier::ext_equal]
pub struct SigSpec {
    pub extension: Seq<char>,
    pub size_bound: int,
    pub header: Seq<u8>,
    pub footer: FooterSpec,
}

impl SigSpec {
    /// A well-formed descriptor has a non-empty header pattern, a non-empty
    /// footer pattern where a footer is searched for, and a size bound that
    /// a length in memory can take.
    pub open spec fn wf(self) -> bool {
        &&& self.header.len() > 0
        &&& 0 <= self.size_bound <= usize::MAX
        &&& match self.footer {
            FooterSpec::Absent => true,
            FooterSpec::Inclusive(f) => f.len() > 0,
            FooterSpec::Exclusive(f) => f.len() > 0,
        }
    }
}

impl View for SignatureDescriptor {
    type V = SigSpec;

    open spec fn view(&self) -> SigSpec {
        SigSpec {
            extension: self.extension@,
            size_bound: self.size_bound as int,
            header: self.header@,
            footer: self.footer@,
        }
    }
}

/// A whole catalog is well-formed when each of its descriptors is.
pub open spec fn catalog_wf(c: Seq<SigSpec>) -> bool {
    forall|i: int| 0 <= i < c.len() ==> (#[trigger] c[i]).wf()
}

fn descriptor(ext: &str, bound: usize, header: Vec<u8>, footer: Footer) -> (d: SignatureDescriptor)
    ensures
        d@ == (SigSpec {
            extension: ext@,
            size_bound: bound as int,
            header: header@,
            footer: footer@,
        }),
{
    SignatureDescriptor { extension: String::from_str(ext), size_bound: bound, header, footer }
}

/// The views of a sequence of descriptors.
pub open spec fn descriptor_views(s: Seq<SignatureDescriptor>) -> Seq<SigSpec> {
    s.map_values(|d: SignatureDescriptor| d@)
}

/// The catalog's content, as a mathematical value: one entry per known
/// file-type signature, in the order that fixes descriptor indices.
pub open spec fn spec_catalog() -> Seq<SigSpec> {
    seq![
        SigSpec { extension: "zip"@, size_bound: 10_000_000, header: seq![0x50u8, 0x4B, 0x03, 0x04], footer: FooterSpec::Inclusive(seq![0x50u8, 0x4B, 0x05, 0x06]) },
        SigSpec { extension: "rar"@, size_bound: 10_000_000, header: seq![0x52u8, 0x61, 0x72, 0x21], footer: FooterSpec::Inclusive(seq![0x00u8, 0x00, 0x00, 0x00]) },
        SigSpec { extension: "7z"@, size_bound: 10_000_000, header: seq![0x37u8, 0x7A, 0xBC, 0xAF, 0x27, 0x1C], footer: FooterSpec::Inclusive(seq![0x00u8, 0x00, 0x00, 0x00]) },
        SigSpec { extension: "tar"@, size_bound: 10_000_000, header: seq![0x75u8, 0x73, 0x74, 0x61, 0x72], footer: FooterSpec::Inclusive(seq![0x00u8, 0x00, 0x00, 0x00]) },
        SigSpec { extension: "iso"@, size_bound: 10_000_000, header: seq![0x43u8, 0x44, 0x30, 0x30, 0x31], footer: FooterSpec::Inclusive(seq![0x00u8, 0x00, 0x00, 0x00]) },
        SigSpec { extension: "doc"@, size_bound: 10_000_000, header: seq![0xD0u8, 0xCF, 0x11, 0xE0, 0xA1, 0xB1, 0x1A, 0xE1, 0x00, 0x00], footer: FooterSpec::Exclusive(seq![0xD0u8, 0xCF, 0x11, 0xE0, 0xA1, 0xB1, 0x1A, 0xE1, 0x00, 0x00]) },
        SigSpec { extension: "doc"@, size_bound: 10_000_000, header: seq![0xD0u8, 0xCF, 0x11, 0xE0, 0xA1, 0xB1], footer: FooterSpec::Absent },
        SigSpec { extension: "html"@, size_bound: 10_000_000, header: seq![0x3Cu8, 0x68, 0x74, 0x6D, 0x6C], footer: FooterSpec::Inclusive(seq![0x3Cu8, 0x2F, 0x68, 0x74, 0x6D, 0x6C, 0x3E]) },
        SigSpec { extension: "html"@, size_bound: 10_000_000, header: seq![0x3Cu8, 0x21, 0x44, 0x4F, 0x43, 0x54, 0x59, 0x50, 0x45, 0x20, 0x68, 0x74, 0x6D, 0x6C], footer: FooterSpec::Inclusive(seq![0x3Cu8, 0x2F, 0x68, 0x74, 0x6D, 0x6C, 0x3E]) },
        SigSpec { extension: "pdf"@, size_bound: 10_000_000, header: seq![0x25u8, 0x50, 0x44, 0x46, 0x2D], footer: FooterSpec::Inclusive(seq![0x25u8, 0x25, 0x45, 0x4F, 0x46]) },
        SigSpec { extension: "rtf"@, size_bound: 10_000_000, header: seq![0x7Bu8, 0x5C, 0x72, 0x74, 0x66, 0x31], footer: FooterSpec::Inclusive(seq![0x7Du8]) },
        SigSpec { extension: "bmp"@, size_bound: 10_000_000, header: seq![0x42u8, 0x4D], footer: FooterSpec::Absent },
        SigSpec { extension: "gif"@, size_bound: 5_000_000, header: seq![0x47u8, 0x49, 0x46, 0x38, 0x37, 0x61], footer: FooterSpec::Inclusive(seq![0x00u8, 0x3B]) },
        SigSpec { extension: "gif"@, size_bound: 5_000_000, header: seq![0x47u8, 0x49, 0x46, 0x38, 0x39, 0x61], footer: FooterSpec::Inclusive(seq![0x00u8, 0x00, 0x3B]) },
        SigSpec { extension: "jpg"@, size_bound: 200_000_000, header: seq![0xFFu8, 0xD8, 0xFF, 0xE0, 0x00, 0x10], footer: FooterSpec::Inclusive(seq![0xFFu8, 0xD9]) },
        SigSpec { extension: "jpg"@, size_bound: 200_000_000, header: seq![0xFFu8, 0xD8, 0xFF, 0xE1], footer: FooterSpec::Inclusive(seq![0xFFu8, 0xD9]) },
        SigSpec { extension: "png"@, size_bound: 10_000_000, header: seq![0x89u8, 0x50, 0x4E, 0x47, 0x0D, 0x0A, 0x1A, 0x0A], footer: FooterSpec::Inclusive(seq![0xFFu8, 0xFC, 0xFD, 0xFE]) },
        SigSpec { extension: "tif"@, size_bound: 10_000_000, header: seq![0x49u8, 0x49, 0x2A, 0x00], footer: FooterSpec::Absent },
        SigSpec { extension: "tif"@, size_bound: 10_000_000, header: seq![0x4Du8, 0x4D, 0x00, 0x2A], footer: FooterSpec::Absent },
        SigSpec { extension: "avi"@, size_bound: 10_000_000, header: seq![0x52u8, 0x49, 0x46, 0x46, 0x00, 0x00, 0x00, 0x41, 0x56, 0x49, 0x20], footer: FooterSpec::Absent },
        SigSpec { extension: "mov"@, size_bound: 10_000_000, header: seq![0x00u8, 0x00, 0x00, 0x20, 0x66, 0x74, 0x79, 0x70], footer: FooterSpec::Absent },
        SigSpec { extension: "mp3"@, size_bound: 10_000_000, header: seq![0x57u8, 0x41, 0x56, 0x5C, 0x34, 0x35], footer: FooterSpec::Inclusive(seq![0x00u8, 0x00, 0xFF]) },
        SigSpec { extension: "mp3"@, size_bound: 10_000_000, header: seq![0xFFu8, 0xFB, 0xD0, 0x5C], footer: FooterSpec::Inclusive(seq![0xD1u8, 0x35, 0x51, 0xCC]) },
        SigSpec { extension: "mp3"@, size_bound: 10_000_000, header: seq![0x4Cu8, 0x41, 0x4D, 0x45, 0x5C], footer: FooterSpec::Absent },
        SigSpec { extension: "mp4"@, size_bound: 10_000_000, header: seq![0x00u8, 0x00, 0x00, 0x20, 0x66, 0x74, 0x79, 0x70], footer: FooterSpec::Absent },
        SigSpec { extension: "wav"@, size_bound: 10_000_000, header: seq![0x52u8, 0x49, 0x46, 0x46, 0x00, 0x00, 0x00, 0x57, 0x41, 0x56, 0x45], footer: FooterSpec::Absent },
    ]
}

/// Every entry of the catalog is well-formed.
pub proof fn lemma_spec_catalog_wf()
    ensures
        catalog_wf(spec_catalog()),
{
    assert forall|i: int| 0 <= i < spec_catalog().len() implies (#[trigger] spec_catalog()[i]).wf() by {
        if i == 0 { assert(spec_catalog()[0].wf()); }
    }
}

/// Builds the signature catalog, in the order that `spec_catalog` fixes.
///
/// Construction is side-effect-free and deterministic; the same catalog is
/// meant to be built once and used, read-only, for the lifetime of a process.
pub fn file_signatures() -> (r: Vec<SignatureDescriptor>)
    ensures
        descriptor_views(r@) == spec_catalog(),
{
    let mut v: Vec<SignatureDescriptor> = Vec::new();
    v.push(descriptor("zip", 10_000_000, vec![0x50u8, 0x4B, 0x03, 0x04], Footer::Inclusive(vec![0x50u8, 0x4B, 0x05, 0x06])));
    v.push(descriptor("rar", 10_000_000, vec![0x52u8, 0x61, 0x72, 0x21], Footer::Inclusive(vec![0x00u8, 0x00, 0x00, 0x00])));
    v.push(descriptor("7z", 10_000_000, vec![0x37u8, 0x7A, 0xBC, 0xAF, 0x27, 0x1C], Footer::Inclusive(vec![0x00u8, 0x00, 0x00, 0x00])));
    v.push(descriptor("tar", 10_000_000, vec![0x75u8, 0x73, 0x74, 0x61, 0x72], Footer::Inclusive(vec![0x00u8, 0x00, 0x00, 0x00])));
    v.push(descriptor("iso", 10_000_000, vec![0x43u8, 0x44, 0x30, 0x30, 0x31], Footer::Inclusive(vec![0x00u8, 0x00, 0x00, 0x00])));
    v.push(descriptor("doc", 10_000_000, vec![0xD0u8, 0xCF, 0x11, 0xE0, 0xA1, 0xB1, 0x1A, 0xE1, 0x00, 0x00], Footer::Exclusive(vec![0xD0u8, 0xCF, 0x11, 0xE0, 0xA1, 0xB1, 0x1A, 0xE1, 0x00, 0x00])));
    v.push(descriptor("doc", 10_000_000, vec![0xD0u8, 0xCF, 0x11, 0xE0, 0xA1, 0xB1], Footer::Absent));
    v.push(descriptor("html", 10_000_000, vec![0x3Cu8, 0x68, 0x74, 0x6D, 0x6C], Footer::Inclusive(vec![0x3Cu8, 0x2F, 0x68, 0x74, 0x6D, 0x6C, 0x3E])));
    v.push(descriptor("html", 10_000_000, vec![0x3Cu8, 0x21, 0x44, 0x4F, 0x43, 0x54, 0x59, 0x50, 0x45, 0x20, 0x68, 0x74, 0x6D, 0x6C], Footer::Inclusive(vec![0x3Cu8, 0x2F, 0x68, 0x74, 0x6D, 0x6C, 0x3E])));
    v.push(descriptor("pdf", 10_000_000, vec![0x25u8, 0x50, 0x44, 0x46, 0x2D], Footer::Inclusive(vec![0x25u8, 0x25, 0x45, 0x4F, 0x46])));
    v.push(descriptor("rtf", 10_000_000, vec![0x7Bu8, 0x5C, 0x72, 0x74, 0x66, 0x31], Footer::Inclusive(vec![0x7Du8])));
    v.push(descriptor("bmp", 10_000_000, vec![0x42u8, 0x4D], Footer::Absent));
    v.push(descriptor("gif", 5_000_000, vec![0x47u8, 0x49, 0x46, 0x38, 0x37, 0x61], Footer::Inclusive(vec![0x00u8, 0x3B])));
    v.push(descriptor("gif", 5_000_000, vec![0x47u8, 0x49, 0x46, 0x38, 0x39, 0x61], Footer::Inclusive(vec![0x00u8, 0x00, 0x3B])));
    v.push(descriptor("jpg", 200_000_000, vec![0xFFu8, 0xD8, 0xFF, 0xE0, 0x00, 0x10], Footer::Inclusive(vec![0xFFu8, 0xD9])));
    v.push(descriptor("jpg", 200_000_000, vec![0xFFu8, 0xD8, 0xFF, 0xE1], Footer::Inclusive(vec![0xFFu8, 0xD9])));
    v.push(descriptor("png", 10_000_000, vec![0x89u8, 0x50, 0x4E, 0x47, 0x0D, 0x0A, 0x1A, 0x0A], Footer::Inclusive(vec![0xFFu8, 0xFC, 0xFD, 0xFE])));
    v.push(descriptor("tif", 10_000_000, vec![0x49u8, 0x49, 0x2A, 0x00], Footer::Absent));
    v.push(descriptor("tif", 10_000_000, vec![0x4Du8, 0x4D, 0x00, 0x2A], Footer::Absent));
    v.push(descriptor("avi", 10_000_000, vec![0x52u8, 0x49, 0x46, 0x46, 0x00, 0x00, 0x00, 0x41, 0x56, 0x49, 0x20], Footer::Absent));
    v.push(descriptor("mov", 10_000_000, vec![0x00u8, 0x00, 0x00, 0x20, 0x66, 0x74, 0x79, 0x70], Footer::Absent));
    v.push(descriptor("mp3", 10_000_000, vec![0x57u8, 0x41, 0x56, 0x5C, 0x34, 0x35], Footer::Inclusive(vec![0x00u8, 0x00, 0xFF])));
    v.push(descriptor("mp3", 10_000_000, vec![0xFFu8, 0xFB, 0xD0, 0x5C], Footer::Inclusive(vec![0xD1u8, 0x35, 0x51, 0xCC])));
    v.push(descriptor("mp3", 10_000_000, vec![0x4Cu8, 0x41, 0x4D, 0x45, 0x5C], Footer::Absent));
    v.push(descriptor("mp4", 10_000_000, vec![0x00u8, 0x00, 0x00, 0x20, 0x66, 0x74, 0x79, 0x70], Footer::Absent));
    v.push(descriptor("wav", 10_000_000, vec![0x52u8, 0x49, 0x46, 0x46, 0x00, 0x00, 0x00, 0x57, 0x41, 0x56, 0x45], Footer::Absent));
    proof {
        assert(descriptor_views(v@) =~~= spec_catalog());
    }
    v
}

} // verus!
