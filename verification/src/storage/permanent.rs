//! Storage in a file the user names, with a side file that records which
//! sections were downloaded. The files are handled with the I/O; this module
//! holds the provider and reads the record of sections.
use vstd::prelude::*;

use crate::source::handle::{range_positions, Downloaded};

verus! {

/// The length of one recorded section: its start and end as little-endian
/// `u64` values.
pub const SECTION_LENGTH: usize = 16;

/// Errors of the permanent storage provider.
#[derive(Clone, Copy, Debug, PartialEq, Eq)]
pub enum Error {
    /// The path may not end in `.progress`.
    InvalidPath,
}

/// The extension that `Path::extension` reads from the path text `path`: the
/// part of the file name after its last dot, if any.
pub uninterp spec fn file_extension(path: Seq<char>) -> Option<Seq<char>>;

/// Calls `Path::extension` on the path text and `OsStr::to_str` on the result
/// (which, taken from a string, is always text).
#[verifier::external_body]
fn path_extension(path: &str) -> (r: Option<String>)
    ensures
        match r {
            Some(e) => file_extension(path@) == Some(e@),
            None => file_extension(path@) is None,
        },
{
    match std::path::Path::new(path).extension() {
        Some(ext) => match ext.to_str() {
            Some(s) => Some(s.to_string()),
            None => None,
        },
        None => None,
    }
}

/// The characters of `progress`.
pub open spec fn progress_chars() -> Seq<char> {
    seq!['p', 'r', 'o', 'g', 'r', 'e', 's', 's']
}

/// Refuses a path whose extension is `progress`, which names a progress file.
pub fn check_extension(extension: Option<&str>) -> (r: Result<(), Error>)
    ensures
        r == match extension {
            Some(e) => if e@ == progress_chars() {
                Err(Error::InvalidPath)
            } else {
                Ok(())
            },
            None => Ok::<(), Error>(()),
        },
{
    match extension {
        Some(e) => {
            let progress = progress_text();
            if crate::text::str_eq(e, progress.as_str()) {
                Err(Error::InvalidPath)
            } else {
                Ok(())
            }
        },
        None => Ok(()),
    }
}

/// The text of `progress`.
fn progress_text() -> (r: String)
    ensures
        r@ == progress_chars(),
{
    let mut progress = String::new();
    progress.push('p');
    progress.push('r');
    progress.push('o');
    progress.push('g');
    progress.push('r');
    progress.push('e');
    progress.push('s');
    progress.push('s');
    assert(progress@ =~= progress_chars());
    progress
}

/// Downloads to a file the user names.
#[derive(Debug)]
pub struct PermanentStorageProvider {
    path: String,
    force_restart: bool,
}

impl PermanentStorageProvider {
    /// The file path.
    pub closed spec fn spec_path(&self) -> Seq<char> {
        self.path@
    }

    /// Whether existing progress is thrown away.
    pub closed spec fn spec_force_restart(&self) -> bool {
        self.force_restart
    }

    /// A provider that downloads to `path` and throws away any progress made;
    /// a path whose extension is `progress` is refused.
    pub fn restart(path: String) -> (r: Result<Self, Error>)
        ensures
            r is Err <==> file_extension(path@) == Some(progress_chars()),
            match r {
                Ok(p) => p.spec_path() == path@ && p.spec_force_restart(),
                Err(e) => e == Error::InvalidPath,
            },
    {
        Self::new(path, true)
    }

    /// A provider that downloads to `path` and continues from any progress
    /// made; a path whose extension is `progress` is refused.
    pub fn start(path: String) -> (r: Result<Self, Error>)
        ensures
            r is Err <==> file_extension(path@) == Some(progress_chars()),
            match r {
                Ok(p) => p.spec_path() == path@ && !p.spec_force_restart(),
                Err(e) => e == Error::InvalidPath,
            },
    {
        Self::new(path, false)
    }

    fn new(path: String, force_restart: bool) -> (r: Result<Self, Error>)
        ensures
            r is Err <==> file_extension(path@) == Some(progress_chars()),
            match r {
                Ok(p) => p.spec_path() == path@ && p.spec_force_restart() == force_restart,
                Err(e) => e == Error::InvalidPath,
            },
    {
        let ext = path_extension(path.as_str());
        let checked = match &ext {
            Some(e) => check_extension(Some(e.as_str())),
            None => check_extension(None),
        };
        match checked {
            Err(e) => Err(e),
            Ok(()) => Ok(PermanentStorageProvider { path, force_restart }),
        }
    }

    /// The file path.
    pub fn path(&self) -> (r: &String)
        ensures
            r@ == self.spec_path(),
    {
        &self.path
    }

    /// Whether existing progress is thrown away.
    pub fn force_restart(&self) -> (r: bool)
        ensures
            r == self.spec_force_restart(),
    {
        self.force_restart
    }
}

/// The characters of `.progress`.
pub open spec fn progress_suffix() -> Seq<char> {
    seq!['.'].add(progress_chars())
}

/// The path of the progress file of `file_path`: a file beside it whose name
/// is the file's own name followed by `.progress`, so that files that differ
/// only in their extension keep separate records.
pub fn progress_path(file_path: &str) -> (r: String)
    ensures
        r@ == file_path@ + progress_suffix(),
{
    let mut out = String::from_str(file_path);
    let ghost before = out@;
    out.push('.');
    out.push('p');
    out.push('r');
    out.push('o');
    out.push('g');
    out.push('r');
    out.push('e');
    out.push('s');
    out.push('s');
    assert(out@ =~= before + progress_suffix());
    out
}

/// The length a progress file is cut to so that a section cut short by a
/// crash is dropped: the largest multiple of the section length.
pub fn complete_sections_len(len: u64) -> (r: u64)
    ensures
        r == len - len % 16,
        r % 16 == 0,
        r <= len,
        len - r < 16,
{
    len - len % (SECTION_LENGTH as u64)
}

/// The sections recorded in the bytes of a progress file: each whole run of
/// 16 bytes is a start and an end, little-endian; a trailing partial run is
/// ignored.
pub open spec fn progress_sections_spec(bytes: Seq<u8>) -> Seq<(u64, u64)> {
    Seq::new(
        bytes.len() / (SECTION_LENGTH as nat),
        |i: int|
            (
                vstd::bytes::spec_u64_from_le_bytes(bytes.subrange(16 * i, 16 * i + 8)),
                vstd::bytes::spec_u64_from_le_bytes(bytes.subrange(16 * i + 8, 16 * i + 16)),
            ),
    )
}

/// Reads the sections recorded in the bytes of a progress file.
pub fn progress_sections(bytes: &[u8]) -> (r: Vec<(u64, u64)>)
    ensures
        r@ == progress_sections_spec(bytes@),
{
    let n = bytes.len() / SECTION_LENGTH;
    let mut out: Vec<(u64, u64)> = Vec::new();
    let mut i: usize = 0;
    while i < n
        invariant
            n == bytes@.len() / 16,
            bytes@.len() == bytes.len(),
            i <= n,
            out@ == progress_sections_spec(bytes@).subrange(0, i as int),
        decreases n - i,
    {
        proof {
            assert(16 * i + 16 <= bytes@.len()) by (nonlinear_arith)
                requires
                    i < n,
                    n == bytes@.len() / 16,
            ;
            assert(bytes@.len() <= usize::MAX);
        }
        let base = 16 * i;
        let start_bytes = copy_range(bytes, base, base + 8);
        let end_bytes = copy_range(bytes, base + 8, base + 16);
        let start = vstd::bytes::u64_from_le_bytes(start_bytes.as_slice());
        let end = vstd::bytes::u64_from_le_bytes(end_bytes.as_slice());
        out.push((start, end));
        i = i + 1;
        assert(out@ =~= progress_sections_spec(bytes@).subrange(0, i as int));
    }
    assert(out@ =~= progress_sections_spec(bytes@));
    out
}

/// The positions the sections cover.
pub open spec fn sections_positions(sections: Seq<(u64, u64)>) -> Set<u64>
    decreases sections.len(),
{
    if sections.len() == 0 {
        Set::empty()
    } else {
        sections_positions(sections.drop_last()).union(
            range_positions(sections.last().0, sections.last().1),
        )
    }
}

/// The downloaded parts a progress record describes. Every section must be a
/// non-empty range (the range set refuses empty ones).
pub fn downloaded_from_sections(sections: &Vec<(u64, u64)>) -> (r: Downloaded)
    requires
        forall|i: int| 0 <= i < sections@.len() ==> sections@[i].0 < sections@[i].1,
    ensures
        r.view() == sections_positions(sections@),
{
    let mut d = Downloaded::new();
    let mut i: usize = 0;
    while i < sections.len()
        invariant
            i <= sections@.len(),
            forall|k: int| 0 <= k < sections@.len() ==> sections@[k].0 < sections@[k].1,
            d.view() == sections_positions(sections@.subrange(0, i as int)),
        decreases sections@.len() - i,
    {
        let (start, end) = sections[i];
        d.add(start..end);
        i = i + 1;
        assert(sections@.subrange(0, i as int).drop_last() =~= sections@.subrange(0, i - 1));
    }
    assert(sections@.subrange(0, sections@.len() as int) =~= sections@);
    d
}

/// Copies `bytes[from..to]` into a new vector.
fn copy_range(bytes: &[u8], from: usize, to: usize) -> (r: Vec<u8>)
    requires
        from <= to <= bytes@.len(),
    ensures
        r@ == bytes@.subrange(from as int, to as int),
{
    let mut out: Vec<u8> = Vec::new();
    let mut i = from;
    while i < to
        invariant
            from <= i <= to,
            to <= bytes@.len(),
            out@ == bytes@.subrange(from as int, i as int),
        decreases to - i,
    {
        out.push(bytes[i]);
        i = i + 1;
        assert(out@ =~= bytes@.subrange(from as int, i as int));
    }
    out
}

/// The bytes of a progress record made of `sections`, in order: each section
/// is its start and then its end, as little-endian `u64` values.
pub open spec fn encode_sections(sections: Seq<(u64, u64)>) -> Seq<u8>
    decreases sections.len(),
{
    if sections.len() == 0 {
        Seq::empty()
    } else {
        encode_sections(sections.drop_last()) + vstd::bytes::spec_u64_to_le_bytes(
            sections.last().0,
        ) + vstd::bytes::spec_u64_to_le_bytes(sections.last().1)
    }
}

/// Each section of an encoded record sits in its own 16 bytes.
proof fn lemma_encoded_section(sections: Seq<(u64, u64)>, i: int)
    requires
        0 <= i < sections.len(),
    ensures
        encode_sections(sections).len() == 16 * sections.len(),
        encode_sections(sections).subrange(16 * i, 16 * i + 8) == vstd::bytes::spec_u64_to_le_bytes(
            sections[i].0,
        ),
        encode_sections(sections).subrange(16 * i + 8, 16 * i + 16)
            == vstd::bytes::spec_u64_to_le_bytes(sections[i].1),
    decreases sections.len(),
{
    vstd::bytes::lemma_auto_spec_u64_to_from_le_bytes();
    let prev = sections.drop_last();
    let k = sections.len() - 1;
    let whole = encode_sections(sections);
    let a = vstd::bytes::spec_u64_to_le_bytes(sections.last().0);
    let b = vstd::bytes::spec_u64_to_le_bytes(sections.last().1);
    if i < k {
        lemma_encoded_section(prev, i);
        assert(prev[i] == sections[i]);
        assert(whole.subrange(16 * i, 16 * i + 8) =~= encode_sections(prev).subrange(16 * i, 16 * i + 8));
        assert(whole.subrange(16 * i + 8, 16 * i + 16) =~= encode_sections(prev).subrange(
            16 * i + 8,
            16 * i + 16,
        ));
    } else {
        lemma_encoded_length(prev);
        assert(whole.subrange(16 * i, 16 * i + 8) =~= a);
        assert(whole.subrange(16 * i + 8, 16 * i + 16) =~= b);
    }
    lemma_encoded_length(sections);
}

/// An encoded record has 16 bytes per section.
proof fn lemma_encoded_length(sections: Seq<(u64, u64)>)
    ensures
        encode_sections(sections).len() == 16 * sections.len(),
    decreases sections.len(),
{
    vstd::bytes::lemma_auto_spec_u64_to_from_le_bytes();
    if sections.len() > 0 {
        lemma_encoded_length(sections.drop_last());
        assert(vstd::bytes::spec_u64_to_le_bytes(sections.last().0).len() == 8);
        assert(vstd::bytes::spec_u64_to_le_bytes(sections.last().1).len() == 8);
    }
}

/// A progress record reads back as the sections written to it, every one of
/// them and in order, also when a section cut short (fewer than 16 bytes)
/// follows them.
pub proof fn lemma_progress_round_trip(sections: Seq<(u64, u64)>, tail: Seq<u8>)
    requires
        tail.len() < 16,
    ensures
        progress_sections_spec(encode_sections(sections) + tail) == sections,
{
    vstd::bytes::lemma_auto_spec_u64_to_from_le_bytes();
    lemma_encoded_length(sections);
    let bytes = encode_sections(sections) + tail;
    let n = sections.len();
    assert(bytes.len() / 16 == n) by (nonlinear_arith)
        requires
            bytes.len() == 16 * n + tail.len(),
            tail.len() < 16,
    ;
    let got = progress_sections_spec(bytes);
    assert forall|i: int| 0 <= i < n implies got[i] == sections[i] by {
        lemma_encoded_section(sections, i);
        assert(bytes.subrange(16 * i, 16 * i + 8) =~= encode_sections(sections).subrange(
            16 * i,
            16 * i + 8,
        ));
        assert(bytes.subrange(16 * i + 8, 16 * i + 16) =~= encode_sections(sections).subrange(
            16 * i + 8,
            16 * i + 16,
        ));
    }
    assert(got =~= sections);
}

} // verus!
