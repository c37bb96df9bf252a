//! The decompression selector: classifies an input by its file name's
//! suffix, case-insensitively, in order of specificity, and decodes the
//! chosen byte-stream variant into the underlying markup bytes.

use vstd::prelude::*;
use crate::extractor::PipelineError;
use crate::text::chars_of;

verus! {

/// The three byte-stream variants an input file can hold.
#[derive(Debug, PartialEq, Eq, Structural)]
pub enum SourceKind {
    /// A concatenation of independently compressed blocks.
    MultiStreamBz,
    /// A single compressed stream.
    SingleBz,
    /// Raw markup bytes.
    Raw,
}

/// Case-insensitive match of one character against an expected lower-case
/// character: equal outright, or an ASCII upper-case letter whose lower-case
/// form is expected.
pub open spec fn ci_eq(a: char, b: char) -> bool {
    a == b || (65 <= a as u32 <= 90 && a as u32 + 32 == b as u32)
}

/// Does `name` end with `suf`, comparing case-insensitively against the
/// lower-case suffix?
pub open spec fn suffix_matches(name: Seq<char>, suf: Seq<char>) -> bool {
    name.len() >= suf.len() && (forall|k: int|
        0 <= k < suf.len() ==> ci_eq(name[name.len() - suf.len() + k], #[trigger] suf[k]))
}

/// The suffix marking a multi-stream compressed export.
pub open spec fn multi_suffix() -> Seq<char> {
    seq!['m', 'u', 'l', 't', 'i', 's', 't', 'r', 'e', 'a', 'm', '.', 'x', 'm', 'l', '.', 'b', 'z', '2']
}

/// The suffix marking a single-stream compressed export.
pub open spec fn bz_suffix() -> Seq<char> {
    seq!['.', 'x', 'm', 'l', '.', 'b', 'z', '2']
}

/// Classification by suffix, most specific first; anything else is raw.
pub open spec fn classify_spec(name: Seq<char>) -> SourceKind {
    if suffix_matches(name, multi_suffix()) {
        SourceKind::MultiStreamBz
    } else if suffix_matches(name, bz_suffix()) {
        SourceKind::SingleBz
    } else {
        SourceKind::Raw
    }
}

/// Case-insensitive comparison of one character against a lower-case one.
fn ci_eq_exec(a: char, b: char) -> (r: bool)
    ensures
        r == ci_eq(a, b),
{
    if a == b {
        true
    } else {
        let au = a as u32;
        let bu = b as u32;
        65 <= au && au <= 90 && au + 32 == bu
    }
}

/// Does the name end with the given lower-case suffix, case-insensitively?
fn ends_with_ci(name: &Vec<char>, suf: &Vec<char>) -> (r: bool)
    ensures
        r == suffix_matches(name@, suf@),
{
    if name.len() < suf.len() {
        return false;
    }
    let off = name.len() - suf.len();
    let mut k: usize = 0;
    while k < suf.len()
        invariant
            name@.len() >= suf@.len(),
            off == name@.len() - suf@.len(),
            off + suf@.len() <= usize::MAX,
            k <= suf@.len(),
            forall|m: int| 0 <= m < k ==> ci_eq(name@[off + m], #[trigger] suf@[m]),
        decreases suf@.len() - k,
    {
        if !ci_eq_exec(name[off + k], suf[k]) {
            return false;
        }
        k = k + 1;
    }
    true
}

fn multi_suffix_vec() -> (v: Vec<char>)
    ensures
        v@ == multi_suffix(),
{
    let mut v: Vec<char> = Vec::new();
    v.push('m');
    v.push('u');
    v.push('l');
    v.push('t');
    v.push('i');
    v.push('s');
    v.push('t');
    v.push('r');
    v.push('e');
    v.push('a');
    v.push('m');
    v.push('.');
    v.push('x');
    v.push('m');
    v.push('l');
    v.push('.');
    v.push('b');
    v.push('z');
    v.push('2');
    proof {
        assert(v@ =~= multi_suffix());
    }
    v
}

fn bz_suffix_vec() -> (v: Vec<char>)
    ensures
        v@ == bz_suffix(),
{
    let mut v: Vec<char> = Vec::new();
    v.push('.');
    v.push('x');
    v.push('m');
    v.push('l');
    v.push('.');
    v.push('b');
    v.push('z');
    v.push('2');
    proof {
        assert(v@ =~= bz_suffix());
    }
    v
}

/// Classify a file name into its byte-stream variant.
pub fn classify_name(name: &str) -> (k: SourceKind)
    ensures
        k == classify_spec(name@),
{
    let cs = chars_of(name);
    if ends_with_ci(&cs, &multi_suffix_vec()) {
        SourceKind::MultiStreamBz
    } else if ends_with_ci(&cs, &bz_suffix_vec()) {
        SourceKind::SingleBz
    } else {
        SourceKind::Raw
    }
}

/// Classify an input: it must be a regular file whose name is decodable
/// text, else the input is invalid and no pipeline is started.
pub fn classify_input(is_regular_file: bool, file_name: Option<&str>) -> (r: Result<
    SourceKind,
    PipelineError,
>)
    ensures
        r is Err <==> !is_regular_file || file_name is None,
        r matches Err(e) ==> e is InvalidInput,
        r matches Ok(k) ==> k == classify_spec(file_name.unwrap()@),
{
    if !is_regular_file {
        return Err(PipelineError::InvalidInput);
    }
    match file_name {
        None => Err(PipelineError::InvalidInput),
        Some(n) => Ok(classify_name(n)),
    }
}

/// What single-stream decompression yields on the given bytes: `None`
/// exactly when the stream is malformed.
pub uninterp spec fn bunzip_of(b: Seq<u8>) -> Option<Seq<u8>>;

/// What multi-stream decompression yields on the given bytes: `None`
/// exactly when some block is malformed.
pub uninterp spec fn multi_bunzip_of(b: Seq<u8>) -> Option<Seq<u8>>;

/// Relies on bzip2::read::BzDecoder over an in-memory block: decompression
/// is a function of the compressed bytes alone, failing exactly on a
/// malformed stream.
#[verifier::external_body]
fn bunzip(data: &Vec<u8>) -> (r: Option<Vec<u8>>)
    ensures
        r is Some <==> bunzip_of(data@) is Some,
        r matches Some(v) ==> Some(v@) == bunzip_of(data@),
{
    let mut out = Vec::new();
    let mut d = bzip2::read::BzDecoder::new(data.as_slice());
    match std::io::Read::read_to_end(&mut d, &mut out) {
        Ok(_) => Some(out),
        Err(_) => None,
    }
}

/// Relies on bzip2::read::MultiBzDecoder over an in-memory block run:
/// decompression of the concatenated blocks is a function of the compressed
/// bytes alone, failing exactly on a malformed block.
#[verifier::external_body]
fn multi_bunzip(data: &Vec<u8>) -> (r: Option<Vec<u8>>)
    ensures
        r is Some <==> multi_bunzip_of(data@) is Some,
        r matches Some(v) ==> Some(v@) == multi_bunzip_of(data@),
{
    let mut out = Vec::new();
    let mut d = bzip2::read::MultiBzDecoder::new(data.as_slice());
    match std::io::Read::read_to_end(&mut d, &mut out) {
        Ok(_) => Some(out),
        Err(_) => None,
    }
}

/// The markup bytes a classified input stands for: raw bytes as they are,
/// compressed bytes through the matching decoder; `None` on a malformed
/// stream.
pub open spec fn spec_decode(k: SourceKind, data: Seq<u8>) -> Option<Seq<u8>> {
    match k {
        SourceKind::Raw => Some(data),
        SourceKind::SingleBz => bunzip_of(data),
        SourceKind::MultiStreamBz => multi_bunzip_of(data),
    }
}

/// Decode a classified input's bytes into the underlying markup bytes.
pub fn decode_source(k: SourceKind, data: Vec<u8>) -> (r: Result<Vec<u8>, PipelineError>)
    ensures
        (match r {
            Ok(v) => spec_decode(k, data@) == Some(v@),
            Err(e) => spec_decode(k, data@) is None && e is DecodeError,
        }),
{
    match k {
        SourceKind::Raw => Ok(data),
        SourceKind::SingleBz => match bunzip(&data) {
            Some(v) => Ok(v),
            None => Err(PipelineError::DecodeError),
        },
        SourceKind::MultiStreamBz => match multi_bunzip(&data) {
            Some(v) => Ok(v),
            None => Err(PipelineError::DecodeError),
        },
    }
}

} // verus!
