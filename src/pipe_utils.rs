use vstd::prelude::*;
use vstd::string::{StrSliceExecFns, StringExecFns};

use crate::error::PipeError;
use crate::text::{
    contains_str, ends_with_str, find_str, first_occurrence, has_infix, has_prefix, has_suffix,
    starts_with_str,
};

verus! {

/// The index just after the last `/` of `s`, or 0 where `s` holds none.
pub open spec fn segment_start(s: Seq<char>) -> nat
    decreases s.len(),
{
    if s.len() == 0 {
        0
    } else if s.last() == '/' {
        s.len()
    } else {
        segment_start(s.drop_last())
    }
}

/// The last `/`-separated segment of `s`.
pub open spec fn last_segment(s: Seq<char>) -> Seq<char> {
    s.subrange(segment_start(s) as int, s.len() as int)
}

/// The directory name that a URL names: the part of its last segment before
/// the first `.tar.`, where that part is not empty.
pub open spec fn inferred_target(url: Seq<char>) -> Option<Seq<char>> {
    let seg = last_segment(url);
    match first_occurrence(seg, ".tar."@) {
        Some(i) => if i > 0 {
            Some(seg.subrange(0, i as int))
        } else {
            None
        },
        None => None,
    }
}

/// The compression formats that the decoder stage can be given.
#[derive(Clone, Copy, Debug, PartialEq, Eq, Structural)]
pub enum Codec {
    Gzip,
    Bzip2,
    Xz,
    Zstd,
    Lz4,
}

/// The codec that a URL's suffix selects.
pub open spec fn codec_of(url: Seq<char>) -> Option<Codec> {
    if has_suffix(url, ".gz"@) {
        Some(Codec::Gzip)
    } else if has_suffix(url, ".bz2"@) {
        Some(Codec::Bzip2)
    } else if has_suffix(url, ".xz"@) {
        Some(Codec::Xz)
    } else if has_suffix(url, ".zst"@) {
        Some(Codec::Zstd)
    } else if has_suffix(url, ".lz4"@) {
        Some(Codec::Lz4)
    } else {
        None
    }
}

/// A URL whose body is the address of the real resource.
pub open spec fn is_link(url: Seq<char>) -> bool {
    has_suffix(url, ".link"@)
}

/// An address that a `.link` body may hold.
pub open spec fn is_http_url(s: Seq<char>) -> bool {
    has_prefix(s, "http://"@) || has_prefix(s, "https://"@)
}

/// The SI (decimal) size text of `bytes`, such as `1.20 GB`.
pub uninterp spec fn size_text(bytes: nat) -> Seq<char>;

/// Relies on `humansize::format_size` with the `DECIMAL` options: the text
/// depends on the number alone.
#[verifier::external_body]
pub fn bytes_to_human(bytes: usize) -> (r: String)
    ensures
        r@ == size_text(bytes as nat),
{
    humansize::format_size(bytes, humansize::DECIMAL)
}

/// What `str::trim` leaves of `s`.
pub uninterp spec fn trimmed(s: Seq<char>) -> Seq<char>;

/// Relies on `str::trim`: leading and trailing whitespace removed; the result
/// depends on the characters alone.
#[verifier::external_body]
fn trim_text(s: &str) -> (r: String)
    ensures
        r@ == trimmed(s@),
{
    s.trim().to_string()
}

proof fn lemma_segment_start(s: Seq<char>, k: nat)
    requires
        k <= s.len(),
        k == 0 || s[k - 1] == '/',
        forall|j: int| k <= j < s.len() ==> s[j] != '/',
    ensures
        segment_start(s) == k,
    decreases s.len(),
{
    if s.len() > k {
        if k > 0 {
            assert(s.drop_last()[k - 1] == s[k - 1]);
        }
        lemma_segment_start(s.drop_last(), k);
    }
}

/// The last `/`-separated segment of `url`.
pub fn url_last_segment(url: &str) -> (r: String)
    ensures
        r@ == last_segment(url@),
{
    let n = url.unicode_len();
    let mut k: usize = n;
    while k > 0 && url.get_char(k - 1) != '/'
        invariant
            n == url@.len(),
            k <= n,
            forall|j: int| k <= j < n ==> url@[j] != '/',
        decreases k,
    {
        k = k - 1;
    }
    proof {
        lemma_segment_start(url@, k as nat);
    }
    String::from_str(url.substring_char(k, n))
}

/// The output directory named by `url`, for a download started without one.
pub fn infer_target_path(url: &str) -> (r: Result<String, PipeError>)
    ensures
        match inferred_target(url@) {
            Some(t) => r matches Ok(p) && p@ == t,
            None => r == Err::<String, PipeError>(PipeError::CannotInferTarget),
        },
{
    let seg = url_last_segment(url);
    let s = seg.as_str();
    match find_str(s, ".tar.") {
        Some(i) => {
            if i > 0 {
                Ok(String::from_str(s.substring_char(0, i)))
            } else {
                Err(PipeError::CannotInferTarget)
            }
        },
        None => Err(PipeError::CannotInferTarget),
    }
}

/// The path that a download writes to: the one given, or else the one the URL names.
pub fn target_path_for(url: &str, target_path: Option<String>) -> (r: Result<String, PipeError>)
    ensures
        target_path matches Some(t) ==> r == Ok::<String, PipeError>(t),
        target_path is None ==> match inferred_target(url@) {
            Some(t) => r matches Ok(p) && p@ == t,
            None => r == Err::<String, PipeError>(PipeError::CannotInferTarget),
        },
{
    match target_path {
        Some(t) => Ok(t),
        None => infer_target_path(url),
    }
}

/// Whether `url` names a `.link` resource.
pub fn is_link_url(url: &str) -> (r: bool)
    ensures
        r == is_link(url@),
{
    ends_with_str(url, ".link")
}

/// Whether the decoded stream of `url` is a tar archive.
pub fn is_tar_url(url: &str) -> (r: bool)
    ensures
        r == has_infix(url@, ".tar."@),
{
    contains_str(url, ".tar.")
}

/// The codec selected by the suffix of `url`.
pub fn select_codec(url: &str) -> (r: Result<Codec, PipeError>)
    ensures
        match codec_of(url@) {
            Some(c) => r == Ok::<Codec, PipeError>(c),
            None => r == Err::<Codec, PipeError>(PipeError::UnknownCompression),
        },
{
    if ends_with_str(url, ".gz") {
        Ok(Codec::Gzip)
    } else if ends_with_str(url, ".bz2") {
        Ok(Codec::Bzip2)
    } else if ends_with_str(url, ".xz") {
        Ok(Codec::Xz)
    } else if ends_with_str(url, ".zst") {
        Ok(Codec::Zstd)
    } else if ends_with_str(url, ".lz4") {
        Ok(Codec::Lz4)
    } else {
        Err(PipeError::UnknownCompression)
    }
}

/// The real address held by an already trimmed `.link` body.
pub fn check_link_target(trimmed_body: &str) -> (r: Result<String, PipeError>)
    ensures
        is_http_url(trimmed_body@) ==> (r matches Ok(u) && u@ == trimmed_body@),
        !is_http_url(trimmed_body@) ==> r == Err::<String, PipeError>(PipeError::BadLinkUrl),
{
    if starts_with_str(trimmed_body, "http://") || starts_with_str(trimmed_body, "https://") {
        Ok(String::from_str(trimmed_body))
    } else {
        Err(PipeError::BadLinkUrl)
    }
}

/// The real address held by the body of a `.link` resource, with surrounding
/// whitespace removed.
pub fn link_target(body: &str) -> (r: Result<String, PipeError>)
    ensures
        is_http_url(trimmed(body@)) ==> (r matches Ok(u) && u@ == trimmed(body@)),
        !is_http_url(trimmed(body@)) ==> r == Err::<String, PipeError>(PipeError::BadLinkUrl),
{
    let t = trim_text(body);
    check_link_target(t.as_str())
}

/// One look at the published address, for a stage that needs the resolved URL.
/// `Ok(None)` means that it is not published yet and the caller waits and asks again.
pub fn resolve_url(download_url: &str, published: &Option<String>, stop_requested: bool) -> (r:
    Result<Option<String>, PipeError>)
    ensures
        !is_link(download_url@) ==> (r matches Ok(Some(u)) && u@ == download_url@),
        is_link(download_url@) ==> match published {
            Some(p) => r matches Ok(Some(u)) && u@ == p@,
            None => if stop_requested {
                r == Err::<Option<String>, PipeError>(PipeError::Stopped)
            } else {
                r == Ok::<Option<String>, PipeError>(None)
            },
        },
{
    if !is_link_url(download_url) {
        return Ok(Some(String::from_str(download_url)));
    }
    match published {
        Some(p) => Ok(Some(p.clone())),
        None => if stop_requested {
            Err(PipeError::Stopped)
        } else {
            Ok(None)
        },
    }
}

} // verus!
