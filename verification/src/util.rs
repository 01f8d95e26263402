use vstd::prelude::*;

use crate::elf::has_elf_magic;
use crate::error::Error;
use crate::text::{
    char_is_control, char_is_whitespace, chars_of, eq_char, is_control, is_whitespace,
    lemma_trim_end_by_prefix, string_of, trim_end_by, trim_end_char, trimmed_end,
};

verus! {

// ---------------------------------------------------------------------------
// File names
// ---------------------------------------------------------------------------

/// `c` is a character that a file name may not carry as it is: whitespace,
/// a control code, a path separator or a character some file systems refuse.
pub open spec fn needs_replacing(c: char) -> bool {
    ||| is_whitespace(c)
    ||| is_control(c)
    ||| c == '"'
    ||| c == ':'
    ||| c == '>'
    ||| c == '<'
    ||| c == '*'
    ||| c == '|'
    ||| c == '?'
    ||| c == '/'
    ||| c == '\\'
    ||| c == '\0'
}

/// `c`, or `_` where `c` needs replacing.
pub open spec fn sanitize_char(c: char) -> char {
    if needs_replacing(c) {
        '_'
    } else {
        c
    }
}

/// `s` with every character that needs replacing turned into `_`, and the
/// underscores at the end dropped.
pub open spec fn spec_sanitize_filename(s: Seq<char>) -> Seq<char> {
    trim_end_char(s.map_values(|c: char| sanitize_char(c)), '_')
}

fn replace_char(c: char) -> (res: char)
    ensures
        res == sanitize_char(c),
{
    if char_is_whitespace(c) || char_is_control(c) || c == '"' || c == ':' || c == '>' || c == '<'
        || c == '*' || c == '|' || c == '?' || c == '/' || c == '\\' || c == '\0' {
        '_'
    } else {
        c
    }
}

/// Sanitize a string for use as a filename.
/// Replaces characters that are problematic in filenames — including path
/// separators and NUL — with underscores, and drops trailing underscores.
pub fn sanitize_filename(s: &str) -> (res: String)
    ensures
        res@ == spec_sanitize_filename(s@),
{
    let cs = chars_of(s);
    let n = cs.len();
    let mut mapped: Vec<char> = Vec::new();
    for i in 0..n
        invariant
            n == cs@.len(),
            cs@ == s@,
            mapped@ == cs@.take(i as int).map_values(|c: char| sanitize_char(c)),
    {
        mapped.push(replace_char(cs[i]));
        assert(cs@.take(i + 1).map_values(|c: char| sanitize_char(c)) =~= cs@.take(i as int).map_values(
            |c: char| sanitize_char(c),
        ).push(sanitize_char(cs@[i as int])));
    }
    assert(cs@.take(n as int) =~= cs@);
    let end = trimmed_end(mapped.as_slice(), n, '_');
    assert(mapped@.take(n as int) =~= mapped@);
    string_of(&mapped.as_slice()[0..end])
}

/// A sanitized name holds no character that needs replacing: in particular
/// no path separator and no NUL, so it cannot leave the directory it is
/// joined to.
pub proof fn lemma_sanitized_is_safe(s: Seq<char>)
    ensures
        forall|k: int|
            0 <= k < spec_sanitize_filename(s).len() ==> !needs_replacing(
                #[trigger] spec_sanitize_filename(s)[k],
            ),
{
    let m = s.map_values(|c: char| sanitize_char(c));
    lemma_trim_end_by_prefix(m, eq_char('_'));
    let t = spec_sanitize_filename(s);
    assert forall|k: int| 0 <= k < t.len() implies !needs_replacing(#[trigger] t[k]) by {
        assert(t[k] == m[k]);
    }
}

/// A sanitized name does not end with an underscore.
pub proof fn lemma_sanitized_no_trailing_underscore(s: Seq<char>)
    ensures
        spec_sanitize_filename(s).len() > 0 ==> spec_sanitize_filename(s).last() != '_',
{
    lemma_trim_end_by_prefix(s.map_values(|c: char| sanitize_char(c)), eq_char('_'));
}

/// Sanitizing is idempotent: a sanitized name is left as it is.
pub proof fn lemma_sanitize_idempotent(s: Seq<char>)
    ensures
        spec_sanitize_filename(spec_sanitize_filename(s)) == spec_sanitize_filename(s),
{
    let t = spec_sanitize_filename(s);
    lemma_sanitized_is_safe(s);
    lemma_sanitized_no_trailing_underscore(s);
    let m = t.map_values(|c: char| sanitize_char(c));
    assert(m =~= t);
    assert(trim_end_by(t, eq_char('_')) == t);
}

/// A name that needs no change is left as it is.
pub proof fn lemma_sanitize_keeps_safe_names(s: Seq<char>)
    requires
        forall|k: int| 0 <= k < s.len() ==> !needs_replacing(#[trigger] s[k]),
        s.len() > 0 ==> s.last() != '_',
    ensures
        spec_sanitize_filename(s) == s,
{
    let m = s.map_values(|c: char| sanitize_char(c));
    assert(m =~= s);
}

/// Sanitizing replaces exactly whitespace, control codes and the characters
/// `" : > < * | ? / \` and NUL by `_`, keeps every other character (such
/// as `+`, `'` or `&`) as it is, and drops only underscores at the end:
/// the result is a prefix of the replaced text, and what is dropped is
/// underscores or replaced characters.
pub proof fn lemma_sanitize_replaces_exactly(s: Seq<char>)
    ensures
        ({
            let replaced = |c: char|
                is_whitespace(c) || is_control(c) || c == '"' || c == ':' || c == '>' || c == '<' || c
                    == '*' || c == '|' || c == '?' || c == '/' || c == '\\' || c == '\0';
            let out = spec_sanitize_filename(s);
            &&& out.len() <= s.len()
            &&& forall|i: int|
                0 <= i < out.len() ==> #[trigger] out[i] == if replaced(s[i]) {
                    '_'
                } else {
                    s[i]
                }
            &&& forall|i: int| out.len() <= i < s.len() ==> replaced(#[trigger] s[i]) || s[i] == '_'
            &&& out.len() > 0 ==> out.last() != '_'
        }),
{
    let m = s.map_values(|c: char| sanitize_char(c));
    lemma_trim_end_by_prefix(m, eq_char('_'));
    let out = spec_sanitize_filename(s);
    assert forall|i: int| out.len() <= i < s.len() implies needs_replacing(#[trigger] s[i]) || s[i] == '_' by {
        assert(eq_char('_')(m[i]));
    }
}

// ---------------------------------------------------------------------------
// ELF detection
// ---------------------------------------------------------------------------

/// Check if a file starts with the ELF magic bytes, given the bytes read
/// from its start (at most four are looked at).
pub fn is_elf(head: &[u8]) -> (res: bool)
    ensures
        res == has_elf_magic(head@),
{
    head.len() >= 4 && head[0] == 0x7f && head[1] == 0x45 && head[2] == 0x4c && head[3] == 0x46
}

// ---------------------------------------------------------------------------
// Download with retries
// ---------------------------------------------------------------------------

/// How many times a download is attempted before it is given up.
pub open spec fn download_attempts() -> int {
    5
}

/// What to do after an attempt to download.
#[derive(Debug)]
pub enum DownloadStep {
    /// The file has been downloaded.
    Done,
    /// Wait, then make attempt number `next_attempt` (counted from 0).
    Retry { next_attempt: u32 },
    /// Give up with this error.
    GiveUp(Error),
}

/// Decide what follows attempt number `attempt` (counted from 0) to
/// download `url`, which ended with `outcome` (the failure's message on
/// error). Five attempts are made; after the last failure the download
/// fails with the last failure's message as its reason.
pub fn download_step(url: &str, attempt: u32, outcome: Result<(), String>) -> (res: DownloadStep)
    requires
        attempt < download_attempts(),
    ensures
        match outcome {
            Ok(()) => res is Done,
            Err(reason) => if attempt + 1 < download_attempts() {
                res == DownloadStep::Retry { next_attempt: (attempt + 1) as u32 }
            } else {
                res matches DownloadStep::GiveUp(Error::DownloadFailed { url: u, reason: r }) && u@
                    == url@ && r@ == reason@
            },
        },
{
    match outcome {
        Ok(()) => DownloadStep::Done,
        Err(reason) => {
            if attempt + 1 < 5 {
                DownloadStep::Retry { next_attempt: attempt + 1 }
            } else {
                DownloadStep::GiveUp(Error::DownloadFailed { url: url.to_owned(), reason })
            }
        },
    }
}

/// The reason given when a downloaded file is not an ELF binary.
pub open spec fn not_elf_reason() -> Seq<char> {
    "downloaded file is not a valid ELF binary"@
}

/// Accept a file downloaded from `url` only when it is an ELF binary
/// (`is_elf`); otherwise the download fails with `not_elf_reason()`.
pub fn check_download(url: &str, is_elf: bool) -> (res: Result<(), Error>)
    ensures
        res is Ok <==> is_elf,
        res matches Err(e) ==> (e matches Error::DownloadFailed { url: u, reason: r } && u@ == url@
            && r@ == not_elf_reason()),
{
    if is_elf {
        Ok(())
    } else {
        Err(
            Error::DownloadFailed {
                url: url.to_owned(),
                reason: "downloaded file is not a valid ELF binary".to_owned(),
            },
        )
    }
}

} // verus!
