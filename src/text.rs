//! Text handling for downloaded reports: decoding the station's single-byte
//! encoding, normalising line endings, and naming stored files.

use vstd::prelude::*;

verus! {

/// `s` with every match of `p` replaced by `t`, matches taken from the
/// left without overlapping.
pub open spec fn replaced(s: Seq<char>, p: Seq<char>, t: Seq<char>) -> Seq<char>
    decreases s.len(),
{
    if s.len() == 0 || p.len() == 0 {
        s
    } else if p.len() <= s.len() && s.subrange(0, p.len() as int) == p {
        t + replaced(s.subrange(p.len() as int, s.len() as int), p, t)
    } else {
        seq![s[0]] + replaced(s.subrange(1, s.len() as int), p, t)
    }
}

/// `p` occurs in `s`.
pub open spec fn occurs_in(p: Seq<char>, s: Seq<char>) -> bool {
    exists|i: int| 0 <= i <= s.len() - p.len() && #[trigger] s.subrange(i, i + p.len()) == p
}

/// Relies on `str::replace`: every match of a non-empty pattern, found
/// from the left and without overlap, is replaced.
#[verifier::external_body]
fn replace_all(s: &str, p: &str, t: &str) -> (r: String)
    requires
        p@.len() > 0,
    ensures
        r@ == replaced(s@, p@, t@),
{
    s.replace(p, t)
}

/// Relies on `str::contains` with a string pattern.
#[verifier::external_body]
fn contains_str(s: &str, p: &str) -> (r: bool)
    ensures
        r == occurs_in(p@, s@),
{
    s.contains(p)
}

/// The text `encoding_rs` decodes from bytes labelled windows-1252.
pub uninterp spec fn windows_1252_decoded(b: Seq<u8>) -> Seq<char>;

/// The input starts with a byte order mark, which overrides the label.
pub open spec fn starts_with_bom(b: Seq<u8>) -> bool {
    ||| (b.len() >= 3 && b[0] == 0xEF && b[1] == 0xBB && b[2] == 0xBF)
    ||| (b.len() >= 2 && b[0] == 0xFF && b[1] == 0xFE)
    ||| (b.len() >= 2 && b[0] == 0xFE && b[1] == 0xFF)
}

/// Relies on `encoding_rs::WINDOWS_1252.decode`: without a byte order mark
/// each byte becomes one character, bytes below 0x80 and from 0xA0 on
/// keeping their value as code point.
#[verifier::external_body]
fn decode_windows_1252(bytes: &[u8]) -> (r: String)
    ensures
        r@ == windows_1252_decoded(bytes@),
        !starts_with_bom(bytes@) ==> r@.len() == bytes@.len(),
        !starts_with_bom(bytes@) ==> forall|i: int|
            0 <= i < bytes@.len() && (bytes@[i] < 0x80 || bytes@[i] >= 0xA0) ==> #[trigger] r@[i]
                == (bytes@[i] as char),
{
    let (text, _, _) = encoding_rs::WINDOWS_1252.decode(bytes);
    text.into_owned()
}

/// `text` with each `"\r\n"` replaced by `"\n"`.
pub fn normalize_line_endings(text: &str) -> (r: String)
    ensures
        r@ == replaced(text@, seq!['\r', '\n'], seq!['\n']),
{
    let crlf = "\r\n";
    let lf = "\n";
    proof {
        reveal_strlit("\r\n");
        reveal_strlit("\n");
        assert(crlf@ =~= seq!['\r', '\n']);
        assert(lf@ =~= seq!['\n']);
    }
    replace_all(text, crlf, lf)
}

/// The text of a downloaded report: its bytes decoded as windows-1252,
/// then its line endings normalised.
pub fn report_text(bytes: &[u8]) -> (r: String)
    ensures
        r@ == replaced(windows_1252_decoded(bytes@), seq!['\r', '\n'], seq!['\n']),
{
    let decoded = decode_windows_1252(bytes);
    normalize_line_endings(decoded.as_str())
}

pub open spec fn dash_for_slash(c: char) -> char {
    if c == '/' { '-' } else { c }
}

proof fn lemma_replace_one_char(s: Seq<char>, a: char, b: char)
    ensures
        replaced(s, seq![a], seq![b]) == s.map_values(|c: char| if c == a { b } else { c }),
    decreases s.len(),
{
    if s.len() > 0 {
        let rest = s.subrange(1, s.len() as int);
        lemma_replace_one_char(rest, a, b);
        if s[0] == a {
            assert(s.subrange(0, 1) =~= seq![a]);
        } else {
            assert(s.subrange(0, 1) != seq![a]) by {
                assert(s.subrange(0, 1)[0] != seq![a][0]);
            }
        }
        assert(replaced(s, seq![a], seq![b]) =~= s.map_values(
            |c: char| if c == a { b } else { c },
        ));
    } else {
        assert(s.map_values(|c: char| if c == a { b } else { c }) =~= s);
    }
}

/// A file name for a report named `s`: each `/` becomes `-`.
pub fn sanitize(s: &str) -> (r: String)
    ensures
        r@ == replaced(s@, seq!['/'], seq!['-']),
        r@.len() == s@.len(),
        forall|i: int| 0 <= i < r@.len() ==> r@[i] == dash_for_slash(#[trigger] s@[i]),
{
    let slash = "/";
    let dash = "-";
    proof {
        reveal_strlit("/");
        reveal_strlit("-");
        assert(slash@ =~= seq!['/']);
        assert(dash@ =~= seq!['-']);
        lemma_replace_one_char(s@, '/', '-');
    }
    replace_all(s, slash, dash)
}

/// Whether a report needs downloading: always for the reports of the
/// running periods, whose locator names `NOAA`, otherwise only when no
/// copy is stored yet.
pub fn needs_download(locator: &str, already_stored: bool) -> (r: bool)
    ensures
        r == (occurs_in(seq!['N', 'O', 'A', 'A'], locator@) || !already_stored),
{
    let current = "NOAA";
    proof {
        reveal_strlit("NOAA");
        assert(current@ =~= seq!['N', 'O', 'A', 'A']);
    }
    contains_str(locator, current) || !already_stored
}

} // verus!
