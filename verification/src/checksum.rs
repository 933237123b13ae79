//! Checksum-manifest verification.
//!
//! A manifest is a small text pairing a lower-case hex digest with a target
//! file name, `<digest>  <name>`: its first whitespace-separated token is
//! the expected digest, its last the target name. Verification computes
//! the target's SHA-256 digest and compares the hex texts.
use vstd::prelude::*;
use vstd::string::StrSliceExecFns;
use vstd::string::StringExecFns;

use crate::error::BinmanError;
use crate::error::BinmanResult;
use crate::error::Cause;
use crate::text::strings_equal;

verus! {

/// Whether `c` is ASCII whitespace: space, tab, newline, form feed or
/// carriage return.
pub open spec fn spec_is_space(c: char) -> bool {
    c == ' ' || c == '\t' || c == '\n' || c == '\u{c}' || c == '\r'
}

/// The length of the leading run of non-whitespace characters.
pub open spec fn spec_run_len(s: Seq<char>) -> int
    decreases s.len(),
{
    if s.len() == 0 {
        0
    } else if spec_is_space(s[0]) {
        0
    } else {
        1 + spec_run_len(s.skip(1))
    }
}

/// The leading run is never longer than the text, and is non-empty exactly
/// when the text starts with a non-whitespace character.
pub proof fn lemma_run_len_bounds(s: Seq<char>)
    ensures
        0 <= spec_run_len(s) <= s.len(),
        s.len() > 0 && !spec_is_space(s[0]) ==> spec_run_len(s) >= 1,
    decreases s.len(),
{
    if s.len() > 0 && !spec_is_space(s[0]) {
        lemma_run_len_bounds(s.skip(1));
    }
}

/// The whitespace-separated tokens of the text, in order.
pub open spec fn spec_tokens(s: Seq<char>) -> Seq<Seq<char>>
    decreases s.len(),
    via spec_tokens_decreases
{
    if s.len() == 0 {
        Seq::empty()
    } else if spec_is_space(s[0]) {
        spec_tokens(s.skip(1))
    } else {
        seq![s.take(spec_run_len(s))] + spec_tokens(s.skip(spec_run_len(s)))
    }
}

#[via_fn]
proof fn spec_tokens_decreases(s: Seq<char>) {
    lemma_run_len_bounds(s);
}

/// Whether `c` is ASCII whitespace.
fn is_space_char(c: char) -> (r: bool)
    ensures
        r == spec_is_space(c),
{
    c == ' ' || c == '\t' || c == '\n' || c == '\u{c}' || c == '\r'
}

/// The length of the leading run of non-whitespace characters.
fn token_run_len(s: &str) -> (r: usize)
    ensures
        r as int == spec_run_len(s@),
    decreases s@.len(),
{
    let len = s.unicode_len();
    if len == 0 {
        0
    } else if is_space_char(s.get_char(0)) {
        0
    } else {
        let rest = s.substring_char(1, len);
        proof {
            assert(rest@ =~= s@.skip(1));
            lemma_run_len_bounds(s@.skip(1));
        }
        1 + token_run_len(rest)
    }
}

/// The whitespace-separated tokens of the text.
fn scan_tokens(s: &str) -> (r: Vec<String>)
    ensures
        r.deep_view() == spec_tokens(s@),
    decreases s@.len(),
{
    let len = s.unicode_len();
    if len == 0 {
        let out: Vec<String> = Vec::new();
        proof {
            assert(out.deep_view() =~= spec_tokens(s@));
        }
        out
    } else if is_space_char(s.get_char(0)) {
        let rest = s.substring_char(1, len);
        proof {
            assert(rest@ =~= s@.skip(1));
        }
        scan_tokens(rest)
    } else {
        let n = token_run_len(s);
        proof {
            lemma_run_len_bounds(s@);
        }
        let tok = s.substring_char(0, n);
        let rest = s.substring_char(n, len);
        let mut out = scan_tokens(rest);
        out.insert(0, tok.to_owned());
        proof {
            assert(tok@ =~= s@.take(spec_run_len(s@)));
            assert(rest@ =~= s@.skip(spec_run_len(s@)));
            assert(out.deep_view() =~= seq![s@.take(spec_run_len(s@))] + spec_tokens(
                s@.skip(spec_run_len(s@)),
            ));
        }
        out
    }
}

/// Parses a checksum manifest into its expected digest and target name:
/// the first and last whitespace-separated tokens. A manifest without any
/// token is invalid.
pub fn parse_checksum_manifest(raw: &str) -> (r: BinmanResult<(String, String)>)
    ensures
        match r {
            Ok(p) => spec_tokens(raw@).len() > 0 && p.0@ == spec_tokens(raw@)[0] && p.1@
                == spec_tokens(raw@).last(),
            Err(e) => spec_tokens(raw@).len() == 0 && e.cause == Cause::InvalidState,
        },
{
    let toks = scan_tokens(raw);
    let n = toks.len();
    proof {
        assert(toks.deep_view().len() == toks@.len());
    }
    if n == 0 {
        Err(BinmanError::new(Cause::InvalidState, "invalid checksum manifest format"))
    } else {
        let first = toks[0].clone();
        let last = toks[n - 1].clone();
        proof {
            assert(toks.deep_view()[0] == toks@[0]@);
            assert(toks.deep_view()[n - 1] == toks@[n - 1]@);
        }
        Ok((first, last))
    }
}

/// One lower-case hex digit.
pub open spec fn spec_hex_digit(n: u8) -> char {
    if n == 0 {
        '0'
    } else if n == 1 {
        '1'
    } else if n == 2 {
        '2'
    } else if n == 3 {
        '3'
    } else if n == 4 {
        '4'
    } else if n == 5 {
        '5'
    } else if n == 6 {
        '6'
    } else if n == 7 {
        '7'
    } else if n == 8 {
        '8'
    } else if n == 9 {
        '9'
    } else if n == 10 {
        'a'
    } else if n == 11 {
        'b'
    } else if n == 12 {
        'c'
    } else if n == 13 {
        'd'
    } else if n == 14 {
        'e'
    } else {
        'f'
    }
}

/// The lower-case hex text of a byte sequence: two digits per byte, high
/// nibble first.
pub open spec fn spec_hex_of(bytes: Seq<u8>) -> Seq<char> {
    Seq::new(
        (2 * bytes.len()) as nat,
        |i: int|
            if i % 2 == 0 {
                spec_hex_digit(bytes[i / 2] >> 4u8)
            } else {
                spec_hex_digit(bytes[i / 2] & 0xfu8)
            },
    )
}

/// One lower-case hex digit as text.
fn hex_digit_str(n: u8) -> (r: &'static str)
    requires
        n < 16,
    ensures
        r@ == seq![spec_hex_digit(n)],
{
    let r: &'static str = if n == 0 {
        "0"
    } else if n == 1 {
        "1"
    } else if n == 2 {
        "2"
    } else if n == 3 {
        "3"
    } else if n == 4 {
        "4"
    } else if n == 5 {
        "5"
    } else if n == 6 {
        "6"
    } else if n == 7 {
        "7"
    } else if n == 8 {
        "8"
    } else if n == 9 {
        "9"
    } else if n == 10 {
        "a"
    } else if n == 11 {
        "b"
    } else if n == 12 {
        "c"
    } else if n == 13 {
        "d"
    } else if n == 14 {
        "e"
    } else {
        "f"
    };
    proof {
        reveal_strlit("0");
        reveal_strlit("1");
        reveal_strlit("2");
        reveal_strlit("3");
        reveal_strlit("4");
        reveal_strlit("5");
        reveal_strlit("6");
        reveal_strlit("7");
        reveal_strlit("8");
        reveal_strlit("9");
        reveal_strlit("a");
        reveal_strlit("b");
        reveal_strlit("c");
        reveal_strlit("d");
        reveal_strlit("e");
        reveal_strlit("f");
        assert(r@ =~= seq![spec_hex_digit(n)]);
    }
    r
}

/// Renders bytes as lower-case hex, two digits per byte.
pub fn to_hex_lower(data: &Vec<u8>) -> (r: String)
    ensures
        r@ == spec_hex_of(data@),
{
    let mut out = String::new();
    let mut i: usize = 0;
    proof {
        assert(out@ =~= spec_hex_of(data@).take(0));
    }
    while i < data.len()
        invariant
            i <= data@.len(),
            out@ == spec_hex_of(data@).take(2 * i as int),
        decreases data@.len() - i,
    {
        let b = data[i];
        let hi = b >> 4u8;
        let lo = b & 0xfu8;
        proof {
            assert(b >> 4u8 < 16 && b & 0xfu8 < 16) by (bit_vector);
        }
        out.append(hex_digit_str(hi));
        out.append(hex_digit_str(lo));
        proof {
            assert(out@ =~= spec_hex_of(data@).take(2 * (i + 1)));
        }
        i = i + 1;
    }
    proof {
        assert(spec_hex_of(data@).take(2 * i as int) =~= spec_hex_of(data@));
    }
    out
}

/// The SHA-256 digest, named but not defined: a function of the data
/// alone.
pub uninterp spec fn spec_sha256(data: Seq<u8>) -> Seq<u8>;

/// Relies on `sha2::Sha256`: the SHA-256 digest of the data, always 32
/// bytes, depending on the data alone.
#[verifier::external_body]
pub fn sha256_digest(data: &Vec<u8>) -> (r: Vec<u8>)
    ensures
        r@ == spec_sha256(data@),
        r@.len() == 32,
{
    let digest = <sha2::Sha256 as sha2::Digest>::digest(data.as_slice());
    digest.to_vec()
}

/// Whether the expected hex text is exactly the hex of the data's SHA-256
/// digest.
pub fn check_digest(expected_hex: &str, data: &Vec<u8>) -> (r: bool)
    ensures
        r == (expected_hex@ == spec_hex_of(spec_sha256(data@))),
{
    let digest = sha256_digest(data);
    let hex = to_hex_lower(&digest);
    strings_equal(expected_hex, hex.as_str())
}

/// Verifies a checksum manifest against the target's data: on success the
/// target's name is returned (and the caller may delete the manifest); a
/// manifest without tokens or a digest mismatch is an error, and the
/// target is left alone.
pub fn verify_manifest(raw: &str, target_data: &Vec<u8>) -> (r: BinmanResult<String>)
    ensures
        match r {
            Ok(f) => spec_tokens(raw@).len() > 0 && f@ == spec_tokens(raw@).last() && spec_tokens(
                raw@,
            )[0] == spec_hex_of(spec_sha256(target_data@)),
            Err(e) => e.cause == Cause::InvalidState && (spec_tokens(raw@).len() == 0 || (
            spec_tokens(raw@).len() > 0 && spec_tokens(raw@)[0] != spec_hex_of(
                spec_sha256(target_data@),
            ))),
        },
{
    let parsed = parse_checksum_manifest(raw)?;
    let (expected, target_name) = parsed;
    if check_digest(expected.as_str(), target_data) {
        Ok(target_name)
    } else {
        Err(BinmanError::new(Cause::InvalidState, "checksum verification failed"))
    }
}

} // verus!
