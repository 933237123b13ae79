//! Fuzzy semantic-version resolution.
//!
//! A version string is first parsed strictly; if that fails and the text
//! begins with `v`, the prefix is stripped and the parse retried; any further
//! failure is an `InvalidVersion` error. Versions are ordered by semantic
//! version precedence: numeric triple first, then pre-release identifiers,
//! with build metadata ignored.
use vstd::prelude::*;
use vstd::string::StrSliceExecFns;
use vstd::string::StringExecFns;

use crate::error::BinmanError;
use crate::error::BinmanResult;
use crate::error::Cause;
use crate::text::concat2;
use crate::text::spec_split;
use crate::text::split_string;
use crate::text::strings_equal;

verus! {

/// The mathematical value of a version: the numeric triple plus the raw
/// pre-release and build-metadata texts.
pub struct VersionView {
    pub major: int,
    pub minor: int,
    pub patch: int,
    pub pre: Seq<char>,
    pub build: Seq<char>,
}

/// A semantic version: `major.minor.patch`, optionally with a pre-release
/// (`-` part) and build metadata (`+` part), both empty when absent.
#[derive(Debug)]
pub struct Version {
    pub major: u64,
    pub minor: u64,
    pub patch: u64,
    pub pre: String,
    pub build: String,
}

impl View for Version {
    type V = VersionView;

    open spec fn view(&self) -> VersionView {
        VersionView {
            major: self.major as int,
            minor: self.minor as int,
            patch: self.patch as int,
            pre: self.pre@,
            build: self.build@,
        }
    }
}

impl Clone for Version {
    fn clone(&self) -> (r: Self)
        ensures
            r@ == self@,
    {
        Version {
            major: self.major,
            minor: self.minor,
            patch: self.patch,
            pre: self.pre.clone(),
            build: self.build.clone(),
        }
    }
}

impl PartialEq for Version {
    fn eq(&self, other: &Version) -> (r: bool) {
        let num_eq = self.major == other.major && self.minor == other.minor && self.patch
            == other.patch;
        let r = num_eq && strings_equal(self.pre.as_str(), other.pre.as_str()) && strings_equal(
            self.build.as_str(),
            other.build.as_str(),
        );
        proof {
            if r {
                assert(self@ == other@);
            } else {
                assert(self@ != other@);
            }
        }
        r
    }
}

impl vstd::std_specs::cmp::PartialEqSpecImpl for Version {
    open spec fn obeys_eq_spec() -> bool {
        true
    }

    open spec fn eq_spec(&self, other: &Version) -> bool {
        self@ == other@
    }
}

impl Version {
    /// A version with the given numeric triple and no pre-release or build
    /// metadata.
    pub fn new(major: u64, minor: u64, patch: u64) -> (r: Version)
        ensures
            r@.major == major,
            r@.minor == minor,
            r@.patch == patch,
            r@.pre.len() == 0,
            r@.build.len() == 0,
    {
        Version { major, minor, patch, pre: String::new(), build: String::new() }
    }
}

/// Whether `c` is an ASCII decimal digit.
pub open spec fn is_ascii_digit(c: char) -> bool {
    ('0' as u32) <= (c as u32) && (c as u32) <= ('9' as u32)
}

/// The result of the strict semantic-version parse, named but not defined:
/// the grammar is the parser's.
pub uninterp spec fn semver_parse_unchecked(s: Seq<char>) -> Option<VersionView>;

/// The strict parse: a semantic version always begins with the first digit
/// of its major number, so text that does not cannot parse.
pub open spec fn spec_strict_parse(s: Seq<char>) -> Option<VersionView> {
    if s.len() > 0 && is_ascii_digit(s[0]) {
        semver_parse_unchecked(s)
    } else {
        None
    }
}

/// What fuzzy resolution yields: the strict parse if it succeeds, else the
/// strict parse of the text after a leading `v`, else nothing.
pub open spec fn spec_resolve(s: Seq<char>) -> Option<VersionView> {
    if spec_strict_parse(s) is Some {
        spec_strict_parse(s)
    } else if s.len() > 0 && s[0] == 'v' {
        spec_strict_parse(s.skip(1))
    } else {
        None
    }
}

/// Relies on `semver::Version::parse`: the strict parse of a semantic
/// version. Its result is a function of the text alone; a text whose first
/// character is not an ASCII digit never parses, because the grammar starts
/// with the numeric major version.
#[verifier::external_body]
fn strict_parse(text: &str) -> (r: Option<Version>)
    ensures
        match r {
            Some(v) => semver_parse_unchecked(text@) == Some(v@) && text@.len() > 0
                && is_ascii_digit(text@[0]),
            None => spec_strict_parse(text@) is None,
        },
{
    match semver::Version::parse(text) {
        Ok(v) => Some(
            Version {
                major: v.major,
                minor: v.minor,
                patch: v.patch,
                pre: String::from(v.pre.as_str()),
                build: String::from(v.build.as_str()),
            },
        ),
        Err(_) => None,
    }
}

/// The text with its first character removed, or nothing when empty.
pub fn trim_first_char(s: &str) -> (r: Option<&str>)
    ensures
        match r {
            Some(t) => s@.len() > 0 && t@ == s@.skip(1),
            None => s@.len() == 0,
        },
{
    let len = s.unicode_len();
    if len == 0 {
        None
    } else {
        let t = s.substring_char(1, len);
        proof {
            assert(t@ =~= s@.skip(1));
        }
        Some(t)
    }
}

/// Resolves a loosely-formatted version string: strict parse first, then a
/// retry without a single leading `v`; anything else is `InvalidVersion`.
pub fn parse_version_fuzzy(version: &str) -> (r: BinmanResult<Version>)
    ensures
        match r {
            Ok(v) => spec_resolve(version@) == Some(v@),
            Err(e) => spec_resolve(version@) is None && e.cause == Cause::InvalidVersion,
        },
{
    match strict_parse(version) {
        Some(v) => Ok(v),
        None => {
            let len = version.unicode_len();
            if len > 0 && version.get_char(0) == 'v' {
                match trim_first_char(version) {
                    Some(rest) => {
                        match strict_parse(rest) {
                            Some(v) => Ok(v),
                            None => Err(
                                BinmanError::new(
                                    Cause::InvalidVersion,
                                    "could not parse version string",
                                ),
                            ),
                        }
                    },
                    None => Err(
                        BinmanError::new(Cause::InvalidVersion, "could not parse version string"),
                    ),
                }
            } else {
                Err(BinmanError::new(Cause::InvalidVersion, "could not parse version string"))
            }
        },
    }
}

/// A version string that strict-parses resolves to the same version with a
/// `v` prefix as without: the prefixed text itself can never strict-parse,
/// so resolution always strips the prefix.
pub proof fn lemma_resolve_ignores_v_prefix(v: Seq<char>)
    requires
        spec_strict_parse(v) is Some,
    ensures
        spec_resolve(seq!['v'] + v) == spec_resolve(v),
{
    let s = seq!['v'] + v;
    assert(s[0] == 'v');
    assert(!is_ascii_digit('v'));
    assert(spec_strict_parse(s) is None);
    assert(s.skip(1) =~= v);
}

/// A malformed version string that does not begin with `v` never resolves.
pub proof fn lemma_malformed_version_rejected(s: Seq<char>)
    requires
        spec_strict_parse(s) is None,
        s.len() == 0 || s[0] != 'v',
    ensures
        spec_resolve(s) is None,
{
}

/// A pre-release identifier made only of digits, compared numerically.
pub open spec fn spec_ident_is_numeric(s: Seq<char>) -> bool {
    forall|i: int| 0 <= i < s.len() ==> is_ascii_digit(#[trigger] s[i])
}

/// Lexical (code-point) order on character sequences, a proper prefix
/// ordering before anything longer.
pub open spec fn spec_lex_lt(a: Seq<char>, b: Seq<char>) -> bool
    decreases a.len(),
{
    if b.len() == 0 {
        false
    } else if a.len() == 0 {
        true
    } else if (a[0] as u32) < (b[0] as u32) {
        true
    } else if (b[0] as u32) < (a[0] as u32) {
        false
    } else {
        spec_lex_lt(a.skip(1), b.skip(1))
    }
}

/// Numeric order on digit strings: a shorter digit string is the smaller
/// number, equal lengths compare lexically.
pub open spec fn spec_num_lt(a: Seq<char>, b: Seq<char>) -> bool {
    a.len() < b.len() || (a.len() == b.len() && spec_lex_lt(a, b))
}

/// Order on single pre-release identifiers: numeric identifiers compare
/// numerically and come before alphanumeric ones, which compare lexically.
pub open spec fn spec_ident_lt(a: Seq<char>, b: Seq<char>) -> bool {
    if spec_ident_is_numeric(a) && spec_ident_is_numeric(b) {
        spec_num_lt(a, b)
    } else if spec_ident_is_numeric(a) {
        true
    } else if spec_ident_is_numeric(b) {
        false
    } else {
        spec_lex_lt(a, b)
    }
}

/// Order on identifier lists: pointwise, a strict prefix coming first.
pub open spec fn spec_ident_list_lt(a: Seq<Seq<char>>, b: Seq<Seq<char>>) -> bool
    decreases a.len(),
{
    if b.len() == 0 {
        false
    } else if a.len() == 0 {
        true
    } else if spec_ident_lt(a[0], b[0]) {
        true
    } else if spec_ident_lt(b[0], a[0]) {
        false
    } else {
        spec_ident_list_lt(a.skip(1), b.skip(1))
    }
}

/// Order on pre-release texts: a version with a pre-release precedes the
/// same version without one; two pre-releases compare by their
/// dot-separated identifier lists.
pub open spec fn spec_pre_lt(a: Seq<char>, b: Seq<char>) -> bool {
    if a.len() == 0 {
        false
    } else if b.len() == 0 {
        true
    } else {
        spec_ident_list_lt(spec_split(a, '.'), spec_split(b, '.'))
    }
}

/// Semantic-version precedence: the numeric triple, then the pre-release
/// rules; build metadata never participates.
pub open spec fn spec_version_lt(a: VersionView, b: VersionView) -> bool {
    if a.major != b.major {
        a.major < b.major
    } else if a.minor != b.minor {
        a.minor < b.minor
    } else if a.patch != b.patch {
        a.patch < b.patch
    } else {
        spec_pre_lt(a.pre, b.pre)
    }
}

/// Whether every character of `s` is an ASCII digit.
fn ident_is_numeric(s: &str) -> (r: bool)
    ensures
        r == spec_ident_is_numeric(s@),
{
    let len = s.unicode_len();
    let mut i: usize = 0;
    while i < len
        invariant
            len == s@.len(),
            i <= len,
            forall|j: int| 0 <= j < i ==> is_ascii_digit(#[trigger] s@[j]),
        decreases len - i,
    {
        let c = s.get_char(i);
        let u = c as u32;
        if u < 48 || u > 57 {
            assert(!is_ascii_digit(s@[i as int]));
            return false;
        }
        assert(is_ascii_digit(s@[i as int]));
        i = i + 1;
    }
    true
}

/// Compares two texts lexically by code point.
fn lex_lt(a: &str, b: &str) -> (r: bool)
    ensures
        r == spec_lex_lt(a@, b@),
{
    let alen = a.unicode_len();
    let blen = b.unicode_len();
    let min = if alen < blen {
        alen
    } else {
        blen
    };
    let mut i: usize = 0;
    proof {
        assert(a@.skip(0) =~= a@);
        assert(b@.skip(0) =~= b@);
    }
    while i < min
        invariant
            alen == a@.len(),
            blen == b@.len(),
            min == if alen < blen {
                alen
            } else {
                blen
            },
            i <= min,
            spec_lex_lt(a@, b@) == spec_lex_lt(a@.skip(i as int), b@.skip(i as int)),
        decreases min - i,
    {
        let ca = a.get_char(i);
        let cb = b.get_char(i);
        proof {
            assert(a@.skip(i as int)[0] == a@[i as int]);
            assert(b@.skip(i as int)[0] == b@[i as int]);
        }
        if (ca as u32) < (cb as u32) {
            assert(spec_lex_lt(a@.skip(i as int), b@.skip(i as int)));
            return true;
        }
        if (cb as u32) < (ca as u32) {
            assert(!spec_lex_lt(a@.skip(i as int), b@.skip(i as int)));
            return false;
        }
        proof {
            assert(a@.skip(i as int).skip(1) =~= a@.skip(i + 1));
            assert(b@.skip(i as int).skip(1) =~= b@.skip(i + 1));
        }
        i = i + 1;
    }
    proof {
        assert(a@.skip(i as int).len() == alen - i);
        assert(b@.skip(i as int).len() == blen - i);
    }
    alen < blen
}

/// Compares two single pre-release identifiers.
fn ident_lt(a: &str, b: &str) -> (r: bool)
    ensures
        r == spec_ident_lt(a@, b@),
{
    let a_num = ident_is_numeric(a);
    let b_num = ident_is_numeric(b);
    if a_num && b_num {
        let alen = a.unicode_len();
        let blen = b.unicode_len();
        if alen < blen {
            true
        } else if alen == blen {
            lex_lt(a, b)
        } else {
            false
        }
    } else if a_num {
        true
    } else if b_num {
        false
    } else {
        lex_lt(a, b)
    }
}

/// Compares two dot-separated identifier lists pointwise.
fn ident_list_lt(a: &Vec<String>, b: &Vec<String>) -> (r: bool)
    ensures
        r == spec_ident_list_lt(a.deep_view(), b.deep_view()),
{
    let alen = a.len();
    let blen = b.len();
    let min = if alen < blen {
        alen
    } else {
        blen
    };
    let mut i: usize = 0;
    proof {
        assert(a.deep_view().skip(0) =~= a.deep_view());
        assert(b.deep_view().skip(0) =~= b.deep_view());
    }
    while i < min
        invariant
            alen == a@.len(),
            blen == b@.len(),
            a.deep_view().len() == alen,
            b.deep_view().len() == blen,
            min == if alen < blen {
                alen
            } else {
                blen
            },
            i <= min,
            spec_ident_list_lt(a.deep_view(), b.deep_view()) == spec_ident_list_lt(
                a.deep_view().skip(i as int),
                b.deep_view().skip(i as int),
            ),
        decreases min - i,
    {
        proof {
            assert(a.deep_view().skip(i as int)[0] == a.deep_view()[i as int]);
            assert(b.deep_view().skip(i as int)[0] == b.deep_view()[i as int]);
            assert(a.deep_view()[i as int] == a@[i as int]@);
            assert(b.deep_view()[i as int] == b@[i as int]@);
        }
        if ident_lt(a[i].as_str(), b[i].as_str()) {
            assert(spec_ident_list_lt(a.deep_view().skip(i as int), b.deep_view().skip(i as int)));
            return true;
        }
        if ident_lt(b[i].as_str(), a[i].as_str()) {
            assert(!spec_ident_list_lt(a.deep_view().skip(i as int), b.deep_view().skip(i as int)));
            return false;
        }
        proof {
            assert(a.deep_view().skip(i as int).skip(1) =~= a.deep_view().skip(i + 1));
            assert(b.deep_view().skip(i as int).skip(1) =~= b.deep_view().skip(i + 1));
        }
        i = i + 1;
    }
    proof {
        assert(a.deep_view().skip(i as int).len() == alen - i);
        assert(b.deep_view().skip(i as int).len() == blen - i);
    }
    alen < blen
}

/// Compares two pre-release texts.
fn pre_lt(a: &str, b: &str) -> (r: bool)
    ensures
        r == spec_pre_lt(a@, b@),
{
    let alen = a.unicode_len();
    let blen = b.unicode_len();
    if alen == 0 {
        false
    } else if blen == 0 {
        true
    } else {
        let a_ids = split_string(a, '.');
        let b_ids = split_string(b, '.');
        proof {
            assert(a_ids.deep_view() =~= spec_split(a@, '.'));
            assert(b_ids.deep_view() =~= spec_split(b@, '.'));
        }
        ident_list_lt(&a_ids, &b_ids)
    }
}

impl Version {
    /// Whether `self` strictly precedes `other` in semantic-version order.
    pub fn precedes(&self, other: &Version) -> (r: bool)
        ensures
            r == spec_version_lt(self@, other@),
    {
        if self.major != other.major {
            self.major < other.major
        } else if self.minor != other.minor {
            self.minor < other.minor
        } else if self.patch != other.patch {
            self.patch < other.patch
        } else {
            pre_lt(self.pre.as_str(), other.pre.as_str())
        }
    }
}

/// The character for a single decimal digit.
pub open spec fn spec_digit_char(d: int) -> char {
    if d == 0 {
        '0'
    } else if d == 1 {
        '1'
    } else if d == 2 {
        '2'
    } else if d == 3 {
        '3'
    } else if d == 4 {
        '4'
    } else if d == 5 {
        '5'
    } else if d == 6 {
        '6'
    } else if d == 7 {
        '7'
    } else if d == 8 {
        '8'
    } else {
        '9'
    }
}

/// The decimal rendering of a non-negative integer.
pub open spec fn spec_dec(n: int) -> Seq<char>
    decreases n,
{
    if n < 10 {
        seq![spec_digit_char(n)]
    } else {
        spec_dec(n / 10).push(spec_digit_char(n % 10))
    }
}

/// One decimal digit as text.
fn digit_str(d: u64) -> (r: &'static str)
    requires
        d < 10,
    ensures
        r@ == seq![spec_digit_char(d as int)],
{
    let r: &'static str = if d == 0 {
        "0"
    } else if d == 1 {
        "1"
    } else if d == 2 {
        "2"
    } else if d == 3 {
        "3"
    } else if d == 4 {
        "4"
    } else if d == 5 {
        "5"
    } else if d == 6 {
        "6"
    } else if d == 7 {
        "7"
    } else if d == 8 {
        "8"
    } else {
        "9"
    };
    proof {
        reveal_strlit("0");
        reveal_strlit("1");
        reveal_strlit("2");
        reveal_strlit("3");
        reveal_strlit("4");
        reveal_strlit("5");
        reveal_strlit("6");
        reveal_strlit("7");
        reveal_strlit("8");
        reveal_strlit("9");
        assert(r@ =~= seq![spec_digit_char(d as int)]);
    }
    r
}

/// Renders an integer in decimal.
pub fn u64_to_string(n: u64) -> (r: String)
    ensures
        r@ == spec_dec(n as int),
    decreases n,
{
    if n < 10 {
        let s = digit_str(n);
        let mut out = String::new();
        out.append(s);
        proof {
            assert(out@ =~= spec_dec(n as int));
        }
        out
    } else {
        let rest = u64_to_string(n / 10);
        let last = digit_str(n % 10);
        let out = concat2(rest.as_str(), last);
        proof {
            assert(out@ =~= spec_dec(n as int));
        }
        out
    }
}

/// The canonical text of a version: the dotted numeric triple, `-` and the
/// pre-release when present, `+` and the build metadata when present.
pub open spec fn spec_render(v: VersionView) -> Seq<char> {
    spec_dec(v.major) + seq!['.'] + spec_dec(v.minor) + seq!['.'] + spec_dec(v.patch) + (if v.pre.len()
        > 0 {
        seq!['-'] + v.pre
    } else {
        Seq::<char>::empty()
    }) + (if v.build.len() > 0 {
        seq!['+'] + v.build
    } else {
        Seq::<char>::empty()
    })
}

impl Version {
    /// The canonical text of this version.
    pub fn render(&self) -> (r: String)
        ensures
            r@ == spec_render(self@),
    {
        let mut out = u64_to_string(self.major);
        out.append(".");
        let minor = u64_to_string(self.minor);
        out.append(minor.as_str());
        out.append(".");
        let patch = u64_to_string(self.patch);
        out.append(patch.as_str());
        if self.pre.unicode_len() > 0 {
            out.append("-");
            out.append(self.pre.as_str());
        }
        if self.build.unicode_len() > 0 {
            out.append("+");
            out.append(self.build.as_str());
        }
        proof {
            reveal_strlit(".");
            reveal_strlit("-");
            reveal_strlit("+");
            assert(out@ =~= spec_render(self@));
        }
        out
    }
}

} // verus!
