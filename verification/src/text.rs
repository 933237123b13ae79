//! Verified helpers over strings: equality, character search, substring
//! search and splitting. All contracts are stated over the `Seq<char>` views.
use vstd::prelude::*;
use vstd::string::StrSliceExecFns;
use vstd::string::StringExecFns;

verus! {

/// True when `sub` occurs contiguously inside `s`.
pub open spec fn spec_contains_sub(s: Seq<char>, sub: Seq<char>) -> bool {
    exists|i: int|
        0 <= i && i + sub.len() <= s.len() && #[trigger] s.subrange(i, i + sub.len()) == sub
}

/// The pieces of `s` cut at every occurrence of `sep`, in order; a string
/// without the separator is a single piece.
pub open spec fn spec_split(s: Seq<char>, sep: char) -> Seq<Seq<char>>
    decreases s.len(),
    via spec_split_decreases
{
    match s.index_of_first(sep) {
        Some(i) => seq![s.subrange(0, i)] + spec_split(s.subrange(i + 1, s.len() as int), sep),
        None => seq![s],
    }
}

#[via_fn]
proof fn spec_split_decreases(s: Seq<char>, sep: char) {
    s.index_of_first_ensures(sep);
}

/// Splitting yields at least one piece.
pub proof fn lemma_spec_split_len(s: Seq<char>, sep: char)
    ensures
        spec_split(s, sep).len() >= 1,
    decreases s.len(),
{
    s.index_of_first_ensures(sep);
    match s.index_of_first(sep) {
        Some(i) => {
            lemma_spec_split_len(s.subrange(i + 1, s.len() as int), sep);
        },
        None => {},
    }
}

/// Compares two strings character by character.
pub fn strings_equal(a: &str, b: &str) -> (r: bool)
    ensures
        r == (a@ == b@),
{
    let alen = a.unicode_len();
    let blen = b.unicode_len();
    if alen != blen {
        return false;
    }
    let mut i: usize = 0;
    while i < alen
        invariant
            alen == a@.len(),
            blen == b@.len(),
            alen == blen,
            i <= alen,
            forall|j: int| 0 <= j < i ==> a@[j] == b@[j],
        decreases alen - i,
    {
        if a.get_char(i) != b.get_char(i) {
            return false;
        }
        i = i + 1;
    }
    proof {
        assert(a@ =~= b@);
    }
    true
}

/// The index of the first occurrence of `c` in `s`, if any.
pub fn find_first_char(s: &str, c: char) -> (r: Option<usize>)
    ensures
        match r {
            Some(i) => s@.index_of_first(c) == Some(i as int),
            None => s@.index_of_first(c) is None,
        },
{
    let len = s.unicode_len();
    let mut i: usize = 0;
    while i < len
        invariant
            len == s@.len(),
            i <= len,
            forall|j: int| 0 <= j < i ==> s@[j] != c,
        decreases len - i,
    {
        if s.get_char(i) == c {
            proof {
                s@.index_of_first_ensures(c);
            }
            return Some(i);
        }
        i = i + 1;
    }
    proof {
        s@.index_of_first_ensures(c);
        match s@.index_of_first(c) {
            Some(k) => {
                assert(s@[k] != c);
            },
            None => {},
        }
    }
    None
}

/// The index of the last occurrence of `c` in `s`, if any.
pub fn find_last_char(s: &str, c: char) -> (r: Option<usize>)
    ensures
        match r {
            Some(i) => s@.index_of_last(c) == Some(i as int),
            None => s@.index_of_last(c) is None,
        },
{
    let len = s.unicode_len();
    let mut i: usize = len;
    while i > 0
        invariant
            len == s@.len(),
            i <= len,
            forall|j: int| i <= j < len ==> s@[j] != c,
        decreases i,
    {
        i = i - 1;
        if s.get_char(i) == c {
            proof {
                s@.index_of_last_ensures(c);
            }
            return Some(i);
        }
    }
    proof {
        s@.index_of_last_ensures(c);
        match s@.index_of_last(c) {
            Some(k) => {
                assert(s@[k] != c);
            },
            None => {},
        }
    }
    None
}

/// Whether `c` occurs in `s`.
pub fn contains_char(s: &str, c: char) -> (r: bool)
    ensures
        r == s@.contains(c),
{
    let found = find_first_char(s, c);
    proof {
        s@.index_of_first_ensures(c);
    }
    match found {
        Some(_) => true,
        None => false,
    }
}

/// Whether `sub` occurs contiguously inside `s`.
pub fn contains_substring(s: &str, sub: &str) -> (r: bool)
    ensures
        r == spec_contains_sub(s@, sub@),
{
    let slen = s.unicode_len();
    let sublen = sub.unicode_len();
    if sublen > slen {
        proof {
            if spec_contains_sub(s@, sub@) {
                let i = choose|i: int|
                    0 <= i && i + sub@.len() <= s@.len() && #[trigger] s@.subrange(i, i + sub@.len()) == sub@;
            }
        }
        return false;
    }
    if sublen == 0 {
        proof {
            assert(spec_contains_sub(s@, sub@)) by {
                assert(s@.subrange(0, 0 + sub@.len() as int) =~= sub@);
            }
        }
        return true;
    }
    let limit: usize = slen - sublen;
    let mut i: usize = 0;
    while i <= limit
        invariant
            slen == s@.len(),
            sublen == sub@.len(),
            0 < sublen <= slen,
            limit == slen - sublen,
            i <= limit + 1,
            forall|k: int|
                0 <= k < i ==> #[trigger] s@.subrange(k, k + sub@.len()) != sub@,
        decreases slen - i,
    {
        let mut j: usize = 0;
        let mut matched = true;
        while j < sublen
            invariant
                slen == s@.len(),
                sublen == sub@.len(),
                sublen <= slen,
                i + sublen <= slen,
                j <= sublen,
                matched ==> forall|t: int| 0 <= t < j ==> s@[i + t] == sub@[t],
                !matched ==> s@.subrange(i as int, i + sub@.len()) != sub@,
            decreases sublen - j,
        {
            if s.get_char(i + j) != sub.get_char(j) {
                proof {
                    assert(s@.subrange(i as int, i + sub@.len())[j as int] == s@[i + j]);
                }
                matched = false;
                j = sublen;
            } else {
                j = j + 1;
            }
        }
        if matched {
            proof {
                assert(s@.subrange(i as int, i + sub@.len()) =~= sub@);
            }
            return true;
        }
        i = i + 1;
    }
    proof {
        if spec_contains_sub(s@, sub@) {
            let k = choose|k: int|
                0 <= k && k + sub@.len() <= s@.len() && #[trigger] s@.subrange(k, k + sub@.len()) == sub@;
            assert(k < i);
        }
    }
    false
}

/// Splits `s` at every occurrence of `sep`.
pub fn split_string(s: &str, sep: char) -> (r: Vec<String>)
    ensures
        r@.len() == spec_split(s@, sep).len(),
        forall|k: int| 0 <= k < r@.len() ==> r@[k]@ == #[trigger] spec_split(s@, sep)[k],
{
    let mut rest: &str = s;
    let mut out: Vec<String> = Vec::new();
    let ghost whole = s@;
    proof {
        assert(spec_split(whole, sep).skip(0) =~= spec_split(whole, sep));
    }
    loop
        invariant
            whole == s@,
            out@.len() <= spec_split(whole, sep).len(),
            spec_split(whole, sep).skip(out@.len() as int) == spec_split(rest@, sep),
            forall|k: int|
                0 <= k < out@.len() ==> out@[k]@ == #[trigger] spec_split(whole, sep)[k],
        decreases rest@.len() + 1,
    {
        proof {
            lemma_spec_split_len(rest@, sep);
        }
        let ghost done = out@.len() as int;
        match find_first_char(rest, sep) {
            Some(i) => {
                proof {
                    rest@.index_of_first_ensures(sep);
                }
                let piece = rest.substring_char(0, i);
                let len = rest.unicode_len();
                let next = rest.substring_char(i + 1, len);
                let ghost pieces = spec_split(rest@, sep);
                let ghost tail_pieces = spec_split(
                    rest@.subrange(i + 1, rest@.len() as int),
                    sep,
                );
                proof {
                    assert(pieces == seq![rest@.subrange(0, i as int)] + tail_pieces);
                    assert(spec_split(whole, sep)[done] == pieces[0]) by {
                        assert(spec_split(whole, sep).skip(done)[0] == spec_split(whole, sep)[done]);
                    }
                    assert(pieces[0] == rest@.subrange(0, i as int));
                    assert(spec_split(whole, sep).skip(done + 1) =~= tail_pieces) by {
                        assert forall|j: int| 0 <= j < tail_pieces.len() implies spec_split(
                            whole,
                            sep,
                        ).skip(done + 1)[j] == tail_pieces[j] by {
                            assert(spec_split(whole, sep).skip(done)[1 + j] == spec_split(
                                whole,
                                sep,
                            )[done + 1 + j]);
                            assert(pieces[1 + j] == tail_pieces[j]);
                        }
                    }
                }
                out.push(piece.to_owned());
                rest = next;
            },
            None => {
                proof {
                    rest@.index_of_first_ensures(sep);
                    assert(spec_split(rest@, sep) == seq![rest@]);
                    assert(spec_split(whole, sep)[done] == rest@) by {
                        assert(spec_split(whole, sep).skip(done)[0] == spec_split(whole, sep)[done]);
                    }
                }
                let owned = rest.to_owned();
                out.push(owned);
                proof {
                    assert(spec_split(whole, sep).skip(done).len() == 1);
                    assert(out@.len() == spec_split(whole, sep).len());
                    assert forall|k: int| 0 <= k < out@.len() implies out@[k]@ == #[trigger] spec_split(
                        whole,
                        sep,
                    )[k] by {
                        if k == done {
                            assert(out@[k]@ == rest@);
                        }
                    }
                }
                return out;
            },
        }
    }
}

/// Concatenates two strings.
pub fn concat2(a: &str, b: &str) -> (r: String)
    ensures
        r@ == a@ + b@,
{
    let mut out = a.to_owned();
    out.append(b);
    out
}

/// Concatenates three strings.
pub fn concat3(a: &str, b: &str, c: &str) -> (r: String)
    ensures
        r@ == a@ + b@ + c@,
{
    let mut out = a.to_owned();
    out.append(b);
    out.append(c);
    out
}

} // verus!
