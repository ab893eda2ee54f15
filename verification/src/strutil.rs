//! Verified string helpers: character-exact equality of string slices,
//! whitespace classification, and extraction of the first
//! whitespace-delimited token of a line.
use vstd::prelude::*;

verus! {

/// The whitespace characters recognised when splitting probe output lines
/// into tokens.
pub open spec fn is_space(c: char) -> bool {
    c == ' ' || c == '\t' || c == '\r' || c == '\n'
}

/// Executable counterpart of `is_space`.
#[verifier::when_used_as_spec(is_space)]
pub fn is_space_char(c: char) -> (r: bool)
    ensures
        r == is_space(c),
{
    c == ' ' || c == '\t' || c == '\r' || c == '\n'
}

/// Character-for-character equality of two string slices.
pub fn str_eq(a: &str, b: &str) -> (r: bool)
    ensures
        r == (a@ == b@),
{
    let alen = a.unicode_len();
    let blen = b.unicode_len();
    if alen != blen {
        proof {
            assert(a@ != b@) by {
                assert(a@.len() != b@.len());
            }
        }
        return false;
    }
    let mut i: usize = 0;
    while i < alen
        invariant
            alen == a@.len(),
            alen == b@.len(),
            i <= alen,
            forall|j: int| 0 <= j < i ==> a@[j] == b@[j],
        decreases alen - i,
    {
        if a.get_char(i) != b.get_char(i) {
            proof {
                assert(a@[i as int] != b@[i as int]);
            }
            return false;
        }
        i += 1;
    }
    proof {
        assert(a@ =~= b@);
    }
    true
}

/// `t` is the first maximal run of non-space characters of `s`, starting at
/// index `a` and ending just before index `b`. At most one `(a, b, t)`
/// satisfies this for a given `s`.
pub open spec fn token_at(s: Seq<char>, a: int, b: int, t: Seq<char>) -> bool {
    &&& 0 <= a < b <= s.len()
    &&& t == s.subrange(a, b)
    &&& forall|j: int| 0 <= j < a ==> is_space(s[j])
    &&& forall|j: int| a <= j < b ==> !is_space(s[j])
    &&& (b == s.len() || is_space(s[b]))
}

/// There is some token in `s`, i.e. `s` holds a non-space character.
pub open spec fn has_token(s: Seq<char>) -> bool {
    exists|j: int| 0 <= j < s.len() && !is_space(s[j])
}

/// `t` is the first whitespace-delimited token of `s`.
pub open spec fn is_first_token(s: Seq<char>, t: Seq<char>) -> bool {
    exists|a: int, b: int| token_at(s, a, b, t)
}

/// First whitespace-delimited token of `s`: `None` when every character of
/// `s` is whitespace, otherwise the maximal non-space run that starts at the
/// first non-space character.
pub fn first_token(s: &str) -> (r: Option<String>)
    ensures
        r is None ==> !has_token(s@),
        r matches Option::Some(t) ==> is_first_token(s@, t@),
{
    let len = s.unicode_len();
    let mut start: usize = 0;
    while start < len && is_space_char(s.get_char(start))
        invariant
            len == s@.len(),
            start <= len,
            forall|j: int| 0 <= j < start ==> is_space(s@[j]),
        decreases len - start,
    {
        start += 1;
    }
    if start == len {
        proof {
            assert(!has_token(s@)) by {
                assert forall|j: int| 0 <= j < s@.len() implies is_space(s@[j]) by {
                    assert(is_space(s@[j]));
                }
            }
        }
        return Option::None;
    }
    let mut end: usize = start + 1;
    while end < len && !is_space_char(s.get_char(end))
        invariant
            len == s@.len(),
            start < end <= len,
            forall|j: int| 0 <= j < start ==> is_space(s@[j]),
            !is_space(s@[start as int]),
            forall|j: int| start <= j < end ==> !is_space(s@[j]),
        decreases len - end,
    {
        end += 1;
    }
    let tok = s.substring_char(start, end);
    let t = tok.to_owned();
    proof {
        assert(token_at(s@, start as int, end as int, t@));
        assert(is_first_token(s@, t@));
    }
    Option::Some(t)
}

/// Whether the string slice `needle` occurs in `items`, compared by view.
pub fn contains_str(items: &Vec<String>, needle: &str) -> (r: bool)
    ensures
        r == items.deep_view().contains(needle@),
{
    let mut i: usize = 0;
    while i < items.len()
        invariant
            i <= items.len(),
            forall|j: int| 0 <= j < i ==> items.deep_view()[j] != needle@,
        decreases items.len() - i,
    {
        if str_eq(items[i].as_str(), needle) {
            proof {
                assert(items.deep_view()[i as int] == needle@);
            }
            return true;
        }
        i += 1;
    }
    proof {
        assert(forall|j: int| 0 <= j < items.deep_view().len() ==> items.deep_view()[j] != needle@);
    }
    false
}

} // verus!
