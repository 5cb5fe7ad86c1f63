use vstd::prelude::*;

verus! {

broadcast use vstd::string::group_string_axioms;

/// `needle` occurs somewhere in `hay` as a run of consecutive characters.
pub open spec fn occurs_in(needle: Seq<char>, hay: Seq<char>) -> bool {
    exists|i: int| occurs_at(needle, hay, i)
}

/// `needle` occurs in `hay` starting at index `i`.
pub open spec fn occurs_at(needle: Seq<char>, hay: Seq<char>, i: int) -> bool {
    0 <= i && i + needle.len() <= hay.len() && hay.subrange(i, i + needle.len()) == needle
}

/// The index of the last `c` in `s`, or -1 where `s` holds none.
pub open spec fn last_index_of(s: Seq<char>, c: char) -> int
    decreases s.len(),
{
    if s.len() == 0 {
        -1
    } else if s.last() == c {
        s.len() - 1
    } else {
        last_index_of(s.drop_last(), c)
    }
}

/// What follows the last `c` in `s`; all of `s` where it holds none.
pub open spec fn after_last(s: Seq<char>, c: char) -> Seq<char> {
    s.skip(last_index_of(s, c) + 1)
}

/// An ASCII capital as its small letter; any other character unchanged.
pub open spec fn ascii_lower(c: char) -> char {
    if 'A' <= c && c <= 'Z' {
        ((c as u8) + 32) as char
    } else {
        c
    }
}

/// `s` with its ASCII capitals made small.
pub open spec fn lower(s: Seq<char>) -> Seq<char> {
    s.map_values(|c: char| ascii_lower(c))
}

/// The views of a sequence of strings.
pub open spec fn texts(v: Seq<String>) -> Seq<Seq<char>> {
    v.map_values(|s: String| s@)
}

/// The view of an optional string.
pub open spec fn option_text(o: Option<String>) -> Option<Seq<char>> {
    match o {
        Some(s) => Some(s@),
        None => None,
    }
}

pub proof fn lemma_last_index_of(s: Seq<char>, c: char)
    ensures
        -1 <= last_index_of(s, c) < s.len(),
        last_index_of(s, c) >= 0 ==> s[last_index_of(s, c)] == c,
        forall|j: int| last_index_of(s, c) < j < s.len() ==> s[j] != c,
    decreases s.len(),
{
    if s.len() > 0 && s.last() != c {
        let front = s.drop_last();
        lemma_last_index_of(front, c);
        assert forall|j: int| last_index_of(s, c) < j < s.len() implies s[j] != c by {
            if j < front.len() {
                assert(front[j] == s[j]);
            }
        }
    }
}

/// `last_index_of` is the one index that holds `c` and has no `c` after it.
pub proof fn lemma_last_index_is(s: Seq<char>, c: char, i: int)
    requires
        -1 <= i < s.len(),
        i >= 0 ==> s[i] == c,
        forall|j: int| i < j < s.len() ==> s[j] != c,
    ensures
        last_index_of(s, c) == i,
{
    lemma_last_index_of(s, c);
}

/// The characters of `s`, in order.
pub fn chars_of(s: &str) -> (v: Vec<char>)
    ensures
        v@ == s@,
{
    let mut v: Vec<char> = Vec::new();
    for c in it: s.chars()
        invariant
            it.seq() == s@,
            v@ == s@.take(it.index()),
    {
        v.push(c);
    }
    v
}

/// Whether `hay` holds `needle` at index `at`.
pub fn matches_at(hay: &Vec<char>, needle: &Vec<char>, at: usize) -> (found: bool)
    ensures
        found == occurs_at(needle@, hay@, at as int),
{
    if needle.len() > hay.len() || at > hay.len() - needle.len() {
        return false;
    }
    let mut k: usize = 0;
    while k < needle.len()
        invariant
            k <= needle.len(),
            at + needle.len() <= hay.len(),
            forall|j: int| 0 <= j < k ==> hay@[at + j] == needle@[j],
        decreases needle.len() - k,
    {
        if hay[at + k] != needle[k] {
            assert(hay@.subrange(at as int, at + needle.len())[k as int] != needle@[k as int]);
            return false;
        }
        k += 1;
    }
    assert(hay@.subrange(at as int, at + needle.len()) =~= needle@);
    true
}

/// Whether `s` begins with `prefix`.
pub fn has_prefix(s: &str, prefix: &str) -> (found: bool)
    ensures
        found == prefix@.is_prefix_of(s@),
{
    let hay = chars_of(s);
    let needle = chars_of(prefix);
    let found = matches_at(&hay, &needle, 0);
    assert(found == prefix@.is_prefix_of(s@)) by {
        if needle@.len() <= hay@.len() {
            assert(hay@.subrange(0, needle@.len() as int) == needle@ <==> needle@ =~= hay@.subrange(
                0,
                needle@.len() as int,
            ));
        }
    }
    found
}

/// Whether `needle` occurs anywhere in `s`.
pub fn contains_text(s: &str, needle: &str) -> (found: bool)
    ensures
        found == occurs_in(needle@, s@),
{
    let hay = chars_of(s);
    let word = chars_of(needle);
    if word.len() > hay.len() {
        return false;
    }
    if word.len() == 0 {
        assert(occurs_at(word@, hay@, 0)) by {
            assert(hay@.subrange(0, 0) =~= word@);
        }
        return true;
    }
    let last: usize = hay.len() - word.len();
    let mut i: usize = 0;
    while i <= last
        invariant
            i <= last + 1,
            last == hay.len() - word.len(),
            0 < word.len() <= hay.len(),
            hay@ == s@,
            word@ == needle@,
            forall|j: int| 0 <= j < i ==> !occurs_at(word@, hay@, j),
        decreases last + 1 - i,
    {
        if matches_at(&hay, &word, i) {
            return true;
        }
        i += 1;
    }
    false
}

/// Whether `v` spells `word`.
pub fn spells(v: &Vec<char>, word: &str) -> (same: bool)
    ensures
        same == (v@ == word@),
{
    let w = chars_of(word);
    let same = v.len() == w.len() && matches_at(v, &w, 0);
    assert(same == (v@ == w@)) by {
        if v.len() == w.len() {
            assert(v@.subrange(0, v@.len() as int) == v@);
        }
    }
    same
}

/// Whether two strings hold the same characters.
pub fn same_text(a: &str, b: &str) -> (same: bool)
    ensures
        same == (a@ == b@),
{
    let chars = chars_of(a);
    spells(&chars, b)
}

/// The small letter of an ASCII capital, or the character itself.
pub fn to_ascii_lower(c: char) -> (l: char)
    ensures
        l == ascii_lower(c),
{
    if 'A' <= c && c <= 'Z' {
        ((c as u8) + 32) as char
    } else {
        c
    }
}

} // verus!
