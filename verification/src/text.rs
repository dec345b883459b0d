//! Verified string helpers: suffix tests, `::` separators, substring search
//! and joining.

use vstd::prelude::*;

verus! {

/// `::` starts at position `i` of `s`.
pub open spec fn sep_at(s: Seq<char>, i: int) -> bool {
    0 <= i && i + 1 < s.len() && s[i] == ':' && s[i + 1] == ':'
}

/// The first position at or after `i` where `::` starts.
pub open spec fn first_sep_from(s: Seq<char>, i: int) -> Option<int>
    decreases s.len() - i,
{
    if i < 0 || i + 1 >= s.len() {
        None
    } else if sep_at(s, i) {
        Some(i)
    } else {
        first_sep_from(s, i + 1)
    }
}

/// The first position where `::` starts (what `str::find("::")` gives).
pub open spec fn first_sep(s: Seq<char>) -> Option<int> {
    first_sep_from(s, 0)
}

/// The last position at or before `i` where `::` starts.
pub open spec fn last_sep_upto(s: Seq<char>, i: int) -> Option<int>
    decreases i + 1,
{
    if i < 0 {
        None
    } else if sep_at(s, i) {
        Some(i)
    } else {
        last_sep_upto(s, i - 1)
    }
}

/// The last position where `::` starts (what `str::rfind("::")` gives).
pub open spec fn last_sep(s: Seq<char>) -> Option<int> {
    last_sep_upto(s, s.len() - 2)
}

/// The text before the first `::`, or all of `s` (the first item of
/// `str::split("::")`).
pub open spec fn first_piece(s: Seq<char>) -> Seq<char> {
    match first_sep(s) {
        Some(i) => s.take(i),
        None => s,
    }
}

/// The second item of `str::split("::")`, if there is one.
pub open spec fn second_piece(s: Seq<char>) -> Option<Seq<char>> {
    match first_sep(s) {
        Some(i) => Some(first_piece(s.skip(i + 2))),
        None => None,
    }
}

/// The last item of `str::split("::")`: matches are taken from the left and
/// do not overlap.
pub open spec fn last_piece(s: Seq<char>) -> Seq<char>
    decreases s.len(),
{
    match first_sep(s) {
        Some(i) => if 0 <= i && i + 2 <= s.len() {
            last_piece(s.skip(i + 2))
        } else {
            s
        },
        None => s,
    }
}

/// `needle` occurs in `hay` at position `i`.
pub open spec fn occurs_at(hay: Seq<char>, needle: Seq<char>, i: int) -> bool {
    0 <= i && i + needle.len() <= hay.len() && hay.subrange(i, i + needle.len()) == needle
}

/// `needle` occurs somewhere in `hay`.
pub open spec fn contains_seq(hay: Seq<char>, needle: Seq<char>) -> bool {
    exists|i: int| occurs_at(hay, needle, i)
}

/// The strings of `parts` joined by `sep`.
pub open spec fn join_seqs(parts: Seq<Seq<char>>, sep: Seq<char>) -> Seq<char>
    decreases parts.len(),
{
    if parts.len() == 0 {
        Seq::empty()
    } else if parts.len() == 1 {
        parts[0]
    } else {
        join_seqs(parts.drop_last(), sep) + sep + parts.last()
    }
}

/// The first separator found from `i` is one, and none comes before it.
pub proof fn lemma_first_sep_from(s: Seq<char>, i: int)
    requires
        0 <= i,
    ensures
        first_sep_from(s, i) matches Some(k) ==> i <= k && sep_at(s, k) && (forall|j: int|
            i <= j < k ==> !sep_at(s, j)),
        first_sep_from(s, i) is None ==> forall|j: int| i <= j ==> !sep_at(s, j),
    decreases s.len() - i,
{
    if i + 1 >= s.len() {
    } else if sep_at(s, i) {
    } else {
        lemma_first_sep_from(s, i + 1);
    }
}

/// The last separator found up to `i` is one, and none comes after it.
pub proof fn lemma_last_sep_upto(s: Seq<char>, i: int)
    ensures
        last_sep_upto(s, i) matches Some(k) ==> k <= i && sep_at(s, k) && (forall|j: int|
            k < j <= i ==> !sep_at(s, j)),
        last_sep_upto(s, i) is None ==> forall|j: int| j <= i ==> !sep_at(s, j),
    decreases i + 1,
{
    if i < 0 {
    } else if sep_at(s, i) {
    } else {
        lemma_last_sep_upto(s, i - 1);
    }
}

/// `s` ends with the character `c`.
pub fn ends_with_char(s: &str, c: char) -> (res: bool)
    ensures
        res == (s@.len() > 0 && s@.last() == c),
{
    let n = s.unicode_len();
    if n == 0 {
        false
    } else {
        s.get_char(n - 1) == c
    }
}

/// `s` without its last character.
pub fn without_last_char(s: &str) -> (res: String)
    requires
        s@.len() > 0,
    ensures
        res@ == s@.drop_last(),
{
    let n = s.unicode_len();
    let t = s.substring_char(0, n - 1);
    String::from_str(t)
}

/// `a` followed by `b`.
pub fn concat(a: &str, b: &str) -> (res: String)
    ensures
        res@ == a@ + b@,
{
    let x = String::from_str(a);
    x.concat(b)
}

/// The two strings hold the same characters.
pub fn same_text(a: &str, b: &str) -> (res: bool)
    ensures
        res == (a@ == b@),
{
    let x = String::from_str(a);
    let y = String::from_str(b);
    x == y
}

/// The first position where `::` starts, as `str::find("::")` gives it.
pub fn find_sep(s: &str) -> (res: Option<usize>)
    ensures
        res matches Some(k) ==> first_sep(s@) == Some(k as int),
        res is None ==> first_sep(s@) is None,
        s@.len() <= usize::MAX,
{
    let n = s.unicode_len();
    let mut i: usize = 0;
    proof {
        lemma_first_sep_from(s@, 0);
    }
    while n > 0 && i < n - 1
        invariant
            n == s@.len(),
            i <= n,
            first_sep(s@) == first_sep_from(s@, i as int),
        decreases n - i,
    {
        if s.get_char(i) == ':' && s.get_char(i + 1) == ':' {
            return Some(i);
        }
        i = i + 1;
    }
    None
}

/// The last position where `::` starts, as `str::rfind("::")` gives it.
pub fn rfind_sep(s: &str) -> (res: Option<usize>)
    ensures
        res matches Some(k) ==> last_sep(s@) == Some(k as int),
        res is None ==> last_sep(s@) is None,
{
    let n = s.unicode_len();
    if n < 2 {
        return None;
    }
    let mut i: usize = n - 1;
    // i counts the positions still to examine: position i - 1 is next
    while i > 0
        invariant
            n == s@.len(),
            n >= 2,
            i <= n - 1,
            last_sep(s@) == last_sep_upto(s@, i - 1),
        decreases i,
    {
        let k = i - 1;
        if s.get_char(k) == ':' && s.get_char(k + 1) == ':' {
            return Some(k);
        }
        i = k;
    }
    None
}

/// `needle` occurs at position `i` of `hay`.
fn occurs_at_exec(hay: &str, needle: &str, i: usize) -> (res: bool)
    requires
        i + needle@.len() <= hay@.len(),
    ensures
        res == occurs_at(hay@, needle@, i as int),
{
    let m = needle.unicode_len();
    let hn = hay.unicode_len();
    let mut j: usize = 0;
    while j < m
        invariant
            m == needle@.len(),
            hn == hay@.len(),
            i + m <= hay@.len(),
            j <= m,
            forall|k: int| 0 <= k < j ==> hay@[i + k] == needle@[k],
        decreases m - j,
    {
        if hay.get_char(i + j) != needle.get_char(j) {
            assert(hay@.subrange(i as int, i + m)[j as int] != needle@[j as int]);
            return false;
        }
        j = j + 1;
    }
    assert(hay@.subrange(i as int, i + m) =~= needle@);
    true
}

/// `needle` occurs somewhere in `hay` (what `str::contains` gives).
pub fn contains_text(hay: &str, needle: &str) -> (res: bool)
    ensures
        res == contains_seq(hay@, needle@),
{
    let n = hay.unicode_len();
    let m = needle.unicode_len();
    if m > n {
        assert forall|i: int| !occurs_at(hay@, needle@, i) by {}
        return false;
    }
    let last = n - m;
    let mut i: usize = 0;
    while i < last
        invariant
            n == hay@.len(),
            m == needle@.len(),
            m <= n,
            last == n - m,
            i <= last,
            forall|k: int| 0 <= k < i ==> !occurs_at(hay@, needle@, k),
        decreases last - i,
    {
        if occurs_at_exec(hay, needle, i) {
            return true;
        }
        i = i + 1;
    }
    if occurs_at_exec(hay, needle, last) {
        return true;
    }
    assert forall|k: int| !occurs_at(hay@, needle@, k) by {
        if 0 <= k < last {
        }
    }
    false
}

/// Joining one more string appends the separator and that string.
pub proof fn lemma_join_push(parts: Seq<Seq<char>>, sep: Seq<char>, p: Seq<char>)
    ensures
        join_seqs(parts.push(p), sep) == (if parts.len() == 0 {
            p
        } else {
            join_seqs(parts, sep) + sep + p
        }),
{
    assert(parts.push(p).drop_last() =~= parts);
    if parts.len() == 0 {
        assert(parts.push(p).len() == 1);
    }
}

/// The strings of `parts` joined by `sep` (what `[String]::join` gives).
pub fn join_strings(parts: &Vec<String>, sep: &str) -> (res: String)
    ensures
        res@ == join_seqs(parts.deep_view(), sep@),
{
    let mut res = String::new();
    let n = parts.len();
    let mut i: usize = 0;
    while i < n
        invariant
            n == parts.len(),
            i <= n,
            res@ == join_seqs(parts.deep_view().take(i as int), sep@),
        decreases n - i,
    {
        proof {
            assert(parts.deep_view().take(i + 1) =~= parts.deep_view().take(i as int).push(
                parts[i as int]@,
            ));
            lemma_join_push(parts.deep_view().take(i as int), sep@, parts[i as int]@);
        }
        if i > 0 {
            res.append(sep);
        }
        res.append(parts[i].as_str());
        i = i + 1;
    }
    assert(parts.deep_view().take(n as int) =~= parts.deep_view());
    res
}

/// The text after the character position `from`.
fn suffix_from(s: &str, from: usize) -> (res: String)
    requires
        from <= s@.len(),
    ensures
        res@ == s@.skip(from as int),
{
    let n = s.unicode_len();
    let t = s.substring_char(from, n);
    assert(t@ =~= s@.skip(from as int));
    String::from_str(t)
}

/// The first item of `str::split("::")`.
pub fn first_split_piece(s: &str) -> (res: String)
    ensures
        res@ == first_piece(s@),
{
    proof {
        lemma_first_sep_from(s@, 0);
    }
    match find_sep(s) {
        Some(i) => {
            let t = s.substring_char(0, i);
            assert(t@ =~= s@.take(i as int));
            String::from_str(t)
        },
        None => String::from_str(s),
    }
}

/// The second item of `str::split("::")` (what `.nth(1)` gives).
pub fn second_split_piece(s: &str) -> (res: Option<String>)
    ensures
        res.deep_view() == second_piece(s@),
{
    proof {
        lemma_first_sep_from(s@, 0);
    }
    match find_sep(s) {
        Some(i) => {
            let rest = suffix_from(s, i + 2);
            Some(first_split_piece(rest.as_str()))
        },
        None => None,
    }
}

/// The last item of `str::split("::")` (what `.last()` gives).
pub fn last_split_piece(s: &str) -> (res: String)
    ensures
        res@ == last_piece(s@),
{
    let mut cur = String::from_str(s);
    loop
        invariant
            last_piece(cur@) == last_piece(s@),
        decreases cur@.len(),
    {
        proof {
            lemma_first_sep_from(cur@, 0);
        }
        match find_sep(cur.as_str()) {
            Some(i) => {
                cur = suffix_from(cur.as_str(), i + 2);
            },
            None => {
                return cur;
            },
        }
    }
}

} // verus!
