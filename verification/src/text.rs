//! Character-level text helpers: ASCII case folding, comparison and search.

use vstd::prelude::*;

verus! {

/// The ASCII lower-case form of a character; every other character is unchanged.
pub open spec fn ascii_lower(c: char) -> char {
    if 'A' <= c && c <= 'Z' {
        ((c as u32) + 32) as char
    } else {
        c
    }
}

/// Two texts are equal once ASCII letters are folded to lower case.
pub open spec fn eq_ignore_ascii_case(a: Seq<char>, b: Seq<char>) -> bool {
    &&& a.len() == b.len()
    &&& forall|i: int| 0 <= i < a.len() ==> #[trigger] ascii_lower(a[i]) == ascii_lower(b[i])
}

/// Folds one character to ASCII lower case.
pub fn to_ascii_lower(c: char) -> (r: char)
    ensures
        r == ascii_lower(c),
{
    if 'A' <= c && c <= 'Z' {
        let code: u32 = (c as u32) + 32;
        assert(97 <= code <= 122);
        char_from_ascii(code as u8)
    } else {
        c
    }
}

fn char_from_ascii(b: u8) -> (c: char)
    requires
        b < 128,
    ensures
        c == b as char,
{
    b as char
}

/// Whether two texts are equal once ASCII letters are folded to lower case.
pub fn str_eq_ignore_ascii_case(a: &str, b: &str) -> (r: bool)
    ensures
        r == eq_ignore_ascii_case(a@, b@),
{
    let n = a.unicode_len();
    if n != b.unicode_len() {
        return false;
    }
    let mut i: usize = 0;
    while i < n
        invariant
            n == a@.len(),
            n == b@.len(),
            i <= n,
            forall|j: int| 0 <= j < i ==> #[trigger] ascii_lower(a@[j]) == ascii_lower(b@[j]),
        decreases n - i,
    {
        if to_ascii_lower(a.get_char(i)) != to_ascii_lower(b.get_char(i)) {
            return false;
        }
        i = i + 1;
    }
    true
}

/// Whether two texts hold the same characters.
pub fn str_eq(a: &str, b: &str) -> (r: bool)
    ensures
        r == (a@ == b@),
{
    let n = a.unicode_len();
    if n != b.unicode_len() {
        return false;
    }
    let mut i: usize = 0;
    while i < n
        invariant
            n == a@.len(),
            n == b@.len(),
            i <= n,
            forall|j: int| 0 <= j < i ==> a@[j] == b@[j],
        decreases n - i,
    {
        if a.get_char(i) != b.get_char(i) {
            return false;
        }
        i = i + 1;
    }
    assert(a@ =~= b@);
    true
}

/// The position of the first `c` in `s`, or the length of `s` when there is none.
pub open spec fn first_index(s: Seq<char>, c: char) -> nat
    decreases s.len(),
{
    if s.len() == 0 {
        0
    } else if s[0] == c {
        0
    } else {
        1 + first_index(s.drop_first(), c)
    }
}

/// `first_index` is within the text, points at a `c` when it is not at the end, and no
/// `c` comes before it.
pub proof fn lemma_first_index_bound(s: Seq<char>, c: char)
    ensures
        first_index(s, c) <= s.len(),
        first_index(s, c) < s.len() ==> s[first_index(s, c) as int] == c,
        forall|k: int| 0 <= k < first_index(s, c) ==> s[k] != c,
    decreases s.len(),
{
    if s.len() > 0 && s[0] != c {
        lemma_first_index_bound(s.drop_first(), c);
        assert forall|k: int| 0 <= k < first_index(s, c) implies s[k] != c by {
            if k > 0 {
                assert(s[k] == s.drop_first()[k - 1]);
            }
        }
    }
}

/// A position before which no `c` occurs, and which is the end or holds a `c`, is
/// `first_index`.
pub proof fn lemma_first_index_at(s: Seq<char>, c: char, j: int)
    requires
        0 <= j <= s.len(),
        forall|k: int| 0 <= k < j ==> s[k] != c,
        j == s.len() || s[j] == c,
    ensures
        first_index(s, c) == j,
    decreases j,
{
    if j > 0 {
        assert(s[0] != c);
        assert forall|k: int| 0 <= k < j - 1 implies s.drop_first()[k] != c by {
            assert(s.drop_first()[k] == s[k + 1]);
        }
        if j < s.len() {
            assert(s.drop_first()[j - 1] == s[j]);
        }
        lemma_first_index_at(s.drop_first(), c, j - 1);
    }
}

/// The position of the first `c` in `s` at or after `from` and before `to`, or `to`.
pub fn find_char(s: &str, from: usize, to: usize, c: char) -> (r: usize)
    requires
        from <= to <= s@.len(),
    ensures
        from <= r <= to,
        forall|k: int| from <= k < r ==> s@[k] != c,
        r < to ==> s@[r as int] == c,
{
    let mut j = from;
    while j < to
        invariant
            from <= j <= to,
            to <= s@.len(),
            forall|k: int| from <= k < j ==> s@[k] != c,
        decreases to - j,
    {
        if s.get_char(j) == c {
            return j;
        }
        j = j + 1;
    }
    j
}

/// Matching up to ASCII case is an equivalence: every text matches itself, matching goes
/// both ways, and it carries over from one text to the next.
pub proof fn lemma_eq_ignore_ascii_case_is_equivalence(a: Seq<char>, b: Seq<char>, c: Seq<char>)
    ensures
        eq_ignore_ascii_case(a, a),
        eq_ignore_ascii_case(a, b) ==> eq_ignore_ascii_case(b, a),
        eq_ignore_ascii_case(a, b) && eq_ignore_ascii_case(b, c) ==> eq_ignore_ascii_case(a, c),
{
    if eq_ignore_ascii_case(a, b) && eq_ignore_ascii_case(b, c) {
        assert forall|i: int| 0 <= i < a.len() implies #[trigger] ascii_lower(a[i]) == ascii_lower(
            c[i],
        ) by {
            assert(ascii_lower(a[i]) == ascii_lower(b[i]));
            assert(ascii_lower(b[i]) == ascii_lower(c[i]));
        }
    }
}

/// Texts without ASCII capitals match up to ASCII case only when they are equal: case
/// folding changes no other character.
pub proof fn lemma_uncapitalised_texts_match_exactly(a: Seq<char>, b: Seq<char>)
    requires
        forall|i: int| 0 <= i < a.len() ==> !('A' <= #[trigger] a[i] && a[i] <= 'Z'),
        forall|i: int| 0 <= i < b.len() ==> !('A' <= #[trigger] b[i] && b[i] <= 'Z'),
    ensures
        eq_ignore_ascii_case(a, b) <==> a == b,
{
    if eq_ignore_ascii_case(a, b) {
        assert forall|i: int| 0 <= i < a.len() implies a[i] == b[i] by {
            assert(ascii_lower(a[i]) == ascii_lower(b[i]));
        }
        assert(a =~= b);
    }
}

/// Folding maps each ASCII capital to its small letter, 32 code points on.
pub proof fn lemma_ascii_lower_of_capital(c: char)
    requires
        'A' <= c <= 'Z',
    ensures
        ascii_lower(c) as u32 == c as u32 + 32,
        'a' <= ascii_lower(c) <= 'z',
{
}

} // verus!
