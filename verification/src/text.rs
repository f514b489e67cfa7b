//! Verified text utilities: character classification, equality, searching,
//! trimming and line splitting over `Seq<char>` views.

use vstd::prelude::*;

verus! {

/// The characters that `trim` removes: the Unicode `White_Space` set.
pub open spec fn is_space(c: char) -> bool {
    c == ' ' || c == '\t' || c == '\n' || c == '\r' || c == '\u{000B}' || c == '\u{000C}' || c
        == '\u{0085}' || c == '\u{00A0}' || c == '\u{1680}' || c == '\u{2000}' || c == '\u{2001}'
        || c == '\u{2002}' || c == '\u{2003}' || c == '\u{2004}' || c == '\u{2005}' || c
        == '\u{2006}' || c == '\u{2007}' || c == '\u{2008}' || c == '\u{2009}' || c == '\u{200A}'
        || c == '\u{2028}' || c == '\u{2029}' || c == '\u{202F}' || c == '\u{205F}' || c
        == '\u{3000}'
}

pub fn is_space_char(c: char) -> (r: bool)
    ensures
        r == is_space(c),
{
    match c {
        ' ' | '\t' | '\n' | '\r' | '\u{000B}' | '\u{000C}' | '\u{0085}' | '\u{00A0}' | '\u{1680}'
            | '\u{2000}' | '\u{2001}' | '\u{2002}' | '\u{2003}' | '\u{2004}' | '\u{2005}'
            | '\u{2006}' | '\u{2007}' | '\u{2008}' | '\u{2009}' | '\u{200A}' | '\u{2028}'
            | '\u{2029}' | '\u{202F}' | '\u{205F}' | '\u{3000}' => true,
        _ => false,
    }
}

/// Character-wise string equality.
pub fn str_equal(a: &str, b: &str) -> (r: bool)
    ensures
        r == (a@ == b@),
{
    let na = a.unicode_len();
    let nb = b.unicode_len();
    if na != nb {
        return false;
    }
    let mut i: usize = 0;
    while i < na
        invariant
            i <= na,
            na == a@.len(),
            na == b@.len(),
            forall|j: int| 0 <= j < i ==> a@[j] == b@[j],
        decreases na - i,
    {
        if a.get_char(i) != b.get_char(i) {
            return false;
        }
        i += 1;
    }
    proof {
        assert(a@ =~= b@);
    }
    true
}

/// Index of the first occurrence of `c` in `s` at or after `i`.
pub open spec fn find_char_from(s: Seq<char>, c: char, i: nat) -> Option<nat>
    decreases s.len() - i,
{
    if i >= s.len() {
        None
    } else if s[i as int] == c {
        Some(i)
    } else {
        find_char_from(s, c, i + 1)
    }
}

pub proof fn lemma_find_char_in_range(s: Seq<char>, c: char, i: nat)
    ensures
        match find_char_from(s, c, i) {
            Some(j) => i <= j < s.len() && s[j as int] == c && forall|m: int|
                i <= m < j ==> s[m] != c,
            None => forall|m: int| i <= m < s.len() ==> s[m] != c,
        },
    decreases s.len() - i,
{
    if i >= s.len() {
    } else if s[i as int] == c {
    } else {
        lemma_find_char_in_range(s, c, i + 1);
    }
}

/// Searching in a suffix finds the same character, shifted.
pub proof fn lemma_find_char_shift(s: Seq<char>, c: char, p: nat, i: nat)
    requires
        p <= s.len(),
    ensures
        find_char_from(s, c, p + i) == match find_char_from(s.skip(p as int), c, i) {
            Some(k) => Some((k + p) as nat),
            None => None::<nat>,
        },
    decreases s.len() - p - i,
{
    if p + i >= s.len() {
    } else {
        assert(s.skip(p as int)[i as int] == s[(p + i) as int]);
        if s[(p + i) as int] == c {
        } else {
            lemma_find_char_shift(s, c, p, i + 1);
        }
    }
}

pub fn find_char(s: &str, c: char, from: usize) -> (r: Option<usize>)
    requires
        from <= s@.len(),
    ensures
        match r {
            Some(j) => from <= j < s@.len() && find_char_from(s@, c, from as nat) == Some(
                j as nat,
            ),
            None => find_char_from(s@, c, from as nat) is None,
        },
{
    let n = s.unicode_len();
    let mut i: usize = from;
    while i < n
        invariant
            from <= i <= n,
            n == s@.len(),
            find_char_from(s@, c, from as nat) == find_char_from(s@, c, i as nat),
        decreases n - i,
    {
        if s.get_char(i) == c {
            return Some(i);
        }
        i += 1;
    }
    None
}

/// Remove leading and trailing whitespace.
pub open spec fn spec_trim(s: Seq<char>) -> Seq<char>
    decreases s.len(),
{
    if s.len() == 0 {
        s
    } else if is_space(s[0]) {
        spec_trim(s.skip(1))
    } else if is_space(s[s.len() - 1]) {
        spec_trim(s.take(s.len() - 1))
    } else {
        s
    }
}

pub proof fn lemma_trim_subrange(s: Seq<char>, a: int, b: int)
    requires
        0 <= a <= b <= s.len(),
        forall|j: int| 0 <= j < a ==> is_space(s[j]),
        forall|j: int| b <= j < s.len() ==> is_space(s[j]),
        a < b ==> !is_space(s[a]) && !is_space(s[b - 1]),
    ensures
        spec_trim(s) == s.subrange(a, b),
    decreases s.len(),
{
    if s.len() == 0 {
        assert(s.subrange(0, 0) =~= s);
    } else if is_space(s[0]) {
        if a == b {
            lemma_trim_subrange(s.skip(1), 0, 0);
            assert(s.skip(1).subrange(0, 0) =~= s.subrange(a, b));
        } else {
            assert(a >= 1);
            lemma_trim_subrange(s.skip(1), a - 1, b - 1);
            assert(s.skip(1).subrange(a - 1, b - 1) =~= s.subrange(a, b));
        }
    } else if is_space(s[s.len() - 1]) {
        if a == b {
            assert(is_space(s[0]));
            assert(false);
        } else {
            assert(b <= s.len() - 1);
            lemma_trim_subrange(s.take(s.len() - 1), a, b);
            assert(s.take(s.len() - 1).subrange(a, b) =~= s.subrange(a, b));
        }
    } else {
        if a == b {
            assert(is_space(s[0]));
            assert(false);
        } else {
            assert(a == 0);
            assert(b == s.len());
            assert(s.subrange(0, s.len() as int) =~= s);
        }
    }
}

pub fn trim(s: &str) -> (r: &str)
    ensures
        r@ == spec_trim(s@),
{
    let n = s.unicode_len();
    let mut a: usize = 0;
    while a < n && is_space_char(s.get_char(a))
        invariant
            a <= n,
            n == s@.len(),
            forall|j: int| 0 <= j < a ==> is_space(s@[j]),
        decreases n - a,
    {
        a += 1;
    }
    let mut b: usize = n;
    while b > a && is_space_char(s.get_char(b - 1))
        invariant
            a <= b <= n,
            n == s@.len(),
            forall|j: int| b <= j < n ==> is_space(s@[j]),
        decreases b,
    {
        b -= 1;
    }
    proof {
        lemma_trim_subrange(s@, a as int, b as int);
    }
    s.substring_char(a, b)
}

/// The pieces of `s` between occurrences of `c`: splitting never yields an
/// empty sequence of pieces, and a trailing separator yields an empty piece.
pub open spec fn split_at_char(s: Seq<char>, c: char) -> Seq<Seq<char>>
    decreases s.len(),
{
    let r = find_char_from(s, c, 0);
    if r is Some && r->Some_0 < s.len() {
        let i = r->Some_0;
        seq![s.take(i as int)] + split_at_char(s.skip(i as int + 1), c)
    } else {
        seq![s]
    }
}

/// The views of a sequence of owned strings.
pub open spec fn strs_view(v: Seq<String>) -> Seq<Seq<char>> {
    Seq::new(v.len(), |i: int| v[i]@)
}

pub fn split_lines(s: &str) -> (r: Vec<String>)
    ensures
        strs_view(r@) == split_at_char(s@, '\n'),
{
    let n = s.unicode_len();
    let mut out: Vec<String> = Vec::new();
    let mut pos: usize = 0;
    let mut done = false;
    proof {
        assert(s@.skip(0) =~= s@);
        assert(strs_view(out@) + split_at_char(s@, '\n') =~= split_at_char(s@, '\n'));
    }
    while !done
        invariant
            pos <= n,
            n == s@.len(),
            !done ==> split_at_char(s@, '\n') == strs_view(out@) + split_at_char(
                s@.skip(pos as int),
                '\n',
            ),
            done ==> split_at_char(s@, '\n') == strs_view(out@),
        decreases n - pos, (if done { 0int } else { 1int }),
    {
        proof {
            lemma_find_char_shift(s@, '\n', pos as nat, 0);
            lemma_find_char_in_range(s@, '\n', pos as nat);
        }
        let ghost tail = s@.skip(pos as int);
        match find_char(s, '\n', pos) {
            Some(j) => {
                let piece = s.substring_char(pos, j);
                let owned = piece.to_owned();
                proof {
                    let k = (j - pos) as nat;
                    assert(find_char_from(tail, '\n', 0) == Some(k));
                    lemma_find_char_in_range(tail, '\n', 0);
                    assert(split_at_char(tail, '\n') == seq![tail.take(k as int)]
                        + split_at_char(tail.skip(k as int + 1), '\n'));
                    assert(tail.take(k as int) =~= owned@);
                    assert(tail.skip(k as int + 1) =~= s@.skip(j + 1));
                    assert(strs_view(out@.push(owned)) =~= strs_view(out@) + seq![owned@]);
                    assert(strs_view(out@) + split_at_char(tail, '\n') =~= (strs_view(out@)
                        + seq![owned@]) + split_at_char(s@.skip(j + 1), '\n'));
                }
                out.push(owned);
                pos = j + 1;
            },
            None => {
                let piece = s.substring_char(pos, n);
                let owned = piece.to_owned();
                proof {
                    assert(find_char_from(tail, '\n', 0) is None);
                    assert(split_at_char(tail, '\n') == seq![tail]);
                    assert(tail =~= owned@);
                    assert(strs_view(out@.push(owned)) =~= strs_view(out@) + seq![owned@]);
                    assert(strs_view(out@) + split_at_char(tail, '\n') =~= strs_view(
                        out@.push(owned),
                    ));
                }
                out.push(owned);
                done = true;
            },
        }
    }
    out
}

} // verus!
