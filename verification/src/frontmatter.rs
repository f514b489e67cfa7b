//! The frontmatter parser: splits a raw text file into a key/value metadata
//! block and a content body.
//!
//! A file that starts with the delimiter line `---` is split at the next
//! delimiter line; the part between is parsed as `key: value` lines into the
//! metadata mapping and the part after is the content body, kept as its own
//! component beside the mapping. Malformed frontmatter degrades to "no
//! frontmatter": empty metadata, the whole file as the body. Within the
//! block, blank lines are skipped and a line whose key trims to empty stops
//! all further key parsing.

use vstd::prelude::*;

use crate::assoc::{
    assoc_contains, assoc_get, assoc_insert, assoc_wf, find_pair_index, lemma_assoc_get_found,
    lemma_assoc_get_none, lemma_assoc_get_some_exists, lemma_assoc_insert_append,
    lemma_assoc_insert_found, lemma_assoc_insert_wf,
};
use crate::text::{
    find_char, find_char_from, split_at_char, split_lines, spec_trim, strs_view, trim,
};

verus! {

/// The reserved metadata key that names a file's parent layout.
pub open spec fn layout_key() -> Seq<char> {
    seq!['l', 'a', 'y', 'o', 'u', 't']
}

pub proof fn lemma_layout_key()
    ensures
        "layout"@ == layout_key(),
{
    reveal_strlit("layout");
    assert("layout"@ =~= layout_key());
}

/// An ordered mapping from metadata key to string value, with distinct keys.
#[derive(Debug)]
pub struct Metadata {
    pairs: Vec<(String, String)>,
}

/// The views of a pair sequence.
pub open spec fn pairs_view(v: Seq<(String, String)>) -> Seq<(Seq<char>, Seq<char>)> {
    Seq::new(v.len(), |i: int| (v[i].0@, v[i].1@))
}

impl View for Metadata {
    type V = Seq<(Seq<char>, Seq<char>)>;

    closed spec fn view(&self) -> Seq<(Seq<char>, Seq<char>)> {
        pairs_view(self.pairs@)
    }
}

impl Metadata {
    /// Holds of every value of the type.
    #[verifier::type_invariant]
    pub open spec fn wf(self) -> bool {
        assoc_wf(self@)
    }

    pub fn new() -> (r: Metadata)
        ensures
            r@ == Seq::<(Seq<char>, Seq<char>)>::empty(),
    {
        let r = Metadata { pairs: Vec::new() };
        proof {
            assert(r@ =~= Seq::<(Seq<char>, Seq<char>)>::empty());
        }
        r
    }

    pub fn len(&self) -> (r: usize)
        ensures
            r == self@.len(),
    {
        self.pairs.len()
    }

    /// The key of the pair at position `i`.
    pub fn key_at(&self, i: usize) -> (r: &String)
        requires
            i < self@.len(),
        ensures
            r@ == self@[i as int].0,
    {
        &self.pairs[i].0
    }

    /// The value of the pair at position `i`.
    pub fn value_at(&self, i: usize) -> (r: &String)
        requires
            i < self@.len(),
        ensures
            r@ == self@[i as int].1,
    {
        &self.pairs[i].1
    }

    /// Mapping insert: a bound key keeps its position, a new key is appended.
    pub fn insert(&mut self, key: String, value: String)
        ensures
            final(self)@ == assoc_insert(old(self)@, key@, value@),
    {
        proof {
            use_type_invariant(&*self);
        }
        let ghost old_view = self@;
        let mut pairs: Vec<(String, String)> = Vec::new();
        std::mem::swap(&mut pairs, &mut self.pairs);
        proof {
            assert(self@ =~= Seq::<(Seq<char>, Seq<char>)>::empty());
        }
        match find_pair_index(&pairs, key.as_str()) {
            Some(i) => {
                proof {
                    lemma_assoc_insert_found(old_view, key@, value@, i as int);
                }
                pairs[i] = (key, value);
                proof {
                    assert(pairs_view(pairs@) =~= assoc_insert(old_view, key@, value@));
                }
            },
            None => {
                proof {
                    lemma_assoc_insert_append(old_view, key@, value@);
                }
                pairs.push((key, value));
                proof {
                    assert(pairs_view(pairs@) =~= assoc_insert(old_view, key@, value@));
                }
            },
        }
        proof {
            lemma_assoc_insert_wf(old_view, key@, value@);
        }
        self.pairs = pairs;
    }

    pub fn get(&self, key: &str) -> (r: Option<&String>)
        ensures
            match r {
                Some(v) => assoc_get(self@, key@) == Some(v@),
                None => assoc_get(self@, key@) is None,
            },
    {
        match find_pair_index(&self.pairs, key) {
            Some(i) => {
                proof {
                    lemma_assoc_get_found(self@, key@, i as int);
                }
                Some(&self.pairs[i].1)
            },
            None => {
                proof {
                    lemma_assoc_get_none(self@, key@);
                }
                None
            },
        }
    }

    pub fn contains_key(&self, key: &str) -> (r: bool)
        ensures
            r == assoc_contains(self@, key@),
    {
        self.get(key).is_some()
    }
}

impl Clone for Metadata {
    /// A clone denotes the same mapping.
    fn clone(&self) -> (r: Self)
        ensures
            r@ == self@,
    {
        proof {
            use_type_invariant(&*self);
        }
        let n = self.pairs.len();
        let mut pairs: Vec<(String, String)> = Vec::new();
        let mut i: usize = 0;
        while i < n
            invariant
                i <= n,
                n == self.pairs@.len(),
                pairs@.len() == i,
                forall|j: int|
                    0 <= j < i ==> pairs@[j].0@ == self.pairs@[j].0@ && pairs@[j].1@
                        == self.pairs@[j].1@,
            decreases n - i,
        {
            let k = self.pairs[i].0.clone();
            let v = self.pairs[i].1.clone();
            pairs.push((k, v));
            i += 1;
        }
        proof {
            assert(pairs_view(pairs@) =~= self@);
        }
        let r = Metadata { pairs };
        r
    }
}

impl PartialEq for Metadata {
    /// Two metadata mappings are equal when they bind the same keys to the
    /// same values, in any order.
    fn eq(&self, other: &Self) -> (r: bool) {
        proof {
            use_type_invariant(&*self);
            use_type_invariant(&*other);
        }
        let n1 = self.pairs.len();
        let mut i: usize = 0;
        while i < n1
            invariant
                i <= n1,
                n1 == self@.len(),
                assoc_wf(self@),
                assoc_wf(other@),
                forall|j: int|
                    0 <= j < i ==> assoc_get(other@, self@[j].0) == Some(self@[j].1),
            decreases n1 - i,
        {
            proof {
                lemma_assoc_get_found(self@, self@[i as int].0, i as int);
            }
            match other.get(self.pairs[i].0.as_str()) {
                Some(v2) => {
                    if !crate::text::str_equal(self.pairs[i].1.as_str(), v2.as_str()) {
                        proof {
                            let ghost k0 = self@[i as int].0;
                            assert(assoc_get(self@, k0) != assoc_get(other@, k0));
                        }
                        return false;
                    }
                },
                None => {
                    proof {
                        let ghost k0 = self@[i as int].0;
                        assert(assoc_get(self@, k0) != assoc_get(other@, k0));
                    }
                    return false;
                },
            }
            i += 1;
        }
        let n2 = other.pairs.len();
        let mut j: usize = 0;
        while j < n2
            invariant
                j <= n2,
                n2 == other@.len(),
                assoc_wf(self@),
                assoc_wf(other@),
                forall|m: int|
                    0 <= m < self@.len() ==> assoc_get(other@, self@[m].0) == Some(self@[m].1),
                forall|m: int| 0 <= m < j ==> assoc_contains(self@, other@[m].0),
            decreases n2 - j,
        {
            match self.get(other.pairs[j].0.as_str()) {
                Some(_) => {},
                None => {
                    proof {
                        let ghost k0 = other@[j as int].0;
                        lemma_assoc_get_found(other@, k0, j as int);
                        assert(assoc_get(self@, k0) != assoc_get(other@, k0));
                    }
                    return false;
                },
            }
            j += 1;
        }
        proof {
            assert forall|k: Seq<char>| assoc_get(self@, k) == assoc_get(other@, k) by {
                if assoc_contains(self@, k) {
                    lemma_assoc_get_some_exists(self@, k);
                    let m = choose|m: int| 0 <= m < self@.len() && self@[m].0 == k;
                    lemma_assoc_get_found(self@, k, m);
                } else {
                    if assoc_contains(other@, k) {
                        lemma_assoc_get_some_exists(other@, k);
                        let m = choose|m: int| 0 <= m < other@.len() && other@[m].0 == k;
                        assert(assoc_contains(self@, other@[m].0));
                    }
                }
            }
        }
        true
    }
}

impl vstd::std_specs::cmp::PartialEqSpecImpl for Metadata {
    open spec fn obeys_eq_spec() -> bool {
        true
    }

    open spec fn eq_spec(&self, other: &Self) -> bool {
        forall|k: Seq<char>| assoc_get(self@, k) == assoc_get(other@, k)
    }
}

/// The mapping read from the lines of a metadata block, folded over `acc`:
/// blank lines are skipped; a line splits at its first colon into a trimmed
/// key and value (no colon: the whole line is the key, the value is empty);
/// a line whose key trims to empty stops all further parsing.
pub open spec fn spec_kv_lines(
    lines: Seq<Seq<char>>,
    acc: Seq<(Seq<char>, Seq<char>)>,
) -> Seq<(Seq<char>, Seq<char>)>
    decreases lines.len(),
{
    if lines.len() == 0 {
        acc
    } else {
        let t = spec_trim(lines[0]);
        if t.len() == 0 {
            spec_kv_lines(lines.skip(1), acc)
        } else {
            let r = find_char_from(t, ':', 0);
            if r is Some {
                let ci = r->Some_0 as int;
                let key = spec_trim(t.take(ci));
                let value = spec_trim(t.skip(ci + 1));
                if key.len() == 0 {
                    acc
                } else {
                    spec_kv_lines(lines.skip(1), assoc_insert(acc, key, value))
                }
            } else {
                spec_kv_lines(lines.skip(1), assoc_insert(acc, t, Seq::<char>::empty()))
            }
        }
    }
}

/// The mapping read from a whole metadata block.
pub open spec fn spec_frontmatter(s: Seq<char>) -> Seq<(Seq<char>, Seq<char>)> {
    spec_kv_lines(split_at_char(s, '\n'), Seq::<(Seq<char>, Seq<char>)>::empty())
}

/// Parse the key/value lines of a metadata block.
pub fn process_frontmatter(metadata_string: &str) -> (r: Metadata)
    ensures
        r@ == spec_frontmatter(metadata_string@),
{
    let ghost s = metadata_string@;
    let lines = split_lines(metadata_string);
    let ghost lv = strs_view(lines@);
    let mut md = Metadata::new();
    let n = lines.len();
    let mut i: usize = 0;
    let mut stopped = false;
    proof {
        assert(lv.skip(0) =~= lv);
    }
    while i < n && !stopped
        invariant
            i <= n,
            n == lines@.len(),
            lv == strs_view(lines@),
            lv == split_at_char(s, '\n'),
            !stopped ==> spec_kv_lines(lv, Seq::<(Seq<char>, Seq<char>)>::empty())
                == spec_kv_lines(lv.skip(i as int), md@),
            stopped ==> spec_kv_lines(lv, Seq::<(Seq<char>, Seq<char>)>::empty()) == md@,
        decreases n - i, (if stopped {
            0int
        } else {
            1int
        }),
    {
        proof {
            assert(lv.skip(i as int)[0] == lv[i as int]);
            assert(lv.skip(i as int).skip(1) =~= lv.skip(i as int + 1));
        }
        let line = &lines[i];
        let t = trim(line.as_str());
        if t.unicode_len() == 0 {
            i += 1;
        } else {
            match find_char(t, ':', 0) {
                Some(ci) => {
                    let key_part = t.substring_char(0, ci);
                    let key = trim(key_part);
                    proof {
                        assert(key_part@ =~= t@.take(ci as int));
                    }
                    if key.unicode_len() == 0 {
                        stopped = true;
                    } else {
                        let value_part = t.substring_char(ci + 1, t.unicode_len());
                        let value = trim(value_part);
                        proof {
                            assert(value_part@ =~= t@.skip(ci as int + 1));
                        }
                        md.insert(key.to_owned(), value.to_owned());
                        i += 1;
                    }
                },
                None => {
                    md.insert(t.to_owned(), String::new());
                    i += 1;
                },
            }
        }
    }
    proof {
        if !stopped {
            assert(lv.skip(n as int).len() == 0);
        }
    }
    md
}

/// The file starts with the delimiter line `---`.
pub open spec fn fm_delim() -> Seq<char> {
    seq!['-', '-', '-', '\n']
}

/// The delimiter at the very end of a file, with no trailing newline.
pub open spec fn fm_close() -> Seq<char> {
    seq!['-', '-', '-']
}

pub open spec fn starts_with_delim(s: Seq<char>) -> bool {
    s.len() >= 4 && s.subrange(0, 4) == fm_delim()
}

/// A closing delimiter line stands at `i`: either `---` followed by a
/// newline, or `---` at the very end of the text.
pub open spec fn is_close_at(s: Seq<char>, i: int) -> bool {
    (0 <= i && i + 4 <= s.len() && s.subrange(i, i + 4) == fm_delim()) || (0 <= i && i + 3
        == s.len() && s.subrange(i, i + 3) == fm_close())
}

/// Position of the first closing delimiter at or after `i`.
pub open spec fn find_close_from(s: Seq<char>, i: nat) -> Option<nat>
    decreases s.len() - i,
{
    if i + 3 > s.len() {
        None
    } else if is_close_at(s, i as int) {
        Some(i)
    } else {
        find_close_from(s, i + 1)
    }
}

pub proof fn lemma_find_close_in_range(s: Seq<char>, i: nat)
    ensures
        match find_close_from(s, i) {
            Some(j) => i <= j && j + 3 <= s.len() && is_close_at(s, j as int) && forall|m: int|
                i <= m < j ==> !is_close_at(s, m),
            None => forall|m: int| i <= m < s.len() ==> !is_close_at(s, m),
        },
    decreases s.len() - i,
{
    if i + 3 > s.len() {
        assert forall|m: int| i <= m < s.len() implies !is_close_at(s, m) by {}
    } else if is_close_at(s, i as int) {
    } else {
        lemma_find_close_in_range(s, i + 1);
    }
}

/// The content body that follows the closing delimiter found at `i`.
pub open spec fn close_content(rest: Seq<char>, i: int) -> Seq<char> {
    if i + 4 <= rest.len() && rest.subrange(i, i + 4) == fm_delim() {
        rest.skip(i + 4)
    } else {
        Seq::<char>::empty()
    }
}

/// The full result of parsing a raw file: the metadata block as a mapping
/// and the verbatim content body, side by side.
pub open spec fn spec_parse(s: Seq<char>) -> (Seq<(Seq<char>, Seq<char>)>, Seq<char>) {
    if starts_with_delim(s) {
        let rest = s.skip(4);
        let r = find_close_from(rest, 0);
        if r is Some {
            let i = r->Some_0 as int;
            (spec_frontmatter(rest.take(i)), close_content(rest, i))
        } else {
            (Seq::<(Seq<char>, Seq<char>)>::empty(), s)
        }
    } else {
        (Seq::<(Seq<char>, Seq<char>)>::empty(), s)
    }
}

/// A text that does not begin with a delimiter line parses to no metadata:
/// the whole text is the content body.
pub proof fn lemma_parse_no_frontmatter(t: Seq<char>)
    requires
        !starts_with_delim(t),
    ensures
        spec_parse(t).0 == Seq::<(Seq<char>, Seq<char>)>::empty(),
        spec_parse(t).1 == t,
{
}

/// The first closing delimiter is the first position where one stands.
pub proof fn lemma_find_close_first(s: Seq<char>, i: nat, j: nat)
    requires
        i <= j,
        j + 3 <= s.len(),
        is_close_at(s, j as int),
        forall|k: int| i <= k < j ==> !is_close_at(s, k),
    ensures
        find_close_from(s, i) == Some(j),
    decreases j - i,
{
    if i == j {
    } else {
        assert(!is_close_at(s, i as int));
        lemma_find_close_first(s, i + 1, j);
    }
}

/// A well-delimited file parses into its block and its verbatim content:
/// for a metadata block `m` free of delimiter lines and any content `c`,
/// parsing `---\n` + `m` + `---\n` + `c` yields the key/value mapping of `m`
/// beside `c` itself — delimiter lines inside `c` are not structural.
pub proof fn lemma_parse_roundtrip(m: Seq<char>, c: Seq<char>)
    requires
        forall|i: int| 0 <= i && i + 4 <= m.len() ==> #[trigger] m.subrange(i, i + 4) != fm_delim(),
    ensures
        spec_parse(fm_delim() + m + fm_delim() + c).0 == spec_frontmatter(m),
        spec_parse(fm_delim() + m + fm_delim() + c).1 == c,
{
    let t = fm_delim() + m + fm_delim() + c;
    let rest = m + fm_delim() + c;
    let n = m.len() as int;
    assert(t.subrange(0, 4) =~= fm_delim());
    assert(starts_with_delim(t));
    assert(t.skip(4) =~= rest);
    assert(rest.subrange(n, n + 4) =~= fm_delim());
    assert(is_close_at(rest, n));
    assert forall|i: int| 0 <= i < n implies !is_close_at(rest, i) by {
        assert(i + 3 < rest.len());
        if i + 4 <= n {
            assert(rest.subrange(i, i + 4) =~= m.subrange(i, i + 4));
        } else {
            assert(rest[i + 3] == fm_delim()[i + 3 - n]);
            assert(rest[i + 3] != '\n');
            if rest.subrange(i, i + 4) == fm_delim() {
                assert(rest[i + 3] == rest.subrange(i, i + 4)[3]);
                assert(false);
            }
        }
    }
    lemma_find_close_first(rest, 0, n as nat);
    assert(rest.take(n) =~= m);
    assert(close_content(rest, n) =~= c);
}

/// A file whose closing delimiter ends the text, with no trailing newline,
/// still parses, with an empty content body.
pub proof fn lemma_parse_final_delimiter(m: Seq<char>)
    requires
        forall|i: int| 0 <= i && i + 4 <= m.len() ==> #[trigger] m.subrange(i, i + 4) != fm_delim(),
    ensures
        spec_parse(fm_delim() + m + fm_close()).0 == spec_frontmatter(m),
        spec_parse(fm_delim() + m + fm_close()).1 == Seq::<char>::empty(),
{
    let t = fm_delim() + m + fm_close();
    let rest = m + fm_close();
    let n = m.len() as int;
    assert(t.subrange(0, 4) =~= fm_delim());
    assert(starts_with_delim(t));
    assert(t.skip(4) =~= rest);
    assert(rest.subrange(n, n + 3) =~= fm_close());
    assert(n + 3 == rest.len());
    assert(is_close_at(rest, n));
    assert forall|i: int| 0 <= i < n implies !is_close_at(rest, i) by {
        assert(i + 3 < rest.len());
        if i + 4 <= n {
            assert(rest.subrange(i, i + 4) =~= m.subrange(i, i + 4));
        } else {
            if i + 4 <= rest.len() {
                assert(rest[i + 3] == fm_close()[i + 3 - n]);
                assert(rest[i + 3] != '\n');
                if rest.subrange(i, i + 4) == fm_delim() {
                    assert(rest[i + 3] == rest.subrange(i, i + 4)[3]);
                    assert(false);
                }
            }
        }
    }
    lemma_find_close_first(rest, 0, n as nat);
    assert(rest.take(n) =~= m);
    assert(close_content(rest, n) =~= Seq::<char>::empty());
}

/// Find the first closing delimiter line of `s`.
fn find_close(s: &str) -> (r: Option<usize>)
    ensures
        match r {
            Some(i) => find_close_from(s@, 0) == Some(i as nat) && i + 3 <= s@.len(),
            None => find_close_from(s@, 0) is None,
        },
{
    let n = s.unicode_len();
    if n < 3 {
        return None;
    }
    let mut i: usize = 0;
    while i <= n - 3
        invariant
            3 <= n,
            i <= n - 2,
            n == s@.len(),
            find_close_from(s@, 0) == find_close_from(s@, i as nat),
        decreases n - i,
    {
        let d3 = s.get_char(i) == '-' && s.get_char(i + 1) == '-' && s.get_char(i + 2) == '-';
        if d3 && i + 3 == n {
            proof {
                assert(s@.subrange(i as int, i as int + 3) =~= fm_close());
                assert(is_close_at(s@, i as int));
            }
            return Some(i);
        }
        if d3 && i + 3 < n && s.get_char(i + 3) == '\n' {
            proof {
                assert(s@.subrange(i as int, i as int + 4) =~= fm_delim());
                assert(is_close_at(s@, i as int));
            }
            return Some(i);
        }
        proof {
            let gi = i as int;
            if s@.subrange(gi, gi + 4) == fm_delim() && gi + 4 <= n {
                assert(s@[gi] == s@.subrange(gi, gi + 4)[0]);
                assert(s@[gi + 1] == s@.subrange(gi, gi + 4)[1]);
                assert(s@[gi + 2] == s@.subrange(gi, gi + 4)[2]);
                assert(s@[gi + 3] == s@.subrange(gi, gi + 4)[3]);
                assert(false);
            }
            if s@.subrange(gi, gi + 3) == fm_close() && gi + 3 == n {
                assert(s@[gi] == s@.subrange(gi, gi + 3)[0]);
                assert(s@[gi + 1] == s@.subrange(gi, gi + 3)[1]);
                assert(s@[gi + 2] == s@.subrange(gi, gi + 3)[2]);
                assert(false);
            }
            assert(!is_close_at(s@, gi));
        }
        i += 1;
    }
    None
}

/// Split a raw file into metadata and content: the reserved key `content`
/// holds the body, the other keys come from the frontmatter block.
pub fn get_file_metadata(file_string: &str) -> (r: (Metadata, String))
    ensures
        r.0@ == spec_parse(file_string@).0,
        r.1@ == spec_parse(file_string@).1,
{
    let ghost s = file_string@;
    let n = file_string.unicode_len();
    let has_delim = n >= 4 && file_string.get_char(0) == '-' && file_string.get_char(1) == '-'
        && file_string.get_char(2) == '-' && file_string.get_char(3) == '\n';
    proof {
        if has_delim {
            assert(s.subrange(0, 4) =~= fm_delim());
        } else if n >= 4 {
            if s.subrange(0, 4) == fm_delim() {
                assert(s[0] == s.subrange(0, 4)[0]);
                assert(s[1] == s.subrange(0, 4)[1]);
                assert(s[2] == s.subrange(0, 4)[2]);
                assert(s[3] == s.subrange(0, 4)[3]);
                assert(false);
            }
        }
    }
    if !has_delim {
        return (Metadata::new(), file_string.to_owned());
    }
    let rest = file_string.substring_char(4, n);
    proof {
        assert(rest@ =~= s.skip(4));
    }
    match find_close(rest) {
        Some(i) => {
            let m = rest.unicode_len();
            let fm_part = rest.substring_char(0, i);
            proof {
                assert(fm_part@ =~= rest@.take(i as int));
            }
            let md = process_frontmatter(fm_part);
            let content: String = if i + 4 <= m {
                proof {
                    lemma_find_close_in_range(rest@, 0);
                    assert(i as int + 3 != rest@.len());
                    assert(rest@.subrange(i as int, i as int + 4) == fm_delim());
                }
                let c = rest.substring_char(i + 4, m);
                proof {
                    assert(c@ =~= close_content(rest@, i as int));
                }
                c.to_owned()
            } else {
                proof {
                    assert(close_content(rest@, i as int) =~= Seq::<char>::empty());
                }
                String::new()
            };
            (md, content)
        },
        None => (Metadata::new(), file_string.to_owned()),
    }
}

} // verus!
