//! The template expander boundary.
//!
//! The layout resolver drives an expander through this trait: each
//! implementation states, as the relation `expands_to`, what its results may
//! be. The content-tag expander here is fully verified and substitutes the
//! rendered child output for each `{{Content}}` tag; the engine-backed
//! expander lives beside the resolver and admits any outcome.

use vstd::prelude::*;

use crate::assoc::assoc_get;
use crate::context::{content_var, ValView, VarContext, VarValue};
use crate::text::str_equal;

verus! {

/// What an expander may return for a template source and a variable context.
/// An `Err` carries the expander's message, passed through unmodified.
pub trait TemplateExpander {
    /// The relation between inputs and permitted results.
    spec fn expands_to(
        &self,
        source: Seq<char>,
        context: Seq<(Seq<char>, ValView)>,
        result: Result<Seq<char>, Seq<char>>,
    ) -> bool;

    /// Expand `source` against `context`.
    fn expand(&self, source: &str, context: &VarContext) -> (r: Result<String, String>)
        ensures
            self.expands_to(source@, context@, expand_result_view(r)),
    ;
}

/// The views of an expansion result.
pub open spec fn expand_result_view(r: Result<String, String>) -> Result<Seq<char>, Seq<char>> {
    match r {
        Ok(s) => Ok(s@),
        Err(e) => Err(e@),
    }
}

/// The literal content tag.
pub open spec fn content_tag() -> Seq<char> {
    seq!['{', '{', 'C', 'o', 'n', 't', 'e', 'n', 't', '}', '}']
}

pub proof fn lemma_content_tag()
    ensures
        "{{Content}}"@ == content_tag(),
{
    reveal_strlit("{{Content}}");
    assert("{{Content}}"@ =~= content_tag());
}

/// The content tag stands at position `i` of `s`.
pub open spec fn is_tag_at(s: Seq<char>, i: int) -> bool {
    0 <= i && i + 11 <= s.len() && s.subrange(i, i + 11) == content_tag()
}

/// Position of the first content tag at or after `i`.
pub open spec fn find_tag_from(s: Seq<char>, i: nat) -> Option<nat>
    decreases s.len() - i,
{
    if i + 11 > s.len() {
        None
    } else if is_tag_at(s, i as int) {
        Some(i)
    } else {
        find_tag_from(s, i + 1)
    }
}

/// `s` with every content tag replaced by `val`, left to right.
pub open spec fn spec_substitute(s: Seq<char>, val: Seq<char>) -> Seq<char>
    decreases s.len(),
{
    let r = find_tag_from(s, 0);
    if r is Some && r->Some_0 + 11 <= s.len() {
        let i = r->Some_0 as int;
        s.take(i) + val + spec_substitute(s.skip(i + 11), val)
    } else {
        s
    }
}

/// Searching in a suffix finds the same tag, shifted.
pub proof fn lemma_find_tag_shift(s: Seq<char>, p: nat, i: nat)
    requires
        p <= s.len(),
    ensures
        find_tag_from(s, p + i) == match find_tag_from(s.skip(p as int), i) {
            Some(k) => Some((k + p) as nat),
            None => None::<nat>,
        },
    decreases s.len() - p - i,
{
    if p + i + 11 > s.len() {
    } else {
        assert(s.skip(p as int).subrange(i as int, i as int + 11) =~= s.subrange(
            (p + i) as int,
            (p + i) as int + 11,
        ));
        if is_tag_at(s, (p + i) as int) {
            assert(is_tag_at(s.skip(p as int), i as int));
        } else {
            assert(!is_tag_at(s.skip(p as int), i as int));
            lemma_find_tag_shift(s, p, i + 1);
        }
    }
}

/// The content tag stands at `i` exactly when the next eleven characters
/// read `{{Content}}`.
fn matches_tag_at(s: &str, i: usize) -> (r: bool)
    requires
        i + 11 <= s@.len(),
        s@.len() <= usize::MAX,
    ensures
        r == is_tag_at(s@, i as int),
{
    let w = s.substring_char(i, i + 11);
    proof {
        lemma_content_tag();
    }
    str_equal(w, "{{Content}}")
}

fn find_tag(s: &str, from: usize) -> (r: Option<usize>)
    requires
        from <= s@.len(),
    ensures
        match r {
            Some(j) => from <= j && j + 11 <= s@.len() && find_tag_from(s@, from as nat) == Some(
                j as nat,
            ),
            None => find_tag_from(s@, from as nat) is None,
        },
{
    let n = s.unicode_len();
    if n < 11 {
        return None;
    }
    let mut i: usize = from;
    while i <= n - 11
        invariant
            from <= i,
            11 <= n,
            n == s@.len(),
            find_tag_from(s@, from as nat) == find_tag_from(s@, i as nat),
        decreases n - i,
    {
        if matches_tag_at(s, i) {
            return Some(i);
        }
        i += 1;
    }
    None
}

/// Replace every content tag in `source` with `val`.
pub fn substitute_content(source: &str, val: &str) -> (r: String)
    ensures
        r@ == spec_substitute(source@, val@),
{
    let n = source.unicode_len();
    let mut out = String::new();
    let mut pos: usize = 0;
    let mut done = false;
    proof {
        assert(source@.skip(0) =~= source@);
        assert(out@ + spec_substitute(source@, val@) =~= spec_substitute(source@, val@));
    }
    while !done
        invariant
            pos <= n,
            n == source@.len(),
            !done ==> spec_substitute(source@, val@) == out@ + spec_substitute(
                source@.skip(pos as int),
                val@,
            ),
            done ==> spec_substitute(source@, val@) == out@,
        decreases n - pos, (if done {
            0int
        } else {
            1int
        }),
    {
        let ghost tail = source@.skip(pos as int);
        proof {
            lemma_find_tag_shift(source@, pos as nat, 0);
        }
        match find_tag(source, pos) {
            Some(j) => {
                let piece = source.substring_char(pos, j);
                out.append(piece);
                out.append(val);
                proof {
                    let k = (j - pos) as int;
                    assert(find_tag_from(tail, 0) == Some(k as nat));
                    assert(spec_substitute(tail, val@) == tail.take(k) + val@ + spec_substitute(
                        tail.skip(k + 11),
                        val@,
                    ));
                    assert(tail.take(k) =~= piece@);
                    assert(tail.skip(k + 11) =~= source@.skip(j + 11));
                }
                pos = j + 11;
            },
            None => {
                let piece = source.substring_char(pos, n);
                out.append(piece);
                proof {
                    assert(find_tag_from(tail, 0) is None);
                    assert(spec_substitute(tail, val@) == tail);
                    assert(tail =~= piece@);
                }
                done = true;
            },
        }
    }
    out
}

/// The value the content-tag expander substitutes: the context's reserved
/// `Content` variable where it is a string, the empty string otherwise.
pub open spec fn content_value(ctx: Seq<(Seq<char>, ValView)>) -> Seq<char> {
    match assoc_get(ctx, content_var()) {
        Some(v) => match v {
            ValView::Str(s) => s,
            ValView::Int(_) => Seq::empty(),
        },
        None => Seq::empty(),
    }
}

/// A fully verified expander: it substitutes the context's `Content`
/// variable for each content tag and never fails.
pub struct ContentTagExpander {}

impl ContentTagExpander {
    pub fn new() -> (r: ContentTagExpander) {
        ContentTagExpander {  }
    }
}

impl TemplateExpander for ContentTagExpander {
    open spec fn expands_to(
        &self,
        source: Seq<char>,
        context: Seq<(Seq<char>, ValView)>,
        result: Result<Seq<char>, Seq<char>>,
    ) -> bool {
        result == Ok::<Seq<char>, Seq<char>>(spec_substitute(source, content_value(context)))
    }

    fn expand(&self, source: &str, context: &VarContext) -> (r: Result<String, String>) {
        proof {
            crate::context::lemma_content_var();
        }
        let val: String = match context.get("Content") {
            Some(v) => match v {
                VarValue::Str(s) => s.clone(),
                VarValue::Int(_) => String::new(),
            },
            None => String::new(),
        };
        proof {
            assert(val@ == content_value(context@));
        }
        let out = substitute_content(source, val.as_str());
        Ok(out)
    }
}

} // verus!
