//! The variable context: an ordered mapping from variable name to a scalar
//! or string value, and the context merger.
//!
//! A merge combines a metadata mapping with an existing context into a new
//! context; the input context is never mutated, so a context can seed many
//! sibling renders without accumulating cross-call state.

use vstd::prelude::*;

use crate::assoc::{
    assoc_contains, assoc_get, assoc_insert, assoc_wf, find_pair_index, lemma_assoc_get_found,
    lemma_assoc_get_none, lemma_assoc_get_some_exists, lemma_assoc_insert_append,
    lemma_assoc_insert_found, lemma_assoc_insert_get, lemma_assoc_insert_wf,
};
use crate::frontmatter::Metadata;

verus! {

/// The reserved context variable that carries the rendered child output into
/// the enclosing layout.
pub open spec fn content_var() -> Seq<char> {
    seq!['C', 'o', 'n', 't', 'e', 'n', 't']
}

pub proof fn lemma_content_var()
    ensures
        "Content"@ == content_var(),
{
    reveal_strlit("Content");
    assert("Content"@ =~= content_var());
}

/// A scalar template variable: a string or an integer.
#[derive(Debug)]
pub enum VarValue {
    Str(String),
    Int(i64),
}

/// What a variable value denotes.
pub enum ValView {
    Str(Seq<char>),
    Int(int),
}

impl View for VarValue {
    type V = ValView;

    open spec fn view(&self) -> ValView {
        match self {
            VarValue::Str(s) => ValView::Str(s@),
            VarValue::Int(i) => ValView::Int(*i as int),
        }
    }
}

impl Clone for VarValue {
    /// A clone denotes the same value.
    fn clone(&self) -> (r: Self)
        ensures
            r@ == self@,
    {
        match self {
            VarValue::Str(s) => VarValue::Str(s.clone()),
            VarValue::Int(i) => VarValue::Int(*i),
        }
    }
}

impl PartialEq for VarValue {
    fn eq(&self, other: &Self) -> (r: bool) {
        match (self, other) {
            (VarValue::Str(a), VarValue::Str(b)) => crate::text::str_equal(a.as_str(), b.as_str()),
            (VarValue::Int(a), VarValue::Int(b)) => *a == *b,
            _ => false,
        }
    }
}

impl vstd::std_specs::cmp::PartialEqSpecImpl for VarValue {
    open spec fn obeys_eq_spec() -> bool {
        true
    }

    open spec fn eq_spec(&self, other: &Self) -> bool {
        self@ == other@
    }
}

/// An ordered mapping from variable name to value, with distinct names.
#[derive(Debug)]
pub struct VarContext {
    pairs: Vec<(String, VarValue)>,
}

/// The views of a name/value pair sequence.
pub open spec fn ctx_pairs_view(v: Seq<(String, VarValue)>) -> Seq<(Seq<char>, ValView)> {
    Seq::new(v.len(), |i: int| (v[i].0@, v[i].1@))
}

impl View for VarContext {
    type V = Seq<(Seq<char>, ValView)>;

    closed spec fn view(&self) -> Seq<(Seq<char>, ValView)> {
        ctx_pairs_view(self.pairs@)
    }
}

impl VarContext {
    /// Holds of every value of the type.
    #[verifier::type_invariant]
    pub open spec fn wf(self) -> bool {
        assoc_wf(self@)
    }

    pub fn new() -> (r: VarContext)
        ensures
            r@ == Seq::<(Seq<char>, ValView)>::empty(),
    {
        let r = VarContext { pairs: Vec::new() };
        proof {
            assert(r@ =~= Seq::<(Seq<char>, ValView)>::empty());
        }
        r
    }

    pub fn len(&self) -> (r: usize)
        ensures
            r == self@.len(),
    {
        self.pairs.len()
    }

    /// Mapping insert: a bound name keeps its position, a new name is appended.
    pub fn insert(&mut self, key: String, value: VarValue)
        ensures
            final(self)@ == assoc_insert(old(self)@, key@, value@),
    {
        proof {
            use_type_invariant(&*self);
        }
        let ghost old_view = self@;
        let mut pairs: Vec<(String, VarValue)> = Vec::new();
        std::mem::swap(&mut pairs, &mut self.pairs);
        proof {
            assert(self@ =~= Seq::<(Seq<char>, ValView)>::empty());
        }
        match find_pair_index(&pairs, key.as_str()) {
            Some(i) => {
                proof {
                    lemma_assoc_insert_found(old_view, key@, value@, i as int);
                }
                pairs[i] = (key, value);
                proof {
                    assert(ctx_pairs_view(pairs@) =~= assoc_insert(old_view, key@, value@));
                }
            },
            None => {
                proof {
                    lemma_assoc_insert_append(old_view, key@, value@);
                }
                pairs.push((key, value));
                proof {
                    assert(ctx_pairs_view(pairs@) =~= assoc_insert(old_view, key@, value@));
                }
            },
        }
        proof {
            lemma_assoc_insert_wf(old_view, key@, value@);
        }
        self.pairs = pairs;
    }

    pub fn get(&self, key: &str) -> (r: Option<&VarValue>)
        ensures
            match r {
                Some(v) => assoc_get(self@, key@) == Some(v@),
                None => assoc_get(self@, key@) is None,
            },
    {
        match find_pair_index(&self.pairs, key) {
            Some(i) => {
                proof {
                    lemma_assoc_get_found(self@, key@, i as int);
                }
                Some(&self.pairs[i].1)
            },
            None => {
                proof {
                    lemma_assoc_get_none(self@, key@);
                }
                None
            },
        }
    }

    pub fn contains_key(&self, key: &str) -> (r: bool)
        ensures
            r == assoc_contains(self@, key@),
    {
        self.get(key).is_some()
    }

    /// The name of the pair at position `i`.
    pub fn key_at(&self, i: usize) -> (r: &String)
        requires
            i < self@.len(),
        ensures
            r@ == self@[i as int].0,
    {
        &self.pairs[i].0
    }

    /// The value of the pair at position `i`.
    pub fn value_at(&self, i: usize) -> (r: &VarValue)
        requires
            i < self@.len(),
        ensures
            r@ == self@[i as int].1,
    {
        &self.pairs[i].1
    }
}

impl Clone for VarContext {
    /// A clone denotes the same mapping.
    fn clone(&self) -> (r: Self)
        ensures
            r@ == self@,
    {
        proof {
            use_type_invariant(&*self);
        }
        let n = self.pairs.len();
        let mut pairs: Vec<(String, VarValue)> = Vec::new();
        let mut i: usize = 0;
        while i < n
            invariant
                i <= n,
                n == self.pairs@.len(),
                pairs@.len() == i,
                forall|j: int|
                    0 <= j < i ==> pairs@[j].0@ == self.pairs@[j].0@ && pairs@[j].1@
                        == self.pairs@[j].1@,
            decreases n - i,
        {
            let k = self.pairs[i].0.clone();
            let v = self.pairs[i].1.clone();
            pairs.push((k, v));
            i += 1;
        }
        proof {
            assert(ctx_pairs_view(pairs@) =~= self@);
        }
        let r = VarContext { pairs };
        r
    }
}

impl PartialEq for VarContext {
    /// Two contexts are equal when they bind the same names to the same
    /// values, in any order.
    fn eq(&self, other: &Self) -> (r: bool) {
        proof {
            use_type_invariant(&*self);
            use_type_invariant(&*other);
        }
        let n1 = self.pairs.len();
        let mut i: usize = 0;
        while i < n1
            invariant
                i <= n1,
                n1 == self@.len(),
                assoc_wf(self@),
                assoc_wf(other@),
                forall|j: int| 0 <= j < i ==> assoc_get(other@, self@[j].0) == Some(self@[j].1),
            decreases n1 - i,
        {
            proof {
                lemma_assoc_get_found(self@, self@[i as int].0, i as int);
            }
            match other.get(self.pairs[i].0.as_str()) {
                Some(v2) => {
                    if !(self.pairs[i].1 == *v2) {
                        proof {
                            let ghost k0 = self@[i as int].0;
                            assert(assoc_get(self@, k0) != assoc_get(other@, k0));
                        }
                        return false;
                    }
                },
                None => {
                    proof {
                        let ghost k0 = self@[i as int].0;
                        assert(assoc_get(self@, k0) != assoc_get(other@, k0));
                    }
                    return false;
                },
            }
            i += 1;
        }
        let n2 = other.pairs.len();
        let mut j: usize = 0;
        while j < n2
            invariant
                j <= n2,
                n2 == other@.len(),
                assoc_wf(self@),
                assoc_wf(other@),
                forall|m: int|
                    0 <= m < self@.len() ==> assoc_get(other@, self@[m].0) == Some(self@[m].1),
                forall|m: int| 0 <= m < j ==> assoc_contains(self@, other@[m].0),
            decreases n2 - j,
        {
            match self.get(other.pairs[j].0.as_str()) {
                Some(_) => {},
                None => {
                    proof {
                        let ghost k0 = other@[j as int].0;
                        lemma_assoc_get_found(other@, k0, j as int);
                        assert(assoc_get(self@, k0) != assoc_get(other@, k0));
                    }
                    return false;
                },
            }
            j += 1;
        }
        proof {
            assert forall|k: Seq<char>| assoc_get(self@, k) == assoc_get(other@, k) by {
                if assoc_contains(self@, k) {
                    lemma_assoc_get_some_exists(self@, k);
                    let m = choose|m: int| 0 <= m < self@.len() && self@[m].0 == k;
                    lemma_assoc_get_found(self@, k, m);
                } else {
                    if assoc_contains(other@, k) {
                        lemma_assoc_get_some_exists(other@, k);
                        let m = choose|m: int| 0 <= m < other@.len() && other@[m].0 == k;
                        assert(assoc_contains(self@, other@[m].0));
                    }
                }
            }
        }
        true
    }
}

impl vstd::std_specs::cmp::PartialEqSpecImpl for VarContext {
    open spec fn obeys_eq_spec() -> bool {
        true
    }

    open spec fn eq_spec(&self, other: &Self) -> bool {
        forall|k: Seq<char>| assoc_get(self@, k) == assoc_get(other@, k)
    }
}

/// The context obtained by inserting every metadata pair, in order, into `g`.
pub open spec fn spec_merge(
    md: Seq<(Seq<char>, Seq<char>)>,
    g: Seq<(Seq<char>, ValView)>,
) -> Seq<(Seq<char>, ValView)>
    decreases md.len(),
{
    if md.len() == 0 {
        g
    } else {
        spec_merge(md.skip(1), assoc_insert(g, md[0].0, ValView::Str(md[0].1)))
    }
}

/// Merging an empty metadata mapping is a no-op: the new context equals the
/// input context in value.
pub proof fn lemma_merge_empty_metadata(md: Seq<(Seq<char>, Seq<char>)>, g: Seq<(Seq<char>, ValView)>)
    requires
        md.len() == 0,
    ensures
        spec_merge(md, g) == g,
{
}

/// What a merged context binds: every metadata key overwrites, every other
/// name keeps the value it had in the input context.
pub proof fn lemma_merge_get(
    md: Seq<(Seq<char>, Seq<char>)>,
    g: Seq<(Seq<char>, ValView)>,
    k: Seq<char>,
)
    requires
        assoc_wf(md),
    ensures
        assoc_get(spec_merge(md, g), k) == match assoc_get(md, k) {
            Some(v) => Some(ValView::Str(v)),
            None => assoc_get(g, k),
        },
    decreases md.len(),
{
    if md.len() == 0 {
    } else {
        let g2 = assoc_insert(g, md[0].0, ValView::Str(md[0].1));
        assert(assoc_wf(md.skip(1))) by {
            assert forall|i: int, j: int|
                0 <= i < j < md.skip(1).len() implies md.skip(1)[i].0 != md.skip(1)[j].0 by {
                assert(md.skip(1)[i] == md[i + 1]);
                assert(md.skip(1)[j] == md[j + 1]);
            }
        }
        lemma_merge_get(md.skip(1), g2, k);
        lemma_assoc_insert_get(g, md[0].0, ValView::Str(md[0].1), k);
        if k == md[0].0 {
            assert forall|j: int| 0 <= j < md.skip(1).len() implies md.skip(1)[j].0 != k by {
                assert(md.skip(1)[j] == md[j + 1]);
            }
            lemma_assoc_get_none(md.skip(1), k);
        } else {
            assert(assoc_get(md, k) == assoc_get(md.skip(1), k));
        }
    }
}

/// Merge a metadata mapping into a variable context, producing a new context.
/// Metadata values become string variables; the input context is unaffected.
pub fn merge_globals(file_metadata: &Metadata, globals: &VarContext) -> (r: VarContext)
    ensures
        r@ == spec_merge(file_metadata@, globals@),
{
    let mut new_globals = globals.clone();
    let n = file_metadata.len();
    let mut i: usize = 0;
    proof {
        assert(file_metadata@.skip(0) =~= file_metadata@);
    }
    while i < n
        invariant
            i <= n,
            n == file_metadata@.len(),
            spec_merge(file_metadata@, globals@) == spec_merge(
                file_metadata@.skip(i as int),
                new_globals@,
            ),
        decreases n - i,
    {
        proof {
            assert(file_metadata@.skip(i as int)[0] == file_metadata@[i as int]);
            assert(file_metadata@.skip(i as int).skip(1) =~= file_metadata@.skip(i as int + 1));
        }
        let k = file_metadata.key_at(i).clone();
        let v = file_metadata.value_at(i).clone();
        new_globals.insert(k, VarValue::Str(v));
        i += 1;
    }
    proof {
        assert(file_metadata@.skip(n as int).len() == 0);
    }
    new_globals
}

/// Bind the rendered child output to the reserved `Content` variable,
/// overwriting any variable of that name.
pub fn add_content_to_global(globals: &mut VarContext, content: String)
    ensures
        final(globals)@ == assoc_insert(old(globals)@, content_var(), ValView::Str(content@)),
{
    proof {
        lemma_content_var();
    }
    globals.insert("Content".to_owned(), VarValue::Str(content));
}

} // verus!
