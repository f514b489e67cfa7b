//! The layout registry: a mapping from layout name (a file stem) to the
//! layout's parsed metadata and its content body template source, built once
//! at construction and read-only thereafter.

use vstd::prelude::*;

use crate::assoc::{
    assoc_contains, assoc_get, assoc_insert, assoc_wf, find_pair_index, lemma_assoc_get_found,
    lemma_assoc_get_none, lemma_assoc_insert_append, lemma_assoc_insert_found,
    lemma_assoc_insert_wf,
};
use crate::frontmatter::{get_file_metadata, pairs_view, spec_parse, Metadata};

verus! {

/// A named wrapper template: its metadata mapping and its content body.
#[derive(Debug)]
pub struct LayoutEntry {
    pub metadata: Metadata,
    pub content: String,
}

impl View for LayoutEntry {
    type V = (Seq<(Seq<char>, Seq<char>)>, Seq<char>);

    open spec fn view(&self) -> (Seq<(Seq<char>, Seq<char>)>, Seq<char>) {
        (self.metadata@, self.content@)
    }
}

/// What the registry's entries denote: a layout name and its parsed file.
pub open spec fn entries_view(v: Seq<(String, LayoutEntry)>) -> Seq<
    (Seq<char>, (Seq<(Seq<char>, Seq<char>)>, Seq<char>)),
> {
    Seq::new(v.len(), |i: int| (v[i].0@, v[i].1@))
}

/// The registry built by parsing each named file in order: a later file with
/// the same stem overwrites an earlier one.
pub open spec fn spec_build_registry_from(
    files: Seq<(Seq<char>, Seq<char>)>,
    acc: Seq<(Seq<char>, (Seq<(Seq<char>, Seq<char>)>, Seq<char>))>,
) -> Seq<(Seq<char>, (Seq<(Seq<char>, Seq<char>)>, Seq<char>))>
    decreases files.len(),
{
    if files.len() == 0 {
        acc
    } else {
        spec_build_registry_from(
            files.skip(1),
            assoc_insert(acc, files[0].0, spec_parse(files[0].1)),
        )
    }
}

pub open spec fn spec_build_registry(files: Seq<(Seq<char>, Seq<char>)>) -> Seq<
    (Seq<char>, (Seq<(Seq<char>, Seq<char>)>, Seq<char>)),
> {
    spec_build_registry_from(files, Seq::empty())
}

proof fn lemma_build_registry_from_wf(
    files: Seq<(Seq<char>, Seq<char>)>,
    acc: Seq<(Seq<char>, (Seq<(Seq<char>, Seq<char>)>, Seq<char>))>,
)
    requires
        assoc_wf(acc),
    ensures
        assoc_wf(spec_build_registry_from(files, acc)),
    decreases files.len(),
{
    if files.len() == 0 {
    } else {
        lemma_assoc_insert_wf(acc, files[0].0, spec_parse(files[0].1));
        lemma_build_registry_from_wf(
            files.skip(1),
            assoc_insert(acc, files[0].0, spec_parse(files[0].1)),
        );
    }
}

/// A registry built from any file list binds pairwise distinct layout names.
pub proof fn lemma_build_registry_wf(files: Seq<(Seq<char>, Seq<char>)>)
    ensures
        assoc_wf(spec_build_registry(files)),
{
    lemma_build_registry_from_wf(
        files,
        Seq::<(Seq<char>, (Seq<(Seq<char>, Seq<char>)>, Seq<char>))>::empty(),
    );
}

/// A mapping from layout name to the layout's parsed metadata and content.
#[derive(Debug)]
pub struct LayoutRegistry {
    entries: Vec<(String, LayoutEntry)>,
}

impl View for LayoutRegistry {
    type V = Seq<(Seq<char>, (Seq<(Seq<char>, Seq<char>)>, Seq<char>))>;

    closed spec fn view(&self) -> Seq<(Seq<char>, (Seq<(Seq<char>, Seq<char>)>, Seq<char>))> {
        entries_view(self.entries@)
    }
}

impl LayoutRegistry {
    /// Holds of every value of the type: layout names are pairwise distinct.
    #[verifier::type_invariant]
    pub open spec fn wf(self) -> bool {
        assoc_wf(self@)
    }

    pub fn new() -> (r: LayoutRegistry)
        ensures
            r@ == Seq::<(Seq<char>, (Seq<(Seq<char>, Seq<char>)>, Seq<char>))>::empty(),
    {
        let r = LayoutRegistry { entries: Vec::new() };
        proof {
            assert(r@ =~= Seq::<(Seq<char>, (Seq<(Seq<char>, Seq<char>)>, Seq<char>))>::empty());
        }
        r
    }

    pub fn len(&self) -> (r: usize)
        ensures
            r == self@.len(),
    {
        self.entries.len()
    }

    /// Parse one layout file and store it under its name: a bound name keeps
    /// its position, a new name is appended.
    pub fn add_file_to_layout_collection(&mut self, file_stem: String, contents: &str)
        ensures
            final(self)@ == assoc_insert(old(self)@, file_stem@, spec_parse(contents@)),
    {
        proof {
            use_type_invariant(&*self);
        }
        let ghost old_view = self@;
        let (metadata, content) = get_file_metadata(contents);
        let entry = LayoutEntry { metadata, content };
        proof {
            assert(entry@ == spec_parse(contents@));
        }
        let mut entries: Vec<(String, LayoutEntry)> = Vec::new();
        std::mem::swap(&mut entries, &mut self.entries);
        proof {
            assert(self@ =~= Seq::<(Seq<char>, (Seq<(Seq<char>, Seq<char>)>, Seq<char>))>::empty());
        }
        match find_pair_index(&entries, file_stem.as_str()) {
            Some(i) => {
                proof {
                    lemma_assoc_insert_found(old_view, file_stem@, entry@, i as int);
                }
                entries[i] = (file_stem, entry);
                proof {
                    assert(entries_view(entries@) =~= assoc_insert(
                        old_view,
                        file_stem@,
                        spec_parse(contents@),
                    ));
                }
            },
            None => {
                proof {
                    lemma_assoc_insert_append(old_view, file_stem@, entry@);
                }
                entries.push((file_stem, entry));
                proof {
                    assert(entries_view(entries@) =~= assoc_insert(
                        old_view,
                        file_stem@,
                        spec_parse(contents@),
                    ));
                }
            },
        }
        proof {
            lemma_assoc_insert_wf(old_view, file_stem@, spec_parse(contents@));
        }
        self.entries = entries;
    }

    pub fn get(&self, name: &str) -> (r: Option<&LayoutEntry>)
        ensures
            match r {
                Some(v) => assoc_get(self@, name@) == Some(v@),
                None => assoc_get(self@, name@) is None,
            },
    {
        match find_pair_index(&self.entries, name) {
            Some(i) => {
                proof {
                    lemma_assoc_get_found(self@, name@, i as int);
                }
                Some(&self.entries[i].1)
            },
            None => {
                proof {
                    lemma_assoc_get_none(self@, name@);
                }
                None
            },
        }
    }

    pub fn contains(&self, name: &str) -> (r: bool)
        ensures
            r == assoc_contains(self@, name@),
    {
        self.get(name).is_some()
    }
}

/// Build a layout registry from named file contents, in order.
pub fn create_layout_collection(layout_files: &Vec<(String, String)>) -> (r: LayoutRegistry)
    ensures
        r@ == spec_build_registry(pairs_view(layout_files@)),
{
    let ghost fv = pairs_view(layout_files@);
    let mut layouts = LayoutRegistry::new();
    let n = layout_files.len();
    let mut i: usize = 0;
    proof {
        assert(fv.skip(0) =~= fv);
    }
    while i < n
        invariant
            i <= n,
            n == layout_files@.len(),
            fv == pairs_view(layout_files@),
            spec_build_registry(fv) == spec_build_registry_from(fv.skip(i as int), layouts@),
        decreases n - i,
    {
        proof {
            assert(fv.skip(i as int)[0] == fv[i as int]);
            assert(fv.skip(i as int).skip(1) =~= fv.skip(i as int + 1));
        }
        let stem = layout_files[i].0.clone();
        layouts.add_file_to_layout_collection(stem, layout_files[i].1.as_str());
        i += 1;
    }
    proof {
        assert(fv.skip(n as int).len() == 0);
    }
    layouts
}

} // verus!
