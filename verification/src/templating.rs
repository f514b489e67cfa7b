//! The Templator: frontmatter-driven layout resolution.
//!
//! A render merges the file's metadata into the variable context, expands the
//! file's content through the template expander, and, while the metadata
//! names a parent layout, wraps the result: the rendered output is bound to
//! the reserved `Content` variable and the named layout is resolved in turn.
//! A missing layout is an error, never a silent fallback. The algorithm
//! itself has no notion of a cycle; a recursion budget equal to the registry
//! size fails a cyclic chain with a distinct error instead of overflowing
//! the stack, which no acyclic input can observe.

use vstd::prelude::*;

use crate::assoc::{assoc_get, assoc_insert, assoc_wf};
use crate::context::{
    add_content_to_global, content_var, merge_globals, spec_merge, ValView, VarContext,
};
use crate::expander::{content_value, spec_substitute, ContentTagExpander, TemplateExpander};
use crate::frontmatter::{get_file_metadata, layout_key, lemma_layout_key, pairs_view, spec_parse, Metadata};
use crate::registry::{
    create_layout_collection, lemma_build_registry_wf, spec_build_registry, LayoutRegistry,
};

verus! {

/// Why a render failed.
#[derive(Debug)]
pub enum RenderError {
    /// The file to render could not be read.
    FileRead(String),
    /// A registry directory exists but could not be listed at construction.
    DirectoryScan(String),
    /// The named layout is not in the registry.
    LayoutNotFound(String),
    /// The layout chain exceeded the recursion budget, so it repeats a layout.
    LayoutCycle,
    /// The template expander rejected a source; its message passes through.
    TemplateExpansion(String),
}

/// What a render error denotes.
pub enum RenderErrorView {
    FileRead(Seq<char>),
    DirectoryScan(Seq<char>),
    LayoutNotFound(Seq<char>),
    LayoutCycle,
    TemplateExpansion(Seq<char>),
}

impl View for RenderError {
    type V = RenderErrorView;

    open spec fn view(&self) -> RenderErrorView {
        match self {
            RenderError::FileRead(s) => RenderErrorView::FileRead(s@),
            RenderError::DirectoryScan(s) => RenderErrorView::DirectoryScan(s@),
            RenderError::LayoutNotFound(s) => RenderErrorView::LayoutNotFound(s@),
            RenderError::LayoutCycle => RenderErrorView::LayoutCycle,
            RenderError::TemplateExpansion(s) => RenderErrorView::TemplateExpansion(s@),
        }
    }
}

impl RenderError {
    /// A human-readable account of the failure; an expansion error is the
    /// expander's own message, passed through unmodified.
    pub fn message(&self) -> (r: String)
        ensures
            r@ == match self@ {
                RenderErrorView::FileRead(s) => "failed to read file: "@ + s,
                RenderErrorView::DirectoryScan(s) => "failed to scan directory: "@ + s,
                RenderErrorView::LayoutNotFound(s) => "Layout "@ + s + " could not be found."@,
                RenderErrorView::LayoutCycle => "layout chain repeats a layout"@,
                RenderErrorView::TemplateExpansion(s) => s,
            },
    {
        match self {
            RenderError::FileRead(s) => {
                let mut m = String::new();
                m.append("failed to read file: ");
                m.append(s.as_str());
                m
            },
            RenderError::DirectoryScan(s) => {
                let mut m = String::new();
                m.append("failed to scan directory: ");
                m.append(s.as_str());
                m
            },
            RenderError::LayoutNotFound(s) => {
                let mut m = String::new();
                m.append("Layout ");
                m.append(s.as_str());
                m.append(" could not be found.");
                m
            },
            RenderError::LayoutCycle => {
                let mut m = String::new();
                m.append("layout chain repeats a layout");
                m
            },
            RenderError::TemplateExpansion(s) => {
                let mut m = String::new();
                m.append(s.as_str());
                m
            },
        }
    }
}

/// The views of a render result.
pub open spec fn render_result_view(r: Result<String, RenderError>) -> Result<
    Seq<char>,
    RenderErrorView,
> {
    match r {
        Ok(s) => Ok(s@),
        Err(e) => Err(e@),
    }
}

/// What the resolver may return for metadata `md`, content body `content`,
/// context `ctx` and a recursion budget of `fuel` against registry `reg`,
/// driving `expander`.
///
/// At each level the metadata is merged into the context and the content
/// body is expanded; the expander may fail with its own message. Otherwise,
/// without a layout key the expanded text is the result; a layout name
/// absent from the registry is the layout-not-found error; and a present
/// layout's metadata and content are resolved recursively against the merged
/// context with the expanded text bound to the `Content` variable, failing
/// with the cycle error when the budget is spent.
pub open spec fn resolves_to<E: TemplateExpander>(
    reg: Seq<(Seq<char>, (Seq<(Seq<char>, Seq<char>)>, Seq<char>))>,
    expander: &E,
    md: Seq<(Seq<char>, Seq<char>)>,
    content: Seq<char>,
    ctx: Seq<(Seq<char>, ValView)>,
    fuel: nat,
    r: Result<Seq<char>, RenderErrorView>,
) -> bool
    decreases fuel,
{
    let merged = spec_merge(md, ctx);
    ||| (match r {
        Err(RenderErrorView::TemplateExpansion(m)) => expander.expands_to(content, merged, Err(m)),
        _ => false,
    })
    ||| (exists|mid: Seq<char>|
        #[trigger] expander.expands_to(content, merged, Ok(mid)) && (match assoc_get(
            md,
            layout_key(),
        ) {
            None => r == Ok::<Seq<char>, RenderErrorView>(mid),
            Some(name) => match assoc_get(reg, name) {
                None => r == Err::<Seq<char>, RenderErrorView>(
                    RenderErrorView::LayoutNotFound(name),
                ),
                Some(entry) => if fuel == 0 {
                    r == Err::<Seq<char>, RenderErrorView>(RenderErrorView::LayoutCycle)
                } else {
                    resolves_to(
                        reg,
                        expander,
                        entry.0,
                        entry.1,
                        assoc_insert(merged, content_var(), ValView::Str(mid)),
                        (fuel - 1) as nat,
                        r,
                    )
                },
            },
        }))
}

/// Introduction form of `resolves_to` for a successful expansion `mid`.
pub proof fn lemma_resolves_to_step<E: TemplateExpander>(
    reg: Seq<(Seq<char>, (Seq<(Seq<char>, Seq<char>)>, Seq<char>))>,
    expander: &E,
    md: Seq<(Seq<char>, Seq<char>)>,
    content: Seq<char>,
    ctx: Seq<(Seq<char>, ValView)>,
    fuel: nat,
    mid: Seq<char>,
    r: Result<Seq<char>, RenderErrorView>,
)
    requires
        expander.expands_to(content, spec_merge(md, ctx), Ok(mid)),
        (match assoc_get(md, layout_key()) {
            None => r == Ok::<Seq<char>, RenderErrorView>(mid),
            Some(name) => match assoc_get(reg, name) {
                None => r == Err::<Seq<char>, RenderErrorView>(
                    RenderErrorView::LayoutNotFound(name),
                ),
                Some(entry) => if fuel == 0 {
                    r == Err::<Seq<char>, RenderErrorView>(RenderErrorView::LayoutCycle)
                } else {
                    resolves_to(
                        reg,
                        expander,
                        entry.0,
                        entry.1,
                        assoc_insert(spec_merge(md, ctx), content_var(), ValView::Str(mid)),
                        (fuel - 1) as nat,
                        r,
                    )
                },
            },
        }),
    ensures
        resolves_to(reg, expander, md, content, ctx, fuel, r),
{
}

/// Introduction form of `resolves_to` for a failed expansion.
pub proof fn lemma_resolves_to_expansion_error<E: TemplateExpander>(
    reg: Seq<(Seq<char>, (Seq<(Seq<char>, Seq<char>)>, Seq<char>))>,
    expander: &E,
    md: Seq<(Seq<char>, Seq<char>)>,
    content: Seq<char>,
    ctx: Seq<(Seq<char>, ValView)>,
    fuel: nat,
    m: Seq<char>,
)
    requires
        expander.expands_to(content, spec_merge(md, ctx), Err(m)),
    ensures
        resolves_to(
            reg,
            expander,
            md,
            content,
            ctx,
            fuel,
            Err(RenderErrorView::TemplateExpansion(m)),
        ),
{
}

/// The template renderer: a layout registry and a template expander, built
/// once and read-only across renders.
pub struct Templator<E: TemplateExpander> {
    layout_collection: LayoutRegistry,
    expander: E,
}

impl<E: TemplateExpander> Templator<E> {
    /// The registry's denotation: layout name to parsed metadata and content.
    pub closed spec fn layouts(&self) -> Seq<(Seq<char>, (Seq<(Seq<char>, Seq<char>)>, Seq<char>))> {
        self.layout_collection@
    }

    /// The expander driven by this renderer.
    pub closed spec fn expander_ref(&self) -> &E {
        &self.expander
    }

    /// Build the renderer: parse each named layout file into the registry,
    /// in order, and take ownership of the expander. Layout names come out
    /// pairwise distinct.
    pub fn new(layout_files: &Vec<(String, String)>, expander: E) -> (r: Templator<E>)
        ensures
            r.layouts() == spec_build_registry(pairs_view(layout_files@)),
            assoc_wf(r.layouts()),
            *r.expander_ref() == expander,
    {
        proof {
            lemma_build_registry_wf(pairs_view(layout_files@));
        }
        let layout_collection = create_layout_collection(layout_files);
        Templator { layout_collection, expander }
    }

    /// How many layouts are registered.
    pub fn layout_count(&self) -> (r: usize)
        ensures
            r == self.layouts().len(),
    {
        self.layout_collection.len()
    }

    /// Resolve one metadata block and content body against a context through
    /// the layout chain, spending one unit of `fuel` per layout step.
    pub fn process_metadata(
        &self,
        file_metadata: &Metadata,
        content: &str,
        globals: &VarContext,
        fuel: usize,
    ) -> (r: Result<String, RenderError>)
        ensures
            resolves_to(
                self.layouts(),
                self.expander_ref(),
                file_metadata@,
                content@,
                globals@,
                fuel as nat,
                render_result_view(r),
            ),
        decreases fuel,
    {
        proof {
            lemma_layout_key();
        }
        let ghost mdv = file_metadata@;
        let ghost contentv = content@;
        let ghost ctxv = globals@;
        let merged = merge_globals(file_metadata, globals);
        let expanded: String = match self.expander.expand(content, &merged) {
            Ok(s) => s,
            Err(m) => {
                proof {
                    lemma_resolves_to_expansion_error(
                        self.layouts(),
                        self.expander_ref(),
                        mdv,
                        contentv,
                        ctxv,
                        fuel as nat,
                        m@,
                    );
                }
                return Err(RenderError::TemplateExpansion(m));
            },
        };
        let ghost midv = expanded@;
        match file_metadata.get("layout") {
            None => {
                proof {
                    lemma_resolves_to_step(
                        self.layouts(),
                        self.expander_ref(),
                        mdv,
                        contentv,
                        ctxv,
                        fuel as nat,
                        midv,
                        Ok(midv),
                    );
                }
                Ok(expanded)
            },
            Some(name) => {
                let name_owned = name.clone();
                match self.layout_collection.get(name_owned.as_str()) {
                    None => {
                        proof {
                            lemma_resolves_to_step(
                                self.layouts(),
                                self.expander_ref(),
                                mdv,
                                contentv,
                                ctxv,
                                fuel as nat,
                                midv,
                                Err(RenderErrorView::LayoutNotFound(name_owned@)),
                            );
                        }
                        Err(RenderError::LayoutNotFound(name_owned))
                    },
                    Some(entry) => {
                        if fuel == 0 {
                            proof {
                                lemma_resolves_to_step(
                                    self.layouts(),
                                    self.expander_ref(),
                                    mdv,
                                    contentv,
                                    ctxv,
                                    fuel as nat,
                                    midv,
                                    Err(RenderErrorView::LayoutCycle),
                                );
                            }
                            Err(RenderError::LayoutCycle)
                        } else {
                            let mut wrapped = merged;
                            add_content_to_global(&mut wrapped, expanded);
                            let r = self.process_metadata(
                                &entry.metadata,
                                entry.content.as_str(),
                                &wrapped,
                                fuel - 1,
                            );
                            proof {
                                lemma_resolves_to_step(
                                    self.layouts(),
                                    self.expander_ref(),
                                    mdv,
                                    contentv,
                                    ctxv,
                                    fuel as nat,
                                    midv,
                                    render_result_view(r),
                                );
                            }
                            r
                        }
                    },
                }
            },
        }
    }

    /// Render one file's text: parse its frontmatter, then resolve the
    /// metadata and content with `globals` as the starting context. The
    /// recursion budget is the registry size, which no acyclic layout chain
    /// can exhaust.
    pub fn render_str(&self, file_string: &str, globals: &VarContext) -> (r: Result<
        String,
        RenderError,
    >)
        ensures
            resolves_to(
                self.layouts(),
                self.expander_ref(),
                spec_parse(file_string@).0,
                spec_parse(file_string@).1,
                globals@,
                self.layouts().len(),
                render_result_view(r),
            ),
    {
        let (file_metadata, content) = get_file_metadata(file_string);
        let fuel = self.layout_collection.len();
        self.process_metadata(&file_metadata, content.as_str(), globals, fuel)
    }
}

/// What the resolver returns when driven by the content-tag expander: with a
/// deterministic, total expander the resolver is a function of its inputs.
pub open spec fn spec_resolve_content_tag(
    reg: Seq<(Seq<char>, (Seq<(Seq<char>, Seq<char>)>, Seq<char>))>,
    md: Seq<(Seq<char>, Seq<char>)>,
    content: Seq<char>,
    ctx: Seq<(Seq<char>, ValView)>,
    fuel: nat,
) -> Result<Seq<char>, RenderErrorView>
    decreases fuel,
{
    let merged = spec_merge(md, ctx);
    let mid = spec_substitute(content, content_value(merged));
    match assoc_get(md, layout_key()) {
        None => Ok(mid),
        Some(name) => match assoc_get(reg, name) {
            None => Err(RenderErrorView::LayoutNotFound(name)),
            Some(entry) => if fuel == 0 {
                Err(RenderErrorView::LayoutCycle)
            } else {
                spec_resolve_content_tag(
                    reg,
                    entry.0,
                    entry.1,
                    assoc_insert(merged, content_var(), ValView::Str(mid)),
                    (fuel - 1) as nat,
                )
            },
        },
    }
}

/// Driven by the content-tag expander, the resolver returns exactly
/// `spec_resolve_content_tag`: every layout level is rendered once, innermost
/// to outermost, and the chain terminates within the recursion budget.
pub proof fn lemma_resolve_content_tag_deterministic(
    reg: Seq<(Seq<char>, (Seq<(Seq<char>, Seq<char>)>, Seq<char>))>,
    expander: &ContentTagExpander,
    md: Seq<(Seq<char>, Seq<char>)>,
    content: Seq<char>,
    ctx: Seq<(Seq<char>, ValView)>,
    fuel: nat,
    r: Result<Seq<char>, RenderErrorView>,
)
    requires
        resolves_to(reg, expander, md, content, ctx, fuel, r),
    ensures
        r == spec_resolve_content_tag(reg, md, content, ctx, fuel),
    decreases fuel,
{
    let merged = spec_merge(md, ctx);
    let mid0 = spec_substitute(content, content_value(merged));
    let mid = choose|mid: Seq<char>|
        #[trigger] expander.expands_to(content, merged, Ok(mid)) && (match assoc_get(
            md,
            layout_key(),
        ) {
            None => r == Ok::<Seq<char>, RenderErrorView>(mid),
            Some(name) => match assoc_get(reg, name) {
                None => r == Err::<Seq<char>, RenderErrorView>(
                    RenderErrorView::LayoutNotFound(name),
                ),
                Some(entry) => if fuel == 0 {
                    r == Err::<Seq<char>, RenderErrorView>(RenderErrorView::LayoutCycle)
                } else {
                    resolves_to(
                        reg,
                        expander,
                        entry.0,
                        entry.1,
                        assoc_insert(merged, content_var(), ValView::Str(mid)),
                        (fuel - 1) as nat,
                        r,
                    )
                },
            },
        });
    assert(mid == mid0);
    match assoc_get(md, layout_key()) {
        None => {},
        Some(name) => {
            match assoc_get(reg, name) {
                None => {},
                Some(entry) => {
                    if fuel == 0 {
                    } else {
                        lemma_resolve_content_tag_deterministic(
                            reg,
                            expander,
                            entry.0,
                            entry.1,
                            assoc_insert(merged, content_var(), ValView::Str(mid0)),
                            (fuel - 1) as nat,
                            r,
                        );
                    }
                },
            }
        },
    }
}

/// A layout name absent from the registry resolves to the layout-not-found
/// error, never to a rendered page: with the content-tag expander the error
/// is certain, and with any expander the only other outcome is the
/// expander's own failure.
pub proof fn lemma_missing_layout<E: TemplateExpander>(
    reg: Seq<(Seq<char>, (Seq<(Seq<char>, Seq<char>)>, Seq<char>))>,
    expander: &E,
    md: Seq<(Seq<char>, Seq<char>)>,
    content: Seq<char>,
    ctx: Seq<(Seq<char>, ValView)>,
    fuel: nat,
    r: Result<Seq<char>, RenderErrorView>,
    name: Seq<char>,
)
    requires
        resolves_to(reg, expander, md, content, ctx, fuel, r),
        assoc_get(md, layout_key()) == Some(name),
        assoc_get(reg, name) is None,
    ensures
        match r {
            Err(RenderErrorView::LayoutNotFound(n)) => n == name,
            Err(RenderErrorView::TemplateExpansion(_)) => true,
            _ => false,
        },
{
}

/// The layout names the resolver follows from `md`, in order: the chain ends
/// at a metadata block without a layout key or at a missing layout, and a
/// name the budget is spent on is still included. The chain depends only on
/// the metadata and the registry, never on the content, the context or the
/// expander.
pub open spec fn chain_names(
    reg: Seq<(Seq<char>, (Seq<(Seq<char>, Seq<char>)>, Seq<char>))>,
    md: Seq<(Seq<char>, Seq<char>)>,
    fuel: nat,
) -> Seq<Seq<char>>
    decreases fuel,
{
    match assoc_get(md, layout_key()) {
        None => Seq::<Seq<char>>::empty(),
        Some(name) => match assoc_get(reg, name) {
            None => Seq::<Seq<char>>::empty(),
            Some(entry) => if fuel == 0 {
                seq![name]
            } else {
                seq![name] + chain_names(reg, entry.0, (fuel - 1) as nat)
            },
        },
    }
}

/// A cycle error names a chain of `fuel + 1` registered layouts.
proof fn lemma_cycle_chain_length(
    reg: Seq<(Seq<char>, (Seq<(Seq<char>, Seq<char>)>, Seq<char>))>,
    md: Seq<(Seq<char>, Seq<char>)>,
    content: Seq<char>,
    ctx: Seq<(Seq<char>, ValView)>,
    fuel: nat,
)
    requires
        spec_resolve_content_tag(reg, md, content, ctx, fuel) == Err::<Seq<char>, RenderErrorView>(
            RenderErrorView::LayoutCycle,
        ),
    ensures
        chain_names(reg, md, fuel).len() == fuel + 1,
        forall|m: int|
            0 <= m < chain_names(reg, md, fuel).len() ==> crate::assoc::assoc_contains(
                reg,
                #[trigger] chain_names(reg, md, fuel)[m],
            ),
    decreases fuel,
{
    let merged = spec_merge(md, ctx);
    let mid = spec_substitute(content, content_value(merged));
    match assoc_get(md, layout_key()) {
        None => {
            assert(false);
        },
        Some(name) => {
            match assoc_get(reg, name) {
                None => {
                    assert(false);
                },
                Some(entry) => {
                    if fuel == 0 {
                    } else {
                        lemma_cycle_chain_length(
                            reg,
                            entry.0,
                            entry.1,
                            assoc_insert(merged, content_var(), ValView::Str(mid)),
                            (fuel - 1) as nat,
                        );
                        let chain = chain_names(reg, md, fuel);
                        let sub = chain_names(reg, entry.0, (fuel - 1) as nat);
                        assert(chain == seq![name] + sub);
                        assert forall|m: int|
                            0 <= m < chain.len() implies crate::assoc::assoc_contains(
                            reg,
                            #[trigger] chain[m],
                        ) by {
                            if m > 0 {
                                assert(chain[m] == sub[m - 1]);
                            }
                        }
                    }
                },
            }
        },
    }
}

/// The cycle guard is invisible on acyclic inputs: when resolution with the
/// registry's size as its budget reports a cycle, the chain of layouts it
/// followed really does repeat a layout name.
pub proof fn lemma_cycle_error_repeats_a_layout(
    reg: Seq<(Seq<char>, (Seq<(Seq<char>, Seq<char>)>, Seq<char>))>,
    md: Seq<(Seq<char>, Seq<char>)>,
    content: Seq<char>,
    ctx: Seq<(Seq<char>, ValView)>,
)
    requires
        assoc_wf(reg),
        spec_resolve_content_tag(reg, md, content, ctx, reg.len()) == Err::<
            Seq<char>,
            RenderErrorView,
        >(RenderErrorView::LayoutCycle),
    ensures
        exists|i: int, j: int|
            0 <= i < j < chain_names(reg, md, reg.len()).len() && chain_names(reg, md, reg.len())[i]
                == chain_names(reg, md, reg.len())[j],
{
    broadcast use vstd::seq_lib::seq_to_set_is_finite;

    let fuel = reg.len();
    let chain = chain_names(reg, md, fuel);
    lemma_cycle_chain_length(reg, md, content, ctx, fuel);
    let ks = Seq::new(reg.len(), |i: int| reg[i].0);
    assert(ks.no_duplicates());
    ks.unique_seq_to_set();
    assert forall|m: int| 0 <= m < chain.len() implies ks.to_set().contains(chain[m]) by {
        crate::assoc::lemma_assoc_get_some_exists(reg, chain[m]);
        let j = choose|j: int| 0 <= j < reg.len() && reg[j].0 == chain[m];
        assert(ks[j] == chain[m]);
        assert(ks.contains(chain[m]));
    }
    if chain.no_duplicates() {
        chain.unique_seq_to_set();
        assert(chain.to_set().subset_of(ks.to_set())) by {
            assert forall|a: Seq<char>|
                chain.to_set().contains(a) implies ks.to_set().contains(a) by {
                let m = choose|m: int| 0 <= m < chain.len() && chain[m] == a;
                assert(ks.to_set().contains(chain[m]));
            }
        }
        vstd::set_lib::lemma_len_subset(chain.to_set(), ks.to_set());
        assert(false);
    }
    let (i, j) = choose|i: int, j: int|
        0 <= i < chain.len() && 0 <= j < chain.len() && i != j && chain[i] == chain[j];
    if i < j {
        assert(0 <= i < j < chain.len() && chain[i] == chain[j]);
    } else {
        assert(0 <= j < i < chain.len() && chain[j] == chain[i]);
    }
}

/// With the content-tag expander a missing layout is certain to produce the
/// layout-not-found error naming the missing layout, never a blank page.
pub proof fn lemma_missing_layout_content_tag(
    reg: Seq<(Seq<char>, (Seq<(Seq<char>, Seq<char>)>, Seq<char>))>,
    expander: &ContentTagExpander,
    md: Seq<(Seq<char>, Seq<char>)>,
    content: Seq<char>,
    ctx: Seq<(Seq<char>, ValView)>,
    fuel: nat,
    r: Result<Seq<char>, RenderErrorView>,
    name: Seq<char>,
)
    requires
        resolves_to(reg, expander, md, content, ctx, fuel, r),
        assoc_get(md, layout_key()) == Some(name),
        assoc_get(reg, name) is None,
    ensures
        r == Err::<Seq<char>, RenderErrorView>(RenderErrorView::LayoutNotFound(name)),
{
    lemma_resolve_content_tag_deterministic(reg, expander, md, content, ctx, fuel, r);
}

/// One-level layout chain, with the content-tag expander: a page whose
/// metadata selects a layout that selects nothing renders to the layout's
/// content with the content tag carrying the page's own expansion.
pub proof fn lemma_single_level_chain(
    reg: Seq<(Seq<char>, (Seq<(Seq<char>, Seq<char>)>, Seq<char>))>,
    md: Seq<(Seq<char>, Seq<char>)>,
    content: Seq<char>,
    ctx: Seq<(Seq<char>, ValView)>,
    fuel: nat,
    name: Seq<char>,
    entry: (Seq<(Seq<char>, Seq<char>)>, Seq<char>),
)
    requires
        fuel >= 1,
        assoc_get(md, layout_key()) == Some(name),
        assoc_get(reg, name) == Some(entry),
        assoc_get(entry.0, layout_key()) is None,
    ensures
        spec_resolve_content_tag(reg, md, content, ctx, fuel) == {
            let m1 = spec_merge(md, ctx);
            let r1 = spec_substitute(content, content_value(m1));
            let m2 = spec_merge(entry.0, assoc_insert(m1, content_var(), ValView::Str(r1)));
            Ok::<Seq<char>, RenderErrorView>(spec_substitute(entry.1, content_value(m2)))
        },
{
    let m1 = spec_merge(md, ctx);
    let r1 = spec_substitute(content, content_value(m1));
    let c2 = assoc_insert(m1, content_var(), ValView::Str(r1));
    assert(spec_resolve_content_tag(reg, md, content, ctx, fuel) == spec_resolve_content_tag(
        reg,
        entry.0,
        entry.1,
        c2,
        (fuel - 1) as nat,
    ));
    let m2 = spec_merge(entry.0, c2);
    assert(spec_resolve_content_tag(reg, entry.0, entry.1, c2, (fuel - 1) as nat)
        == Ok::<Seq<char>, RenderErrorView>(spec_substitute(entry.1, content_value(m2))));
}

/// Two-level layout chain, with the content-tag expander: a page whose
/// metadata selects `child`, where `child` selects `base` and `base` selects
/// nothing, renders innermost to outermost, each layout exactly once: the
/// page's expansion is wrapped by `child`, whose expansion is wrapped by
/// `base`, whose expansion is the result.
pub proof fn lemma_two_level_chain(
    reg: Seq<(Seq<char>, (Seq<(Seq<char>, Seq<char>)>, Seq<char>))>,
    md: Seq<(Seq<char>, Seq<char>)>,
    content: Seq<char>,
    ctx: Seq<(Seq<char>, ValView)>,
    fuel: nat,
    child: Seq<char>,
    base: Seq<char>,
    child_entry: (Seq<(Seq<char>, Seq<char>)>, Seq<char>),
    base_entry: (Seq<(Seq<char>, Seq<char>)>, Seq<char>),
)
    requires
        fuel >= 2,
        assoc_get(md, layout_key()) == Some(child),
        assoc_get(reg, child) == Some(child_entry),
        assoc_get(child_entry.0, layout_key()) == Some(base),
        assoc_get(reg, base) == Some(base_entry),
        assoc_get(base_entry.0, layout_key()) is None,
    ensures
        spec_resolve_content_tag(reg, md, content, ctx, fuel) == {
            let m1 = spec_merge(md, ctx);
            let r1 = spec_substitute(content, content_value(m1));
            let m2 = spec_merge(
                child_entry.0,
                assoc_insert(m1, content_var(), ValView::Str(r1)),
            );
            let r2 = spec_substitute(child_entry.1, content_value(m2));
            let m3 = spec_merge(base_entry.0, assoc_insert(m2, content_var(), ValView::Str(r2)));
            Ok::<Seq<char>, RenderErrorView>(spec_substitute(base_entry.1, content_value(m3)))
        },
{
    let m1 = spec_merge(md, ctx);
    let r1 = spec_substitute(content, content_value(m1));
    let c2 = assoc_insert(m1, content_var(), ValView::Str(r1));
    assert(spec_resolve_content_tag(reg, md, content, ctx, fuel) == spec_resolve_content_tag(
        reg,
        child_entry.0,
        child_entry.1,
        c2,
        (fuel - 1) as nat,
    ));
    let m2 = spec_merge(child_entry.0, c2);
    let r2 = spec_substitute(child_entry.1, content_value(m2));
    let c3 = assoc_insert(m2, content_var(), ValView::Str(r2));
    assert(spec_resolve_content_tag(reg, child_entry.0, child_entry.1, c2, (fuel - 1) as nat)
        == spec_resolve_content_tag(reg, base_entry.0, base_entry.1, c3, (fuel - 2) as nat));
    let m3 = spec_merge(base_entry.0, c3);
    assert(spec_resolve_content_tag(reg, base_entry.0, base_entry.1, c3, (fuel - 2) as nat)
        == Ok::<Seq<char>, RenderErrorView>(spec_substitute(base_entry.1, content_value(m3))));
}

} // verus!
