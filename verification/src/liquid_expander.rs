//! The engine-backed template expander: the Liquid language, with file-based
//! partial inclusion resolved against a pre-registered name-to-source store.
//!
//! The engine is an external collaborator: the trusted items here declare its
//! types and wrap the calls the renderer makes. Construction is pinned: the
//! built expander's partial store holds exactly the named include files.
//! Rendered output, by contrast, may depend on more than the inputs (the
//! `date` filter reads the clock), so no wrapper names what an expansion
//! returns: the resolver states what holds of every outcome.

use vstd::prelude::*;

use liquid::partials::{EagerCompiler, InMemorySource};

use crate::context::{VarContext, VarValue};
use crate::expander::TemplateExpander;
use crate::frontmatter::pairs_view;

verus! {

#[verifier::external_type_specification]
#[verifier::external_body]
pub struct ExParser(liquid::Parser);

#[verifier::external_type_specification]
#[verifier::external_body]
pub struct ExTemplate(liquid::Template);

/// The engine's in-memory partial store, behind an opaque struct: Verus
/// refuses the compiler type itself in signatures because its type parameter
/// carries the engine's own trait bound.
#[verifier::external_body]
pub struct PartialStore {
    compiler: EagerCompiler<InMemorySource>,
}

/// The partial-template sources a store holds, by name.
pub uninterp spec fn partial_sources(c: PartialStore) -> Map<Seq<char>, Seq<char>>;

/// The store with nothing in it.
pub open spec fn no_partials() -> Map<Seq<char>, Seq<char>> {
    Map::empty()
}

impl PartialStore {
    /// The partial-template sources this store holds, by name.
    pub open spec fn sources(self) -> Map<Seq<char>, Seq<char>> {
        partial_sources(self)
    }
}

/// The partial-template sources a parser's store was compiled from, by name.
pub uninterp spec fn parser_partials(p: liquid::Parser) -> Map<Seq<char>, Seq<char>>;

/// Relies on liquid::partials::EagerCompiler::empty: a compiler over an
/// empty in-memory partial store.
#[verifier::external_body]
fn new_partial_compiler() -> (res: PartialStore)
    ensures
        res.sources() == no_partials(),
{
    PartialStore { compiler: EagerCompiler::<InMemorySource>::empty() }
}

/// Relies on liquid::partials::InMemorySource::add, reached through the
/// compiler's DerefMut: stores the source under the name, overwriting, and
/// returns whether the name was already bound.
#[verifier::external_body]
fn add_partial(c: &mut PartialStore, name: String, source: String) -> (r: bool)
    ensures
        partial_sources(*final(c)) == partial_sources(*old(c)).insert(name@, source@),
        r == partial_sources(*old(c)).dom().contains(name@),
{
    c.compiler.add(name, source)
}

/// Relies on liquid::ParserBuilder: with_stdlib() registers the standard
/// tags, blocks and filters, partials(..) attaches the store, and build()
/// compiles the store into a parser. Building cannot fail here: the eager
/// compiler's compile keeps one entry per stored name and defers each
/// partial's own parse errors to render time, so the parser's store is
/// compiled from exactly the attached sources.
#[verifier::external_body]
fn construct_liquid_parser(store: PartialStore) -> (r: Result<liquid::Parser, String>)
    ensures
        r is Ok,
        r matches Ok(p) ==> parser_partials(p) == partial_sources(store),
{
    match liquid::ParserBuilder::with_stdlib().partials(store.compiler).build() {
        Ok(p) => Ok(p),
        Err(e) => Err(e.to_string()),
    }
}

/// Relies on liquid::Parser::parse: compiles one template source against the
/// parser's language and partials. The error's message is passed through;
/// nothing is assumed about the template itself.
#[verifier::external_body]
fn parse_template(parser: &liquid::Parser, text: &str) -> (r: Result<liquid::Template, String>) {
    match parser.parse(text) {
        Ok(t) => Ok(t),
        Err(e) => Err(e.to_string()),
    }
}

/// Relies on liquid::Template::render and liquid::Object: each context pair
/// becomes one object entry, strings and integers as scalars. The error's
/// message is passed through. The output may depend on more than the inputs
/// (the date filter reads the clock), so nothing is assumed about it.
#[verifier::external_body]
fn render_template(template: &liquid::Template, context: &VarContext) -> (r: Result<String, String>) {
    let mut globals = liquid::Object::new();
    let mut i: usize = 0;
    while i < context.len() {
        let key = liquid::model::KString::from_string(context.key_at(i).clone());
        let value = match context.value_at(i) {
            VarValue::Str(s) => liquid::model::Value::scalar(s.clone()),
            VarValue::Int(n) => liquid::model::Value::scalar(*n),
        };
        globals.insert(key, value);
        i += 1;
    }
    match template.render(&globals) {
        Ok(s) => Ok(s),
        Err(e) => Err(e.to_string()),
    }
}

/// The store that holds each named file's source, later files overwriting
/// earlier ones of the same name.
pub open spec fn spec_partials(files: Seq<(Seq<char>, Seq<char>)>) -> Map<Seq<char>, Seq<char>>
    decreases files.len(),
{
    if files.len() == 0 {
        no_partials()
    } else {
        spec_partials(files.drop_last()).insert(files.last().0, files.last().1)
    }
}

/// A template expander backed by the Liquid engine.
pub struct LiquidExpander {
    parser: liquid::Parser,
}

impl LiquidExpander {
    /// The name-to-source map the expander's partial store was compiled from.
    pub closed spec fn partials(&self) -> Map<Seq<char>, Seq<char>> {
        parser_partials(self.parser)
    }

    /// Build an expander whose partial store holds exactly the named include
    /// files, a later file overwriting an earlier one of the same name.
    pub fn new(include_files: &Vec<(String, String)>) -> (r: LiquidExpander)
        ensures
            r.partials() == spec_partials(pairs_view(include_files@)),
    {
        let ghost fv = pairs_view(include_files@);
        let mut compiler = new_partial_compiler();
        let n = include_files.len();
        let mut i: usize = 0;
        proof {
            assert(fv.take(0) =~= Seq::<(Seq<char>, Seq<char>)>::empty());
        }
        while i < n
            invariant
                i <= n,
                n == include_files@.len(),
                fv == pairs_view(include_files@),
                partial_sources(compiler) == spec_partials(fv.take(i as int)),
            decreases n - i,
        {
            let name = include_files[i].0.clone();
            let source = include_files[i].1.clone();
            add_partial(&mut compiler, name, source);
            proof {
                assert(fv.take(i as int + 1).drop_last() =~= fv.take(i as int));
                assert(fv.take(i as int + 1).last() == fv[i as int]);
            }
            i += 1;
        }
        proof {
            assert(fv.take(n as int) =~= fv);
        }
        match construct_liquid_parser(compiler) {
            Ok(parser) => LiquidExpander { parser },
            Err(_) => unreached(),
        }
    }
}

impl TemplateExpander for LiquidExpander {
    /// The engine's output may depend on more than the inputs, so any
    /// outcome is admitted; the resolver's contract covers every one.
    open spec fn expands_to(
        &self,
        source: Seq<char>,
        context: Seq<(Seq<char>, crate::context::ValView)>,
        result: Result<Seq<char>, Seq<char>>,
    ) -> bool {
        true
    }

    /// Compile the source, then render it against the context.
    fn expand(&self, source: &str, context: &VarContext) -> (r: Result<String, String>) {
        match parse_template(&self.parser, source) {
            Ok(template) => render_template(&template, context),
            Err(m) => Err(m),
        }
    }
}

} // verus!
