//! Prebuilt page requests: which file to render and with which starting
//! variables, for the pages the handlers serve.

use vstd::prelude::*;

use crate::assoc::assoc_insert;
use crate::context::{ValView, VarContext, VarValue};
use crate::expander::TemplateExpander;
use crate::frontmatter::spec_parse;
use crate::templating::{render_result_view, resolves_to, RenderError, Templator};

verus! {

/// A page to render: a file path, relative to the content root, and the
/// page's starting variable context.
pub struct PageTemplate {
    path: String,
    object: VarContext,
}

impl View for PageTemplate {
    type V = (Seq<char>, Seq<(Seq<char>, ValView)>);

    closed spec fn view(&self) -> (Seq<char>, Seq<(Seq<char>, ValView)>) {
        (self.path@, self.object@)
    }
}

impl PageTemplate {
    /// The landing page, with no variables.
    pub fn default() -> (r: PageTemplate)
        ensures
            r@.0 == "index.html"@,
            r@.1 == Seq::<(Seq<char>, ValView)>::empty(),
    {
        PageTemplate { path: "index.html".to_owned(), object: VarContext::new() }
    }

    /// The account page, with the account's name and id.
    pub fn new_account(name: &str, id: i32) -> (r: PageTemplate)
        ensures
            r@.0 == "account.html"@,
            r@.1 == seq![
                ("username"@, ValView::Str(name@)),
                ("userid"@, ValView::Int(id as int)),
            ],
    {
        let mut object = VarContext::new();
        object.insert("username".to_owned(), VarValue::Str(name.to_owned()));
        object.insert("userid".to_owned(), VarValue::Int(id as i64));
        proof {
            reveal_strlit("username");
            reveal_strlit("userid");
            let e = Seq::<(Seq<char>, ValView)>::empty();
            crate::assoc::lemma_assoc_insert_append(e, "username"@, ValView::Str(name@));
            let s1 = assoc_insert(e, "username"@, ValView::Str(name@));
            assert(s1 =~= seq![("username"@, ValView::Str(name@))]);
            assert("username"@.len() == 8 && "userid"@.len() == 6);
            assert("username"@ != "userid"@);
            crate::assoc::lemma_assoc_insert_append(s1, "userid"@, ValView::Int(id as int));
            assert(object@ =~= seq![
                ("username"@, ValView::Str(name@)),
                ("userid"@, ValView::Int(id as int)),
            ]);
        }
        PageTemplate { path: "account.html".to_owned(), object }
    }

    /// The account-editing page, with the account's name and id.
    pub fn edit_account(name: &str, id: i32) -> (r: PageTemplate)
        ensures
            r@.0 == "edit_account.html"@,
            r@.1 == seq![("name"@, ValView::Str(name@)), ("id"@, ValView::Int(id as int))],
    {
        let mut object = VarContext::new();
        object.insert("name".to_owned(), VarValue::Str(name.to_owned()));
        object.insert("id".to_owned(), VarValue::Int(id as i64));
        proof {
            reveal_strlit("name");
            reveal_strlit("id");
            let e = Seq::<(Seq<char>, ValView)>::empty();
            crate::assoc::lemma_assoc_insert_append(e, "name"@, ValView::Str(name@));
            let s1 = assoc_insert(e, "name"@, ValView::Str(name@));
            assert(s1 =~= seq![("name"@, ValView::Str(name@))]);
            assert("name"@.len() == 4 && "id"@.len() == 2);
            assert("name"@ != "id"@);
            crate::assoc::lemma_assoc_insert_append(s1, "id"@, ValView::Int(id as int));
            assert(object@ =~= seq![
                ("name"@, ValView::Str(name@)),
                ("id"@, ValView::Int(id as int)),
            ]);
        }
        PageTemplate { path: "edit_account.html".to_owned(), object }
    }

    /// The file path to read, relative to the content root.
    pub fn path(&self) -> (r: &String)
        ensures
            r@ == self@.0,
    {
        &self.path
    }

    /// Render this page's file text through the renderer, starting from the
    /// page's own variables. Reading the file at `path` is the caller's side.
    pub fn render_with<E: TemplateExpander>(
        self,
        templator: &Templator<E>,
        file_string: &str,
    ) -> (r: Result<String, RenderError>)
        ensures
            resolves_to(
                templator.layouts(),
                templator.expander_ref(),
                spec_parse(file_string@).0,
                spec_parse(file_string@).1,
                self@.1,
                templator.layouts().len(),
                render_result_view(r),
            ),
    {
        templator.render_str(file_string, &self.object)
    }
}

} // verus!
