use random_tables_web::context::{VarContext, VarValue};
use random_tables_web::expander::{ContentTagExpander, TemplateExpander};
use random_tables_web::frontmatter::get_file_metadata;
use random_tables_web::liquid_expander::LiquidExpander;
use random_tables_web::page_template::PageTemplate;
use random_tables_web::templating::{RenderError, Templator};

fn tag_templator(layouts: Vec<(String, String)>) -> Templator<ContentTagExpander> {
    Templator::new(&layouts, ContentTagExpander::new())
}

#[test]
fn single_layout_chain_wraps_content() {
    let layouts = vec![("base".to_string(), "<html>{{Content}}</html>".to_string())];
    let templator = tag_templator(layouts);
    let rendered = templator
        .render_str("---\nlayout: base\n---\nHello", &VarContext::new())
        .unwrap();
    assert_eq!("<html>Hello</html>", rendered);
}

#[test]
fn two_level_chain_renders_innermost_to_outermost_once_each() {
    let layouts = vec![
        ("child".to_string(), "---\nlayout: base\n---\n<c>{{Content}}</c>".to_string()),
        ("base".to_string(), "<b>{{Content}}</b>".to_string()),
    ];
    let templator = tag_templator(layouts);
    let rendered = templator
        .render_str("---\nlayout: child\n---\nHello", &VarContext::new())
        .unwrap();
    assert_eq!("<b><c>Hello</c></b>", rendered);
}

#[test]
fn missing_layout_is_an_error_not_a_blank_page() {
    let templator = tag_templator(vec![]);
    let result = templator.render_str("---\nlayout: base\n---\nHello", &VarContext::new());
    match result {
        Err(RenderError::LayoutNotFound(name)) => assert_eq!("base", name),
        other => panic!("expected LayoutNotFound, got {:?}", other),
    }
}

#[test]
fn cyclic_layout_chain_fails_with_cycle_error() {
    let layouts = vec![(
        "loop_layout".to_string(),
        "---\nlayout: loop_layout\n---\n<l>{{Content}}</l>".to_string(),
    )];
    let templator = tag_templator(layouts);
    let result = templator.render_str("---\nlayout: loop_layout\n---\nHello", &VarContext::new());
    assert!(matches!(result, Err(RenderError::LayoutCycle)));
}

#[test]
fn no_layout_key_returns_expanded_content() {
    let templator = tag_templator(vec![]);
    let rendered = templator.render_str("Just text", &VarContext::new()).unwrap();
    assert_eq!("Just text", rendered);
}

#[test]
fn empty_layout_list_builds_empty_registry() {
    let templator = tag_templator(vec![]);
    assert_eq!(0, templator.layout_count());
}

#[test]
fn later_layout_file_with_same_stem_overwrites() {
    let layouts = vec![
        ("base".to_string(), "<old>{{Content}}</old>".to_string()),
        ("base".to_string(), "<new>{{Content}}</new>".to_string()),
    ];
    let templator = tag_templator(layouts);
    assert_eq!(1, templator.layout_count());
    let rendered = templator
        .render_str("---\nlayout: base\n---\nX", &VarContext::new())
        .unwrap();
    assert_eq!("<new>X</new>", rendered);
}

#[test]
fn content_tag_expander_substitutes_every_tag() {
    let expander = ContentTagExpander::new();
    let mut ctx = VarContext::new();
    ctx.insert("Content".to_string(), VarValue::Str("X".to_string()));
    let out = expander.expand("a{{Content}}b{{Content}}c", &ctx).unwrap();
    assert_eq!("aXbXc", out);
}

#[test]
fn content_tag_expander_without_binding_substitutes_empty() {
    let expander = ContentTagExpander::new();
    let out = expander.expand("a{{Content}}b", &VarContext::new()).unwrap();
    assert_eq!("ab", out);
}

#[test]
fn process_metadata_requires_no_rendering_to_report_missing_layout() {
    let templator = tag_templator(vec![]);
    let (md, content) = get_file_metadata("---\nlayout: nowhere\n---\nBody");
    let result = templator.process_metadata(&md, content.as_str(), &VarContext::new(), 3);
    assert!(matches!(result, Err(RenderError::LayoutNotFound(n)) if n == "nowhere"));
}

#[test]
fn page_template_default_points_at_index() {
    let page = PageTemplate::default();
    assert_eq!("index.html", page.path().as_str());
}

#[test]
fn page_template_render_with_uses_its_variables() {
    let templator = tag_templator(vec![]);
    let page = PageTemplate::new_account("alice", 7);
    assert_eq!("account.html", page.path().as_str());
    let rendered = page.render_with(&templator, "static page").unwrap();
    assert_eq!("static page", rendered);
}

#[test]
fn liquid_expander_substitutes_variables() {
    let templator = Templator::new(
        &vec![("base".to_string(), "<html>{{ Content }}</html>".to_string())],
        LiquidExpander::new(&vec![]),
    );
    let mut ctx = VarContext::new();
    ctx.insert("name".to_string(), VarValue::Str("World".to_string()));
    let rendered = templator
        .render_str("---\nlayout: base\n---\nHello {{ name }}", &ctx)
        .unwrap();
    assert_eq!("<html>Hello World</html>", rendered);
}

#[test]
fn liquid_expander_renders_integer_variables() {
    let templator = Templator::new(&vec![], LiquidExpander::new(&vec![]));
    let mut ctx = VarContext::new();
    ctx.insert("id".to_string(), VarValue::Int(42));
    let rendered = templator.render_str("id={{ id }}", &ctx).unwrap();
    assert_eq!("id=42", rendered);
}

#[test]
fn liquid_expander_resolves_registered_partials() {
    let includes = vec![("greeting".to_string(), "Hi from partial".to_string())];
    let templator = Templator::new(&vec![], LiquidExpander::new(&includes));
    let rendered = templator
        .render_str("{% include \"greeting\" %}", &VarContext::new())
        .unwrap();
    assert_eq!("Hi from partial", rendered);
}

#[test]
fn liquid_expander_reports_syntax_errors() {
    let templator = Templator::new(&vec![], LiquidExpander::new(&vec![]));
    let result = templator.render_str("{% endif %}", &VarContext::new());
    assert!(matches!(result, Err(RenderError::TemplateExpansion(_))));
}

#[test]
fn body_is_not_a_context_variable() {
    let templator = Templator::new(&vec![], LiquidExpander::new(&vec![]));
    let rendered = templator
        .render_str("---\nk: v\n---\nk={{ k }}", &VarContext::new())
        .unwrap();
    assert_eq!("k=v", rendered);

    let leaked = templator.render_str("---\nk: v\n---\n{{ content }}", &VarContext::new());
    assert!(matches!(leaked, Err(RenderError::TemplateExpansion(_))));
}

#[test]
fn later_include_file_with_same_name_overwrites() {
    let includes = vec![
        ("greeting".to_string(), "old".to_string()),
        ("greeting".to_string(), "new".to_string()),
    ];
    let templator = Templator::new(&vec![], LiquidExpander::new(&includes));
    let rendered = templator
        .render_str("{% include \"greeting\" %}", &VarContext::new())
        .unwrap();
    assert_eq!("new", rendered);
}

#[test]
fn render_error_messages_name_the_failure() {
    let e = RenderError::LayoutNotFound("base".to_string());
    assert_eq!("Layout base could not be found.", e.message());
    let f = RenderError::FileRead("a.html".to_string());
    assert!(f.message().contains("failed to read file"));
}
