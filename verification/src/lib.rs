//! A verified template renderer with frontmatter-driven layout inheritance,
//! together with the data model of the small web backend it serves.
//!
//! A raw text file splits into a key/value metadata block and a content body
//! (`frontmatter`); metadata merges into a variable context (`context`); and
//! the resolver expands the content through a chain of named layouts held in
//! a registry built at construction (`registry`, `templating`). The template
//! expander is a collaborator behind a trait (`expander`): one implementation
//! is verified end to end, the other drives the Liquid engine
//! (`liquid_expander`). Around the renderer stand the backend's data model
//! (`data`), its query texts (`queries`), session state (`session`) and
//! signup checks (`signup`).

pub mod assoc;
pub mod context;
pub mod data;
pub mod expander;
pub mod frontmatter;
pub mod liquid_expander;
pub mod page_template;
pub mod queries;
pub mod registry;
pub mod session;
pub mod signup;
pub mod templating;
pub mod text;
