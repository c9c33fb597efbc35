//! A scaffolding engine: it turns a template tree plus a declarative
//! definition into a concrete project tree.  Variable values are collected
//! first; every path and every renderable file body is then substituted
//! through those values; finally, cleanup rules delete output paths that the
//! collected answers mark as obsolete.
//!
//! The engine itself is pure: it plans what to ask, what to write and what to
//! delete.  Reading the template tree from disk and executing the plan are
//! left to the caller.

pub mod cleanup;
pub mod context;
pub mod definition;
pub mod errors;
pub mod outside;
pub mod render;
pub mod resolver;
pub mod template;
pub mod text;
pub mod walker;
pub mod values;

pub use cleanup::plan_cleanup;
pub use context::AnswerContext;
pub use definition::{CleanupRule, Condition, TemplateDefinition, Variable, validate_definition};
pub use errors::GenError;
pub use render::TemplateRenderer;
pub use resolver::{answer_fits, resolve_context, should_ask};
pub use template::Template;
pub use values::Value;
pub use walker::{CompiledPatterns, OutputOp, TemplateEntry, is_ignored, plan_entry, plan_tree};
