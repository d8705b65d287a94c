//! Semantic validation of annotated SQL query modules.
//!
//! This library is the validation pass that runs between parsing (raw text
//! into an annotated AST) and type resolution: it resolves which of two
//! mutually exclusive bind-parameter dialects a query uses, enforces the
//! wire protocol's numeric bounds on parameter indices, detects duplicate,
//! unused and out-of-range parameters, keeps query names and named struct
//! shapes consistent across a module, and renders every failure as a
//! source-anchored diagnostic.
pub mod container;
pub mod diagnostic;
pub mod error;
pub mod order;
pub mod parser;
pub mod validation;
