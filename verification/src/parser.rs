//! Data model handed over by the parsing stage: span-tracked values, the
//! bind-parameter dialects, query annotations and the per-module registries.
use vstd::prelude::*;

verus! {

/// A value paired with the byte offsets of its source text.
#[derive(Debug, Clone)]
pub struct Parsed<T> {
    pub start: usize,
    pub end: usize,
    pub value: T,
}

/// A field or column name with an optional explicit nullability override.
#[derive(Debug, Clone)]
pub struct NullableIdent {
    pub name: String,
    pub nullable: Option<bool>,
}

impl NullableIdent {
    pub fn name(&self) -> (r: &String)
        ensures
            r@ == self.name@,
    {
        &self.name
    }
}

/// One bind parameter of the SQL text, in one of the two mutually
/// exclusive dialects.
#[derive(Debug, Clone)]
pub enum BindParameter {
    /// An indexed placeholder (`$n`); the index is 1-based.
    PgCompatible(usize),
    /// A named placeholder (`:ident`).
    Extended(String),
}

/// A parameter or row shape: either listed inline, or a reference into the
/// module's named-struct registry.
#[derive(Debug, Clone)]
pub enum QueryDataStructure {
    Implicit { idents: Vec<Parsed<NullableIdent>> },
    Named(Parsed<String>),
}

/// The annotation attached to one query: its name and its parameter and
/// row shapes.
#[derive(Debug, Clone)]
pub struct QueryAnnotation {
    pub name: Parsed<String>,
    pub param: QueryDataStructure,
    pub row: QueryDataStructure,
}

/// The SQL text of one query together with its bind parameters.
///
/// `normalized_sql` is the text produced by the parsing stage's
/// SQL-normalization primitive (placeholder substitution); the validator
/// never computes it, it only selects which of the two texts a validated
/// query carries.
#[derive(Debug, Clone)]
pub struct ParsedSql {
    pub sql_str: String,
    pub normalized_sql: String,
    pub bind_params: Vec<Parsed<BindParameter>>,
}

/// One annotated query, as parsed.
#[derive(Debug, Clone)]
pub struct Query {
    pub annotation: QueryAnnotation,
    pub sql: ParsedSql,
    pub sql_start: usize,
}

/// One entry of a named-struct registry: a name declared once per module,
/// with its field list.
#[derive(Debug, Clone)]
pub struct TypeAnnotationListItem {
    pub name: Parsed<String>,
    pub fields: Vec<Parsed<NullableIdent>>,
}

/// A whole parsed module: its three registries and its queries.
#[derive(Debug, Clone)]
pub struct ParsedModule {
    pub param_types: Vec<TypeAnnotationListItem>,
    pub row_types: Vec<TypeAnnotationListItem>,
    pub db_types: Vec<TypeAnnotationListItem>,
    pub queries: Vec<Query>,
}

/// The shared module context every diagnostic needs: the module's path and
/// its full source text.
#[derive(Debug)]
pub struct ModuleInfo {
    pub path: String,
    pub content: String,
}

/// A field of a prepared statement as the type-resolution stage sees it:
/// its name and whether it was resolved as nullable.
#[derive(Debug, Clone)]
pub struct PreparedField {
    pub name: String,
    pub is_nullable: bool,
}

} // verus!
