//! The closed error vocabulary of the validation pass. Every error carries
//! the positions it reports and the shared module context, so rendering a
//! diagnostic needs no further lookup.
use std::rc::Rc;
use vstd::prelude::*;

use crate::parser::{ModuleInfo, NullableIdent, Parsed, PreparedField};

verus! {

/// One terminal validation failure, with the minimal payload its
/// diagnostic needs.
#[derive(Debug)]
pub enum ErrorVariant {
    AmbiguousBindParam { pos: usize },
    InvalidI16Index { pos: usize },
    DuplicateCol { pos: usize },
    MoreBindParamsThanParams { nb_params: usize, pos: usize },
    UnusedParam { index: usize, pos: usize },
    InvalidNullableColumnName { nullable_col: Parsed<NullableIdent> },
    NamedStructInvalidFields {
        expected: Vec<PreparedField>,
        actual: Vec<PreparedField>,
        name: Parsed<String>,
    },
    QueryNameAlreadyUsed { name1: Parsed<String>, name2: Parsed<String> },
    NamedStructInPgQuery { pos: usize },
    UnknownNamedStruct { pos: usize },
}

/// A validation failure together with its module's shared context.
#[derive(Debug)]
pub struct Error {
    pub err: ErrorVariant,
    pub info: Rc<ModuleInfo>,
}

/// Relies on alloc::rc::Rc::clone: the result is a handle to the same
/// shared allocation, equal to the original.
#[verifier::external_body]
pub(crate) fn share_module_info(info: &Rc<ModuleInfo>) -> (r: Rc<ModuleInfo>)
    ensures
        r == *info,
{
    Rc::clone(info)
}

} // verus!
