//! The validators: the dialect resolver, the independent per-query checks,
//! and the per-query / per-module orchestrators.
use std::rc::Rc;
use vstd::prelude::*;

use crate::error::{share_module_info, Error, ErrorVariant};
use crate::parser::{
    BindParameter, ModuleInfo, NullableIdent, Parsed, ParsedModule, PreparedField, Query,
    QueryAnnotation,
    QueryDataStructure, TypeAnnotationListItem,
};

verus! {

/// Copies a span-tracked name; the copy equals the original.
pub fn dup_parsed_string(p: &Parsed<String>) -> (r: Parsed<String>)
    ensures
        r == *p,
{
    Parsed { start: p.start, end: p.end, value: p.value.clone() }
}

/// Copies a span-tracked field name; the copy equals the original.
pub fn dup_parsed_ident(p: &Parsed<NullableIdent>) -> (r: Parsed<NullableIdent>)
    ensures
        r == *p,
{
    Parsed {
        start: p.start,
        end: p.end,
        value: NullableIdent { name: p.value.name.clone(), nullable: p.value.nullable },
    }
}

/// True when a bind parameter uses the extended (named) dialect.
pub open spec fn is_extended(bp: BindParameter) -> bool {
    bp is Extended
}

/// The dialect of a whole bind-parameter list: the variant of its first
/// element; an empty list defaults to the extended dialect.
pub open spec fn dialect_is_extended(s: Seq<Parsed<BindParameter>>) -> bool {
    s.len() == 0 || is_extended(s[0].value)
}

/// Every bind parameter of the list shares the list's dialect.
pub open spec fn dialect_homogeneous(s: Seq<Parsed<BindParameter>>) -> bool {
    forall|i: int|
        0 <= i < s.len() ==> is_extended(#[trigger] s[i].value) == dialect_is_extended(s)
}

/// The index of the first bind parameter whose variant differs from the
/// list's dialect (meaningful only when the list is not homogeneous).
pub open spec fn first_mixed(s: Seq<Parsed<BindParameter>>) -> int {
    choose|i: int|
        0 <= i < s.len() && is_extended(s[i].value) != dialect_is_extended(s) && (forall|j: int|
            0 <= j < i ==> is_extended(#[trigger] s[j].value) == dialect_is_extended(s))
}

fn bind_param_is_extended(bp: &BindParameter) -> (r: bool)
    ensures
        r == is_extended(*bp),
{
    match bp {
        BindParameter::Extended(_) => true,
        BindParameter::PgCompatible(_) => false,
    }
}

/// Resolves which dialect a query's bind parameters use. The first
/// parameter (if any) sets the dialect; the first later parameter of the
/// other dialect fails, at its own position.
pub fn ambiguous_bind_param(info: &Rc<ModuleInfo>, bind_params: &Vec<Parsed<BindParameter>>) -> (r:
    Result<bool, Error>)
    ensures
        dialect_homogeneous(bind_params@) ==> r == Ok::<bool, Error>(
            dialect_is_extended(bind_params@),
        ),
        !dialect_homogeneous(bind_params@) ==> (r matches Err(e) && e.err == (
        ErrorVariant::AmbiguousBindParam {
            pos: bind_params@[first_mixed(bind_params@)].start,
        }) && e.info == *info),
{
    let syntax_is_extended: bool = if bind_params.len() == 0 {
        true
    } else {
        bind_param_is_extended(&bind_params[0].value)
    };
    let n = bind_params.len();
    let mut i: usize = 0;
    while i < n
        invariant
            n == bind_params@.len(),
            i <= n,
            syntax_is_extended == dialect_is_extended(bind_params@),
            forall|j: int|
                0 <= j < i ==> is_extended(#[trigger] bind_params@[j].value) == dialect_is_extended(
                    bind_params@,
                ),
        decreases n - i,
    {
        let here_is_extended = bind_param_is_extended(&bind_params[i].value);
        if syntax_is_extended != here_is_extended {
            proof {
                let s = bind_params@;
                let ii = i as int;
                assert(0 <= ii < s.len() && is_extended(s[ii].value) != dialect_is_extended(s) && (
                forall|j: int|
                    0 <= j < ii ==> is_extended(#[trigger] s[j].value) == dialect_is_extended(s)));
                let k = first_mixed(s);
                assert(0 <= k < s.len() && is_extended(s[k].value) != dialect_is_extended(s) && (
                forall|j: int|
                    0 <= j < k ==> is_extended(#[trigger] s[j].value) == dialect_is_extended(s)));
                assert(k == ii);
            }
            return Err(
                Error {
                    err: ErrorVariant::AmbiguousBindParam { pos: bind_params[i].start },
                    info: share_module_info(info),
                },
            );
        }
        i += 1;
    }
    Ok(syntax_is_extended)
}

/// The index carried by a pg-compatible bind parameter is within the
/// 16-bit signed range the wire protocol asks for, and non-zero.
pub open spec fn valid_pg_index(n: usize) -> bool {
    1 <= n <= 32767
}

/// Narrows a pg-compatible bind index to the 16-bit signed range the wire
/// protocol requires; indices are 1-based, so zero is rejected too.
pub fn i16_index(info: &Rc<ModuleInfo>, bind_param: Parsed<BindParameter>) -> (r: Result<
    Parsed<i16>,
    Error,
>)
    requires
        bind_param.value is PgCompatible,
    ensures
        valid_pg_index(bind_param.value->PgCompatible_0) ==> (r matches Ok(p) && p.start
            == bind_param.start && p.end == bind_param.end && p.value
            == bind_param.value->PgCompatible_0 as i16 && 1 <= p.value <= 32767),
        !valid_pg_index(bind_param.value->PgCompatible_0) ==> (r matches Err(e) && e.err == (
        ErrorVariant::InvalidI16Index { pos: bind_param.start }) && e.info == *info),
{
    let Parsed { start, end, value } = bind_param;
    let index: usize = match value {
        BindParameter::PgCompatible(index) => index,
        BindParameter::Extended(_) => vstd::pervasive::unreached(),
    };
    if 1 <= index && index <= 32767 {
        Ok(Parsed { start, end, value: index as i16 })
    } else {
        Err(
            Error {
                err: ErrorVariant::InvalidI16Index { pos: start },
                info: share_module_info(info),
            },
        )
    }
}

/// The name a span-tracked field declares.
pub open spec fn ident_name(p: Parsed<NullableIdent>) -> Seq<char> {
    p.value.name@
}

/// Some field name appears twice in the list.
pub open spec fn has_duplicate_ident(s: Seq<Parsed<NullableIdent>>) -> bool {
    exists|i: int, j: int|
        0 <= i < j < s.len() && ident_name(#[trigger] s[i]) == ident_name(#[trigger] s[j])
}

/// `j` is the first position whose name was already declared earlier.
pub open spec fn is_second_occurrence(s: Seq<Parsed<NullableIdent>>, j: int) -> bool {
    &&& 0 <= j < s.len()
    &&& exists|i: int| 0 <= i < j && ident_name(#[trigger] s[i]) == ident_name(s[j])
    &&& forall|j2: int, i2: int|
        0 <= i2 < j2 < j ==> ident_name(#[trigger] s[i2]) != ident_name(#[trigger] s[j2])
}

/// The position of the second occurrence of the first repeated name
/// (meaningful only when the list has a duplicate).
pub open spec fn second_occurrence(s: Seq<Parsed<NullableIdent>>) -> int {
    choose|j: int| is_second_occurrence(s, j)
}

/// Checks a declared field list for repeated names, in declaration order;
/// the first name seen twice fails, at its second occurrence. Nullability
/// overrides are not part of the identity here.
pub fn duplicate_nullable_ident(info: &Rc<ModuleInfo>, idents: &Vec<Parsed<NullableIdent>>) -> (r:
    Result<(), Error>)
    ensures
        !has_duplicate_ident(idents@) ==> r is Ok,
        has_duplicate_ident(idents@) ==> (r matches Err(e) && e.err == (ErrorVariant::DuplicateCol {
            pos: idents@[second_occurrence(idents@)].start,
        }) && e.info == *info),
{
    let n = idents.len();
    let mut j: usize = 0;
    while j < n
        invariant
            n == idents@.len(),
            j <= n,
            forall|j2: int, i2: int|
                0 <= i2 < j2 < j ==> ident_name(#[trigger] idents@[i2]) != ident_name(
                    #[trigger] idents@[j2],
                ),
        decreases n - j,
    {
        let mut i: usize = 0;
        while i < j
            invariant
                n == idents@.len(),
                i <= j < n,
                forall|j2: int, i2: int|
                    0 <= i2 < j2 < j ==> ident_name(#[trigger] idents@[i2]) != ident_name(
                        #[trigger] idents@[j2],
                    ),
                forall|i2: int|
                    0 <= i2 < i ==> ident_name(#[trigger] idents@[i2]) != ident_name(
                        idents@[j as int],
                    ),
            decreases j - i,
        {
            if idents[i].value.name == idents[j].value.name {
                proof {
                    let s = idents@;
                    let jj = j as int;
                    assert(ident_name(s[i as int]) == ident_name(s[jj]));
                    assert(is_second_occurrence(s, jj));
                    let k = second_occurrence(s);
                    assert(is_second_occurrence(s, k));
                    assert(k == jj);
                }
                return Err(
                    Error {
                        err: ErrorVariant::DuplicateCol { pos: idents[j].start },
                        info: share_module_info(info),
                    },
                );
            }
            i += 1;
        }
        j += 1;
    }
    proof {
        if has_duplicate_ident(idents@) {
            let (i, j) = choose|i: int, j: int|
                0 <= i < j < idents@.len() && ident_name(#[trigger] idents@[i]) == ident_name(
                    #[trigger] idents@[j],
                );
            assert(ident_name(idents@[i]) != ident_name(idents@[j]));
        }
    }
    Ok(())
}

/// Under the pg-compatible dialect both the parameter and the row shape
/// must be listed inline; a named struct fails at its name's position.
/// On success the two inline field lists are handed back.
pub fn named_struct_in_pg_query(info: &Rc<ModuleInfo>, annotation: QueryAnnotation) -> (r: Result<
    (Vec<Parsed<NullableIdent>>, Vec<Parsed<NullableIdent>>),
    Error,
>)
    ensures
        annotation.param matches QueryDataStructure::Named(name) ==> (r matches Err(e) && e.err == (
        ErrorVariant::NamedStructInPgQuery { pos: name.start }) && e.info == *info),
        (annotation.param is Implicit && annotation.row is Named) ==> (r matches Err(e)
            && annotation.row matches QueryDataStructure::Named(name) && e.err == (
        ErrorVariant::NamedStructInPgQuery { pos: name.start }) && e.info == *info),
        annotation.param matches QueryDataStructure::Implicit { idents: p } ==> (
        annotation.row matches QueryDataStructure::Implicit { idents: w } ==> r == Ok::<
            _,
            Error,
        >((p, w))),
{
    let QueryAnnotation { name: _, param, row } = annotation;
    let param_idents = match param {
        QueryDataStructure::Implicit { idents } => idents,
        QueryDataStructure::Named(name) => {
            return Err(
                Error {
                    err: ErrorVariant::NamedStructInPgQuery { pos: name.start },
                    info: share_module_info(info),
                },
            );
        },
    };
    let row_idents = match row {
        QueryDataStructure::Implicit { idents } => idents,
        QueryDataStructure::Named(name) => {
            return Err(
                Error {
                    err: ErrorVariant::NamedStructInPgQuery { pos: name.start },
                    info: share_module_info(info),
                },
            );
        },
    };
    Ok((param_idents, row_idents))
}

/// Some index of the deduplicated, sorted bind-index list exceeds the
/// declared parameter count.
pub open spec fn has_overflowing_index(nb_params: int, s: Seq<Parsed<i16>>) -> bool {
    exists|i: int| 0 <= i < s.len() && #[trigger] s[i].value > nb_params
}

/// The first position of the list whose index exceeds the declared
/// parameter count (meaningful only when one exists).
pub open spec fn first_overflowing_index(nb_params: int, s: Seq<Parsed<i16>>) -> int {
    choose|i: int|
        0 <= i < s.len() && #[trigger] s[i].value > nb_params && (forall|j: int|
            0 <= j < i ==> #[trigger] s[j].value <= nb_params)
}

/// Checks that no bind index exceeds the number of declared parameters;
/// the first exceeding index fails, at its own position, carrying the
/// declared count.
pub fn more_bind_params_than_params(
    info: &Rc<ModuleInfo>,
    params: &Vec<Parsed<NullableIdent>>,
    deduped_bind_params: &Vec<Parsed<i16>>,
) -> (r: Result<(), Error>)
    requires
        forall|i: int|
            0 <= i < deduped_bind_params@.len() ==> #[trigger] deduped_bind_params@[i].value >= 1,
    ensures
        !has_overflowing_index(params@.len() as int, deduped_bind_params@) ==> r is Ok,
        has_overflowing_index(params@.len() as int, deduped_bind_params@) ==> (r matches Err(e)
            && e.err == (ErrorVariant::MoreBindParamsThanParams {
            nb_params: params@.len() as usize,
            pos: deduped_bind_params@[first_overflowing_index(
                params@.len() as int,
                deduped_bind_params@,
            )].start,
        }) && e.info == *info),
{
    let params_len = params.len();
    let n = deduped_bind_params.len();
    let mut i: usize = 0;
    while i < n
        invariant
            n == deduped_bind_params@.len(),
            i <= n,
            params_len == params@.len(),
            forall|j: int|
                0 <= j < deduped_bind_params@.len() ==> #[trigger] deduped_bind_params@[j].value
                    >= 1,
            forall|j: int| 0 <= j < i ==> #[trigger] deduped_bind_params@[j].value <= params_len,
        decreases n - i,
    {
        if deduped_bind_params[i].value as usize > params_len {
            proof {
                let s = deduped_bind_params@;
                let nb = params@.len() as int;
                let ii = i as int;
                assert(s[ii].value > nb && (forall|j: int| 0 <= j < ii ==> #[trigger] s[j].value <= nb));
                let k = first_overflowing_index(nb, s);
                assert(0 <= k < s.len() && s[k].value > nb && (forall|j: int|
                    0 <= j < k ==> #[trigger] s[j].value <= nb));
                assert(k == ii);
            }
            return Err(
                Error {
                    err: ErrorVariant::MoreBindParamsThanParams {
                        nb_params: params_len,
                        pos: deduped_bind_params[i].start,
                    },
                    info: share_module_info(info),
                },
            );
        }
        i += 1;
    }
    Ok(())
}

/// The 1-based parameter position `k` is referenced by some bind index.
pub open spec fn param_used(bind_params: Seq<Parsed<i16>>, k: int) -> bool {
    exists|i: int| 0 <= i < bind_params.len() && #[trigger] bind_params[i].value == k
}

/// Some declared parameter is referenced by no bind index.
pub open spec fn has_unused_param(nb_params: int, bind_params: Seq<Parsed<i16>>) -> bool {
    exists|k: int| 1 <= k <= nb_params && !#[trigger] param_used(bind_params, k)
}

/// The first 1-based parameter position no bind index references
/// (meaningful only when one exists).
pub open spec fn first_unused_param(nb_params: int, bind_params: Seq<Parsed<i16>>) -> int {
    choose|k: int|
        1 <= k <= nb_params && !#[trigger] param_used(bind_params, k) && (forall|k2: int|
            1 <= k2 < k ==> #[trigger] param_used(bind_params, k2))
}

/// Checks that every declared parameter is referenced by at least one bind
/// index; the first unreferenced one fails, at its declaration's position,
/// carrying its 1-based index.
pub fn unused_param(
    info: &Rc<ModuleInfo>,
    params: &Vec<Parsed<NullableIdent>>,
    bind_params: &Vec<Parsed<i16>>,
) -> (r: Result<(), Error>)
    requires
        forall|i: int| 0 <= i < bind_params@.len() ==> #[trigger] bind_params@[i].value >= 1,
    ensures
        !has_unused_param(params@.len() as int, bind_params@) ==> r is Ok,
        has_unused_param(params@.len() as int, bind_params@) ==> (r matches Err(e) && e.err == (
        ErrorVariant::UnusedParam {
            index: first_unused_param(params@.len() as int, bind_params@) as usize,
            pos: params@[first_unused_param(params@.len() as int, bind_params@) - 1].start,
        }) && e.info == *info),
{
    let nb_params = params.len();
    let mut k: usize = 1;
    while k <= nb_params
        invariant
            nb_params == params@.len(),
            1 <= k <= nb_params + 1,
            forall|j: int| 0 <= j < bind_params@.len() ==> #[trigger] bind_params@[j].value >= 1,
            forall|k2: int| 1 <= k2 < k ==> #[trigger] param_used(bind_params@, k2),
        decreases nb_params + 1 - k,
    {
        let m = bind_params.len();
        let mut i: usize = 0;
        let mut used = false;
        while i < m
            invariant
                m == bind_params@.len(),
                i <= m,
                1 <= k <= nb_params,
                forall|j: int|
                    0 <= j < bind_params@.len() ==> #[trigger] bind_params@[j].value >= 1,
                used == exists|j: int|
                    0 <= j < i && #[trigger] bind_params@[j].value == k as int,
            decreases m - i,
        {
            if bind_params[i].value as usize == k {
                used = true;
            }
            i += 1;
        }
        if !used {
            proof {
                let s = bind_params@;
                let nb = params@.len() as int;
                let kk = k as int;
                assert(!param_used(s, kk));
                assert(1 <= kk <= nb && !param_used(s, kk) && (forall|k2: int|
                    1 <= k2 < kk ==> #[trigger] param_used(s, k2)));
                let w = first_unused_param(nb, s);
                assert(1 <= w <= nb && !param_used(s, w) && (forall|k2: int|
                    1 <= k2 < w ==> #[trigger] param_used(s, k2)));
                assert(w == kk);
            }
            return Err(
                Error {
                    err: ErrorVariant::UnusedParam { index: k, pos: params[k - 1].start },
                    info: share_module_info(info),
                },
            );
        }
        proof {
            assert(param_used(bind_params@, k as int));
        }
        k += 1;
    }
    proof {
        if has_unused_param(params@.len() as int, bind_params@) {
            let w = choose|w: int|
                1 <= w <= params@.len() && !#[trigger] param_used(bind_params@, w);
            assert(param_used(bind_params@, w));
        }
    }
    Ok(())
}

/// The name a query's annotation declares.
pub open spec fn query_name(q: Query) -> Seq<char> {
    q.annotation.name.value@
}

/// Two queries of the module share a name.
pub open spec fn has_name_collision(qs: Seq<Query>) -> bool {
    exists|i: int, j: int|
        0 <= i < j < qs.len() && query_name(#[trigger] qs[i]) == query_name(#[trigger] qs[j])
}

/// `(i, j)` is the first colliding pair: `i` is the first query whose name
/// recurs, `j` its first later namesake.
pub open spec fn is_first_collision(qs: Seq<Query>, i: int, j: int) -> bool {
    &&& 0 <= i < j < qs.len()
    &&& query_name(qs[i]) == query_name(qs[j])
    &&& forall|i2: int, j2: int|
        0 <= i2 < j2 < qs.len() && i2 < i ==> query_name(#[trigger] qs[i2]) != query_name(
            #[trigger] qs[j2],
        )
    &&& forall|j2: int| i < j2 < j ==> query_name(qs[i]) != query_name(#[trigger] qs[j2])
}

/// The first colliding pair of query names (meaningful only when one
/// exists).
pub open spec fn first_collision(qs: Seq<Query>) -> (int, int) {
    choose|i: int, j: int| is_first_collision(qs, i, j)
}

/// Checks that query names are unique within the module; the first pair of
/// equal names fails, carrying both span-tracked names.
pub fn query_name_already_used(info: &Rc<ModuleInfo>, queries: &Vec<Query>) -> (r: Result<
    (),
    Error,
>)
    ensures
        !has_name_collision(queries@) ==> r is Ok,
        has_name_collision(queries@) ==> (r matches Err(e) && e.err == (
        ErrorVariant::QueryNameAlreadyUsed {
            name1: queries@[first_collision(queries@).0].annotation.name,
            name2: queries@[first_collision(queries@).1].annotation.name,
        }) && e.info == *info),
{
    let n = queries.len();
    let mut i: usize = 0;
    while i < n
        invariant
            n == queries@.len(),
            i <= n,
            forall|i2: int, j2: int|
                0 <= i2 < j2 < queries@.len() && i2 < i ==> query_name(#[trigger] queries@[i2])
                    != query_name(#[trigger] queries@[j2]),
        decreases n - i,
    {
        let mut j: usize = i + 1;
        while j < n
            invariant
                n == queries@.len(),
                i < j <= n,
                forall|i2: int, j2: int|
                    0 <= i2 < j2 < queries@.len() && i2 < i ==> query_name(#[trigger] queries@[i2])
                        != query_name(#[trigger] queries@[j2]),
                forall|j2: int|
                    i < j2 < j ==> query_name(queries@[i as int]) != query_name(
                        #[trigger] queries@[j2],
                    ),
            decreases n - j,
        {
            if queries[i].annotation.name.value == queries[j].annotation.name.value {
                proof {
                    let qs = queries@;
                    let ii = i as int;
                    let jj = j as int;
                    assert(is_first_collision(qs, ii, jj));
                    let (ci, cj) = first_collision(qs);
                    assert(is_first_collision(qs, ci, cj));
                    assert(ci == ii && cj == jj);
                }
                return Err(
                    Error {
                        err: ErrorVariant::QueryNameAlreadyUsed {
                            name1: dup_parsed_string(&queries[i].annotation.name),
                            name2: dup_parsed_string(&queries[j].annotation.name),
                        },
                        info: share_module_info(info),
                    },
                );
            }
            j += 1;
        }
        i += 1;
    }
    proof {
        if has_name_collision(queries@) {
            let (i, j) = choose|i: int, j: int|
                0 <= i < j < queries@.len() && query_name(#[trigger] queries@[i]) == query_name(
                    #[trigger] queries@[j],
                );
            assert(query_name(queries@[i]) != query_name(queries@[j]));
        }
    }
    Ok(())
}

/// Exact identity of a prepared field: name and nullability tag.
pub open spec fn field_eq(a: PreparedField, b: PreparedField) -> bool {
    a.name@ == b.name@ && a.is_nullable == b.is_nullable
}

/// The field occurs in the list, by exact identity.
pub open spec fn field_in(s: Seq<PreparedField>, f: PreparedField) -> bool {
    exists|i: int| 0 <= i < s.len() && field_eq(#[trigger] s[i], f)
}

/// The two field lists have equal length and are set-equal by exact field
/// identity.
pub open spec fn fields_set_equal(a: Seq<PreparedField>, b: Seq<PreparedField>) -> bool {
    &&& a.len() == b.len()
    &&& forall|i: int| 0 <= i < a.len() ==> field_in(b, #[trigger] a[i])
    &&& forall|i: int| 0 <= i < b.len() ==> field_in(a, #[trigger] b[i])
}

fn fields_match(a: &PreparedField, b: &PreparedField) -> (r: bool)
    ensures
        r == field_eq(*a, *b),
{
    a.name == b.name && a.is_nullable == b.is_nullable
}

fn contains_field(s: &Vec<PreparedField>, f: &PreparedField) -> (r: bool)
    ensures
        r == field_in(s@, *f),
{
    let n = s.len();
    let mut i: usize = 0;
    while i < n
        invariant
            n == s@.len(),
            i <= n,
            forall|j: int| 0 <= j < i ==> !field_eq(#[trigger] s@[j], *f),
        decreases n - i,
    {
        if fields_match(&s[i], f) {
            return true;
        }
        i += 1;
    }
    false
}

fn all_fields_contained(a: &Vec<PreparedField>, b: &Vec<PreparedField>) -> (r: bool)
    ensures
        r == forall|i: int| 0 <= i < a@.len() ==> field_in(b@, #[trigger] a@[i]),
{
    let n = a.len();
    let mut i: usize = 0;
    while i < n
        invariant
            n == a@.len(),
            i <= n,
            forall|j: int| 0 <= j < i ==> field_in(b@, #[trigger] a@[j]),
        decreases n - i,
    {
        if !contains_field(b, &a[i]) {
            return false;
        }
        i += 1;
    }
    true
}

/// Copies a prepared field; the copy equals the original.
fn dup_field(f: &PreparedField) -> (r: PreparedField)
    ensures
        r == *f,
{
    PreparedField { name: f.name.clone(), is_nullable: f.is_nullable }
}

/// Copies a prepared-field list; the copy's contents equal the original's.
fn dup_fields(v: &Vec<PreparedField>) -> (r: Vec<PreparedField>)
    ensures
        r@ == v@,
{
    let n = v.len();
    let mut r: Vec<PreparedField> = Vec::new();
    let mut i: usize = 0;
    while i < n
        invariant
            n == v@.len(),
            i <= n,
            r@.len() == i,
            forall|j: int| 0 <= j < i ==> r@[j] == v@[j],
        decreases n - i,
    {
        r.push(dup_field(&v[i]));
        i += 1;
    }
    proof {
        assert(r@ =~= v@);
    }
    r
}

/// Checks a reuse of a named struct against the field set its earlier
/// uses established: the two lists must have equal length and be set-equal
/// by exact field identity; otherwise both lists are carried for a
/// diff-style report.
pub fn named_struct_field(
    info: &Rc<ModuleInfo>,
    name: &Parsed<String>,
    prev_fields: &Vec<PreparedField>,
    fields: &Vec<PreparedField>,
) -> (r: Result<(), Error>)
    ensures
        fields_set_equal(prev_fields@, fields@) ==> r is Ok,
        !fields_set_equal(prev_fields@, fields@) ==> (r matches Err(e)
            && e.err matches ErrorVariant::NamedStructInvalidFields {
            expected,
            actual,
            name: n,
        } && expected@ == prev_fields@ && actual@ == fields@ && n == *name && e.info == *info),
{
    if prev_fields.len() == fields.len() && all_fields_contained(prev_fields, fields)
        && all_fields_contained(fields, prev_fields) {
        Ok(())
    } else {
        Err(
            Error {
                err: ErrorVariant::NamedStructInvalidFields {
                    expected: dup_fields(prev_fields),
                    actual: dup_fields(fields),
                    name: dup_parsed_string(name),
                },
                info: share_module_info(info),
            },
        )
    }
}

/// The registry declares an entry of this name.
pub open spec fn registry_has(types: Seq<TypeAnnotationListItem>, name: Seq<char>) -> bool {
    exists|i: int| 0 <= i < types.len() && (#[trigger] types[i]).name.value@ == name
}

/// The first registry entry of this name (meaningful only when one
/// exists).
pub open spec fn first_registry_entry(types: Seq<TypeAnnotationListItem>, name: Seq<char>) -> int {
    choose|i: int|
        0 <= i < types.len() && (#[trigger] types[i]).name.value@ == name && (forall|j: int|
            0 <= j < i ==> (#[trigger] types[j]).name.value@ != name)
}

/// Copies a span-tracked field list; the copy's contents equal the
/// original's.
fn dup_idents(v: &Vec<Parsed<NullableIdent>>) -> (r: Vec<Parsed<NullableIdent>>)
    ensures
        r@ == v@,
{
    let n = v.len();
    let mut r: Vec<Parsed<NullableIdent>> = Vec::new();
    let mut i: usize = 0;
    while i < n
        invariant
            n == v@.len(),
            i <= n,
            r@.len() == i,
            forall|j: int| 0 <= j < i ==> r@[j] == v@[j],
        decreases n - i,
    {
        r.push(dup_parsed_ident(&v[i]));
        i += 1;
    }
    proof {
        assert(r@ =~= v@);
    }
    r
}

/// Resolves a named-struct reference against a registry: the first entry
/// of that name yields its field list; an absent name fails at the
/// reference's position.
pub fn unknown_named_struct(
    info: &Rc<ModuleInfo>,
    name: &Parsed<String>,
    types: &Vec<TypeAnnotationListItem>,
) -> (r: Result<Vec<Parsed<NullableIdent>>, Error>)
    ensures
        registry_has(types@, name.value@) ==> (r matches Ok(fields) && fields@
            == types@[first_registry_entry(types@, name.value@)].fields@),
        !registry_has(types@, name.value@) ==> (r matches Err(e) && e.err == (
        ErrorVariant::UnknownNamedStruct { pos: name.start }) && e.info == *info),
{
    let n = types.len();
    let mut i: usize = 0;
    while i < n
        invariant
            n == types@.len(),
            i <= n,
            forall|j: int| 0 <= j < i ==> (#[trigger] types@[j]).name.value@ != name.value@,
        decreases n - i,
    {
        if types[i].name.value == name.value {
            proof {
                let ts = types@;
                let ii = i as int;
                assert(0 <= ii < ts.len() && ts[ii].name.value@ == name.value@ && (forall|j: int|
                    0 <= j < ii ==> (#[trigger] ts[j]).name.value@ != name.value@));
                let k = first_registry_entry(ts, name.value@);
                assert(0 <= k < ts.len() && ts[k].name.value@ == name.value@ && (forall|j: int|
                    0 <= j < k ==> (#[trigger] ts[j]).name.value@ != name.value@));
                assert(k == ii);
            }
            return Ok(dup_idents(&types[i].fields));
        }
        i += 1;
    }
    Err(
        Error {
            err: ErrorVariant::UnknownNamedStruct { pos: name.start },
            info: share_module_info(info),
        },
    )
}

/// The name occurs among the statement's column names.
pub open spec fn column_present(cols: Seq<String>, name: Seq<char>) -> bool {
    exists|i: int| 0 <= i < cols.len() && (#[trigger] cols[i])@ == name
}

/// Checks a nullability override against the resolved statement's column
/// names: a name matching no column fails.
pub fn nullable_column_name(
    info: &Rc<ModuleInfo>,
    nullable_col: &Parsed<NullableIdent>,
    stmt_cols: &Vec<String>,
) -> (r: Result<(), Error>)
    ensures
        column_present(stmt_cols@, nullable_col.value.name@) ==> r is Ok,
        !column_present(stmt_cols@, nullable_col.value.name@) ==> (r matches Err(e) && e.err == (
        ErrorVariant::InvalidNullableColumnName { nullable_col: *nullable_col }) && e.info == *info),
{
    let n = stmt_cols.len();
    let mut i: usize = 0;
    while i < n
        invariant
            n == stmt_cols@.len(),
            i <= n,
            forall|j: int| 0 <= j < i ==> (#[trigger] stmt_cols@[j])@ != nullable_col.value.name@,
        decreases n - i,
    {
        if stmt_cols[i] == nullable_col.value.name {
            return Ok(());
        }
        i += 1;
    }
    Err(
        Error {
            err: ErrorVariant::InvalidNullableColumnName { nullable_col: dup_parsed_ident(
                nullable_col,
            ) },
            info: share_module_info(info),
        },
    )
}

/// The name occurs among the statement's parameter names.
pub open spec fn param_name_present(params: Seq<Parsed<String>>, name: Seq<char>) -> bool {
    exists|i: int| 0 <= i < params.len() && (#[trigger] params[i]).value@ == name
}

/// Checks a nullability override against the resolved statement's
/// parameter names: a name matching no parameter fails.
pub fn nullable_param_name(
    info: &Rc<ModuleInfo>,
    nullable_col: &Parsed<NullableIdent>,
    params: &Vec<Parsed<String>>,
) -> (r: Result<(), Error>)
    ensures
        param_name_present(params@, nullable_col.value.name@) ==> r is Ok,
        !param_name_present(params@, nullable_col.value.name@) ==> (r matches Err(e) && e.err == (
        ErrorVariant::InvalidNullableColumnName { nullable_col: *nullable_col }) && e.info == *info),
{
    let n = params.len();
    let mut i: usize = 0;
    while i < n
        invariant
            n == params@.len(),
            i <= n,
            forall|j: int| 0 <= j < i ==> (#[trigger] params@[j]).value@ != nullable_col.value.name@,
        decreases n - i,
    {
        if params[i].value == nullable_col.value.name {
            return Ok(());
        }
        i += 1;
    }
    Err(
        Error {
            err: ErrorVariant::InvalidNullableColumnName { nullable_col: dup_parsed_ident(
                nullable_col,
            ) },
            info: share_module_info(info),
        },
    )
}

/// A query that passed every check, ready for type resolution.
#[derive(Debug)]
pub enum ValidatedQuery {
    PgCompatible {
        name: Parsed<String>,
        params: Vec<Parsed<NullableIdent>>,
        row: Vec<Parsed<NullableIdent>>,
        sql_str: String,
    },
    Extended {
        name: Parsed<String>,
        params: QueryDataStructure,
        bind_params: Vec<Parsed<String>>,
        row: QueryDataStructure,
        sql_str: String,
    },
}

impl ValidatedQuery {
    /// The query's span-tracked name, whatever its dialect.
    pub open spec fn spec_name(self) -> Parsed<String> {
        match self {
            ValidatedQuery::PgCompatible { name, .. } => name,
            ValidatedQuery::Extended { name, .. } => name,
        }
    }

    pub fn name(&self) -> (r: &Parsed<String>)
        ensures
            *r == self.spec_name(),
    {
        match self {
            ValidatedQuery::PgCompatible { name, .. } => name,
            ValidatedQuery::Extended { name, .. } => name,
        }
    }

    /// The SQL text the query carries, whatever its dialect.
    pub open spec fn spec_sql_str(self) -> Seq<char> {
        match self {
            ValidatedQuery::PgCompatible { sql_str, .. } => sql_str@,
            ValidatedQuery::Extended { sql_str, .. } => sql_str@,
        }
    }

    pub fn sql_str(&self) -> (r: &String)
        ensures
            r@ == self.spec_sql_str(),
    {
        match self {
            ValidatedQuery::PgCompatible { sql_str, .. } => sql_str,
            ValidatedQuery::Extended { sql_str, .. } => sql_str,
        }
    }
}

/// A module that passed validation: the shared context, the registries
/// kept as declared, and the validated queries in declaration order.
#[derive(Debug)]
pub struct ValidatedModule {
    pub info: Rc<ModuleInfo>,
    pub param_types: Vec<TypeAnnotationListItem>,
    pub row_types: Vec<TypeAnnotationListItem>,
    pub db_types: Vec<TypeAnnotationListItem>,
    pub queries: Vec<ValidatedQuery>,
}

/// The names of an extended query's bind parameters, spans kept.
pub open spec fn extended_names(s: Seq<Parsed<BindParameter>>) -> Seq<Parsed<String>> {
    Seq::new(
        s.len(),
        |i: int| Parsed { start: s[i].start, end: s[i].end, value: s[i].value->Extended_0 },
    )
}

/// The indices of a pg-compatible query's bind parameters, narrowed to
/// 16 bits, spans kept.
pub open spec fn normalized_indices(s: Seq<Parsed<BindParameter>>) -> Seq<Parsed<i16>> {
    Seq::new(
        s.len(),
        |i: int|
            Parsed {
                start: s[i].start,
                end: s[i].end,
                value: s[i].value->PgCompatible_0 as i16,
            },
    )
}

/// Every pg-compatible bind index of the list is within the wire
/// protocol's bounds.
pub open spec fn all_indices_valid(s: Seq<Parsed<BindParameter>>) -> bool {
    forall|i: int|
        0 <= i < s.len() ==> valid_pg_index((#[trigger] s[i]).value->PgCompatible_0)
}

/// The position of the first out-of-bounds bind index (meaningful only
/// when one exists).
pub open spec fn first_invalid_index(s: Seq<Parsed<BindParameter>>) -> int {
    choose|i: int|
        0 <= i < s.len() && !valid_pg_index((#[trigger] s[i]).value->PgCompatible_0) && (forall|
            j: int,
        |
            0 <= j < i ==> valid_pg_index((#[trigger] s[j]).value->PgCompatible_0))
}

/// The position of the second occurrence of the first repeated name of an
/// inline field list, if the shape is inline and has one.
pub open spec fn implicit_dup_pos(s: QueryDataStructure) -> Option<usize> {
    match s {
        QueryDataStructure::Implicit { idents } => if has_duplicate_ident(idents@) {
            Some(idents@[second_occurrence(idents@)].start)
        } else {
            Option::None
        },
        QueryDataStructure::Named(_) => Option::None,
    }
}

/// The error validating one query yields, if any: the checks in their
/// short-circuit order.
pub open spec fn query_error(q: Query) -> Option<ErrorVariant> {
    match implicit_dup_pos(q.annotation.param) {
        Some(pos) => Some(ErrorVariant::DuplicateCol { pos }),
        Option::None => match implicit_dup_pos(q.annotation.row) {
            Some(pos) => Some(ErrorVariant::DuplicateCol { pos }),
            Option::None => {
                let bp = q.sql.bind_params@;
                if !dialect_homogeneous(bp) {
                    Some(ErrorVariant::AmbiguousBindParam { pos: bp[first_mixed(bp)].start })
                } else if dialect_is_extended(bp) {
                    Option::None
                } else if !all_indices_valid(bp) {
                    Some(ErrorVariant::InvalidI16Index { pos: bp[first_invalid_index(bp)].start })
                } else {
                    match q.annotation.param {
                        QueryDataStructure::Named(name) => Some(
                            ErrorVariant::NamedStructInPgQuery { pos: name.start },
                        ),
                        QueryDataStructure::Implicit { idents } => match q.annotation.row {
                            QueryDataStructure::Named(name) => Some(
                                ErrorVariant::NamedStructInPgQuery { pos: name.start },
                            ),
                            QueryDataStructure::Implicit { idents: _ } => {
                                let nb = idents@.len() as int;
                                let norm = normalized_indices(bp);
                                let deduped = crate::order::sorted_dedup_indices(norm);
                                if has_overflowing_index(nb, deduped) {
                                    Some(
                                        ErrorVariant::MoreBindParamsThanParams {
                                            nb_params: idents@.len() as usize,
                                            pos: deduped[first_overflowing_index(
                                                nb,
                                                deduped,
                                            )].start,
                                        },
                                    )
                                } else if has_unused_param(nb, norm) {
                                    Some(
                                        ErrorVariant::UnusedParam {
                                            index: first_unused_param(nb, norm) as usize,
                                            pos: idents@[first_unused_param(nb, norm) - 1].start,
                                        },
                                    )
                                } else {
                                    Option::None
                                }
                            },
                        },
                    }
                }
            },
        },
    }
}

/// What a successfully validated query holds, in terms of the parsed one.
pub open spec fn query_ok_shape(q: Query, vq: ValidatedQuery) -> bool {
    if dialect_is_extended(q.sql.bind_params@) {
        vq matches ValidatedQuery::Extended { name, params, bind_params, row, sql_str } && name
            == q.annotation.name && params == q.annotation.param && bind_params@
            == crate::order::sorted_dedup_names(extended_names(q.sql.bind_params@)) && row
            == q.annotation.row && sql_str == q.sql.normalized_sql
    } else {
        vq matches ValidatedQuery::PgCompatible { name, params, row, sql_str } && name
            == q.annotation.name && params == q.annotation.param->Implicit_idents && row
            == q.annotation.row->Implicit_idents && sql_str == q.sql.sql_str
    }
}

/// The whole contract of per-query validation: the error `query_error`
/// gives, or a value of the shape `query_ok_shape` describes.
pub open spec fn validate_query_post(
    info: Rc<ModuleInfo>,
    q: Query,
    r: Result<ValidatedQuery, Error>,
) -> bool {
    match query_error(q) {
        Some(v) => r matches Err(e) && e.err == v && e.info == info,
        Option::None => r matches Ok(vq) && query_ok_shape(q, vq),
    }
}

/// Validates one query: duplicate checks on its inline shapes, dialect
/// resolution, then the dialect's own pipeline, short-circuiting on the
/// first failure.
#[verifier::loop_isolation(false)]
pub fn validate_query(info: &Rc<ModuleInfo>, query: Query) -> (r: Result<ValidatedQuery, Error>)
    ensures
        validate_query_post(*info, query, r),
{
    let ghost q0 = query;
    match &query.annotation.param {
        QueryDataStructure::Implicit { idents } => {
            if let Err(e) = duplicate_nullable_ident(info, idents) {
                return Err(e);
            }
        },
        QueryDataStructure::Named(_) => {},
    }
    match &query.annotation.row {
        QueryDataStructure::Implicit { idents } => {
            if let Err(e) = duplicate_nullable_ident(info, idents) {
                return Err(e);
            }
        },
        QueryDataStructure::Named(_) => {},
    }
    let is_extended_syntax = match ambiguous_bind_param(info, &query.sql.bind_params) {
        Ok(b) => b,
        Err(e) => {
            return Err(e);
        },
    };
    if is_extended_syntax {
        let n = query.sql.bind_params.len();
        let mut names: Vec<Parsed<String>> = Vec::new();
        let mut i: usize = 0;
        while i < n
            invariant
                n == q0.sql.bind_params@.len(),
                i <= n,
                query == q0,
                dialect_homogeneous(q0.sql.bind_params@),
                dialect_is_extended(q0.sql.bind_params@),
                names@.len() == i,
                forall|j: int|
                    0 <= j < i ==> names@[j] == extended_names(q0.sql.bind_params@)[j],
            decreases n - i,
        {
            let bp = &query.sql.bind_params[i];
            let name_val: String = match &bp.value {
                BindParameter::Extended(s) => s.clone(),
                BindParameter::PgCompatible(_) => vstd::pervasive::unreached(),
            };
            names.push(Parsed { start: bp.start, end: bp.end, value: name_val });
            i += 1;
        }
        proof {
            assert(names@ =~= extended_names(q0.sql.bind_params@));
        }
        let bind_params = crate::order::sorted_dedup_names_exec(&names);
        let Query { annotation, sql, sql_start: _ } = query;
        Ok(
            ValidatedQuery::Extended {
                name: annotation.name,
                params: annotation.param,
                bind_params,
                row: annotation.row,
                sql_str: sql.normalized_sql,
            },
        )
    } else {
        let n = query.sql.bind_params.len();
        let mut normalized: Vec<Parsed<i16>> = Vec::new();
        let mut i: usize = 0;
        while i < n
            invariant
                n == q0.sql.bind_params@.len(),
                i <= n,
                query == q0,
                dialect_homogeneous(q0.sql.bind_params@),
                !dialect_is_extended(q0.sql.bind_params@),
                forall|j: int|
                    0 <= j < i ==> valid_pg_index(
                        (#[trigger] q0.sql.bind_params@[j]).value->PgCompatible_0,
                    ),
                normalized@.len() == i,
                forall|j: int|
                    0 <= j < i ==> normalized@[j] == normalized_indices(q0.sql.bind_params@)[j],
            decreases n - i,
        {
            let bp = &query.sql.bind_params[i];
            let raw_index: usize = match &bp.value {
                BindParameter::PgCompatible(k) => *k,
                BindParameter::Extended(_) => vstd::pervasive::unreached(),
            };
            let owned = Parsed {
                start: bp.start,
                end: bp.end,
                value: BindParameter::PgCompatible(raw_index),
            };
            match i16_index(info, owned) {
                Ok(p) => {
                    normalized.push(p);
                },
                Err(e) => {
                    proof {
                        let s = q0.sql.bind_params@;
                        let ii = i as int;
                        assert(!valid_pg_index(s[ii].value->PgCompatible_0) && (forall|j: int|
                            0 <= j < ii ==> valid_pg_index(
                                (#[trigger] s[j]).value->PgCompatible_0,
                            )));
                        let k = first_invalid_index(s);
                        assert(0 <= k < s.len() && !valid_pg_index(s[k].value->PgCompatible_0) && (
                        forall|j: int|
                            0 <= j < k ==> valid_pg_index(
                                (#[trigger] s[j]).value->PgCompatible_0,
                            )));
                        assert(k == ii);
                    }
                    return Err(e);
                },
            }
            i += 1;
        }
        proof {
            assert(normalized@ =~= normalized_indices(q0.sql.bind_params@));
            assert(forall|j: int|
                0 <= j < normalized@.len() ==> (#[trigger] normalized@[j]).value >= 1);
            crate::order::lemma_sorted_dedup_index_bound(normalized@, 1);
        }
        let deduped = crate::order::sorted_dedup_indices_exec(&normalized);
        let Query { annotation, sql, sql_start: _ } = query;
        let name = dup_parsed_string(&annotation.name);
        let (params, row) = match named_struct_in_pg_query(info, annotation) {
            Ok(pair) => pair,
            Err(e) => {
                return Err(e);
            },
        };
        if let Err(e) = more_bind_params_than_params(info, &params, &deduped) {
            return Err(e);
        }
        if let Err(e) = unused_param(info, &params, &normalized) {
            return Err(e);
        }
        Ok(ValidatedQuery::PgCompatible { name, params, row, sql_str: sql.sql_str })
    }
}

/// The module's three registries, chained in the order they are checked.
pub open spec fn registry_chain(m: ParsedModule) -> Seq<TypeAnnotationListItem> {
    m.param_types@ + m.row_types@ + m.db_types@
}

/// Some registry entry declares a repeated field name.
pub open spec fn has_registry_dup(m: ParsedModule) -> bool {
    exists|i: int|
        0 <= i < registry_chain(m).len() && has_duplicate_ident(
            (#[trigger] registry_chain(m)[i]).fields@,
        )
}

/// The first registry entry with a repeated field name (meaningful only
/// when one exists).
pub open spec fn first_registry_dup(m: ParsedModule) -> int {
    choose|i: int|
        0 <= i < registry_chain(m).len() && has_duplicate_ident(
            (#[trigger] registry_chain(m)[i]).fields@,
        ) && (forall|j: int|
            0 <= j < i ==> !has_duplicate_ident((#[trigger] registry_chain(m)[j]).fields@))
}

/// Some query of the module fails its own validation.
pub open spec fn has_failing_query(qs: Seq<Query>) -> bool {
    exists|i: int| 0 <= i < qs.len() && query_error(#[trigger] qs[i]) is Some
}

/// The first query that fails its own validation (meaningful only when
/// one exists).
pub open spec fn first_failing_query(qs: Seq<Query>) -> int {
    choose|i: int|
        0 <= i < qs.len() && query_error(#[trigger] qs[i]) is Some && (forall|j: int|
            0 <= j < i ==> query_error(#[trigger] qs[j]) is None)
}

/// The whole contract of per-module validation: the module-wide checks,
/// then the queries in declaration order, failing fast.
pub open spec fn validate_module_post(
    info: Rc<ModuleInfo>,
    m: ParsedModule,
    r: Result<ValidatedModule, Error>,
) -> bool {
    if has_name_collision(m.queries@) {
        r matches Err(e) && e.err == (ErrorVariant::QueryNameAlreadyUsed {
            name1: m.queries@[first_collision(m.queries@).0].annotation.name,
            name2: m.queries@[first_collision(m.queries@).1].annotation.name,
        }) && e.info == info
    } else if has_registry_dup(m) {
        let fs = registry_chain(m)[first_registry_dup(m)].fields@;
        r matches Err(e) && e.err == (ErrorVariant::DuplicateCol {
            pos: fs[second_occurrence(fs)].start,
        }) && e.info == info
    } else if has_failing_query(m.queries@) {
        r matches Err(e) && Some(e.err) == query_error(
            m.queries@[first_failing_query(m.queries@)],
        ) && e.info == info
    } else {
        r matches Ok(vm) && vm.info == info && vm.param_types == m.param_types && vm.row_types
            == m.row_types && vm.db_types == m.db_types && vm.queries@.len() == m.queries@.len()
            && (forall|i: int|
            0 <= i < m.queries@.len() ==> query_ok_shape(
                m.queries@[i],
                #[trigger] vm.queries@[i],
            ))
    }
}

fn check_registry_fields(
    info: &Rc<ModuleInfo>,
    types: &Vec<TypeAnnotationListItem>,
    ghost_offset: Ghost<int>,
    ghost_chain: Ghost<Seq<TypeAnnotationListItem>>,
) -> (r: Result<(), Error>)
    requires
        0 <= ghost_offset@,
        ghost_offset@ + types@.len() <= ghost_chain@.len(),
        forall|j: int|
            0 <= j < types@.len() ==> ghost_chain@[ghost_offset@ + j] == types@[j],
        forall|j: int|
            0 <= j < ghost_offset@ ==> !has_duplicate_ident((#[trigger] ghost_chain@[j]).fields@),
    ensures
        r is Ok ==> forall|j: int|
            0 <= j < ghost_offset@ + types@.len() ==> !has_duplicate_ident(
                (#[trigger] ghost_chain@[j]).fields@,
            ),
        r matches Err(e) ==> exists|k: int|
            {
                &&& 0 <= k < ghost_chain@.len()
                &&& has_duplicate_ident((#[trigger] ghost_chain@[k]).fields@)
                &&& (forall|j: int|
                    0 <= j < k ==> !has_duplicate_ident((#[trigger] ghost_chain@[j]).fields@))
                &&& e.err == (ErrorVariant::DuplicateCol {
                    pos: ghost_chain@[k].fields@[second_occurrence(ghost_chain@[k].fields@)].start,
                })
                &&& e.info == *info
            },
{
    let n = types.len();
    let mut i: usize = 0;
    while i < n
        invariant
            n == types@.len(),
            i <= n,
            0 <= ghost_offset@,
            ghost_offset@ + types@.len() <= ghost_chain@.len(),
            forall|j: int|
                0 <= j < types@.len() ==> ghost_chain@[ghost_offset@ + j] == types@[j],
            forall|j: int|
                0 <= j < ghost_offset@ ==> !has_duplicate_ident(
                    (#[trigger] ghost_chain@[j]).fields@,
                ),
            forall|j: int| 0 <= j < i ==> !has_duplicate_ident((#[trigger] types@[j]).fields@),
        decreases n - i,
    {
        match duplicate_nullable_ident(info, &types[i].fields) {
            Ok(_) => {},
            Err(e) => {
                proof {
                    let k = ghost_offset@ + i as int;
                    assert(ghost_chain@[k] == types@[i as int]);
                    assert forall|j: int|
                        0 <= j < k implies !has_duplicate_ident(
                        (#[trigger] ghost_chain@[j]).fields@,
                    ) by {
                        if j >= ghost_offset@ {
                            assert(ghost_chain@[j] == types@[j - ghost_offset@]);
                        }
                    }
                }
                return Err(e);
            },
        }
        i += 1;
    }
    proof {
        assert forall|j: int|
            0 <= j < ghost_offset@ + types@.len() implies !has_duplicate_ident(
            (#[trigger] ghost_chain@[j]).fields@,
        ) by {
            if j >= ghost_offset@ {
                assert(ghost_chain@[j] == types@[j - ghost_offset@]);
            }
        }
    }
    Ok(())
}

/// Validates a whole module: query-name uniqueness, the field lists of
/// every registered type, then each query in declaration order, aborting
/// on the first failure.
#[verifier::loop_isolation(false)]
pub fn validate_module(info: Rc<ModuleInfo>, module: ParsedModule) -> (r: Result<
    ValidatedModule,
    Error,
>)
    ensures
        validate_module_post(info, module, r),
{
    let ghost m0 = module;
    if let Err(e) = query_name_already_used(&info, &module.queries) {
        return Err(e);
    }
    let ghost chain = registry_chain(m0);
    let ghost p_len = module.param_types@.len() as int;
    let ghost r_len = module.row_types@.len() as int;
    proof {
        assert forall|j: int| 0 <= j < p_len implies chain[j] == m0.param_types@[j] by {}
        assert forall|j: int| 0 <= j < r_len implies chain[p_len + j] == m0.row_types@[j] by {}
        assert forall|j: int|
            0 <= j < m0.db_types@.len() implies chain[p_len + r_len + j] == m0.db_types@[j] by {}
    }
    if let Err(e) = check_registry_fields(&info, &module.param_types, Ghost(0), Ghost(chain)) {
        proof {
            lemma_first_registry_dup(m0);
        }
        return Err(e);
    }
    if let Err(e) = check_registry_fields(&info, &module.row_types, Ghost(p_len), Ghost(chain)) {
        proof {
            lemma_first_registry_dup(m0);
        }
        return Err(e);
    }
    if let Err(e) = check_registry_fields(
        &info,
        &module.db_types,
        Ghost(p_len + r_len),
        Ghost(chain),
    ) {
        proof {
            lemma_first_registry_dup(m0);
        }
        return Err(e);
    }
    let ParsedModule { param_types, row_types, db_types, queries } = module;
    let mut rest = queries;
    let mut validated: Vec<ValidatedQuery> = Vec::new();
    let n = rest.len();
    let mut i: usize = 0;
    while i < n
        invariant
            n == m0.queries@.len(),
            i <= n,
            rest@ == m0.queries@.skip(i as int),
            validated@.len() == i,
            forall|j: int| 0 <= j < i ==> query_error(#[trigger] m0.queries@[j]) is None,
            forall|j: int|
                0 <= j < i ==> query_ok_shape(m0.queries@[j], #[trigger] validated@[j]),
        decreases n - i,
    {
        let q = rest.remove(0);
        proof {
            assert(q == m0.queries@[i as int]);
            assert(rest@ =~= m0.queries@.skip(i as int + 1));
        }
        match validate_query(&info, q) {
            Ok(vq) => {
                validated.push(vq);
            },
            Err(e) => {
                proof {
                    let qs = m0.queries@;
                    let ii = i as int;
                    let k = first_failing_query(qs);
                    assert(0 <= k < qs.len() && query_error(qs[k]) is Some && (forall|j: int|
                        0 <= j < k ==> query_error(#[trigger] qs[j]) is None));
                    assert(k == ii);
                }
                return Err(e);
            },
        }
        i += 1;
    }
    Ok(ValidatedModule { info, param_types, row_types, db_types, queries: validated })
}

/// Whichever first duplicated registry entry the three chained scans find
/// is `first_registry_dup`.
proof fn lemma_first_registry_dup(m: ParsedModule)
    ensures
        forall|k: int|
            (0 <= k < registry_chain(m).len() && has_duplicate_ident(
                (#[trigger] registry_chain(m)[k]).fields@,
            ) && (forall|j: int|
                0 <= j < k ==> !has_duplicate_ident(
                    (#[trigger] registry_chain(m)[j]).fields@,
                ))) ==> first_registry_dup(m) == k,
{
    assert forall|k: int|
        (0 <= k < registry_chain(m).len() && has_duplicate_ident(
            (#[trigger] registry_chain(m)[k]).fields@,
        ) && (forall|j: int|
            0 <= j < k ==> !has_duplicate_ident(
                (#[trigger] registry_chain(m)[j]).fields@,
            ))) implies first_registry_dup(m) == k by {
        if 0 <= k < registry_chain(m).len() && has_duplicate_ident(registry_chain(m)[k].fields@)
            && (forall|j: int|
            0 <= j < k ==> !has_duplicate_ident((#[trigger] registry_chain(m)[j]).fields@)) {
            let w = first_registry_dup(m);
            assert(0 <= w < registry_chain(m).len() && has_duplicate_ident(
                (registry_chain(m)[w]).fields@,
            ) && (forall|j: int|
                0 <= j < w ==> !has_duplicate_ident((#[trigger] registry_chain(m)[j]).fields@)));
            assert(w == k);
        }
    }
}

/// Observational equality of two validated queries: the same dialect, and
/// field for field the same contents.
pub open spec fn validated_query_equiv(a: ValidatedQuery, b: ValidatedQuery) -> bool {
    match (a, b) {
        (
            ValidatedQuery::PgCompatible { name: n1, params: p1, row: r1, sql_str: s1 },
            ValidatedQuery::PgCompatible { name: n2, params: p2, row: r2, sql_str: s2 },
        ) => n1 == n2 && p1 == p2 && r1 == r2 && s1 == s2,
        (
            ValidatedQuery::Extended {
                name: n1,
                params: p1,
                bind_params: b1,
                row: r1,
                sql_str: s1,
            },
            ValidatedQuery::Extended {
                name: n2,
                params: p2,
                bind_params: b2,
                row: r2,
                sql_str: s2,
            },
        ) => n1 == n2 && p1 == p2 && b1@ == b2@ && r1 == r2 && s1 == s2,
        _ => false,
    }
}

/// Validating one query is deterministic: two results of validating the
/// same query against the same context are the same error, or observably
/// equal validated queries.
pub proof fn lemma_validate_query_deterministic(
    info: Rc<ModuleInfo>,
    q: Query,
    r1: Result<ValidatedQuery, Error>,
    r2: Result<ValidatedQuery, Error>,
)
    requires
        validate_query_post(info, q, r1),
        validate_query_post(info, q, r2),
    ensures
        match (r1, r2) {
            (Ok(a), Ok(b)) => validated_query_equiv(a, b),
            (Err(e1), Err(e2)) => e1 == e2,
            _ => false,
        },
{
}

/// Observational equality of two validated modules: the same context and
/// registries, and pairwise observably equal queries.
pub open spec fn validated_module_equiv(a: ValidatedModule, b: ValidatedModule) -> bool {
    &&& a.info == b.info
    &&& a.param_types == b.param_types
    &&& a.row_types == b.row_types
    &&& a.db_types == b.db_types
    &&& a.queries@.len() == b.queries@.len()
    &&& forall|i: int|
        0 <= i < a.queries@.len() ==> validated_query_equiv(
            #[trigger] a.queries@[i],
            b.queries@[i],
        )
}

/// Validating one module is deterministic: two results of validating the
/// same parsed module against the same context are the same error, or
/// observably equal validated modules.
pub proof fn lemma_validate_module_deterministic(
    info: Rc<ModuleInfo>,
    m: ParsedModule,
    r1: Result<ValidatedModule, Error>,
    r2: Result<ValidatedModule, Error>,
)
    requires
        validate_module_post(info, m, r1),
        validate_module_post(info, m, r2),
    ensures
        match (r1, r2) {
            (Ok(a), Ok(b)) => validated_module_equiv(a, b),
            (Err(e1), Err(e2)) => e1 == e2,
            _ => false,
        },
{
    if !has_name_collision(m.queries@) && !has_registry_dup(m) && !has_failing_query(m.queries@) {
        let a = r1->Ok_0;
        let b = r2->Ok_0;
        assert forall|i: int| 0 <= i < a.queries@.len() implies validated_query_equiv(
            #[trigger] a.queries@[i],
            b.queries@[i],
        ) by {
            lemma_validate_query_deterministic(
                info,
                m.queries@[i],
                Ok(a.queries@[i]),
                Ok(b.queries@[i]),
            );
        }
    }
}

} // verus!
