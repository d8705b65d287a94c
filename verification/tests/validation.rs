use std::rc::Rc;

use query_validation::error::ErrorVariant;
use query_validation::parser::{
    BindParameter, ModuleInfo, NullableIdent, Parsed, ParsedModule, ParsedSql, PreparedField,
    Query, QueryAnnotation, QueryDataStructure, TypeAnnotationListItem,
};
use query_validation::validation::{
    ambiguous_bind_param, duplicate_nullable_ident, i16_index, more_bind_params_than_params,
    named_struct_field, named_struct_in_pg_query, nullable_column_name, nullable_param_name,
    query_name_already_used, unknown_named_struct, unused_param, validate_module, validate_query,
    ValidatedQuery,
};

fn info() -> Rc<ModuleInfo> {
    Rc::new(ModuleInfo {
        path: "queries/users.sql".to_string(),
        content: "-- some module source\nselect * from users;\n".to_string(),
    })
}

fn sp<T>(start: usize, end: usize, value: T) -> Parsed<T> {
    Parsed { start, end, value }
}

fn ident(start: usize, name: &str) -> Parsed<NullableIdent> {
    sp(start, start + name.len(), NullableIdent { name: name.to_string(), nullable: None })
}

fn pg(start: usize, index: usize) -> Parsed<BindParameter> {
    sp(start, start + 2, BindParameter::PgCompatible(index))
}

fn ext(start: usize, name: &str) -> Parsed<BindParameter> {
    sp(start, start + name.len() + 1, BindParameter::Extended(name.to_string()))
}

fn query(
    name: Parsed<String>,
    param: QueryDataStructure,
    row: QueryDataStructure,
    bind_params: Vec<Parsed<BindParameter>>,
) -> Query {
    Query {
        annotation: QueryAnnotation { name, param, row },
        sql: ParsedSql {
            sql_str: "select * from users where id = $1".to_string(),
            normalized_sql: "select * from users where id = $1".to_string(),
            bind_params,
        },
        sql_start: 22,
    }
}

fn implicit(idents: Vec<Parsed<NullableIdent>>) -> QueryDataStructure {
    QueryDataStructure::Implicit { idents }
}

#[test]
fn pg_query_with_matching_params_succeeds() {
    // Bind params [$1, $2] against declared params [a, b].
    let q = query(
        sp(0, 8, "get_user".to_string()),
        implicit(vec![ident(10, "a"), ident(12, "b")]),
        implicit(vec![]),
        vec![pg(30, 1), pg(33, 2)],
    );
    let r = validate_query(&info(), q);
    match r {
        Ok(ValidatedQuery::PgCompatible { name, params, row, sql_str }) => {
            assert_eq!(name.value, "get_user");
            assert_eq!(params.len(), 2);
            assert_eq!(row.len(), 0);
            assert_eq!(sql_str, "select * from users where id = $1");
        }
        _ => panic!("expected a pg-compatible validated query"),
    }
}

#[test]
fn mixed_dialects_fail_at_second_param() {
    // Bind params [$1, :name]: the second one's position is reported.
    let binds = vec![pg(30, 1), ext(40, "name")];
    let r = ambiguous_bind_param(&info(), &binds);
    match r {
        Err(e) => assert!(matches!(e.err, ErrorVariant::AmbiguousBindParam { pos: 40 })),
        Ok(_) => panic!("expected a dialect mismatch"),
    }
}

#[test]
fn mixed_dialects_fail_inside_validate_query() {
    let q = query(
        sp(0, 8, "get_user".to_string()),
        implicit(vec![ident(10, "a")]),
        implicit(vec![]),
        vec![pg(30, 1), ext(40, "name")],
    );
    match validate_query(&info(), q) {
        Err(e) => assert!(matches!(e.err, ErrorVariant::AmbiguousBindParam { pos: 40 })),
        Ok(_) => panic!("expected a dialect mismatch"),
    }
}

#[test]
fn bind_index_beyond_declared_params_fails() {
    // Declared [a, b], bind params [$1, $3]: nb_params = 2, at $3.
    let q = query(
        sp(0, 8, "get_user".to_string()),
        implicit(vec![ident(10, "a"), ident(12, "b")]),
        implicit(vec![]),
        vec![pg(30, 1), pg(33, 3)],
    );
    match validate_query(&info(), q) {
        Err(e) => {
            assert!(matches!(
                e.err,
                ErrorVariant::MoreBindParamsThanParams { nb_params: 2, pos: 33 }
            ));
        }
        Ok(_) => panic!("expected an out-of-range bind index"),
    }
}

#[test]
fn declared_param_without_bind_index_fails() {
    // Declared [a, b], bind params [$1]: parameter 2 is unused.
    let q = query(
        sp(0, 8, "get_user".to_string()),
        implicit(vec![ident(10, "a"), ident(12, "b")]),
        implicit(vec![]),
        vec![pg(30, 1)],
    );
    match validate_query(&info(), q) {
        Err(e) => {
            assert!(matches!(e.err, ErrorVariant::UnusedParam { index: 2, pos: 12 }));
        }
        Ok(_) => panic!("expected an unused parameter"),
    }
}

#[test]
fn duplicate_field_fails_at_second_occurrence() {
    // Declared fields [id, id].
    let idents = vec![ident(10, "id"), ident(14, "id")];
    match duplicate_nullable_ident(&info(), &idents) {
        Err(e) => assert!(matches!(e.err, ErrorVariant::DuplicateCol { pos: 14 })),
        Ok(_) => panic!("expected a duplicate field"),
    }
}

#[test]
fn duplicate_query_name_reports_both_positions() {
    // Two queries named "get_user" in one module.
    let q1 = query(
        sp(0, 8, "get_user".to_string()),
        implicit(vec![]),
        implicit(vec![]),
        vec![],
    );
    let q2 = query(
        sp(50, 58, "get_user".to_string()),
        implicit(vec![]),
        implicit(vec![]),
        vec![],
    );
    let module = ParsedModule {
        param_types: vec![],
        row_types: vec![],
        db_types: vec![],
        queries: vec![q1, q2],
    };
    match validate_module(info(), module) {
        Err(e) => match e.err {
            ErrorVariant::QueryNameAlreadyUsed { name1, name2 } => {
                assert_eq!(name1.start, 0);
                assert_eq!(name2.start, 50);
                assert_eq!(name1.value, "get_user");
                assert_eq!(name2.value, "get_user");
            }
            _ => panic!("expected a duplicate query name"),
        },
        Ok(_) => panic!("expected a duplicate query name"),
    }
}

#[test]
fn named_struct_in_pg_query_fails_at_struct_name() {
    // A pg-compatible query with row annotation Named("UserRow").
    let q = query(
        sp(0, 8, "get_user".to_string()),
        implicit(vec![ident(10, "a")]),
        QueryDataStructure::Named(sp(20, 27, "UserRow".to_string())),
        vec![pg(30, 1)],
    );
    match validate_query(&info(), q) {
        Err(e) => assert!(matches!(e.err, ErrorVariant::NamedStructInPgQuery { pos: 20 })),
        Ok(_) => panic!("expected a named struct rejection"),
    }
}

#[test]
fn named_struct_guard_checks_param_side_first() {
    let annotation = QueryAnnotation {
        name: sp(0, 8, "get_user".to_string()),
        param: QueryDataStructure::Named(sp(15, 20, "Param".to_string())),
        row: QueryDataStructure::Named(sp(25, 30, "RowTy".to_string())),
    };
    match named_struct_in_pg_query(&info(), annotation) {
        Err(e) => assert!(matches!(e.err, ErrorVariant::NamedStructInPgQuery { pos: 15 })),
        Ok(_) => panic!("expected a named struct rejection"),
    }
}

#[test]
fn zero_bind_index_is_rejected() {
    // Bind index $0: postgres parameters are 1-indexed.
    let q = query(
        sp(0, 8, "get_user".to_string()),
        implicit(vec![ident(10, "a")]),
        implicit(vec![]),
        vec![pg(30, 0)],
    );
    match validate_query(&info(), q) {
        Err(e) => assert!(matches!(e.err, ErrorVariant::InvalidI16Index { pos: 30 })),
        Ok(_) => panic!("expected an invalid index"),
    }
}

#[test]
fn oversized_bind_index_is_rejected() {
    // Bind index $40000 exceeds 32767.
    let q = query(
        sp(0, 8, "get_user".to_string()),
        implicit(vec![ident(10, "a")]),
        implicit(vec![]),
        vec![pg(30, 40000)],
    );
    match validate_query(&info(), q) {
        Err(e) => assert!(matches!(e.err, ErrorVariant::InvalidI16Index { pos: 30 })),
        Ok(_) => panic!("expected an invalid index"),
    }
}

#[test]
fn largest_valid_index_is_accepted() {
    match i16_index(&info(), pg(30, 32767)) {
        Ok(p) => {
            assert_eq!(p.value, 32767);
            assert_eq!(p.start, 30);
            assert_eq!(p.end, 32);
        }
        Err(_) => panic!("expected the largest valid index to pass"),
    }
    assert!(i16_index(&info(), pg(30, 32768)).is_err());
}

#[test]
fn reused_named_struct_with_other_fields_fails() {
    // Address declared [street, city], reused as [street].
    let prev = vec![
        PreparedField { name: "street".to_string(), is_nullable: false },
        PreparedField { name: "city".to_string(), is_nullable: false },
    ];
    let fields = vec![PreparedField { name: "street".to_string(), is_nullable: false }];
    let name = sp(40, 47, "Address".to_string());
    match named_struct_field(&info(), &name, &prev, &fields) {
        Err(e) => match e.err {
            ErrorVariant::NamedStructInvalidFields { expected, actual, name } => {
                assert_eq!(expected.len(), 2);
                assert_eq!(expected[0].name, "street");
                assert_eq!(expected[1].name, "city");
                assert_eq!(actual.len(), 1);
                assert_eq!(actual[0].name, "street");
                assert_eq!(name.value, "Address");
            }
            _ => panic!("expected a field mismatch"),
        },
        Ok(_) => panic!("expected a field mismatch"),
    }
}

#[test]
fn named_struct_with_same_field_set_passes() {
    let prev = vec![
        PreparedField { name: "street".to_string(), is_nullable: false },
        PreparedField { name: "city".to_string(), is_nullable: true },
    ];
    let fields = vec![
        PreparedField { name: "city".to_string(), is_nullable: true },
        PreparedField { name: "street".to_string(), is_nullable: false },
    ];
    let name = sp(40, 47, "Address".to_string());
    assert!(named_struct_field(&info(), &name, &prev, &fields).is_ok());
}

#[test]
fn nullability_tag_is_part_of_field_identity() {
    let prev = vec![PreparedField { name: "street".to_string(), is_nullable: false }];
    let fields = vec![PreparedField { name: "street".to_string(), is_nullable: true }];
    let name = sp(40, 47, "Address".to_string());
    assert!(named_struct_field(&info(), &name, &prev, &fields).is_err());
}

#[test]
fn empty_bind_list_defaults_to_extended() {
    let binds: Vec<Parsed<BindParameter>> = vec![];
    assert_eq!(ambiguous_bind_param(&info(), &binds).unwrap(), true);
}

#[test]
fn homogeneous_bind_lists_resolve() {
    let pg_binds = vec![pg(30, 1), pg(33, 2), pg(36, 1)];
    assert_eq!(ambiguous_bind_param(&info(), &pg_binds).unwrap(), false);
    let ext_binds = vec![ext(30, "a"), ext(35, "b")];
    assert_eq!(ambiguous_bind_param(&info(), &ext_binds).unwrap(), true);
}

#[test]
fn extended_bind_params_are_sorted_and_deduplicated() {
    // [:b, :a, :b] becomes [a, b]; of the two `b`s the earliest survives.
    let q = query(
        sp(0, 8, "get_user".to_string()),
        implicit(vec![ident(10, "a"), ident(12, "b")]),
        implicit(vec![]),
        vec![ext(30, "b"), ext(35, "a"), ext(40, "b")],
    );
    match validate_query(&info(), q) {
        Ok(ValidatedQuery::Extended { bind_params, sql_str, .. }) => {
            assert_eq!(bind_params.len(), 2);
            assert_eq!(bind_params[0].value, "a");
            assert_eq!(bind_params[0].start, 35);
            assert_eq!(bind_params[1].value, "b");
            assert_eq!(bind_params[1].start, 30);
            // The extended path carries the normalized text.
            assert_eq!(sql_str, "select * from users where id = $1");
        }
        _ => panic!("expected an extended validated query"),
    }
}

#[test]
fn duplicate_bind_indices_are_deduplicated() {
    // [$1, $1] against [a]: no overflow, nothing unused.
    let q = query(
        sp(0, 8, "get_user".to_string()),
        implicit(vec![ident(10, "a")]),
        implicit(vec![]),
        vec![pg(30, 1), pg(33, 1)],
    );
    assert!(validate_query(&info(), q).is_ok());
}

#[test]
fn overflow_check_reports_first_exceeding_index() {
    let params = vec![ident(10, "a"), ident(12, "b")];
    let deduped = vec![
        sp(30, 32, 1i16),
        sp(33, 35, 3i16),
        sp(36, 38, 4i16),
    ];
    match more_bind_params_than_params(&info(), &params, &deduped) {
        Err(e) => assert!(matches!(
            e.err,
            ErrorVariant::MoreBindParamsThanParams { nb_params: 2, pos: 33 }
        )),
        Ok(_) => panic!("expected an overflow"),
    }
}

#[test]
fn unused_check_reports_first_unused_position() {
    let params = vec![ident(10, "a"), ident(12, "b"), ident(14, "c")];
    let binds = vec![sp(30, 32, 3i16)];
    match unused_param(&info(), &params, &binds) {
        Err(e) => assert!(matches!(e.err, ErrorVariant::UnusedParam { index: 1, pos: 10 })),
        Ok(_) => panic!("expected an unused parameter"),
    }
}

#[test]
fn unknown_named_struct_is_reported_at_reference() {
    let types = vec![TypeAnnotationListItem {
        name: sp(5, 12, "Address".to_string()),
        fields: vec![ident(15, "street"), ident(25, "city")],
    }];
    let hit = unknown_named_struct(&info(), &sp(60, 67, "Address".to_string()), &types);
    assert_eq!(hit.unwrap().len(), 2);
    let miss = unknown_named_struct(&info(), &sp(60, 67, "Missing".to_string()), &types);
    match miss {
        Err(e) => assert!(matches!(e.err, ErrorVariant::UnknownNamedStruct { pos: 60 })),
        Ok(_) => panic!("expected an unknown struct"),
    }
}

#[test]
fn nullable_names_are_checked_against_resolved_schema() {
    let col = ident(10, "name");
    let cols = vec!["id".to_string(), "name".to_string()];
    assert!(nullable_column_name(&info(), &col, &cols).is_ok());
    let missing = ident(10, "nope");
    match nullable_column_name(&info(), &missing, &cols) {
        Err(e) => match e.err {
            ErrorVariant::InvalidNullableColumnName { nullable_col } => {
                assert_eq!(nullable_col.value.name, "nope");
                assert_eq!(nullable_col.start, 10);
            }
            _ => panic!("expected a bad nullable name"),
        },
        Ok(_) => panic!("expected a bad nullable name"),
    }
    let params = vec![sp(0, 4, "name".to_string())];
    assert!(nullable_param_name(&info(), &col, &params).is_ok());
    assert!(nullable_param_name(&info(), &missing, &params).is_err());
}

#[test]
fn module_checks_registry_field_lists() {
    let module = ParsedModule {
        param_types: vec![],
        row_types: vec![TypeAnnotationListItem {
            name: sp(5, 12, "Address".to_string()),
            fields: vec![ident(15, "street"), ident(25, "street")],
        }],
        db_types: vec![],
        queries: vec![],
    };
    match validate_module(info(), module) {
        Err(e) => assert!(matches!(e.err, ErrorVariant::DuplicateCol { pos: 25 })),
        Ok(_) => panic!("expected a duplicate registry field"),
    }
}

#[test]
fn module_validation_is_fail_fast_and_keeps_order() {
    let good = query(
        sp(0, 5, "first".to_string()),
        implicit(vec![ident(10, "a")]),
        implicit(vec![]),
        vec![pg(30, 1)],
    );
    let bad = query(
        sp(50, 56, "second".to_string()),
        implicit(vec![ident(60, "a")]),
        implicit(vec![]),
        vec![pg(70, 0)],
    );
    let third = query(
        sp(90, 95, "third".to_string()),
        implicit(vec![ident(100, "x"), ident(102, "x")]),
        implicit(vec![]),
        vec![],
    );
    let module = ParsedModule {
        param_types: vec![],
        row_types: vec![],
        db_types: vec![],
        queries: vec![good, bad, third],
    };
    // The second query's invalid index is reported, not the third's
    // duplicate field: validation aborts on the first failing query.
    match validate_module(info(), module) {
        Err(e) => assert!(matches!(e.err, ErrorVariant::InvalidI16Index { pos: 70 })),
        Ok(_) => panic!("expected the second query to fail"),
    }
}

#[test]
fn validating_twice_gives_identical_output() {
    let build = || ParsedModule {
        param_types: vec![],
        row_types: vec![],
        db_types: vec![],
        queries: vec![
            query(
                sp(0, 5, "alpha".to_string()),
                implicit(vec![ident(10, "a")]),
                implicit(vec![]),
                vec![pg(30, 1)],
            ),
            query(
                sp(50, 54, "beta".to_string()),
                implicit(vec![]),
                implicit(vec![]),
                vec![ext(60, "k"), ext(65, "j"), ext(70, "k")],
            ),
        ],
    };
    let r1 = validate_module(info(), build()).unwrap();
    let r2 = validate_module(info(), build()).unwrap();
    assert_eq!(r1.queries.len(), r2.queries.len());
    for (a, b) in r1.queries.iter().zip(r2.queries.iter()) {
        assert_eq!(a.name().value, b.name().value);
        assert_eq!(a.name().start, b.name().start);
        assert_eq!(a.sql_str(), b.sql_str());
        match (a, b) {
            (
                ValidatedQuery::Extended { bind_params: b1, .. },
                ValidatedQuery::Extended { bind_params: b2, .. },
            ) => {
                assert_eq!(b1.len(), b2.len());
                for (x, y) in b1.iter().zip(b2.iter()) {
                    assert_eq!(x.value, y.value);
                    assert_eq!(x.start, y.start);
                    assert_eq!(x.end, y.end);
                }
            }
            (ValidatedQuery::PgCompatible { .. }, ValidatedQuery::PgCompatible { .. }) => {}
            _ => panic!("the two runs disagree on the dialect"),
        }
    }
}

#[test]
fn module_wide_name_check_sees_all_pairs() {
    let queries = vec![
        query(sp(0, 1, "a".to_string()), implicit(vec![]), implicit(vec![]), vec![]),
        query(sp(10, 11, "b".to_string()), implicit(vec![]), implicit(vec![]), vec![]),
        query(sp(20, 21, "a".to_string()), implicit(vec![]), implicit(vec![]), vec![]),
    ];
    match query_name_already_used(&info(), &queries) {
        Err(e) => match e.err {
            ErrorVariant::QueryNameAlreadyUsed { name1, name2 } => {
                assert_eq!(name1.start, 0);
                assert_eq!(name2.start, 20);
            }
            _ => panic!("expected a name collision"),
        },
        Ok(_) => panic!("expected a name collision"),
    }
}

#[test]
fn validated_query_getters_expose_name_and_sql() {
    let q = query(
        sp(3, 11, "get_user".to_string()),
        implicit(vec![ident(10, "a")]),
        implicit(vec![]),
        vec![pg(30, 1)],
    );
    let vq = validate_query(&info(), q).unwrap();
    assert_eq!(vq.name().value, "get_user");
    assert_eq!(vq.name().start, 3);
    assert_eq!(vq.sql_str(), "select * from users where id = $1");
}
