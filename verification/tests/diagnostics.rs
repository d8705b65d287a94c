use std::rc::Rc;

use query_validation::container::{healthcheck_step, HealthcheckStep, MAX_HEALTHCHECK_RETRIES};
use query_validation::diagnostic::{compute_line, format_err};
use query_validation::error::{Error, ErrorVariant};
use query_validation::parser::{ModuleInfo, NullableIdent, Parsed, PreparedField};

fn info(content: &str) -> Rc<ModuleInfo> {
    Rc::new(ModuleInfo { path: "m.sql".to_string(), content: content.to_string() })
}

#[test]
fn compute_line_finds_line_column_and_text() {
    let content = "ab\ncd\nef".to_string();
    let (col, line, text) = compute_line(&content, 4);
    assert_eq!(line, 2);
    assert_eq!(col, 2);
    assert_eq!(text, "cd");
    let (col0, line0, text0) = compute_line(&content, 0);
    assert_eq!((col0, line0), (1, 1));
    assert_eq!(text0, "ab");
    let (col_end, line_end, text_end) = compute_line(&content, 8);
    assert_eq!((col_end, line_end), (3, 3));
    assert_eq!(text_end, "ef");
}

#[test]
fn format_err_renders_one_anchored_block() {
    let mi = ModuleInfo { path: "m.sql".to_string(), content: "ab\ncd\n".to_string() };
    let msgs = vec!["msg one".to_string(), "msg two".to_string()];
    let block = format_err(&mi, 4, &msgs);
    assert_eq!(block, " --> 2:2\n  | \n  | cd\n  |  ^---\n  | \n  = msg one\n  = msg two");
}

#[test]
fn render_anchors_the_error_in_its_source() {
    let e = Error { err: ErrorVariant::DuplicateCol { pos: 4 }, info: info("ab\ncd\n") };
    assert_eq!(
        e.render(),
        "Error while validating queries [path: \"m.sql\"]:\n --> 2:2\n  | \n  | cd\n  |  ^---\n  | \n  = Column name is already used."
    );
}

#[test]
fn render_counts_lines_and_columns_from_one() {
    let e = Error { err: ErrorVariant::InvalidI16Index { pos: 0 }, info: info("x") };
    assert_eq!(
        e.render(),
        "Error while validating queries [path: \"m.sql\"]:\n --> 1:1\n  | \n  | x\n  | ^---\n  | \n  = Index must be between 1 and 32767."
    );
}

#[test]
fn render_embeds_the_declared_count() {
    let e = Error {
        err: ErrorVariant::MoreBindParamsThanParams { nb_params: 12, pos: 0 },
        info: info("q"),
    };
    assert_eq!(
        e.render(),
        "Error while validating queries [path: \"m.sql\"]:\n --> 1:1\n  | \n  | q\n  | ^---\n  | \n  = Index is higher than the number of parameters supplied (12)."
    );
}

#[test]
fn render_embeds_the_unused_index() {
    let e = Error { err: ErrorVariant::UnusedParam { index: 2, pos: 0 }, info: info("q") };
    assert_eq!(
        e.render(),
        "Error while validating queries [path: \"m.sql\"]:\n --> 1:1\n  | \n  | q\n  | ^---\n  | \n  = Parameter `$2` is never used in the query."
    );
}

#[test]
fn render_name_collision_shows_both_sites() {
    let e = Error {
        err: ErrorVariant::QueryNameAlreadyUsed {
            name1: Parsed { start: 0, end: 1, value: "q".to_string() },
            name2: Parsed { start: 2, end: 3, value: "q".to_string() },
        },
        info: info("q\nq"),
    };
    assert_eq!(
        e.render(),
        "Error while validating queries [path: \"m.sql\"]:\n --> 1:1\n  | \n  | q\n  | ^---\n  | \n  = A query named `q` already exists.\n --> 2:1\n  | \n  | q\n  | ^---\n  | \n  = Query `q` first defined here."
    );
}

#[test]
fn render_lists_both_field_sets() {
    let e = Error {
        err: ErrorVariant::NamedStructInvalidFields {
            expected: vec![
                PreparedField { name: "street".to_string(), is_nullable: false },
                PreparedField { name: "city".to_string(), is_nullable: true },
            ],
            actual: vec![PreparedField { name: "street".to_string(), is_nullable: false }],
            name: Parsed { start: 0, end: 7, value: "Address".to_string() },
        },
        info: info("Address"),
    };
    assert_eq!(
        e.render(),
        "Error while validating queries [path: \"m.sql\"]:\n --> 1:1\n  | \n  | Address\n  | ^---\n  | \n  = This query's named row struct `Address` has already been used, but the fields don't match.\n  = Expected fields: [street, city (nullable)]\n  = Got fields: [street]"
    );
}

#[test]
fn render_names_the_missing_column() {
    let e = Error {
        err: ErrorVariant::InvalidNullableColumnName {
            nullable_col: Parsed {
                start: 0,
                end: 4,
                value: NullableIdent { name: "nope".to_string(), nullable: Some(true) },
            },
        },
        info: info("nope"),
    };
    assert_eq!(
        e.render(),
        "Error while validating queries [path: \"m.sql\"]:\n --> 1:1\n  | \n  | nope\n  | ^---\n  | \n  = No column named `nope` found for this query."
    );
}

#[test]
fn render_explains_the_dialect_mix() {
    let e = Error { err: ErrorVariant::AmbiguousBindParam { pos: 0 }, info: info(":a") };
    assert_eq!(
        e.render(),
        "Error while validating queries [path: \"m.sql\"]:\n --> 1:1\n  | \n  | :a\n  | ^---\n  | \n  = Cannot mix bind parameter syntaxes in the same query.\n  = Please use either named (`:named_ident`) or indexed (`$n`) bind parameters, but not both."
    );
}

#[test]
fn render_explains_named_structs_in_pg_queries() {
    let e = Error { err: ErrorVariant::NamedStructInPgQuery { pos: 0 }, info: info("T") };
    assert_eq!(
        e.render(),
        "Error while validating queries [path: \"m.sql\"]:\n --> 1:1\n  | \n  | T\n  | ^---\n  | \n  = Named query structs are not allowed when using the PostgreSQL-compatible syntax.\n  = Use anonymous structs instead, or use the extended query syntax."
    );
}

#[test]
fn render_explains_unknown_named_structs() {
    let e = Error { err: ErrorVariant::UnknownNamedStruct { pos: 0 }, info: info("T") };
    assert_eq!(
        e.render(),
        "Error while validating queries [path: \"m.sql\"]:\n --> 1:1\n  | \n  | T\n  | ^---\n  | \n  = Unknown named struct. Named structs must be registered using type annotations."
    );
}

#[test]
fn healthcheck_policy_reacts_to_each_probe() {
    assert_eq!(healthcheck_step(true, 5, MAX_HEALTHCHECK_RETRIES), HealthcheckStep::Ready);
    assert_eq!(healthcheck_step(false, 120, 120), HealthcheckStep::GiveUp);
    assert_eq!(
        healthcheck_step(false, 5, 120),
        HealthcheckStep::Retry { nb_retries: 6, notify: false }
    );
    assert_eq!(
        healthcheck_step(false, 9, 120),
        HealthcheckStep::Retry { nb_retries: 10, notify: true }
    );
    assert_eq!(
        healthcheck_step(false, 119, 120),
        HealthcheckStep::Retry { nb_retries: 120, notify: true }
    );
}
