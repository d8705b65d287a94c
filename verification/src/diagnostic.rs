//! Rendering a validation failure as a source-anchored, human-readable
//! diagnostic: a header naming the module, then one block per reported
//! position with its 1-based line and column, the full line, a caret
//! marker, and the messages.
use vstd::prelude::*;
use vstd::string::StrSliceExecFns;
use vstd::string::StringExecFns;

use crate::error::{Error, ErrorVariant};
use crate::parser::{ModuleInfo, PreparedField};

verus! {

/// The character of one decimal digit.
pub open spec fn digit_char(d: nat) -> char {
    ((0x30 + (d % 10)) as u8) as char
}

/// The decimal digits of `n`, most significant first.
pub open spec fn dec_digits(n: nat) -> Seq<char>
    decreases n,
{
    if n < 10 {
        seq![digit_char(n)]
    } else {
        dec_digits(n / 10) + seq![digit_char(n % 10)]
    }
}

fn digit_str(d: usize) -> (r: &'static str)
    requires
        d < 10,
    ensures
        r@ == seq![digit_char(d as nat)],
{
    let r: &'static str = if d == 0 {
        "0"
    } else if d == 1 {
        "1"
    } else if d == 2 {
        "2"
    } else if d == 3 {
        "3"
    } else if d == 4 {
        "4"
    } else if d == 5 {
        "5"
    } else if d == 6 {
        "6"
    } else if d == 7 {
        "7"
    } else if d == 8 {
        "8"
    } else {
        "9"
    };
    proof {
        reveal_strlit("0");
        reveal_strlit("1");
        reveal_strlit("2");
        reveal_strlit("3");
        reveal_strlit("4");
        reveal_strlit("5");
        reveal_strlit("6");
        reveal_strlit("7");
        reveal_strlit("8");
        reveal_strlit("9");
        assert(r@ =~= seq![digit_char(d as nat)]);
    }
    r
}

/// Renders a count in decimal.
fn usize_to_string(n: usize) -> (r: String)
    ensures
        r@ == dec_digits(n as nat),
    decreases n,
{
    if n < 10 {
        digit_str(n).to_owned()
    } else {
        let mut prefix = usize_to_string(n / 10);
        prefix.append(digit_str(n % 10));
        prefix
    }
}

/// `n` spaces.
pub open spec fn spaces(n: nat) -> Seq<char>
    decreases n,
{
    if n == 0 {
        Seq::empty()
    } else {
        spaces((n - 1) as nat) + seq![' ']
    }
}

fn spaces_exec(n: usize) -> (r: String)
    ensures
        r@ == spaces(n as nat),
{
    let mut r = String::new();
    proof {
        assert(r@ =~= spaces(0));
    }
    let mut i: usize = 0;
    while i < n
        invariant
            i <= n,
            r@ == spaces(i as nat),
        decreases n - i,
    {
        r.append(" ");
        proof {
            reveal_strlit(" ");
            assert(r@ =~= spaces((i + 1) as nat));
        }
        i += 1;
    }
    r
}

/// The number of newlines among the first `end` characters.
pub open spec fn count_newlines(s: Seq<char>, end: int) -> int
    decreases end,
{
    if end <= 0 {
        0
    } else {
        count_newlines(s, end - 1) + if s[end - 1] == '\n' {
            1int
        } else {
            0int
        }
    }
}

/// The offset at which the line containing `pos` begins: just past the
/// last newline before `pos`.
pub open spec fn line_start(s: Seq<char>, pos: int) -> int
    decreases pos,
{
    if pos <= 0 {
        0
    } else if s[pos - 1] == '\n' {
        pos
    } else {
        line_start(s, pos - 1)
    }
}

/// The offset at which the line containing `pos` ends: the first newline
/// at or after `pos`, or the end of the source.
pub open spec fn line_end(s: Seq<char>, pos: int) -> int
    decreases s.len() - pos,
{
    if pos >= s.len() {
        s.len() as int
    } else if s[pos] == '\n' {
        pos
    } else {
        line_end(s, pos + 1)
    }
}

#[verifier::loop_isolation(false)]
fn find_line_end(content: &String, from: usize) -> (r: usize)
    requires
        from <= content@.len(),
        content@.len() < usize::MAX,
    ensures
        r == line_end(content@, from as int),
        from <= r <= content@.len(),
{
    let s = content.as_str();
    let len = s.unicode_len();
    let mut j: usize = from;
    while j < len
        invariant
            from <= j <= len,
            line_end(content@, from as int) == line_end(content@, j as int),
        decreases len - j,
    {
        let c = s.get_char(j);
        if c == '\n' {
            return j;
        }
        j += 1;
    }
    j
}

/// Computes the 1-based column and line of an offset, and the full text
/// of its line, by scanning the source's newline boundaries.
#[verifier::loop_isolation(false)]
pub fn compute_line(content: &String, pos: usize) -> (r: (usize, usize, String))
    requires
        pos <= content@.len(),
        content@.len() < usize::MAX,
    ensures
        r.0 == pos - line_start(content@, pos as int) + 1,
        r.1 == count_newlines(content@, pos as int) + 1,
        1 <= r.0,
        1 <= r.1,
        r.2@ == content@.subrange(
            line_start(content@, pos as int),
            line_end(content@, pos as int),
        ),
{
    let s = content.as_str();
    let mut nl: usize = 0;
    let mut ls: usize = 0;
    let mut i: usize = 0;
    while i < pos
        invariant
            i <= pos,
            nl <= i,
            ls <= i,
            nl == count_newlines(content@, i as int),
            ls == line_start(content@, i as int),
        decreases pos - i,
    {
        let c = s.get_char(i);
        if c == '\n' {
            nl = nl + 1;
            ls = i + 1;
        }
        i += 1;
    }
    let end = find_line_end(content, pos);
    let line_str = s.substring_char(ls, end).to_owned();
    (pos - ls + 1, nl + 1, line_str)
}

/// The views of a list of messages.
pub open spec fn views_of(msgs: Seq<String>) -> Seq<Seq<char>> {
    Seq::new(msgs.len(), |i: int| msgs[i]@)
}

/// The messages joined by the diagnostic's continuation separator.
pub open spec fn joined(msgs: Seq<Seq<char>>) -> Seq<char>
    decreases msgs.len(),
{
    if msgs.len() == 0 {
        Seq::empty()
    } else if msgs.len() == 1 {
        msgs[0]
    } else {
        msgs[0] + "\n  = "@ + joined(msgs.skip(1))
    }
}

fn join_from(messages: &Vec<String>, i: usize) -> (r: String)
    requires
        i < messages@.len(),
    ensures
        r@ == joined(views_of(messages@).skip(i as int)),
    decreases messages@.len() - i,
{
    let ghost vs = views_of(messages@);
    let n = messages.len();
    let mut r = messages[i].clone();
    proof {
        assert(vs.skip(i as int)[0] == vs[i as int]);
    }
    if i + 1 < n {
        r.append("\n  = ");
        let rest = join_from(messages, i + 1);
        r.append(rest.as_str());
        proof {
            assert(vs.skip(i as int).skip(1) =~= vs.skip(i as int + 1));
        }
    } else {
        proof {
            assert(vs.skip(i as int).len() == 1);
        }
    }
    r
}

/// The rendered block for one reported position: its 1-based line and
/// column, the full line, a caret marker padded to the column, and the
/// messages.
pub open spec fn format_err_spec(content: Seq<char>, pos: int, msgs: Seq<Seq<char>>) -> Seq<char> {
    let line = count_newlines(content, pos) + 1;
    let ls = line_start(content, pos);
    let col = pos - ls + 1;
    " --> "@ + dec_digits(line as nat) + ":"@ + dec_digits(col as nat) + "\n  | \n  | "@
        + content.subrange(ls, line_end(content, pos)) + "\n  | "@ + spaces((col - 1) as nat)
        + "^---"@ + "\n  | \n  = "@ + joined(msgs)
}

/// Renders one source-anchored block of a diagnostic.
pub fn format_err(info: &ModuleInfo, pos: usize, messages: &Vec<String>) -> (r: String)
    requires
        pos <= info.content@.len(),
        info.content@.len() < usize::MAX,
    ensures
        r@ == format_err_spec(info.content@, pos as int, views_of(messages@)),
{
    let (col, line, line_str) = compute_line(&info.content, pos);
    let mut r = " --> ".to_owned();
    r.append(usize_to_string(line).as_str());
    r.append(":");
    r.append(usize_to_string(col).as_str());
    r.append("\n  | \n  | ");
    r.append(line_str.as_str());
    r.append("\n  | ");
    r.append(spaces_exec(col - 1).as_str());
    r.append("^---");
    r.append("\n  | \n  = ");
    if messages.len() > 0 {
        r.append(join_from(messages, 0).as_str());
        proof {
            assert(views_of(messages@).skip(0) =~= views_of(messages@));
        }
    } else {
        proof {
            assert(r@ =~= r@ + joined(views_of(messages@)));
        }
    }
    r
}

/// One field of a diff-style field listing.
pub open spec fn field_text(f: PreparedField) -> Seq<char> {
    if f.is_nullable {
        f.name@ + " (nullable)"@
    } else {
        f.name@
    }
}

/// The fields of a diff-style field listing, comma-separated.
pub open spec fn fields_inner(s: Seq<PreparedField>) -> Seq<char>
    decreases s.len(),
{
    if s.len() == 0 {
        Seq::empty()
    } else if s.len() == 1 {
        field_text(s[0])
    } else {
        field_text(s[0]) + ", "@ + fields_inner(s.skip(1))
    }
}

/// A bracketed, comma-separated field listing for a diff-style report.
pub open spec fn fields_text(s: Seq<PreparedField>) -> Seq<char> {
    "["@ + fields_inner(s) + "]"@
}

fn fields_inner_exec(fields: &Vec<PreparedField>, i: usize) -> (r: String)
    requires
        i < fields@.len(),
    ensures
        r@ == fields_inner(fields@.skip(i as int)),
    decreases fields@.len() - i,
{
    let n = fields.len();
    let mut r = fields[i].name.clone();
    if fields[i].is_nullable {
        r.append(" (nullable)");
    }
    proof {
        assert(fields@.skip(i as int)[0] == fields@[i as int]);
    }
    if i + 1 < n {
        r.append(", ");
        let rest = fields_inner_exec(fields, i + 1);
        r.append(rest.as_str());
        proof {
            assert(fields@.skip(i as int).skip(1) =~= fields@.skip(i as int + 1));
        }
    } else {
        proof {
            assert(fields@.skip(i as int).len() == 1);
        }
    }
    r
}

fn fields_text_exec(fields: &Vec<PreparedField>) -> (r: String)
    ensures
        r@ == fields_text(fields@),
{
    let mut r = "[".to_owned();
    if fields.len() > 0 {
        let inner = fields_inner_exec(fields, 0);
        r.append(inner.as_str());
        proof {
            assert(fields@.skip(0) =~= fields@);
        }
    } else {
        proof {
            assert(("["@ + fields_inner(fields@)) =~= "["@);
        }
    }
    r.append("]");
    r
}

/// The position an error's (first) block reports.
pub open spec fn error_pos(v: ErrorVariant) -> int {
    match v {
        ErrorVariant::AmbiguousBindParam { pos } => pos as int,
        ErrorVariant::InvalidI16Index { pos } => pos as int,
        ErrorVariant::DuplicateCol { pos } => pos as int,
        ErrorVariant::MoreBindParamsThanParams { pos, .. } => pos as int,
        ErrorVariant::UnusedParam { pos, .. } => pos as int,
        ErrorVariant::InvalidNullableColumnName { nullable_col } => nullable_col.start as int,
        ErrorVariant::NamedStructInvalidFields { name, .. } => name.start as int,
        ErrorVariant::QueryNameAlreadyUsed { name1, .. } => name1.start as int,
        ErrorVariant::NamedStructInPgQuery { pos } => pos as int,
        ErrorVariant::UnknownNamedStruct { pos } => pos as int,
    }
}

/// The message lines of an error's (first) block.
pub open spec fn messages_spec(v: ErrorVariant) -> Seq<Seq<char>> {
    match v {
        ErrorVariant::AmbiguousBindParam { .. } => seq![
            "Cannot mix bind parameter syntaxes in the same query."@,
            "Please use either named (`:named_ident`) or indexed (`$n`) bind parameters, but not both."@,
        ],
        ErrorVariant::InvalidI16Index { .. } => seq!["Index must be between 1 and 32767."@],
        ErrorVariant::DuplicateCol { .. } => seq!["Column name is already used."@],
        ErrorVariant::MoreBindParamsThanParams { nb_params, .. } => seq![
            "Index is higher than the number of parameters supplied ("@ + dec_digits(
                nb_params as nat,
            ) + ")."@,
        ],
        ErrorVariant::UnusedParam { index, .. } => seq![
            "Parameter `$"@ + dec_digits(index as nat) + "` is never used in the query."@,
        ],
        ErrorVariant::InvalidNullableColumnName { nullable_col } => seq![
            "No column named `"@ + nullable_col.value.name@ + "` found for this query."@,
        ],
        ErrorVariant::NamedStructInvalidFields { expected, actual, name } => seq![
            "This query's named row struct `"@ + name.value@
                + "` has already been used, but the fields don't match."@,
            "Expected fields: "@ + fields_text(expected@),
            "Got fields: "@ + fields_text(actual@),
        ],
        ErrorVariant::QueryNameAlreadyUsed { name1, .. } => seq![
            "A query named `"@ + name1.value@ + "` already exists."@,
        ],
        ErrorVariant::NamedStructInPgQuery { .. } => seq![
            "Named query structs are not allowed when using the PostgreSQL-compatible syntax."@,
            "Use anonymous structs instead, or use the extended query syntax."@,
        ],
        ErrorVariant::UnknownNamedStruct { .. } => seq![
            "Unknown named struct. Named structs must be registered using type annotations."@,
        ],
    }
}

/// The diagnostic's header, naming the failing module.
pub open spec fn head_spec(info: ModuleInfo) -> Seq<char> {
    "Error while validating queries [path: \""@ + info.path@ + "\"]:\n"@
}

/// The whole rendered diagnostic of an error: the header, then one block
/// per reported position, blocks separated by a line break.
pub open spec fn render_spec(e: Error) -> Seq<char> {
    match e.err {
        ErrorVariant::QueryNameAlreadyUsed { name1, name2 } => head_spec(*e.info)
            + format_err_spec(e.info.content@, name1.start as int, messages_spec(e.err)) + "\n"@
            + format_err_spec(
            e.info.content@,
            name2.start as int,
            seq!["Query `"@ + name2.value@ + "` first defined here."@],
        ),
        _ => head_spec(*e.info) + format_err_spec(
            e.info.content@,
            error_pos(e.err),
            messages_spec(e.err),
        ),
    }
}

impl Error {
    /// The positions this error reports lie within its module's source.
    pub open spec fn renderable(self) -> bool {
        &&& self.info.content@.len() < usize::MAX
        &&& error_pos(self.err) <= self.info.content@.len()
        &&& (self.err matches ErrorVariant::QueryNameAlreadyUsed { name2, .. } ==> name2.start
            <= self.info.content@.len())
    }

    /// Renders this error as a source-anchored diagnostic.
    pub fn render(&self) -> (r: String)
        requires
            self.renderable(),
        ensures
            r@ == render_spec(*self),
    {
        let mut out = "Error while validating queries [path: \"".to_owned();
        out.append(self.info.path.as_str());
        out.append("\"]:\n");
        match &self.err {
            ErrorVariant::AmbiguousBindParam { pos } => {
                let mut msgs: Vec<String> = Vec::new();
                msgs.push("Cannot mix bind parameter syntaxes in the same query.".to_owned());
                msgs.push(
                    "Please use either named (`:named_ident`) or indexed (`$n`) bind parameters, but not both.".to_owned(),
                );
                proof {
                    assert(views_of(msgs@) =~= messages_spec(self.err));
                }
                let block = format_err(&self.info, *pos, &msgs);
                out.append(block.as_str());
            },
            ErrorVariant::InvalidI16Index { pos } => {
                let mut msgs: Vec<String> = Vec::new();
                msgs.push("Index must be between 1 and 32767.".to_owned());
                proof {
                    assert(views_of(msgs@) =~= messages_spec(self.err));
                }
                let block = format_err(&self.info, *pos, &msgs);
                out.append(block.as_str());
            },
            ErrorVariant::DuplicateCol { pos } => {
                let mut msgs: Vec<String> = Vec::new();
                msgs.push("Column name is already used.".to_owned());
                proof {
                    assert(views_of(msgs@) =~= messages_spec(self.err));
                }
                let block = format_err(&self.info, *pos, &msgs);
                out.append(block.as_str());
            },
            ErrorVariant::MoreBindParamsThanParams { nb_params, pos } => {
                let mut m = "Index is higher than the number of parameters supplied (".to_owned();
                m.append(usize_to_string(*nb_params).as_str());
                m.append(").");
                let mut msgs: Vec<String> = Vec::new();
                msgs.push(m);
                proof {
                    assert(views_of(msgs@) =~= messages_spec(self.err));
                }
                let block = format_err(&self.info, *pos, &msgs);
                out.append(block.as_str());
            },
            ErrorVariant::UnusedParam { index, pos } => {
                let mut m = "Parameter `$".to_owned();
                m.append(usize_to_string(*index).as_str());
                m.append("` is never used in the query.");
                let mut msgs: Vec<String> = Vec::new();
                msgs.push(m);
                proof {
                    assert(views_of(msgs@) =~= messages_spec(self.err));
                }
                let block = format_err(&self.info, *pos, &msgs);
                out.append(block.as_str());
            },
            ErrorVariant::InvalidNullableColumnName { nullable_col } => {
                let mut m = "No column named `".to_owned();
                m.append(nullable_col.value.name.as_str());
                m.append("` found for this query.");
                let mut msgs: Vec<String> = Vec::new();
                msgs.push(m);
                proof {
                    assert(views_of(msgs@) =~= messages_spec(self.err));
                }
                let block = format_err(&self.info, nullable_col.start, &msgs);
                out.append(block.as_str());
            },
            ErrorVariant::NamedStructInvalidFields { expected, actual, name } => {
                let mut m1 = "This query's named row struct `".to_owned();
                m1.append(name.value.as_str());
                m1.append("` has already been used, but the fields don't match.");
                let mut m2 = "Expected fields: ".to_owned();
                m2.append(fields_text_exec(expected).as_str());
                let mut m3 = "Got fields: ".to_owned();
                m3.append(fields_text_exec(actual).as_str());
                let mut msgs: Vec<String> = Vec::new();
                msgs.push(m1);
                msgs.push(m2);
                msgs.push(m3);
                proof {
                    assert(views_of(msgs@) =~= messages_spec(self.err));
                }
                let block = format_err(&self.info, name.start, &msgs);
                out.append(block.as_str());
            },
            ErrorVariant::QueryNameAlreadyUsed { name1, name2 } => {
                let mut m1 = "A query named `".to_owned();
                m1.append(name1.value.as_str());
                m1.append("` already exists.");
                let mut msgs1: Vec<String> = Vec::new();
                msgs1.push(m1);
                proof {
                    assert(views_of(msgs1@) =~= messages_spec(self.err));
                }
                let block1 = format_err(&self.info, name1.start, &msgs1);
                out.append(block1.as_str());
                out.append("\n");
                let mut m2 = "Query `".to_owned();
                m2.append(name2.value.as_str());
                m2.append("` first defined here.");
                let mut msgs2: Vec<String> = Vec::new();
                msgs2.push(m2);
                proof {
                    assert(views_of(msgs2@) =~= seq![
                        "Query `"@ + name2.value@ + "` first defined here."@,
                    ]);
                }
                let block2 = format_err(&self.info, name2.start, &msgs2);
                out.append(block2.as_str());
            },
            ErrorVariant::NamedStructInPgQuery { pos } => {
                let mut msgs: Vec<String> = Vec::new();
                msgs.push(
                    "Named query structs are not allowed when using the PostgreSQL-compatible syntax.".to_owned(),
                );
                msgs.push("Use anonymous structs instead, or use the extended query syntax.".to_owned());
                proof {
                    assert(views_of(msgs@) =~= messages_spec(self.err));
                }
                let block = format_err(&self.info, *pos, &msgs);
                out.append(block.as_str());
            },
            ErrorVariant::UnknownNamedStruct { pos } => {
                let mut msgs: Vec<String> = Vec::new();
                msgs.push(
                    "Unknown named struct. Named structs must be registered using type annotations.".to_owned(),
                );
                proof {
                    assert(views_of(msgs@) =~= messages_spec(self.err));
                }
                let block = format_err(&self.info, *pos, &msgs);
                out.append(block.as_str());
            },
        }
        out
    }
}

} // verus!
