//! Parsed shape of the embedded expression language: the statements that
//! appear in slot, attribute and block-condition position, and how they
//! read back as source text.

use vstd::prelude::*;
use crate::js_virt::{i64_to_string, num_text};

verus! {

/// A dotted identifier path, `a.b.c`.
pub struct Reference {
    pub path: Vec<String>,
}

/// One embedded statement.
pub enum Statement {
    Reference(Reference),
    BooleanLiteral(bool),
    NumberLiteral(i64),
    StringLiteral(String),
    ArrayLiteral(Vec<Statement>),
}

/// A reference path read back as source text, segments joined with dots.
pub open spec fn path_text(path: Seq<String>, i: int) -> Seq<char>
    decreases path.len() - i,
{
    if i < 0 || i >= path.len() {
        Seq::empty()
    } else if i == path.len() - 1 {
        path[i]@
    } else {
        path[i]@ + "."@ + path_text(path, i + 1)
    }
}

/// A statement read back as source text.
pub open spec fn stmt_text(s: Statement) -> Seq<char>
    decreases s, 0int, 0int,
{
    match s {
        Statement::Reference(r) => path_text(r.path@, 0),
        Statement::BooleanLiteral(b) => if b {
            "true"@
        } else {
            "false"@
        },
        Statement::NumberLiteral(n) => num_text(n as int),
        Statement::StringLiteral(st) => "\""@ + st@ + "\""@,
        Statement::ArrayLiteral(items) => "["@ + stmts_text(items, 0) + "]"@,
    }
}

pub open spec fn stmts_text(items: Vec<Statement>, i: int) -> Seq<char>
    decreases items, 1int, items@.len() - i,
{
    if i < 0 || i >= items@.len() {
        Seq::empty()
    } else if i == items@.len() - 1 {
        stmt_text(items@[i])
    } else {
        stmt_text(items@[i]) + ","@ + stmts_text(items, i + 1)
    }
}

/// Render a statement back as source text.
pub fn render_statement(s: &Statement) -> (r: String)
    ensures
        r@ == stmt_text(*s),
    decreases s, 0int, 0int,
{
    match s {
        Statement::Reference(rf) => {
            let path = &rf.path;
            let mut out = String::new();
            let ghost full = path_text(path@, 0);
            proof {
                assert(out@ + path_text(path@, 0) =~= full);
            }
            let mut i: usize = 0;
            while i < path.len()
                invariant
                    0 <= i <= path@.len(),
                    out@ + path_text(path@, i as int) == full,
                    full == stmt_text(*s),
                decreases path@.len() - i,
            {
                let ghost pre = out@;
                out.append(path[i].as_str());
                if i + 1 < path.len() {
                    out.append(".");
                    proof {
                        assert(out@ + path_text(path@, i + 1) =~= pre + path_text(
                            path@,
                            i as int,
                        ));
                    }
                } else {
                    proof {
                        assert(path_text(path@, i + 1) =~= Seq::<char>::empty());
                        assert(out@ + path_text(path@, i + 1) =~= pre + path_text(
                            path@,
                            i as int,
                        ));
                    }
                }
                i += 1;
            }
            proof {
                assert(path_text(path@, path@.len() as int) =~= Seq::<char>::empty());
                assert(out@ =~= out@ + path_text(path@, path@.len() as int));
            }
            out
        },
        Statement::BooleanLiteral(b) => {
            if *b {
                "true".to_owned()
            } else {
                "false".to_owned()
            }
        },
        Statement::NumberLiteral(n) => i64_to_string(*n),
        Statement::StringLiteral(st) => {
            let mut out = "\"".to_owned();
            out.append(st.as_str());
            out.append("\"");
            out
        },
        Statement::ArrayLiteral(items) => {
            let mut out = "[".to_owned();
            let inner = render_statements(items, 0);
            out.append(inner.as_str());
            out.append("]");
            out
        },
    }
}

/// Render the statements from `i` on, joined with commas.
fn render_statements(items: &Vec<Statement>, i: usize) -> (r: String)
    ensures
        r@ == stmts_text(*items, i as int),
    decreases items, 1int, items@.len() - i,
{
    if i >= items.len() {
        String::new()
    } else if i == items.len() - 1 {
        render_statement(&items[i])
    } else {
        let mut out = render_statement(&items[i]);
        out.append(",");
        let rest = render_statements(items, i + 1);
        out.append(rest.as_str());
        out
    }
}

} // verus!
