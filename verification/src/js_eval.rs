//! Evaluation of embedded expressions against the current bindings
//! object: literals evaluate to themselves, references walk fields, and a
//! missing field reads as the undefined value.

use vstd::prelude::*;
use crate::js_ast::Statement;
use crate::js_virt::{entries_view, field_index, get_field, lemma_entries_view, lemma_values_view, JsObject,
    values_view, JsArray, JsValue, JsValueV};
use crate::text::str_eq;

verus! {

/// Walk the remaining segments of a reference path.
pub open spec fn lookup_ref(data: JsValueV, path: Seq<String>, i: int) -> JsValueV
    decreases path.len() - i,
{
    if i < 0 || i >= path.len() {
        data
    } else {
        lookup_ref(get_field(data, path[i]@), path, i + 1)
    }
}

/// A lookup that has already fallen to the undefined value stays there.
pub proof fn lemma_lookup_undefined(path: Seq<String>, i: int)
    ensures
        lookup_ref(JsValueV::Undefined, path, i) == JsValueV::Undefined,
    decreases path.len() - i,
{
    if 0 <= i < path.len() {
        lemma_lookup_undefined(path, i + 1);
    }
}

/// What one statement evaluates to under `data`.
pub open spec fn eval_stmt(s: Statement, data: JsValueV) -> JsValueV
    decreases s, 0int, 0int,
{
    match s {
        Statement::Reference(r) => lookup_ref(data, r.path@, 0),
        Statement::BooleanLiteral(b) => JsValueV::Bool(b),
        Statement::NumberLiteral(n) => JsValueV::Num(n),
        Statement::StringLiteral(st) => JsValueV::Str(st@),
        Statement::ArrayLiteral(items) => JsValueV::Array(eval_stmts(items, 0, data)),
    }
}

/// What the statements from `i` on evaluate to, in order.
pub open spec fn eval_stmts(items: Vec<Statement>, i: int, data: JsValueV) -> Seq<JsValueV>
    decreases items, 1int, items@.len() - i,
{
    if i < 0 || i >= items@.len() {
        Seq::empty()
    } else {
        seq![eval_stmt(items@[i], data)] + eval_stmts(items, i + 1, data)
    }
}

/// The first field of `o` named `name`, borrowed.
fn find_field<'a>(o: &'a JsObject, name: &String) -> (r: Option<&'a JsValue>)
    ensures
        match field_index(entries_view(o.values@), name@, 0) {
            Some(ix) => r is Some && r->0@ == entries_view(o.values@)[ix].1,
            None => r is None,
        },
{
    let ghost fields = entries_view(o.values@);
    proof {
        lemma_entries_view(o.values@);
    }
    let mut k: usize = 0;
    while k < o.values.len()
        invariant
            0 <= k <= o.values@.len(),
            fields == entries_view(o.values@),
            fields.len() == o.values@.len(),
            forall|j: int|
                0 <= j < fields.len() ==> fields[j] == (o.values@[j].0@, value_view_of(
                    o.values@[j].1,
                )),
            field_index(fields, name@, 0) == field_index(fields, name@, k as int),
        decreases o.values@.len() - k,
    {
        if str_eq(o.values[k].0.as_str(), name.as_str()) {
            proof {
                assert(fields[k as int].0 == name@);
                assert(field_index(fields, name@, k as int) == Some(k as int));
            }
            return Some(&o.values[k].1);
        }
        k += 1;
    }
    None
}

/// Evaluate one statement against the current bindings.
#[verifier::loop_isolation(false)]
pub fn evaluate_js(statement: &Statement, data: &JsValue) -> (r: JsValue)
    ensures
        r@ == eval_stmt(*statement, data@),
    decreases statement, 0int, 0int,
{
    match statement {
        Statement::Reference(reference) => {
            let mut cur: &JsValue = data;
            let mut i: usize = 0;
            let path = &reference.path;
            while i < path.len()
                invariant
                    0 <= i <= path@.len(),
                    lookup_ref(data@, path@, 0) == lookup_ref(cur@, path@, i as int),
                decreases path@.len() - i,
            {
                let seg = &path[i];
                match cur {
                    JsValue::JsObject(o) => {
                        match find_field(o, seg) {
                            Some(v) => {
                                assert(v@ == get_field(cur@, seg@));
                                cur = v;
                            },
                            None => {
                                proof {
                                    assert(get_field(cur@, seg@) == JsValueV::Undefined);
                                    lemma_lookup_undefined(path@, i + 1);
                                }
                                return JsValue::JsUndefined;
                            },
                        }
                    },
                    _ => {
                        proof {
                            assert(get_field(cur@, seg@) == JsValueV::Undefined);
                            lemma_lookup_undefined(path@, i + 1);
                        }
                        return JsValue::JsUndefined;
                    },
                }
                i += 1;
            }
            cur.duplicate()
        },
        Statement::BooleanLiteral(b) => JsValue::JsBoolean(*b),
        Statement::NumberLiteral(n) => JsValue::JsNumber(*n),
        Statement::StringLiteral(st) => JsValue::JsString(st.clone()),
        Statement::ArrayLiteral(items) => {
            let mut out: Vec<JsValue> = Vec::new();
            proof {
                lemma_eval_stmts(*items, 0, data@);
            }
            let mut i: usize = 0;
            while i < items.len()
                invariant
                    0 <= i <= items@.len(),
                    out@.len() == i,
                    forall|j: int|
                        0 <= j < i ==> value_view_of(out@[j]) == eval_stmts(*items, 0, data@)[j],
                    eval_stmts(*items, 0, data@).len() == items@.len(),
                    forall|j: int|
                        0 <= j < items@.len() ==> eval_stmts(*items, 0, data@)[j] == eval_stmt(
                            items@[j],
                            data@,
                        ),
                decreases items@.len() - i,
            {
                let v = evaluate_js(&items[i], data);
                out.push(v);
                i += 1;
            }
            proof {
                lemma_values_view(out@);
                assert(values_view(out@) =~= eval_stmts(*items, 0, data@));
            }
            JsValue::JsArray(JsArray { values: out })
        },
    }
}

/// The view of a value, usable where the postfix form does not parse.
pub open spec fn value_view_of(v: JsValue) -> JsValueV {
    v@
}

/// `eval_stmts` maps `eval_stmt` over the statements, element by element.
pub broadcast proof fn lemma_eval_stmts(items: Vec<Statement>, i: int, data: JsValueV)
    ensures
        (#[trigger] eval_stmts(items, i, data)).len() == if i < 0 {
            0
        } else if items@.len() - i >= 0 {
            items@.len() - i
        } else {
            0
        },
        forall|j: int|
            0 <= i && i + j < items@.len() && 0 <= j ==> eval_stmts(items, i, data)[j]
                == eval_stmt(items@[i + j], data),
    decreases items@.len() - i,
{
    if 0 <= i < items@.len() {
        lemma_eval_stmts(items, i + 1, data);
    }
}

} // verus!
