//! Values of the embedded expression language: the bindings object a
//! document is evaluated against, and the values slots produce. A value
//! may itself carry an evaluated virtual node, which lets a component body
//! re-project the children handed to an instance.

use vstd::prelude::*;
use crate::text::{dec_str, str_eq, u64_to_string};
use crate::virt;
use crate::virt::{node_view, NodeV};

verus! {

/// An object value: named fields in insertion order, names unique.
pub struct JsObject {
    pub values: Vec<(String, JsValue)>,
}

/// An array value.
pub struct JsArray {
    pub values: Vec<JsValue>,
}

/// One value.
pub enum JsValue {
    JsObject(JsObject),
    JsArray(JsArray),
    JsString(String),
    JsNumber(i64),
    JsBoolean(bool),
    JsNode(virt::Node),
    JsUndefined,
}

/// Mathematical image of a value.
pub enum JsValueV {
    Object(Seq<(Seq<char>, JsValueV)>),
    Array(Seq<JsValueV>),
    Str(Seq<char>),
    Num(i64),
    Bool(bool),
    Node(NodeV),
    Undefined,
}

pub open spec fn value_view(v: JsValue) -> JsValueV
    decreases v,
{
    match v {
        JsValue::JsObject(o) => JsValueV::Object(entries_view(o.values@)),
        JsValue::JsArray(a) => JsValueV::Array(values_view(a.values@)),
        JsValue::JsString(s) => JsValueV::Str(s@),
        JsValue::JsNumber(n) => JsValueV::Num(n),
        JsValue::JsBoolean(b) => JsValueV::Bool(b),
        JsValue::JsNode(n) => JsValueV::Node(node_view(n)),
        JsValue::JsUndefined => JsValueV::Undefined,
    }
}

pub open spec fn entries_view(es: Seq<(String, JsValue)>) -> Seq<(Seq<char>, JsValueV)>
    decreases es,
{
    if es.len() == 0 {
        Seq::empty()
    } else {
        seq![(es[0].0@, value_view(es[0].1))] + entries_view(es.drop_first())
    }
}

pub open spec fn values_view(vs: Seq<JsValue>) -> Seq<JsValueV>
    decreases vs,
{
    if vs.len() == 0 {
        Seq::empty()
    } else {
        seq![value_view(vs[0])] + values_view(vs.drop_first())
    }
}

/// `entries_view` maps over the entries, element by element.
pub broadcast proof fn lemma_entries_view(es: Seq<(String, JsValue)>)
    ensures
        (#[trigger] entries_view(es)).len() == es.len(),
        forall|i: int|
            0 <= i < es.len() ==> entries_view(es)[i] == (es[i].0@, value_view(es[i].1)),
    decreases es.len(),
{
    if es.len() > 0 {
        lemma_entries_view(es.drop_first());
    }
}

/// `values_view` maps over the values, element by element.
pub broadcast proof fn lemma_values_view(vs: Seq<JsValue>)
    ensures
        (#[trigger] values_view(vs)).len() == vs.len(),
        forall|i: int| 0 <= i < vs.len() ==> values_view(vs)[i] == value_view(vs[i]),
    decreases vs.len(),
{
    if vs.len() > 0 {
        lemma_values_view(vs.drop_first());
    }
}

impl View for JsValue {
    type V = JsValueV;

    open spec fn view(&self) -> JsValueV {
        value_view(*self)
    }
}

impl View for JsObject {
    type V = Seq<(Seq<char>, JsValueV)>;

    open spec fn view(&self) -> Seq<(Seq<char>, JsValueV)> {
        entries_view(self.values@)
    }
}

impl View for JsArray {
    type V = Seq<JsValueV>;

    open spec fn view(&self) -> Seq<JsValueV> {
        values_view(self.values@)
    }
}

/// The first field of `fields` named `k`, as an index.
pub open spec fn field_index(fields: Seq<(Seq<char>, JsValueV)>, k: Seq<char>, i: int) -> Option<
    int,
>
    decreases fields.len() - i,
{
    if i < 0 || i >= fields.len() {
        None
    } else if fields[i].0 == k {
        Some(i)
    } else {
        field_index(fields, k, i + 1)
    }
}

/// Field lookup on an object value; anything else has no fields.
pub open spec fn get_field(v: JsValueV, k: Seq<char>) -> JsValueV {
    match v {
        JsValueV::Object(fields) => match field_index(fields, k, 0) {
            Some(i) => fields[i].1,
            None => JsValueV::Undefined,
        },
        _ => JsValueV::Undefined,
    }
}

/// Insertion into an object's fields: replace the first field of that
/// name, or append a new one.
pub open spec fn fields_insert(
    fields: Seq<(Seq<char>, JsValueV)>,
    k: Seq<char>,
    v: JsValueV,
) -> Seq<(Seq<char>, JsValueV)> {
    match field_index(fields, k, 0) {
        Some(i) => fields.update(i, (k, v)),
        None => fields.push((k, v)),
    }
}

impl JsObject {
    /// An object with no fields.
    pub fn new() -> (r: JsObject)
        ensures
            r@ == Seq::<(Seq<char>, JsValueV)>::empty(),
    {
        JsObject { values: Vec::new() }
    }

    /// Bind `name` to `value`, replacing an existing binding of that name.
    pub fn insert(&mut self, name: String, value: JsValue)
        ensures
            final(self)@ == fields_insert(old(self)@, name@, value@),
    {
        let ghost fields = self@;
        proof {
            lemma_entries_view(self.values@);
        }
        let mut i: usize = 0;
        while i < self.values.len()
            invariant
                0 <= i <= self.values@.len(),
                self.values@ == old(self).values@,
                fields == entries_view(self.values@),
                field_index(fields, name@, 0) == field_index(fields, name@, i as int),
                fields.len() == self.values@.len(),
                forall|j: int|
                    0 <= j < fields.len() ==> fields[j] == (self.values@[j].0@, value_view(
                        self.values@[j].1,
                    )),
            decreases self.values@.len() - i,
        {
            if str_eq(self.values[i].0.as_str(), name.as_str()) {
                proof {
                    assert(fields[i as int].0 == name@);
                    assert(field_index(fields, name@, i as int) == Some(i as int));
                }
                let ghost pre = self.values@;
                self.values.remove(i);
                self.values.insert(i, (name, value));
                proof {
                    assert(self.values@ =~= pre.update(i as int, self.values@[i as int]));
                    lemma_entries_view(self.values@);
                    lemma_entries_view(pre);
                    assert(entries_view(self.values@) =~= fields.update(
                        i as int,
                        (name@, value@),
                    ));
                }
                return;
            }
            i += 1;
        }
        proof {
            assert(field_index(fields, name@, self.values@.len() as int) is None);
        }
        let ghost pre = self.values@;
        self.values.push((name, value));
        proof {
            lemma_entries_view(self.values@);
            lemma_entries_view(pre);
            assert(entries_view(self.values@) =~= fields.push((name@, value@)));
        }
    }
}

impl JsArray {
    /// An array with no items.
    pub fn new() -> (r: JsArray)
        ensures
            r@ == Seq::<JsValueV>::empty(),
    {
        JsArray { values: Vec::new() }
    }
}

/// Truthiness: false, zero, the empty string and the undefined value are
/// false; every object, array and node is true.
pub open spec fn truthy_spec(v: JsValueV) -> bool {
    match v {
        JsValueV::Bool(b) => b,
        JsValueV::Num(n) => n != 0,
        JsValueV::Str(s) => s.len() > 0,
        JsValueV::Undefined => false,
        JsValueV::Object(_) => true,
        JsValueV::Array(_) => true,
        JsValueV::Node(_) => true,
    }
}

/// The decimal rendering of a signed number.
pub open spec fn num_text(n: int) -> Seq<char> {
    if n >= 0 {
        dec_str(n as nat)
    } else {
        seq!['-'] + dec_str((-n) as nat)
    }
}

/// How a value reads as text: strings read as themselves, numbers in
/// decimal, booleans and the undefined value by their names, arrays as
/// their items joined with commas, and objects and nodes by fixed tags.
pub open spec fn value_text(v: JsValueV) -> Seq<char>
    decreases v, 0int, 0int,
{
    match v {
        JsValueV::Str(s) => s,
        JsValueV::Num(n) => num_text(n as int),
        JsValueV::Bool(b) => if b {
            "true"@
        } else {
            "false"@
        },
        JsValueV::Undefined => "undefined"@,
        JsValueV::Array(items) => joined_text(items, 0),
        JsValueV::Object(_) => "[object Object]"@,
        JsValueV::Node(_) => "[object Node]"@,
    }
}

pub open spec fn joined_text(items: Seq<JsValueV>, i: int) -> Seq<char>
    decreases items, 1int, items.len() - i,
{
    if i < 0 || i >= items.len() {
        Seq::empty()
    } else if i == items.len() - 1 {
        value_text(items[i])
    } else {
        value_text(items[i]) + ","@ + joined_text(items, i + 1)
    }
}

impl JsValue {
    /// Whether the value counts as true in condition position.
    pub fn truthy(&self) -> (r: bool)
        ensures
            r == truthy_spec(self@),
    {
        match self {
            JsValue::JsBoolean(b) => *b,
            JsValue::JsNumber(n) => *n != 0,
            JsValue::JsString(s) => s.unicode_len() > 0,
            JsValue::JsUndefined => false,
            JsValue::JsObject(_) => true,
            JsValue::JsArray(_) => true,
            JsValue::JsNode(_) => true,
        }
    }

    /// Render the value as text.
    pub fn to_string(&self) -> (r: String)
        ensures
            r@ == value_text(self@),
        decreases self, 0int, 0int,
    {
        match self {
            JsValue::JsString(s) => s.clone(),
            JsValue::JsNumber(n) => i64_to_string(*n),
            JsValue::JsBoolean(b) => {
                if *b {
                    "true".to_owned()
                } else {
                    "false".to_owned()
                }
            },
            JsValue::JsUndefined => "undefined".to_owned(),
            JsValue::JsArray(a) => {
                let r = join_values(&a.values, 0);
                proof {
                    lemma_values_view(a.values@);
                }
                r
            },
            JsValue::JsObject(_) => "[object Object]".to_owned(),
            JsValue::JsNode(_) => "[object Node]".to_owned(),
        }
    }

    /// A copy whose view is the same.
    pub fn duplicate(&self) -> (r: JsValue)
        ensures
            r@ == self@,
        decreases self, 0int, 0int,
    {
        match self {
            JsValue::JsObject(o) => {
                let values = duplicate_entries(&o.values);
                JsValue::JsObject(JsObject { values })
            },
            JsValue::JsArray(a) => {
                let values = duplicate_values(&a.values);
                JsValue::JsArray(JsArray { values })
            },
            JsValue::JsString(s) => JsValue::JsString(s.clone()),
            JsValue::JsNumber(n) => JsValue::JsNumber(*n),
            JsValue::JsBoolean(b) => JsValue::JsBoolean(*b),
            JsValue::JsNode(n) => JsValue::JsNode(n.duplicate()),
            JsValue::JsUndefined => JsValue::JsUndefined,
        }
    }
}

/// The items of `vs` from `i` on, joined with commas.
fn join_values(vs: &Vec<JsValue>, i: usize) -> (r: String)
    requires
        0 <= i,
    ensures
        r@ == joined_text(values_view(vs@), i as int),
    decreases vs, 1int, vs@.len() - i,
{
    proof {
        lemma_values_view(vs@);
    }
    if i >= vs.len() {
        String::new()
    } else if i == vs.len() - 1 {
        vs[i].to_string()
    } else {
        let mut s = vs[i].to_string();
        s.append(",");
        let rest = join_values(vs, i + 1);
        s.append(rest.as_str());
        s
    }
}

/// Copies of an object's entries, views preserved.
fn duplicate_entries(es: &Vec<(String, JsValue)>) -> (r: Vec<(String, JsValue)>)
    ensures
        entries_view(r@) == entries_view(es@),
    decreases es, 1int, 0int,
{
    let mut out: Vec<(String, JsValue)> = Vec::new();
    let mut i: usize = 0;
    while i < es.len()
        invariant
            0 <= i <= es@.len(),
            out@.len() == i,
            forall|j: int|
                0 <= j < i ==> out@[j].0@ == es@[j].0@ && value_view(out@[j].1) == value_view(
                    es@[j].1,
                ),
        decreases es@.len() - i,
    {
        let (k, v) = &es[i];
        out.push((k.clone(), v.duplicate()));
        i += 1;
    }
    proof {
        lemma_entries_view(out@);
        lemma_entries_view(es@);
        assert(entries_view(out@) =~= entries_view(es@));
    }
    out
}

/// Copies of an array's items, views preserved.
fn duplicate_values(vs: &Vec<JsValue>) -> (r: Vec<JsValue>)
    ensures
        values_view(r@) == values_view(vs@),
    decreases vs, 1int, 0int,
{
    let mut out: Vec<JsValue> = Vec::new();
    let mut i: usize = 0;
    while i < vs.len()
        invariant
            0 <= i <= vs@.len(),
            out@.len() == i,
            forall|j: int| 0 <= j < i ==> value_view(out@[j]) == value_view(vs@[j]),
        decreases vs@.len() - i,
    {
        out.push(vs[i].duplicate());
        i += 1;
    }
    proof {
        lemma_values_view(out@);
        lemma_values_view(vs@);
        assert(values_view(out@) =~= values_view(vs@));
    }
    out
}

/// Render a signed number in decimal.
pub fn i64_to_string(n: i64) -> (r: String)
    ensures
        r@ == num_text(n as int),
{
    if n >= 0 {
        u64_to_string(n as u64)
    } else {
        let magnitude: u64 = if n == i64::MIN {
            9223372036854775808u64
        } else {
            (-n) as u64
        };
        assert(magnitude == -(n as int));
        let mut s = "-".to_owned();
        proof {
            reveal_strlit("-");
            assert(s@ =~= seq!['-']);
        }
        s.append(u64_to_string(magnitude).as_str());
        s
    }
}

} // verus!
