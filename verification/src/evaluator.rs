//! The node evaluator: the recursive walk that turns one parsed node into
//! at most one virtual node, instantiating imported components, named
//! parts and `<self>`, expanding conditional and each blocks, and handing
//! every produced node a stable identifier.
//!
//! Each executable function is proved against a ghost interpreter
//! (`eval_node` and friends) that fixes the result exactly; re-evaluating
//! the same inputs therefore yields the same tree, identifiers included.
//! Cross-document instantiation carries a depth budget so that a cycle of
//! components fails with an error instead of recursing forever.

use vstd::prelude::*;
use crate::ast;
use crate::base::{err_v, is_relative_path, is_relative_path_spec, resolve, resolve_spec, ErrV,
    ErrorKind, Location, RuntimeError};
use crate::css_eval::eval_css;
use crate::css_virt::{CSSRuleV, CSSSheet};
use crate::graph::{find_dep, flatten_spec, lemma_dep_index_bounds, pairs_view, DependencyContent,
    DependencyGraph, target_of};
use crate::hash::{create_id_seed, get_document_style_scope, scope_of, seed_of};
use crate::js_ast::Statement;
use crate::js_eval::{eval_stmt, evaluate_js};
use crate::js_virt::{fields_insert, truthy_spec, value_text, JsArray, JsObject, JsValue, JsValueV};
use crate::text::{clone_string_vec, dec_str, str_eq, vec_contains_string};
use crate::virt;
use crate::virt::{attrs_view, lemma_nodes_view, nodes_view, opt_node_view, AttrV, NodeV};

verus! {

/// How many nested component instantiations one evaluation pass allows
/// before it fails instead of recursing forever.
pub const DEFAULT_INSTANCE_DEPTH: u32 = 64;

/// The per-pass evaluation state: which names resolve locally, the
/// current bindings, the identifier seed and counter, and the remaining
/// instantiation budget.
pub struct Context {
    pub uri: String,
    pub import_ids: Vec<String>,
    pub part_ids: Vec<String>,
    pub scope: String,
    pub data: JsValue,
    pub in_part: bool,
    pub id_seed: String,
    pub from_main: bool,
    pub id_count: u64,
    pub depth: u32,
}

/// Mathematical image of a context.
#[verifier::ext_equal]
pub struct CtxV {
    pub uri: Seq<char>,
    pub import_ids: Seq<Seq<char>>,
    pub part_ids: Seq<Seq<char>>,
    pub scope: Seq<char>,
    pub data: JsValueV,
    pub in_part: bool,
    pub id_seed: Seq<char>,
    pub from_main: bool,
    pub id_count: int,
    pub depth: int,
}

impl View for Context {
    type V = CtxV;

    open spec fn view(&self) -> CtxV {
        CtxV {
            uri: self.uri@,
            import_ids: ast::str_views(self.import_ids@),
            part_ids: ast::str_views(self.part_ids@),
            scope: self.scope@,
            data: self.data@,
            in_part: self.in_part,
            id_seed: self.id_seed@,
            from_main: self.from_main,
            id_count: self.id_count as int,
            depth: self.depth as int,
        }
    }
}

/// The counter after one more identifier; it stays put at its ceiling,
/// which no tree in memory can reach.
pub open spec fn inc_count(c: int) -> int {
    if c < u64::MAX as int {
        c + 1
    } else {
        c
    }
}

/// The identifier handed out when the counter has just reached `n`.
pub open spec fn fresh_id(seed: Seq<char>, n: int) -> Seq<char> {
    seed + "-"@ + dec_str(n as nat)
}

/// The same context with another counter value.
pub open spec fn with_count(c: CtxV, n: int) -> CtxV {
    CtxV { id_count: n, ..c }
}

pub open spec fn parent_count(parent: Option<CtxV>) -> int {
    match parent {
        Some(p) => p.id_count,
        None => 0,
    }
}

/// A fresh context for a document: a top-level one gets the full depth
/// budget and counts as the main document; a nested one inherits its
/// parent's `from_main`, derives its seed from the parent's counter, and
/// gives up one unit of depth.
pub open spec fn create_ctx(
    node: ast::Node,
    uri: Seq<char>,
    data: JsValueV,
    parent: Option<CtxV>,
) -> CtxV {
    CtxV {
        uri,
        import_ids: ast::import_ids_of(node),
        part_ids: ast::part_ids_of(node),
        scope: scope_of(uri),
        data,
        in_part: false,
        id_seed: seed_of(uri, parent_count(parent) as nat),
        from_main: match parent {
            Some(p) => p.from_main,
            None => true,
        },
        id_count: 0,
        depth: match parent {
            Some(p) => p.depth - 1,
            None => DEFAULT_INSTANCE_DEPTH as int,
        },
    }
}

// Error constructors of the evaluator, one per failure the walk can hit.
pub open spec fn self_loop_err(uri: Seq<char>, loc: Location) -> ErrV {
    err_v(
        ErrorKind::Semantic,
        uri,
        "Can't call <self /> here since this causes an infinite loop!"@,
        Some(loc),
    )
}

pub open spec fn depth_err(uri: Seq<char>, loc: Location) -> ErrV {
    err_v(ErrorKind::Semantic, uri, "Reached the maximum component instance depth!"@, Some(loc))
}

pub open spec fn not_loaded_err(uri: Seq<char>) -> ErrV {
    err_v(ErrorKind::Resolution, uri, "Dependency not found!"@, None)
}

pub open spec fn not_document_err(uri: Seq<char>) -> ErrV {
    err_v(ErrorKind::Resolution, uri, "Dependency is not a document!"@, None)
}

pub open spec fn part_missing_err(uri: Seq<char>, loc: Location) -> ErrV {
    err_v(ErrorKind::Resolution, uri, "Part not found!"@, Some(loc))
}

pub open spec fn shorthand_err(uri: Seq<char>) -> ErrV {
    err_v(ErrorKind::Semantic, uri, "Unexpected Expression"@, None)
}

pub open spec fn opt_seq(o: Option<NodeV>) -> Seq<NodeV> {
    match o {
        Some(n) => seq![n],
        None => Seq::empty(),
    }
}

/// The value an attribute value expression takes.
pub open spec fn eval_attr_value(value: ast::AttributeValue, data: JsValueV) -> JsValueV {
    match value {
        ast::AttributeValue::Str(st) => JsValueV::Str(st.value@),
        ast::AttributeValue::Slot(stmt) => eval_stmt(stmt, data),
    }
}

/// A saturating index for the key binding of an each-loop.
pub open spec fn idx_num(i: int) -> i64 {
    if i > i64::MAX as int {
        i64::MAX
    } else if i < 0 {
        0
    } else {
        i as i64
    }
}

/// The bindings one iteration of an each-loop sees: the loop variable
/// bound to the item and, when a key name is declared, the key bound to
/// the index. Bindings only land on an object; any other source of
/// bindings passes through unchanged.
pub open spec fn each_child_data(
    data: JsValueV,
    value_name: Seq<char>,
    item: JsValueV,
    key_name: Option<String>,
    idx: int,
) -> JsValueV {
    match data {
        JsValueV::Object(fields) => {
            let f1 = fields_insert(fields, value_name, item);
            let f2 = match key_name {
                Some(k) => fields_insert(f1, k@, JsValueV::Num(idx_num(idx))),
                None => f1,
            };
            JsValueV::Object(f2)
        },
        _ => data,
    }
}

// ---------------------------------------------------------------------
// The ghost interpreter. Every function returns the produced value and
// the counter the context holds afterwards; the context after a call is
// always `with_count` of the context before it, which also models the
// save-and-restore of `in_part`.
// ---------------------------------------------------------------------

pub open spec fn eval_node(g: DependencyGraph, node: ast::Node, is_root: bool, c: CtxV) -> Result<
    (Option<NodeV>, int),
    ErrV,
>
    decreases c.depth, node, 9int, 0int,
{
    match node {
        ast::Node::Element(el) => eval_element(g, el, is_root, c),
        ast::Node::StyleElement(_) => Ok((None, c.id_count)),
        ast::Node::Text(t) => Ok(
            (
                Some(NodeV::Text { id: fresh_id(c.id_seed, inc_count(c.id_count)), value: t.value@ }),
                inc_count(c.id_count),
            ),
        ),
        ast::Node::Slot(stmt) => eval_slot(stmt, c),
        ast::Node::Fragment(f) => eval_children_as_fragment(g, f.children, c),
        ast::Node::Block(b) => eval_block(g, b, c),
        ast::Node::Comment(_) => Ok((None, c.id_count)),
    }
}

/// A slot: an array spreads into a fragment, a node value passes through
/// unchanged, anything else becomes text.
pub open spec fn eval_slot(stmt: Statement, c: CtxV) -> Result<(Option<NodeV>, int), ErrV> {
    let v = eval_stmt(stmt, c.data);
    match v {
        JsValueV::Array(items) => {
            let (ns, n) = slot_items(items, 0, c.id_seed, c.id_count);
            Ok((Some(NodeV::Fragment { children: ns }), n))
        },
        JsValueV::Node(n) => Ok((Some(n), c.id_count)),
        _ => Ok(
            (
                Some(NodeV::Text { id: fresh_id(c.id_seed, inc_count(c.id_count)), value: value_text(v) }),
                inc_count(c.id_count),
            ),
        ),
    }
}

pub open spec fn slot_items(items: Seq<JsValueV>, i: int, seed: Seq<char>, n: int) -> (
    Seq<NodeV>,
    int,
)
    decreases items.len() - i,
{
    if i < 0 || i >= items.len() {
        (Seq::empty(), n)
    } else {
        match items[i] {
            JsValueV::Node(nv) => {
                let (rest, n2) = slot_items(items, i + 1, seed, n);
                (seq![nv] + rest, n2)
            },
            v => {
                let n1 = inc_count(n);
                let (rest, n2) = slot_items(items, i + 1, seed, n1);
                (seq![NodeV::Text { id: fresh_id(seed, n1), value: value_text(v) }] + rest, n2)
            },
        }
    }
}

pub open spec fn eval_element(g: DependencyGraph, el: ast::Element, is_root: bool, c: CtxV) -> Result<
    (Option<NodeV>, int),
    ErrV,
>
    decreases c.depth, el, 8int, 0int,
{
    if el.tag_name@ == "import"@ {
        Ok((None, c.id_count))
    } else if el.tag_name@ == "part"@ {
        eval_part_element(g, el, is_root, c)
    } else if el.tag_name@ == "self"@ {
        eval_self_element(g, el, c)
    } else if el.tag_name@ == "preview"@ || el.tag_name@ == "script"@ || el.tag_name@
        == "property"@ || el.tag_name@ == "logic"@ {
        Ok((None, c.id_count))
    } else if c.import_ids.contains(el.tag_name@) {
        eval_imported_component(g, el, c)
    } else if c.part_ids.contains(el.tag_name@) {
        eval_part_instance_element(g, el, c)
    } else {
        eval_basic_element(g, el, c)
    }
}

/// A part declaration renders only as the document root; elsewhere it is
/// a definition, not output.
pub open spec fn eval_part_element(g: DependencyGraph, el: ast::Element, is_root: bool, c: CtxV) -> Result<
    (Option<NodeV>, int),
    ErrV,
>
    decreases c.depth, el, 7int, 0int,
{
    if !is_root {
        Ok((None, c.id_count))
    } else {
        eval_children_as_fragment(g, el.children, CtxV { in_part: true, ..c })
    }
}

/// `<self>` re-instantiates the current document; at the top level that
/// would loop forever and is refused.
pub open spec fn eval_self_element(g: DependencyGraph, el: ast::Element, c: CtxV) -> Result<
    (Option<NodeV>, int),
    ErrV,
>
    decreases c.depth, el, 7int, 1int,
{
    if c.from_main {
        Err(self_loop_err(c.uri, el.open_tag_location))
    } else {
        eval_component_instance(g, el, c.uri, c)
    }
}

pub open spec fn eval_imported_component(g: DependencyGraph, el: ast::Element, c: CtxV) -> Result<
    (Option<NodeV>, int),
    ErrV,
>
    decreases c.depth, el, 7int, 1int,
{
    match find_dep(g, c.uri) {
        None => Err(not_loaded_err(c.uri)),
        Some(self_dep) => match target_of(self_dep, el.tag_name@) {
            None => Err(not_loaded_err(c.uri)),
            Some(dep_uri) => eval_component_instance(g, el, dep_uri, c),
        },
    }
}

pub open spec fn eval_part_instance_element(g: DependencyGraph, el: ast::Element, c: CtxV) -> Result<
    (Option<NodeV>, int),
    ErrV,
>
    decreases c.depth, el, 7int, 1int,
{
    match find_dep(g, c.uri) {
        None => Err(not_loaded_err(c.uri)),
        Some(self_dep) => match self_dep.content {
            DependencyContent::Node(root) => match ast::part_of(el.tag_name@, root) {
                None => Err(part_missing_err(c.uri, el.open_tag_location)),
                Some(part_el) => match instance_data(g, el, c) {
                    Err(e) => Err(e),
                    Ok((data, n1)) => if c.depth <= 0 {
                        Err(depth_err(c.uri, el.open_tag_location))
                    } else {
                        let child = create_ctx(root, c.uri, data, Some(with_count(c, n1)));
                        match eval_element(g, part_el, true, child) {
                            Err(e) => Err(e),
                            Ok((opt, _)) => Ok((opt, n1)),
                        }
                    },
                },
            },
            DependencyContent::StyleSheet(_) => Err(not_document_err(c.uri)),
        },
    }
}

/// The bindings a component or part instance is evaluated under: one
/// field per instance attribute, plus `children` holding the instance's
/// own evaluated children as node values.
pub open spec fn instance_data(g: DependencyGraph, el: ast::Element, c: CtxV) -> Result<
    (JsValueV, int),
    ErrV,
>
    decreases c.depth, el, 6int, 0int,
{
    match data_fields(el.attributes, 0, Seq::empty(), c.data, c.uri) {
        Err(e) => Err(e),
        Ok(fields) => {
            match eval_children(g, el.children, 0, CtxV { in_part: false, ..c }) {
                Err(e) => Err(e),
                Ok((children, n1)) => {
                    let js_children = JsValueV::Array(
                        Seq::new(children.len(), |i: int| JsValueV::Node(children[i])),
                    );
                    Ok(
                        (
                            JsValueV::Object(fields_insert(fields, "children"@, js_children)),
                            n1,
                        ),
                    )
                },
            }
        },
    }
}

/// One field per instance attribute: a bare name binds true, a valued one
/// its value, a shorthand the referenced value under its derived name.
pub open spec fn data_fields(
    attrs: Vec<ast::Attribute>,
    i: int,
    acc: Seq<(Seq<char>, JsValueV)>,
    data: JsValueV,
    uri: Seq<char>,
) -> Result<Seq<(Seq<char>, JsValueV)>, ErrV>
    decreases attrs@.len() - i,
{
    if i < 0 || i >= attrs@.len() {
        Ok(acc)
    } else {
        match attrs@[i] {
            ast::Attribute::KeyValueAttribute(kv) => {
                let v = match kv.value {
                    None => JsValueV::Bool(true),
                    Some(av) => eval_attr_value(av, data),
                };
                data_fields(attrs, i + 1, fields_insert(acc, kv.name@, v), data, uri)
            },
            ast::Attribute::ShorthandAttribute(sh) => match ast::shorthand_name(sh.reference) {
                None => Err(shorthand_err(uri)),
                Some(name) => data_fields(
                    attrs,
                    i + 1,
                    fields_insert(acc, name, eval_stmt(sh.reference, data)),
                    data,
                    uri,
                ),
            },
        }
    }
}

pub open spec fn eval_component_instance(
    g: DependencyGraph,
    el: ast::Element,
    dep_uri: Seq<char>,
    c: CtxV,
) -> Result<(Option<NodeV>, int), ErrV>
    decreases c.depth, el, 7int, 0int,
{
    match find_dep(g, dep_uri) {
        None => Err(not_loaded_err(c.uri)),
        Some(dep) => match instance_data(g, el, c) {
            Err(e) => Err(e),
            Ok((data, n1)) => match dep.content {
                DependencyContent::Node(target) => if c.depth <= 0 {
                    Err(depth_err(c.uri, el.open_tag_location))
                } else {
                    let parent = CtxV { from_main: false, ..with_count(c, n1) };
                    let child = create_ctx(target, dep_uri, data, Some(parent));
                    match eval_node(g, target, true, child) {
                        Err(e) => Err(e),
                        Ok((opt, _)) => Ok((opt, n1)),
                    }
                },
                DependencyContent::StyleSheet(_) => Err(not_document_err(c.uri)),
            },
        },
    }
}

/// A plain element: attributes, the synthetic scope marker, children.
pub open spec fn eval_basic_element(g: DependencyGraph, el: ast::Element, c: CtxV) -> Result<
    (Option<NodeV>, int),
    ErrV,
>
    decreases c.depth, el, 7int, 0int,
{
    match eval_attrs(el.attributes, 0, c) {
        Err(e) => Err(e),
        Ok((attrs, n1)) => {
            let n2 = inc_count(n1);
            let scope_attr = AttrV {
                id: fresh_id(c.id_seed, n2),
                name: "data-pc-"@ + c.scope,
                value: None,
            };
            match eval_children(g, el.children, 0, with_count(c, n2)) {
                Err(e) => Err(e),
                Ok((children, n3)) => {
                    let n4 = inc_count(n3);
                    Ok(
                        (
                            Some(
                                NodeV::Element {
                                    id: fresh_id(c.id_seed, n4),
                                    source_uri: c.uri,
                                    source_location: el.location,
                                    tag_name: el.tag_name@,
                                    attributes: attrs.push(scope_attr),
                                    children,
                                },
                            ),
                            n4,
                        ),
                    )
                },
            }
        },
    }
}

/// The virtual attributes of a plain element. A `src` holding a relative
/// path is rewritten against the document uri, and dropped when it is not
/// relative; a shorthand whose value is undefined is dropped.
pub open spec fn eval_attrs(attrs: Vec<ast::Attribute>, i: int, c: CtxV) -> Result<
    (Seq<AttrV>, int),
    ErrV,
>
    decreases attrs@.len() - i,
{
    if i < 0 || i >= attrs@.len() {
        Ok((Seq::empty(), c.id_count))
    } else {
        match attrs@[i] {
            ast::Attribute::KeyValueAttribute(kv) => {
                let value_opt = match kv.value {
                    None => None,
                    Some(av) => Some(value_text(eval_attr_value(av, c.data))),
                };
                let rewritten = if kv.name@ == "src"@ {
                    match value_opt {
                        Some(v) => if is_relative_path_spec(v) {
                            Some(resolve_spec(c.uri, v))
                        } else {
                            None
                        },
                        None => None,
                    }
                } else {
                    value_opt
                };
                let n1 = inc_count(c.id_count);
                let attr = AttrV { id: fresh_id(c.id_seed, n1), name: kv.name@, value: rewritten };
                match eval_attrs(attrs, i + 1, with_count(c, n1)) {
                    Err(e) => Err(e),
                    Ok((rest, n2)) => Ok((seq![attr] + rest, n2)),
                }
            },
            ast::Attribute::ShorthandAttribute(sh) => match ast::shorthand_name(sh.reference) {
                None => Err(shorthand_err(c.uri)),
                Some(name) => {
                    let v = eval_stmt(sh.reference, c.data);
                    if v != JsValueV::Undefined {
                        let n1 = inc_count(c.id_count);
                        let attr = AttrV {
                            id: fresh_id(c.id_seed, n1),
                            name,
                            value: Some(value_text(v)),
                        };
                        match eval_attrs(attrs, i + 1, with_count(c, n1)) {
                            Err(e) => Err(e),
                            Ok((rest, n2)) => Ok((seq![attr] + rest, n2)),
                        }
                    } else {
                        eval_attrs(attrs, i + 1, c)
                    }
                },
            },
        }
    }
}

pub open spec fn eval_children(g: DependencyGraph, children: Vec<ast::Node>, i: int, c: CtxV) -> Result<
    (Seq<NodeV>, int),
    ErrV,
>
    decreases c.depth, children, 5int, children@.len() - i,
{
    if i < 0 || i >= children@.len() {
        Ok((Seq::empty(), c.id_count))
    } else {
        match eval_node(g, children@[i], false, c) {
            Err(e) => Err(e),
            Ok((opt, n1)) => match eval_children(g, children, i + 1, with_count(c, n1)) {
                Err(e) => Err(e),
                Ok((rest, n2)) => Ok((opt_seq(opt) + rest, n2)),
            },
        }
    }
}

/// Siblings collapse: exactly one surviving child is returned directly,
/// any other number is wrapped in a fragment.
pub open spec fn eval_children_as_fragment(
    g: DependencyGraph,
    children: Vec<ast::Node>,
    c: CtxV,
) -> Result<(Option<NodeV>, int), ErrV>
    decreases c.depth, children, 6int, 0int,
{
    match eval_children(g, children, 0, c) {
        Err(e) => Err(e),
        Ok((ns, n1)) => if ns.len() == 1 {
            Ok((Some(ns[0]), n1))
        } else {
            Ok((Some(NodeV::Fragment { children: ns }), n1))
        },
    }
}

pub open spec fn eval_block(g: DependencyGraph, b: ast::Block, c: CtxV) -> Result<
    (Option<NodeV>, int),
    ErrV,
>
    decreases c.depth, b, 8int, 0int,
{
    match b {
        ast::Block::Conditional(cb) => eval_conditional_block(g, cb, c),
        ast::Block::Each(eb) => eval_each_block(g, eb, c),
    }
}

pub open spec fn eval_conditional_block(g: DependencyGraph, cb: ast::ConditionalBlock, c: CtxV) -> Result<
    (Option<NodeV>, int),
    ErrV,
>
    decreases c.depth, cb, 8int, 0int,
{
    match cb {
        ast::ConditionalBlock::PassFailBlock(pf) => eval_pass_fail_block(g, pf, c),
        ast::ConditionalBlock::FinalBlock(fb) => match fb.body {
            Some(body) => eval_node(g, *body, false, c),
            None => Ok((None, c.id_count)),
        },
    }
}

/// A condition chain link: a true condition evaluates its body, a false
/// one falls through to the rest of the chain.
pub open spec fn eval_pass_fail_block(g: DependencyGraph, pf: ast::PassFailBlock, c: CtxV) -> Result<
    (Option<NodeV>, int),
    ErrV,
>
    decreases c.depth, pf, 7int, 0int,
{
    if truthy_spec(eval_stmt(pf.condition, c.data)) {
        match pf.body {
            Some(body) => eval_node(g, *body, false, c),
            None => match pf.fail {
                Some(f) => eval_conditional_block(g, *f, c),
                None => Ok((None, c.id_count)),
            },
        }
    } else {
        match pf.fail {
            Some(f) => eval_conditional_block(g, *f, c),
            None => Ok((None, c.id_count)),
        }
    }
}

/// An each block over an array evaluates its body once per item, each
/// iteration under its own identifier subtree; over anything else it
/// evaluates to an empty fragment, a deliberate permissive policy.
pub open spec fn eval_each_block(g: DependencyGraph, eb: ast::EachBlock, c: CtxV) -> Result<
    (Option<NodeV>, int),
    ErrV,
>
    decreases c.depth, eb, 8int, 0int,
{
    match eb.body {
        None => Ok((None, c.id_count)),
        Some(_) => {
            let source = eval_stmt(eb.source, c.data);
            match source {
                JsValueV::Array(items) => match eval_each_items(g, eb, items, 0, c) {
                    Err(e) => Err(e),
                    Ok((children, n1)) => Ok((Some(NodeV::Fragment { children }), n1)),
                },
                _ => Ok((Some(NodeV::Fragment { children: Seq::empty() }), c.id_count)),
            }
        },
    }
}

pub open spec fn eval_each_items(
    g: DependencyGraph,
    eb: ast::EachBlock,
    items: Seq<JsValueV>,
    idx: int,
    c: CtxV,
) -> Result<(Seq<NodeV>, int), ErrV>
    decreases c.depth, eb, 7int, items.len() - idx,
{
    if idx < 0 || idx >= items.len() || !(eb.body is Some) {
        Ok((Seq::empty(), c.id_count))
    } else {
        let data2 = each_child_data(c.data, eb.value_name@, items[idx], eb.key_name, idx);
        let n1 = inc_count(c.id_count);
        let child = CtxV { data: data2, id_count: 0, id_seed: seed_of(c.uri, n1 as nat), ..c };
        match eval_node(g, *eb.body->0, false, child) {
            Err(e) => Err(e),
            Ok((opt, _)) => match eval_each_items(g, eb, items, idx + 1, with_count(c, n1)) {
                Err(e) => Err(e),
                Ok((rest, n2)) => Ok((opt_seq(opt) + rest, n2)),
            },
        }
    }
}

// ---------------------------------------------------------------------
// Style aggregation and whole-document evaluation, as ghost functions.
// ---------------------------------------------------------------------

/// The scoped rules of the style elements among a document root's
/// children, in source order.
pub open spec fn doc_styles_from(cs: Seq<ast::Node>, i: int, scope: Seq<char>) -> Seq<CSSRuleV>
    decreases cs.len() - i,
{
    if i < 0 || i >= cs.len() {
        Seq::empty()
    } else {
        match cs[i] {
            ast::Node::StyleElement(se) => eval_css(se.sheet, scope) + doc_styles_from(
                cs,
                i + 1,
                scope,
            ),
            _ => doc_styles_from(cs, i + 1, scope),
        }
    }
}

pub open spec fn doc_styles(node: ast::Node, uri: Seq<char>) -> Seq<CSSRuleV> {
    match ast::children_of(node) {
        Some(cs) => doc_styles_from(cs, 0, scope_of(uri)),
        None => Seq::empty(),
    }
}

/// The rules every reached dependency contributes, in flatten order. The
/// evaluated document itself is skipped here; its own rules come last. A
/// stylesheet reached through an importer is scoped to that importer.
pub open spec fn jumbo_from(
    g: DependencyGraph,
    pairs: Seq<(Seq<char>, Option<Seq<char>>)>,
    i: int,
    uri: Seq<char>,
) -> Seq<CSSRuleV>
    decreases pairs.len() - i,
{
    if i < 0 || i >= pairs.len() {
        Seq::empty()
    } else {
        let rest = jumbo_from(g, pairs, i + 1, uri);
        let (dep_uri, dependent) = pairs[i];
        if dep_uri == uri {
            rest
        } else {
            match find_dep(g, dep_uri) {
                None => rest,
                Some(dep) => match dep.content {
                    DependencyContent::Node(n) => doc_styles(n, dep_uri) + rest,
                    DependencyContent::StyleSheet(sheet) => {
                        let scope = match dependent {
                            Some(d) => scope_of(d),
                            None => scope_of(dep_uri),
                        };
                        eval_css(sheet, scope) + rest
                    },
                },
            }
        }
    }
}

/// The whole aggregated sheet of a document: every reached dependency's
/// rules in flatten order, the document's own rules last, so that on the
/// cascade the document's own rules win.
pub open spec fn jumbo_rules(g: DependencyGraph, entry: ast::Node, uri: Seq<char>) -> Seq<
    CSSRuleV,
> {
    jumbo_from(g, flatten_spec(g, uri), 0, uri) + doc_styles(entry, uri)
}

/// One whole evaluation pass: evaluate the document under a fresh
/// top-level context, then put the aggregated style first under the root.
pub open spec fn eval_document(
    g: DependencyGraph,
    node: ast::Node,
    uri: Seq<char>,
    data: JsValueV,
) -> Result<Option<NodeV>, ErrV> {
    let c = create_ctx(node, uri, data, None);
    match eval_node(g, node, true, c) {
        Err(e) => Err(e),
        Ok((None, _)) => Ok(None),
        Ok((Some(root), n1)) => {
            let style = NodeV::StyleElement {
                id: fresh_id(c.id_seed, inc_count(n1)),
                sheet: jumbo_rules(g, node, uri),
            };
            Ok(Some(crate::virt::prepend_spec(root, style)))
        },
    }
}

impl Context {
    /// Advance the counter and hand out the next identifier under this
    /// context's seed.
    pub fn get_next_id(&mut self) -> (r: String)
        ensures
            final(self)@ == with_count(old(self)@, inc_count(old(self)@.id_count)),
            r@ == fresh_id(old(self)@.id_seed, inc_count(old(self)@.id_count)),
    {
        if self.id_count < u64::MAX {
            self.id_count = self.id_count + 1;
        }
        let mut s = self.id_seed.clone();
        s.append("-");
        let digits = crate::text::u64_to_string(self.id_count);
        s.append(digits.as_str());
        s
    }
}

/// The instances a preview list renders: one per element, against the
/// current document.
pub open spec fn previews_from(g: DependencyGraph, previews: Vec<ast::Node>, i: int, c: CtxV) -> Result<
    (Seq<NodeV>, int),
    ErrV,
>
    decreases c.depth, previews, 8int, previews@.len() - i,
{
    if i < 0 || i >= previews@.len() {
        Ok((Seq::empty(), c.id_count))
    } else {
        match previews@[i] {
            ast::Node::Element(el) => match eval_component_instance(g, el, c.uri, c) {
                Err(e) => Err(e),
                Ok((opt, n1)) => match previews_from(g, previews, i + 1, with_count(c, n1)) {
                    Err(e) => Err(e),
                    Ok((rest, n2)) => Ok((opt_seq(opt) + rest, n2)),
                },
            },
            _ => previews_from(g, previews, i + 1, c),
        }
    }
}

pub open spec fn previews_spec(g: DependencyGraph, previews: Vec<ast::Node>, c: CtxV) -> Result<
    (Option<NodeV>, int),
    ErrV,
> {
    match previews_from(g, previews, 0, c) {
        Err(e) => Err(e),
        Ok((ns, n)) => if ns.len() == 1 {
            Ok((Some(ns[0]), n))
        } else {
            Ok((Some(NodeV::Fragment { children: ns }), n))
        },
    }
}

// ---------------------------------------------------------------------
// The executable evaluator, each function proved equal to its ghost
// counterpart.
// ---------------------------------------------------------------------

/// What an exec result and context must be, given the ghost result.
pub open spec fn node_post(
    res: Result<(Option<NodeV>, int), ErrV>,
    r: Result<Option<virt::Node>, RuntimeError>,
    pre: CtxV,
    post: CtxV,
) -> bool {
    match res {
        Ok(p) => r is Ok && opt_node_view(r->Ok_0) == p.0 && post == with_count(pre, p.1),
        Err(e) => r is Err && r->Err_0@ == e,
    }
}

pub open spec fn children_post(
    res: Result<(Seq<NodeV>, int), ErrV>,
    r: Result<Vec<virt::Node>, RuntimeError>,
    pre: CtxV,
    post: CtxV,
) -> bool {
    match res {
        Ok(p) => r is Ok && nodes_view(r->Ok_0@) == p.0 && post == with_count(pre, p.1),
        Err(e) => r is Err && r->Err_0@ == e,
    }
}

/// Build a runtime error from borrowed parts.
fn err_exec(kind: ErrorKind, uri: &String, message: &str, location: Option<Location>) -> (r:
    RuntimeError)
    ensures
        r@ == err_v(kind, uri@, message@, location),
{
    RuntimeError { kind, uri: uri.clone(), message: message.to_owned(), location }
}

pub fn evaluate_node(
    node_expr: &ast::Node,
    is_root: bool,
    graph: &DependencyGraph,
    ctx: &mut Context,
) -> (r: Result<Option<virt::Node>, RuntimeError>)
    ensures
        node_post(eval_node(*graph, *node_expr, is_root, old(ctx)@), r, old(ctx)@, final(ctx)@),
    decreases ctx.depth, *node_expr, 9int, 0int,
{
    proof {
        assert(with_count(ctx@, ctx@.id_count) =~= ctx@);
    }
    match node_expr {
        ast::Node::Element(el) => evaluate_element(el, is_root, graph, ctx),
        ast::Node::StyleElement(el) => evaluate_style_element(el, ctx),
        ast::Node::Text(text) => {
            let id = ctx.get_next_id();
            Ok(Some(virt::Node::Text(virt::Text { id, value: text.value.clone() })))
        },
        ast::Node::Slot(slot) => evaluate_slot(slot, ctx),
        ast::Node::Fragment(el) => evaluate_fragment(el, graph, ctx),
        ast::Node::Block(block) => evaluate_block(block, graph, ctx),
        ast::Node::Comment(_el) => Ok(None),
    }
}

fn evaluate_style_element(_element: &ast::StyleElement, _context: &mut Context) -> (r: Result<
    Option<virt::Node>,
    RuntimeError,
>)
    ensures
        r is Ok && r->Ok_0 is None,
        *final(_context) == *old(_context),
{
    Ok(None)
}

fn evaluate_import_element(_element: &ast::Element, _context: &mut Context) -> (r: Result<
    Option<virt::Node>,
    RuntimeError,
>)
    ensures
        r is Ok && r->Ok_0 is None,
        *final(_context) == *old(_context),
{
    Ok(None)
}

fn evaluate_element(
    element: &ast::Element,
    is_root: bool,
    graph: &DependencyGraph,
    ctx: &mut Context,
) -> (r: Result<Option<virt::Node>, RuntimeError>)
    ensures
        node_post(eval_element(*graph, *element, is_root, old(ctx)@), r, old(ctx)@, final(ctx)@),
    decreases ctx.depth, *element, 8int, 0int,
{
    proof {
        assert(with_count(ctx@, ctx@.id_count) =~= ctx@);
        ast::lemma_str_views_contains(ctx.import_ids@, element.tag_name@);
        ast::lemma_str_views_contains(ctx.part_ids@, element.tag_name@);
    }
    let tag = element.tag_name.as_str();
    if str_eq(tag, "import") {
        evaluate_import_element(element, ctx)
    } else if str_eq(tag, "part") {
        evaluate_part_element(element, is_root, graph, ctx)
    } else if str_eq(tag, "self") {
        evaluate_self_element(element, graph, ctx)
    } else if str_eq(tag, "preview") {
        evaluate_preview_element(element, is_root, ctx)
    } else if str_eq(tag, "script") || str_eq(tag, "property") || str_eq(tag, "logic") {
        Ok(None)
    } else if vec_contains_string(&ctx.import_ids, &element.tag_name) {
        evaluate_imported_component(element, graph, ctx)
    } else if vec_contains_string(&ctx.part_ids, &element.tag_name) {
        evaluate_part_instance_element(element, graph, ctx)
    } else {
        evaluate_basic_element(element, graph, ctx)
    }
}

/// Previews are tooling-only: they render nothing in a document pass.
fn evaluate_preview_element(_element: &ast::Element, _is_root: bool, _context: &mut Context) -> (r:
    Result<Option<virt::Node>, RuntimeError>)
    ensures
        r is Ok && r->Ok_0 is None,
        *final(_context) == *old(_context),
{
    Ok(None)
}

fn evaluate_part_element(
    element: &ast::Element,
    is_root: bool,
    graph: &DependencyGraph,
    ctx: &mut Context,
) -> (r: Result<Option<virt::Node>, RuntimeError>)
    ensures
        node_post(eval_part_element(*graph, *element, is_root, old(ctx)@), r, old(ctx)@, final(ctx)@),
    decreases ctx.depth, *element, 7int, 2int,
{
    if !is_root {
        proof {
            assert(with_count(ctx@, ctx@.id_count) =~= ctx@);
        }
        return Ok(None);
    }
    let old_in_part = ctx.in_part;
    ctx.in_part = true;
    proof {
        assert(ctx@ =~= (CtxV { in_part: true, ..old(ctx)@ }));
    }
    let result = evaluate_children_as_fragment(&element.children, graph, ctx);
    ctx.in_part = old_in_part;
    proof {
        match eval_children_as_fragment(*graph, element.children, CtxV { in_part: true, ..old(ctx)@ }) {
            Ok(p) => {
                assert(ctx@ =~= with_count(old(ctx)@, p.1));
            },
            Err(_) => {},
        }
    }
    result
}

fn evaluate_self_element(element: &ast::Element, graph: &DependencyGraph, ctx: &mut Context) -> (r:
    Result<Option<virt::Node>, RuntimeError>)
    ensures
        node_post(eval_self_element(*graph, *element, old(ctx)@), r, old(ctx)@, final(ctx)@),
    decreases ctx.depth, *element, 7int, 2int,
{
    if ctx.from_main {
        return Err(
            err_exec(
                ErrorKind::Semantic,
                &ctx.uri,
                "Can't call <self /> here since this causes an infinite loop!",
                Some(element.open_tag_location),
            ),
        );
    }
    let uri = ctx.uri.clone();
    evaluate_component_instance(element, &uri, graph, ctx)
}

fn evaluate_imported_component(
    element: &ast::Element,
    graph: &DependencyGraph,
    ctx: &mut Context,
) -> (r: Result<Option<virt::Node>, RuntimeError>)
    ensures
        node_post(eval_imported_component(*graph, *element, old(ctx)@), r, old(ctx)@, final(ctx)@),
    decreases ctx.depth, *element, 7int, 2int,
{
    let self_dep = match graph.get_dependency(&ctx.uri) {
        Some(d) => d,
        None => {
            return Err(err_exec(ErrorKind::Resolution, &ctx.uri, "Dependency not found!", None));
        },
    };
    let dep_uri = match self_dep.get_dependency_uri(&element.tag_name) {
        Some(u) => u,
        None => {
            return Err(err_exec(ErrorKind::Resolution, &ctx.uri, "Dependency not found!", None));
        },
    };
    evaluate_component_instance(element, dep_uri, graph, ctx)
}

fn evaluate_part_instance_element(
    element: &ast::Element,
    graph: &DependencyGraph,
    ctx: &mut Context,
) -> (r: Result<Option<virt::Node>, RuntimeError>)
    ensures
        node_post(eval_part_instance_element(*graph, *element, old(ctx)@), r, old(ctx)@, final(ctx)@),
    decreases ctx.depth, *element, 7int, 2int,
{
    let ghost pre = ctx@;
    let self_dep = match graph.get_dependency(&ctx.uri) {
        Some(d) => d,
        None => {
            return Err(err_exec(ErrorKind::Resolution, &ctx.uri, "Dependency not found!", None));
        },
    };
    proof {
        lemma_dep_index_bounds(graph.dependencies@, pre.uri, 0);
        assert(self_dep.uri@ == pre.uri);
    }
    match &self_dep.content {
        DependencyContent::Node(root_node) => {
            let part = match ast::get_part_by_id(&element.tag_name, root_node) {
                Some(p) => p,
                None => {
                    return Err(
                        err_exec(
                            ErrorKind::Resolution,
                            &ctx.uri,
                            "Part not found!",
                            Some(element.open_tag_location),
                        ),
                    );
                },
            };
            let data = match create_component_instance_data(element, graph, ctx) {
                Ok(d) => d,
                Err(e) => {
                    return Err(e);
                },
            };
            if ctx.depth == 0 {
                return Err(
                    err_exec(
                        ErrorKind::Semantic,
                        &ctx.uri,
                        "Reached the maximum component instance depth!",
                        Some(element.open_tag_location),
                    ),
                );
            }
            let uri = ctx.uri.clone();
            let mut new_context = create_context(root_node, &uri, &data, Some(&*ctx));
            let result = evaluate_element(part, true, graph, &mut new_context);
            match result {
                Err(e) => Err(e),
                Ok(opt) => Ok(opt),
            }
        },
        DependencyContent::StyleSheet(_) => Err(
            err_exec(ErrorKind::Resolution, &ctx.uri, "Dependency is not a document!", None),
        ),
    }
}

#[verifier::loop_isolation(false)]
fn create_component_instance_data(
    instance_element: &ast::Element,
    graph: &DependencyGraph,
    ctx: &mut Context,
) -> (r: Result<JsValue, RuntimeError>)
    ensures
        ({
            let res = instance_data(*graph, *instance_element, old(ctx)@);
            match res {
                Ok(p) => r is Ok && r->Ok_0@ == p.0 && final(ctx)@ == with_count(old(ctx)@, p.1),
                Err(e) => r is Err && r->Err_0@ == e,
            }
        }),
    decreases ctx.depth, *instance_element, 7int, 0int,
{
    let ghost pre = ctx@;
    let old_in_part = ctx.in_part;
    ctx.in_part = false;
    let mut data = JsObject::new();
    let attrs = &instance_element.attributes;
    let mut k: usize = 0;
    while k < attrs.len()
        invariant
            0 <= k <= attrs@.len(),
            attrs@ == instance_element.attributes@,
            ctx@ == (CtxV { in_part: false, ..pre }),
            data_fields(*attrs, 0, Seq::empty(), pre.data, pre.uri) == data_fields(
                *attrs,
                k as int,
                data@,
                pre.data,
                pre.uri,
            ),
        decreases attrs@.len() - k,
    {
        match &attrs[k] {
            ast::Attribute::KeyValueAttribute(kv_attr) => {
                let value = match &kv_attr.value {
                    None => JsValue::JsBoolean(true),
                    Some(av) => evaluate_attribute_value(av, &ctx.data),
                };
                data.insert(kv_attr.name.clone(), value);
            },
            ast::Attribute::ShorthandAttribute(sh_attr) => {
                let name = match sh_attr.get_name() {
                    Ok(n) => n.clone(),
                    Err(_) => {
                        return Err(
                            err_exec(ErrorKind::Semantic, &ctx.uri, "Unexpected Expression", None),
                        );
                    },
                };
                let value = evaluate_attribute_slot(&sh_attr.reference, &ctx.data);
                data.insert(name, value);
            },
        }
        k += 1;
    }
    let children = match evaluate_children(&instance_element.children, graph, ctx) {
        Ok(c) => c,
        Err(e) => {
            return Err(e);
        },
    };
    let ghost children_views = nodes_view(children@);
    proof {
        lemma_nodes_view(children@);
    }
    let mut js_children = JsArray::new();
    let mut k: usize = 0;
    while k < children.len()
        invariant
            0 <= k <= children@.len(),
            children_views == nodes_view(children@),
            children_views.len() == children@.len(),
            forall|j: int|
                0 <= j < children@.len() ==> children_views[j] == crate::virt::node_view(
                    children@[j],
                ),
            js_children.values@.len() == k,
            forall|j: int|
                0 <= j < k ==> crate::js_eval::value_view_of(js_children.values@[j])
                    == JsValueV::Node(children_views[j]),
        decreases children@.len() - k,
    {
        let child = children[k].duplicate();
        js_children.values.push(JsValue::JsNode(child));
        k += 1;
    }
    let ghost gvals = js_children.values@;
    let arr = JsValue::JsArray(js_children);
    proof {
        crate::js_virt::lemma_values_view(gvals);
        let expected = Seq::new(children_views.len(), |i: int| JsValueV::Node(children_views[i]));
        assert(crate::js_virt::values_view(gvals) =~= expected);
    }
    data.insert("children".to_owned(), arr);
    ctx.in_part = old_in_part;
    let r = JsValue::JsObject(data);
    proof {
        match instance_data(*graph, *instance_element, pre) {
            Ok(p) => {
                assert(ctx@ =~= with_count(pre, p.1));
            },
            Err(_) => {},
        }
    }
    Ok(r)
}

fn evaluate_component_instance(
    instance_element: &ast::Element,
    dep_uri: &String,
    graph: &DependencyGraph,
    ctx: &mut Context,
) -> (r: Result<Option<virt::Node>, RuntimeError>)
    ensures
        node_post(
            eval_component_instance(*graph, *instance_element, dep_uri@, old(ctx)@),
            r,
            old(ctx)@,
            final(ctx)@,
        ),
    decreases ctx.depth, *instance_element, 7int, 1int,
{
    let ghost pre = ctx@;
    let dep = match graph.get_dependency(dep_uri) {
        Some(d) => d,
        None => {
            return Err(err_exec(ErrorKind::Resolution, &ctx.uri, "Dependency not found!", None));
        },
    };
    let data = match create_component_instance_data(instance_element, graph, ctx) {
        Ok(d) => d,
        Err(e) => {
            return Err(e);
        },
    };
    match &dep.content {
        DependencyContent::Node(node) => {
            if ctx.depth == 0 {
                return Err(
                    err_exec(
                        ErrorKind::Semantic,
                        &ctx.uri,
                        "Reached the maximum component instance depth!",
                        Some(instance_element.open_tag_location),
                    ),
                );
            }
            let saved_from_main = ctx.from_main;
            ctx.from_main = false;
            let mut instance_context = create_context(node, dep_uri, &data, Some(&*ctx));
            ctx.from_main = saved_from_main;
            proof {
                match instance_data(*graph, *instance_element, pre) {
                    Ok(p) => {
                        assert(ctx@ =~= with_count(pre, p.1));
                    },
                    Err(_) => {},
                }
            }
            let result = evaluate_instance_node(node, graph, &mut instance_context, None);
            match result {
                Err(e) => Err(e),
                Ok(opt) => Ok(opt),
            }
        },
        DependencyContent::StyleSheet(_) => Err(
            err_exec(ErrorKind::Resolution, &ctx.uri, "Dependency is not a document!", None),
        ),
    }
}

fn evaluate_basic_element(element: &ast::Element, graph: &DependencyGraph, ctx: &mut Context) -> (r:
    Result<Option<virt::Node>, RuntimeError>)
    ensures
        node_post(eval_basic_element(*graph, *element, old(ctx)@), r, old(ctx)@, final(ctx)@),
    decreases ctx.depth, *element, 7int, 0int,
{
    let ghost pre = ctx@;
    let mut attributes = match evaluate_attrs_from(&element.attributes, 0, ctx) {
        Ok(a) => a,
        Err(e) => {
            return Err(e);
        },
    };
    let id = ctx.get_next_id();
    let mut scope_name = "data-pc-".to_owned();
    scope_name.append(ctx.scope.as_str());
    let ghost pre_attrs = attributes@;
    attributes.push(virt::Attribute { id, name: scope_name, value: None });
    proof {
        assert(attrs_view(attributes@) =~= attrs_view(pre_attrs).push(
            attrs_view(attributes@).last(),
        ));
    }
    let children = match evaluate_children(&element.children, graph, ctx) {
        Ok(c) => c,
        Err(e) => {
            return Err(e);
        },
    };
    let id = ctx.get_next_id();
    let r = virt::Node::Element(
        virt::Element {
            id,
            source_uri: ctx.uri.clone(),
            source_location: element.location,
            tag_name: element.tag_name.clone(),
            attributes,
            children,
        },
    );
    Ok(Some(r))
}

/// The virtual attributes of a plain element, from `i` on.
fn evaluate_attrs_from(attrs: &Vec<ast::Attribute>, i: usize, ctx: &mut Context) -> (r: Result<
    Vec<virt::Attribute>,
    RuntimeError,
>)
    ensures
        ({
            let res = eval_attrs(*attrs, i as int, old(ctx)@);
            match res {
                Ok(p) => r is Ok && attrs_view(r->Ok_0@) == p.0 && final(ctx)@ == with_count(
                    old(ctx)@,
                    p.1,
                ),
                Err(e) => r is Err && r->Err_0@ == e,
            }
        }),
    decreases attrs@.len() - i,
{
    proof {
        assert(with_count(ctx@, ctx@.id_count) =~= ctx@);
    }
    if i >= attrs.len() {
        let empty: Vec<virt::Attribute> = Vec::new();
        proof {
            assert(attrs_view(empty@) =~= Seq::<AttrV>::empty());
        }
        return Ok(empty);
    }
    match &attrs[i] {
        ast::Attribute::KeyValueAttribute(kv_attr) => {
            let value_opt: Option<String> = match &kv_attr.value {
                None => None,
                Some(av) => Some(evaluate_attribute_value(av, &ctx.data).to_string()),
            };
            let rewritten: Option<String> = if str_eq(kv_attr.name.as_str(), "src") {
                match value_opt {
                    Some(v) => {
                        if is_relative_path(&v) {
                            Some(resolve(&ctx.uri, &v))
                        } else {
                            None
                        }
                    },
                    None => None,
                }
            } else {
                value_opt
            };
            let id = ctx.get_next_id();
            let attr = virt::Attribute { id, name: kv_attr.name.clone(), value: rewritten };
            let mut rest = match evaluate_attrs_from(attrs, i + 1, ctx) {
                Ok(v) => v,
                Err(e) => {
                    return Err(e);
                },
            };
            let ghost rest_views = attrs_view(rest@);
            let ghost attr_view_g = attr@;
            let mut out: Vec<virt::Attribute> = Vec::new();
            out.push(attr);
            out.append(&mut rest);
            proof {
                assert(attrs_view(out@) =~= seq![attr_view_g] + rest_views);
            }
            Ok(out)
        },
        ast::Attribute::ShorthandAttribute(sh_attr) => {
            let name = match sh_attr.get_name() {
                Ok(n) => n.clone(),
                Err(_) => {
                    return Err(
                        err_exec(ErrorKind::Semantic, &ctx.uri, "Unexpected Expression", None),
                    );
                },
            };
            let js_value = evaluate_attribute_slot(&sh_attr.reference, &ctx.data);
            match js_value {
                JsValue::JsUndefined => evaluate_attrs_from(attrs, i + 1, ctx),
                v => {
                    let id = ctx.get_next_id();
                    let attr = virt::Attribute { id, name, value: Some(v.to_string()) };
                    let mut rest = match evaluate_attrs_from(attrs, i + 1, ctx) {
                        Ok(vv) => vv,
                        Err(e) => {
                            return Err(e);
                        },
                    };
                    let ghost rest_views = attrs_view(rest@);
                    let ghost attr_view_g = attr@;
                    let mut out: Vec<virt::Attribute> = Vec::new();
                    out.push(attr);
                    out.append(&mut rest);
                    proof {
                        assert(attrs_view(out@) =~= seq![attr_view_g] + rest_views);
                    }
                    Ok(out)
                },
            }
        },
    }
}

#[verifier::loop_isolation(false)]
fn evaluate_slot(slot: &Statement, ctx: &mut Context) -> (r: Result<
    Option<virt::Node>,
    RuntimeError,
>)
    ensures
        node_post(eval_slot(*slot, old(ctx)@), r, old(ctx)@, final(ctx)@),
{
    let ghost pre = ctx@;
    proof {
        assert(with_count(pre, pre.id_count) =~= pre);
    }
    let js_value = evaluate_js(slot, &ctx.data);
    match js_value {
        JsValue::JsArray(ary) => {
            let ghost items = crate::js_virt::values_view(ary.values@);
            proof {
                crate::js_virt::lemma_values_view(ary.values@);
            }
            let mut children: Vec<virt::Node> = Vec::new();
            let mut k: usize = 0;
            while k < ary.values.len()
                invariant
                    0 <= k <= ary.values@.len(),
                    items == crate::js_virt::values_view(ary.values@),
                    items.len() == ary.values@.len(),
                    forall|j: int|
                        0 <= j < items.len() ==> items[j] == crate::js_eval::value_view_of(
                            ary.values@[j],
                        ),
                    ctx@ == with_count(pre, ctx@.id_count),
                    ({
                        let full = slot_items(items, 0, pre.id_seed, pre.id_count);
                        let rest = slot_items(items, k as int, pre.id_seed, ctx@.id_count);
                        nodes_view(children@) + rest.0 == full.0 && rest.1 == full.1
                    }),
                decreases ary.values@.len() - k,
            {
                let ghost pre_vec = children@;
                let ghost pre_children = nodes_view(children@);
                match &ary.values[k] {
                    JsValue::JsNode(child) => {
                        let c = child.duplicate();
                        let ghost gc = c@;
                        children.push(c);
                        proof {
                            lemma_nodes_view(children@);
                            lemma_nodes_view(pre_vec);
                            assert(nodes_view(children@) =~= pre_children.push(gc));
                        }
                    },
                    item => {
                        let id = ctx.get_next_id();
                        let value = item.to_string();
                        let t = virt::Node::Text(virt::Text { id, value });
                        let ghost gt = t@;
                        children.push(t);
                        proof {
                            lemma_nodes_view(children@);
                            lemma_nodes_view(pre_vec);
                            assert(nodes_view(children@) =~= pre_children.push(gt));
                        }
                    },
                }
                proof {
                    assert(ctx@ =~= with_count(pre, ctx@.id_count));
                }
                k += 1;
            }
            proof {
                let full = slot_items(items, 0, pre.id_seed, pre.id_count);
                assert(slot_items(items, items.len() as int, pre.id_seed, ctx@.id_count).0
                    =~= Seq::<NodeV>::empty());
                assert(nodes_view(children@) =~= nodes_view(children@) + slot_items(
                    items,
                    items.len() as int,
                    pre.id_seed,
                    ctx@.id_count,
                ).0);
            }
            Ok(Some(virt::Node::Fragment(virt::Fragment { children })))
        },
        JsValue::JsNode(node) => Ok(Some(node)),
        v => {
            let id = ctx.get_next_id();
            let value = v.to_string();
            Ok(Some(virt::Node::Text(virt::Text { id, value })))
        },
    }
}

fn evaluate_fragment(fragment: &ast::Fragment, graph: &DependencyGraph, ctx: &mut Context) -> (r:
    Result<Option<virt::Node>, RuntimeError>)
    ensures
        node_post(
            eval_children_as_fragment(*graph, fragment.children, old(ctx)@),
            r,
            old(ctx)@,
            final(ctx)@,
        ),
    decreases ctx.depth, *fragment, 8int, 0int,
{
    evaluate_children_as_fragment(&fragment.children, graph, ctx)
}

fn evaluate_children_as_fragment(
    children: &Vec<ast::Node>,
    graph: &DependencyGraph,
    ctx: &mut Context,
) -> (r: Result<Option<virt::Node>, RuntimeError>)
    ensures
        node_post(eval_children_as_fragment(*graph, *children, old(ctx)@), r, old(ctx)@, final(ctx)@),
    decreases ctx.depth, *children, 6int, 1int,
{
    let mut children_v = match evaluate_children(children, graph, ctx) {
        Ok(v) => v,
        Err(e) => {
            return Err(e);
        },
    };
    proof {
        lemma_nodes_view(children_v@);
    }
    if children_v.len() == 1 {
        match children_v.pop() {
            Some(only) => Ok(Some(only)),
            None => {
                proof {
                    assert(false);
                }
                Ok(None)
            },
        }
    } else {
        Ok(Some(virt::Node::Fragment(virt::Fragment { children: children_v })))
    }
}

fn evaluate_children(children_expr: &Vec<ast::Node>, graph: &DependencyGraph, ctx: &mut Context) -> (r:
    Result<Vec<virt::Node>, RuntimeError>)
    ensures
        children_post(eval_children(*graph, *children_expr, 0, old(ctx)@), r, old(ctx)@, final(ctx)@),
    decreases ctx.depth, *children_expr, 6int, 0int,
{
    evaluate_children_from(children_expr, 0, graph, ctx)
}

fn evaluate_children_from(
    children: &Vec<ast::Node>,
    i: usize,
    graph: &DependencyGraph,
    ctx: &mut Context,
) -> (r: Result<Vec<virt::Node>, RuntimeError>)
    ensures
        children_post(
            eval_children(*graph, *children, i as int, old(ctx)@),
            r,
            old(ctx)@,
            final(ctx)@,
        ),
    decreases ctx.depth, *children, 5int, children@.len() - i,
{
    proof {
        assert(with_count(ctx@, ctx@.id_count) =~= ctx@);
    }
    if i >= children.len() {
        let empty: Vec<virt::Node> = Vec::new();
        proof {
            lemma_nodes_view(empty@);
            assert(nodes_view(empty@) =~= Seq::<NodeV>::empty());
        }
        return Ok(empty);
    }
    let head = match evaluate_node(&children[i], false, graph, ctx) {
        Ok(o) => o,
        Err(e) => {
            return Err(e);
        },
    };
    let mut rest = match evaluate_children_from(children, i + 1, graph, ctx) {
        Ok(v) => v,
        Err(e) => {
            return Err(e);
        },
    };
    let ghost rest_views = nodes_view(rest@);
    proof {
        lemma_nodes_view(rest@);
    }
    match head {
        Some(n) => {
            let ghost nv = n@;
            let mut out: Vec<virt::Node> = Vec::new();
            out.push(n);
            out.append(&mut rest);
            proof {
                lemma_nodes_view(out@);
                assert(nodes_view(out@) =~= seq![nv] + rest_views);
            }
            Ok(out)
        },
        None => Ok(rest),
    }
}

fn evaluate_block(block: &ast::Block, graph: &DependencyGraph, ctx: &mut Context) -> (r: Result<
    Option<virt::Node>,
    RuntimeError,
>)
    ensures
        node_post(eval_block(*graph, *block, old(ctx)@), r, old(ctx)@, final(ctx)@),
    decreases ctx.depth, *block, 8int, 1int,
{
    match block {
        ast::Block::Conditional(conditional_block) => evaluate_conditional_block(
            conditional_block,
            graph,
            ctx,
        ),
        ast::Block::Each(each_block) => evaluate_each_block(each_block, graph, ctx),
    }
}

fn evaluate_conditional_block(
    block: &ast::ConditionalBlock,
    graph: &DependencyGraph,
    ctx: &mut Context,
) -> (r: Result<Option<virt::Node>, RuntimeError>)
    ensures
        node_post(eval_conditional_block(*graph, *block, old(ctx)@), r, old(ctx)@, final(ctx)@),
    decreases ctx.depth, *block, 8int, 0int,
{
    proof {
        assert(with_count(ctx@, ctx@.id_count) =~= ctx@);
    }
    match block {
        ast::ConditionalBlock::PassFailBlock(pass_fail) => evaluate_pass_fail_block(
            pass_fail,
            graph,
            ctx,
        ),
        ast::ConditionalBlock::FinalBlock(final_block) => match &final_block.body {
            Some(node) => evaluate_node(node, false, graph, ctx),
            None => Ok(None),
        },
    }
}

fn evaluate_pass_fail_block(
    block: &ast::PassFailBlock,
    graph: &DependencyGraph,
    ctx: &mut Context,
) -> (r: Result<Option<virt::Node>, RuntimeError>)
    ensures
        node_post(eval_pass_fail_block(*graph, *block, old(ctx)@), r, old(ctx)@, final(ctx)@),
    decreases ctx.depth, *block, 7int, 3int,
{
    proof {
        assert(with_count(ctx@, ctx@.id_count) =~= ctx@);
    }
    let condition = evaluate_js(&block.condition, &ctx.data);
    if condition.truthy() {
        match &block.body {
            Some(node) => evaluate_node(node, false, graph, ctx),
            None => match &block.fail {
                Some(fail) => evaluate_conditional_block(fail, graph, ctx),
                None => Ok(None),
            },
        }
    } else {
        match &block.fail {
            Some(fail) => evaluate_conditional_block(fail, graph, ctx),
            None => Ok(None),
        }
    }
}

#[verifier::loop_isolation(false)]
fn evaluate_each_block(block: &ast::EachBlock, graph: &DependencyGraph, ctx: &mut Context) -> (r:
    Result<Option<virt::Node>, RuntimeError>)
    ensures
        node_post(eval_each_block(*graph, *block, old(ctx)@), r, old(ctx)@, final(ctx)@),
    decreases ctx.depth, *block, 8int, 0int,
{
    let ghost pre = ctx@;
    proof {
        assert(with_count(pre, pre.id_count) =~= pre);
    }
    let body = match &block.body {
        None => {
            return Ok(None);
        },
        Some(b) => b,
    };
    let source = evaluate_js(&block.source, &ctx.data);
    match source {
        JsValue::JsArray(items) => {
            let ghost items_v = crate::js_virt::values_view(items.values@);
            proof {
                crate::js_virt::lemma_values_view(items.values@);
            }
            let mut children: Vec<virt::Node> = Vec::new();
            let mut index: usize = 0;
            while index < items.values.len()
                invariant
                    0 <= index <= items.values@.len(),
                    items_v == crate::js_virt::values_view(items.values@),
                    items_v.len() == items.values@.len(),
                    forall|j: int|
                        0 <= j < items_v.len() ==> items_v[j] == crate::js_eval::value_view_of(
                            items.values@[j],
                        ),
                    block.body is Some,
                    ctx@ == with_count(pre, ctx@.id_count),
                    ctx@.depth == pre.depth,
                    ({
                        let full = eval_each_items(*graph, *block, items_v, 0, pre);
                        let rest = eval_each_items(*graph, *block, items_v, index as int, ctx@);
                        match rest {
                            Ok(p) => full == Ok::<_, ErrV>((nodes_view(children@) + p.0, p.1)),
                            Err(e) => full == Err::<(Seq<NodeV>, int), _>(e),
                        }
                    }),
                decreases items.values@.len() - index,
            {
                let ghost pre_iter = ctx@;
                let ghost acc = nodes_view(children@);
                proof {
                    assert(*body == *block.body->0);
                }
                let child_option = match evaluate_each_block_child(
                    body,
                    &items.values[index],
                    index,
                    &block.value_name,
                    &block.key_name,
                    graph,
                    ctx,
                ) {
                    Ok(o) => o,
                    Err(e) => {
                        return Err(e);
                    },
                };
                let ghost gopt = opt_node_view(child_option);
                let ghost pre_vec = children@;
                match child_option {
                    Some(child) => {
                        let ghost gc = child@;
                        children.push(child);
                        proof {
                            lemma_nodes_view(children@);
                            lemma_nodes_view(pre_vec);
                            assert(nodes_view(children@) =~= acc.push(gc));
                        }
                    },
                    None => {},
                }
                proof {
                    assert(ctx@ =~= with_count(pre, ctx@.id_count));
                    match eval_each_items(*graph, *block, items_v, index as int + 1, ctx@) {
                        Ok(p2) => {
                            assert(nodes_view(children@) + p2.0 =~= acc + (opt_seq(gopt) + p2.0));
                        },
                        Err(_) => {},
                    }
                }
                index += 1;
            }
            proof {
                assert(eval_each_items(*graph, *block, items_v, items_v.len() as int, ctx@)
                    == Ok::<_, ErrV>((Seq::<NodeV>::empty(), ctx@.id_count)));
                assert(nodes_view(children@) + Seq::<NodeV>::empty() =~= nodes_view(children@));
            }
            Ok(Some(virt::Node::Fragment(virt::Fragment { children })))
        },
        _ => Ok(Some(virt::Node::Fragment(virt::Fragment { children: Vec::new() }))),
    }
}

fn evaluate_each_block_child(
    body: &ast::Node,
    item: &JsValue,
    index: usize,
    item_name: &String,
    key_name: &Option<String>,
    graph: &DependencyGraph,
    ctx: &mut Context,
) -> (r: Result<Option<virt::Node>, RuntimeError>)
    ensures
        ({
            let pre = old(ctx)@;
            let data2 = each_child_data(pre.data, item_name@, item@, *key_name, index as int);
            let n1 = inc_count(pre.id_count);
            let child = CtxV {
                data: data2,
                id_count: 0,
                id_seed: seed_of(pre.uri, n1 as nat),
                ..pre
            };
            match eval_node(*graph, *body, false, child) {
                Err(e) => r is Err && r->Err_0@ == e,
                Ok(p) => r is Ok && opt_node_view(r->Ok_0) == p.0 && final(ctx)@ == with_count(pre, n1),
            }
        }),
    decreases ctx.depth, *body, 9int, 1int,
{
    let ghost pre = ctx@;
    let mut data = ctx.data.duplicate();
    match &mut data {
        JsValue::JsObject(obj) => {
            obj.insert(item_name.clone(), item.duplicate());
            match key_name {
                Some(key) => {
                    let idx: i64 = if index as u64 > i64::MAX as u64 {
                        i64::MAX
                    } else {
                        index as i64
                    };
                    obj.insert(key.clone(), JsValue::JsNumber(idx));
                },
                None => {},
            }
        },
        _ => {},
    }
    proof {
        assert(data@ == each_child_data(pre.data, item_name@, item@, *key_name, index as int));
    }
    if ctx.id_count < u64::MAX {
        ctx.id_count = ctx.id_count + 1;
    }
    let mut child_context = Context {
        uri: ctx.uri.clone(),
        import_ids: clone_string_vec(&ctx.import_ids),
        part_ids: clone_string_vec(&ctx.part_ids),
        scope: ctx.scope.clone(),
        data,
        in_part: ctx.in_part,
        id_seed: create_id_seed(&ctx.uri, ctx.id_count),
        from_main: ctx.from_main,
        id_count: 0,
        depth: ctx.depth,
    };
    proof {
        assert(ctx@ =~= with_count(pre, inc_count(pre.id_count)));
        assert(child_context@ =~= (CtxV {
            data: each_child_data(pre.data, item_name@, item@, *key_name, index as int),
            id_count: 0,
            id_seed: seed_of(pre.uri, inc_count(pre.id_count) as nat),
            ..pre
        }));
    }
    evaluate_node(body, false, graph, &mut child_context)
}

fn evaluate_attribute_value(value: &ast::AttributeValue, data: &JsValue) -> (r: JsValue)
    ensures
        r@ == eval_attr_value(*value, data@),
{
    match value {
        ast::AttributeValue::Str(st) => JsValue::JsString(st.value.clone()),
        ast::AttributeValue::Slot(script) => evaluate_attribute_slot(script, data),
    }
}

fn evaluate_attribute_slot(script: &Statement, data: &JsValue) -> (r: JsValue)
    ensures
        r@ == eval_stmt(*script, data@),
{
    evaluate_js(script, data)
}

/// Evaluate the root of one document; the part name is accepted for
/// interface compatibility and ignored, as the runtime ignores it.
pub fn evaluate_instance_node(
    node_expr: &ast::Node,
    graph: &DependencyGraph,
    context: &mut Context,
    _part_option: Option<String>,
) -> (r: Result<Option<virt::Node>, RuntimeError>)
    ensures
        node_post(eval_node(*graph, *node_expr, true, old(context)@), r, old(context)@, final(context)@),
    decreases context.depth, *node_expr, 10int, 0int,
{
    evaluate_node(node_expr, true, graph, context)
}

/// The scoped rules declared by the document's own style elements.
pub fn evaluate_document_styles(node_expr: &ast::Node, uri: &String) -> (r: Result<
    CSSSheet,
    RuntimeError,
>)
    ensures
        r is Ok,
        r->Ok_0@ == doc_styles(*node_expr, uri@),
{
    let mut sheet = CSSSheet { rules: Vec::new() };
    let scope = get_document_style_scope(uri);
    let children_option = ast::get_children(node_expr);
    match children_option {
        Some(children) => {
            let ghost cs = children@;
            let mut i: usize = 0;
            proof {
                assert(sheet@ + doc_styles_from(cs, 0, scope_of(uri@)) =~= doc_styles_from(
                    cs,
                    0,
                    scope_of(uri@),
                ));
            }
            while i < children.len()
                invariant
                    0 <= i <= cs.len(),
                    children@ == cs,
                    scope@ == scope_of(uri@),
                    sheet@ + doc_styles_from(cs, i as int, scope_of(uri@)) == doc_styles_from(
                        cs,
                        0,
                        scope_of(uri@),
                    ),
                decreases cs.len() - i,
            {
                let ghost acc = sheet@;
                match &children[i] {
                    ast::Node::StyleElement(style_element) => {
                        let piece = match crate::css_eval::evaluate(
                            &style_element.sheet,
                            uri,
                            &scope,
                        ) {
                            Ok(p) => p,
                            Err(e) => {
                                return Err(e);
                            },
                        };
                        let ghost piece_v = piece@;
                        sheet.extend(piece);
                        proof {
                            assert(sheet@ + doc_styles_from(cs, i + 1, scope_of(uri@)) =~= acc
                                + doc_styles_from(cs, i as int, scope_of(uri@)));
                        }
                    },
                    _ => {},
                }
                i += 1;
            }
            proof {
                assert(doc_styles_from(cs, cs.len() as int, scope_of(uri@)) =~= Seq::<
                    CSSRuleV,
                >::empty());
                assert(sheet@ =~= sheet@ + doc_styles_from(cs, cs.len() as int, scope_of(uri@)));
            }
        },
        None => {
            proof {
                assert(sheet@ =~= Seq::<CSSRuleV>::empty());
            }
        },
    }
    Ok(sheet)
}

/// Aggregate every reachable stylesheet into one style element, the
/// document's own rules last.
pub fn evaluate_jumbo_style(
    entry_expr: &ast::Node,
    graph: &DependencyGraph,
    context: &mut Context,
) -> (r: Result<virt::Node, RuntimeError>)
    ensures
        r is Ok,
        r->Ok_0@ == (NodeV::StyleElement {
            id: fresh_id(old(context)@.id_seed, inc_count(old(context)@.id_count)),
            sheet: jumbo_rules(*graph, *entry_expr, old(context)@.uri),
        }),
        final(context)@ == with_count(old(context)@, inc_count(old(context)@.id_count)),
    decreases context.depth, *entry_expr, 11int, 0int,
{
    let ghost pre = context@;
    let mut sheet = CSSSheet { rules: Vec::new() };
    let uri = context.uri.clone();
    let deps = graph.flatten(&uri);
    let ghost pairs = pairs_view(deps@);
    proof {
        assert(sheet@ + jumbo_from(*graph, pairs, 0, pre.uri) =~= jumbo_from(
            *graph,
            pairs,
            0,
            pre.uri,
        ));
    }
    let mut i: usize = 0;
    while i < deps.len()
        invariant
            0 <= i <= deps@.len(),
            pairs == pairs_view(deps@),
            pairs.len() == deps@.len(),
            uri@ == pre.uri,
            sheet@ + jumbo_from(*graph, pairs, i as int, pre.uri) == jumbo_from(
                *graph,
                pairs,
                0,
                pre.uri,
            ),
        decreases deps@.len() - i,
    {
        let ghost acc = sheet@;
        let dep_uri = &deps[i].0;
        proof {
            assert(pairs[i as int].0 == dep_uri@);
        }
        if !str_eq(dep_uri.as_str(), uri.as_str()) {
            match graph.get_dependency(dep_uri) {
                None => {},
                Some(dependency) => {
                    proof {
                        lemma_dep_index_bounds(graph.dependencies@, dep_uri@, 0);
                        assert(dependency.uri@ == dep_uri@);
                    }
                    match &dependency.content {
                        DependencyContent::Node(node) => {
                            let dep_sheet = match evaluate_document_styles(node, &dependency.uri) {
                                Ok(s) => s,
                                Err(e) => {
                                    return Err(e);
                                },
                            };
                            sheet.extend(dep_sheet);
                            proof {
                                assert(sheet@ + jumbo_from(*graph, pairs, i + 1, pre.uri) =~= acc
                                    + jumbo_from(*graph, pairs, i as int, pre.uri));
                            }
                        },
                        DependencyContent::StyleSheet(dep_sheet_ast) => {
                            let scope = match &deps[i].1 {
                                Some(dependent) => get_document_style_scope(dependent),
                                None => get_document_style_scope(dep_uri),
                            };
                            proof {
                                match deps@[i as int].1 {
                                    Some(d) => {
                                        assert(pairs[i as int].1 == Some(d@));
                                    },
                                    None => {
                                        assert(pairs[i as int].1 is None);
                                    },
                                }
                            }
                            let dep_sheet = match crate::css_eval::evaluate(
                                dep_sheet_ast,
                                dep_uri,
                                &scope,
                            ) {
                                Ok(s) => s,
                                Err(e) => {
                                    return Err(e);
                                },
                            };
                            sheet.extend(dep_sheet);
                            proof {
                                assert(sheet@ + jumbo_from(*graph, pairs, i + 1, pre.uri) =~= acc
                                    + jumbo_from(*graph, pairs, i as int, pre.uri));
                            }
                        },
                    }
                },
            }
        }
        i += 1;
    }
    proof {
        assert(jumbo_from(*graph, pairs, pairs.len() as int, pre.uri) =~= Seq::<CSSRuleV>::empty());
        assert(sheet@ =~= sheet@ + jumbo_from(*graph, pairs, pairs.len() as int, pre.uri));
    }
    let own = match evaluate_document_styles(entry_expr, &uri) {
        Ok(s) => s,
        Err(e) => {
            return Err(e);
        },
    };
    sheet.extend(own);
    let id = context.get_next_id();
    Ok(virt::Node::StyleElement(virt::StyleElement { id, sheet }))
}

/// One whole evaluation pass over a document: evaluate the tree, then
/// put the aggregated style first under the root. The part name is
/// accepted for interface compatibility and ignored.
pub fn evaluate(
    node_expr: &ast::Node,
    uri: &String,
    graph: &DependencyGraph,
    data: &JsValue,
    part: Option<String>,
) -> (r: Result<Option<virt::Node>, RuntimeError>)
    ensures
        ({
            let res = eval_document(*graph, *node_expr, uri@, data@);
            match res {
                Ok(opt) => r is Ok && opt_node_view(r->Ok_0) == opt,
                Err(e) => r is Err && r->Err_0@ == e,
            }
        }),
{
    let mut context = create_context(node_expr, uri, data, None);
    let root_option = match evaluate_instance_node(node_expr, graph, &mut context, part) {
        Ok(o) => o,
        Err(e) => {
            return Err(e);
        },
    };
    match root_option {
        Some(mut root) => {
            let style = match evaluate_jumbo_style(node_expr, graph, &mut context) {
                Ok(s) => s,
                Err(e) => {
                    return Err(e);
                },
            };
            root.prepend_child(style);
            Ok(Some(root))
        },
        None => Ok(None),
    }
}

/// Render a list of previews, each as an instance of the current
/// document; a single rendered preview is returned bare.
pub fn evaluate_previews(
    previews: &Vec<ast::Node>,
    graph: &DependencyGraph,
    context: &mut Context,
) -> (r: Result<Option<virt::Node>, RuntimeError>)
    ensures
        node_post(previews_spec(*graph, *previews, old(context)@), r, old(context)@, final(context)@),
    decreases context.depth, *previews, 9int, 0int,
{
    let mut children_v = match evaluate_previews_from(previews, 0, graph, context) {
        Ok(v) => v,
        Err(e) => {
            return Err(e);
        },
    };
    proof {
        lemma_nodes_view(children_v@);
    }
    if children_v.len() == 1 {
        match children_v.pop() {
            Some(only) => Ok(Some(only)),
            None => {
                proof {
                    assert(false);
                }
                Ok(None)
            },
        }
    } else {
        Ok(Some(virt::Node::Fragment(virt::Fragment { children: children_v })))
    }
}

fn evaluate_previews_from(
    previews: &Vec<ast::Node>,
    i: usize,
    graph: &DependencyGraph,
    context: &mut Context,
) -> (r: Result<Vec<virt::Node>, RuntimeError>)
    ensures
        children_post(
            previews_from(*graph, *previews, i as int, old(context)@),
            r,
            old(context)@,
            final(context)@,
        ),
    decreases context.depth, *previews, 8int, previews@.len() - i,
{
    proof {
        assert(with_count(context@, context@.id_count) =~= context@);
    }
    if i >= previews.len() {
        let empty: Vec<virt::Node> = Vec::new();
        proof {
            lemma_nodes_view(empty@);
            assert(nodes_view(empty@) =~= Seq::<NodeV>::empty());
        }
        return Ok(empty);
    }
    let head: Option<virt::Node> = match &previews[i] {
        ast::Node::Element(element) => {
            let uri = context.uri.clone();
            match evaluate_component_instance(element, &uri, graph, context) {
                Ok(o) => o,
                Err(e) => {
                    return Err(e);
                },
            }
        },
        _ => None,
    };
    let mut rest = match evaluate_previews_from(previews, i + 1, graph, context) {
        Ok(v) => v,
        Err(e) => {
            return Err(e);
        },
    };
    let ghost rest_views = nodes_view(rest@);
    proof {
        lemma_nodes_view(rest@);
    }
    match head {
        Some(n) => {
            let ghost nv = n@;
            let mut out: Vec<virt::Node> = Vec::new();
            out.push(n);
            out.append(&mut rest);
            proof {
                lemma_nodes_view(out@);
                assert(nodes_view(out@) =~= seq![nv] + rest_views);
            }
            Ok(out)
        },
        None => Ok(rest),
    }
}

/// Build a fresh context for one document.
pub fn create_context(
    node_expr: &ast::Node,
    uri: &String,
    data: &JsValue,
    parent: Option<&Context>,
) -> (r: Context)
    requires
        match parent {
            Some(p) => p.depth > 0,
            None => true,
        },
    ensures
        r@ == create_ctx(
            *node_expr,
            uri@,
            data@,
            match parent {
                Some(p) => Some(p@),
                None => None,
            },
        ),
{
    let (from_main, curr_id_count, depth) = match parent {
        Some(p) => (p.from_main, p.id_count, p.depth - 1),
        None => (true, 0u64, DEFAULT_INSTANCE_DEPTH),
    };
    let scope = crate::hash::get_document_style_scope(uri);
    let id_seed = crate::hash::create_id_seed(uri, curr_id_count);
    Context {
        uri: uri.clone(),
        import_ids: ast::get_import_ids(node_expr),
        part_ids: ast::get_part_ids(node_expr),
        scope,
        data: data.duplicate(),
        in_part: false,
        id_seed,
        from_main,
        id_count: 0,
        depth,
    }
}

} // verus!
