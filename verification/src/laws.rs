//! The laws the runtime keeps, stated over the ghost interpreter and
//! proved once and for all: determinism of evaluation (and with it the
//! stability of generated identifiers), the depth-first shape of the
//! flatten walk, the precedence order of aggregated styles, the guard on
//! top-level `<self>`, the fall-through of condition chains, and fragment
//! collapsing.

use vstd::prelude::*;
use crate::ast;
use crate::base::ErrV;
use crate::evaluator::{create_ctx, eval_children, eval_children_as_fragment,
    eval_component_instance, eval_conditional_block, eval_document, eval_element, eval_node,
    eval_pass_fail_block, eval_self_element, self_loop_err, CtxV};
use crate::graph::{dep_index, dep_targets, dependents_spec, dfs, flatten_spec, pair_with,
    DependencyGraph};
use crate::js_eval::eval_stmt;
use crate::js_virt::{truthy_spec, JsValueV};
use crate::virt::NodeV;

verus! {

/// Law: evaluation is a function of the graph, the document, the uri and
/// the bindings alone. Two passes over the same inputs yield the same
/// virtual tree, identifiers included — the stability a downstream
/// reconciler keys on.
pub proof fn lemma_id_stability(
    g: DependencyGraph,
    node: ast::Node,
    uri: Seq<char>,
    data: JsValueV,
    pass1: Result<Option<NodeV>, ErrV>,
    pass2: Result<Option<NodeV>, ErrV>,
)
    requires
        pass1 == eval_document(g, node, uri, data),
        pass2 == eval_document(g, node, uri, data),
    ensures
        pass1 == pass2,
{
}

/// Law: the context a nested instance starts from depends on its parent
/// only through the counter value, the depth left and whether the parent
/// is the main pass. Two instantiations of the same document at the same
/// ancestor counter state get identical id seeds and so identical id
/// sequences.
pub proof fn lemma_instance_ids_depend_on_ancestor_counter(
    node: ast::Node,
    uri: Seq<char>,
    data: JsValueV,
    p1: CtxV,
    p2: CtxV,
)
    requires
        p1.id_count == p2.id_count,
        p1.from_main == p2.from_main,
        p1.depth == p2.depth,
    ensures
        create_ctx(node, uri, data, Some(p1)) == create_ctx(node, uri, data, Some(p2)),
{
    assert(create_ctx(node, uri, data, Some(p1)) =~= create_ctx(node, uri, data, Some(p2)));
}

/// Law: at the top level of the main document, `<self>` is refused with
/// a semantic error instead of recursing forever.
pub proof fn lemma_self_guard_top_level(
    g: DependencyGraph,
    el: ast::Element,
    is_root: bool,
    c: CtxV,
)
    requires
        el.tag_name@ == "self"@,
        c.from_main,
    ensures
        eval_element(g, el, is_root, c) == Err::<(Option<NodeV>, int), ErrV>(
            self_loop_err(c.uri, el.open_tag_location),
        ),
{
    proof_tag_is_self(el.tag_name@);
}

/// Law: inside a nested instance, `<self>` evaluates to exactly one
/// re-instantiation of the current document.
pub proof fn lemma_self_inside_instance(
    g: DependencyGraph,
    el: ast::Element,
    is_root: bool,
    c: CtxV,
)
    requires
        el.tag_name@ == "self"@,
        !c.from_main,
    ensures
        eval_element(g, el, is_root, c) == eval_component_instance(g, el, c.uri, c),
{
    proof_tag_is_self(el.tag_name@);
}

/// The tag `self` is none of the other fixed tags.
proof fn proof_tag_is_self(tag: Seq<char>)
    requires
        tag == "self"@,
    ensures
        tag != "import"@,
        tag != "part"@,
        tag != "preview"@,
        tag != "script"@,
        tag != "property"@,
        tag != "logic"@,
{
    reveal_strlit("self");
    reveal_strlit("import");
    reveal_strlit("part");
    reveal_strlit("preview");
    reveal_strlit("script");
    reveal_strlit("property");
    reveal_strlit("logic");
    assert("self"@.len() == 4);
    assert("part"@.len() == 4);
    assert("self"@[0] == 's' && "part"@[0] == 'p');
    assert("import"@.len() == 6);
    assert("preview"@.len() == 7);
    assert("script"@.len() == 6);
    assert("property"@.len() == 8);
    assert("logic"@.len() == 5);
    assert("self"@[0] == 's' && "script"@[1] == 'c' && "self"@[1] == 'e');
}

/// Law: a false condition falls through to the rest of its chain.
pub proof fn lemma_conditional_false_falls_through(
    g: DependencyGraph,
    pf: ast::PassFailBlock,
    c: CtxV,
)
    requires
        !truthy_spec(eval_stmt(pf.condition, c.data)),
        pf.fail is Some,
    ensures
        eval_pass_fail_block(g, pf, c) == eval_conditional_block(g, *pf.fail->0, c),
{
}

/// Law: a true condition evaluates its body.
pub proof fn lemma_conditional_true_takes_body(g: DependencyGraph, pf: ast::PassFailBlock, c: CtxV)
    requires
        truthy_spec(eval_stmt(pf.condition, c.data)),
        pf.body is Some,
    ensures
        eval_pass_fail_block(g, pf, c) == eval_node(g, *pf.body->0, false, c),
{
}

/// Law: a false condition with no alternative evaluates to no node at
/// all, the counter untouched.
pub proof fn lemma_conditional_no_match(g: DependencyGraph, pf: ast::PassFailBlock, c: CtxV)
    requires
        !truthy_spec(eval_stmt(pf.condition, c.data)),
        pf.fail is None,
    ensures
        eval_pass_fail_block(g, pf, c) == Ok::<(Option<NodeV>, int), ErrV>((None, c.id_count)),
{
}

/// Law: a fragment whose children evaluate to exactly one surviving node
/// returns that node directly, not wrapped.
pub proof fn lemma_fragment_collapsing(
    g: DependencyGraph,
    f: ast::Fragment,
    is_root: bool,
    c: CtxV,
    ns: Seq<NodeV>,
    n: int,
)
    requires
        eval_children(g, f.children, 0, c) == Ok::<(Seq<NodeV>, int), ErrV>((ns, n)),
        ns.len() == 1,
    ensures
        eval_node(g, ast::Node::Fragment(f), is_root, c) == Ok::<(Option<NodeV>, int), ErrV>(
            (Some(ns[0]), n),
        ),
{
}

/// Law: inside one each block, every iteration evaluates the body under
/// a child context of its own: the loop variable freshly bound, the
/// counter reset to zero, and the identifier seed derived from the
/// parent counter advanced once — the following iteration continuing
/// from that advanced counter. Short of the counter ceiling, no two
/// iterations derive their seeds from the same counter value, which
/// gives each iteration its own identifier subtree.
pub proof fn lemma_each_iteration_id_space(
    g: DependencyGraph,
    eb: ast::EachBlock,
    items: Seq<crate::js_virt::JsValueV>,
    idx: int,
    c: CtxV,
)
    requires
        0 <= idx < items.len(),
        eb.body is Some,
    ensures
        ({
            let n1 = crate::evaluator::inc_count(c.id_count);
            let child = CtxV {
                data: crate::evaluator::each_child_data(
                    c.data,
                    eb.value_name@,
                    items[idx],
                    eb.key_name,
                    idx,
                ),
                id_count: 0,
                id_seed: crate::hash::seed_of(c.uri, n1 as nat),
                ..c
            };
            crate::evaluator::eval_each_items(g, eb, items, idx, c) == (match eval_node(
                g,
                *eb.body->0,
                false,
                child,
            ) {
                Err(e) => Err(e),
                Ok(p) => match crate::evaluator::eval_each_items(
                    g,
                    eb,
                    items,
                    idx + 1,
                    crate::evaluator::with_count(c, n1),
                ) {
                    Err(e) => Err(e),
                    Ok(q) => Ok((crate::evaluator::opt_seq(p.0) + q.0, q.1)),
                },
            })
        }),
{
}

/// Law: on a graph where the first document imports the second and
/// third, and the second imports the third, the flatten walk emits each
/// uri exactly once, depth first, each paired with the importer that
/// first reached it.
pub proof fn lemma_flatten_depth_first(
    g: DependencyGraph,
    a: Seq<char>,
    b: Seq<char>,
    c: Seq<char>,
)
    requires
        g.dependencies@.len() == 3,
        g.dependencies@[0].uri@ == a,
        g.dependencies@[1].uri@ == b,
        g.dependencies@[2].uri@ == c,
        a != b,
        a != c,
        b != c,
        dep_targets(g.dependencies@[0]) == seq![b, c],
        dep_targets(g.dependencies@[1]) == seq![c],
        dep_targets(g.dependencies@[2]) == Seq::<Seq<char>>::empty(),
    ensures
        flatten_spec(g, a) == seq![
            (a, None::<Seq<char>>),
            (b, Some(a)),
            (c, Some(b)),
        ],
{
    let deps = g.dependencies@;
    let v0 = Set::<Seq<char>>::empty();
    let s0: Seq<(Seq<char>, Option<Seq<char>>)> = seq![(a, None)];
    assert(dep_index(deps, a, 0) == Some(0int));
    let v1 = v0.insert(a);
    let s1: Seq<(Seq<char>, Option<Seq<char>>)> = seq![(b, Some(a)), (c, Some(a))];
    assert(pair_with(dep_targets(deps[0]), a) + s0.drop_first() =~= s1);
    assert(dfs(g, s0, v0) == seq![(a, None::<Seq<char>>)] + dfs(g, s1, v1));

    assert(!v1.contains(b));
    assert(dep_index(deps, b, 1) == Some(1int));
    assert(dep_index(deps, b, 0) == Some(1int));
    let v2 = v1.insert(b);
    let s2: Seq<(Seq<char>, Option<Seq<char>>)> = seq![(c, Some(b)), (c, Some(a))];
    assert(pair_with(dep_targets(deps[1]), b) + s1.drop_first() =~= s2);
    assert(dfs(g, s1, v1) == seq![(b, Some(a))] + dfs(g, s2, v2));

    assert(!v2.contains(c));
    assert(dep_index(deps, c, 2) == Some(2int));
    assert(dep_index(deps, c, 1) == Some(2int));
    assert(dep_index(deps, c, 0) == Some(2int));
    let v3 = v2.insert(c);
    let s3: Seq<(Seq<char>, Option<Seq<char>>)> = seq![(c, Some(a))];
    assert(pair_with(dep_targets(deps[2]), c) + s2.drop_first() =~= s3);
    assert(dfs(g, s2, v2) == seq![(c, Some(b))] + dfs(g, s3, v3));

    assert(v3.contains(c));
    let s4: Seq<(Seq<char>, Option<Seq<char>>)> = s3.drop_first();
    assert(dfs(g, s3, v3) == dfs(g, s4, v3));
    assert(s4.len() == 0);
    assert(dfs(g, s4, v3) == Seq::<(Seq<char>, Option<Seq<char>>)>::empty());

    assert(flatten_spec(g, a) =~= seq![(a, None::<Seq<char>>), (b, Some(a)), (c, Some(b))]);
}

/// The flatten walk of a two-entry graph whose first document imports
/// the second.
pub proof fn lemma_flatten_two(g: DependencyGraph, a: Seq<char>, b: Seq<char>)
    requires
        g.dependencies@.len() == 2,
        g.dependencies@[0].uri@ == a,
        g.dependencies@[1].uri@ == b,
        a != b,
        dep_targets(g.dependencies@[0]) == seq![b],
        dep_targets(g.dependencies@[1]) == Seq::<Seq<char>>::empty(),
    ensures
        flatten_spec(g, a) == seq![(a, None::<Seq<char>>), (b, Some(a))],
{
    let deps = g.dependencies@;
    let v0 = Set::<Seq<char>>::empty();
    let s0: Seq<(Seq<char>, Option<Seq<char>>)> = seq![(a, None)];
    assert(dep_index(deps, a, 0) == Some(0int));
    let v1 = v0.insert(a);
    let s1: Seq<(Seq<char>, Option<Seq<char>>)> = seq![(b, Some(a))];
    assert(pair_with(dep_targets(deps[0]), a) + s0.drop_first() =~= s1);
    assert(dfs(g, s0, v0) == seq![(a, None::<Seq<char>>)] + dfs(g, s1, v1));

    assert(!v1.contains(b));
    assert(dep_index(deps, b, 1) == Some(1int));
    assert(dep_index(deps, b, 0) == Some(1int));
    let v2 = v1.insert(b);
    let s2: Seq<(Seq<char>, Option<Seq<char>>)> = Seq::empty();
    assert(pair_with(dep_targets(deps[1]), b) + s1.drop_first() =~= s2);
    assert(dfs(g, s1, v1) == seq![(b, Some(a))] + dfs(g, s2, v2));
    assert(dfs(g, s2, v2) == Seq::<(Seq<char>, Option<Seq<char>>)>::empty());

    assert(flatten_spec(g, a) =~= seq![(a, None::<Seq<char>>), (b, Some(a))]);
}

/// Law: when one document imports another and both declare style rules,
/// the aggregated sheet holds the imported document's rules first and
/// the importing document's own rules last, so that on the cascade the
/// importer's rules win.
pub proof fn lemma_style_precedence(
    g: DependencyGraph,
    a: Seq<char>,
    b: Seq<char>,
    node_a: ast::Node,
    node_b: ast::Node,
)
    requires
        g.dependencies@.len() == 2,
        g.dependencies@[0].uri@ == a,
        g.dependencies@[1].uri@ == b,
        a != b,
        g.dependencies@[0].content == crate::graph::DependencyContent::Node(node_a),
        g.dependencies@[1].content == crate::graph::DependencyContent::Node(node_b),
        dep_targets(g.dependencies@[0]) == seq![b],
        dep_targets(g.dependencies@[1]) == Seq::<Seq<char>>::empty(),
    ensures
        crate::evaluator::jumbo_rules(g, node_a, a) == crate::evaluator::doc_styles(node_b, b)
            + crate::evaluator::doc_styles(node_a, a),
{
    lemma_flatten_two(g, a, b);
    let pairs = flatten_spec(g, a);
    assert(pairs[0] == (a, None::<Seq<char>>));
    assert(pairs[1] == (b, Some(a)));
    assert(dep_index(g.dependencies@, b, 1) == Some(1int));
    assert(dep_index(g.dependencies@, b, 0) == Some(1int));
    assert(crate::evaluator::jumbo_from(g, pairs, 2, a) =~= Seq::<
        crate::css_virt::CSSRuleV,
    >::empty());
    assert(crate::evaluator::jumbo_from(g, pairs, 1, a) == crate::evaluator::doc_styles(node_b, b)
        + crate::evaluator::jumbo_from(g, pairs, 2, a));
    assert(crate::evaluator::jumbo_from(g, pairs, 0, a) == crate::evaluator::jumbo_from(
        g,
        pairs,
        1,
        a,
    ));
    assert(crate::evaluator::jumbo_rules(g, node_a, a) =~= crate::evaluator::doc_styles(node_b, b)
        + crate::evaluator::doc_styles(node_a, a));
}

/// Law: editing an imported document re-evaluates the document itself
/// and then its importer: on a two-entry graph whose first document
/// imports the second, the dependents of the second are the second, then
/// the first.
pub proof fn lemma_incremental_propagation(g: DependencyGraph, a: Seq<char>, b: Seq<char>)
    requires
        g.dependencies@.len() == 2,
        g.dependencies@[0].uri@ == a,
        g.dependencies@[1].uri@ == b,
        a != b,
        dep_targets(g.dependencies@[0]) == seq![b],
        dep_targets(g.dependencies@[1]) == Seq::<Seq<char>>::empty(),
    ensures
        dependents_spec(g, b) == seq![b, a],
{
    lemma_flatten_two(g, a, b);
    assert(flatten_spec(g, a)[1].0 == b);
    assert(crate::graph::reaches(g, a, b));
    assert(crate::graph::dependents_from(g, b, 2) =~= Seq::<Seq<char>>::empty());
    assert(crate::graph::dependents_from(g, b, 1) =~= Seq::<Seq<char>>::empty());
    assert(crate::graph::dependents_from(g, b, 0) == seq![a] + crate::graph::dependents_from(
        g,
        b,
        1,
    ));
    assert(dependents_spec(g, b) =~= seq![b, a]);
}

} // verus!
