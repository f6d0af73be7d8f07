// Scenario tests for the node evaluator: documents are built as parsed
// trees (the document parser is an outside collaborator) and evaluated
// against real dependency graphs.

use paperclip::ast::{Attribute, AttributeStringValue, AttributeValue, Block, ConditionalBlock,
    EachBlock, Element, FinalBlock, Fragment, KeyValueAttribute, Node, PassFailBlock,
    ShorthandAttribute, StyleElement, ValueObject};
use paperclip::base::{ErrorKind, Location};
use paperclip::css_ast::{Declaration, Sheet, StyleRule};
use paperclip::evaluator::{create_context, evaluate, evaluate_instance_node};
use paperclip::graph::{DependencyContent, DependencyGraph};
use paperclip::js_ast::{Reference, Statement};
use paperclip::js_virt::{JsArray, JsObject, JsValue};
use paperclip::virt;

fn loc() -> Location {
    Location { start: 0, end: 0 }
}

fn text(value: &str) -> Node {
    Node::Text(ValueObject { value: value.to_string() })
}

fn element(tag: &str, attributes: Vec<Attribute>, children: Vec<Node>) -> Node {
    Node::Element(Element {
        tag_name: tag.to_string(),
        attributes,
        children,
        location: loc(),
        open_tag_location: loc(),
    })
}

fn reference(path: &[&str]) -> Statement {
    Statement::Reference(Reference { path: path.iter().map(|s| s.to_string()).collect() })
}

fn kv(name: &str, value: &str) -> Attribute {
    Attribute::KeyValueAttribute(KeyValueAttribute {
        name: name.to_string(),
        value: Some(AttributeValue::Str(AttributeStringValue { value: value.to_string() })),
    })
}

fn style_element(selector: &str, prop: &str, value: &str) -> Node {
    Node::StyleElement(StyleElement {
        attributes: vec![],
        sheet: Sheet {
            rules: vec![StyleRule {
                selector_text: selector.to_string(),
                declarations: vec![Declaration {
                    name: prop.to_string(),
                    value: value.to_string(),
                }],
            }],
        },
    })
}

fn empty_data() -> JsValue {
    JsValue::JsObject(JsObject::new())
}

fn if_block(condition: Statement, body: Node, fail: Option<Node>) -> Node {
    Node::Block(Block::Conditional(ConditionalBlock::PassFailBlock(PassFailBlock {
        condition,
        body: Some(Box::new(body)),
        fail: fail.map(|f| {
            Box::new(ConditionalBlock::FinalBlock(FinalBlock { body: Some(Box::new(f)) }))
        }),
    })))
}

fn each_block(source: Statement, value_name: &str, body: Node) -> Node {
    Node::Block(Block::Each(EachBlock {
        source,
        value_name: value_name.to_string(),
        key_name: None,
        body: Some(Box::new(body)),
    }))
}

fn collect_ids(node: &virt::Node, out: &mut Vec<String>) {
    match node {
        virt::Node::Element(el) => {
            out.push(el.id.clone());
            for a in &el.attributes {
                out.push(a.id.clone());
            }
            for c in &el.children {
                collect_ids(c, out);
            }
        },
        virt::Node::Text(t) => out.push(t.id.clone()),
        virt::Node::Fragment(f) => {
            for c in &f.children {
                collect_ids(c, out);
            }
        },
        virt::Node::StyleElement(s) => out.push(s.id.clone()),
        virt::Node::Comment => {},
    }
}

fn text_values(node: &virt::Node, out: &mut Vec<String>) {
    match node {
        virt::Node::Element(el) => {
            for c in &el.children {
                text_values(c, out);
            }
        },
        virt::Node::Text(t) => out.push(t.value.clone()),
        virt::Node::Fragment(f) => {
            for c in &f.children {
                text_values(c, out);
            }
        },
        _ => {},
    }
}

#[test]
fn can_evaluate_a_style() {
    let ast = Node::Fragment(Fragment {
        children: vec![
            style_element("div", "color", "red"),
            element("div", vec![], vec![]),
        ],
    });
    let graph = DependencyGraph::new();
    let _node = evaluate(&ast, &"something".to_string(), &graph, &empty_data(), None)
        .unwrap()
        .unwrap();
}

#[test]
fn can_evaluate_a_simple_each_block() {
    let code = each_block(reference(&["items"]), "item", Node::Slot(reference(&["item"])));
    let graph = DependencyGraph::new();
    let mut object = JsObject::new();
    let mut items = JsArray::new();
    items.values.push(JsValue::JsString("a".to_string()));
    items.values.push(JsValue::JsString("b".to_string()));
    items.values.push(JsValue::JsString("c".to_string()));
    object.insert("items".to_string(), JsValue::JsArray(items));
    let data = JsValue::JsObject(object);
    let _node = evaluate(&code, &"some-file.pc".to_string(), &graph, &data, None)
        .unwrap()
        .unwrap();
}

#[test]
fn can_smoke_evaluate_various_elements() {
    fn nums() -> Statement {
        Statement::ArrayLiteral(vec![
            Statement::NumberLiteral(1),
            Statement::NumberLiteral(2),
            Statement::NumberLiteral(3),
        ])
    }
    let mixed = Statement::ArrayLiteral(vec![
        Statement::NumberLiteral(0),
        Statement::BooleanLiteral(false),
        Statement::NumberLiteral(1),
        Statement::BooleanLiteral(true),
    ]);
    let cases = vec![
        each_block(nums(), "item", Node::Slot(reference(&["item"]))),
        if_block(Statement::BooleanLiteral(true), text("do something"), None),
        if_block(
            Statement::BooleanLiteral(false),
            text("do something"),
            Some(text("something else")),
        ),
        Node::Fragment(Fragment {
            children: vec![
                element(
                    "span",
                    vec![],
                    vec![each_block(
                        mixed,
                        "item",
                        if_block(
                            reference(&["item"]),
                            Node::Fragment(Fragment {
                                children: vec![text("pass: "), Node::Slot(reference(&["item"]))],
                            }),
                            Some(Node::Fragment(Fragment {
                                children: vec![text("fail: "), Node::Slot(reference(&["item"]))],
                            })),
                        ),
                    )],
                ),
                each_block(nums(), "item", text("okay")),
                Node::Slot(Statement::StringLiteral("a".to_string())),
            ],
        }),
    ];
    for code in cases {
        let graph = DependencyGraph::new();
        let data = empty_data();
        let _node = evaluate(&code, &"some-file.pc".to_string(), &graph, &data, None)
            .unwrap()
            .unwrap();
    }
}

#[test]
fn conditional_chain_takes_else_branch() {
    // {#if false}X{/else}Y{/} evaluates to a Text node "Y"
    let ast = if_block(Statement::BooleanLiteral(false), text("X"), Some(text("Y")));
    let graph = DependencyGraph::new();
    let data = empty_data();
    let root = evaluate(&ast, &"cond.pc".to_string(), &graph, &data, None).unwrap().unwrap();
    // the aggregated style is prepended, so the text lands beside it
    match root {
        virt::Node::Fragment(f) => {
            assert_eq!(f.children.len(), 2);
            match &f.children[1] {
                virt::Node::Text(t) => assert_eq!(t.value, "Y"),
                _ => panic!("expected a text node"),
            }
        },
        _ => panic!("expected a fragment"),
    }
}

#[test]
fn conditional_chain_takes_true_branch() {
    let ast = if_block(Statement::BooleanLiteral(true), text("X"), None);
    let graph = DependencyGraph::new();
    let data = empty_data();
    let root = evaluate(&ast, &"cond.pc".to_string(), &graph, &data, None).unwrap().unwrap();
    match root {
        virt::Node::Fragment(f) => match &f.children[1] {
            virt::Node::Text(t) => assert_eq!(t.value, "X"),
            _ => panic!("expected a text node"),
        },
        _ => panic!("expected a fragment"),
    }
}

#[test]
fn conditional_chain_without_match_produces_no_node() {
    let ast = Node::Block(Block::Conditional(ConditionalBlock::PassFailBlock(PassFailBlock {
        condition: Statement::BooleanLiteral(false),
        body: Some(Box::new(text("X"))),
        fail: None,
    })));
    let graph = DependencyGraph::new();
    let data = empty_data();
    let root = evaluate(&ast, &"cond.pc".to_string(), &graph, &data, None).unwrap();
    assert!(root.is_none());
}

#[test]
fn each_block_produces_one_text_per_item_in_order() {
    // {#each [1,2,3] as item}{item}{/}
    let nums = Statement::ArrayLiteral(vec![
        Statement::NumberLiteral(1),
        Statement::NumberLiteral(2),
        Statement::NumberLiteral(3),
    ]);
    let ast = each_block(nums, "item", Node::Slot(reference(&["item"])));
    let graph = DependencyGraph::new();
    let data = empty_data();
    let uri = "each.pc".to_string();
    let mut ctx = create_context(&ast, &uri, &data, None);
    let node = evaluate_instance_node(&ast, &graph, &mut ctx, None).unwrap().unwrap();
    match &node {
        virt::Node::Fragment(f) => {
            assert_eq!(f.children.len(), 3);
            let mut values = vec![];
            text_values(&node, &mut values);
            assert_eq!(values, vec!["1", "2", "3"]);
            let mut ids = vec![];
            collect_ids(&node, &mut ids);
            assert_eq!(ids.len(), 3);
            assert_ne!(ids[0], ids[1]);
            assert_ne!(ids[1], ids[2]);
            assert_ne!(ids[0], ids[2]);
        },
        _ => panic!("expected a fragment"),
    }
}

#[test]
fn fragment_with_one_survivor_collapses_to_that_child() {
    // a comment is suppressed, so exactly one child survives
    let ast = Node::Fragment(Fragment {
        children: vec![
            Node::Comment(ValueObject { value: "note".to_string() }),
            text("only"),
        ],
    });
    let graph = DependencyGraph::new();
    let data = empty_data();
    let uri = "frag.pc".to_string();
    let mut ctx = create_context(&ast, &uri, &data, None);
    let node = evaluate_instance_node(&ast, &graph, &mut ctx, None).unwrap().unwrap();
    match node {
        virt::Node::Text(t) => assert_eq!(t.value, "only"),
        _ => panic!("fragment should collapse to its only surviving child"),
    }
}

#[test]
fn reevaluation_yields_identical_ids() {
    let ast = Node::Fragment(Fragment {
        children: vec![
            text("a"),
            element("div", vec![kv("title", "x")], vec![text("b")]),
        ],
    });
    let graph = DependencyGraph::new();
    let data = empty_data();
    let uri = "stable.pc".to_string();
    let first = evaluate(&ast, &uri, &graph, &data, None).unwrap().unwrap();
    let second = evaluate(&ast, &uri, &graph, &data, None).unwrap().unwrap();
    let mut ids1 = vec![];
    let mut ids2 = vec![];
    collect_ids(&first, &mut ids1);
    collect_ids(&second, &mut ids2);
    assert!(ids1.len() > 0);
    assert_eq!(ids1, ids2);
}

#[test]
fn ids_follow_the_checksum_seed() {
    let ast = text("hello");
    let graph = DependencyGraph::new();
    let data = empty_data();
    let uri = "seeded.pc".to_string();
    let mut ctx = create_context(&ast, &uri, &data, None);
    let node = evaluate_instance_node(&ast, &graph, &mut ctx, None).unwrap().unwrap();
    let expected_seed = format!("{:x}", crc::crc32::checksum_ieee("seeded.pc-0".as_bytes()));
    match node {
        virt::Node::Text(t) => {
            assert_eq!(t.value, "hello");
            assert_eq!(t.id, format!("{}-{}", expected_seed, 1));
        },
        _ => panic!("expected a text node"),
    }
}

#[test]
fn plain_elements_carry_the_scope_marker() {
    let ast = element("div", vec![], vec![]);
    let graph = DependencyGraph::new();
    let data = empty_data();
    let uri = "scoped.pc".to_string();
    let mut ctx = create_context(&ast, &uri, &data, None);
    let node = evaluate_instance_node(&ast, &graph, &mut ctx, None).unwrap().unwrap();
    let scope = format!("{:x}", crc::crc32::checksum_ieee("scoped.pc".as_bytes()));
    match node {
        virt::Node::Element(el) => {
            assert_eq!(el.tag_name, "div");
            assert_eq!(el.attributes.len(), 1);
            assert_eq!(el.attributes[0].name, format!("data-pc-{}", scope));
            assert_eq!(el.attributes[0].value, None);
            assert_eq!(el.source_uri, "scoped.pc");
        },
        _ => panic!("expected an element"),
    }
}

#[test]
fn shorthand_attribute_with_long_path_is_a_semantic_error() {
    let ast = element(
        "div",
        vec![Attribute::ShorthandAttribute(ShorthandAttribute {
            reference: reference(&["a", "b"]),
        })],
        vec![],
    );
    let graph = DependencyGraph::new();
    let data = empty_data();
    let err = evaluate(&ast, &"sh.pc".to_string(), &graph, &data, None).unwrap_err();
    assert_eq!(err.kind, ErrorKind::Semantic);
    assert_eq!(err.message, "Unexpected Expression");
}

#[test]
fn relative_src_attributes_are_rewritten() {
    let ast = element("img", vec![kv("src", "./pic.png")], vec![]);
    let graph = DependencyGraph::new();
    let data = empty_data();
    let uri = "/docs/page.pc".to_string();
    let mut ctx = create_context(&ast, &uri, &data, None);
    let node = evaluate_instance_node(&ast, &graph, &mut ctx, None).unwrap().unwrap();
    match node {
        virt::Node::Element(el) => {
            assert_eq!(el.attributes[0].name, "src");
            assert_eq!(el.attributes[0].value, Some("/docs/pic.png".to_string()));
        },
        _ => panic!("expected an element"),
    }
}

#[test]
fn absolute_src_attributes_are_dropped() {
    let ast = element("img", vec![kv("src", "https://host/pic.png")], vec![]);
    let graph = DependencyGraph::new();
    let data = empty_data();
    let uri = "/docs/page.pc".to_string();
    let mut ctx = create_context(&ast, &uri, &data, None);
    let node = evaluate_instance_node(&ast, &graph, &mut ctx, None).unwrap().unwrap();
    match node {
        virt::Node::Element(el) => {
            assert_eq!(el.attributes[0].name, "src");
            assert_eq!(el.attributes[0].value, None);
        },
        _ => panic!("expected an element"),
    }
}

#[test]
fn each_over_a_non_list_source_is_an_empty_fragment() {
    // a deliberate permissive policy: a non-list source is not an error
    let ast = each_block(
        Statement::NumberLiteral(5),
        "item",
        Node::Slot(reference(&["item"])),
    );
    let graph = DependencyGraph::new();
    let data = empty_data();
    let uri = "each.pc".to_string();
    let mut ctx = create_context(&ast, &uri, &data, None);
    let node = evaluate_instance_node(&ast, &graph, &mut ctx, None).unwrap().unwrap();
    match node {
        virt::Node::Fragment(f) => assert_eq!(f.children.len(), 0),
        _ => panic!("expected an empty fragment"),
    }
}

#[test]
fn each_loop_binds_the_declared_key_to_the_index() {
    let nums = Statement::ArrayLiteral(vec![
        Statement::NumberLiteral(10),
        Statement::NumberLiteral(20),
    ]);
    let ast = Node::Block(Block::Each(EachBlock {
        source: nums,
        value_name: "item".to_string(),
        key_name: Some("i".to_string()),
        body: Some(Box::new(Node::Fragment(Fragment {
            children: vec![Node::Slot(reference(&["i"])), Node::Slot(reference(&["item"]))],
        }))),
    }));
    let graph = DependencyGraph::new();
    let data = empty_data();
    let uri = "each.pc".to_string();
    let mut ctx = create_context(&ast, &uri, &data, None);
    let node = evaluate_instance_node(&ast, &graph, &mut ctx, None).unwrap().unwrap();
    let mut values = vec![];
    text_values(&node, &mut values);
    assert_eq!(values, vec!["0", "10", "1", "20"]);
}

#[test]
fn missing_import_target_is_a_resolution_error() {
    // the document imports a component whose uri was never loaded
    let import_el = element("import", vec![kv("id", "widget"), kv("src", "./widget.pc")], vec![]);
    let doc = Node::Fragment(Fragment {
        children: vec![import_el, element("widget", vec![], vec![])],
    });
    let mut graph = DependencyGraph::new();
    graph.load_dependency("/main.pc".to_string(), DependencyContent::Node(doc));
    let entry = graph.get_dependency(&"/main.pc".to_string()).unwrap();
    let doc_ref = match &entry.content {
        DependencyContent::Node(n) => n,
        _ => panic!("expected a document"),
    };
    let data = empty_data();
    let err = evaluate(doc_ref, &"/main.pc".to_string(), &graph, &data, None).unwrap_err();
    assert_eq!(err.kind, ErrorKind::Resolution);
}
