// Scenario tests for the dependency graph, the style aggregation order,
// the self-recursion guard and the incremental engine.

use paperclip::ast::{Attribute, AttributeStringValue, AttributeValue, Block, ConditionalBlock,
    Element, Fragment, KeyValueAttribute, Node, PassFailBlock, StyleElement, ValueObject};
use paperclip::base::{ErrorKind, Location};
use paperclip::css_ast::{Declaration, Sheet, StyleRule};
use paperclip::css_virt::CSSRule;
use paperclip::engine::{Engine, EngineEvent};
use paperclip::evaluator::evaluate;
use paperclip::graph::{DependencyContent, DependencyGraph};
use paperclip::js_ast::{Reference, Statement};
use paperclip::js_virt::{JsObject, JsValue};
use paperclip::virt;

fn loc() -> Location {
    Location { start: 0, end: 0 }
}

fn text(value: &str) -> Node {
    Node::Text(ValueObject { value: value.to_string() })
}

fn element(tag: &str, attributes: Vec<Attribute>, children: Vec<Node>) -> Node {
    Node::Element(Element {
        tag_name: tag.to_string(),
        attributes,
        children,
        location: loc(),
        open_tag_location: loc(),
    })
}

fn kv(name: &str, value: &str) -> Attribute {
    Attribute::KeyValueAttribute(KeyValueAttribute {
        name: name.to_string(),
        value: Some(AttributeValue::Str(AttributeStringValue { value: value.to_string() })),
    })
}

fn import_el(id: &str, src: &str) -> Node {
    element("import", vec![kv("id", id), kv("src", src)], vec![])
}

fn style_element(selector: &str, prop: &str, value: &str) -> Node {
    Node::StyleElement(StyleElement {
        attributes: vec![],
        sheet: Sheet {
            rules: vec![StyleRule {
                selector_text: selector.to_string(),
                declarations: vec![Declaration {
                    name: prop.to_string(),
                    value: value.to_string(),
                }],
            }],
        },
    })
}

fn empty_data() -> JsValue {
    JsValue::JsObject(JsObject::new())
}

fn doc(children: Vec<Node>) -> DependencyContent {
    DependencyContent::Node(Node::Fragment(Fragment { children }))
}

#[test]
fn flatten_visits_depth_first_each_uri_once() {
    // A imports B and C; B imports C; C imports nothing
    let mut graph = DependencyGraph::new();
    let a = doc(vec![import_el("b-comp", "/b.pc"), import_el("c-comp", "/c.pc")]);
    let b = doc(vec![import_el("c-comp", "/c.pc")]);
    let c = doc(vec![text("c")]);
    graph.load_dependency("/a.pc".to_string(), a);
    graph.load_dependency("/b.pc".to_string(), b);
    graph.load_dependency("/c.pc".to_string(), c);
    let order = graph.flatten(&"/a.pc".to_string());
    let uris: Vec<&str> = order.iter().map(|p| p.0.as_str()).collect();
    assert_eq!(uris, vec!["/a.pc", "/b.pc", "/c.pc"]);
    assert_eq!(order[0].1, None);
    assert_eq!(order[1].1, Some("/a.pc".to_string()));
    assert_eq!(order[2].1, Some("/b.pc".to_string()));
}

#[test]
fn flatten_is_safe_on_an_import_cycle() {
    let mut graph = DependencyGraph::new();
    let a = doc(vec![import_el("b-comp", "/b.pc")]);
    let b = doc(vec![import_el("a-comp", "/a.pc")]);
    graph.load_dependency("/a.pc".to_string(), a);
    graph.load_dependency("/b.pc".to_string(), b);
    let order = graph.flatten(&"/a.pc".to_string());
    let uris: Vec<&str> = order.iter().map(|p| p.0.as_str()).collect();
    assert_eq!(uris, vec!["/a.pc", "/b.pc"]);
}

#[test]
fn reloading_a_uri_replaces_its_entry() {
    let mut graph = DependencyGraph::new();
    graph.load_dependency("/a.pc".to_string(), doc(vec![text("one")]));
    graph.load_dependency("/a.pc".to_string(), doc(vec![text("two")]));
    assert_eq!(graph.dependencies.len(), 1);
}

#[test]
fn imported_styles_come_before_own_styles() {
    // A imports B; both style the same selector; B's rule must come first
    let mut graph = DependencyGraph::new();
    let a_doc = Node::Fragment(Fragment {
        children: vec![
            import_el("b-comp", "/b.pc"),
            style_element("div", "color", "blue"),
            element("div", vec![], vec![]),
        ],
    });
    let b_doc = doc(vec![style_element("div", "color", "red"), text("b")]);
    graph.load_dependency("/a.pc".to_string(), DependencyContent::Node(a_doc));
    graph.load_dependency("/b.pc".to_string(), b_doc);
    let entry = graph.get_dependency(&"/a.pc".to_string()).unwrap();
    let a_ref = match &entry.content {
        DependencyContent::Node(n) => n,
        _ => panic!("expected a document"),
    };
    let data = empty_data();
    let root = evaluate(a_ref, &"/a.pc".to_string(), &graph, &data, None).unwrap().unwrap();
    // the first child of the root is the aggregated style element
    let sheet = match &root {
        virt::Node::Element(el) => match &el.children[0] {
            virt::Node::StyleElement(s) => &s.sheet,
            _ => panic!("expected the aggregated style first"),
        },
        _ => panic!("expected the root element"),
    };
    assert_eq!(sheet.rules.len(), 2);
    let scope_a = format!("{:x}", crc::crc32::checksum_ieee("/a.pc".as_bytes()));
    let scope_b = format!("{:x}", crc::crc32::checksum_ieee("/b.pc".as_bytes()));
    let CSSRule::CSSStyleRule(first) = &sheet.rules[0];
    let CSSRule::CSSStyleRule(second) = &sheet.rules[1];
    assert_eq!(first.selector_text, format!("div[data-pc-{}]", scope_b));
    assert_eq!(first.style[0].value, "red");
    assert_eq!(second.selector_text, format!("div[data-pc-{}]", scope_a));
    assert_eq!(second.style[0].value, "blue");
}

#[test]
fn plain_stylesheet_imports_inherit_the_importers_scope() {
    let mut graph = DependencyGraph::new();
    let a_doc = Node::Fragment(Fragment {
        children: vec![import_el("shared", "/shared.css"), element("div", vec![], vec![])],
    });
    let css = DependencyContent::StyleSheet(Sheet {
        rules: vec![StyleRule {
            selector_text: "p".to_string(),
            declarations: vec![Declaration {
                name: "margin".to_string(),
                value: "0".to_string(),
            }],
        }],
    });
    graph.load_dependency("/a.pc".to_string(), DependencyContent::Node(a_doc));
    graph.load_dependency("/shared.css".to_string(), css);
    let entry = graph.get_dependency(&"/a.pc".to_string()).unwrap();
    let a_ref = match &entry.content {
        DependencyContent::Node(n) => n,
        _ => panic!("expected a document"),
    };
    let data = empty_data();
    let root = evaluate(a_ref, &"/a.pc".to_string(), &graph, &data, None).unwrap().unwrap();
    let sheet = match &root {
        virt::Node::Element(el) => match &el.children[0] {
            virt::Node::StyleElement(s) => &s.sheet,
            _ => panic!("expected the aggregated style first"),
        },
        _ => panic!("expected the root element"),
    };
    let scope_a = format!("{:x}", crc::crc32::checksum_ieee("/a.pc".as_bytes()));
    let CSSRule::CSSStyleRule(rule) = &sheet.rules[0];
    assert_eq!(rule.selector_text, format!("p[data-pc-{}]", scope_a));
}

#[test]
fn self_at_top_level_is_a_semantic_error() {
    let mut graph = DependencyGraph::new();
    let main_doc = doc(vec![element("self", vec![], vec![])]);
    graph.load_dependency("/main.pc".to_string(), main_doc);
    let entry = graph.get_dependency(&"/main.pc".to_string()).unwrap();
    let doc_ref = match &entry.content {
        DependencyContent::Node(n) => n,
        _ => panic!("expected a document"),
    };
    let data = empty_data();
    let err = evaluate(doc_ref, &"/main.pc".to_string(), &graph, &data, None).unwrap_err();
    assert_eq!(err.kind, ErrorKind::Semantic);
    assert!(err.message.contains("infinite loop"));
}

#[test]
fn self_inside_an_imported_component_reinstantiates_it() {
    // child renders a leaf and, when asked, one <self/> re-instantiation
    let child_doc = doc(vec![
        text("leaf"),
        Node::Block(Block::Conditional(ConditionalBlock::PassFailBlock(PassFailBlock {
            condition: Statement::Reference(Reference { path: vec!["again".to_string()] }),
            body: Some(Box::new(element("self", vec![], vec![]))),
            fail: None,
        }))),
    ]);
    let main_doc = doc(vec![
        import_el("child", "/child.pc"),
        element("child", vec![kv("again", "yes")], vec![]),
    ]);
    let mut graph = DependencyGraph::new();
    graph.load_dependency("/child.pc".to_string(), child_doc);
    graph.load_dependency("/main.pc".to_string(), main_doc);
    let entry = graph.get_dependency(&"/main.pc".to_string()).unwrap();
    let doc_ref = match &entry.content {
        DependencyContent::Node(n) => n,
        _ => panic!("expected a document"),
    };
    let data = empty_data();
    let root = evaluate(doc_ref, &"/main.pc".to_string(), &graph, &data, None).unwrap();
    // two "leaf" texts: the instance and its single re-instantiation
    fn count_leaves(n: &virt::Node) -> usize {
        match n {
            virt::Node::Text(t) => {
                if t.value == "leaf" {
                    1
                } else {
                    0
                }
            },
            virt::Node::Element(el) => el.children.iter().map(count_leaves).sum(),
            virt::Node::Fragment(f) => f.children.iter().map(count_leaves).sum(),
            _ => 0,
        }
    }
    assert_eq!(count_leaves(&root.unwrap()), 2);
}

#[test]
fn updating_an_imported_file_reevaluates_its_dependents() {
    let mut engine = Engine::new();
    engine
        .update_virtual_file_content("/b.pc".to_string(), doc(vec![text("b1")]))
        .unwrap();
    let first = engine.drain_events();
    assert_eq!(first.len(), 1);
    let a_doc = doc(vec![import_el("b-comp", "./b.pc"), element("b-comp", vec![], vec![])]);
    engine.update_virtual_file_content("/a.pc".to_string(), a_doc).unwrap();
    let second = engine.drain_events();
    assert_eq!(second.len(), 1);
    // editing b re-evaluates b and then a, in dependent order
    engine
        .update_virtual_file_content("/b.pc".to_string(), doc(vec![text("b2")]))
        .unwrap();
    let events = engine.drain_events();
    assert_eq!(events.len(), 2);
    let paths: Vec<String> = events
        .iter()
        .map(|e| {
            let EngineEvent::Evaluated(ev) = e;
            ev.file_path.clone()
        })
        .collect();
    assert_eq!(paths, vec!["/b.pc".to_string(), "/a.pc".to_string()]);
    // and the re-evaluated importer carries the new content
    let EngineEvent::Evaluated(ev) = &events[1];
    fn has_text(n: &virt::Node, needle: &str) -> bool {
        match n {
            virt::Node::Text(t) => t.value == needle,
            virt::Node::Element(el) => el.children.iter().any(|c| has_text(c, needle)),
            virt::Node::Fragment(f) => f.children.iter().any(|c| has_text(c, needle)),
            _ => false,
        }
    }
    assert!(has_text(ev.node.as_ref().unwrap(), "b2"));
    assert!(!has_text(ev.node.as_ref().unwrap(), "b1"));
}

#[test]
fn loading_an_unknown_uri_is_a_resolution_error() {
    let mut engine = Engine::new();
    let err = engine.load("/missing.pc".to_string()).unwrap_err();
    assert_eq!(err.kind, ErrorKind::Resolution);
    assert_eq!(engine.drain_events().len(), 0);
}

#[test]
fn unload_is_a_placeholder_that_changes_nothing() {
    let mut engine = Engine::new();
    engine
        .update_virtual_file_content("/b.pc".to_string(), doc(vec![text("b")]))
        .unwrap();
    engine.unload("/b.pc".to_string());
    assert_eq!(engine.dependency_graph.dependencies.len(), 1);
    assert_eq!(engine.drain_events().len(), 1);
}

#[test]
fn named_parts_render_when_instantiated() {
    // a document declares a part and instantiates it by name
    let part_decl = element("part", vec![kv("id", "greeting")], vec![text("hi")]);
    let main_doc = doc(vec![part_decl, element("greeting", vec![], vec![])]);
    let mut graph = DependencyGraph::new();
    graph.load_dependency("/p.pc".to_string(), main_doc);
    let entry = graph.get_dependency(&"/p.pc".to_string()).unwrap();
    let doc_ref = match &entry.content {
        DependencyContent::Node(n) => n,
        _ => panic!("expected a document"),
    };
    let data = empty_data();
    let root = evaluate(doc_ref, &"/p.pc".to_string(), &graph, &data, None).unwrap().unwrap();
    fn has_text(n: &virt::Node, needle: &str) -> bool {
        match n {
            virt::Node::Text(t) => t.value == needle,
            virt::Node::Element(el) => el.children.iter().any(|c| has_text(c, needle)),
            virt::Node::Fragment(f) => f.children.iter().any(|c| has_text(c, needle)),
            _ => false,
        }
    }
    assert!(has_text(&root, "hi"));
}
