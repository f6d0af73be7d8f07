// Unit tests for the value model, the embedded-expression evaluation,
// path handling, the accessors over parsed documents, and stylesheet
// scoping.

use paperclip::ast::{get_attribute_value, get_children, get_import_ids, get_part_by_id, Attribute,
    AttributeStringValue, AttributeValue, Element, Fragment, KeyValueAttribute, Node,
    ShorthandAttribute, ValueObject};
use paperclip::base::{is_relative_path, resolve, Location};
use paperclip::css_ast::{Declaration, Sheet, StyleRule};
use paperclip::css_eval;
use paperclip::css_virt::CSSRule;
use paperclip::evaluator::{create_context, evaluate_document_styles, evaluate_previews};
use paperclip::graph::{DependencyContent, DependencyGraph};
use paperclip::ast::{fmt_attributes, fmt_end_tag, fmt_start_tag};
use paperclip::js_ast::{render_statement, Reference, Statement};
use paperclip::js_eval::evaluate_js;
use paperclip::js_virt::{JsArray, JsObject, JsValue};
use paperclip::text::u64_to_string;
use paperclip::virt;

fn loc() -> Location {
    Location { start: 0, end: 0 }
}

fn element(tag: &str, attributes: Vec<Attribute>, children: Vec<Node>) -> Node {
    Node::Element(Element {
        tag_name: tag.to_string(),
        attributes,
        children,
        location: loc(),
        open_tag_location: loc(),
    })
}

fn kv(name: &str, value: &str) -> Attribute {
    Attribute::KeyValueAttribute(KeyValueAttribute {
        name: name.to_string(),
        value: Some(AttributeValue::Str(AttributeStringValue { value: value.to_string() })),
    })
}

#[test]
fn numbers_render_in_decimal() {
    assert_eq!(u64_to_string(0), "0");
    assert_eq!(u64_to_string(7), "7");
    assert_eq!(u64_to_string(120456), "120456");
    assert_eq!(u64_to_string(u64::MAX), "18446744073709551615");
    assert_eq!(JsValue::JsNumber(-42).to_string(), "-42");
    assert_eq!(JsValue::JsNumber(i64::MIN).to_string(), "-9223372036854775808");
}

#[test]
fn values_render_as_text() {
    assert_eq!(JsValue::JsString("hey".to_string()).to_string(), "hey");
    assert_eq!(JsValue::JsBoolean(true).to_string(), "true");
    assert_eq!(JsValue::JsBoolean(false).to_string(), "false");
    assert_eq!(JsValue::JsUndefined.to_string(), "undefined");
    let mut items = JsArray::new();
    items.values.push(JsValue::JsNumber(1));
    items.values.push(JsValue::JsString("x".to_string()));
    assert_eq!(JsValue::JsArray(items).to_string(), "1,x");
    assert_eq!(JsValue::JsObject(JsObject::new()).to_string(), "[object Object]");
}

#[test]
fn truthiness_follows_the_value() {
    assert!(JsValue::JsBoolean(true).truthy());
    assert!(!JsValue::JsBoolean(false).truthy());
    assert!(JsValue::JsNumber(2).truthy());
    assert!(!JsValue::JsNumber(0).truthy());
    assert!(JsValue::JsString("x".to_string()).truthy());
    assert!(!JsValue::JsString("".to_string()).truthy());
    assert!(!JsValue::JsUndefined.truthy());
    assert!(JsValue::JsObject(JsObject::new()).truthy());
}

#[test]
fn references_walk_nested_objects() {
    let mut inner = JsObject::new();
    inner.insert("name".to_string(), JsValue::JsString("deep".to_string()));
    let mut outer = JsObject::new();
    outer.insert("item".to_string(), JsValue::JsObject(inner));
    let data = JsValue::JsObject(outer);
    let found = evaluate_js(
        &Statement::Reference(Reference {
            path: vec!["item".to_string(), "name".to_string()],
        }),
        &data,
    );
    assert_eq!(found.to_string(), "deep");
    let missing = evaluate_js(
        &Statement::Reference(Reference {
            path: vec!["item".to_string(), "other".to_string()],
        }),
        &data,
    );
    assert_eq!(missing.to_string(), "undefined");
}

#[test]
fn inserting_twice_replaces_the_binding() {
    let mut obj = JsObject::new();
    obj.insert("k".to_string(), JsValue::JsNumber(1));
    obj.insert("k".to_string(), JsValue::JsNumber(2));
    assert_eq!(obj.values.len(), 1);
    let data = JsValue::JsObject(obj);
    let v = evaluate_js(
        &Statement::Reference(Reference { path: vec!["k".to_string()] }),
        &data,
    );
    assert_eq!(v.to_string(), "2");
}

#[test]
fn relative_paths_are_recognised() {
    assert!(is_relative_path(&"pic.png".to_string()));
    assert!(is_relative_path(&"./pic.png".to_string()));
    assert!(!is_relative_path(&"/pic.png".to_string()));
    assert!(!is_relative_path(&"https://host/pic.png".to_string()));
}

#[test]
fn relative_paths_resolve_against_the_directory() {
    assert_eq!(resolve(&"/docs/page.pc".to_string(), &"pic.png".to_string()), "/docs/pic.png");
    assert_eq!(resolve(&"/docs/page.pc".to_string(), &"./pic.png".to_string()), "/docs/pic.png");
    assert_eq!(resolve(&"/docs/page.pc".to_string(), &"/abs.png".to_string()), "/abs.png");
    assert_eq!(resolve(&"plain.pc".to_string(), &"pic.png".to_string()), "pic.png");
}

#[test]
fn shorthand_attributes_derive_their_name() {
    let ok = ShorthandAttribute {
        reference: Statement::Reference(Reference { path: vec!["width".to_string()] }),
    };
    assert_eq!(ok.get_name().unwrap().as_str(), "width");
    let too_long = ShorthandAttribute {
        reference: Statement::Reference(Reference {
            path: vec!["a".to_string(), "b".to_string()],
        }),
    };
    assert!(too_long.get_name().is_err());
}

#[test]
fn accessors_find_children_attributes_and_imports() {
    let import_a = element("import", vec![kv("id", "a"), kv("src", "./a.pc")], vec![]);
    let import_unnamed = element("import", vec![kv("src", "./b.pc")], vec![]);
    let div = element("div", vec![kv("title", "t")], vec![]);
    let root = Node::Fragment(Fragment {
        children: vec![import_a, import_unnamed, div],
    });
    assert_eq!(get_children(&root).unwrap().len(), 3);
    let ids = get_import_ids(&root);
    assert_eq!(ids, vec!["a".to_string()]);
    match &get_children(&root).unwrap()[2] {
        Node::Element(el) => {
            assert_eq!(get_attribute_value("title", el).unwrap().as_str(), "t");
            assert!(get_attribute_value("missing", el).is_none());
        },
        _ => panic!("expected an element"),
    }
    let text_node = Node::Text(ValueObject { value: "t".to_string() });
    assert!(get_children(&text_node).is_none());
}

#[test]
fn parts_are_found_by_id() {
    let part = element("part", vec![kv("id", "greet")], vec![]);
    let root = Node::Fragment(Fragment { children: vec![part] });
    assert!(get_part_by_id(&"greet".to_string(), &root).is_some());
    assert!(get_part_by_id(&"other".to_string(), &root).is_none());
}

#[test]
fn stylesheet_rules_are_scoped_to_the_document() {
    let sheet = Sheet {
        rules: vec![StyleRule {
            selector_text: ".button".to_string(),
            declarations: vec![Declaration {
                name: "color".to_string(),
                value: "red".to_string(),
            }],
        }],
    };
    let out = css_eval::evaluate(&sheet, &"/s.pc".to_string(), &"abc123".to_string()).unwrap();
    assert_eq!(out.rules.len(), 1);
    let CSSRule::CSSStyleRule(rule) = &out.rules[0];
    assert_eq!(rule.selector_text, ".button[data-pc-abc123]");
    assert_eq!(rule.style[0].name, "color");
    assert_eq!(rule.style[0].value, "red");
}

#[test]
fn document_styles_collect_only_root_style_elements() {
    let style = Node::StyleElement(paperclip::ast::StyleElement {
        attributes: vec![],
        sheet: Sheet {
            rules: vec![StyleRule {
                selector_text: "p".to_string(),
                declarations: vec![Declaration {
                    name: "margin".to_string(),
                    value: "0".to_string(),
                }],
            }],
        },
    });
    let root = Node::Fragment(Fragment { children: vec![style, element("p", vec![], vec![])] });
    let sheet = evaluate_document_styles(&root, &"/d.pc".to_string()).unwrap();
    assert_eq!(sheet.rules.len(), 1);
    let scope = format!("{:x}", crc::crc32::checksum_ieee("/d.pc".as_bytes()));
    let CSSRule::CSSStyleRule(rule) = &sheet.rules[0];
    assert_eq!(rule.selector_text, format!("p[data-pc-{}]", scope));
}

#[test]
fn tags_and_attributes_render_back_as_source() {
    let attrs = vec![
        kv("title", "t"),
        Attribute::ShorthandAttribute(ShorthandAttribute {
            reference: Statement::Reference(Reference { path: vec!["width".to_string()] }),
        }),
        Attribute::KeyValueAttribute(KeyValueAttribute {
            name: "label".to_string(),
            value: Some(AttributeValue::Slot(Statement::Reference(Reference {
                path: vec!["item".to_string(), "name".to_string()],
            }))),
        }),
        Attribute::KeyValueAttribute(KeyValueAttribute {
            name: "disabled".to_string(),
            value: None,
        }),
    ];
    assert_eq!(
        fmt_attributes(&attrs),
        " title=\"t\" {width} label={item.name} disabled"
    );
    assert_eq!(
        fmt_start_tag(&"div".to_string(), &attrs),
        "<div title=\"t\" {width} label={item.name} disabled>"
    );
    assert_eq!(fmt_end_tag(&"div".to_string()), "</div>");
}

#[test]
fn statements_render_back_as_source() {
    let arr = Statement::ArrayLiteral(vec![
        Statement::NumberLiteral(1),
        Statement::BooleanLiteral(false),
        Statement::StringLiteral("x".to_string()),
    ]);
    assert_eq!(render_statement(&arr), "[1,false,\"x\"]");
}

#[test]
fn previews_instantiate_the_current_document() {
    let the_doc = Node::Fragment(Fragment {
        children: vec![Node::Text(ValueObject { value: "hello".to_string() })],
    });
    let mut graph = DependencyGraph::new();
    graph.load_dependency("/d.pc".to_string(), DependencyContent::Node(the_doc));
    let entry = graph.get_dependency(&"/d.pc".to_string()).unwrap();
    let doc_ref = match &entry.content {
        DependencyContent::Node(n) => n,
        _ => panic!("expected a document"),
    };
    let data = JsValue::JsObject(JsObject::new());
    let uri = "/d.pc".to_string();
    let mut ctx = create_context(doc_ref, &uri, &data, None);
    let previews = vec![element("preview-case", vec![], vec![])];
    let node = evaluate_previews(&previews, &graph, &mut ctx).unwrap().unwrap();
    match node {
        virt::Node::Text(t) => assert_eq!(t.value, "hello"),
        _ => panic!("expected the instantiated text"),
    }
}
