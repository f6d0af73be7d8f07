//! Parsed document shape: the tagged unions for nodes, attributes and
//! blocks, together with the accessors the runtime dispatches on.

use vstd::prelude::*;
use crate::base::Location;
use crate::css_ast::Sheet;
use crate::js_ast::Statement;
use crate::text::str_eq;

verus! {

/// A run of literal text, or the body of a comment.
pub struct ValueObject {
    pub value: String,
}

/// A literal attribute value, written in quotes.
pub struct AttributeStringValue {
    pub value: String,
}

/// The value of a key-value attribute: a literal string or an embedded
/// expression.
pub enum AttributeValue {
    Str(AttributeStringValue),
    Slot(Statement),
}

/// `{expression}` written in attribute position: its name is derived from
/// the referenced identifier.
pub struct ShorthandAttribute {
    pub reference: Statement,
}

/// `name` or `name=value`.
pub struct KeyValueAttribute {
    pub name: String,
    pub value: Option<AttributeValue>,
}

/// One attribute of an element.
pub enum Attribute {
    ShorthandAttribute(ShorthandAttribute),
    KeyValueAttribute(KeyValueAttribute),
}

/// One element: tag, attributes, children, and where it stands in the
/// source text.
pub struct Element {
    pub tag_name: String,
    pub attributes: Vec<Attribute>,
    pub children: Vec<Node>,
    pub location: Location,
    pub open_tag_location: Location,
}

/// A `<style>` element with its parsed sheet.
pub struct StyleElement {
    pub attributes: Vec<Attribute>,
    pub sheet: Sheet,
}

/// A sequence of sibling nodes with no element of its own.
pub struct Fragment {
    pub children: Vec<Node>,
}

/// An `{#if}` / `{/else}` chain link that carries a condition.
pub struct PassFailBlock {
    pub condition: Statement,
    pub body: Option<Box<Node>>,
    pub fail: Option<Box<ConditionalBlock>>,
}

/// The unconditional tail of an `{#if}` chain.
pub struct FinalBlock {
    pub body: Option<Box<Node>>,
}

/// One link of a conditional chain.
pub enum ConditionalBlock {
    PassFailBlock(PassFailBlock),
    FinalBlock(FinalBlock),
}

/// `{#each source as value, key}`.
pub struct EachBlock {
    pub source: Statement,
    pub value_name: String,
    pub key_name: Option<String>,
    pub body: Option<Box<Node>>,
}

/// A dynamic block.
pub enum Block {
    Conditional(ConditionalBlock),
    Each(EachBlock),
}

/// One parsed document node.
pub enum Node {
    Text(ValueObject),
    Comment(ValueObject),
    Element(Element),
    Fragment(Fragment),
    StyleElement(StyleElement),
    Slot(Statement),
    Block(Block),
}

/// One attribute read back as source text.
pub open spec fn attr_text(a: Attribute) -> Seq<char> {
    match a {
        Attribute::ShorthandAttribute(sh) => "{"@ + crate::js_ast::stmt_text(sh.reference) + "}"@,
        Attribute::KeyValueAttribute(kv) => kv.name@ + (match kv.value {
            None => Seq::<char>::empty(),
            Some(AttributeValue::Str(st)) => "=\""@ + st.value@ + "\""@,
            Some(AttributeValue::Slot(stmt)) => "={"@ + crate::js_ast::stmt_text(stmt) + "}"@,
        }),
    }
}

/// The attributes from `i` on, each preceded by one space.
pub open spec fn attrs_text(attrs: Seq<Attribute>, i: int) -> Seq<char>
    decreases attrs.len() - i,
{
    if i < 0 || i >= attrs.len() {
        Seq::empty()
    } else {
        " "@ + attr_text(attrs[i]) + attrs_text(attrs, i + 1)
    }
}

/// Render one attribute back as source text.
fn render_attribute(a: &Attribute) -> (r: String)
    ensures
        r@ == attr_text(*a),
{
    match a {
        Attribute::ShorthandAttribute(sh) => {
            let mut out = "{".to_owned();
            let inner = crate::js_ast::render_statement(&sh.reference);
            out.append(inner.as_str());
            out.append("}");
            out
        },
        Attribute::KeyValueAttribute(kv) => {
            let mut out = kv.name.clone();
            match &kv.value {
                None => {
                    proof {
                        assert(out@ =~= attr_text(*a));
                    }
                },
                Some(AttributeValue::Str(st)) => {
                    out.append("=\"");
                    out.append(st.value.as_str());
                    out.append("\"");
                },
                Some(AttributeValue::Slot(stmt)) => {
                    out.append("={");
                    let inner = crate::js_ast::render_statement(stmt);
                    out.append(inner.as_str());
                    out.append("}");
                },
            }
            out
        },
    }
}

/// Render an attribute list back as source text, one leading space per
/// attribute.
pub fn fmt_attributes(attributes: &Vec<Attribute>) -> (r: String)
    ensures
        r@ == attrs_text(attributes@, 0),
{
    let mut out = String::new();
    let ghost full = attrs_text(attributes@, 0);
    proof {
        assert(out@ + attrs_text(attributes@, 0) =~= full);
    }
    let mut i: usize = 0;
    while i < attributes.len()
        invariant
            0 <= i <= attributes@.len(),
            out@ + attrs_text(attributes@, i as int) == full,
            full == attrs_text(attributes@, 0),
        decreases attributes@.len() - i,
    {
        let ghost pre = out@;
        out.append(" ");
        let rendered = render_attribute(&attributes[i]);
        out.append(rendered.as_str());
        proof {
            assert(out@ + attrs_text(attributes@, i + 1) =~= pre + attrs_text(
                attributes@,
                i as int,
            ));
        }
        i += 1;
    }
    proof {
        assert(attrs_text(attributes@, attributes@.len() as int) =~= Seq::<char>::empty());
        assert(out@ =~= out@ + attrs_text(attributes@, attributes@.len() as int));
    }
    out
}

/// Render an opening tag with its attributes.
pub fn fmt_start_tag(tag_name: &String, attributes: &Vec<Attribute>) -> (r: String)
    ensures
        r@ == "<"@ + tag_name@ + attrs_text(attributes@, 0) + ">"@,
{
    let mut out = "<".to_owned();
    out.append(tag_name.as_str());
    let attrs = fmt_attributes(attributes);
    out.append(attrs.as_str());
    out.append(">");
    out
}

/// Render a closing tag.
pub fn fmt_end_tag(tag_name: &String) -> (r: String)
    ensures
        r@ == "</"@ + tag_name@ + ">"@,
{
    let mut out = "</".to_owned();
    out.append(tag_name.as_str());
    out.append(">");
    out
}

impl ShorthandAttribute {
    /// The derived name of a shorthand attribute: the single segment of
    /// its reference. A longer path (or any other expression) has no
    /// derivable name.
    pub fn get_name(&self) -> (r: Result<&String, &'static str>)
        ensures
            match shorthand_name(self.reference) {
                Some(name) => r is Ok && r->Ok_0@ == name,
                None => r is Err,
            },
    {
        match &self.reference {
            Statement::Reference(reference) => {
                if reference.path.len() == 1 {
                    Ok(&reference.path[0])
                } else {
                    Err("Unexpected Expression")
                }
            },
            _ => Err("Unexpected Expression"),
        }
    }
}

/// The derived name of a shorthand attribute, when one exists.
pub open spec fn shorthand_name(reference: Statement) -> Option<Seq<char>> {
    match reference {
        Statement::Reference(r) => if r.path@.len() == 1 {
            Some(r.path@[0]@)
        } else {
            None
        },
        _ => None,
    }
}

/// The children of a node that can carry children at its root.
pub open spec fn children_of(expr: Node) -> Option<Seq<Node>> {
    match expr {
        Node::Element(root) => Some(root.children@),
        Node::Fragment(root) => Some(root.children@),
        _ => None,
    }
}

pub fn get_children<'a>(expr: &'a Node) -> (r: Option<&'a Vec<Node>>)
    ensures
        match children_of(*expr) {
            Some(cs) => r is Some && r->0@ == cs,
            None => r is None,
        },
{
    match expr {
        Node::Element(root) => Some(&root.children),
        Node::Fragment(root) => Some(&root.children),
        _ => None,
    }
}

/// The first key-value attribute carrying `name`, if any, as an index into
/// the attribute list.
pub open spec fn attr_index(name: Seq<char>, attrs: Seq<Attribute>, i: int) -> Option<int>
    decreases attrs.len() - i,
{
    if i < 0 || i >= attrs.len() {
        None
    } else {
        match attrs[i] {
            Attribute::KeyValueAttribute(kv) => if kv.name@ == name {
                Some(i)
            } else {
                attr_index(name, attrs, i + 1)
            },
            _ => attr_index(name, attrs, i + 1),
        }
    }
}

pub fn get_attribute<'a, 'b>(name: &'b str, element: &'a Element) -> (r: Option<&'a Attribute>)
    ensures
        match attr_index(name@, element.attributes@, 0) {
            Some(i) => r is Some && *r->0 == element.attributes@[i],
            None => r is None,
        },
{
    let mut i: usize = 0;
    while i < element.attributes.len()
        invariant
            0 <= i <= element.attributes@.len(),
            attr_index(name@, element.attributes@, 0) == attr_index(
                name@,
                element.attributes@,
                i as int,
            ),
        decreases element.attributes@.len() - i,
    {
        match &element.attributes[i] {
            Attribute::KeyValueAttribute(attr) => {
                if str_eq(attr.name.as_str(), name) {
                    return Some(&element.attributes[i]);
                }
            },
            _ => {},
        }
        i += 1;
    }
    None
}

/// The literal string value of the first `name` attribute, when that
/// attribute exists and carries a literal value.
pub open spec fn attr_value_of(name: Seq<char>, element: Element) -> Option<Seq<char>> {
    match attr_index(name, element.attributes@, 0) {
        Some(i) => match element.attributes@[i] {
            Attribute::KeyValueAttribute(kv) => match kv.value {
                Some(AttributeValue::Str(st)) => Some(st.value@),
                _ => None,
            },
            _ => None,
        },
        None => None,
    }
}

pub fn get_attribute_value<'a, 'b>(name: &'b str, element: &'a Element) -> (r: Option<&'a String>)
    ensures
        match attr_value_of(name@, *element) {
            Some(v) => r is Some && r->0@ == v,
            None => r is None,
        },
{
    let attr = get_attribute(name, element);
    if let Some(att) = attr {
        if let Attribute::KeyValueAttribute(kv_attribute) = att {
            if let Some(expr) = &kv_attribute.value {
                if let AttributeValue::Str(st) = expr {
                    return Some(&st.value);
                }
            }
        }
    }
    None
}

/// Whether an element declares an import: an `import` tag with a `src`
/// attribute.
pub open spec fn is_import(el: Element) -> bool {
    el.tag_name@ == "import"@ && attr_value_of("src"@, el) is Some
}

/// The import declarations among the root's children, in source order.
pub open spec fn imports_from(cs: Seq<Node>, i: int) -> Seq<Element>
    decreases cs.len() - i,
{
    if i < 0 || i >= cs.len() {
        Seq::empty()
    } else {
        match cs[i] {
            Node::Element(el) => if is_import(el) {
                seq![el] + imports_from(cs, i + 1)
            } else {
                imports_from(cs, i + 1)
            },
            _ => imports_from(cs, i + 1),
        }
    }
}

/// Everything `imports_from` collects is an import declaration.
pub proof fn lemma_imports_are_imports(cs: Seq<Node>, i: int)
    ensures
        forall|j: int|
            0 <= j < imports_from(cs, i).len() ==> is_import(#[trigger] imports_from(cs, i)[j]),
    decreases cs.len() - i,
{
    if 0 <= i < cs.len() {
        lemma_imports_are_imports(cs, i + 1);
        match cs[i] {
            Node::Element(el) => {
                if is_import(el) {
                    assert(imports_from(cs, i) == seq![el] + imports_from(cs, i + 1));
                    assert forall|j: int| 0 <= j < imports_from(cs, i).len() implies is_import(
                        imports_from(cs, i)[j],
                    ) by {
                        if j > 0 {
                            assert(imports_from(cs, i)[j] == imports_from(cs, i + 1)[j - 1]);
                        }
                    }
                }
            },
            _ => {},
        }
    }
}

pub open spec fn imports_of(root: Node) -> Seq<Element> {
    match children_of(root) {
        Some(cs) => imports_from(cs, 0),
        None => Seq::empty(),
    }
}

/// Everything `imports_of` collects is an import declaration.
pub proof fn lemma_imports_of(root: Node)
    ensures
        forall|j: int|
            0 <= j < imports_of(root).len() ==> is_import(#[trigger] imports_of(root)[j]),
{
    match children_of(root) {
        Some(cs) => lemma_imports_are_imports(cs, 0),
        None => {},
    }
}

/// The elements a list of borrowed elements points at, in order.
pub open spec fn deref_elements(s: Seq<&Element>) -> Seq<Element> {
    Seq::new(s.len(), |i: int| *s[i])
}

pub fn get_imports<'a>(root_expr: &'a Node) -> (r: Vec<&'a Element>)
    ensures
        deref_elements(r@) == imports_of(*root_expr),
{
    let mut imports: Vec<&'a Element> = Vec::new();
    let children = get_children(root_expr);
    if let Some(children) = children {
        let ghost cs = children@;
        let mut i: usize = 0;
        while i < children.len()
            invariant
                0 <= i <= cs.len(),
                children@ == cs,
                deref_elements(imports@) + imports_from(cs, i as int) == imports_from(cs, 0),
            decreases cs.len() - i,
        {
            let ghost pre = imports@;
            let child = &children[i];
            match child {
                Node::Element(element) => {
                    let is_imp = str_eq(element.tag_name.as_str(), "import")
                        && get_attribute_value("src", element).is_some();
                    if is_imp {
                        assert(is_import(cs[i as int]->Element_0));
                        imports.push(element);
                        proof {
                            assert(imports_from(cs, i as int) == seq![*element] + imports_from(
                                cs,
                                i + 1,
                            ));
                            assert(deref_elements(imports@) =~= deref_elements(pre) + seq![
                                *element,
                            ]);
                            assert(deref_elements(imports@) + imports_from(cs, i + 1)
                                =~= deref_elements(pre) + imports_from(cs, i as int));
                        }
                    } else {
                        assert(!is_import(cs[i as int]->Element_0));
                    }
                },
                _ => {},
            }
            i += 1;
        }
        proof {
            assert(imports_from(cs, cs.len() as int) =~= Seq::<Element>::empty());
            assert(deref_elements(imports@) =~= deref_elements(imports@) + imports_from(
                cs,
                cs.len() as int,
            ));
        }
    } else {
        proof {
            assert(deref_elements(imports@) =~= Seq::<Element>::empty());
        }
    }
    imports
}

/// The `id` attributes of the import declarations, in source order.
pub open spec fn import_ids_from(imps: Seq<Element>, i: int) -> Seq<Seq<char>>
    decreases imps.len() - i,
{
    if i < 0 || i >= imps.len() {
        Seq::empty()
    } else {
        match attr_value_of("id"@, imps[i]) {
            Some(id) => seq![id] + import_ids_from(imps, i + 1),
            None => import_ids_from(imps, i + 1),
        }
    }
}

pub open spec fn import_ids_of(root: Node) -> Seq<Seq<char>> {
    import_ids_from(imports_of(root), 0)
}

/// The names a list of owned strings reads as, in order.
pub open spec fn str_views(s: Seq<String>) -> Seq<Seq<char>> {
    Seq::new(s.len(), |i: int| s[i]@)
}

/// Membership by characters agrees with membership of the views.
pub proof fn lemma_str_views_contains(vs: Seq<String>, x: Seq<char>)
    ensures
        str_views(vs).contains(x) == crate::text::seq_contains_str(vs, x),
{
    if crate::text::seq_contains_str(vs, x) {
        let i = choose|i: int| 0 <= i < vs.len() && vs[i]@ == x;
        assert(str_views(vs)[i] == x);
    }
    if str_views(vs).contains(x) {
        let i = choose|i: int| 0 <= i < str_views(vs).len() && str_views(vs)[i] == x;
        assert(vs[i]@ == x);
    }
}

pub fn get_import_ids(root_expr: &Node) -> (r: Vec<String>)
    ensures
        str_views(r@) == import_ids_of(*root_expr),
{
    let imports = get_imports(root_expr);
    let ghost imps = imports_of(*root_expr);
    let mut ids: Vec<String> = Vec::new();
    let mut i: usize = 0;
    while i < imports.len()
        invariant
            0 <= i <= imps.len(),
            imports@.len() == imps.len(),
            deref_elements(imports@) == imps,
            str_views(ids@) + import_ids_from(imps, i as int) == import_ids_from(imps, 0),
        decreases imps.len() - i,
    {
        let ghost pre = ids@;
        assert(*imports@[i as int] == imps[i as int]);
        if let Some(id) = get_attribute_value("id", imports[i]) {
            ids.push(id.clone());
            proof {
                assert(import_ids_from(imps, i as int) == seq![id@] + import_ids_from(
                    imps,
                    i + 1,
                ));
                assert(str_views(ids@) =~= str_views(pre) + seq![id@]);
                assert(str_views(ids@) + import_ids_from(imps, i + 1) =~= str_views(pre)
                    + import_ids_from(imps, i as int));
            }
        }
        i += 1;
    }
    proof {
        assert(import_ids_from(imps, imps.len() as int) =~= Seq::<Seq<char>>::empty());
        assert(str_views(ids@) =~= str_views(ids@) + import_ids_from(imps, imps.len() as int));
    }
    ids
}

/// Whether an element declares a named part: a `part` tag with an `id`.
pub open spec fn is_part(el: Element) -> bool {
    el.tag_name@ == "part"@ && attr_value_of("id"@, el) is Some
}

/// The `id` attributes of the root's part declarations, in source order.
pub open spec fn part_ids_from(cs: Seq<Node>, i: int) -> Seq<Seq<char>>
    decreases cs.len() - i,
{
    if i < 0 || i >= cs.len() {
        Seq::empty()
    } else {
        match cs[i] {
            Node::Element(el) => if is_part(el) {
                seq![attr_value_of("id"@, el)->0] + part_ids_from(cs, i + 1)
            } else {
                part_ids_from(cs, i + 1)
            },
            _ => part_ids_from(cs, i + 1),
        }
    }
}

pub open spec fn part_ids_of(root: Node) -> Seq<Seq<char>> {
    match children_of(root) {
        Some(cs) => part_ids_from(cs, 0),
        None => Seq::empty(),
    }
}

pub fn get_part_ids(root_expr: &Node) -> (r: Vec<String>)
    ensures
        str_views(r@) == part_ids_of(*root_expr),
{
    let mut ids: Vec<String> = Vec::new();
    let children = get_children(root_expr);
    if let Some(children) = children {
        let ghost cs = children@;
        let mut i: usize = 0;
        while i < children.len()
            invariant
                0 <= i <= cs.len(),
                children@ == cs,
                str_views(ids@) + part_ids_from(cs, i as int) == part_ids_from(cs, 0),
            decreases cs.len() - i,
        {
            let ghost pre = ids@;
            let child = &children[i];
            match child {
                Node::Element(element) => {
                    if str_eq(element.tag_name.as_str(), "part") {
                        if let Some(id) = get_attribute_value("id", element) {
                            assert(is_part(cs[i as int]->Element_0));
                            ids.push(id.clone());
                            proof {
                                assert(part_ids_from(cs, i as int) == seq![id@] + part_ids_from(
                                    cs,
                                    i + 1,
                                ));
                                assert(str_views(ids@) =~= str_views(pre) + seq![id@]);
                                assert(str_views(ids@) + part_ids_from(cs, i + 1) =~= str_views(
                                    pre,
                                ) + part_ids_from(cs, i as int));
                            }
                        } else {
                            assert(!is_part(cs[i as int]->Element_0));
                        }
                    } else {
                        assert(!is_part(cs[i as int]->Element_0));
                    }
                },
                _ => {},
            }
            i += 1;
        }
        proof {
            assert(part_ids_from(cs, cs.len() as int) =~= Seq::<Seq<char>>::empty());
            assert(str_views(ids@) =~= str_views(ids@) + part_ids_from(cs, cs.len() as int));
        }
    } else {
        proof {
            assert(str_views(ids@) =~= Seq::<Seq<char>>::empty());
        }
    }
    ids
}

/// The first part declaration among the root's children whose `id` reads
/// as `id`, as an index.
pub open spec fn part_index(id: Seq<char>, cs: Seq<Node>, i: int) -> Option<int>
    decreases cs.len() - i,
{
    if i < 0 || i >= cs.len() {
        None
    } else {
        match cs[i] {
            Node::Element(el) => if is_part(el) && attr_value_of("id"@, el)->0 == id {
                Some(i)
            } else {
                part_index(id, cs, i + 1)
            },
            _ => part_index(id, cs, i + 1),
        }
    }
}

/// The named part of a document root, when it exists.
pub open spec fn part_of(id: Seq<char>, root: Node) -> Option<Element> {
    match children_of(root) {
        Some(cs) => match part_index(id, cs, 0) {
            Some(i) => Some(cs[i]->Element_0),
            None => None,
        },
        None => None,
    }
}

pub fn get_part_by_id<'a>(id: &String, root_expr: &'a Node) -> (r: Option<&'a Element>)
    ensures
        match part_of(id@, *root_expr) {
            Some(el) => r is Some && *r->0 == el,
            None => r is None,
        },
{
    let children = get_children(root_expr);
    if let Some(children) = children {
        let ghost cs = children@;
        let mut i: usize = 0;
        while i < children.len()
            invariant
                0 <= i <= cs.len(),
                children@ == cs,
                children_of(*root_expr) == Some(cs),
                part_index(id@, cs, 0) == part_index(id@, cs, i as int),
            decreases cs.len() - i,
        {
            match &children[i] {
                Node::Element(element) => {
                    if str_eq(element.tag_name.as_str(), "part") {
                        if let Some(pid) = get_attribute_value("id", element) {
                            if str_eq(pid.as_str(), id.as_str()) {
                                proof {
                                    assert(is_part(cs[i as int]->Element_0));
                                    assert(part_index(id@, cs, i as int) == Some(i as int));
                                    assert(cs[i as int]->Element_0 == *element);
                                }
                                return Some(element);
                            }
                        }
                    }
                    assert(part_index(id@, cs, i as int) == part_index(id@, cs, i + 1));
                },
                _ => {},
            }
            i += 1;
        }
    }
    None
}

} // verus!
