use vstd::prelude::*;
use vstd::string::StringExecFns;
use crate::errors::ParseError;

verus! {

/// One element of an XML document: its tag name, its attributes and all of
/// its child nodes, each in document order.
#[derive(Debug)]
pub struct XmlElement {
    pub tag: String,
    pub attributes: Vec<(String, String)>,
    pub children: Vec<XmlChild>,
}

/// One child node of an element. Nodes other than elements and text
/// (comments, processing instructions) carry nothing the capabilities
/// reader looks at.
#[derive(Debug)]
pub enum XmlChild {
    Element(XmlElement),
    Text(String),
    Other,
}

#[verifier::external_type_specification]
#[verifier::external_body]
pub struct ExNode<'a, 'input: 'a>(roxmltree::Node<'a, 'input>);

/// Relies on roxmltree's node accessors — `node_type`, `tag_name`,
/// `attributes`, `text`, `children` — to copy one parsed node, and whatever
/// stands below it, into the crate's own tree type. Only `parse_xml` below
/// reaches it; what the copy holds is pinned there through `xml_root_of`.
#[verifier::external_body]
fn node_to_child(n: roxmltree::Node) -> XmlChild {
    match n.node_type() {
        roxmltree::NodeType::Element => XmlChild::Element(XmlElement {
            tag: n.tag_name().name().to_string(),
            attributes: n
                .attributes()
                .map(|a| (a.name().to_string(), a.value().to_string()))
                .collect(),
            children: n.children().map(node_to_child).collect(),
        }),
        roxmltree::NodeType::Text => XmlChild::Text(n.text().unwrap_or("").to_string()),
        _ => XmlChild::Other,
    }
}

/// What the XML reader yields for a given document text: the root element,
/// copied into the crate's tree type, or nothing when the text is not
/// well-formed XML. The parse is a function of the text alone.
pub uninterp spec fn xml_root_of(text: Seq<char>) -> Option<XmlElement>;

/// Relies on `roxmltree::Document::parse`: it accepts exactly the well-formed
/// documents, its result is a function of the text alone, and
/// `Document::root_element` is the document's single root element.
#[verifier::external_body]
pub fn parse_xml(text: &str) -> (r: Result<XmlElement, ParseError>)
    ensures
        r == (match xml_root_of(text@) {
            Some(root) => Ok::<XmlElement, ParseError>(root),
            None => Err::<XmlElement, ParseError>(ParseError::Syntax),
        }),
{
    match roxmltree::Document::parse(text) {
        Ok(doc) => match node_to_child(doc.root_element()) {
            XmlChild::Element(e) => Ok(e),
            _ => Err(ParseError::Syntax),
        },
        Err(_) => Err(ParseError::Syntax),
    }
}

// ---------------------------------------------------------------------------
// Walking the tree
// ---------------------------------------------------------------------------

/// The first child of `cs` that is an element with tag `name`.
pub open spec fn find_child_elem(cs: Seq<XmlChild>, name: Seq<char>) -> Option<XmlElement>
    decreases cs.len(),
{
    if cs.len() == 0 {
        None
    } else {
        match cs[0] {
            XmlChild::Element(e) => if e.tag@ == name {
                Some(e)
            } else {
                find_child_elem(cs.drop_first(), name)
            },
            _ => find_child_elem(cs.drop_first(), name),
        }
    }
}

/// Finds the first child element of `e` with tag `name`.
pub fn find_child_element<'a>(e: &'a XmlElement, name: &String) -> (r: Option<&'a XmlElement>)
    ensures
        r matches Some(c) ==> find_child_elem(e.children@, name@) == Some(*c),
        r is None ==> find_child_elem(e.children@, name@) is None,
{
    let cs = &e.children;
    let mut i: usize = 0;
    proof {
        assert(cs@.skip(0) =~= cs@);
    }
    while i < cs.len()
        invariant
            0 <= i <= cs@.len(),
            cs@ == e.children@,
            find_child_elem(cs@.skip(i as int), name@) == find_child_elem(cs@, name@),
        decreases cs@.len() - i,
    {
        proof {
            assert(cs@.skip(i as int)[0] == cs@[i as int]);
            assert(cs@.skip(i as int).drop_first() =~= cs@.skip(i + 1));
        }
        match &cs[i] {
            XmlChild::Element(el) => {
                if el.tag == *name {
                    proof {
                        assert(find_child_elem(cs@.skip(i as int), name@) == Some(*el));
                    }
                    return Some(el);
                }
            },
            _ => {},
        }
        i = i + 1;
    }
    proof {
        assert(cs@.skip(cs@.len() as int) =~= Seq::<XmlChild>::empty());
    }
    None
}

/// The first element with tag `name` among `e` and its descendants, in
/// document order.
pub open spec fn find_in_element(e: XmlElement, name: Seq<char>) -> Option<XmlElement>
    decreases e, 0int,
{
    if e.tag@ == name {
        Some(e)
    } else {
        find_in_children(e.children, 0, name)
    }
}

/// The first element with tag `name` within `cs[i..]` and their subtrees.
pub open spec fn find_in_children(cs: Vec<XmlChild>, i: int, name: Seq<char>) -> Option<
    XmlElement,
>
    decreases cs, cs@.len() - i,
{
    if i < 0 || i >= cs@.len() {
        None
    } else {
        match cs[i] {
            XmlChild::Element(el) => match find_in_element(el, name) {
                Some(f) => Some(f),
                None => find_in_children(cs, i + 1, name),
            },
            _ => find_in_children(cs, i + 1, name),
        }
    }
}

/// Finds the first element with tag `name` among `e` and its descendants.
pub fn find_descendant<'a>(e: &'a XmlElement, name: &String) -> (r: Option<&'a XmlElement>)
    ensures
        r matches Some(d) ==> find_in_element(*e, name@) == Some(*d),
        r is None ==> find_in_element(*e, name@) is None,
    decreases *e, 0int,
{
    if e.tag == *name {
        Some(e)
    } else {
        find_descendant_from(&e.children, 0, name)
    }
}

fn find_descendant_from<'a>(cs: &'a Vec<XmlChild>, i: usize, name: &String) -> (r: Option<
    &'a XmlElement,
>)
    requires
        i <= cs@.len(),
    ensures
        r matches Some(d) ==> find_in_children(*cs, i as int, name@) == Some(*d),
        r is None ==> find_in_children(*cs, i as int, name@) is None,
    decreases *cs, cs@.len() - i,
{
    if i == cs.len() {
        None
    } else {
        match &cs[i] {
            XmlChild::Element(el) => match find_descendant(el, name) {
                Some(d) => Some(d),
                None => find_descendant_from(cs, i + 1, name),
            },
            _ => find_descendant_from(cs, i + 1, name),
        }
    }
}

/// The text directly inside an element: the value of its first child, when
/// that child is a text node.
pub open spec fn spec_element_text(e: XmlElement) -> Option<Seq<char>> {
    if e.children@.len() > 0 && e.children@[0] is Text {
        Some(e.children@[0]->Text_0@)
    } else {
        None
    }
}

/// The text directly inside `e`, if its first child is a text node.
pub fn element_text<'a>(e: &'a XmlElement) -> (r: Option<&'a String>)
    ensures
        r matches Some(t) ==> spec_element_text(*e) == Some(t@),
        r is None ==> spec_element_text(*e) is None,
{
    if e.children.len() > 0 {
        match &e.children[0] {
            XmlChild::Text(t) => Some(t),
            _ => None,
        }
    } else {
        None
    }
}

/// The value of the first attribute of `e` named `name`.
pub open spec fn spec_attr(attrs: Seq<(String, String)>, name: Seq<char>) -> Option<Seq<char>>
    decreases attrs.len(),
{
    if attrs.len() == 0 {
        None
    } else if attrs[0].0@ == name {
        Some(attrs[0].1@)
    } else {
        spec_attr(attrs.drop_first(), name)
    }
}

/// Looks up the first attribute of `e` named `name`.
pub fn attribute_value<'a>(e: &'a XmlElement, name: &String) -> (r: Option<&'a String>)
    ensures
        r matches Some(v) ==> spec_attr(e.attributes@, name@) == Some(v@),
        r is None ==> spec_attr(e.attributes@, name@) is None,
{
    let attrs = &e.attributes;
    let mut i: usize = 0;
    proof {
        assert(attrs@.skip(0) =~= attrs@);
    }
    while i < attrs.len()
        invariant
            0 <= i <= attrs@.len(),
            attrs@ == e.attributes@,
            spec_attr(attrs@.skip(i as int), name@) == spec_attr(attrs@, name@),
        decreases attrs@.len() - i,
    {
        proof {
            assert(attrs@.skip(i as int)[0] == attrs@[i as int]);
            assert(attrs@.skip(i as int).drop_first() =~= attrs@.skip(i + 1));
        }
        if attrs[i].0 == *name {
            proof {
                assert(spec_attr(attrs@.skip(i as int), name@) == Some(attrs@[i as int].1@));
            }
            return Some(&attrs[i].1);
        }
        i = i + 1;
    }
    proof {
        assert(attrs@.skip(attrs@.len() as int) =~= Seq::<(String, String)>::empty());
    }
    None
}

} // verus!
