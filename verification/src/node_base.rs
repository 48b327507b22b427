//! What every node kind has: its identity and its descriptive elements.

use crate::elem_type::Visibility;
use crate::error::ParseError;
use crate::node_store::lemma_intern;
use crate::node_store::NodeId;
use crate::node_store::NodeStore;
use crate::node_store::NodeStoreView;
use crate::parse::intern_name;
use crate::parse::interned_name;
use crate::parse::optional_text;
use crate::parse::optional_value;
use crate::parse::read_optional_text;
use crate::xml::attribute_value;
use crate::xml::Element;
use vstd::prelude::*;

verus! {

/// What the attributes of a node element give.
#[derive(Debug, Clone, Copy, PartialEq, Eq, Structural)]
pub struct NodeAttributeBase {
    /// The identifier interned for the `Name` attribute.
    pub id: NodeId,
}

/// What the descriptive child elements of a node give.
#[derive(Debug, PartialEq, Eq)]
pub struct NodeElementBase {
    pub(crate) tooltip: Option<String>,
    pub(crate) description: Option<String>,
    pub(crate) display_name: Option<String>,
    pub(crate) visibility: Visibility,
}

/// The model of a `NodeElementBase`.
pub struct NodeElementBaseView {
    pub tooltip: Option<Seq<char>>,
    pub description: Option<Seq<char>>,
    pub display_name: Option<Seq<char>>,
    pub visibility: Visibility,
}

/// The characters of a text that may be absent.
pub open spec fn text_view(text: Option<String>) -> Option<Seq<char>> {
    match text {
        Some(s) => Some(s@),
        None => None,
    }
}

/// A text that may be absent, as a string slice.
pub fn text_ref(text: &Option<String>) -> (r: Option<&str>)
    ensures
        match r {
            Some(s) => text_view(*text) == Some(s@),
            None => text_view(*text) is None,
        },
{
    match text {
        Some(s) => Some(s.as_str()),
        None => None,
    }
}

impl View for NodeElementBase {
    type V = NodeElementBaseView;

    closed spec fn view(&self) -> NodeElementBaseView {
        NodeElementBaseView {
            tooltip: text_view(self.tooltip),
            description: text_view(self.description),
            display_name: text_view(self.display_name),
            visibility: self.visibility,
        }
    }
}

/// The identity and description of one node, borrowed from the node.
#[derive(Debug, Clone, Copy)]
pub struct NodeBase<'a> {
    attr: &'a NodeAttributeBase,
    elem: &'a NodeElementBase,
}

impl<'a> NodeBase<'a> {
    /// The attribute part.
    pub closed spec fn attr_base(&self) -> NodeAttributeBase {
        *self.attr
    }

    /// The element part.
    pub closed spec fn elem_base(&self) -> NodeElementBaseView {
        self.elem@
    }

    /// Puts the two parts of a node together.
    pub fn new(attr: &'a NodeAttributeBase, elem: &'a NodeElementBase) -> (base: NodeBase<'a>)
        ensures
            base.attr_base() == *attr,
            base.elem_base() == elem@,
    {
        NodeBase { attr, elem }
    }

    /// The identifier of the node.
    pub fn id(&self) -> (id: NodeId)
        ensures
            id == self.attr_base().id,
    {
        self.attr.id
    }

    /// The visibility of the node.
    pub fn visibility(&self) -> (v: Visibility)
        ensures
            v == self.elem_base().visibility,
    {
        self.elem.visibility
    }

    /// The short help text of the node.
    pub fn tooltip(&self) -> (r: Option<&str>)
        ensures
            match r {
                Some(s) => self.elem_base().tooltip == Some(s@),
                None => self.elem_base().tooltip is None,
            },
    {
        text_ref(&self.elem.tooltip)
    }

    /// The description of the node.
    pub fn description(&self) -> (r: Option<&str>)
        ensures
            match r {
                Some(s) => self.elem_base().description == Some(s@),
                None => self.elem_base().description is None,
            },
    {
        text_ref(&self.elem.description)
    }

    /// The name under which the node is shown.
    pub fn display_name(&self) -> (r: Option<&str>)
        ensures
            match r {
                Some(s) => self.elem_base().display_name == Some(s@),
                None => self.elem_base().display_name is None,
            },
    {
        text_ref(&self.elem.display_name)
    }
}

/// The name of the node that `elem` describes: the value of its `Name`
/// attribute, or the empty name if it has none.
pub open spec fn node_name(elem: Element) -> Seq<char> {
    match attribute_value(elem.attributes@, "Name"@) {
        Some(name) => name,
        None => Seq::empty(),
    }
}

/// The attribute part of the node that `elem` describes: the identifier of
/// its `Name` attribute, and the store after interning that name.
pub open spec fn attr_base_of(elem: Element, st: NodeStoreView) -> Result<
    (NodeAttributeBase, NodeStoreView),
    ParseError,
> {
    match attribute_value(elem.attributes@, "Name"@) {
        None => Err(ParseError::MissingAttribute),
        Some(name) => match interned_name(st, name) {
            Ok((id, after)) => Ok((NodeAttributeBase { id }, after)),
            Err(e) => Err(e),
        },
    }
}

/// The element part that the children from `pos` on give, and the index of
/// the first child after it. The children are, each optional and in this
/// order: `ToolTip`, `Description`, `DisplayName`, `Visibility`.
pub open spec fn elem_base_of(children: Seq<Element>, pos: int) -> Result<
    (NodeElementBaseView, int),
    ParseError,
> {
    let (tooltip, at1) = optional_text(children, pos, "ToolTip"@);
    let (description, at2) = optional_text(children, at1, "Description"@);
    let (display_name, at3) = optional_text(children, at2, "DisplayName"@);
    match optional_value(
        children,
        at3,
        "Visibility"@,
        |s: Seq<char>| Visibility::of_text(s),
        Visibility::Beginner,
    ) {
        Ok((visibility, at4)) => Ok(
            (NodeElementBaseView { tooltip, description, display_name, visibility }, at4),
        ),
        Err(e) => Err(e),
    }
}

impl NodeAttributeBase {
    /// Reads the attribute part of a node.
    pub fn parse(elem: &Element, store: &mut NodeStore) -> (r: Result<NodeAttributeBase, ParseError>)
        requires
            old(store).wf(),
        ensures
            final(store).wf(),
            final(store)@.extends(old(store)@),
            match r {
                Ok(base) => attr_base_of(*elem, old(store)@) == Ok::<
                    (NodeAttributeBase, NodeStoreView),
                    ParseError,
                >((base, final(store)@)),
                Err(e) => attr_base_of(*elem, old(store)@) == Err::<
                    (NodeAttributeBase, NodeStoreView),
                    ParseError,
                >(e),
            },
            r matches Ok(base) ==> final(store)@.id_of(node_name(*elem)) == Some(base.id)
                && final(store)@.names.contains(node_name(*elem)),
    {
        match elem.attribute("Name") {
            None => Err(ParseError::MissingAttribute),
            Some(name) => match intern_name(store, name) {
                Ok(id) => {
                    proof {
                        lemma_intern(old(store)@, name@);
                        assert(store@.names[id.index() as int] == name@);
                    }
                    Ok(NodeAttributeBase { id })
                },
                Err(e) => Err(e),
            },
        }
    }
}

impl NodeElementBase {
    /// Reads the element part of a node from the children of `elem` from
    /// `pos` on.
    pub fn parse(elem: &Element, pos: usize) -> (r: Result<(NodeElementBase, usize), ParseError>)
        requires
            pos <= elem.children@.len(),
        ensures
            match r {
                Ok((base, end)) => elem_base_of(elem.children@, pos as int) == Ok::<
                    (NodeElementBaseView, int),
                    ParseError,
                >((base@, end as int)) && pos <= end <= elem.children@.len(),
                Err(e) => elem_base_of(elem.children@, pos as int) == Err::<
                    (NodeElementBaseView, int),
                    ParseError,
                >(e),
            },
    {
        let (tooltip, at1) = read_optional_text(elem, pos, "ToolTip");
        let (description, at2) = read_optional_text(elem, at1, "Description");
        let (display_name, at3) = read_optional_text(elem, at2, "DisplayName");
        let (visibility, at4) = if elem.child_is(at3, "Visibility") {
            match Visibility::from_text(elem.children[at3].trimmed_text()) {
                Some(v) => (v, at3 + 1),
                None => {
                    return Err(ParseError::InvalidValue);
                },
            }
        } else {
            (Visibility::Beginner, at3)
        };
        Ok((NodeElementBase { tooltip, description, display_name, visibility }, at4))
    }
}

} // verus!
