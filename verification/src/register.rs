//! Register nodes.

use crate::error::ParseError;
use crate::node_base::attr_base_of;
use crate::node_base::node_name;
use crate::node_store::lemma_id_kept;
use crate::node_base::NodeAttributeBase;
use crate::node_base::NodeBase;
use crate::node_store::NodeStore;
use crate::node_store::NodeStoreView;
use crate::parse::Parse;
use crate::register_base::register_base_of;
use crate::register_base::RegisterBase;
use crate::register_base::RegisterBaseView;
use crate::xml::Element;
use vstd::prelude::*;

verus! {

/// A register of the device.
#[derive(Debug, PartialEq, Eq)]
pub struct RegisterNode {
    pub(crate) attr_base: NodeAttributeBase,
    pub(crate) register_base: RegisterBase,
}

/// The model of a `RegisterNode`.
pub struct RegisterNodeView {
    pub attr_base: NodeAttributeBase,
    pub register_base: RegisterBaseView,
}

impl View for RegisterNode {
    type V = RegisterNodeView;

    closed spec fn view(&self) -> RegisterNodeView {
        RegisterNodeView { attr_base: self.attr_base, register_base: self.register_base@ }
    }
}

impl RegisterNode {
    /// The identity and description of the node.
    pub fn node_base(&self) -> (base: NodeBase)
        ensures
            base.attr_base() == self@.attr_base,
            base.elem_base() == self@.register_base.elem_base,
    {
        let elem_base = self.register_base.elem_base();
        NodeBase::new(&self.attr_base, elem_base)
    }

    /// The body of the register description.
    pub fn register_base(&self) -> (base: &RegisterBase)
        ensures
            base@ == self@.register_base,
    {
        &self.register_base
    }
}

/// The register node that `elem` describes, and the store after interning
/// every name that the description holds and storing the computed nodes
/// nested in it. The element has the tag `Register`, a `Name` attribute and
/// the children of a register body, with no child after them.
pub open spec fn register_of(elem: Element, st: NodeStoreView) -> Result<
    (RegisterNodeView, NodeStoreView),
    ParseError,
> {
    if elem.tag@ != "Register"@ {
        Err(ParseError::UnexpectedTag)
    } else {
        match attr_base_of(elem, st) {
            Err(e) => Err(e),
            Ok((attr_base, st1)) => match register_base_of(elem.children@, 0, st1) {
                Err(e) => Err(e),
                Ok((register_base, end, st2)) => if end != elem.children@.len() {
                    Err(ParseError::UnexpectedElement)
                } else {
                    Ok((RegisterNodeView { attr_base, register_base }, st2))
                },
            },
        }
    }
}

impl Parse for RegisterNode {
    open spec fn described(elem: Element, st: NodeStoreView) -> Result<
        (RegisterNodeView, NodeStoreView),
        ParseError,
    > {
        register_of(elem, st)
    }

    /// Reads a register node from its element.
    fn parse(elem: &Element, store: &mut NodeStore) -> (r: Result<RegisterNode, ParseError>)
        ensures
            r matches Ok(node) ==> final(store)@.id_of(node_name(*elem)) == Some(
                node@.attr_base.id,
            ),
    {
        if !elem.has_tag("Register") {
            return Err(ParseError::UnexpectedTag);
        }
        let attr_base = match NodeAttributeBase::parse(elem, store) {
            Ok(base) => base,
            Err(e) => {
                return Err(e);
            },
        };
        let ghost named = store@;
        let (register_base, end) = match RegisterBase::parse(elem, 0, store) {
            Ok(found) => found,
            Err(e) => {
                return Err(e);
            },
        };
        if end != elem.children.len() {
            return Err(ParseError::UnexpectedElement);
        }
        proof {
            lemma_id_kept(named, store@, node_name(*elem));
        }
        Ok(RegisterNode { attr_base, register_base })
    }
}

} // verus!
