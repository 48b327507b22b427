//! The errors of loading a description.

use crate::formula::FormulaError;
use crate::node_store::NodeId;
use vstd::prelude::*;

verus! {

/// Data was assigned to a node that has data already.
#[derive(Debug, Clone, Copy, PartialEq, Eq, Structural)]
pub struct DuplicateNodeError {
    /// The node in question.
    pub id: NodeId,
}

/// Why an element could not be read as a node. Each of these ends the
/// loading of the description.
#[derive(Debug, Clone, Copy, PartialEq, Eq, Structural)]
pub enum ParseError {
    /// The element does not have the tag of the node kind.
    UnexpectedTag,
    /// A mandatory attribute is absent.
    MissingAttribute,
    /// A mandatory child element is absent where it has to stand.
    MissingElement,
    /// A child element stands where the node kind has none.
    UnexpectedElement,
    /// A text is not a value of the type that its place asks for.
    InvalidValue,
    /// The text of a formula is not a formula.
    InvalidFormula(FormulaError),
    /// A computed node defines one name twice.
    DuplicateName,
    /// The description gives data to one node twice.
    DuplicateNode(NodeId),
    /// The name table has no identifier left for a new name.
    TooManyNames,
}

} // verus!
