//! The kinds of node that a description holds.

use crate::node_store::NodeId;
use crate::register::RegisterNode;
use crate::register::RegisterNodeView;
use crate::swiss_knife::SwissKnifeNode;
use crate::swiss_knife::SwissKnifeView;
use vstd::prelude::*;

verus! {

/// The data of one node.
#[derive(Debug, PartialEq, Eq)]
pub enum NodeData {
    Register(RegisterNode),
    SwissKnife(SwissKnifeNode),
}

/// The model of a `NodeData`.
pub enum NodeDataView {
    Register(RegisterNodeView),
    SwissKnife(SwissKnifeView),
}

impl View for NodeData {
    type V = NodeDataView;

    open spec fn view(&self) -> NodeDataView {
        match self {
            NodeData::Register(r) => NodeDataView::Register(r@),
            NodeData::SwissKnife(k) => NodeDataView::SwissKnife(k@),
        }
    }
}

impl NodeDataView {
    /// The identifier that the node was described under.
    pub open spec fn id(self) -> NodeId {
        match self {
            NodeDataView::Register(r) => r.attr_base.id,
            NodeDataView::SwissKnife(k) => k.attr_base.id,
        }
    }
}

} // verus!
