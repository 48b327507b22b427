//! Resolution: from the node graph and the register contents known so far
//! to the value of a node and to the address and length of a register.
//!
//! The value of a computed node is the value of its formula, with each
//! variable standing for the value of the node it names. The value of a
//! register is its content, which only the device has: the caller hands in
//! the contents it knows, and where the content of a register is needed and
//! not known the result is the request to read it, with the address and
//! length to read at. The caller reads, adds the content and asks again.
//!
//! Resolution follows references from node to node. The nodes that are
//! being resolved form a chain; a reference to a node of the chain is a
//! cycle and ends the resolution with an error. A chain holds no node twice,
//! so it is never longer than the store has slots.

use crate::elem_type::ImmOrPNode;
use crate::node::NodeData;
use crate::node::NodeDataView;
use crate::node_store::lemma_distinct_ids_bounded;
use crate::node_store::NodeId;
use crate::node_store::NodeStore;
use crate::node_store::NodeStoreView;
use crate::number::fits_i64;
use crate::policy::permits;
use crate::policy::AccessUse;
use crate::number::EvalError;
use crate::number::Number;
use crate::register_base::AddressKind;
use crate::register_base::RegisterBase;
use crate::register_base::RegisterBaseView;
use crate::swiss_knife::knife_value;
use crate::swiss_knife::SwissKnifeNode;
use vstd::prelude::*;

verus! {

/// Where a register lies and how long it is.
#[derive(Debug, Clone, Copy, PartialEq, Eq, Structural)]
pub struct RegisterAccess {
    pub address: i64,
    pub length: i64,
}

/// The content of a register is needed: read `length` bytes at `address`
/// and record the result as the content of `node`.
#[derive(Debug, Clone, Copy, PartialEq, Eq, Structural)]
pub struct ReadRequest {
    pub node: NodeId,
    pub address: i64,
    pub length: i64,
}

/// Why a resolution failed.
#[derive(Debug, Clone, Copy, PartialEq, Eq, Structural)]
pub enum ResolveError {
    /// The node is referred to but the description gives it no data.
    UnresolvedReference(NodeId),
    /// The node is referred to while it is being resolved.
    CyclicReference(NodeId),
    /// A formula could not be evaluated.
    Evaluation(EvalError),
    /// An address is not the value of an `i64`.
    AddressOverflow,
    /// An address was asked of a node that is no register.
    NotARegister(NodeId),
    /// The access mode of the register does not permit the use.
    AccessDenied(NodeId),
}

/// How a resolution ended.
#[derive(Debug, Clone, Copy, PartialEq, Eq)]
pub enum Outcome<T> {
    /// With the result.
    Done(T),
    /// With the request for the content of a register.
    Read(ReadRequest),
    /// With an error.
    Fail(ResolveError),
}

/// The register contents that a caller knows, oldest first.
pub type Contents = Seq<(NodeId, i64)>;

/// The content known of the register `id`: the latest one recorded.
pub open spec fn known_content(contents: Contents, id: NodeId) -> Option<i64>
    decreases contents.len(),
{
    if contents.len() == 0 {
        None
    } else if contents.last().0 == id {
        Some(contents.last().1)
    } else {
        known_content(contents.drop_last(), id)
    }
}

/// Whether `chain` can be the nodes that are being resolved: it holds no
/// node twice and only nodes that have data.
pub open spec fn chain_ok(st: NodeStoreView, chain: Seq<NodeId>) -> bool {
    &&& chain.no_duplicates()
    &&& forall|i: int| 0 <= i < chain.len() ==> st.node_at(#[trigger] chain[i]) is Some
}

/// A chain has room for one more node that has data and is not in it.
pub proof fn lemma_chain_room(st: NodeStoreView, chain: Seq<NodeId>, id: NodeId)
    requires
        chain_ok(st, chain),
        !chain.contains(id),
        st.node_at(id) is Some,
    ensures
        chain.len() < st.slots.len(),
        chain_ok(st, chain.push(id)),
{
    let longer = chain.push(id);
    assert forall|i: int, j: int|
        0 <= i < longer.len() && 0 <= j < longer.len() && i != j implies longer[i]
        != longer[j] by {
        if i < chain.len() && j < chain.len() {
        } else if i < chain.len() {
            assert(chain.contains(chain[i]));
        } else {
            assert(chain.contains(chain[j]));
        }
    }
    assert forall|i: int| 0 <= i < longer.len() implies (#[trigger] longer[i]).index()
        < st.slots.len() by {
        if i < chain.len() {
            assert(st.node_at(chain[i]) is Some);
        }
    }
    lemma_distinct_ids_bounded(longer, st.slots.len());
}

/// The integer that an outcome holds, a real rounded toward zero.
pub open spec fn integer_of(o: Outcome<Number>) -> Outcome<i64> {
    match o {
        Outcome::Done(n) => match n.spec_to_integer() {
            Ok(i) => Outcome::Done(i),
            Err(e) => Outcome::Fail(ResolveError::Evaluation(e)),
        },
        Outcome::Read(q) => Outcome::Read(q),
        Outcome::Fail(e) => Outcome::Fail(e),
    }
}

/// `v` as an address.
pub open spec fn address_of(v: int) -> Outcome<i64> {
    if fits_i64(v) {
        Outcome::Done(v as i64)
    } else {
        Outcome::Fail(ResolveError::AddressOverflow)
    }
}

/// The value of the node `id`, where `chain` holds the nodes that are being
/// resolved.
pub open spec fn node_value(
    st: NodeStoreView,
    contents: Contents,
    id: NodeId,
    chain: Seq<NodeId>,
) -> Outcome<Number>
    decreases st.slots.len() - chain.len(), 0int, 0int,
    when chain_ok(st, chain)
{
    if chain.contains(id) {
        Outcome::Fail(ResolveError::CyclicReference(id))
    } else {
        match st.node_at(id) {
            None => Outcome::Fail(ResolveError::UnresolvedReference(id)),
            Some(NodeDataView::Register(r)) => match known_content(contents, id) {
                Some(v) => Outcome::Done(Number::Integer(v)),
                None => {
                    proof {
                        lemma_chain_room(st, chain, id);
                    }
                    match register_access(st, contents, r.register_base, chain.push(id)) {
                        Outcome::Done(a) => Outcome::Read(
                            ReadRequest { node: id, address: a.address, length: a.length },
                        ),
                        Outcome::Read(q) => Outcome::Read(q),
                        Outcome::Fail(e) => Outcome::Fail(e),
                    }
                },
            },
            Some(NodeDataView::SwissKnife(k)) => {
                proof {
                    lemma_chain_room(st, chain, id);
                }
                match variable_values(st, contents, k.p_variables, 0, chain.push(id), Seq::empty()) {
                    Outcome::Done(values) => match knife_value(k, values) {
                        Ok(n) => Outcome::Done(n),
                        Err(e) => Outcome::Fail(ResolveError::Evaluation(e)),
                    },
                    Outcome::Read(q) => Outcome::Read(q),
                    Outcome::Fail(e) => Outcome::Fail(e),
                }
            },
        }
    }
}

/// The values of the nodes that the variables from `from` on stand for,
/// after the values in `found`. The variables are resolved in their order,
/// and the first that does not give a value ends the resolution.
pub open spec fn variable_values(
    st: NodeStoreView,
    contents: Contents,
    variables: Seq<(Seq<char>, NodeId)>,
    from: int,
    chain: Seq<NodeId>,
    found: Seq<Number>,
) -> Outcome<Seq<Number>>
    decreases st.slots.len() - chain.len(), 1int, variables.len() - from,
{
    if 0 <= from < variables.len() {
        match node_value(st, contents, variables[from].1, chain) {
            Outcome::Done(v) => variable_values(
                st,
                contents,
                variables,
                from + 1,
                chain,
                found.push(v),
            ),
            Outcome::Read(q) => Outcome::Read(q),
            Outcome::Fail(e) => Outcome::Fail(e),
        }
    } else {
        Outcome::Done(found)
    }
}

/// The integer that `x` gives: itself, or the value of the node it names.
pub open spec fn imm_value(
    st: NodeStoreView,
    contents: Contents,
    x: ImmOrPNode<i64>,
    chain: Seq<NodeId>,
) -> Outcome<i64>
    decreases st.slots.len() - chain.len(), 1int, 0int,
{
    match x {
        ImmOrPNode::Imm(v) => Outcome::Done(v),
        ImmOrPNode::PNode(id) => integer_of(node_value(st, contents, id, chain)),
    }
}

/// What one part of an address contributes, for a register with the given
/// stride: a number itself; the value of a node; the value of a computed
/// node; or the value of the index node times the stride, plus the offset
/// if there is one.
pub open spec fn contribution(
    st: NodeStoreView,
    contents: Contents,
    kind: AddressKind,
    stride: i64,
    chain: Seq<NodeId>,
) -> Outcome<i64>
    decreases st.slots.len() - chain.len(), 2int, 0int,
{
    match kind {
        AddressKind::Address(x) => imm_value(st, contents, x, chain),
        AddressKind::IntSwissKnife(id) => integer_of(node_value(st, contents, id, chain)),
        AddressKind::PIndex(p) => match integer_of(node_value(st, contents, p.p_index, chain)) {
            Outcome::Done(i) => match p.offset {
                None => address_of(i * stride),
                Some(x) => match imm_value(st, contents, x, chain) {
                    Outcome::Done(offset) => address_of(i * stride + offset),
                    Outcome::Read(q) => Outcome::Read(q),
                    Outcome::Fail(e) => Outcome::Fail(e),
                },
            },
            Outcome::Read(q) => Outcome::Read(q),
            Outcome::Fail(e) => Outcome::Fail(e),
        },
    }
}

/// The sum of `sum` and what the address parts from `from` on contribute,
/// taken in document order. Every sum on the way is an address.
pub open spec fn address_sum(
    st: NodeStoreView,
    contents: Contents,
    kinds: Seq<AddressKind>,
    from: int,
    stride: i64,
    chain: Seq<NodeId>,
    sum: i64,
) -> Outcome<i64>
    decreases st.slots.len() - chain.len(), 3int, kinds.len() - from,
{
    if 0 <= from < kinds.len() {
        match contribution(st, contents, kinds[from], stride, chain) {
            Outcome::Done(c) => match address_of(sum + c) {
                Outcome::Done(next) => address_sum(
                    st,
                    contents,
                    kinds,
                    from + 1,
                    stride,
                    chain,
                    next,
                ),
                Outcome::Read(q) => Outcome::Read(q),
                Outcome::Fail(e) => Outcome::Fail(e),
            },
            Outcome::Read(q) => Outcome::Read(q),
            Outcome::Fail(e) => Outcome::Fail(e),
        }
    } else {
        Outcome::Done(sum)
    }
}

/// Where the register with the body `base` lies and how long it is. The
/// length is resolved first; it is the stride of the indexed address parts.
pub open spec fn register_access(
    st: NodeStoreView,
    contents: Contents,
    base: RegisterBaseView,
    chain: Seq<NodeId>,
) -> Outcome<RegisterAccess>
    decreases st.slots.len() - chain.len(), 4int, 0int,
{
    match imm_value(st, contents, base.length, chain) {
        Outcome::Done(length) => match address_sum(
            st,
            contents,
            base.address_kinds,
            0,
            length,
            chain,
            0,
        ) {
            Outcome::Done(address) => Outcome::Done(RegisterAccess { address, length }),
            Outcome::Read(q) => Outcome::Read(q),
            Outcome::Fail(e) => Outcome::Fail(e),
        },
        Outcome::Read(q) => Outcome::Read(q),
        Outcome::Fail(e) => Outcome::Fail(e),
    }
}

/// Where the register `id` lies and how long it is.
pub open spec fn access_of(st: NodeStoreView, contents: Contents, id: NodeId) -> Outcome<
    RegisterAccess,
> {
    match st.node_at(id) {
        None => Outcome::Fail(ResolveError::UnresolvedReference(id)),
        Some(NodeDataView::SwissKnife(_)) => Outcome::Fail(ResolveError::NotARegister(id)),
        Some(NodeDataView::Register(r)) => register_access(
            st,
            contents,
            r.register_base,
            seq![id],
        ),
    }
}

/// Where the register `id` lies and how long it is, for a caller who wants
/// to use it as given. A use that the access mode of the register does not
/// permit is an error, and nothing is resolved for it.
pub open spec fn access_for(
    st: NodeStoreView,
    contents: Contents,
    id: NodeId,
    usage: AccessUse,
) -> Outcome<RegisterAccess> {
    match st.node_at(id) {
        Some(NodeDataView::Register(r)) => if permits(r.register_base.access_mode, usage) {
            access_of(st, contents, id)
        } else {
            Outcome::Fail(ResolveError::AccessDenied(id))
        },
        _ => access_of(st, contents, id),
    }
}

/// Whether `x` names the node `id`.
pub open spec fn imm_refers_to(x: ImmOrPNode<i64>, id: NodeId) -> bool {
    x == ImmOrPNode::<i64>::PNode(id)
}

/// Whether a part of an address names the node `id`.
pub open spec fn kind_refers_to(kind: AddressKind, id: NodeId) -> bool {
    match kind {
        AddressKind::Address(x) => imm_refers_to(x, id),
        AddressKind::IntSwissKnife(k) => k == id,
        AddressKind::PIndex(p) => p.p_index == id || (p.offset matches Some(x) && imm_refers_to(
            x,
            id,
        )),
    }
}

/// Whether resolving the node with the data `node` can ask for the node
/// `id`: a register names nodes in its length and in the parts of its
/// address, a computed node in its variables.
pub open spec fn refers_to(node: NodeDataView, id: NodeId) -> bool {
    match node {
        NodeDataView::Register(r) => imm_refers_to(r.register_base.length, id) || exists|i: int|
            0 <= i < r.register_base.address_kinds.len() && kind_refers_to(
                #[trigger] r.register_base.address_kinds[i],
                id,
            ),
        NodeDataView::SwissKnife(k) => exists|i: int|
            0 <= i < k.p_variables.len() && (#[trigger] k.p_variables[i]).1 == id,
    }
}

/// Whether `nodes` holds, with each of its nodes, every node that this one
/// refers to.
pub open spec fn closed_under_references(st: NodeStoreView, nodes: Set<NodeId>) -> bool {
    forall|from: NodeId, to: NodeId|
        nodes.contains(from) && st.node_at(from) is Some && #[trigger] refers_to(
            st.node_at(from)->Some_0,
            to,
        ) ==> nodes.contains(to)
}

/// Whether two records of register contents know the same of every register
/// in `nodes`.
pub open spec fn same_known(a: Contents, b: Contents, nodes: Set<NodeId>) -> bool {
    forall|id: NodeId| nodes.contains(id) ==> known_content(a, id) == known_content(b, id)
}

/// A reference to a node that is being resolved is a cycle.
pub proof fn lemma_reference_into_chain(
    st: NodeStoreView,
    contents: Contents,
    id: NodeId,
    chain: Seq<NodeId>,
)
    requires
        chain_ok(st, chain),
        chain.contains(id),
    ensures
        node_value(st, contents, id, chain) == Outcome::<Number>::Fail(
            ResolveError::CyclicReference(id),
        ),
{
}

/// A computed node fails with a cycle error if its first variable stands
/// for the node itself.
pub proof fn lemma_self_reference_is_cyclic(st: NodeStoreView, contents: Contents, id: NodeId)
    requires
        st.node_at(id) matches Some(NodeDataView::SwissKnife(k)) && k.p_variables.len() > 0
            && k.p_variables[0].1 == id,
    ensures
        node_value(st, contents, id, Seq::empty()) == Outcome::<Number>::Fail(
            ResolveError::CyclicReference(id),
        ),
{
    let chain = Seq::<NodeId>::empty();
    lemma_chain_room(st, chain, id);
    let inner = chain.push(id);
    assert(inner[0] == id);
    assert(inner.contains(id));
    lemma_reference_into_chain(st, contents, id, inner);
}

/// A computed node fails with a cycle error if its first variable stands
/// for a computed node whose first variable stands for the first node.
pub proof fn lemma_mutual_reference_is_cyclic(
    st: NodeStoreView,
    contents: Contents,
    a: NodeId,
    b: NodeId,
)
    requires
        a != b,
        st.node_at(a) matches Some(NodeDataView::SwissKnife(k)) && k.p_variables.len() > 0
            && k.p_variables[0].1 == b,
        st.node_at(b) matches Some(NodeDataView::SwissKnife(k)) && k.p_variables.len() > 0
            && k.p_variables[0].1 == a,
    ensures
        node_value(st, contents, a, Seq::empty()) == Outcome::<Number>::Fail(
            ResolveError::CyclicReference(a),
        ),
{
    let chain = Seq::<NodeId>::empty();
    lemma_chain_room(st, chain, a);
    let one = chain.push(a);
    assert(one[0] == a);
    assert(!one.contains(b));
    lemma_chain_room(st, one, b);
    let two = one.push(b);
    assert(two[0] == a);
    assert(two.contains(a));
    lemma_reference_into_chain(st, contents, a, two);
    let cyclic = Outcome::<Number>::Fail(ResolveError::CyclicReference(a));
    let failed = Outcome::<Seq<Number>>::Fail(ResolveError::CyclicReference(a));
    let ka = st.node_at(a)->Some_0->SwissKnife_0;
    let kb = st.node_at(b)->Some_0->SwissKnife_0;
    assert(node_value(st, contents, a, two) == cyclic);
    assert(variable_values(st, contents, kb.p_variables, 0, two, Seq::empty()) == failed);
    assert(node_value(st, contents, b, one) == cyclic);
    assert(variable_values(st, contents, ka.p_variables, 0, one, Seq::empty()) == failed);
}

/// With the same knowledge of the registers in a set that is closed under
/// references, every node of the set has the same value.
pub proof fn lemma_same_value(
    st: NodeStoreView,
    c1: Contents,
    c2: Contents,
    nodes: Set<NodeId>,
    id: NodeId,
    chain: Seq<NodeId>,
)
    requires
        chain_ok(st, chain),
        closed_under_references(st, nodes),
        same_known(c1, c2, nodes),
        nodes.contains(id),
    ensures
        node_value(st, c1, id, chain) == node_value(st, c2, id, chain),
    decreases st.slots.len() - chain.len(), 0int, 0int,
{
    if !chain.contains(id) {
        match st.node_at(id) {
            None => {},
            Some(NodeDataView::Register(r)) => {
                assert(known_content(c1, id) == known_content(c2, id));
                if known_content(c1, id) is None {
                    lemma_chain_room(st, chain, id);
                    let node = NodeDataView::Register(r);
                    assert forall|to: NodeId|
                        imm_refers_to(r.register_base.length, to) implies nodes.contains(to) by {
                        assert(refers_to(node, to));
                    }
                    assert forall|i: int, to: NodeId|
                        0 <= i < r.register_base.address_kinds.len() && #[trigger] kind_refers_to(
                            r.register_base.address_kinds[i],
                            to,
                        ) implies nodes.contains(to) by {
                        assert(refers_to(node, to));
                    }
                    lemma_same_access(st, c1, c2, nodes, r.register_base, chain.push(id));
                }
            },
            Some(NodeDataView::SwissKnife(k)) => {
                lemma_chain_room(st, chain, id);
                let node = NodeDataView::SwissKnife(k);
                assert forall|i: int| 0 <= i < k.p_variables.len() implies nodes.contains(
                    (#[trigger] k.p_variables[i]).1,
                ) by {
                    assert(refers_to(node, k.p_variables[i].1));
                }
                lemma_same_values(
                    st,
                    c1,
                    c2,
                    nodes,
                    k.p_variables,
                    0,
                    chain.push(id),
                    Seq::empty(),
                );
            },
        }
    }
}

/// With the same knowledge of the registers in a set that is closed under
/// references, variables that stand for nodes of the set have the same
/// values.
pub proof fn lemma_same_values(
    st: NodeStoreView,
    c1: Contents,
    c2: Contents,
    nodes: Set<NodeId>,
    variables: Seq<(Seq<char>, NodeId)>,
    from: int,
    chain: Seq<NodeId>,
    found: Seq<Number>,
)
    requires
        chain_ok(st, chain),
        closed_under_references(st, nodes),
        same_known(c1, c2, nodes),
        forall|i: int| 0 <= i < variables.len() ==> nodes.contains((#[trigger] variables[i]).1),
    ensures
        variable_values(st, c1, variables, from, chain, found) == variable_values(
            st,
            c2,
            variables,
            from,
            chain,
            found,
        ),
    decreases st.slots.len() - chain.len(), 1int, variables.len() - from,
{
    if 0 <= from < variables.len() {
        lemma_same_value(st, c1, c2, nodes, variables[from].1, chain);
        if let Outcome::Done(v) = node_value(st, c1, variables[from].1, chain) {
            lemma_same_values(st, c1, c2, nodes, variables, from + 1, chain, found.push(v));
        }
    }
}

/// With the same knowledge of the registers in a set that is closed under
/// references, a number that is given on the spot or by a node of the set
/// is the same.
pub proof fn lemma_same_imm(
    st: NodeStoreView,
    c1: Contents,
    c2: Contents,
    nodes: Set<NodeId>,
    x: ImmOrPNode<i64>,
    chain: Seq<NodeId>,
)
    requires
        chain_ok(st, chain),
        closed_under_references(st, nodes),
        same_known(c1, c2, nodes),
        forall|to: NodeId| imm_refers_to(x, to) ==> nodes.contains(to),
    ensures
        imm_value(st, c1, x, chain) == imm_value(st, c2, x, chain),
    decreases st.slots.len() - chain.len(), 1int, 0int,
{
    if let ImmOrPNode::PNode(id) = x {
        assert(imm_refers_to(x, id));
        lemma_same_value(st, c1, c2, nodes, id, chain);
    }
}

/// With the same knowledge of the registers in a set that is closed under
/// references, a part of an address that names nodes of the set only
/// contributes the same.
pub proof fn lemma_same_contribution(
    st: NodeStoreView,
    c1: Contents,
    c2: Contents,
    nodes: Set<NodeId>,
    kind: AddressKind,
    stride: i64,
    chain: Seq<NodeId>,
)
    requires
        chain_ok(st, chain),
        closed_under_references(st, nodes),
        same_known(c1, c2, nodes),
        forall|to: NodeId| kind_refers_to(kind, to) ==> nodes.contains(to),
    ensures
        contribution(st, c1, kind, stride, chain) == contribution(st, c2, kind, stride, chain),
    decreases st.slots.len() - chain.len(), 2int, 0int,
{
    match kind {
        AddressKind::Address(x) => {
            assert forall|to: NodeId| imm_refers_to(x, to) implies nodes.contains(to) by {
                assert(kind_refers_to(kind, to));
            }
            lemma_same_imm(st, c1, c2, nodes, x, chain);
        },
        AddressKind::IntSwissKnife(id) => {
            assert(kind_refers_to(kind, id));
            lemma_same_value(st, c1, c2, nodes, id, chain);
        },
        AddressKind::PIndex(p) => {
            assert(kind_refers_to(kind, p.p_index));
            lemma_same_value(st, c1, c2, nodes, p.p_index, chain);
            if let Some(x) = p.offset {
                assert forall|to: NodeId| imm_refers_to(x, to) implies nodes.contains(to) by {
                    assert(kind_refers_to(kind, to));
                }
                lemma_same_imm(st, c1, c2, nodes, x, chain);
            }
        },
    }
}

/// With the same knowledge of the registers in a set that is closed under
/// references, the parts of an address that name nodes of the set only have
/// the same sum.
pub proof fn lemma_same_sum(
    st: NodeStoreView,
    c1: Contents,
    c2: Contents,
    nodes: Set<NodeId>,
    kinds: Seq<AddressKind>,
    from: int,
    stride: i64,
    chain: Seq<NodeId>,
    sum: i64,
)
    requires
        chain_ok(st, chain),
        closed_under_references(st, nodes),
        same_known(c1, c2, nodes),
        forall|i: int, to: NodeId|
            0 <= i < kinds.len() && #[trigger] kind_refers_to(kinds[i], to) ==> nodes.contains(to),
    ensures
        address_sum(st, c1, kinds, from, stride, chain, sum) == address_sum(
            st,
            c2,
            kinds,
            from,
            stride,
            chain,
            sum,
        ),
    decreases st.slots.len() - chain.len(), 3int, kinds.len() - from,
{
    if 0 <= from < kinds.len() {
        lemma_same_contribution(st, c1, c2, nodes, kinds[from], stride, chain);
        if let Outcome::Done(c) = contribution(st, c1, kinds[from], stride, chain) {
            if let Outcome::Done(next) = address_of(sum + c) {
                lemma_same_sum(st, c1, c2, nodes, kinds, from + 1, stride, chain, next);
            }
        }
    }
}

/// With the same knowledge of the registers in a set that is closed under
/// references, a register that names nodes of the set only lies at the
/// same address and has the same length.
pub proof fn lemma_same_access(
    st: NodeStoreView,
    c1: Contents,
    c2: Contents,
    nodes: Set<NodeId>,
    base: RegisterBaseView,
    chain: Seq<NodeId>,
)
    requires
        chain_ok(st, chain),
        closed_under_references(st, nodes),
        same_known(c1, c2, nodes),
        forall|to: NodeId| imm_refers_to(base.length, to) ==> nodes.contains(to),
        forall|i: int, to: NodeId|
            0 <= i < base.address_kinds.len() && #[trigger] kind_refers_to(
                base.address_kinds[i],
                to,
            ) ==> nodes.contains(to),
    ensures
        register_access(st, c1, base, chain) == register_access(st, c2, base, chain),
    decreases st.slots.len() - chain.len(), 4int, 0int,
{
    lemma_same_imm(st, c1, c2, nodes, base.length, chain);
    if let Outcome::Done(length) = imm_value(st, c1, base.length, chain) {
        lemma_same_sum(st, c1, c2, nodes, base.address_kinds, 0, length, chain, 0);
    }
}

/// Resolving a node or the address of a register twice gives the same
/// result twice if, in between, nothing has changed in what is known of the
/// registers that the node refers to, directly or through other nodes.
/// These registers lie in every set that holds the node and is closed under
/// references.
pub proof fn lemma_resolution_repeats(
    st: NodeStoreView,
    c1: Contents,
    c2: Contents,
    nodes: Set<NodeId>,
    id: NodeId,
)
    requires
        nodes.contains(id),
        closed_under_references(st, nodes),
        same_known(c1, c2, nodes),
    ensures
        access_of(st, c1, id) == access_of(st, c2, id),
        node_value(st, c1, id, Seq::empty()) == node_value(st, c2, id, Seq::empty()),
{
    lemma_same_value(st, c1, c2, nodes, id, Seq::empty());
    if let Some(NodeDataView::Register(r)) = st.node_at(id) {
        lemma_chain_room(st, Seq::empty(), id);
        assert(Seq::<NodeId>::empty().push(id) =~= seq![id]);
        let node = NodeDataView::Register(r);
        assert forall|to: NodeId|
            imm_refers_to(r.register_base.length, to) implies nodes.contains(to) by {
            assert(refers_to(node, to));
        }
        assert forall|i: int, to: NodeId|
            0 <= i < r.register_base.address_kinds.len() && #[trigger] kind_refers_to(
                r.register_base.address_kinds[i],
                to,
            ) implies nodes.contains(to) by {
            assert(refers_to(node, to));
        }
        lemma_same_access(st, c1, c2, nodes, r.register_base, seq![id]);
    }
}

/// The register contents that a caller knows.
#[derive(Debug)]
pub struct ValueTable {
    entries: Vec<(NodeId, i64)>,
}

impl View for ValueTable {
    type V = Contents;

    closed spec fn view(&self) -> Contents {
        self.entries@
    }
}

impl ValueTable {
    /// A table that knows no content.
    pub fn new() -> (table: ValueTable)
        ensures
            table@ == Seq::<(NodeId, i64)>::empty(),
    {
        ValueTable { entries: Vec::new() }
    }

    /// Records `value` as the content of the register `id`.
    pub fn record(&mut self, id: NodeId, value: i64)
        ensures
            final(self)@ == old(self)@.push((id, value)),
    {
        self.entries.push((id, value));
    }

    /// The content known of the register `id`.
    pub fn get(&self, id: NodeId) -> (value: Option<i64>)
        ensures
            value == known_content(self@, id),
    {
        let mut i: usize = self.entries.len();
        assert(self@.take(i as int) =~= self@);
        while i > 0
            invariant
                i <= self.entries.len(),
                known_content(self@, id) == known_content(self@.take(i as int), id),
            decreases i,
        {
            proof {
                assert(self@.take(i as int).drop_last() =~= self@.take(i - 1));
            }
            if self.entries[i - 1].0 == id {
                return Some(self.entries[i - 1].1);
            }
            i = i - 1;
        }
        None
    }

    /// Forgets the content of the register `id`. What is known of the other
    /// registers stays.
    pub fn forget(&mut self, id: NodeId)
        ensures
            known_content(final(self)@, id) is None,
            forall|other: NodeId|
                other != id ==> known_content(final(self)@, other) == known_content(
                    old(self)@,
                    other,
                ),
    {
        let mut kept: Vec<(NodeId, i64)> = Vec::new();
        let mut i: usize = 0;
        while i < self.entries.len()
            invariant
                i <= self.entries.len(),
                self.entries@ == old(self).entries@,
                known_content(kept@, id) is None,
                forall|other: NodeId|
                    other != id ==> known_content(kept@, other) == known_content(
                        self.entries@.take(i as int),
                        other,
                    ),
            decreases self.entries.len() - i,
        {
            let entry = self.entries[i];
            let ghost before = kept@;
            proof {
                assert(self.entries@.take(i + 1).drop_last() =~= self.entries@.take(i as int));
            }
            if entry.0 != id {
                kept.push(entry);
                assert(kept@.drop_last() =~= before);
            }
            assert forall|other: NodeId| other != id implies known_content(kept@, other)
                == known_content(self.entries@.take(i + 1), other) by {
                assert(self.entries@.take(i + 1).last() == entry);
                assert(known_content(before, other) == known_content(
                    self.entries@.take(i as int),
                    other,
                ));
            }
            i = i + 1;
        }
        assert(self.entries@.take(i as int) =~= self.entries@);
        self.entries = kept;
    }
}

/// Whether `chain` holds `id`.
fn chain_contains(chain: &Vec<NodeId>, id: NodeId) -> (b: bool)
    ensures
        b == chain@.contains(id),
{
    let mut i: usize = 0;
    while i < chain.len()
        invariant
            i <= chain.len(),
            forall|k: int| 0 <= k < i ==> chain@[k] != id,
        decreases chain.len() - i,
    {
        if chain[i] == id {
            return true;
        }
        i = i + 1;
    }
    false
}

/// The integer that an outcome holds.
fn to_integer_outcome(o: Outcome<Number>) -> (r: Outcome<i64>)
    ensures
        r == integer_of(o),
{
    match o {
        Outcome::Done(n) => match n.to_integer() {
            Ok(i) => Outcome::Done(i),
            Err(e) => Outcome::Fail(ResolveError::Evaluation(e)),
        },
        Outcome::Read(q) => Outcome::Read(q),
        Outcome::Fail(e) => Outcome::Fail(e),
    }
}

/// `v` as an address.
fn to_address(v: i128) -> (r: Outcome<i64>)
    ensures
        r == address_of(v as int),
{
    if v < -0x8000_0000_0000_0000i128 || v > 0x7fff_ffff_ffff_ffffi128 {
        Outcome::Fail(ResolveError::AddressOverflow)
    } else {
        Outcome::Done(v as i64)
    }
}

/// Resolves the value of the node `id`.
fn value_in(store: &NodeStore, contents: &ValueTable, id: NodeId, chain: &mut Vec<NodeId>) -> (r:
    Outcome<Number>)
    requires
        chain_ok(store@, old(chain)@),
    ensures
        final(chain)@ == old(chain)@,
        r == node_value(store@, contents@, id, old(chain)@),
    decreases store@.slots.len() - old(chain)@.len(), 0int, 0int,
{
    if chain_contains(chain, id) {
        return Outcome::Fail(ResolveError::CyclicReference(id));
    }
    match store.node_opt(id) {
        None => Outcome::Fail(ResolveError::UnresolvedReference(id)),
        Some(NodeData::Register(r)) => match contents.get(id) {
            Some(v) => Outcome::Done(Number::Integer(v)),
            None => {
                proof {
                    lemma_chain_room(store@, chain@, id);
                }
                chain.push(id);
                let access = access_in(store, contents, r.register_base(), chain);
                chain.pop();
                assert(chain@ =~= old(chain)@);
                match access {
                    Outcome::Done(a) => Outcome::Read(
                        ReadRequest { node: id, address: a.address, length: a.length },
                    ),
                    Outcome::Read(q) => Outcome::Read(q),
                    Outcome::Fail(e) => Outcome::Fail(e),
                }
            },
        },
        Some(NodeData::SwissKnife(k)) => {
            proof {
                lemma_chain_room(store@, chain@, id);
            }
            chain.push(id);
            let values = values_in(store, contents, k, chain);
            chain.pop();
            assert(chain@ =~= old(chain)@);
            match values {
                Outcome::Done(values) => match k.evaluate(values.as_slice()) {
                    Ok(n) => Outcome::Done(n),
                    Err(e) => Outcome::Fail(ResolveError::Evaluation(e)),
                },
                Outcome::Read(q) => Outcome::Read(q),
                Outcome::Fail(e) => Outcome::Fail(e),
            }
        },
    }
}

/// Resolves the values that the variables of a computed node stand for.
fn values_in(
    store: &NodeStore,
    contents: &ValueTable,
    knife: &SwissKnifeNode,
    chain: &mut Vec<NodeId>,
) -> (r: Outcome<Vec<Number>>)
    requires
        chain_ok(store@, old(chain)@),
    ensures
        final(chain)@ == old(chain)@,
        match r {
            Outcome::Done(values) => variable_values(
                store@,
                contents@,
                knife@.p_variables,
                0,
                old(chain)@,
                Seq::empty(),
            ) == Outcome::Done(values@) && values@.len() == knife@.p_variables.len(),
            Outcome::Read(q) => variable_values(
                store@,
                contents@,
                knife@.p_variables,
                0,
                old(chain)@,
                Seq::empty(),
            ) == Outcome::<Seq<Number>>::Read(q),
            Outcome::Fail(e) => variable_values(
                store@,
                contents@,
                knife@.p_variables,
                0,
                old(chain)@,
                Seq::empty(),
            ) == Outcome::<Seq<Number>>::Fail(e),
        },
    decreases store@.slots.len() - old(chain)@.len(), 1int, 0int,
{
    let mut values: Vec<Number> = Vec::new();
    let n = knife.variable_count();
    let mut i: usize = 0;
    while i < n
        invariant
            n == knife@.p_variables.len(),
            i <= n,
            values@.len() == i,
            chain@ == old(chain)@,
            chain_ok(store@, chain@),
            variable_values(store@, contents@, knife@.p_variables, 0, old(chain)@, Seq::empty())
                == variable_values(
                store@,
                contents@,
                knife@.p_variables,
                i as int,
                old(chain)@,
                values@,
            ),
        decreases n - i,
    {
        match value_in(store, contents, knife.variable_node(i), chain) {
            Outcome::Done(v) => {
                values.push(v);
            },
            Outcome::Read(q) => {
                return Outcome::Read(q);
            },
            Outcome::Fail(e) => {
                return Outcome::Fail(e);
            },
        }
        i = i + 1;
    }
    Outcome::Done(values)
}

/// Resolves a number that is given on the spot or by a node.
fn imm_in(store: &NodeStore, contents: &ValueTable, x: &ImmOrPNode<i64>, chain: &mut Vec<NodeId>) -> (r:
    Outcome<i64>)
    requires
        chain_ok(store@, old(chain)@),
    ensures
        final(chain)@ == old(chain)@,
        r == imm_value(store@, contents@, *x, old(chain)@),
    decreases store@.slots.len() - old(chain)@.len(), 1int, 0int,
{
    match x {
        ImmOrPNode::Imm(v) => Outcome::Done(*v),
        ImmOrPNode::PNode(id) => to_integer_outcome(value_in(store, contents, *id, chain)),
    }
}

/// Resolves what one part of an address contributes.
fn contribution_in(
    store: &NodeStore,
    contents: &ValueTable,
    kind: &AddressKind,
    stride: i64,
    chain: &mut Vec<NodeId>,
) -> (r: Outcome<i64>)
    requires
        chain_ok(store@, old(chain)@),
    ensures
        final(chain)@ == old(chain)@,
        r == contribution(store@, contents@, *kind, stride, old(chain)@),
    decreases store@.slots.len() - old(chain)@.len(), 2int, 0int,
{
    match kind {
        AddressKind::Address(x) => imm_in(store, contents, x, chain),
        AddressKind::IntSwissKnife(id) => to_integer_outcome(value_in(store, contents, *id, chain)),
        AddressKind::PIndex(p) => {
            let i = match to_integer_outcome(value_in(store, contents, p.p_index, chain)) {
                Outcome::Done(i) => i,
                Outcome::Read(q) => {
                    return Outcome::Read(q);
                },
                Outcome::Fail(e) => {
                    return Outcome::Fail(e);
                },
            };
            assert(-0x4000_0000_0000_0000_0000_0000_0000_0000 <= i * stride
                <= 0x4000_0000_0000_0000_0000_0000_0000_0000) by (nonlinear_arith)
                requires
                    -0x8000_0000_0000_0000 <= i <= 0x7fff_ffff_ffff_ffff,
                    -0x8000_0000_0000_0000 <= stride <= 0x7fff_ffff_ffff_ffff,
            ;
            let scaled: i128 = (i as i128) * (stride as i128);
            match &p.offset {
                None => to_address(scaled),
                Some(x) => match imm_in(store, contents, x, chain) {
                    Outcome::Done(offset) => to_address(scaled + (offset as i128)),
                    Outcome::Read(q) => Outcome::Read(q),
                    Outcome::Fail(e) => Outcome::Fail(e),
                },
            }
        },
    }
}

/// Resolves where a register lies and how long it is.
#[verifier::loop_isolation(false)]
fn access_in(
    store: &NodeStore,
    contents: &ValueTable,
    base: &RegisterBase,
    chain: &mut Vec<NodeId>,
) -> (r: Outcome<RegisterAccess>)
    requires
        chain_ok(store@, old(chain)@),
    ensures
        final(chain)@ == old(chain)@,
        r == register_access(store@, contents@, base@, old(chain)@),
    decreases store@.slots.len() - old(chain)@.len(), 4int, 0int,
{
    let length = match imm_in(store, contents, base.length(), chain) {
        Outcome::Done(length) => length,
        Outcome::Read(q) => {
            return Outcome::Read(q);
        },
        Outcome::Fail(e) => {
            return Outcome::Fail(e);
        },
    };
    let kinds = base.address_kinds();
    let mut sum: i64 = 0;
    let mut i: usize = 0;
    while i < kinds.len()
        invariant
            i <= kinds.len(),
            kinds@ == base@.address_kinds,
            chain@ == old(chain)@,
            chain_ok(store@, chain@),
            address_sum(store@, contents@, kinds@, 0, length, old(chain)@, 0) == address_sum(
                store@,
                contents@,
                kinds@,
                i as int,
                length,
                old(chain)@,
                sum,
            ),
        decreases kinds.len() - i,
    {
        let c = match contribution_in(store, contents, &kinds[i], length, chain) {
            Outcome::Done(c) => c,
            Outcome::Read(q) => {
                return Outcome::Read(q);
            },
            Outcome::Fail(e) => {
                return Outcome::Fail(e);
            },
        };
        sum = match to_address((sum as i128) + (c as i128)) {
            Outcome::Done(next) => next,
            Outcome::Read(q) => {
                return Outcome::Read(q);
            },
            Outcome::Fail(e) => {
                return Outcome::Fail(e);
            },
        };
        i = i + 1;
    }
    Outcome::Done(RegisterAccess { address: sum, length })
}

/// Resolves the value of the node `id`: a number, or the request for the
/// content of the first register that is needed and not known, or an error.
pub fn resolve_value(store: &NodeStore, contents: &ValueTable, id: NodeId) -> (r: Outcome<Number>)
    ensures
        r == node_value(store@, contents@, id, Seq::empty()),
{
    let mut chain: Vec<NodeId> = Vec::new();
    value_in(store, contents, id, &mut chain)
}

/// Resolves where the register `id` lies and how long it is.
pub fn resolve_access(store: &NodeStore, contents: &ValueTable, id: NodeId) -> (r: Outcome<
    RegisterAccess,
>)
    ensures
        r == access_of(store@, contents@, id),
{
    match store.node_opt(id) {
        None => Outcome::Fail(ResolveError::UnresolvedReference(id)),
        Some(NodeData::SwissKnife(_)) => Outcome::Fail(ResolveError::NotARegister(id)),
        Some(NodeData::Register(r)) => {
            let mut chain: Vec<NodeId> = Vec::new();
            chain.push(id);
            assert(chain@ =~= seq![id]);
            access_in(store, contents, r.register_base(), &mut chain)
        },
    }
}

/// Resolves where the register `id` lies and how long it is, for a caller
/// who wants to use it as given.
pub fn resolve_access_for(
    store: &NodeStore,
    contents: &ValueTable,
    id: NodeId,
    usage: AccessUse,
) -> (r: Outcome<RegisterAccess>)
    ensures
        r == access_for(store@, contents@, id, usage),
{
    match store.node_opt(id) {
        Some(NodeData::Register(r)) => {
            if r.register_base().check_access(usage).is_err() {
                return Outcome::Fail(ResolveError::AccessDenied(id));
            }
        },
        _ => {},
    }
    resolve_access(store, contents, id)
}

} // verus!
