//! What a register description holds: where the register lies, how long it
//! is and how it may be accessed and cached.

use crate::elem_type::AccessMode;
use crate::elem_type::CachingMode;
use crate::elem_type::Endianness;
use crate::elem_type::ImmOrPNode;
use crate::elem_type::Representation;
use crate::elem_type::Sign;
use crate::node_base::text_ref;
use crate::node_base::text_view;
use crate::node_base::NodeElementBase;
use crate::node_base::NodeElementBaseView;
use crate::elem_type::yes_no_from_text;
use crate::elem_type::yes_no_of;
use crate::error::ParseError;
use crate::node::NodeData;
use crate::node::NodeDataView;
use crate::node_base::elem_base_of;
use crate::node_store::NodeId;
use crate::node_store::NodeStore;
use crate::node_store::NodeStoreView;
use crate::parse::i64_from_text;
use crate::parse::intern_name;
use crate::parse::interned_name;
use crate::parse::node_refs;
use crate::parse::optional_text;
use crate::parse::optional_value;
use crate::parse::Parse;
use crate::parse::read_node_refs;
use crate::parse::read_optional_text;
use crate::parse::u64_from_text;
use crate::parse::u64_of_text;
use crate::swiss_knife::swiss_knife_of;
use crate::swiss_knife::SwissKnifeNode;
use crate::text::i64_of_text;
use crate::text::trimmed;
use crate::xml::attribute_value;
use crate::xml::child_has_tag;
use crate::xml::Element;
use vstd::prelude::*;

verus! {

/// An indexed part of an address: the value of the index node times the
/// stride of the register, plus an offset if there is one.
#[derive(Debug, Clone, Copy, PartialEq, Eq)]
pub struct PIndex {
    pub p_index: NodeId,
    pub offset: Option<ImmOrPNode<i64>>,
}

impl PIndex {
    /// The node that gives the index.
    pub fn p_index(&self) -> (id: NodeId)
        ensures
            id == self.p_index,
    {
        self.p_index
    }

    /// The offset, if there is one.
    pub fn offset(&self) -> (offset: Option<ImmOrPNode<i64>>)
        ensures
            offset == self.offset,
    {
        self.offset
    }
}

/// One part of the address of a register. The address is the sum of its parts.
#[derive(Debug, Clone, Copy, PartialEq, Eq)]
pub enum AddressKind {
    /// A number, or the node whose value is the part.
    Address(ImmOrPNode<i64>),
    /// The computed node whose value is the part.
    IntSwissKnife(NodeId),
    /// An indexed part.
    PIndex(PIndex),
}

/// The body of a register description.
#[derive(Debug, PartialEq, Eq)]
pub struct RegisterBase {
    pub(crate) elem_base: NodeElementBase,
    pub(crate) streamable: bool,
    pub(crate) address_kinds: Vec<AddressKind>,
    pub(crate) length: ImmOrPNode<i64>,
    pub(crate) access_mode: AccessMode,
    pub(crate) p_port: NodeId,
    pub(crate) cacheable: CachingMode,
    pub(crate) polling_time: Option<u64>,
    pub(crate) p_invalidators: Vec<NodeId>,
    pub(crate) sign: Sign,
    pub(crate) endianness: Endianness,
    pub(crate) unit: Option<String>,
    pub(crate) representation: Representation,
    pub(crate) p_selecteds: Vec<NodeId>,
}

/// The model of a `RegisterBase`.
pub struct RegisterBaseView {
    pub elem_base: NodeElementBaseView,
    pub streamable: bool,
    /// The parts of the address, in document order.
    pub address_kinds: Seq<AddressKind>,
    pub length: ImmOrPNode<i64>,
    pub access_mode: AccessMode,
    pub p_port: NodeId,
    pub cacheable: CachingMode,
    /// The greatest age of a cached value, in milliseconds.
    pub polling_time: Option<u64>,
    /// The nodes whose change makes a cached value of this register stale.
    pub p_invalidators: Seq<NodeId>,
    pub sign: Sign,
    pub endianness: Endianness,
    pub unit: Option<Seq<char>>,
    pub representation: Representation,
    /// The nodes that this register selects.
    pub p_selecteds: Seq<NodeId>,
}

impl View for RegisterBase {
    type V = RegisterBaseView;

    closed spec fn view(&self) -> RegisterBaseView {
        RegisterBaseView {
            elem_base: self.elem_base@,
            streamable: self.streamable,
            address_kinds: self.address_kinds@,
            length: self.length,
            access_mode: self.access_mode,
            p_port: self.p_port,
            cacheable: self.cacheable,
            polling_time: self.polling_time,
            p_invalidators: self.p_invalidators@,
            sign: self.sign,
            endianness: self.endianness,
            unit: text_view(self.unit),
            representation: self.representation,
            p_selecteds: self.p_selecteds@,
        }
    }
}

impl RegisterBase {
    /// The descriptive elements.
    pub fn elem_base(&self) -> (base: &NodeElementBase)
        ensures
            base@ == self@.elem_base,
    {
        &self.elem_base
    }

    /// Whether the register takes part in streaming a configuration.
    pub fn streamable(&self) -> (b: bool)
        ensures
            b == self@.streamable,
    {
        self.streamable
    }

    /// The parts of the address, in document order.
    pub fn address_kinds(&self) -> (kinds: &[AddressKind])
        ensures
            kinds@ == self@.address_kinds,
    {
        self.address_kinds.as_slice()
    }

    /// The length of the register in bytes.
    pub fn length(&self) -> (length: &ImmOrPNode<i64>)
        ensures
            *length == self@.length,
    {
        &self.length
    }

    /// Which accesses the register permits.
    pub fn access_mode(&self) -> (mode: AccessMode)
        ensures
            mode == self@.access_mode,
    {
        self.access_mode
    }

    /// The port node through which the register is reached.
    pub fn p_port(&self) -> (id: NodeId)
        ensures
            id == self@.p_port,
    {
        self.p_port
    }

    /// How a value of the register may be kept.
    pub fn cacheable(&self) -> (mode: CachingMode)
        ensures
            mode == self@.cacheable,
    {
        self.cacheable
    }

    /// The greatest age of a cached value, in milliseconds.
    pub fn polling_time(&self) -> (time: Option<u64>)
        ensures
            time == self@.polling_time,
    {
        self.polling_time
    }

    /// The nodes whose change makes a cached value of this register stale.
    pub fn p_invalidators(&self) -> (ids: &[NodeId])
        ensures
            ids@ == self@.p_invalidators,
    {
        self.p_invalidators.as_slice()
    }

    /// Whether the content is a signed number.
    pub fn sign(&self) -> (sign: Sign)
        ensures
            sign == self@.sign,
    {
        self.sign
    }

    /// The byte order of the content.
    pub fn endianness(&self) -> (endianness: Endianness)
        ensures
            endianness == self@.endianness,
    {
        self.endianness
    }

    /// The physical unit of the content.
    pub fn unit(&self) -> (r: Option<&str>)
        ensures
            match r {
                Some(s) => self@.unit == Some(s@),
                None => self@.unit is None,
            },
    {
        text_ref(&self.unit)
    }

    /// How the content is best shown.
    pub fn representation(&self) -> (representation: Representation)
        ensures
            representation == self@.representation,
    {
        self.representation
    }

    /// The nodes that this register selects.
    pub fn p_selecteds(&self) -> (ids: &[NodeId])
        ensures
            ids@ == self@.p_selecteds,
    {
        self.p_selecteds.as_slice()
    }
}

/// The indexed address part that a `pIndex` element describes. The text of
/// the element names the index node. The attribute `Offset` gives a number
/// as the offset; without it, the attribute `pOffset` names the node whose
/// value is the offset.
pub open spec fn p_index_of(elem: Element, st: NodeStoreView) -> Result<
    (PIndex, NodeStoreView),
    ParseError,
> {
    match attribute_value(elem.attributes@, "Offset"@) {
        Some(text) => match i64_of_text(text) {
            None => Err(ParseError::InvalidValue),
            Some(v) => match interned_name(st, trimmed(elem.text@)) {
                Ok((id, after)) => Ok(
                    (PIndex { p_index: id, offset: Some(ImmOrPNode::Imm(v)) }, after),
                ),
                Err(e) => Err(e),
            },
        },
        None => match attribute_value(elem.attributes@, "pOffset"@) {
            Some(name) => match interned_name(st, name) {
                Err(e) => Err(e),
                Ok((offset_id, st1)) => match interned_name(st1, trimmed(elem.text@)) {
                    Ok((id, after)) => Ok(
                        (PIndex { p_index: id, offset: Some(ImmOrPNode::PNode(offset_id)) }, after),
                    ),
                    Err(e) => Err(e),
                },
            },
            None => match interned_name(st, trimmed(elem.text@)) {
                Ok((id, after)) => Ok((PIndex { p_index: id, offset: None }, after)),
                Err(e) => Err(e),
            },
        },
    }
}

/// The address parts that the children from `pos` on give, after those in
/// `found`: every `Address`, `pAddress`, `IntSwissKnife` and `pIndex` child
/// up to the first child with another tag, in document order. A computed
/// node met on the way is stored under its own identifier.
pub open spec fn address_kinds_from(
    children: Seq<Element>,
    pos: int,
    st: NodeStoreView,
    found: Seq<AddressKind>,
) -> Result<(Seq<AddressKind>, int, NodeStoreView), ParseError>
    decreases children.len() - pos,
{
    if child_has_tag(children, pos, "Address"@) {
        match i64_of_text(children[pos].text@) {
            Some(v) => address_kinds_from(
                children,
                pos + 1,
                st,
                found.push(AddressKind::Address(ImmOrPNode::Imm(v))),
            ),
            None => Err(ParseError::InvalidValue),
        }
    } else if child_has_tag(children, pos, "pAddress"@) {
        match interned_name(st, trimmed(children[pos].text@)) {
            Ok((id, after)) => address_kinds_from(
                children,
                pos + 1,
                after,
                found.push(AddressKind::Address(ImmOrPNode::PNode(id))),
            ),
            Err(e) => Err(e),
        }
    } else if child_has_tag(children, pos, "IntSwissKnife"@) {
        match swiss_knife_of(children[pos], st) {
            Ok((knife, st1)) => match st1.with_node(
                knife.attr_base.id,
                NodeDataView::SwissKnife(knife),
            ) {
                Ok(st2) => address_kinds_from(
                    children,
                    pos + 1,
                    st2,
                    found.push(AddressKind::IntSwissKnife(knife.attr_base.id)),
                ),
                Err(e) => Err(ParseError::DuplicateNode(e.id)),
            },
            Err(e) => Err(e),
        }
    } else if child_has_tag(children, pos, "pIndex"@) {
        match p_index_of(children[pos], st) {
            Ok((index, after)) => address_kinds_from(
                children,
                pos + 1,
                after,
                found.push(AddressKind::PIndex(index)),
            ),
            Err(e) => Err(e),
        }
    } else {
        Ok((found, pos, st))
    }
}

/// The length that the child at `pos` gives: a number in `Length`, or the
/// name of a node in `pLength`.
pub open spec fn length_of(children: Seq<Element>, pos: int, st: NodeStoreView) -> Result<
    (ImmOrPNode<i64>, int, NodeStoreView),
    ParseError,
> {
    if child_has_tag(children, pos, "Length"@) {
        match i64_of_text(children[pos].text@) {
            Some(v) => Ok((ImmOrPNode::Imm(v), pos + 1, st)),
            None => Err(ParseError::InvalidValue),
        }
    } else if child_has_tag(children, pos, "pLength"@) {
        match interned_name(st, trimmed(children[pos].text@)) {
            Ok((id, after)) => Ok((ImmOrPNode::PNode(id), pos + 1, after)),
            Err(e) => Err(e),
        }
    } else {
        Err(ParseError::MissingElement)
    }
}

/// The port that the child at `pos` names in `pPort`.
pub open spec fn port_of(children: Seq<Element>, pos: int, st: NodeStoreView) -> Result<
    (NodeId, int, NodeStoreView),
    ParseError,
> {
    if child_has_tag(children, pos, "pPort"@) {
        match interned_name(st, trimmed(children[pos].text@)) {
            Ok((id, after)) => Ok((id, pos + 1, after)),
            Err(e) => Err(e),
        }
    } else {
        Err(ParseError::MissingElement)
    }
}

/// The polling time that a text denotes.
pub open spec fn polling_time_of(s: Seq<char>) -> Option<Option<u64>> {
    match u64_of_text(s) {
        Some(v) => Some(Some(v)),
        None => None,
    }
}

/// The first part of a register body: where the register lies and who may
/// access it.
pub struct RegisterHeadView {
    pub elem_base: NodeElementBaseView,
    pub streamable: bool,
    pub address_kinds: Seq<AddressKind>,
    pub length: ImmOrPNode<i64>,
    pub access_mode: AccessMode,
    pub p_port: NodeId,
}

/// The second part of a register body: how its content is cached and read.
pub struct RegisterTailView {
    pub cacheable: CachingMode,
    pub polling_time: Option<u64>,
    pub p_invalidators: Seq<NodeId>,
    pub sign: Sign,
    pub endianness: Endianness,
    pub unit: Option<Seq<char>>,
    pub representation: Representation,
    pub p_selecteds: Seq<NodeId>,
}

/// The first part of the register body that the children from `pos` on
/// give: the descriptive children; `Streamable` (`No` if absent); the
/// address parts; `Length` or `pLength`; `AccessMode` (`RO` if absent);
/// `pPort`.
pub open spec fn register_head_of(children: Seq<Element>, pos: int, st: NodeStoreView) -> Result<
    (RegisterHeadView, int, NodeStoreView),
    ParseError,
> {
    match elem_base_of(children, pos) {
        Err(e) => Err(e),
        Ok((elem_base, at1)) => match optional_value(
            children,
            at1,
            "Streamable"@,
            |s: Seq<char>| yes_no_of(s),
            false,
        ) {
            Err(e) => Err(e),
            Ok((streamable, at2)) => match address_kinds_from(children, at2, st, Seq::empty()) {
                Err(e) => Err(e),
                Ok((address_kinds, at3, st1)) => match length_of(children, at3, st1) {
                    Err(e) => Err(e),
                    Ok((length, at4, st2)) => match optional_value(
                        children,
                        at4,
                        "AccessMode"@,
                        |s: Seq<char>| AccessMode::of_text(s),
                        AccessMode::RO,
                    ) {
                        Err(e) => Err(e),
                        Ok((access_mode, at5)) => match port_of(children, at5, st2) {
                            Err(e) => Err(e),
                            Ok((p_port, at6, st3)) => Ok(
                                (
                                    RegisterHeadView {
                                        elem_base,
                                        streamable,
                                        address_kinds,
                                        length,
                                        access_mode,
                                        p_port,
                                    },
                                    at6,
                                    st3,
                                ),
                            ),
                        },
                    },
                },
            },
        },
    }
}

/// What the children from `pos` on give for the caching of a register.
pub open spec fn register_caching_of(children: Seq<Element>, pos: int, st: NodeStoreView) -> Result<
    (CachingMode, Option<u64>, Seq<NodeId>, int, NodeStoreView),
    ParseError,
> {
    match optional_value(
        children,
        pos,
        "Cachable"@,
        |s: Seq<char>| CachingMode::of_text(s),
        CachingMode::WriteThrough,
    ) {
        Err(e) => Err(e),
        Ok((cacheable, at1)) => match optional_value(
            children,
            at1,
            "PollingTime"@,
            |s: Seq<char>| polling_time_of(s),
            None,
        ) {
            Err(e) => Err(e),
            Ok((polling_time, at2)) => match node_refs(
                children,
                at2,
                "pInvalidator"@,
                st,
                Seq::empty(),
            ) {
                Err(e) => Err(e),
                Ok((p_invalidators, at3, st1)) => Ok(
                    (cacheable, polling_time, p_invalidators, at3, st1),
                ),
            },
        },
    }
}

/// The second part of the register body that the children from `pos` on
/// give, each child optional: `Cachable` (`WriteThrough` if absent);
/// `PollingTime`; any number of `pInvalidator`; `Sign` (`Unsigned`);
/// `Endianess` (`LittleEndian`); `Unit`; `Representation` (`PureNumber`);
/// any number of `pSelected`.
pub open spec fn register_tail_of(children: Seq<Element>, pos: int, st: NodeStoreView) -> Result<
    (RegisterTailView, int, NodeStoreView),
    ParseError,
> {
    match register_caching_of(children, pos, st) {
        Err(e) => Err(e),
        Ok((cacheable, polling_time, p_invalidators, at3, st1)) => match optional_value(
            children,
            at3,
            "Sign"@,
            |s: Seq<char>| Sign::of_text(s),
            Sign::Unsigned,
        ) {
            Err(e) => Err(e),
            Ok((sign, at4)) => match optional_value(
                children,
                at4,
                "Endianess"@,
                |s: Seq<char>| Endianness::of_text(s),
                Endianness::LE,
            ) {
                Err(e) => Err(e),
                Ok((endianness, at5)) => {
                    let (unit, at6) = optional_text(children, at5, "Unit"@);
                    match optional_value(
                        children,
                        at6,
                        "Representation"@,
                        |s: Seq<char>| Representation::of_text(s),
                        Representation::PureNumber,
                    ) {
                        Err(e) => Err(e),
                        Ok((representation, at7)) => match node_refs(
                            children,
                            at7,
                            "pSelected"@,
                            st1,
                            Seq::empty(),
                        ) {
                            Err(e) => Err(e),
                            Ok((p_selecteds, at8, st2)) => Ok(
                                (
                                    RegisterTailView {
                                        cacheable,
                                        polling_time,
                                        p_invalidators,
                                        sign,
                                        endianness,
                                        unit,
                                        representation,
                                        p_selecteds,
                                    },
                                    at8,
                                    st2,
                                ),
                            ),
                        },
                    }
                },
            },
        },
    }
}

/// The register body that the children from `pos` on give, the index of the
/// first child after it, and the store after interning every name met: the
/// first part of the body, then the second.
pub open spec fn register_base_of(children: Seq<Element>, pos: int, st: NodeStoreView) -> Result<
    (RegisterBaseView, int, NodeStoreView),
    ParseError,
> {
    match register_head_of(children, pos, st) {
        Err(e) => Err(e),
        Ok((head, at1, st1)) => match register_tail_of(children, at1, st1) {
            Err(e) => Err(e),
            Ok((tail, at2, st2)) => Ok(
                (
                    RegisterBaseView {
                        elem_base: head.elem_base,
                        streamable: head.streamable,
                        address_kinds: head.address_kinds,
                        length: head.length,
                        access_mode: head.access_mode,
                        p_port: head.p_port,
                        cacheable: tail.cacheable,
                        polling_time: tail.polling_time,
                        p_invalidators: tail.p_invalidators,
                        sign: tail.sign,
                        endianness: tail.endianness,
                        unit: tail.unit,
                        representation: tail.representation,
                        p_selecteds: tail.p_selecteds,
                    },
                    at2,
                    st2,
                ),
            ),
        },
    }
}

impl PIndex {
    /// Reads an indexed address part from its element.
    pub fn parse(elem: &Element, store: &mut NodeStore) -> (r: Result<PIndex, ParseError>)
        requires
            old(store).wf(),
        ensures
            final(store).wf(),
            final(store)@.extends(old(store)@),
            match r {
                Ok(index) => p_index_of(*elem, old(store)@) == Ok::<
                    (PIndex, NodeStoreView),
                    ParseError,
                >((index, final(store)@)),
                Err(e) => p_index_of(*elem, old(store)@) == Err::<
                    (PIndex, NodeStoreView),
                    ParseError,
                >(e),
            },
    {
        let offset = match elem.attribute("Offset") {
            Some(text) => match i64_from_text(text) {
                Some(v) => Some(ImmOrPNode::Imm(v)),
                None => {
                    return Err(ParseError::InvalidValue);
                },
            },
            None => match elem.attribute("pOffset") {
                Some(name) => match intern_name(store, name) {
                    Ok(id) => Some(ImmOrPNode::PNode(id)),
                    Err(e) => {
                        return Err(e);
                    },
                },
                None => None,
            },
        };
        match intern_name(store, elem.trimmed_text()) {
            Ok(id) => Ok(PIndex { p_index: id, offset }),
            Err(e) => Err(e),
        }
    }
}

/// Reads the address parts of a register.
#[verifier::loop_isolation(false)]
fn read_address_kinds(elem: &Element, pos: usize, store: &mut NodeStore) -> (r: Result<
    (Vec<AddressKind>, usize),
    ParseError,
>)
    requires
        old(store).wf(),
        pos <= elem.children@.len(),
    ensures
        final(store).wf(),
        final(store)@.extends(old(store)@),
        match r {
            Ok((kinds, end)) => address_kinds_from(
                elem.children@,
                pos as int,
                old(store)@,
                Seq::empty(),
            ) == Ok::<(Seq<AddressKind>, int, NodeStoreView), ParseError>(
                (kinds@, end as int, final(store)@),
            ) && pos <= end <= elem.children@.len(),
            Err(e) => address_kinds_from(elem.children@, pos as int, old(store)@, Seq::empty())
                == Err::<(Seq<AddressKind>, int, NodeStoreView), ParseError>(e),
        },
{
    let mut kinds: Vec<AddressKind> = Vec::new();
    let mut p: usize = pos;
    loop
        invariant
            store.wf(),
            store@.extends(old(store)@),
            pos <= p <= elem.children@.len(),
            address_kinds_from(elem.children@, pos as int, old(store)@, Seq::empty())
                == address_kinds_from(elem.children@, p as int, store@, kinds@),
        decreases elem.children@.len() - p,
    {
        if elem.child_is(p, "Address") {
            match i64_from_text(elem.children[p].text.as_str()) {
                Some(v) => {
                    kinds.push(AddressKind::Address(ImmOrPNode::Imm(v)));
                },
                None => {
                    return Err(ParseError::InvalidValue);
                },
            }
        } else if elem.child_is(p, "pAddress") {
            match intern_name(store, elem.children[p].trimmed_text()) {
                Ok(id) => {
                    kinds.push(AddressKind::Address(ImmOrPNode::PNode(id)));
                },
                Err(e) => {
                    return Err(e);
                },
            }
        } else if elem.child_is(p, "IntSwissKnife") {
            let knife = match SwissKnifeNode::parse(&elem.children[p], store) {
                Ok(knife) => knife,
                Err(e) => {
                    return Err(e);
                },
            };
            let id = knife.node_base().id();
            match store.store_node(id, NodeData::SwissKnife(knife)) {
                Ok(()) => {
                    kinds.push(AddressKind::IntSwissKnife(id));
                },
                Err(e) => {
                    return Err(ParseError::DuplicateNode(e.id));
                },
            }
        } else if elem.child_is(p, "pIndex") {
            match PIndex::parse(&elem.children[p], store) {
                Ok(index) => {
                    kinds.push(AddressKind::PIndex(index));
                },
                Err(e) => {
                    return Err(e);
                },
            }
        } else {
            return Ok((kinds, p));
        }
        p = p + 1;
    }
}

struct RegisterHead {
    elem_base: NodeElementBase,
    streamable: bool,
    address_kinds: Vec<AddressKind>,
    length: ImmOrPNode<i64>,
    access_mode: AccessMode,
    p_port: NodeId,
}

struct RegisterTail {
    cacheable: CachingMode,
    polling_time: Option<u64>,
    p_invalidators: Vec<NodeId>,
    sign: Sign,
    endianness: Endianness,
    unit: Option<String>,
    representation: Representation,
    p_selecteds: Vec<NodeId>,
}

impl RegisterHead {
    spec fn model(&self) -> RegisterHeadView {
        RegisterHeadView {
            elem_base: self.elem_base@,
            streamable: self.streamable,
            address_kinds: self.address_kinds@,
            length: self.length,
            access_mode: self.access_mode,
            p_port: self.p_port,
        }
    }

    fn parse(elem: &Element, pos: usize, store: &mut NodeStore) -> (r: Result<
        (RegisterHead, usize),
        ParseError,
    >)
        requires
            old(store).wf(),
            pos <= elem.children@.len(),
        ensures
            final(store).wf(),
            final(store)@.extends(old(store)@),
            match r {
                Ok((head, end)) => register_head_of(elem.children@, pos as int, old(store)@)
                    == Ok::<(RegisterHeadView, int, NodeStoreView), ParseError>(
                    (head.model(), end as int, final(store)@),
                ) && pos <= end <= elem.children@.len(),
                Err(e) => register_head_of(elem.children@, pos as int, old(store)@) == Err::<
                    (RegisterHeadView, int, NodeStoreView),
                    ParseError,
                >(e),
            },
    {
        let (elem_base, at1) = match NodeElementBase::parse(elem, pos) {
            Ok(found) => found,
            Err(e) => {
                return Err(e);
            },
        };
        let (streamable, at2) = if elem.child_is(at1, "Streamable") {
            match yes_no_from_text(elem.children[at1].trimmed_text()) {
                Some(v) => (v, at1 + 1),
                None => {
                    return Err(ParseError::InvalidValue);
                },
            }
        } else {
            (false, at1)
        };
        let (address_kinds, at3) = match read_address_kinds(elem, at2, store) {
            Ok(found) => found,
            Err(e) => {
                return Err(e);
            },
        };
        let (length, at4) = if elem.child_is(at3, "Length") {
            match i64_from_text(elem.children[at3].text.as_str()) {
                Some(v) => (ImmOrPNode::Imm(v), at3 + 1),
                None => {
                    return Err(ParseError::InvalidValue);
                },
            }
        } else if elem.child_is(at3, "pLength") {
            match intern_name(store, elem.children[at3].trimmed_text()) {
                Ok(id) => (ImmOrPNode::PNode(id), at3 + 1),
                Err(e) => {
                    return Err(e);
                },
            }
        } else {
            return Err(ParseError::MissingElement);
        };
        let (access_mode, at5) = if elem.child_is(at4, "AccessMode") {
            match AccessMode::from_text(elem.children[at4].trimmed_text()) {
                Some(v) => (v, at4 + 1),
                None => {
                    return Err(ParseError::InvalidValue);
                },
            }
        } else {
            (AccessMode::RO, at4)
        };
        let (p_port, at6) = if elem.child_is(at5, "pPort") {
            match intern_name(store, elem.children[at5].trimmed_text()) {
                Ok(id) => (id, at5 + 1),
                Err(e) => {
                    return Err(e);
                },
            }
        } else {
            return Err(ParseError::MissingElement);
        };
        Ok((RegisterHead { elem_base, streamable, address_kinds, length, access_mode, p_port }, at6))
    }
}

/// Reads what a register body says of caching.
fn read_register_caching(elem: &Element, pos: usize, store: &mut NodeStore) -> (r: Result<
    (CachingMode, Option<u64>, Vec<NodeId>, usize),
    ParseError,
>)
    requires
        old(store).wf(),
        pos <= elem.children@.len(),
    ensures
        final(store).wf(),
        final(store)@.extends(old(store)@),
        match r {
            Ok((cacheable, polling_time, ids, end)) => register_caching_of(
                elem.children@,
                pos as int,
                old(store)@,
            ) == Ok::<(CachingMode, Option<u64>, Seq<NodeId>, int, NodeStoreView), ParseError>(
                (cacheable, polling_time, ids@, end as int, final(store)@),
            ) && pos <= end <= elem.children@.len(),
            Err(e) => register_caching_of(elem.children@, pos as int, old(store)@) == Err::<
                (CachingMode, Option<u64>, Seq<NodeId>, int, NodeStoreView),
                ParseError,
            >(e),
        },
{
    let (cacheable, at1) = if elem.child_is(pos, "Cachable") {
        match CachingMode::from_text(elem.children[pos].trimmed_text()) {
            Some(v) => (v, pos + 1),
            None => {
                return Err(ParseError::InvalidValue);
            },
        }
    } else {
        (CachingMode::WriteThrough, pos)
    };
    let (polling_time, at2) = if elem.child_is(at1, "PollingTime") {
        match u64_from_text(elem.children[at1].trimmed_text()) {
            Some(v) => (Some(v), at1 + 1),
            None => {
                return Err(ParseError::InvalidValue);
            },
        }
    } else {
        (None, at1)
    };
    match read_node_refs(elem, at2, "pInvalidator", store) {
        Ok((ids, at3)) => Ok((cacheable, polling_time, ids, at3)),
        Err(e) => Err(e),
    }
}

impl RegisterTail {
    spec fn model(&self) -> RegisterTailView {
        RegisterTailView {
            cacheable: self.cacheable,
            polling_time: self.polling_time,
            p_invalidators: self.p_invalidators@,
            sign: self.sign,
            endianness: self.endianness,
            unit: text_view(self.unit),
            representation: self.representation,
            p_selecteds: self.p_selecteds@,
        }
    }

    fn parse(elem: &Element, pos: usize, store: &mut NodeStore) -> (r: Result<
        (RegisterTail, usize),
        ParseError,
    >)
        requires
            old(store).wf(),
            pos <= elem.children@.len(),
        ensures
            final(store).wf(),
            final(store)@.extends(old(store)@),
            match r {
                Ok((tail, end)) => register_tail_of(elem.children@, pos as int, old(store)@)
                    == Ok::<(RegisterTailView, int, NodeStoreView), ParseError>(
                    (tail.model(), end as int, final(store)@),
                ) && pos <= end <= elem.children@.len(),
                Err(e) => register_tail_of(elem.children@, pos as int, old(store)@) == Err::<
                    (RegisterTailView, int, NodeStoreView),
                    ParseError,
                >(e),
            },
    {
        let (cacheable, polling_time, p_invalidators, at3) = match read_register_caching(
            elem,
            pos,
            store,
        ) {
            Ok(found) => found,
            Err(e) => {
                return Err(e);
            },
        };
        let (sign, at4) = if elem.child_is(at3, "Sign") {
            match Sign::from_text(elem.children[at3].trimmed_text()) {
                Some(v) => (v, at3 + 1),
                None => {
                    return Err(ParseError::InvalidValue);
                },
            }
        } else {
            (Sign::Unsigned, at3)
        };
        let (endianness, at5) = if elem.child_is(at4, "Endianess") {
            match Endianness::from_text(elem.children[at4].trimmed_text()) {
                Some(v) => (v, at4 + 1),
                None => {
                    return Err(ParseError::InvalidValue);
                },
            }
        } else {
            (Endianness::LE, at4)
        };
        let (unit, at6) = read_optional_text(elem, at5, "Unit");
        let (representation, at7) = if elem.child_is(at6, "Representation") {
            match Representation::from_text(elem.children[at6].trimmed_text()) {
                Some(v) => (v, at6 + 1),
                None => {
                    return Err(ParseError::InvalidValue);
                },
            }
        } else {
            (Representation::PureNumber, at6)
        };
        let (p_selecteds, at8) = match read_node_refs(elem, at7, "pSelected", store) {
            Ok(found) => found,
            Err(e) => {
                return Err(e);
            },
        };
        Ok(
            (
                RegisterTail {
                    cacheable,
                    polling_time,
                    p_invalidators,
                    sign,
                    endianness,
                    unit,
                    representation,
                    p_selecteds,
                },
                at8,
            ),
        )
    }
}

impl RegisterBase {
    /// Reads the body of a register description from the children of `elem`
    /// from `pos` on.
    pub fn parse(elem: &Element, pos: usize, store: &mut NodeStore) -> (r: Result<
        (RegisterBase, usize),
        ParseError,
    >)
        requires
            old(store).wf(),
            pos <= elem.children@.len(),
        ensures
            final(store).wf(),
            final(store)@.extends(old(store)@),
            match r {
                Ok((base, end)) => register_base_of(elem.children@, pos as int, old(store)@)
                    == Ok::<(RegisterBaseView, int, NodeStoreView), ParseError>(
                    (base@, end as int, final(store)@),
                ) && pos <= end <= elem.children@.len(),
                Err(e) => register_base_of(elem.children@, pos as int, old(store)@) == Err::<
                    (RegisterBaseView, int, NodeStoreView),
                    ParseError,
                >(e),
            },
    {
        let (head, at1) = match RegisterHead::parse(elem, pos, store) {
            Ok(found) => found,
            Err(e) => {
                return Err(e);
            },
        };
        let (tail, at2) = match RegisterTail::parse(elem, at1, store) {
            Ok(found) => found,
            Err(e) => {
                return Err(e);
            },
        };
        Ok(
            (
                RegisterBase {
                    elem_base: head.elem_base,
                    streamable: head.streamable,
                    address_kinds: head.address_kinds,
                    length: head.length,
                    access_mode: head.access_mode,
                    p_port: head.p_port,
                    cacheable: tail.cacheable,
                    polling_time: tail.polling_time,
                    p_invalidators: tail.p_invalidators,
                    sign: tail.sign,
                    endianness: tail.endianness,
                    unit: tail.unit,
                    representation: tail.representation,
                    p_selecteds: tail.p_selecteds,
                },
                at2,
            ),
        )
    }
}

} // verus!
