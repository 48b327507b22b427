//! Interning of node names and single-assignment storage of node data.

use crate::error::DuplicateNodeError;
use crate::node::NodeData;
use crate::node::NodeDataView;
use string_interner::DefaultBackend;
use string_interner::StringInterner;
use string_interner::Symbol;
use vstd::prelude::*;

verus! {

/// The bidirectional name table: a `string_interner::StringInterner` over its
/// default backend and symbol type.
#[verifier::external_body]
pub struct NameTable {
    inner: StringInterner<DefaultBackend>,
}

/// The names a table holds, in the order in which they were first interned.
/// The position of a name in this sequence is the number of its symbol.
pub uninterp spec fn interned_names(table: NameTable) -> Seq<Seq<char>>;

/// The number of names past which the symbol type of the table has no value left.
pub const NAME_LIMIT: u32 = 0xffff_ffff;

/// `StringInterner::new`: a fresh table holds no name.
#[verifier::external_body]
fn table_new() -> (table: NameTable)
    ensures
        interned_names(table) == Seq::<Seq<char>>::empty(),
{
    NameTable { inner: StringInterner::new() }
}

/// `StringInterner::len`: the number of names held.
#[verifier::external_body]
fn table_len(table: &NameTable) -> (n: usize)
    ensures
        n == interned_names(*table).len(),
{
    table.inner.len()
}

/// `StringInterner::get`: the symbol of a name that is held, as its number;
/// `None` for a name that is not held.
#[verifier::external_body]
fn table_get(table: &NameTable, name: &str) -> (found: Option<usize>)
    ensures
        match found {
            Some(i) => i < interned_names(*table).len() && interned_names(*table)[i as int]
                == name@,
            None => !interned_names(*table).contains(name@),
        },
{
    table.inner.get(name).map(|symbol| symbol.to_usize())
}

/// `StringInterner::get_or_intern`: a name that is held keeps its symbol and
/// the table stays as it is; a new name is appended and gets the next number.
/// The call panics once the symbol type has no value left, which `requires`
/// excludes.
#[verifier::external_body]
fn table_get_or_intern(table: &mut NameTable, name: &str) -> (i: usize)
    requires
        interned_names(*old(table)).contains(name@) || interned_names(*old(table)).len()
            < NAME_LIMIT,
    ensures
        i < interned_names(*final(table)).len(),
        interned_names(*final(table))[i as int] == name@,
        interned_names(*old(table)).contains(name@) ==> interned_names(*final(table))
            == interned_names(*old(table)),
        !interned_names(*old(table)).contains(name@) ==> interned_names(*final(table))
            == interned_names(*old(table)).push(name@) && i == interned_names(*old(table)).len(),
{
    table.inner.get_or_intern(name).to_usize()
}

/// `StringInterner::resolve`: the name that the symbol with the number `i`
/// stands for, copied out; `None` if the table holds no such symbol. The
/// largest `u32` is the number of no symbol at all, which `requires`
/// excludes.
#[verifier::external_body]
fn table_resolve(table: &NameTable, i: u32) -> (name: Option<String>)
    requires
        i < NAME_LIMIT,
    ensures
        match name {
            Some(s) => i < interned_names(*table).len() && s@ == interned_names(*table)[i as int],
            None => i >= interned_names(*table).len(),
        },
{
    let symbol = string_interner::DefaultSymbol::try_from_usize(i as usize).unwrap();
    table.inner.resolve(symbol).map(|s| s.to_string())
}

/// The identifier of a node: the number under which its name was interned.
#[derive(Debug, Clone, Copy, PartialEq, Eq, Hash, Structural)]
pub struct NodeId(u32);

impl NodeId {
    /// The number of the identifier.
    pub closed spec fn index(self) -> nat {
        self.0 as nat
    }

    /// The identifier with the number `i`, for `i` below `NAME_LIMIT`.
    pub closed spec fn at(i: nat) -> NodeId {
        NodeId(i as u32)
    }

    /// The identifier with the given number. The largest `u32` is reserved
    /// and is the number of no identifier.
    pub fn try_from_usize(index: usize) -> (id: Option<NodeId>)
        ensures
            match id {
                Some(id) => index < NAME_LIMIT && id == NodeId::at(index as nat),
                None => index >= NAME_LIMIT,
            },
    {
        if index >= 0xffff_ffff {
            None
        } else {
            Some(NodeId(index as u32))
        }
    }

    /// The number of the identifier.
    pub fn to_usize(self) -> (index: usize)
        ensures
            index == self.index(),
    {
        self.0 as usize
    }
}

/// An identifier is the one with its number, and the numbers of distinct
/// identifiers differ.
pub broadcast proof fn lemma_id_of_index(id: NodeId)
    ensures
        NodeId::at(#[trigger] id.index()) == id,
        id.index() <= NAME_LIMIT,
{
}

/// The number of the identifier with a number below the limit is that number.
pub broadcast proof fn lemma_index_of_id(i: nat)
    requires
        i <= NAME_LIMIT,
    ensures
        #[trigger] NodeId::at(i).index() == i,
{
}

/// There are no more distinct identifiers with numbers below `n` than `n`.
pub proof fn lemma_distinct_ids_bounded(ids: Seq<NodeId>, n: nat)
    requires
        ids.no_duplicates(),
        forall|i: int| 0 <= i < ids.len() ==> (#[trigger] ids[i]).index() < n,
    ensures
        ids.len() <= n,
{
    let numbers = Seq::new(ids.len(), |i: int| ids[i].index() as int);
    assert forall|i: int, j: int|
        0 <= i < numbers.len() && 0 <= j < numbers.len() && i != j implies numbers[i]
        != numbers[j] by {
        lemma_id_of_index(ids[i]);
        lemma_id_of_index(ids[j]);
    }
    numbers.unique_seq_to_set();
    vstd::set_lib::lemma_int_range(0, n as int);
    assert forall|x: int| numbers.to_set().contains(x) implies vstd::set_lib::set_int_range(
        0,
        n as int,
    ).contains(x) by {
        let i = choose|i: int| 0 <= i < numbers.len() && numbers[i] == x;
        assert(ids[i].index() < n);
    }
    vstd::set_lib::lemma_len_subset(numbers.to_set(), vstd::set_lib::set_int_range(0, n as int));
}

/// What a store holds: the names in the order of their identifiers, and the
/// data of the nodes, each at the number of its identifier.
pub struct NodeStoreView {
    pub names: Seq<Seq<char>>,
    pub slots: Seq<Option<NodeDataView>>,
}

/// `slots` made at least `n` long by empty slots at its end.
pub open spec fn grown(slots: Seq<Option<NodeDataView>>, n: nat) -> Seq<Option<NodeDataView>> {
    if slots.len() >= n {
        slots
    } else {
        slots + Seq::new((n - slots.len()) as nat, |i: int| None::<NodeDataView>)
    }
}

impl NodeStoreView {
    /// No name is held twice, and no more names than there are identifiers.
    pub open spec fn wf(self) -> bool {
        &&& self.names.no_duplicates()
        &&& self.names.len() <= NAME_LIMIT
    }

    /// The data of the node `id`, if it has been given any.
    pub open spec fn node_at(self, id: NodeId) -> Option<NodeDataView> {
        if id.index() < self.slots.len() {
            self.slots[id.index() as int]
        } else {
            None
        }
    }

    /// Whether this store holds all that `earlier` holds, in the same places:
    /// every name of `earlier` under the same identifier, and every node
    /// that has data in `earlier` with the same data.
    pub open spec fn extends(self, earlier: NodeStoreView) -> bool {
        &&& earlier.names.len() <= self.names.len()
        &&& forall|i: int|
            0 <= i < earlier.names.len() ==> #[trigger] self.names[i] == earlier.names[i]
        &&& forall|id: NodeId|
            earlier.node_at(id) is Some ==> #[trigger] self.node_at(id) == earlier.node_at(id)
    }

    /// The identifier of `name`, if the name is held.
    pub open spec fn id_of(self, name: Seq<char>) -> Option<NodeId> {
        if self.names.contains(name) {
            Some(NodeId::at(self.names.index_of(name) as nat))
        } else {
            None
        }
    }

    /// The store after `name` was interned, and the identifier of the name.
    /// A name that is held keeps its identifier; a new one gets the next
    /// number. `None` if the name is new and no identifier is left.
    pub open spec fn intern(self, name: Seq<char>) -> Option<(NodeStoreView, NodeId)> {
        if self.names.contains(name) {
            Some((self, NodeId::at(self.names.index_of(name) as nat)))
        } else if self.names.len() < NAME_LIMIT {
            Some(
                (
                    NodeStoreView { names: self.names.push(name), slots: self.slots },
                    NodeId::at(self.names.len()),
                ),
            )
        } else {
            None
        }
    }

    /// The store that interning `name` leaves, where it succeeds.
    pub open spec fn interned(self, name: Seq<char>) -> NodeStoreView {
        match self.intern(name) {
            Some((after, _)) => after,
            None => self,
        }
    }

    /// The identifier that interning `name` gives, where it succeeds.
    pub open spec fn interned_id(self, name: Seq<char>) -> NodeId {
        match self.intern(name) {
            Some((_, id)) => id,
            None => NodeId::at(0),
        }
    }

    /// The store after the node `id` was given `data`. A node that has data
    /// keeps it, and the attempt is an error.
    pub open spec fn with_node(self, id: NodeId, data: NodeDataView) -> Result<
        NodeStoreView,
        DuplicateNodeError,
    > {
        if self.node_at(id) is Some {
            Err(DuplicateNodeError { id })
        } else {
            Ok(
                NodeStoreView {
                    names: self.names,
                    slots: grown(self.slots, id.index() + 1).update(id.index() as int, Some(data)),
                },
            )
        }
    }
}

/// Interning keeps a store well formed and gives the name its identifier;
/// every name held before keeps its own.
pub proof fn lemma_intern(st: NodeStoreView, name: Seq<char>)
    requires
        st.wf(),
        st.intern(name) is Some,
    ensures
        st.interned(name).wf(),
        st.interned(name).id_of(name) == Some(st.interned_id(name)),
        st.interned_id(name).index() < st.interned(name).names.len(),
        st.interned(name).names[st.interned_id(name).index() as int] == name,
        forall|other: Seq<char>| #[trigger]
            st.names.contains(other) ==> st.interned(name).id_of(other) == st.id_of(other),
{
    let after = st.interned(name);
    let id = st.interned_id(name);
    if st.names.contains(name) {
        let i = st.names.index_of(name);
        assert(0 <= i < st.names.len() && st.names[i] == name);
    } else {
        assert(after.names.last() == name);
        assert(after.names[st.names.len() as int] == name);
        assert forall|i: int, j: int|
            0 <= i < after.names.len() && 0 <= j < after.names.len() && i != j implies after.names[i]
            != after.names[j] by {
            if i < st.names.len() && j < st.names.len() {
            } else if i < st.names.len() {
                assert(st.names.contains(st.names[i]));
            } else {
                assert(st.names.contains(st.names[j]));
            }
        }
        let k = after.names.index_of(name);
        assert(after.names.contains(name));
        assert(0 <= k < after.names.len() && after.names[k] == name);
        assert(k == st.names.len());
        assert forall|other: Seq<char>| #[trigger] st.names.contains(other) implies after.id_of(
            other,
        ) == st.id_of(other) by {
            let a = st.names.index_of(other);
            assert(0 <= a < st.names.len() && st.names[a] == other);
            assert(after.names[a] == other);
            assert(after.names.contains(other));
            let b = after.names.index_of(other);
            assert(0 <= b < after.names.len() && after.names[b] == other);
            assert(a == b);
        }
    }
}

/// Interning and giving data to a node that has none extend a store.
pub proof fn lemma_steps_extend(st: NodeStoreView, name: Seq<char>, id: NodeId, data: NodeDataView)
    ensures
        st.intern(name) is Some ==> st.interned(name).extends(st),
        st.with_node(id, data) matches Ok(after) ==> after.extends(st),
        st.extends(st),
{
    if let Ok(after) = st.with_node(id, data) {
        assert forall|other: NodeId| st.node_at(other) is Some implies #[trigger] after.node_at(
            other,
        ) == st.node_at(other) by {
            lemma_id_of_index(other);
            lemma_id_of_index(id);
        }
    }
}

/// A name keeps its identifier in every store that extends the one it is
/// held in.
pub proof fn lemma_id_kept(earlier: NodeStoreView, later: NodeStoreView, name: Seq<char>)
    requires
        earlier.wf(),
        later.wf(),
        later.extends(earlier),
        earlier.names.contains(name),
    ensures
        later.id_of(name) == earlier.id_of(name),
{
    let i = earlier.names.index_of(name);
    assert(0 <= i < earlier.names.len() && earlier.names[i] == name);
    assert(later.names[i] == name);
    assert(later.names.contains(name));
    let j = later.names.index_of(name);
    assert(0 <= j < later.names.len() && later.names[j] == name);
}

/// In one store, different names have different identifiers.
pub proof fn lemma_ids_distinct(st: NodeStoreView, first: Seq<char>, second: Seq<char>)
    requires
        st.wf(),
        first != second,
        st.names.contains(first),
        st.names.contains(second),
    ensures
        st.id_of(first) != st.id_of(second),
{
    let i = st.names.index_of(first);
    let j = st.names.index_of(second);
    assert(0 <= i < st.names.len() && st.names[i] == first);
    assert(0 <= j < st.names.len() && st.names[j] == second);
    assert(NodeId::at(i as nat).index() == i);
    assert(NodeId::at(j as nat).index() == j);
}

/// Interning one name twice gives one identifier, and the second time the
/// store is left as it is.
pub proof fn lemma_intern_twice(st: NodeStoreView, name: Seq<char>)
    requires
        st.wf(),
        st.intern(name) is Some,
    ensures
        st.interned(name).intern(name) == Some((st.interned(name), st.interned_id(name))),
{
    lemma_intern(st, name);
}

/// Two different names get two different identifiers, whichever is interned
/// first and whatever the store held before.
pub proof fn lemma_intern_distinct(st: NodeStoreView, first: Seq<char>, second: Seq<char>)
    requires
        st.wf(),
        first != second,
        st.intern(first) is Some,
        st.interned(first).intern(second) is Some,
    ensures
        st.interned_id(first) != st.interned(first).interned_id(second),
{
    let mid = st.interned(first);
    let a = st.interned_id(first);
    let b = mid.interned_id(second);
    lemma_intern(st, first);
    lemma_intern(mid, second);
    let last = mid.interned(second);
    assert(mid.names.contains(first)) by {
        assert(mid.names[a.index() as int] == first);
    }
    assert(last.id_of(first) == Some(a));
    assert(last.id_of(second) == Some(b));
    if a == b {
        assert(last.names.contains(first));
        assert(last.names.contains(second));
        let i = last.names.index_of(first);
        let j = last.names.index_of(second);
        assert(0 <= i < last.names.len() && last.names[i] == first);
        assert(0 <= j < last.names.len() && last.names[j] == second);
        assert(NodeId::at(i as nat).index() == i);
        assert(NodeId::at(j as nat).index() == j);
    }
}

/// The names and the data of the nodes of one description.
pub struct NodeStore {
    interner: NameTable,
    store: Vec<Option<NodeData>>,
}

/// The model of the data of one slot.
pub open spec fn slot_view(slot: Option<NodeData>) -> Option<NodeDataView> {
    match slot {
        Some(data) => Some(data@),
        None => None,
    }
}

impl View for NodeStore {
    type V = NodeStoreView;

    closed spec fn view(&self) -> NodeStoreView {
        NodeStoreView {
            names: interned_names(self.interner),
            slots: Seq::new(self.store@.len(), |i: int| slot_view(self.store@[i])),
        }
    }
}

impl NodeStore {
    /// Whether the store is well formed, which every store made by `new` and
    /// changed by the methods of this type is.
    pub open spec fn wf(&self) -> bool {
        self@.wf()
    }

    /// A store without names and without nodes.
    #[must_use]
    pub fn new() -> (store: NodeStore)
        ensures
            store.wf(),
            store@.names.len() == 0,
            store@.slots.len() == 0,
    {
        NodeStore { interner: table_new(), store: Vec::new() }
    }

    /// The number of names that the store holds.
    pub fn len(&self) -> (n: usize)
        ensures
            n == self@.names.len(),
    {
        table_len(&self.interner)
    }

    /// The identifier of `name` if the name is held. The store is not changed.
    pub fn lookup(&self, name: &str) -> (id: Option<NodeId>)
        requires
            self.wf(),
        ensures
            id == self@.id_of(name@),
    {
        match table_get(&self.interner, name) {
            Some(i) => {
                proof {
                    let k = self@.names.index_of(name@);
                    assert(self@.names.contains(name@));
                    assert(0 <= k < self@.names.len() && self@.names[k] == name@);
                }
                Some(NodeId(i as u32))
            },
            None => None,
        }
    }

    /// The name that `id` stands for, if it stands for one.
    pub fn name_by_id(&self, id: NodeId) -> (name: Option<String>)
        requires
            self.wf(),
        ensures
            match name {
                Some(s) => id.index() < self@.names.len() && s@ == self@.names[id.index() as int],
                None => id.index() >= self@.names.len(),
            },
    {
        if id.0 == 0xffff_ffff {
            None
        } else {
            table_resolve(&self.interner, id.0)
        }
    }

    /// The identifier of `name`, which is interned if it is not held yet;
    /// `None`, with the store unchanged, if the name is new and no identifier
    /// is left.
    pub fn try_id_by_name(&mut self, name: &str) -> (id: Option<NodeId>)
        requires
            old(self).wf(),
        ensures
            final(self).wf(),
            final(self)@.extends(old(self)@),
            match id {
                Some(id) => old(self)@.intern(name@) == Some((final(self)@, id))
                    && final(self)@.id_of(name@) == Some(id),
                None => old(self)@.intern(name@) is None && final(self)@ == old(self)@,
            },
            old(self)@.id_of(name@) matches Some(known) ==> id == Some(known) && final(self)@
                == old(self)@,
    {
        let full = table_len(&self.interner) >= 0xffff_ffff;
        if full && table_get(&self.interner, name).is_none() {
            return None;
        }
        Some(self.id_by_name(name))
    }

    /// The identifier of `name`, which is interned if it is not held yet.
    pub fn id_by_name(&mut self, name: &str) -> (id: NodeId)
        requires
            old(self).wf(),
            old(self)@.intern(name@) is Some,
        ensures
            final(self).wf(),
            final(self)@.extends(old(self)@),
            old(self)@.intern(name@) == Some((final(self)@, id)),
            final(self)@.id_of(name@) == Some(id),
            old(self)@.id_of(name@) matches Some(known) ==> id == known && final(self)@ == old(
                self,
            )@,
    {
        let i = table_get_or_intern(&mut self.interner, name);
        proof {
            lemma_intern(old(self)@, name@);
            lemma_steps_extend(old(self)@, name@, NodeId(0), arbitrary());
            if old(self)@.names.contains(name@) {
                let k = old(self)@.names.index_of(name@);
                assert(0 <= k < old(self)@.names.len() && old(self)@.names[k] == name@);
                assert(k == i);
            }
            assert(self@.slots =~= old(self)@.slots);
        }
        NodeId(i as u32)
    }

    /// The data of the node `id`, if it has been given any.
    pub fn node_opt(&self, id: NodeId) -> (node: Option<&NodeData>)
        ensures
            match node {
                Some(data) => self@.node_at(id) == Some(data@),
                None => self@.node_at(id) is None,
            },
    {
        let i = id.to_usize();
        if i < self.store.len() {
            self.store[i].as_ref()
        } else {
            None
        }
    }

    /// The data of the node `id`, which has been given some.
    pub fn node(&self, id: NodeId) -> (node: &NodeData)
        requires
            self@.node_at(id) is Some,
        ensures
            self@.node_at(id) == Some(node@),
    {
        match self.node_opt(id) {
            Some(data) => data,
            None => {
                proof {
                    assert(false);
                }
                vstd::pervasive::unreached()
            },
        }
    }

    /// Gives the node `id` its data. A node that has data keeps it: the
    /// attempt is an error and the store stays as it is.
    pub fn store_node(&mut self, id: NodeId, data: NodeData) -> (r: Result<
        (),
        DuplicateNodeError,
    >)
        requires
            old(self).wf(),
        ensures
            final(self).wf(),
            final(self)@.extends(old(self)@),
            match r {
                Ok(()) => old(self)@.with_node(id, data@) == Ok::<NodeStoreView, DuplicateNodeError>(
                    final(self)@,
                ),
                Err(e) => old(self)@.with_node(id, data@) == Err::<NodeStoreView, DuplicateNodeError>(
                    e,
                ) && final(self)@ == old(self)@,
            },
    {
        let i = id.to_usize();
        if i < self.store.len() && self.store[i].is_some() {
            return Err(DuplicateNodeError { id });
        }
        while self.store.len() <= i
            invariant
                self.interner == old(self).interner,
                old(self).store@.len() <= self.store@.len(),
                self.store@.len() <= i + 1 || self.store@.len() == old(self).store@.len(),
                self.store@.subrange(0, old(self).store@.len() as int) == old(self).store@,
                forall|j: int|
                    old(self).store@.len() <= j < self.store@.len() ==> self.store@[j] is None,
            decreases i + 1 - self.store@.len(),
        {
            self.store.push(None);
        }
        let ghost before = self.store@;
        self.store.set(i, Some(data));
        proof {
            let want = grown(old(self)@.slots, id.index() + 1).update(
                id.index() as int,
                Some(data@),
            );
            assert(self@.slots.len() == want.len());
            assert forall|j: int| 0 <= j < want.len() implies self@.slots[j] == want[j] by {
                if j != i {
                    assert(self.store@[j] == before[j]);
                    if j < old(self).store@.len() {
                        assert(before[j] == before.subrange(0, old(self).store@.len() as int)[j]);
                    }
                }
            }
            assert(self@.slots =~= want);
            lemma_steps_extend(old(self)@, Seq::empty(), id, data@);
        }
        Ok(())
    }
}

impl Default for NodeStore {
    fn default() -> (store: NodeStore)
        ensures
            store.wf(),
            store@.names.len() == 0,
            store@.slots.len() == 0,
    {
        NodeStore::new()
    }
}

} // verus!
