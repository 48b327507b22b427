//! The steps that the readers of all node kinds are made of.
//!
//! A node is read from its element in one pass over the child elements, in
//! the order that the schema gives them. A reader holds the index of the
//! next child to look at; an optional child that is absent leaves the index
//! where it is. Every name met is interned at once, so a node may be named
//! before it is described.

use crate::error::ParseError;
use crate::node_store::NodeId;
use crate::node_store::NodeStore;
use crate::node_store::NodeStoreView;
use crate::text::chars_of;
use crate::text::i64_of_text;
use crate::text::parse_i64;
use crate::text::trimmed;
use crate::xml::child_has_tag;
use crate::xml::Element;
use vstd::prelude::*;

verus! {

/// A node kind that is read from an element and a store of names.
pub trait Parse: Sized + View {
    /// What `elem` describes as a node of this kind, and the store after
    /// every name in the description was interned.
    spec fn described(elem: Element, st: NodeStoreView) -> Result<
        (Self::V, NodeStoreView),
        ParseError,
    >;

    /// Reads a node of this kind from its element. Every name that the
    /// description refers to is interned on the way, so that a node may be
    /// named before it is described. Whether the reading succeeds or not,
    /// the store keeps all it held.
    fn parse(elem: &Element, store: &mut NodeStore) -> (r: Result<Self, ParseError>)
        requires
            old(store).wf(),
        ensures
            final(store).wf(),
            final(store)@.extends(old(store)@),
            match r {
                Ok(node) => Self::described(*elem, old(store)@) == Ok::<
                    (Self::V, NodeStoreView),
                    ParseError,
                >((node@, final(store)@)),
                Err(e) => Self::described(*elem, old(store)@) == Err::<
                    (Self::V, NodeStoreView),
                    ParseError,
                >(e),
            },
    ;
}

/// The identifier of `name` and the store after interning it.
pub open spec fn interned_name(st: NodeStoreView, name: Seq<char>) -> Result<
    (NodeId, NodeStoreView),
    ParseError,
> {
    match st.intern(name) {
        Some((after, id)) => Ok((id, after)),
        None => Err(ParseError::TooManyNames),
    }
}

/// The text of the child at `pos` if that child has the tag `tag`, and the
/// index of the child to look at next.
pub open spec fn optional_text(children: Seq<Element>, pos: int, tag: Seq<char>) -> (
    Option<Seq<char>>,
    int,
) {
    if child_has_tag(children, pos, tag) {
        (Some(trimmed(children[pos].text@)), pos + 1)
    } else {
        (None, pos)
    }
}

/// The value that the child at `pos` denotes if that child has the tag
/// `tag`, else `default`, and the index of the child to look at next.
pub open spec fn optional_value<T>(
    children: Seq<Element>,
    pos: int,
    tag: Seq<char>,
    of_text: spec_fn(Seq<char>) -> Option<T>,
    default: T,
) -> Result<(T, int), ParseError> {
    if child_has_tag(children, pos, tag) {
        match of_text(trimmed(children[pos].text@)) {
            Some(v) => Ok((v, pos + 1)),
            None => Err(ParseError::InvalidValue),
        }
    } else {
        Ok((default, pos))
    }
}

/// The unsigned number that a text denotes.
pub open spec fn u64_of_text(s: Seq<char>) -> Option<u64> {
    match i64_of_text(s) {
        Some(v) => if v >= 0 {
            Some(v as u64)
        } else {
            None
        },
        None => None,
    }
}

/// The identifiers of the nodes that the children from `pos` on name, as far
/// as these children have the tag `tag`, after the identifiers in `found`.
pub open spec fn node_refs(
    children: Seq<Element>,
    pos: int,
    tag: Seq<char>,
    st: NodeStoreView,
    found: Seq<NodeId>,
) -> Result<(Seq<NodeId>, int, NodeStoreView), ParseError>
    decreases children.len() - pos,
{
    if child_has_tag(children, pos, tag) {
        match interned_name(st, trimmed(children[pos].text@)) {
            Ok((id, after)) => node_refs(children, pos + 1, tag, after, found.push(id)),
            Err(e) => Err(e),
        }
    } else {
        Ok((found, pos, st))
    }
}

/// Interns a name that an element refers to.
pub fn intern_name(store: &mut NodeStore, name: &str) -> (r: Result<NodeId, ParseError>)
    requires
        old(store).wf(),
    ensures
        final(store).wf(),
        final(store)@.extends(old(store)@),
        match r {
            Ok(id) => interned_name(old(store)@, name@) == Ok::<
                (NodeId, NodeStoreView),
                ParseError,
            >((id, final(store)@)),
            Err(e) => interned_name(old(store)@, name@) == Err::<
                (NodeId, NodeStoreView),
                ParseError,
            >(e),
        },
{
    match store.try_id_by_name(name) {
        Some(id) => Ok(id),
        None => Err(ParseError::TooManyNames),
    }
}

/// Reads a signed number.
pub fn i64_from_text(s: &str) -> (r: Option<i64>)
    ensures
        r == i64_of_text(s@),
{
    let chars = chars_of(s);
    parse_i64(chars.as_slice())
}

/// Reads an unsigned number.
pub fn u64_from_text(s: &str) -> (r: Option<u64>)
    ensures
        r == u64_of_text(s@),
{
    match i64_from_text(s) {
        Some(v) => if v >= 0 {
            Some(v as u64)
        } else {
            None
        },
        None => None,
    }
}

/// Reads the text of an optional child.
pub fn read_optional_text(elem: &Element, pos: usize, tag: &str) -> (r: (Option<String>, usize))
    requires
        pos <= elem.children@.len(),
    ensures
        r.1 <= elem.children@.len(),
        optional_text(elem.children@, pos as int, tag@) == (
            crate::node_base::text_view(r.0),
            r.1 as int,
        ),
{
    if elem.child_is(pos, tag) {
        (Some(elem.children[pos].trimmed_text().to_owned()), pos + 1)
    } else {
        (None, pos)
    }
}

/// Reads the nodes that a run of children with one tag names.
pub fn read_node_refs(elem: &Element, pos: usize, tag: &str, store: &mut NodeStore) -> (r: Result<
    (Vec<NodeId>, usize),
    ParseError,
>)
    requires
        old(store).wf(),
        pos <= elem.children@.len(),
    ensures
        final(store).wf(),
        final(store)@.extends(old(store)@),
        match r {
            Ok((ids, end)) => node_refs(
                elem.children@,
                pos as int,
                tag@,
                old(store)@,
                Seq::empty(),
            ) == Ok::<(Seq<NodeId>, int, NodeStoreView), ParseError>(
                (ids@, end as int, final(store)@),
            ) && pos <= end <= elem.children@.len(),
            Err(e) => node_refs(elem.children@, pos as int, tag@, old(store)@, Seq::empty())
                == Err::<(Seq<NodeId>, int, NodeStoreView), ParseError>(e),
        },
{
    let mut ids: Vec<NodeId> = Vec::new();
    let mut p: usize = pos;
    while elem.child_is(p, tag)
        invariant
            store.wf(),
            store@.extends(old(store)@),
            pos <= p <= elem.children@.len(),
            node_refs(elem.children@, pos as int, tag@, old(store)@, Seq::empty()) == node_refs(
                elem.children@,
                p as int,
                tag@,
                store@,
                ids@,
            ),
        decreases elem.children@.len() - p,
    {
        match intern_name(store, elem.children[p].trimmed_text()) {
            Ok(id) => {
                ids.push(id);
            },
            Err(e) => {
                return Err(e);
            },
        }
        p = p + 1;
    }
    Ok((ids, p))
}

} // verus!
