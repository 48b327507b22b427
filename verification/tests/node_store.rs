use genapi_core::error::DuplicateNodeError;
use genapi_core::node::NodeData;
use genapi_core::node_store::{NodeId, NodeStore};
use genapi_core::parse::Parse;
use genapi_core::swiss_knife::SwissKnifeNode;
use genapi_core::xml::Element;

fn knife(name: &str, formula: &str) -> Element {
    Element::new("IntSwissKnife")
        .with_attribute("Name", name)
        .with_child(Element::new("Formula").with_text(formula))
}

#[test]
fn interning_twice_gives_one_id() {
    let mut store = NodeStore::new();
    let first = store.id_by_name("X");
    let second = store.id_by_name("X");
    assert_eq!(first, second);
    assert_eq!(store.len(), 1);
}

#[test]
fn distinct_names_get_distinct_ids() {
    let mut store = NodeStore::new();
    let a = store.id_by_name("Gain");
    let b = store.id_by_name("gain");
    let c = store.id_by_name("Gain ");
    assert_ne!(a, b);
    assert_ne!(a, c);
    assert_ne!(b, c);
    assert_eq!(store.id_by_name("Gain"), a);
    assert_eq!(store.len(), 3);
}

#[test]
fn ids_are_dense_and_sequential() {
    let mut store = NodeStore::new();
    assert_eq!(store.len(), 0);
    for (i, name) in ["a", "b", "c", "d"].iter().enumerate() {
        let id = store.id_by_name(name);
        assert_eq!(id.to_usize(), i);
        assert_eq!(Some(id), NodeId::try_from_usize(i));
    }
    assert_eq!(store.len(), 4);
}

#[test]
fn try_id_by_name_interns_like_id_by_name() {
    let mut store = NodeStore::new();
    let a = store.try_id_by_name("A").unwrap();
    let b = store.id_by_name("B");
    assert_eq!(store.try_id_by_name("B"), Some(b));
    assert_eq!(store.try_id_by_name("A"), Some(a));
    assert_eq!(store.len(), 2);
}

#[test]
fn lookup_does_not_intern() {
    let mut store = NodeStore::new();
    assert_eq!(store.lookup("A"), None);
    assert_eq!(store.len(), 0);
    let a = store.id_by_name("A");
    assert_eq!(store.lookup("A"), Some(a));
    assert_eq!(store.lookup("B"), None);
}

#[test]
fn names_are_found_by_id() {
    let mut store = NodeStore::new();
    let a = store.id_by_name("Width");
    let b = store.id_by_name("Height");
    assert_eq!(store.name_by_id(a).as_deref(), Some("Width"));
    assert_eq!(store.name_by_id(b).as_deref(), Some("Height"));
    assert_eq!(store.name_by_id(NodeId::try_from_usize(2).unwrap()), None);
}

#[test]
fn the_largest_number_is_reserved() {
    assert_eq!(NodeId::try_from_usize(u32::MAX as usize), None);
    let last = NodeId::try_from_usize(u32::MAX as usize - 1).unwrap();
    assert_eq!(last.to_usize(), u32::MAX as usize - 1);
    assert_eq!(NodeId::try_from_usize(0).unwrap().to_usize(), 0);
}

#[test]
fn node_opt_is_none_for_unassigned_and_out_of_range() {
    let mut store = NodeStore::new();
    let a = store.id_by_name("A");
    let b = store.id_by_name("B");
    assert!(store.node_opt(a).is_none());
    let node = SwissKnifeNode::parse(&knife("B", "1"), &mut store).unwrap();
    store.store_node(b, NodeData::SwissKnife(node)).unwrap();
    // a lies below b and has no data; an id past the end has none either
    assert!(store.node_opt(a).is_none());
    assert!(store.node_opt(NodeId::try_from_usize(7).unwrap()).is_none());
    assert!(matches!(store.node(b), NodeData::SwissKnife(_)));
}

#[test]
fn storing_twice_is_an_error_and_keeps_the_first() {
    let mut store = NodeStore::new();
    let id = store.id_by_name("K");
    let first = SwissKnifeNode::parse(&knife("K", "1+1"), &mut store).unwrap();
    let second = SwissKnifeNode::parse(&knife("K", "5"), &mut store).unwrap();
    assert_eq!(store.store_node(id, NodeData::SwissKnife(first)), Ok(()));
    assert_eq!(
        store.store_node(id, NodeData::SwissKnife(second)),
        Err(DuplicateNodeError { id })
    );
    match store.node(id) {
        NodeData::SwissKnife(kept) => {
            assert_eq!(
                kept.evaluate(&[]),
                Ok(genapi_core::number::Number::Integer(2))
            );
        }
        _ => panic!(),
    }
}

#[test]
fn the_default_store_is_empty() {
    let store = NodeStore::default();
    assert_eq!(store.len(), 0);
    assert_eq!(store.lookup("A"), None);
    assert!(store.node_opt(NodeId::try_from_usize(0).unwrap()).is_none());
}
