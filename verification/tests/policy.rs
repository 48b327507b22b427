use genapi_core::device::DeviceAccessStatus;
use genapi_core::elem_type::AccessMode;
use genapi_core::node_store::NodeStore;
use genapi_core::parse::Parse;
use genapi_core::policy::{check_access, AccessDenied, AccessUse, CacheEntry};
use genapi_core::register::RegisterNode;
use genapi_core::xml::Element;

fn register(cachable: &str, polling: Option<&str>, invalidators: &[&str]) -> (RegisterNode, NodeStore) {
    let mut elem = Element::new("Register")
        .with_attribute("Name", "R")
        .with_child(Element::new("Address").with_text("0"))
        .with_child(Element::new("Length").with_text("4"))
        .with_child(Element::new("AccessMode").with_text("RO"))
        .with_child(Element::new("pPort").with_text("Device"))
        .with_child(Element::new("Cachable").with_text(cachable));
    if let Some(time) = polling {
        elem = elem.with_child(Element::new("PollingTime").with_text(time));
    }
    for name in invalidators {
        elem = elem.with_child(Element::new("pInvalidator").with_text(name));
    }
    let mut store = NodeStore::new();
    let node = RegisterNode::parse(&elem, &mut store).unwrap();
    (node, store)
}

#[test]
fn access_is_checked_against_the_mode() {
    assert_eq!(check_access(AccessMode::RO, AccessUse::Read), Ok(()));
    assert_eq!(check_access(AccessMode::WO, AccessUse::Write), Ok(()));
    assert_eq!(check_access(AccessMode::RW, AccessUse::Read), Ok(()));
    assert_eq!(check_access(AccessMode::RW, AccessUse::Write), Ok(()));
    assert_eq!(
        check_access(AccessMode::RO, AccessUse::Write),
        Err(AccessDenied { mode: AccessMode::RO, usage: AccessUse::Write })
    );
    assert_eq!(
        check_access(AccessMode::WO, AccessUse::Read),
        Err(AccessDenied { mode: AccessMode::WO, usage: AccessUse::Read })
    );
    let (node, _) = register("NoCache", None, &[]);
    assert_eq!(node.register_base().check_access(AccessUse::Read), Ok(()));
    assert_eq!(
        node.register_base().check_access(AccessUse::Write),
        Err(AccessDenied { mode: AccessMode::RO, usage: AccessUse::Write })
    );
}

#[test]
fn no_cache_keeps_nothing() {
    let (node, _) = register("NoCache", None, &[]);
    let base = node.register_base();
    let entry = Some(CacheEntry { value: 5, stored_at: 10 });
    assert_eq!(base.cached_value(entry, 10), None);
    assert_eq!(base.entry_after_read(5, 10), None);
    assert_eq!(base.entry_after_write(5, 10), None);
}

#[test]
fn write_through_keeps_what_was_read_and_written() {
    let (node, _) = register("WriteThrough", None, &[]);
    let base = node.register_base();
    assert_eq!(base.cached_value(None, 0), None);
    let read = base.entry_after_read(5, 10);
    assert_eq!(read, Some(CacheEntry { value: 5, stored_at: 10 }));
    assert_eq!(base.cached_value(read, u64::MAX), Some(5));
    let written = base.entry_after_write(6, 20);
    assert_eq!(written, Some(CacheEntry { value: 6, stored_at: 20 }));
    assert_eq!(base.cached_value(written, 20), Some(6));
}

#[test]
fn write_around_empties_the_cache_on_a_write() {
    let (node, _) = register("WriteAround", None, &[]);
    let base = node.register_base();
    let read = base.entry_after_read(5, 10);
    assert_eq!(base.cached_value(read, 11), Some(5));
    assert_eq!(base.entry_after_write(6, 20), None);
}

#[test]
fn the_polling_time_bounds_the_age() {
    let (node, _) = register("WriteThrough", Some("300"), &[]);
    let base = node.register_base();
    let entry = base.entry_after_read(5, 1000);
    assert_eq!(base.cached_value(entry, 1000), Some(5));
    assert_eq!(base.cached_value(entry, 1300), Some(5));
    assert_eq!(base.cached_value(entry, 1301), None);
    assert_eq!(base.cached_value(entry, 999), None);
    let (zero, _) = register("WriteAround", Some("0"), &[]);
    let entry = zero.register_base().entry_after_read(5, 7);
    assert_eq!(zero.register_base().cached_value(entry, 7), Some(5));
    assert_eq!(zero.register_base().cached_value(entry, 8), None);
}

#[test]
fn an_invalidator_empties_the_cache() {
    let (node, store) = register("WriteThrough", Some("300"), &["ExposureTimeMode", "Gain"]);
    let base = node.register_base();
    let mode = store.lookup("ExposureTimeMode").unwrap();
    let gain = store.lookup("Gain").unwrap();
    let port = store.lookup("Device").unwrap();
    assert!(base.is_invalidated_by(mode));
    assert!(base.is_invalidated_by(gain));
    assert!(!base.is_invalidated_by(port));
    let entry = Some(CacheEntry { value: 5, stored_at: 10 });
    assert_eq!(base.entry_after_change(entry, mode), None);
    assert_eq!(base.entry_after_change(entry, gain), None);
    assert_eq!(base.entry_after_change(entry, port), entry);
    assert_eq!(base.entry_after_change(None, port), None);
}

#[test]
fn opened_states_of_a_device() {
    assert!(DeviceAccessStatus::OpenReadOnly.is_opened());
    assert!(DeviceAccessStatus::OpenReadWrite.is_opened());
    for status in [
        DeviceAccessStatus::Unknown,
        DeviceAccessStatus::ReadWrite,
        DeviceAccessStatus::ReadOnly,
        DeviceAccessStatus::NoAccess,
        DeviceAccessStatus::Busy,
    ] {
        assert!(!status.is_opened());
    }
}
