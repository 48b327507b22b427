use genapi_core::elem_type::{AccessMode, CachingMode, Endianness, Representation, Sign, Visibility, yes_no_from_text};
use genapi_core::parse::{i64_from_text, u64_from_text};
use genapi_core::text::{chars_of, parse_i64, trim_bounds};
use genapi_core::xml::{trim_str, Element};

#[test]
fn integers_from_text() {
    assert_eq!(i64_from_text("0"), Some(0));
    assert_eq!(i64_from_text("  42\n"), Some(42));
    assert_eq!(i64_from_text("-42"), Some(-42));
    assert_eq!(i64_from_text("+42"), Some(42));
    assert_eq!(i64_from_text("0x10000"), Some(0x10000));
    assert_eq!(i64_from_text("-0x10"), Some(-16));
    assert_eq!(i64_from_text("9223372036854775807"), Some(i64::MAX));
    assert_eq!(i64_from_text("-9223372036854775808"), Some(i64::MIN));
    assert_eq!(i64_from_text("0x7fffffffffffffff"), Some(i64::MAX));
    assert_eq!(i64_from_text("9223372036854775808"), None);
    assert_eq!(i64_from_text("-9223372036854775809"), None);
    assert_eq!(i64_from_text("18446744073709551616"), None);
    assert_eq!(i64_from_text(""), None);
    assert_eq!(i64_from_text("   "), None);
    assert_eq!(i64_from_text("-"), None);
    assert_eq!(i64_from_text("0x"), None);
    assert_eq!(i64_from_text("12a"), None);
    assert_eq!(i64_from_text("1 2"), None);
    assert_eq!(i64_from_text("--1"), None);
    assert_eq!(i64_from_text("1.0"), None);
    assert_eq!(parse_i64(&chars_of(" 7 ")), Some(7));
}

#[test]
fn unsigned_from_text() {
    assert_eq!(u64_from_text("300"), Some(300));
    assert_eq!(u64_from_text("0"), Some(0));
    assert_eq!(u64_from_text("-1"), None);
    assert_eq!(u64_from_text("x"), None);
}

#[test]
fn trimming() {
    assert_eq!(trim_str("  a b \t\r\n"), "a b");
    assert_eq!(trim_str("ab"), "ab");
    assert_eq!(trim_str(" \n "), "");
    assert_eq!(trim_str(""), "");
    assert_eq!(trim_str(" \u{e9}t\u{e9} "), "\u{e9}t\u{e9}");
    assert_eq!(trim_bounds(&chars_of("  ab ")), (2, 4));
    assert_eq!(chars_of("a\u{e9}b"), vec!['a', '\u{e9}', 'b']);
}

#[test]
fn enumerations_from_text() {
    assert_eq!(AccessMode::from_text("RO"), Some(AccessMode::RO));
    assert_eq!(AccessMode::from_text("WO"), Some(AccessMode::WO));
    assert_eq!(AccessMode::from_text("RW"), Some(AccessMode::RW));
    assert_eq!(AccessMode::from_text("rw"), None);
    assert_eq!(CachingMode::from_text("NoCache"), Some(CachingMode::NoCache));
    assert_eq!(CachingMode::from_text("WriteThrough"), Some(CachingMode::WriteThrough));
    assert_eq!(CachingMode::from_text("WriteAround"), Some(CachingMode::WriteAround));
    assert_eq!(CachingMode::from_text(""), None);
    assert_eq!(Sign::from_text("Signed"), Some(Sign::Signed));
    assert_eq!(Sign::from_text("Unsigned"), Some(Sign::Unsigned));
    assert_eq!(Sign::from_text("signed"), None);
    assert_eq!(Endianness::from_text("BigEndian"), Some(Endianness::BE));
    assert_eq!(Endianness::from_text("LittleEndian"), Some(Endianness::LE));
    assert_eq!(Endianness::from_text("Big"), None);
    assert_eq!(Visibility::from_text("Beginner"), Some(Visibility::Beginner));
    assert_eq!(Visibility::from_text("Expert"), Some(Visibility::Expert));
    assert_eq!(Visibility::from_text("Guru"), Some(Visibility::Guru));
    assert_eq!(Visibility::from_text("Invisible"), Some(Visibility::Invisible));
    assert_eq!(Visibility::from_text("All"), None);
    assert_eq!(Representation::from_text("Linear"), Some(Representation::Linear));
    assert_eq!(Representation::from_text("Logarithmic"), Some(Representation::Logarithmic));
    assert_eq!(Representation::from_text("Boolean"), Some(Representation::Boolean));
    assert_eq!(Representation::from_text("PureNumber"), Some(Representation::PureNumber));
    assert_eq!(Representation::from_text("HexNumber"), Some(Representation::HexNumber));
    assert_eq!(Representation::from_text("IPV4Address"), Some(Representation::IpV4Address));
    assert_eq!(Representation::from_text("MACAddress"), Some(Representation::MacAddress));
    assert_eq!(Representation::from_text("Octal"), None);
    assert_eq!(yes_no_from_text("Yes"), Some(true));
    assert_eq!(yes_no_from_text("No"), Some(false));
    assert_eq!(yes_no_from_text("yes"), None);
}

#[test]
fn elements_are_built_and_read() {
    let elem = Element::new("pIndex")
        .with_attribute("Offset", "10")
        .with_attribute("Offset", "11")
        .with_text("  IndexNode ")
        .with_child(Element::new("A"))
        .with_child(Element::new("B"));
    assert!(elem.has_tag("pIndex"));
    assert!(!elem.has_tag("pindex"));
    assert_eq!(elem.attribute("Offset"), Some("10"));
    assert_eq!(elem.attribute("pOffset"), None);
    assert_eq!(elem.trimmed_text(), "IndexNode");
    assert!(elem.child_is(0, "A"));
    assert!(elem.child_is(1, "B"));
    assert!(!elem.child_is(1, "A"));
    assert!(!elem.child_is(2, "B"));
}
