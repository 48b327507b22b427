use genapi_core::elem_type::{AccessMode, CachingMode, Endianness, ImmOrPNode, Representation, Sign, Visibility};
use genapi_core::error::ParseError;
use genapi_core::node::NodeData;
use genapi_core::node_store::NodeStore;
use genapi_core::parse::Parse;
use genapi_core::register::RegisterNode;
use genapi_core::register_base::AddressKind;
use genapi_core::xml::Element;

fn convert(node: roxmltree::Node) -> Element {
    let mut elem = Element::new(node.tag_name().name());
    for attribute in node.attributes() {
        elem = elem.with_attribute(attribute.name(), attribute.value());
    }
    let mut text = String::new();
    for child in node.children() {
        if child.is_element() {
            elem = elem.with_child(convert(child));
        } else if child.is_text() {
            text.push_str(child.text().unwrap_or(""));
        }
    }
    elem.with_text(&text)
}

fn read(xml: &str) -> Element {
    let document = roxmltree::Document::parse(xml).unwrap();
    convert(document.root_element())
}

const REGISTER_XML: &str = r#"
        <Register Name="TestNode">
          <Streamable>No</Streamable>
          <Address>0x10000</Address>
          <IntSwissKnife Name="Testnode">
              <pVariable Name="Var1">pValue1</pVariable>
              <pVariable Name="Var2">pValue2</pVariable>
              <Constant Name="Const">10</Constant>
              <Expression Name="ConstBy2">2.0*Const</Expression>
              <Formula>Var1+Var2+ConstBy2</Formula>
          </IntSwissKnife>
          <pAddress>pAddress</pAddress>
          <pIndex Offset="10">IndexNode</pIndex>
          <Length>4</Length>
          <AccessMode>RW</AccessMode>
          <pPort>Device</pPort>
          <Cachable>WriteAround</Cachable>
          <PollingTime>300</PollingTime>
          <pInvalidator>ExposureTimeMode</pInvalidator>
          <Sign>Signed</Sign>
          <Endianess>BigEndian</Endianess>
          <Unit>Hz</Unit>
          <Representation>Logarithmic</Representation>
          <pSelected>SelectedNode</pSelected>
        </Register>
        "#;

#[test]
fn test_register() {
    let xml = REGISTER_XML;

    let mut store = NodeStore::new();
    let node: RegisterNode = RegisterNode::parse(&read(xml), &mut store).unwrap();
    let reg_base = node.register_base();

    let address_kinds = reg_base.address_kinds();
    assert_eq!(address_kinds.len(), 4);
    assert!(matches!(
        address_kinds[0],
        AddressKind::Address(ImmOrPNode::Imm(0x10000))
    ));
    assert!(matches!(address_kinds[1], AddressKind::IntSwissKnife(_)));
    assert!(matches!(
        address_kinds[2],
        AddressKind::Address(ImmOrPNode::PNode(_))
    ));
    match &address_kinds[3] {
        AddressKind::PIndex(p_index) => {
            assert!(matches!(p_index.offset().unwrap(), ImmOrPNode::Imm(10)));
            assert_eq!(p_index.p_index(), store.id_by_name("IndexNode"));
        }
        _ => panic!(),
    }

    assert_eq!(reg_base.length(), &ImmOrPNode::Imm(4));
    assert_eq!(reg_base.access_mode(), AccessMode::RW);
    assert_eq!(reg_base.p_port(), store.id_by_name("Device"));
    assert_eq!(reg_base.cacheable(), CachingMode::WriteAround);
    assert_eq!(reg_base.polling_time().unwrap(), 300);
    assert_eq!(reg_base.p_invalidators().len(), 1);
}

#[test]
fn register_parts_name_the_interned_nodes() {
    let mut store = NodeStore::new();
    let node = RegisterNode::parse(&read(REGISTER_XML), &mut store).unwrap();
    let base = node.register_base();
    assert_eq!(node.node_base().id(), store.lookup("TestNode").unwrap());
    assert_eq!(
        base.address_kinds()[1],
        AddressKind::IntSwissKnife(store.lookup("Testnode").unwrap())
    );
    assert_eq!(
        base.address_kinds()[2],
        AddressKind::Address(ImmOrPNode::PNode(store.lookup("pAddress").unwrap()))
    );
    assert_eq!(base.p_invalidators()[0], store.lookup("ExposureTimeMode").unwrap());
    assert_eq!(base.p_selecteds(), &[store.lookup("SelectedNode").unwrap()]);
    assert_eq!(base.sign(), Sign::Signed);
    assert_eq!(base.endianness(), Endianness::BE);
    assert_eq!(base.unit(), Some("Hz"));
    assert_eq!(base.representation(), Representation::Logarithmic);
    assert!(!base.streamable());
    // TestNode, pValue1, pValue2, Testnode, pAddress, IndexNode, Device,
    // ExposureTimeMode, SelectedNode
    assert_eq!(store.len(), 9);
}

#[test]
fn nested_computed_node_is_stored() {
    let mut store = NodeStore::new();
    RegisterNode::parse(&read(REGISTER_XML), &mut store).unwrap();
    let id = store.lookup("Testnode").unwrap();
    match store.node_opt(id) {
        Some(NodeData::SwissKnife(knife)) => {
            assert_eq!(knife.variable_count(), 2);
            assert_eq!(knife.variable_name(0), "Var1");
            assert_eq!(knife.variable_node(1), store.lookup("pValue2").unwrap());
        }
        _ => panic!(),
    }
    // a forward reference has an identifier and no data yet
    let forward = store.lookup("pValue1").unwrap();
    assert!(store.node_opt(forward).is_none());
}

#[test]
fn absent_optional_elements_take_their_defaults() {
    let xml = r#"<Register Name="R"><Address>16</Address><Length>2</Length><pPort>Device</pPort></Register>"#;
    let mut store = NodeStore::new();
    let node = RegisterNode::parse(&read(xml), &mut store).unwrap();
    let base = node.register_base();
    assert_eq!(base.address_kinds(), &[AddressKind::Address(ImmOrPNode::Imm(16))]);
    assert_eq!(base.access_mode(), AccessMode::RO);
    assert_eq!(base.cacheable(), CachingMode::WriteThrough);
    assert_eq!(base.polling_time(), None);
    assert!(base.p_invalidators().is_empty());
    assert_eq!(base.sign(), Sign::Unsigned);
    assert_eq!(base.endianness(), Endianness::LE);
    assert_eq!(base.unit(), None);
    assert_eq!(base.representation(), Representation::PureNumber);
    assert_eq!(node.node_base().visibility(), Visibility::Beginner);
    assert_eq!(node.node_base().description(), None);
}

#[test]
fn descriptive_elements_are_read() {
    let xml = r#"<Register Name="R">
        <ToolTip>tip</ToolTip>
        <Description> what it is </Description>
        <DisplayName>Shown</DisplayName>
        <Visibility>Guru</Visibility>
        <pLength>LengthNode</pLength>
        <pPort>Device</pPort>
    </Register>"#;
    let mut store = NodeStore::new();
    let node = RegisterNode::parse(&read(xml), &mut store).unwrap();
    let base = node.node_base();
    assert_eq!(base.tooltip(), Some("tip"));
    assert_eq!(base.description(), Some("what it is"));
    assert_eq!(base.display_name(), Some("Shown"));
    assert_eq!(base.visibility(), Visibility::Guru);
    assert_eq!(
        node.register_base().length(),
        &ImmOrPNode::PNode(store.lookup("LengthNode").unwrap())
    );
    assert!(node.register_base().address_kinds().is_empty());
}

#[test]
fn p_index_with_node_offset() {
    let xml = r#"<Register Name="R"><pIndex pOffset="Off">Idx</pIndex><Length>8</Length><pPort>P</pPort></Register>"#;
    let mut store = NodeStore::new();
    let node = RegisterNode::parse(&read(xml), &mut store).unwrap();
    match &node.register_base().address_kinds()[0] {
        AddressKind::PIndex(p) => {
            assert_eq!(p.p_index(), store.lookup("Idx").unwrap());
            assert_eq!(p.offset(), Some(ImmOrPNode::PNode(store.lookup("Off").unwrap())));
        }
        _ => panic!(),
    }
}

#[test]
fn wrong_tag_is_rejected() {
    let xml = r#"<Integer Name="R"><Length>2</Length><pPort>P</pPort></Integer>"#;
    let mut store = NodeStore::new();
    assert_eq!(RegisterNode::parse(&read(xml), &mut store), Err(ParseError::UnexpectedTag));
}

#[test]
fn missing_name_is_rejected() {
    let xml = r#"<Register><Length>2</Length><pPort>P</pPort></Register>"#;
    let mut store = NodeStore::new();
    assert_eq!(RegisterNode::parse(&read(xml), &mut store), Err(ParseError::MissingAttribute));
}

#[test]
fn missing_length_is_rejected() {
    let xml = r#"<Register Name="R"><Address>1</Address><pPort>P</pPort></Register>"#;
    let mut store = NodeStore::new();
    assert_eq!(RegisterNode::parse(&read(xml), &mut store), Err(ParseError::MissingElement));
}

#[test]
fn missing_port_is_rejected() {
    let xml = r#"<Register Name="R"><Address>1</Address><Length>4</Length></Register>"#;
    let mut store = NodeStore::new();
    assert_eq!(RegisterNode::parse(&read(xml), &mut store), Err(ParseError::MissingElement));
}

#[test]
fn element_out_of_order_is_rejected() {
    let xml = r#"<Register Name="R"><Length>4</Length><pPort>P</pPort><Address>1</Address></Register>"#;
    let mut store = NodeStore::new();
    assert_eq!(RegisterNode::parse(&read(xml), &mut store), Err(ParseError::UnexpectedElement));
}

#[test]
fn bad_values_are_rejected() {
    for xml in [
        r#"<Register Name="R"><Address>0xZZ</Address><Length>4</Length><pPort>P</pPort></Register>"#,
        r#"<Register Name="R"><Length>four</Length><pPort>P</pPort></Register>"#,
        r#"<Register Name="R"><Length>4</Length><AccessMode>XX</AccessMode><pPort>P</pPort></Register>"#,
        r#"<Register Name="R"><Length>4</Length><pPort>P</pPort><Cachable>Maybe</Cachable></Register>"#,
        r#"<Register Name="R"><Length>4</Length><pPort>P</pPort><PollingTime>-1</PollingTime></Register>"#,
        r#"<Register Name="R"><Visibility>Nobody</Visibility><Length>4</Length><pPort>P</pPort></Register>"#,
        r#"<Register Name="R"><pIndex Offset="x">I</pIndex><Length>4</Length><pPort>P</pPort></Register>"#,
        r#"<Register Name="R"><Length>9223372036854775808</Length><pPort>P</pPort></Register>"#,
    ] {
        let mut store = NodeStore::new();
        assert_eq!(RegisterNode::parse(&read(xml), &mut store), Err(ParseError::InvalidValue));
    }
}

#[test]
fn nested_node_described_twice_is_rejected() {
    let xml = r#"<Register Name="R">
        <IntSwissKnife Name="K"><Formula>1</Formula></IntSwissKnife>
        <IntSwissKnife Name="K"><Formula>2</Formula></IntSwissKnife>
        <Length>4</Length><pPort>P</pPort></Register>"#;
    let mut store = NodeStore::new();
    let k = store.id_by_name("K");
    assert_eq!(RegisterNode::parse(&read(xml), &mut store), Err(ParseError::DuplicateNode(k)));
}

#[test]
fn numbers_may_be_hexadecimal_signed_and_padded() {
    let xml = r#"<Register Name="R"><Address> 0xfF </Address><Address>-16</Address><Address>+7</Address><Length>0X10</Length><pPort>P</pPort></Register>"#;
    let mut store = NodeStore::new();
    let node = RegisterNode::parse(&read(xml), &mut store).unwrap();
    assert_eq!(
        node.register_base().address_kinds(),
        &[
            AddressKind::Address(ImmOrPNode::Imm(255)),
            AddressKind::Address(ImmOrPNode::Imm(-16)),
            AddressKind::Address(ImmOrPNode::Imm(7)),
        ]
    );
    assert_eq!(node.register_base().length(), &ImmOrPNode::Imm(16));
}
