use gtirb::ident::{parse_uuid, uuid_bytes};
use gtirb::{
    ByteIntervalData, ByteOrder, CodeBlockData, DataBlockData, FileFormat, GraphError,
    ProxyBlockData, SectionFlag, Uuid, ISA,
};

#[test]
fn file_formats_have_their_wire_numbers() {
    assert_eq!(FileFormat::from_i32(0), Some(FileFormat::FormatUndefined));
    assert_eq!(FileFormat::from_i32(2), Some(FileFormat::Elf));
    assert_eq!(FileFormat::from_i32(8), Some(FileFormat::Raw));
    assert_eq!(FileFormat::from_i32(9), None);
    assert_eq!(FileFormat::from_i32(-1), None);
    assert_eq!(FileFormat::Macho.to_i32(), 7);
}

#[test]
fn every_enum_value_is_read_back_from_its_number() {
    for number in 0..9 {
        assert_eq!(FileFormat::from_i32(number).unwrap().to_i32(), number);
    }
    for number in 0..10 {
        assert_eq!(ISA::from_i32(number).unwrap().to_i32(), number);
    }
    for number in 0..3 {
        assert_eq!(ByteOrder::from_i32(number).unwrap().to_i32(), number);
    }
    for number in 0..7 {
        assert_eq!(SectionFlag::from_i32(number).unwrap().to_i32(), number);
    }
    assert_eq!(ISA::from_i32(10), None);
    assert_eq!(ByteOrder::from_i32(3), None);
    assert_eq!(SectionFlag::from_i32(7), None);
}

#[test]
fn identifiers_are_sixteen_bytes_most_significant_first() {
    let bytes = uuid_bytes(0x0102_0304_0506_0708_090A_0B0C_0D0E_0F10);
    assert_eq!(bytes, (1..=16).collect::<Vec<u8>>());
    assert_eq!(parse_uuid(&bytes), Ok(0x0102_0304_0506_0708_090A_0B0C_0D0E_0F10));
    assert_eq!(parse_uuid(&bytes[..15]), Err(GraphError::InvalidUuid));
    assert_eq!(parse_uuid(&[]), Err(GraphError::InvalidUuid));
    let mut longer = bytes.clone();
    longer.push(0);
    assert_eq!(parse_uuid(&longer), Err(GraphError::InvalidUuid));
}

#[test]
fn errors_describe_themselves() {
    assert_eq!(GraphError::InvalidUuid.message(), "invalid UUID");
    assert_eq!(GraphError::InvalidEnum.message(), "invalid enum value");
    assert_eq!(GraphError::DuplicateUuid.message(), "duplicate UUID");
    assert_eq!(GraphError::StaleHandle.message(), "stale handle");
    assert_eq!(GraphError::WrongParent.message(), "wrong parent");
}

fn marked_as_random(uuid: Uuid) -> bool {
    (uuid >> 76) & 0xF == 4 && (uuid >> 62) & 0x3 == 2
}

#[test]
fn new_records_have_identifiers_marked_as_random() {
    for _ in 0..64 {
        assert!(marked_as_random(ByteIntervalData::new().uuid));
        assert!(marked_as_random(CodeBlockData::new().uuid));
        assert!(marked_as_random(DataBlockData::new().uuid));
        assert!(marked_as_random(ProxyBlockData::new().uuid));
    }
    assert!(!marked_as_random(0));
    assert!(marked_as_random(0x0000_0000_0000_4000_8000_0000_0000_0000));
    assert!(!marked_as_random(0x0000_0000_0000_4000_C000_0000_0000_0000));
    assert!(!marked_as_random(0x0000_0000_0000_5000_8000_0000_0000_0000));
}

#[test]
fn a_new_byte_interval_is_empty() {
    let interval = ByteIntervalData::new();
    assert_eq!(interval.size, 0);
    assert_eq!(interval.address, None);
    assert!(interval.bytes.is_empty());
    assert!(interval.symbolic_expressions.is_empty());
    assert_ne!(interval.uuid, ByteIntervalData::new().uuid);
    assert_ne!(CodeBlockData::new(), CodeBlockData::new());
}
