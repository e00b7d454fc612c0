use modbus_client::cursor::WriteCursor;
use modbus_client::error::Error;
use modbus_client::format::Format;
use modbus_client::read_discrete_inputs::{ReadDiscreteInputs, READ_DISCRETE_INPUTS};
use modbus_client::service::{validate, Pdu, Service};
use modbus_client::types::{AddressRange, Indexed};

#[test]
fn function_code_of_read_discrete_inputs() {
    assert_eq!(READ_DISCRETE_INPUTS, 0x02);
    assert_eq!(<ReadDiscreteInputs as Service>::REQUEST_FUNCTION_CODE, 0x02);
}

#[test]
fn ranges_for_bits_have_one_to_two_thousand_addresses() {
    assert!(!AddressRange::new(0, 0).is_valid_for_bits());
    assert!(AddressRange::new(0, 1).is_valid_for_bits());
    assert!(AddressRange::new(0, 2000).is_valid_for_bits());
    assert!(!AddressRange::new(0, 2001).is_valid_for_bits());
    assert!(!AddressRange::new(0, 0xFFFF).is_valid_for_bits());
}

#[test]
fn ranges_for_bits_end_inside_the_address_space() {
    assert!(AddressRange::new(0xFFFF, 1).is_valid_for_bits());
    assert!(!AddressRange::new(0xFFFF, 2).is_valid_for_bits());
    assert!(AddressRange::new(0xFFFF - 1999, 2000).is_valid_for_bits());
    assert!(!AddressRange::new(0xFFFF - 1998, 2000).is_valid_for_bits());
}

#[test]
fn service_validity_is_that_of_the_range() {
    assert!(ReadDiscreteInputs::is_request_valid(&AddressRange::new(5, 5)));
    assert!(!ReadDiscreteInputs::is_request_valid(&AddressRange::new(5, 0)));
}

#[test]
fn validate_refuses_an_invalid_request() {
    assert_eq!(validate::<ReadDiscreteInputs>(&AddressRange::new(0, 16)), Ok(()));
    assert_eq!(validate::<ReadDiscreteInputs>(&AddressRange::new(0, 0)), Err(Error::Validation));
    assert_eq!(
        validate::<ReadDiscreteInputs>(&AddressRange::new(0xFFF0, 17)),
        Err(Error::Validation)
    );
}

#[test]
fn range_goes_on_the_wire_big_endian() {
    let mut cursor = WriteCursor::<5>::new();
    assert_eq!(AddressRange::new(0x0102, 0x0304).format(&mut cursor), Ok(()));
    assert_eq!(cursor.written(), &[1, 2, 3, 4]);
    assert_eq!(AddressRange::new(0, 0).format(&mut cursor), Err(Error::Serialization));
    assert_eq!(cursor.position(), 4);
}

#[test]
fn pdu_is_function_code_then_request() {
    let range = AddressRange::new(0x0102, 0x0304);
    let message: Pdu<'_, ReadDiscreteInputs> = Pdu { request: &range };
    let mut cursor = WriteCursor::<8>::new();
    assert_eq!(message.format(&mut cursor), Ok(()));
    assert_eq!(cursor.written(), &[0x02, 1, 2, 3, 4]);
    assert!(message.format(&mut cursor).is_err());
}

#[test]
fn response_bits_are_unpacked_from_the_low_bit() {
    let range = AddressRange::new(0xFFF0, 12);
    let payload = [2, 0b1000_0001, 0b0000_1000];
    let values = ReadDiscreteInputs::parse_response(&payload, &range).unwrap();
    assert_eq!(values.len(), 12);
    for (i, value) in values.iter().enumerate() {
        assert_eq!(value.index, 0xFFF0 + i as u16);
        assert_eq!(value.value, i == 0 || i == 7 || i == 11);
    }
}

#[test]
fn response_must_match_the_request() {
    let range = AddressRange::new(0, 8);
    assert_eq!(
        ReadDiscreteInputs::parse_response(&[1, 0], &range),
        Some((0..8).map(|index| Indexed { index, value: false }).collect::<Vec<_>>())
    );
    assert_eq!(ReadDiscreteInputs::parse_response(&[], &range), None);
    assert_eq!(ReadDiscreteInputs::parse_response(&[1], &range), None);
    assert_eq!(ReadDiscreteInputs::parse_response(&[2, 0, 0], &range), None);
    assert_eq!(ReadDiscreteInputs::parse_response(&[1, 0, 0], &range), None);
    assert_eq!(ReadDiscreteInputs::parse_response(&[2, 0], &range), None);
    assert_eq!(ReadDiscreteInputs::parse_response(&[0], &AddressRange::new(0, 0)), None);
}

#[test]
fn largest_response_is_read() {
    let range = AddressRange::new(0, 2000);
    let mut payload = vec![250u8];
    payload.extend_from_slice(&[0xFF; 250]);
    let values = ReadDiscreteInputs::parse_response(&payload, &range).unwrap();
    assert_eq!(values.len(), 2000);
    assert!(values.iter().all(|v| v.value));
    assert_eq!(values[1999].index, 1999);
}
