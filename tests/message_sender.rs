use oze_canopen_viewer::message_sender::{parse_hex_data, HexError, MessageType};

#[test]
fn test_parse_hex_data() {
    assert_eq!(parse_hex_data("00 11 22"), Ok(vec![0x00, 0x11, 0x22]));
    assert_eq!(parse_hex_data("001122"), Ok(vec![0x00, 0x11, 0x22]));
    assert_eq!(parse_hex_data("FF"), Ok(vec![0xFF]));
    assert!(parse_hex_data("0").is_err());
    assert!(parse_hex_data("GG").is_err());
}

#[test]
fn parse_hex_reports_odd_length_and_position() {
    assert_eq!(parse_hex_data("0 1 2"), Err(HexError::OddLength));
    assert_eq!(parse_hex_data("00 1x 22"), Err(HexError::InvalidDigit { position: 2 }));
    assert_eq!(parse_hex_data(""), Ok(vec![]));
}

#[test]
fn parse_hex_drops_all_whitespace() {
    assert_eq!(parse_hex_data(" a\tB\n0 1 "), Ok(vec![0xAB, 0x01]));
    assert_eq!(parse_hex_data("de AD be EF"), Ok(vec![0xDE, 0xAD, 0xBE, 0xEF]));
}

#[test]
fn message_type_labels_and_order() {
    let all = MessageType::all();
    let labels: Vec<&str> = all.iter().map(|t| t.as_str()).collect();
    assert_eq!(
        labels,
        vec!["SYNC", "NMT", "PDO", "SDO (CIA 402)", "PDO Config", "Raw CAN", "EMCY"]
    );
}
