use romswap::convert::Outcome;
use romswap::convert::convert;
use romswap::convert::resolve_dest;
use romswap::rom::RomType;

fn converted_bytes(r: Outcome) -> Vec<u8> {
    match r {
        Outcome::Converted(out) => out,
        _ => panic!("expected a converted stream"),
    }
}

#[test]
fn convert_to_little_endian_exact_bytes() {
    let data: [u8; 8] = [0x80, 0x37, 0x12, 0x40, 0x01, 0x02, 0x03, 0x04];
    let out = converted_bytes(convert(&data, RomType::LittleEndian));
    assert_eq!(out, vec![0x40, 0x12, 0x37, 0x80, 0x04, 0x03, 0x02, 0x01]);
}

#[test]
fn convert_already_target_format_produces_nothing() {
    let data: [u8; 8] = [0x80, 0x37, 0x12, 0x40, 0x01, 0x02, 0x03, 0x04];
    match convert(&data, RomType::BigEndian) {
        Outcome::AlreadyTargetFormat(t) => assert_eq!(t, RomType::BigEndian),
        _ => panic!("expected the successful no-op outcome"),
    }
}

#[test]
fn convert_unrecognized_header_produces_nothing() {
    let data: [u8; 8] = [0xff, 0xff, 0xff, 0xff, 0x01, 0x02, 0x03, 0x04];
    assert!(matches!(convert(&data, RomType::BigEndian), Outcome::UnrecognizedFormat));
}

#[test]
fn convert_short_input_is_truncated() {
    let data: [u8; 3] = [0x80, 0x37, 0x12];
    assert!(matches!(convert(&data, RomType::ByteSwap), Outcome::TruncatedInput));
    assert!(matches!(convert(&[], RomType::ByteSwap), Outcome::TruncatedInput));
}

#[test]
fn convert_drops_trailing_partial_word() {
    // One full body word plus 2 trailing bytes: output body is exactly one
    // converted word, the trailing bytes are dropped, and no error is raised.
    let data: [u8; 10] = [0x80, 0x37, 0x12, 0x40, 0x01, 0x02, 0x03, 0x04, 0xaa, 0xbb];
    let out = converted_bytes(convert(&data, RomType::ByteSwap));
    assert_eq!(out, vec![0x37, 0x80, 0x40, 0x12, 0x02, 0x01, 0x04, 0x03]);
}

#[test]
fn convert_header_only_input() {
    let data: [u8; 4] = [0x40, 0x12, 0x37, 0x80];
    let out = converted_bytes(convert(&data, RomType::BigEndian));
    assert_eq!(out, vec![0x80, 0x37, 0x12, 0x40]);
}

#[test]
fn convert_round_trip_reproduces_input() {
    let data: Vec<u8> = vec![
        0x80, 0x37, 0x12, 0x40, 0x01, 0x02, 0x03, 0x04, 0xde, 0xad, 0xbe, 0xef,
    ];
    let there = converted_bytes(convert(&data, RomType::ByteSwap));
    let back = converted_bytes(convert(&there, RomType::BigEndian));
    assert_eq!(back, data);
}

#[test]
fn resolve_dest_explicit_request_wins() {
    assert_eq!(
        resolve_dest(Some(RomType::LittleEndian), Some("out.v64")),
        RomType::LittleEndian
    );
    assert_eq!(resolve_dest(Some(RomType::ByteSwap), None), RomType::ByteSwap);
}

#[test]
fn resolve_dest_uses_output_filename_suffix() {
    assert_eq!(resolve_dest(None, Some("out.n64")), RomType::LittleEndian);
    assert_eq!(resolve_dest(None, Some("out.V64")), RomType::ByteSwap);
    assert_eq!(resolve_dest(None, Some("out.z64")), RomType::BigEndian);
}

#[test]
fn resolve_dest_defaults_to_big_endian() {
    assert_eq!(resolve_dest(None, None), RomType::BigEndian);
    assert_eq!(resolve_dest(None, Some("out.bin")), RomType::BigEndian);
    assert_eq!(resolve_dest(None, Some("out")), RomType::BigEndian);
}
