use vbf_tool::encode::{parse_u32_decimal, push_be16, push_be32, push_decimal, push_hex_bytes, push_hex_upper};
use vbf_tool::script::{ConfigError, ConfigKey, ScriptsT, ValueT};
use vbf_tool::vbf::{DumpError, VbfFt};

const IMAGE: &[u8] = b"123456789";
const IMAGE_SHA256: &str = "15E2B0D3C33891EBB0F1EF609EC419420C20E320CE94C65FBC8C3312448EB225";
const ROOT_HASH: &str = "4702E8C5D2834C99CBEE6200EF228491A8BDFCDCF8AFF8B198E932B52E2955C0";

fn config(create_vbt: &str, vbt_addr: &str, compressed: &str) -> String {
    format!(
        "{{\"VBF1\": {{\"SourceFile\": \"in.bin\", \"TargetFile\": \"out.vbf\", \"VBFVersion\": \"2.6\", \
         \"SwType\": \"EXE\", \"SwPartNum\": \"32222222 AA\", \"ECUaddr\": \"7A1\", \"SwVersion\": \"1.0.0\", \
         \"ImageOffset\": \"0\", \"CreateVerificationBlock\": {}, \"VerificationBlockStartAddr\": \"{}\", \
         \"Compressed\": {}, \"Sort\": true, \"Group\": true}}}}",
        create_vbt, vbt_addr, compressed
    )
}

fn header_start(format_id: &str) -> String {
    let mut h = String::new();
    h.push_str("vbf_version = 2.6;\r\n");
    h.push_str("\r\n");
    h.push_str("header {\r\n");
    h.push_str("    //**********************************************************\r\n");
    h.push_str("    //*\r\n");
    h.push_str("    //*                      Freetech.co\r\n");
    h.push_str("    //*\r\n");
    h.push_str("    //*     This file is generated by VBF CONVERT ver. 5.10.0\r\n");
    h.push_str("    //*\r\n");
    h.push_str("    //*                        DO NOT EDIT !\r\n");
    h.push_str("    //*\r\n");
    h.push_str("    //**********************************************************\r\n");
    h.push_str("    \r\n");
    h.push_str("    // Volvo software part number\r\n");
    h.push_str("       sw_part_number = \"32222222 AA\";\r\n");
    h.push_str("\r\n");
    h.push_str("    // Software Version: \r\n");
    h.push_str("       sw_version = \"1.0.0\";\r\n");
    h.push_str("\r\n");
    h.push_str("    // Volvo software part type: Executable\r\n");
    h.push_str("       sw_part_type = EXE;\r\n");
    h.push_str("\r\n");
    h.push_str("    // Data format identifier: 0x00 = Uncompressed, 0x10 = Compressed\r\n");
    h.push_str(&format!("       data_format_identifier = {};\r\n", format_id));
    h.push_str("\r\n");
    h.push_str("    // ECU Address: \r\n");
    h.push_str("       ecu_address = 0x7A1;\r\n");
    h.push_str("\r\n");
    h
}

fn hex_to_bytes(s: &str) -> Vec<u8> {
    (0..s.len() / 2).map(|i| u8::from_str_radix(&s[2 * i..2 * i + 2], 16).unwrap()).collect()
}

fn image_block() -> Vec<u8> {
    let mut p = vec![0x01, 0x00, 0x00, 0x00, 0x00, 0x00, 0x00, 0x09];
    p.extend_from_slice(IMAGE);
    p.extend_from_slice(&[0x29, 0xB1]);
    p
}

fn table(num_blk_field: u8) -> Vec<u8> {
    let mut t = vec![0x00, 0x00, 0x00, num_blk_field, 0x01, 0x00, 0x00, 0x00, 0x00, 0x00, 0x00, 0x09];
    t.extend_from_slice(&hex_to_bytes(IMAGE_SHA256));
    t
}

fn build(text: &str) -> VbfFt {
    let script = ScriptsT::from_json(text).unwrap();
    VbfFt::new(script, IMAGE)
}

#[test]
fn value_literal_and_toggle() {
    let text = ValueT::Literal(String::from("abc"));
    assert_eq!(text.literal(), Some(String::from("abc")));
    assert_eq!(text.toggle(), None);
    let flag = ValueT::Toggle(true);
    assert_eq!(flag.literal(), None);
    assert_eq!(flag.toggle(), Some(true));
}

#[test]
fn script_entries_are_read() {
    let script = ScriptsT::from_json(&config("true", "4096", "false")).unwrap();
    assert_eq!(script.literal_of(ConfigKey::SourceFile), "in.bin");
    assert_eq!(script.literal_of(ConfigKey::TargetFile), "out.vbf");
    assert_eq!(script.literal_of(ConfigKey::EcuAddr), "7A1");
    assert_eq!(script.literal_of(ConfigKey::VerificationBlockStartAddr), "4096");
    assert!(script.toggle_of(ConfigKey::CreateVerificationBlock));
    assert!(!script.toggle_of(ConfigKey::Compressed));
    assert!(script.toggle_of(ConfigKey::Group));
}

#[test]
fn malformed_document_is_refused() {
    assert_eq!(ScriptsT::from_json("{\"VBF1\": ").unwrap_err(), ConfigError::Malformed);
}

#[test]
fn first_missing_entry_is_reported() {
    let text = "{\"VBF1\": {\"TargetFile\": \"out.vbf\"}}";
    assert_eq!(ScriptsT::from_json(text).unwrap_err(), ConfigError::Missing(ConfigKey::SourceFile));
    let text = "{\"VBF2\": {}}";
    assert_eq!(ScriptsT::from_json(text).unwrap_err(), ConfigError::Missing(ConfigKey::SourceFile));
}

#[test]
fn wrong_kind_of_entry_is_reported() {
    let text = config("\"yes\"", "4096", "false");
    assert_eq!(
        ScriptsT::from_json(&text).unwrap_err(),
        ConfigError::Missing(ConfigKey::CreateVerificationBlock)
    );
    let text = config("true", "4096", "0");
    assert_eq!(ScriptsT::from_json(&text).unwrap_err(), ConfigError::Missing(ConfigKey::Compressed));
}

#[test]
fn json_member_kinds() {
    let doc = "{\"VBF1\": {\"SourceFile\": 3}}";
    assert_eq!(ConfigKey::SourceFile.json_name(), "SourceFile");
    match vbf_tool::script::fetch_item(doc, ConfigKey::SourceFile) {
        Err(ConfigError::Missing(ConfigKey::SourceFile)) => {}
        other => panic!("unexpected {:?}", other.map(|i| i.description)),
    }
    let doc = "{\"VBF1\": {\"Sort\": false}}";
    let item = vbf_tool::script::fetch_item(doc, ConfigKey::Sort).unwrap();
    assert_eq!(item.description, "Sorted");
    assert!(matches!(item.value, ValueT::Toggle(false)));
}

#[test]
fn file_without_verification_block() {
    let mut vbf = build(&config("false", "x", "true"));
    let bytes = vbf.dump(IMAGE).unwrap();
    let mut expected = header_start("0x10");
    expected.push_str("    // Blocks sorted\r\n");
    expected.push_str("    // Blocks grouped\r\n");
    expected.push_str("    // Blocks:   1;\r\n");
    expected.push_str("    // Bytes:    9;\r\n");
    expected.push_str("\r\n");
    expected.push_str("    file_checksum = 0xCBF43926;\r\n");
    expected.push_str("}");
    let mut expected = expected.into_bytes();
    expected.extend_from_slice(&image_block());
    assert_eq!(bytes, expected);
}

fn expected_with_table(root: &str, num_blk_field: u8, check: [u8; 2]) -> Vec<u8> {
    let mut expected = header_start("0x00");
    expected.push_str("    // Start address of the hash table\r\n");
    expected.push_str("       verification_block_start = 0x01000000;\r\n");
    expected.push_str("\r\n");
    expected.push_str("    // Length of the hash table\r\n");
    expected.push_str("       verification_block_length = 0x0000002C;\r\n");
    expected.push_str("\r\n");
    expected.push_str("    // Root hash value\r\n");
    expected.push_str("       verification_block_root_hash = 0x");
    expected.push_str(root);
    expected.push_str(";\r\n\r\n");
    expected.push_str("    // Blocks sorted\r\n");
    expected.push_str("    // Blocks grouped\r\n");
    expected.push_str("    // Blocks:   2;\r\n");
    expected.push_str("    // Bytes:    53;\r\n");
    expected.push_str("\r\n");
    expected.push_str("    file_checksum = 0xCBF43926;\r\n");
    expected.push_str("}");
    let mut expected = expected.into_bytes();
    expected.extend_from_slice(&image_block());
    expected.extend_from_slice(&[0x01, 0x00, 0x00, 0x00, 0x00, 0x00, 0x00, 0x2C]);
    expected.extend_from_slice(&table(num_blk_field));
    expected.extend_from_slice(&check);
    expected
}

#[test]
fn file_with_verification_block() {
    let mut vbf = build(&config("true", "16777216", "false"));
    let bytes = vbf.dump(IMAGE).unwrap();
    assert_eq!(bytes, expected_with_table(ROOT_HASH, 1, [0xAE, 0xCF]));
}

#[test]
fn second_dump_counts_the_table_again() {
    let mut vbf = build(&config("true", "16777216", "false"));
    vbf.dump(IMAGE).unwrap();
    let bytes = vbf.dump(IMAGE).unwrap();
    assert_eq!(
        bytes,
        expected_with_table(
            "7914B6E909BDF1ABE7B56B4D91F7D24E0FAC040A4F76E9255883E35CE7073C08",
            2,
            [0x77, 0xCE]
        )
    );
}

#[test]
fn bad_table_address_is_refused() {
    let mut vbf = build(&config("true", "0x1000", "false"));
    assert_eq!(vbf.dump(IMAGE), Err(DumpError::VbtAddress));
    let mut vbf = build(&config("true", "4294967296", "false"));
    assert_eq!(vbf.dump(IMAGE), Err(DumpError::VbtAddress));
}

#[test]
fn refused_dump_changes_nothing() {
    let mut vbf = build(&config("true", "-1", "false"));
    assert_eq!(vbf.dump(IMAGE), Err(DumpError::VbtAddress));
    assert_eq!(vbf.dump(IMAGE), Err(DumpError::VbtAddress));
    let mut plain = build(&config("false", "-1", "true"));
    let first = plain.dump(IMAGE).unwrap();
    let second = plain.dump(IMAGE).unwrap();
    assert_eq!(first, second);
}

#[test]
fn block_count_overflow_is_refused() {
    let script = ScriptsT::from_json(&config("true", "1", "false")).unwrap();
    let mut vbf = VbfFt::new(script, b"");
    for _ in 0..65534 {
        assert!(vbf.dump(b"").is_ok());
    }
    assert_eq!(vbf.dump(b""), Err(DumpError::BlockCountOverflow));
}

#[test]
fn root_hash_covers_written_table() {
    let mut vbf = build(&config("true", "16777216", "false"));
    let bytes = vbf.dump(IMAGE).unwrap();
    let n = bytes.len();
    let text = String::from_utf8_lossy(&bytes).to_string();
    assert!(text.contains(ROOT_HASH));
    let tail = &bytes[n - 54..n - 2];
    let mut be = Vec::new();
    push_be32(&mut be, 16777216);
    push_be32(&mut be, 44);
    assert_eq!(&tail[..8], &be[..]);
    assert_eq!(&tail[8..], &table(1)[..]);
    assert_eq!(&bytes[n - 34..n - 2], &hex_to_bytes(IMAGE_SHA256)[..]);
    assert_eq!(&bytes[n - 2..], &[0xAE, 0xCF]);
}

#[test]
fn fresh_file_image_block_layout() {
    let mut vbf = build(&config("false", "", "false"));
    let bytes = vbf.dump(IMAGE).unwrap();
    let n = bytes.len();
    let p = 10 + IMAGE.len();
    assert_eq!(&bytes[n - p..n - p + 8], &[0x01, 0x00, 0x00, 0x00, 0x00, 0x00, 0x00, 0x09]);
    assert_eq!(&bytes[n - p + 8..n - 2], IMAGE);
}

#[test]
fn empty_image() {
    let script = ScriptsT::from_json(&config("false", "", "false")).unwrap();
    let mut vbf = VbfFt::new(script, b"");
    let bytes = vbf.dump(b"").unwrap();
    let text = String::from_utf8_lossy(&bytes).to_string();
    assert!(text.contains("    // Bytes:    0;\r\n"));
    assert!(text.contains("    file_checksum = 0x00000000;\r\n"));
    let n = bytes.len();
    assert_eq!(&bytes[n - 10..], &[0x01, 0x00, 0x00, 0x00, 0x00, 0x00, 0x00, 0x00, 0xFF, 0xFF]);
}

#[test]
fn decimal_parse_cases() {
    assert_eq!(parse_u32_decimal("42"), Some(42));
    assert_eq!(parse_u32_decimal("+42"), Some(42));
    assert_eq!(parse_u32_decimal("00012"), Some(12));
    assert_eq!(parse_u32_decimal("4294967295"), Some(4294967295));
    assert_eq!(parse_u32_decimal("4294967296"), None);
    assert_eq!(parse_u32_decimal("99999999999999999999"), None);
    assert_eq!(parse_u32_decimal(""), None);
    assert_eq!(parse_u32_decimal("+"), None);
    assert_eq!(parse_u32_decimal("-1"), None);
    assert_eq!(parse_u32_decimal("1a"), None);
    assert_eq!(parse_u32_decimal(" 1"), None);
}

#[test]
fn decimal_text_reads_back() {
    for n in [0u32, 7, 10, 53, 65535, 4294967295] {
        let mut out = Vec::new();
        push_decimal(&mut out, n);
        assert_eq!(out, n.to_string().into_bytes());
        assert_eq!(parse_u32_decimal(std::str::from_utf8(&out).unwrap()), Some(n));
    }
}

#[test]
fn hex_and_big_endian_text() {
    let mut out = Vec::new();
    push_hex_upper(&mut out, 0x2C, 8);
    assert_eq!(out, b"0000002C");
    let mut out = Vec::new();
    push_hex_upper(&mut out, 0xDEADBEEF, 8);
    assert_eq!(out, b"DEADBEEF");
    let mut out = Vec::new();
    push_hex_bytes(&mut out, &[0x00, 0x0F, 0xA0, 0xFF]);
    assert_eq!(out, b"000FA0FF");
    let mut out = Vec::new();
    push_be32(&mut out, 0x01020304);
    push_be16(&mut out, 0xA1B2);
    assert_eq!(out, vec![1, 2, 3, 4, 0xA1, 0xB2]);
}
