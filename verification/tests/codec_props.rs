use btc_codec::{
    bytes_to_hex, classify_script, decode_hex, hex_to_bytes, parse_satoshis, read_pushdata,
    swap_endian_u32, to_big_endian, apply_fee, HexDecodeError, ScriptType,
};

#[test]
fn hex_round_trip_concrete() {
    let bytes = vec![0x00, 0x01, 0x10, 0x7f, 0x80, 0xff];
    let hex = bytes_to_hex(&bytes);
    assert_eq!(hex, "0001107f80ff");
    assert_eq!(decode_hex(&hex).unwrap(), bytes);
}

#[test]
fn hex_decode_then_encode_lowercases() {
    let decoded = decode_hex("DeadBEEF").unwrap();
    assert_eq!(decoded, vec![0xde, 0xad, 0xbe, 0xef]);
    assert_eq!(bytes_to_hex(&decoded), "deadbeef");
}

#[test]
fn hex_empty_round_trip() {
    assert_eq!(bytes_to_hex(&[]), "");
    assert_eq!(decode_hex("").unwrap(), Vec::<u8>::new());
}

#[test]
fn hex_decode_odd_length_error() {
    assert_eq!(decode_hex("abc"), Err(HexDecodeError::OddLength));
    assert_eq!(
        decode_hex("abc").unwrap_err().message(),
        "odd number of hex digits"
    );
}

#[test]
fn hex_decode_invalid_character_error() {
    assert_eq!(
        decode_hex("abxg"),
        Err(HexDecodeError::InvalidHexCharacter { c: 'x', index: 2 })
    );
    assert_eq!(
        decode_hex("abxg").unwrap_err().message(),
        "invalid hex character"
    );
}

#[test]
fn hex_to_bytes_agrees_with_decode_hex() {
    let inputs = ["", "deadbeef", "DeadBEEF", "abc", "abxg", "00ff10"];
    for input in inputs {
        assert_eq!(hex_to_bytes(input), decode_hex(input));
    }
}

#[test]
fn to_big_endian_involution_concrete() {
    let bytes = vec![1, 2, 3, 4, 5];
    assert_eq!(to_big_endian(&to_big_endian(&bytes)), bytes);
    let empty: Vec<u8> = Vec::new();
    assert_eq!(to_big_endian(&to_big_endian(&empty)), empty);
}

#[test]
fn swap_endian_reversed_is_big_endian() {
    let n: u32 = 0x12345678;
    let le = swap_endian_u32(n);
    let mut reversed = le.to_vec();
    reversed.reverse();
    assert_eq!(reversed, vec![0x12, 0x34, 0x56, 0x78]);
    assert_eq!(reversed, n.to_be_bytes().to_vec());
}

#[test]
fn parse_satoshis_accepts_plain_decimal() {
    assert_eq!(parse_satoshis("1000"), Ok(1000));
    assert_eq!(parse_satoshis("0"), Ok(0));
    assert_eq!(parse_satoshis("18446744073709551615"), Ok(u64::MAX));
}

#[test]
fn parse_satoshis_rejects_bad_input() {
    let err = Err("Invalid satoshi amount".to_string());
    assert_eq!(parse_satoshis(""), err);
    assert_eq!(parse_satoshis("+10"), err);
    assert_eq!(parse_satoshis(" 10"), err);
    assert_eq!(parse_satoshis("-10"), err);
    assert_eq!(parse_satoshis("10.5"), err);
    assert_eq!(parse_satoshis("18446744073709551616"), err);
}

#[test]
fn classify_script_edge_cases() {
    assert!(matches!(classify_script(&[]), ScriptType::Unknown));
    let mut almost_p2pkh = vec![0x00; 25];
    almost_p2pkh[0] = 0x76;
    almost_p2pkh[1] = 0xa9;
    almost_p2pkh[2] = 0x14;
    almost_p2pkh[23] = 0x88;
    almost_p2pkh[24] = 0xab;
    assert!(matches!(classify_script(&almost_p2pkh), ScriptType::Unknown));
    let mut almost_p2wpkh = vec![0x00; 22];
    almost_p2wpkh[1] = 0x15;
    assert!(matches!(classify_script(&almost_p2wpkh), ScriptType::Unknown));
}

#[test]
fn read_pushdata_short_scripts() {
    assert_eq!(read_pushdata(&[0x6a]), &[] as &[u8]);
    assert_eq!(read_pushdata(&[0x6a, 0x24]), &[] as &[u8]);
    assert_eq!(read_pushdata(&[]), &[] as &[u8]);
}

#[test]
fn apply_fee_saturates() {
    let mut balance: u64 = 100;
    apply_fee(&mut balance, 30);
    assert_eq!(balance, 70);
    apply_fee(&mut balance, 100);
    assert_eq!(balance, 0);
    apply_fee(&mut balance, 1);
    assert_eq!(balance, 0);
}
