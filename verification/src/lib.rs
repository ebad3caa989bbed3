//! Bitcoin transaction-primitive codec: hex/byte conversion, endianness
//! flipping, script-pattern classification, push-data extraction, opcode
//! resolution, and satoshi-amount parsing.

mod amount;
mod endian;
mod hex_codec;
mod script;
mod wallet;

pub use amount::{
    is_dec_digit, dec_val, dec_digits_only, spec_dec_int, valid_amount, parse_satoshis,
};
pub use endian::{
    to_big_endian, lemma_to_big_endian_involution, spec_u32_le, spec_u32_be, swap_endian_u32,
    lemma_le_reverse_is_be, lemma_u32_le_value,
};
pub use hex_codec::{
    HexDecodeError, decode_hex, hex_to_bytes, bytes_to_hex, is_hex_digit, hex_val, hex_char,
    hex_digits_only, valid_hex, ascii_only, first_non_hex, hex_byte, spec_hex_decode,
    spec_hex_encode, lemma_hex_encode_len, lower_hex_char, lemma_hex_round_trip,
    lemma_hex_decode_then_encode,
};
pub use script::{
    ScriptType, is_p2pkh, is_p2wpkh, spec_classify, classify_script, read_pushdata, Opcode,
    spec_opcode_from_byte,
};
pub use wallet::{Outpoint, UTXO, consume_utxo, Wallet, TestWallet, apply_fee, move_txid};
