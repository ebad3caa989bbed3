//! Script primitives: pattern classification of output scripts, push-data
//! extraction, and single-byte opcode resolution.

use vstd::prelude::*;
use vstd::slice::slice_subrange;

verus! {

/// The script templates this layer recognises.
pub enum ScriptType {
    P2PKH,
    P2WPKH,
    Unknown,
}

/// A pay-to-public-key-hash script: 25 bytes, `DUP HASH160 <20-byte push>`
/// in front and `EQUALVERIFY CHECKSIG` behind; the 20 payload bytes are
/// arbitrary.
pub open spec fn is_p2pkh(s: Seq<u8>) -> bool {
    s.len() == 25 && s[0] == 0x76 && s[1] == 0xa9 && s[2] == 0x14 && s[23] == 0x88 && s[24] == 0xac
}

/// A pay-to-witness-public-key-hash script: 22 bytes, witness version 0 and
/// a 20-byte push; the 20 payload bytes are arbitrary.
pub open spec fn is_p2wpkh(s: Seq<u8>) -> bool {
    s.len() == 22 && s[0] == 0x00 && s[1] == 0x14
}

/// The tag a script classifies as; the two templates differ in length, so at
/// most one matches.
pub open spec fn spec_classify(s: Seq<u8>) -> ScriptType {
    if is_p2pkh(s) {
        ScriptType::P2PKH
    } else if is_p2wpkh(s) {
        ScriptType::P2WPKH
    } else {
        ScriptType::Unknown
    }
}

/// Classifies a raw output script against the known templates; any other
/// length or byte pattern, the empty script included, is `Unknown`.
pub fn classify_script(script: &[u8]) -> (r: ScriptType)
    ensures
        r == spec_classify(script@),
{
    if script.len() == 25 && script[0] == 0x76 && script[1] == 0xa9 && script[2] == 0x14
        && script[23] == 0x88 && script[24] == 0xac {
        ScriptType::P2PKH
    } else if script.len() == 22 && script[0] == 0x00 && script[1] == 0x14 {
        ScriptType::P2WPKH
    } else {
        ScriptType::Unknown
    }
}

/// Returns the bytes after the fixed 2-byte opcode/length prefix as a
/// borrowed view into `script`, or an empty view when the script is no
/// longer than the prefix.
pub fn read_pushdata(script: &[u8]) -> (r: &[u8])
    ensures
        script@.len() > 2 ==> r@ == script@.subrange(2, script@.len() as int),
        script@.len() <= 2 ==> r@ == Seq::<u8>::empty(),
{
    if script.len() > 2 {
        slice_subrange(script, 2, script.len())
    } else {
        let empty = slice_subrange(script, 0, 0);
        assert(empty@ =~= Seq::<u8>::empty());
        empty
    }
}

/// The opcodes this layer names.
#[derive(Debug, PartialEq, Eq)]
pub enum Opcode {
    OpChecksig,
    OpDup,
    OpInvalid,
}

/// The opcode a byte resolves to: `0xac` and `0x76` are named, every other
/// byte falls into the catch-all.
pub open spec fn spec_opcode_from_byte(byte: u8) -> Opcode {
    if byte == 0xac {
        Opcode::OpChecksig
    } else if byte == 0x76 {
        Opcode::OpDup
    } else {
        Opcode::OpInvalid
    }
}

impl Opcode {
    /// Resolves a single byte to an opcode; never fails, unrecognised bytes
    /// (byte `0x00` included) give `OpInvalid`.
    pub fn from_byte(byte: u8) -> (r: Result<Opcode, String>)
        ensures
            r == Ok::<Opcode, String>(spec_opcode_from_byte(byte)),
    {
        match byte {
            0xac => Ok(Opcode::OpChecksig),
            0x76 => Ok(Opcode::OpDup),
            _ => Ok(Opcode::OpInvalid),
        }
    }
}

} // verus!
