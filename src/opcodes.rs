//! The EVM opcode table.
use vstd::prelude::*;

verus! {

/// The byte of `JUMPDEST`, which marks a label.
pub const JUMPDEST: u8 = 0x5b;

/// The byte of `PUSH2`, which pushes a jump destination.
pub const PUSH2: u8 = 0x61;

/// Two characters are equal up to the case of an ASCII letter.
pub open spec fn char_eq_ignore_case(c: char, d: char) -> bool {
    c == d || ('A' <= c && c <= 'Z' && (c as u32) + 32 == (d as u32)) || ('A' <= d && d <= 'Z'
        && (d as u32) + 32 == (c as u32))
}

/// Two strings are equal up to the case of ASCII letters.
pub open spec fn eq_ignore_case(a: Seq<char>, b: Seq<char>) -> bool {
    a.len() == b.len() && forall|i: int| 0 <= i < a.len() ==> char_eq_ignore_case(a[i], b[i])
}

/// The byte of a mnemonic; letters are compared without regard to case.
pub open spec fn opcode_of(name: Seq<char>) -> Option<u8> {
    if eq_ignore_case(name, "stop"@) {
        Some(0x00u8)
    } else if eq_ignore_case(name, "add"@) {
        Some(0x01u8)
    } else if eq_ignore_case(name, "mul"@) {
        Some(0x02u8)
    } else if eq_ignore_case(name, "sub"@) {
        Some(0x03u8)
    } else if eq_ignore_case(name, "div"@) {
        Some(0x04u8)
    } else if eq_ignore_case(name, "sdiv"@) {
        Some(0x05u8)
    } else if eq_ignore_case(name, "mod"@) {
        Some(0x06u8)
    } else if eq_ignore_case(name, "smod"@) {
        Some(0x07u8)
    } else if eq_ignore_case(name, "addmod"@) {
        Some(0x08u8)
    } else if eq_ignore_case(name, "mulmod"@) {
        Some(0x09u8)
    } else if eq_ignore_case(name, "exp"@) {
        Some(0x0au8)
    } else if eq_ignore_case(name, "signextend"@) {
        Some(0x0bu8)
    } else if eq_ignore_case(name, "lt"@) {
        Some(0x10u8)
    } else if eq_ignore_case(name, "gt"@) {
        Some(0x11u8)
    } else if eq_ignore_case(name, "slt"@) {
        Some(0x12u8)
    } else if eq_ignore_case(name, "sgt"@) {
        Some(0x13u8)
    } else if eq_ignore_case(name, "eq"@) {
        Some(0x14u8)
    } else if eq_ignore_case(name, "iszero"@) {
        Some(0x15u8)
    } else if eq_ignore_case(name, "and"@) {
        Some(0x16u8)
    } else if eq_ignore_case(name, "or"@) {
        Some(0x17u8)
    } else if eq_ignore_case(name, "xor"@) {
        Some(0x18u8)
    } else if eq_ignore_case(name, "not"@) {
        Some(0x19u8)
    } else if eq_ignore_case(name, "byte"@) {
        Some(0x1au8)
    } else if eq_ignore_case(name, "shl"@) {
        Some(0x1bu8)
    } else if eq_ignore_case(name, "shr"@) {
        Some(0x1cu8)
    } else if eq_ignore_case(name, "sar"@) {
        Some(0x1du8)
    } else if eq_ignore_case(name, "sha3"@) {
        Some(0x20u8)
    } else if eq_ignore_case(name, "address"@) {
        Some(0x30u8)
    } else if eq_ignore_case(name, "balance"@) {
        Some(0x31u8)
    } else if eq_ignore_case(name, "origin"@) {
        Some(0x32u8)
    } else if eq_ignore_case(name, "caller"@) {
        Some(0x33u8)
    } else if eq_ignore_case(name, "callvalue"@) {
        Some(0x34u8)
    } else if eq_ignore_case(name, "calldataload"@) {
        Some(0x35u8)
    } else if eq_ignore_case(name, "calldatasize"@) {
        Some(0x36u8)
    } else if eq_ignore_case(name, "calldatacopy"@) {
        Some(0x37u8)
    } else if eq_ignore_case(name, "codesize"@) {
        Some(0x38u8)
    } else if eq_ignore_case(name, "codecopy"@) {
        Some(0x39u8)
    } else if eq_ignore_case(name, "gasprice"@) {
        Some(0x3au8)
    } else if eq_ignore_case(name, "extcodesize"@) {
        Some(0x3bu8)
    } else if eq_ignore_case(name, "extcodecopy"@) {
        Some(0x3cu8)
    } else if eq_ignore_case(name, "returndatasize"@) {
        Some(0x3du8)
    } else if eq_ignore_case(name, "returndatacopy"@) {
        Some(0x3eu8)
    } else if eq_ignore_case(name, "extcodehash"@) {
        Some(0x3fu8)
    } else if eq_ignore_case(name, "blockhash"@) {
        Some(0x40u8)
    } else if eq_ignore_case(name, "coinbase"@) {
        Some(0x41u8)
    } else if eq_ignore_case(name, "timestamp"@) {
        Some(0x42u8)
    } else if eq_ignore_case(name, "number"@) {
        Some(0x43u8)
    } else if eq_ignore_case(name, "difficulty"@) {
        Some(0x44u8)
    } else if eq_ignore_case(name, "prevrandao"@) {
        Some(0x44u8)
    } else if eq_ignore_case(name, "gaslimit"@) {
        Some(0x45u8)
    } else if eq_ignore_case(name, "chainid"@) {
        Some(0x46u8)
    } else if eq_ignore_case(name, "selfbalance"@) {
        Some(0x47u8)
    } else if eq_ignore_case(name, "basefee"@) {
        Some(0x48u8)
    } else if eq_ignore_case(name, "pop"@) {
        Some(0x50u8)
    } else if eq_ignore_case(name, "mload"@) {
        Some(0x51u8)
    } else if eq_ignore_case(name, "mstore"@) {
        Some(0x52u8)
    } else if eq_ignore_case(name, "mstore8"@) {
        Some(0x53u8)
    } else if eq_ignore_case(name, "sload"@) {
        Some(0x54u8)
    } else if eq_ignore_case(name, "sstore"@) {
        Some(0x55u8)
    } else if eq_ignore_case(name, "jump"@) {
        Some(0x56u8)
    } else if eq_ignore_case(name, "jumpi"@) {
        Some(0x57u8)
    } else if eq_ignore_case(name, "pc"@) {
        Some(0x58u8)
    } else if eq_ignore_case(name, "msize"@) {
        Some(0x59u8)
    } else if eq_ignore_case(name, "gas"@) {
        Some(0x5au8)
    } else if eq_ignore_case(name, "jumpdest"@) {
        Some(0x5bu8)
    } else if eq_ignore_case(name, "push0"@) {
        Some(0x5fu8)
    } else if eq_ignore_case(name, "push1"@) {
        Some(0x60u8)
    } else if eq_ignore_case(name, "push2"@) {
        Some(0x61u8)
    } else if eq_ignore_case(name, "push3"@) {
        Some(0x62u8)
    } else if eq_ignore_case(name, "push4"@) {
        Some(0x63u8)
    } else if eq_ignore_case(name, "push5"@) {
        Some(0x64u8)
    } else if eq_ignore_case(name, "push6"@) {
        Some(0x65u8)
    } else if eq_ignore_case(name, "push7"@) {
        Some(0x66u8)
    } else if eq_ignore_case(name, "push8"@) {
        Some(0x67u8)
    } else if eq_ignore_case(name, "push9"@) {
        Some(0x68u8)
    } else if eq_ignore_case(name, "push10"@) {
        Some(0x69u8)
    } else if eq_ignore_case(name, "push11"@) {
        Some(0x6au8)
    } else if eq_ignore_case(name, "push12"@) {
        Some(0x6bu8)
    } else if eq_ignore_case(name, "push13"@) {
        Some(0x6cu8)
    } else if eq_ignore_case(name, "push14"@) {
        Some(0x6du8)
    } else if eq_ignore_case(name, "push15"@) {
        Some(0x6eu8)
    } else if eq_ignore_case(name, "push16"@) {
        Some(0x6fu8)
    } else if eq_ignore_case(name, "push17"@) {
        Some(0x70u8)
    } else if eq_ignore_case(name, "push18"@) {
        Some(0x71u8)
    } else if eq_ignore_case(name, "push19"@) {
        Some(0x72u8)
    } else if eq_ignore_case(name, "push20"@) {
        Some(0x73u8)
    } else if eq_ignore_case(name, "push21"@) {
        Some(0x74u8)
    } else if eq_ignore_case(name, "push22"@) {
        Some(0x75u8)
    } else if eq_ignore_case(name, "push23"@) {
        Some(0x76u8)
    } else if eq_ignore_case(name, "push24"@) {
        Some(0x77u8)
    } else if eq_ignore_case(name, "push25"@) {
        Some(0x78u8)
    } else if eq_ignore_case(name, "push26"@) {
        Some(0x79u8)
    } else if eq_ignore_case(name, "push27"@) {
        Some(0x7au8)
    } else if eq_ignore_case(name, "push28"@) {
        Some(0x7bu8)
    } else if eq_ignore_case(name, "push29"@) {
        Some(0x7cu8)
    } else if eq_ignore_case(name, "push30"@) {
        Some(0x7du8)
    } else if eq_ignore_case(name, "push31"@) {
        Some(0x7eu8)
    } else if eq_ignore_case(name, "push32"@) {
        Some(0x7fu8)
    } else if eq_ignore_case(name, "dup1"@) {
        Some(0x80u8)
    } else if eq_ignore_case(name, "dup2"@) {
        Some(0x81u8)
    } else if eq_ignore_case(name, "dup3"@) {
        Some(0x82u8)
    } else if eq_ignore_case(name, "dup4"@) {
        Some(0x83u8)
    } else if eq_ignore_case(name, "dup5"@) {
        Some(0x84u8)
    } else if eq_ignore_case(name, "dup6"@) {
        Some(0x85u8)
    } else if eq_ignore_case(name, "dup7"@) {
        Some(0x86u8)
    } else if eq_ignore_case(name, "dup8"@) {
        Some(0x87u8)
    } else if eq_ignore_case(name, "dup9"@) {
        Some(0x88u8)
    } else if eq_ignore_case(name, "dup10"@) {
        Some(0x89u8)
    } else if eq_ignore_case(name, "dup11"@) {
        Some(0x8au8)
    } else if eq_ignore_case(name, "dup12"@) {
        Some(0x8bu8)
    } else if eq_ignore_case(name, "dup13"@) {
        Some(0x8cu8)
    } else if eq_ignore_case(name, "dup14"@) {
        Some(0x8du8)
    } else if eq_ignore_case(name, "dup15"@) {
        Some(0x8eu8)
    } else if eq_ignore_case(name, "dup16"@) {
        Some(0x8fu8)
    } else if eq_ignore_case(name, "swap1"@) {
        Some(0x90u8)
    } else if eq_ignore_case(name, "swap2"@) {
        Some(0x91u8)
    } else if eq_ignore_case(name, "swap3"@) {
        Some(0x92u8)
    } else if eq_ignore_case(name, "swap4"@) {
        Some(0x93u8)
    } else if eq_ignore_case(name, "swap5"@) {
        Some(0x94u8)
    } else if eq_ignore_case(name, "swap6"@) {
        Some(0x95u8)
    } else if eq_ignore_case(name, "swap7"@) {
        Some(0x96u8)
    } else if eq_ignore_case(name, "swap8"@) {
        Some(0x97u8)
    } else if eq_ignore_case(name, "swap9"@) {
        Some(0x98u8)
    } else if eq_ignore_case(name, "swap10"@) {
        Some(0x99u8)
    } else if eq_ignore_case(name, "swap11"@) {
        Some(0x9au8)
    } else if eq_ignore_case(name, "swap12"@) {
        Some(0x9bu8)
    } else if eq_ignore_case(name, "swap13"@) {
        Some(0x9cu8)
    } else if eq_ignore_case(name, "swap14"@) {
        Some(0x9du8)
    } else if eq_ignore_case(name, "swap15"@) {
        Some(0x9eu8)
    } else if eq_ignore_case(name, "swap16"@) {
        Some(0x9fu8)
    } else if eq_ignore_case(name, "log0"@) {
        Some(0xa0u8)
    } else if eq_ignore_case(name, "log1"@) {
        Some(0xa1u8)
    } else if eq_ignore_case(name, "log2"@) {
        Some(0xa2u8)
    } else if eq_ignore_case(name, "log3"@) {
        Some(0xa3u8)
    } else if eq_ignore_case(name, "log4"@) {
        Some(0xa4u8)
    } else if eq_ignore_case(name, "create"@) {
        Some(0xf0u8)
    } else if eq_ignore_case(name, "call"@) {
        Some(0xf1u8)
    } else if eq_ignore_case(name, "callcode"@) {
        Some(0xf2u8)
    } else if eq_ignore_case(name, "return"@) {
        Some(0xf3u8)
    } else if eq_ignore_case(name, "delegatecall"@) {
        Some(0xf4u8)
    } else if eq_ignore_case(name, "create2"@) {
        Some(0xf5u8)
    } else if eq_ignore_case(name, "staticcall"@) {
        Some(0xfau8)
    } else if eq_ignore_case(name, "revert"@) {
        Some(0xfdu8)
    } else if eq_ignore_case(name, "invalid"@) {
        Some(0xfeu8)
    } else if eq_ignore_case(name, "selfdestruct"@) {
        Some(0xffu8)
    } else {
        None
    }
}

fn chars_eq(a: &str, b: &str) -> (r: bool)
    ensures
        r == eq_ignore_case(a@, b@),
{
    let n = b.unicode_len();
    if a.unicode_len() != n {
        return false;
    }
    let mut i: usize = 0;
    while i < n
        invariant
            n == b@.len(),
            a@.len() == n,
            i <= n,
            forall|j: int| 0 <= j < i ==> char_eq_ignore_case(a@[j], b@[j]),
        decreases n - i,
    {
        let c = a.get_char(i);
        let d = b.get_char(i);
        let same = c == d || ('A' <= c && c <= 'Z' && (c as u32) + 32 == (d as u32)) || ('A' <= d
            && d <= 'Z' && (d as u32) + 32 == (c as u32));
        if !same {
            return false;
        }
        i = i + 1;
    }
    true
}

/// Looks a mnemonic up in the opcode table.
#[verifier::rlimit(50)]
pub fn opcode_byte(name: &str) -> (r: Option<u8>)
    ensures
        r == opcode_of(name@),
{
    if chars_eq(name, "stop") {
        return Some(0x00u8);
    }
    if chars_eq(name, "add") {
        return Some(0x01u8);
    }
    if chars_eq(name, "mul") {
        return Some(0x02u8);
    }
    if chars_eq(name, "sub") {
        return Some(0x03u8);
    }
    if chars_eq(name, "div") {
        return Some(0x04u8);
    }
    if chars_eq(name, "sdiv") {
        return Some(0x05u8);
    }
    if chars_eq(name, "mod") {
        return Some(0x06u8);
    }
    if chars_eq(name, "smod") {
        return Some(0x07u8);
    }
    if chars_eq(name, "addmod") {
        return Some(0x08u8);
    }
    if chars_eq(name, "mulmod") {
        return Some(0x09u8);
    }
    if chars_eq(name, "exp") {
        return Some(0x0au8);
    }
    if chars_eq(name, "signextend") {
        return Some(0x0bu8);
    }
    if chars_eq(name, "lt") {
        return Some(0x10u8);
    }
    if chars_eq(name, "gt") {
        return Some(0x11u8);
    }
    if chars_eq(name, "slt") {
        return Some(0x12u8);
    }
    if chars_eq(name, "sgt") {
        return Some(0x13u8);
    }
    if chars_eq(name, "eq") {
        return Some(0x14u8);
    }
    if chars_eq(name, "iszero") {
        return Some(0x15u8);
    }
    if chars_eq(name, "and") {
        return Some(0x16u8);
    }
    if chars_eq(name, "or") {
        return Some(0x17u8);
    }
    if chars_eq(name, "xor") {
        return Some(0x18u8);
    }
    if chars_eq(name, "not") {
        return Some(0x19u8);
    }
    if chars_eq(name, "byte") {
        return Some(0x1au8);
    }
    if chars_eq(name, "shl") {
        return Some(0x1bu8);
    }
    if chars_eq(name, "shr") {
        return Some(0x1cu8);
    }
    if chars_eq(name, "sar") {
        return Some(0x1du8);
    }
    if chars_eq(name, "sha3") {
        return Some(0x20u8);
    }
    if chars_eq(name, "address") {
        return Some(0x30u8);
    }
    if chars_eq(name, "balance") {
        return Some(0x31u8);
    }
    if chars_eq(name, "origin") {
        return Some(0x32u8);
    }
    if chars_eq(name, "caller") {
        return Some(0x33u8);
    }
    if chars_eq(name, "callvalue") {
        return Some(0x34u8);
    }
    if chars_eq(name, "calldataload") {
        return Some(0x35u8);
    }
    if chars_eq(name, "calldatasize") {
        return Some(0x36u8);
    }
    if chars_eq(name, "calldatacopy") {
        return Some(0x37u8);
    }
    if chars_eq(name, "codesize") {
        return Some(0x38u8);
    }
    if chars_eq(name, "codecopy") {
        return Some(0x39u8);
    }
    if chars_eq(name, "gasprice") {
        return Some(0x3au8);
    }
    if chars_eq(name, "extcodesize") {
        return Some(0x3bu8);
    }
    if chars_eq(name, "extcodecopy") {
        return Some(0x3cu8);
    }
    if chars_eq(name, "returndatasize") {
        return Some(0x3du8);
    }
    if chars_eq(name, "returndatacopy") {
        return Some(0x3eu8);
    }
    if chars_eq(name, "extcodehash") {
        return Some(0x3fu8);
    }
    if chars_eq(name, "blockhash") {
        return Some(0x40u8);
    }
    if chars_eq(name, "coinbase") {
        return Some(0x41u8);
    }
    if chars_eq(name, "timestamp") {
        return Some(0x42u8);
    }
    if chars_eq(name, "number") {
        return Some(0x43u8);
    }
    if chars_eq(name, "difficulty") {
        return Some(0x44u8);
    }
    if chars_eq(name, "prevrandao") {
        return Some(0x44u8);
    }
    if chars_eq(name, "gaslimit") {
        return Some(0x45u8);
    }
    if chars_eq(name, "chainid") {
        return Some(0x46u8);
    }
    if chars_eq(name, "selfbalance") {
        return Some(0x47u8);
    }
    if chars_eq(name, "basefee") {
        return Some(0x48u8);
    }
    if chars_eq(name, "pop") {
        return Some(0x50u8);
    }
    if chars_eq(name, "mload") {
        return Some(0x51u8);
    }
    if chars_eq(name, "mstore") {
        return Some(0x52u8);
    }
    if chars_eq(name, "mstore8") {
        return Some(0x53u8);
    }
    if chars_eq(name, "sload") {
        return Some(0x54u8);
    }
    if chars_eq(name, "sstore") {
        return Some(0x55u8);
    }
    if chars_eq(name, "jump") {
        return Some(0x56u8);
    }
    if chars_eq(name, "jumpi") {
        return Some(0x57u8);
    }
    if chars_eq(name, "pc") {
        return Some(0x58u8);
    }
    if chars_eq(name, "msize") {
        return Some(0x59u8);
    }
    if chars_eq(name, "gas") {
        return Some(0x5au8);
    }
    if chars_eq(name, "jumpdest") {
        return Some(0x5bu8);
    }
    if chars_eq(name, "push0") {
        return Some(0x5fu8);
    }
    if chars_eq(name, "push1") {
        return Some(0x60u8);
    }
    if chars_eq(name, "push2") {
        return Some(0x61u8);
    }
    if chars_eq(name, "push3") {
        return Some(0x62u8);
    }
    if chars_eq(name, "push4") {
        return Some(0x63u8);
    }
    if chars_eq(name, "push5") {
        return Some(0x64u8);
    }
    if chars_eq(name, "push6") {
        return Some(0x65u8);
    }
    if chars_eq(name, "push7") {
        return Some(0x66u8);
    }
    if chars_eq(name, "push8") {
        return Some(0x67u8);
    }
    if chars_eq(name, "push9") {
        return Some(0x68u8);
    }
    if chars_eq(name, "push10") {
        return Some(0x69u8);
    }
    if chars_eq(name, "push11") {
        return Some(0x6au8);
    }
    if chars_eq(name, "push12") {
        return Some(0x6bu8);
    }
    if chars_eq(name, "push13") {
        return Some(0x6cu8);
    }
    if chars_eq(name, "push14") {
        return Some(0x6du8);
    }
    if chars_eq(name, "push15") {
        return Some(0x6eu8);
    }
    if chars_eq(name, "push16") {
        return Some(0x6fu8);
    }
    if chars_eq(name, "push17") {
        return Some(0x70u8);
    }
    if chars_eq(name, "push18") {
        return Some(0x71u8);
    }
    if chars_eq(name, "push19") {
        return Some(0x72u8);
    }
    if chars_eq(name, "push20") {
        return Some(0x73u8);
    }
    if chars_eq(name, "push21") {
        return Some(0x74u8);
    }
    if chars_eq(name, "push22") {
        return Some(0x75u8);
    }
    if chars_eq(name, "push23") {
        return Some(0x76u8);
    }
    if chars_eq(name, "push24") {
        return Some(0x77u8);
    }
    if chars_eq(name, "push25") {
        return Some(0x78u8);
    }
    if chars_eq(name, "push26") {
        return Some(0x79u8);
    }
    if chars_eq(name, "push27") {
        return Some(0x7au8);
    }
    if chars_eq(name, "push28") {
        return Some(0x7bu8);
    }
    if chars_eq(name, "push29") {
        return Some(0x7cu8);
    }
    if chars_eq(name, "push30") {
        return Some(0x7du8);
    }
    if chars_eq(name, "push31") {
        return Some(0x7eu8);
    }
    if chars_eq(name, "push32") {
        return Some(0x7fu8);
    }
    if chars_eq(name, "dup1") {
        return Some(0x80u8);
    }
    if chars_eq(name, "dup2") {
        return Some(0x81u8);
    }
    if chars_eq(name, "dup3") {
        return Some(0x82u8);
    }
    if chars_eq(name, "dup4") {
        return Some(0x83u8);
    }
    if chars_eq(name, "dup5") {
        return Some(0x84u8);
    }
    if chars_eq(name, "dup6") {
        return Some(0x85u8);
    }
    if chars_eq(name, "dup7") {
        return Some(0x86u8);
    }
    if chars_eq(name, "dup8") {
        return Some(0x87u8);
    }
    if chars_eq(name, "dup9") {
        return Some(0x88u8);
    }
    if chars_eq(name, "dup10") {
        return Some(0x89u8);
    }
    if chars_eq(name, "dup11") {
        return Some(0x8au8);
    }
    if chars_eq(name, "dup12") {
        return Some(0x8bu8);
    }
    if chars_eq(name, "dup13") {
        return Some(0x8cu8);
    }
    if chars_eq(name, "dup14") {
        return Some(0x8du8);
    }
    if chars_eq(name, "dup15") {
        return Some(0x8eu8);
    }
    if chars_eq(name, "dup16") {
        return Some(0x8fu8);
    }
    if chars_eq(name, "swap1") {
        return Some(0x90u8);
    }
    if chars_eq(name, "swap2") {
        return Some(0x91u8);
    }
    if chars_eq(name, "swap3") {
        return Some(0x92u8);
    }
    if chars_eq(name, "swap4") {
        return Some(0x93u8);
    }
    if chars_eq(name, "swap5") {
        return Some(0x94u8);
    }
    if chars_eq(name, "swap6") {
        return Some(0x95u8);
    }
    if chars_eq(name, "swap7") {
        return Some(0x96u8);
    }
    if chars_eq(name, "swap8") {
        return Some(0x97u8);
    }
    if chars_eq(name, "swap9") {
        return Some(0x98u8);
    }
    if chars_eq(name, "swap10") {
        return Some(0x99u8);
    }
    if chars_eq(name, "swap11") {
        return Some(0x9au8);
    }
    if chars_eq(name, "swap12") {
        return Some(0x9bu8);
    }
    if chars_eq(name, "swap13") {
        return Some(0x9cu8);
    }
    if chars_eq(name, "swap14") {
        return Some(0x9du8);
    }
    if chars_eq(name, "swap15") {
        return Some(0x9eu8);
    }
    if chars_eq(name, "swap16") {
        return Some(0x9fu8);
    }
    if chars_eq(name, "log0") {
        return Some(0xa0u8);
    }
    if chars_eq(name, "log1") {
        return Some(0xa1u8);
    }
    if chars_eq(name, "log2") {
        return Some(0xa2u8);
    }
    if chars_eq(name, "log3") {
        return Some(0xa3u8);
    }
    if chars_eq(name, "log4") {
        return Some(0xa4u8);
    }
    if chars_eq(name, "create") {
        return Some(0xf0u8);
    }
    if chars_eq(name, "call") {
        return Some(0xf1u8);
    }
    if chars_eq(name, "callcode") {
        return Some(0xf2u8);
    }
    if chars_eq(name, "return") {
        return Some(0xf3u8);
    }
    if chars_eq(name, "delegatecall") {
        return Some(0xf4u8);
    }
    if chars_eq(name, "create2") {
        return Some(0xf5u8);
    }
    if chars_eq(name, "staticcall") {
        return Some(0xfau8);
    }
    if chars_eq(name, "revert") {
        return Some(0xfdu8);
    }
    if chars_eq(name, "invalid") {
        return Some(0xfeu8);
    }
    if chars_eq(name, "selfdestruct") {
        return Some(0xffu8);
    }
    None
}

} // verus!
