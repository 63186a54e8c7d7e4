use vstd::prelude::*;

use crate::error::FaucetError;

verus! {

/// Bytes in an account identifier.
pub const ACCOUNT_LEN: usize = 32;

#[verifier::external_type_specification]
#[verifier::external_body]
pub struct ExFromHexError(hex::FromHexError);

/// A character that stands for a hexadecimal digit, in either case.
pub open spec fn is_hex_digit(c: char) -> bool {
    (48 <= c as u32 <= 57) || (97 <= c as u32 <= 102) || (65 <= c as u32 <= 70)
}

/// The value of a hexadecimal digit character.
pub open spec fn hex_digit_value(c: char) -> nat {
    if 48 <= c as u32 <= 57 {
        (c as u32 - 48) as nat
    } else if 97 <= c as u32 <= 102 {
        (c as u32 - 87) as nat
    } else {
        (c as u32 - 55) as nat
    }
}

/// Text made of an even number of hexadecimal digits.
pub open spec fn is_hex_text(s: Seq<char>) -> bool {
    &&& s.len() % 2 == 0
    &&& forall|i: int| 0 <= i < s.len() ==> is_hex_digit(#[trigger] s[i])
}

/// The bytes that hexadecimal text encodes, one per pair of digits, high digit first.
pub open spec fn hex_bytes(s: Seq<char>) -> Seq<u8> {
    Seq::new(
        (s.len() / 2) as nat,
        |i: int| (hex_digit_value(s[2 * i]) * 16 + hex_digit_value(s[2 * i + 1])) as u8,
    )
}

/// The account an address names: the first `ACCOUNT_LEN` bytes of its
/// hexadecimal text, if the text decodes to at least that many.
pub open spec fn account_of(s: Seq<char>) -> Option<Seq<u8>> {
    if is_hex_text(s) && hex_bytes(s).len() >= ACCOUNT_LEN {
        Some(hex_bytes(s).take(ACCOUNT_LEN as int))
    } else {
        None
    }
}

/// Relies on hex::decode: it succeeds exactly on text of an even number of
/// hexadecimal digits of either case, and turns each pair into one byte, high
/// digit first.
#[verifier::external_body]
fn decode_hex(s: &str) -> (r: Result<Vec<u8>, hex::FromHexError>)
    ensures
        r is Ok <==> is_hex_text(s@),
        r is Ok ==> r->Ok_0@ == hex_bytes(s@),
{
    hex::decode(s)
}

/// Decodes a recipient address, written in hexadecimal, into an account
/// identifier. Text that is not hexadecimal, or that decodes to fewer than
/// `ACCOUNT_LEN` bytes, is a `Validation` error; bytes past the first
/// `ACCOUNT_LEN` are ignored.
pub fn decode_account(address: &str) -> (r: Result<[u8; 32], FaucetError>)
    ensures
        match account_of(address@) {
            Some(acc) => r is Ok && r->Ok_0@ == acc,
            None => r == Err::<[u8; 32], FaucetError>(FaucetError::Validation),
        },
{
    let bytes = match decode_hex(address) {
        Ok(b) => b,
        Err(_) => return Err(FaucetError::Validation),
    };
    if bytes.len() < ACCOUNT_LEN {
        return Err(FaucetError::Validation);
    }
    let mut account: [u8; 32] = [0u8; 32];
    let mut i: usize = 0;
    while i < ACCOUNT_LEN
        invariant
            i <= ACCOUNT_LEN,
            bytes@.len() >= ACCOUNT_LEN,
            account@.len() == ACCOUNT_LEN,
            forall|j: int| 0 <= j < i ==> account@[j] == bytes@[j],
        decreases ACCOUNT_LEN - i,
    {
        account[i] = bytes[i];
        i = i + 1;
    }
    assert(account@ =~= bytes@.take(ACCOUNT_LEN as int));
    Ok(account)
}

} // verus!
