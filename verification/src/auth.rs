//! The secrets of a service: its access token and its pairing code.
use vstd::prelude::*;

use crate::numbers::{
    decimal_padded, decimal_padded_text, digits_value, hex_char, hex_to_char, hex_value, is_digit,
    lemma_decimal_padded, numbers_of_width, padded_digits_are_the_last, padded_digits_read_back,
};
use crate::text::{lemma_already_trimmed, trimmed};

verus! {

/// Random values, drawn afresh for each set of secrets.
#[derive(Debug)]
pub struct Entropy {
    pub token: [u8; 32],
    pub code: u32,
}

/// Bytes in hexadecimal, two digits each.
pub open spec fn hex_bytes(bytes: Seq<u8>) -> Seq<char>
    decreases bytes.len(),
{
    if bytes.len() == 0 {
        Seq::empty()
    } else {
        hex_bytes(bytes.drop_last()).push(hex_char(bytes.last() as int / 16)).push(
            hex_char(bytes.last() as int % 16),
        )
    }
}

impl Entropy {
    /// The access token that these values make.
    pub open spec fn access_token(self) -> Seq<char> {
        hex_bytes(self.token@)
    }

    /// The pairing code that these values make.
    pub open spec fn pairing_code(self) -> Seq<char> {
        decimal_padded(self.code as nat, 6)
    }
}

/// Makes an access token: 64 hexadecimal digits.
pub fn generate_access_token(entropy: &Entropy) -> (token: String)
    ensures
        token@ == entropy.access_token(),
{
    let bytes = &entropy.token;
    let mut token = String::new();
    let mut i: usize = 0;
    assert(bytes@.take(0) =~= Seq::empty());
    while i < 32
        invariant
            i <= 32,
            bytes@.len() == 32,
            token@ == hex_bytes(bytes@.take(i as int)),
        decreases 32 - i,
    {
        let byte: u8 = bytes[i];
        token.push(hex_to_char(byte / 16));
        token.push(hex_to_char(byte % 16));
        i += 1;
        assert(bytes@.take(i as int).drop_last() =~= bytes@.take(i - 1));
    }
    assert(bytes@.take(32) =~= bytes@);
    token
}

/// Makes a pairing code: six decimal digits.
pub fn generate_pairing_code(entropy: &Entropy) -> (code: String)
    ensures
        code@ == entropy.pairing_code(),
{
    decimal_padded_text(entropy.code as u64, 6)
}

pub open spec fn is_hex_digit(c: char) -> bool {
    '0' <= c <= '9' || 'a' <= c <= 'f'
}

proof fn lemma_hex_bytes(bytes: Seq<u8>)
    ensures
        hex_bytes(bytes).len() == 2 * bytes.len(),
        forall|i: int|
            0 <= i < hex_bytes(bytes).len() ==> is_hex_digit(#[trigger] hex_bytes(bytes)[i]),
    decreases bytes.len(),
{
    if bytes.len() > 0 {
        lemma_hex_bytes(bytes.drop_last());
    }
}

/// Every generated access token has 64 characters, and every generated pairing
/// code six, all of them digits; neither is changed by trimming.
pub proof fn generated_secrets_are_well_formed(entropy: Entropy)
    ensures
        entropy.access_token().len() == 64,
        forall|i: int|
            0 <= i < 64 ==> is_hex_digit(#[trigger] entropy.access_token()[i]),
        entropy.pairing_code().len() == 6,
        forall|i: int| 0 <= i < 6 ==> is_digit(#[trigger] entropy.pairing_code()[i]),
        trimmed(entropy.access_token()) == entropy.access_token(),
        trimmed(entropy.pairing_code()) == entropy.pairing_code(),
{
    let token = entropy.access_token();
    let code = entropy.pairing_code();
    lemma_hex_bytes(entropy.token@);
    lemma_decimal_padded(entropy.code as nat, 6);
    assert(is_hex_digit(token[0]) && is_hex_digit(token[63]));
    assert(is_digit(code[0]) && is_digit(code[5]));
    lemma_already_trimmed(token);
    lemma_already_trimmed(code);
}

/// A token spells the random bytes that it is made of: each two digits are a byte.
pub proof fn tokens_spell_their_bytes(bytes: Seq<u8>, i: int)
    requires
        0 <= i < bytes.len(),
    ensures
        hex_bytes(bytes).len() == 2 * bytes.len(),
        hex_value(hex_bytes(bytes).subrange(2 * i, 2 * i + 2)) == bytes[i],
    decreases bytes.len(),
{
    lemma_hex_bytes(bytes);
    let front = bytes.drop_last();
    lemma_hex_bytes(front);
    let pair = hex_bytes(bytes).subrange(2 * i, 2 * i + 2);
    if i < front.len() {
        tokens_spell_their_bytes(front, i);
        assert(pair =~= hex_bytes(front).subrange(2 * i, 2 * i + 2));
    } else {
        let byte = bytes.last() as int;
        assert(pair[0] == hex_char(byte / 16));
        assert(pair[1] == hex_char(byte % 16));
        assert(pair.drop_last().drop_last() =~= Seq::empty());
        reveal_with_fuel(hex_value, 3);
        assert(pair.drop_last().last() == pair[0]);
    }
}

/// Two tokens that are the same were made of the same bytes.
pub proof fn tokens_are_injective(a: Entropy, b: Entropy)
    requires
        a.access_token() == b.access_token(),
    ensures
        a.token@ == b.token@,
{
    assert forall|i: int| 0 <= i < 32 implies a.token@[i] == b.token@[i] by {
        tokens_spell_their_bytes(a.token@, i);
        tokens_spell_their_bytes(b.token@, i);
    }
    assert(a.token@ =~= b.token@);
}

/// A pairing code is the number that was drawn, but for what is more than six digits
/// of it.
pub proof fn codes_are_the_drawn_numbers(entropy: Entropy)
    ensures
        digits_value(entropy.pairing_code()) == entropy.code as nat % 1_000_000,
{
    reveal_with_fuel(numbers_of_width, 7);
    assert(numbers_of_width(10, 6) == 1_000_000);
    padded_digits_are_the_last(entropy.code as nat, 6);
    padded_digits_read_back(entropy.code as nat % 1_000_000, 6);
}

} // verus!
