//! The group that the service works in: the 1024-bit modulus with a 160-bit
//! prime order subgroup of RFC 5114, section 2.1, written as hexadecimal text.

use crate::bignum::{be_value, lemma_leading_byte_bounds, mod_pow};
use crate::group::GroupParameters;
use crate::hexstr::{hex_bytes, is_hex_text, lemma_hex_bytes_first};
use vstd::prelude::*;

verus! {

/// The prime modulus `p`.
pub const P_HEX: &'static str =
    "B10B8F96A080E01DDE92DE5EAE5D54EC52C99FBCFB06A3C69A6A9DCA52D23B616073E28675A23D189838EF1E2EE652C013ECB4AEA906112324975C3CD49B83BFACCBDD7D90C4BD7098488E9C219A73724EFFD6FAE5644738FAA31A4FF55BCCC0A151AF5F0DC8B4BD45BF37DF365C1A65E68CFDA76D4DA708DF1FB2BC2E4A4371";

/// The prime order `q` of the subgroup.
pub const Q_HEX: &'static str = "F518AA8781A8DF278ABA4E7D64B7CB9D49462353";

/// The generator `g` of the subgroup.
pub const G_HEX: &'static str =
    "A4D1CBD5C3FD34126765A442EFB99905F8104DD258AC507FD6406CFF14266D31266FEA1E5C41564B777E690F5504F213160217B4B01B886A5E91547F9E2749F4D7FBD7D3B9A92EE1909D0D2263F80A76A6A24C087A091F531DBF0A0169B6A28AD662A4D18E73AFA32D779D5918D08BC8858F4DCEF97C2A24855E6EEB22B3B2E5";

/// The exponent that takes `g` to the second generator `h`.
pub const H_EXPONENT: u32 = 85;

/// The number that hexadecimal text spells, most significant digit first.
pub open spec fn hex_number(text: Seq<char>) -> nat {
    be_value(hex_bytes(text))
}

/// The default group: `p`, `q` and `g` as the constants spell them, and
/// `h = g^85 mod p`.
pub open spec fn default_group() -> GroupParameters {
    GroupParameters {
        p: hex_number(P_HEX@),
        q: hex_number(Q_HEX@),
        g: hex_number(G_HEX@),
        h: mod_pow(hex_number(G_HEX@), H_EXPONENT as nat, hex_number(P_HEX@)),
    }
}

/// The three constants are hexadecimal text, and the moduli that they spell
/// are not zero.
pub proof fn lemma_default_group_is_usable()
    ensures
        is_hex_text(P_HEX@),
        is_hex_text(Q_HEX@),
        is_hex_text(G_HEX@),
        default_group().usable(),
{
    reveal_strlit(
        "B10B8F96A080E01DDE92DE5EAE5D54EC52C99FBCFB06A3C69A6A9DCA52D23B616073E28675A23D189838EF1E2EE652C013ECB4AEA906112324975C3CD49B83BFACCBDD7D90C4BD7098488E9C219A73724EFFD6FAE5644738FAA31A4FF55BCCC0A151AF5F0DC8B4BD45BF37DF365C1A65E68CFDA76D4DA708DF1FB2BC2E4A4371",
    );
    reveal_strlit("F518AA8781A8DF278ABA4E7D64B7CB9D49462353");
    reveal_strlit(
        "A4D1CBD5C3FD34126765A442EFB99905F8104DD258AC507FD6406CFF14266D31266FEA1E5C41564B777E690F5504F213160217B4B01B886A5E91547F9E2749F4D7FBD7D3B9A92EE1909D0D2263F80A76A6A24C087A091F531DBF0A0169B6A28AD662A4D18E73AFA32D779D5918D08BC8858F4DCEF97C2A24855E6EEB22B3B2E5",
    );
    lemma_hex_bytes_first(P_HEX@);
    lemma_hex_bytes_first(Q_HEX@);
    lemma_leading_byte_bounds(hex_bytes(P_HEX@));
    lemma_leading_byte_bounds(hex_bytes(Q_HEX@));
}

} // verus!
