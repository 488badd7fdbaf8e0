//! Canonical pool identity.
//!
//! The two asset identities of a pair are sorted byte-wise, larger first,
//! and rendered into one deterministic seed string; the pool's storage
//! address and its signing authority both derive from that seed. Nothing
//! here depends on the order in which a caller names the two assets.

use vstd::prelude::*;

verus! {

use crate::state::AssetId;

/// The fixed namespace under which every pool address is derived.
pub const POOL_SEED_PREFIX: &'static str = "liquidity_pool";

/// Lexicographic (byte-wise) strict order on byte strings.
pub open spec fn lex_lt(a: Seq<u8>, b: Seq<u8>) -> bool
    decreases a.len(),
{
    if a.len() == 0 {
        b.len() > 0
    } else if b.len() == 0 {
        false
    } else if a[0] < b[0] {
        true
    } else if a[0] == b[0] {
        lex_lt(a.drop_first(), b.drop_first())
    } else {
        false
    }
}

/// The lexicographic order is irreflexive.
pub proof fn lemma_lex_irrefl(a: Seq<u8>)
    ensures
        !lex_lt(a, a),
    decreases a.len(),
{
    if a.len() > 0 {
        lemma_lex_irrefl(a.drop_first());
    }
}

/// On equal lengths the order is asymmetric, and two strings with neither
/// below the other are equal.
pub proof fn lemma_lex_total(a: Seq<u8>, b: Seq<u8>)
    requires
        a.len() == b.len(),
    ensures
        lex_lt(a, b) ==> !lex_lt(b, a),
        !lex_lt(a, b) && !lex_lt(b, a) ==> a =~= b,
    decreases a.len(),
{
    if a.len() > 0 && a[0] == b[0] {
        lemma_lex_total(a.drop_first(), b.drop_first());
        if !lex_lt(a, b) && !lex_lt(b, a) {
            assert(a.drop_first() =~= b.drop_first());
            assert forall|i: int| 0 <= i < a.len() implies a[i] == b[i] by {
                if i > 0 {
                    assert(a[i] == a.drop_first()[i - 1]);
                    assert(b[i] == b.drop_first()[i - 1]);
                }
            }
        }
    }
}

/// The first differing byte decides the order.
pub proof fn lemma_lex_from_index(a: Seq<u8>, b: Seq<u8>, i: int)
    requires
        a.len() == b.len(),
        0 <= i < a.len(),
        forall|j: int| 0 <= j < i ==> a[j] == b[j],
        a[i] < b[i],
    ensures
        lex_lt(a, b),
    decreases i,
{
    if i > 0 {
        assert(a[0] == b[0]);
        assert forall|j: int| 0 <= j < i - 1 implies a.drop_first()[j] == b.drop_first()[j] by {
            assert(a.drop_first()[j] == a[j + 1]);
            assert(b.drop_first()[j] == b[j + 1]);
        }
        assert(a.drop_first()[i - 1] == a[i]);
        assert(b.drop_first()[i - 1] == b[i]);
        lemma_lex_from_index(a.drop_first(), b.drop_first(), i - 1);
    }
}

/// Byte-wise strict comparison of two asset identities.
pub fn asset_id_lt(a: &AssetId, b: &AssetId) -> (r: bool)
    ensures
        r == lex_lt(a.bytes@, b.bytes@),
{
    let mut i: usize = 0;
    while i < 32
        invariant
            i <= 32,
            forall|j: int| 0 <= j < i ==> a.bytes[j] == b.bytes[j],
        decreases 32 - i,
    {
        if a.bytes[i] < b.bytes[i] {
            proof {
                lemma_lex_from_index(a.bytes@, b.bytes@, i as int);
            }
            return true;
        }
        if a.bytes[i] > b.bytes[i] {
            proof {
                lemma_lex_from_index(b.bytes@, a.bytes@, i as int);
                lemma_lex_total(b.bytes@, a.bytes@);
            }
            return false;
        }
        i = i + 1;
    }
    proof {
        assert(a.bytes@ =~= b.bytes@);
        lemma_lex_irrefl(a.bytes@);
    }
    false
}

/// What the host renders as the base58 form of a 32-byte key. The digit
/// string depends on the bytes alone; its exact value is not stated here.
pub uninterp spec fn base58_of(bytes: Seq<u8>) -> Seq<char>;

/// What the host's program-derived-address search returns for a namespace,
/// the 64-byte pair seed and a deriving program: an address with its bump
/// nonce, or nothing in the statistically negligible case that no nonce
/// works. The result depends on these three inputs alone.
pub uninterp spec fn pda_of(namespace: Seq<char>, pair_seed: Seq<u8>, program_id: Seq<u8>) -> Option<
    (Seq<u8>, u8),
>;

/// The plain view of a derived address result.
pub open spec fn pda_view(r: Option<(AssetId, u8)>) -> Option<(Seq<u8>, u8)> {
    match r {
        Some((address, bump)) => Some((address.bytes@, bump)),
        None => None,
    }
}

/// Relies on the base58 `Display` of `anchor_lang::prelude::Pubkey`
/// (`solana_address::Address::fmt`), which writes the base58 digits of the
/// 32 key bytes and nothing else, a pure function of the bytes; `format!`
/// concatenates the two renderings.
#[verifier::external_body]
pub(crate) fn concat_base58(hi: &AssetId, lo: &AssetId) -> (r: String)
    ensures
        r@ == base58_of(hi.bytes@) + base58_of(lo.bytes@),
{
    format!(
        "{}{}",
        anchor_lang::prelude::Pubkey::new_from_array(hi.bytes),
        anchor_lang::prelude::Pubkey::new_from_array(lo.bytes),
    )
}

/// Relies on `Pubkey::try_find_program_address`
/// (`solana_address::Address::try_find_program_address`): it walks bump
/// nonces from 255 downward and returns the first valid program-derived
/// address with that nonce, or `None` when no nonce yields one — a
/// deterministic function of the seed bytes and the program id. The two
/// identities are passed as one 32-byte seed each, so their concatenation
/// determines the seed list.
#[verifier::external_body]
fn find_pool_address(namespace: &str, hi: &AssetId, lo: &AssetId, program_id: &AssetId) -> (r:
    Option<(AssetId, u8)>)
    ensures
        pda_view(r) == pda_of(namespace@, hi.bytes@ + lo.bytes@, program_id.bytes@),
{
    let program = anchor_lang::prelude::Pubkey::new_from_array(program_id.bytes);
    match anchor_lang::prelude::Pubkey::try_find_program_address(
        &[namespace.as_bytes(), &hi.bytes, &lo.bytes],
        &program,
    ) {
        Some((address, bump)) => Some((AssetId { bytes: address.to_bytes() }, bump)),
        None => None,
    }
}

/// The canonical pair seed: base58 of the byte-wise larger identity
/// followed by base58 of the smaller.
pub open spec fn seed_spec(a: AssetId, b: AssetId) -> Seq<char> {
    if lex_lt(b.bytes@, a.bytes@) {
        base58_of(a.bytes@) + base58_of(b.bytes@)
    } else {
        base58_of(b.bytes@) + base58_of(a.bytes@)
    }
}

/// Law: the pair seed does not depend on the order in which the two
/// assets are named.
pub proof fn lemma_seed_order_independent(a: AssetId, b: AssetId)
    ensures
        seed_spec(a, b) == seed_spec(b, a),
{
    lemma_lex_total(a.bytes@, b.bytes@);
    lemma_lex_total(b.bytes@, a.bytes@);
    if !lex_lt(b.bytes@, a.bytes@) && !lex_lt(a.bytes@, b.bytes@) {
        assert(a.bytes@ =~= b.bytes@);
    }
}

/// The 64-byte pair seed from which the pool's address is derived: the
/// byte-wise larger identity concatenated with the smaller.
pub open spec fn pair_seed_bytes(a: AssetId, b: AssetId) -> Seq<u8> {
    if lex_lt(b.bytes@, a.bytes@) {
        a.bytes@ + b.bytes@
    } else {
        b.bytes@ + a.bytes@
    }
}

/// Law: the pair seed bytes do not depend on the order in which the two
/// assets are named.
pub proof fn lemma_pair_seed_bytes_order_independent(a: AssetId, b: AssetId)
    ensures
        pair_seed_bytes(a, b) == pair_seed_bytes(b, a),
{
    lemma_lex_total(a.bytes@, b.bytes@);
    lemma_lex_total(b.bytes@, a.bytes@);
    if !lex_lt(b.bytes@, a.bytes@) && !lex_lt(a.bytes@, b.bytes@) {
        assert(a.bytes@ =~= b.bytes@);
    }
}

/// Law: the derived pool address does not depend on the order in which
/// the two assets are named.
pub proof fn lemma_pool_address_order_independent(
    namespace: Seq<char>,
    a: AssetId,
    b: AssetId,
    program_id: Seq<u8>,
)
    ensures
        pda_of(namespace, pair_seed_bytes(a, b), program_id) == pda_of(
            namespace,
            pair_seed_bytes(b, a),
            program_id,
        ),
{
    lemma_pair_seed_bytes_order_independent(a, b);
}

/// The pool's derived address and bump nonce for a pair, under the given
/// deriving program.
pub fn derive_pool_address(program_id: &AssetId, token_one: AssetId, token_two: AssetId) -> (r:
    Option<(AssetId, u8)>)
    ensures
        pda_view(r) == pda_of(
            POOL_SEED_PREFIX@,
            pair_seed_bytes(token_one, token_two),
            program_id.bytes@,
        ),
{
    if asset_id_lt(&token_two, &token_one) {
        find_pool_address(POOL_SEED_PREFIX, &token_one, &token_two, program_id)
    } else {
        find_pool_address(POOL_SEED_PREFIX, &token_two, &token_one, program_id)
    }
}

} // verus!
