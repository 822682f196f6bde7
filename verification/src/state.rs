use vstd::bytes::{
    lemma_auto_spec_u64_to_from_le_bytes, spec_u64_from_le_bytes, spec_u64_to_le_bytes, u64_from_le_bytes,
    u64_to_le_bytes,
};
use vstd::prelude::*;
use vstd::slice::slice_subrange;

verus! {

/// A 256-bit identity of a party or of an asset type, held as four 64-bit
/// words so that equality is structural. Word `w0` holds the first eight
/// bytes, little-endian.
#[derive(Clone, Copy, Debug, PartialEq, Eq, Structural, Hash)]
pub struct Identity {
    pub w0: u64,
    pub w1: u64,
    pub w2: u64,
    pub w3: u64,
}

/// The address of an offer: whoever made it and the number they chose.
#[derive(Clone, Copy, Debug, PartialEq, Eq, Structural, Hash)]
pub struct OfferKey {
    /// Who made the offer.
    pub maker: Identity,
    /// The number the maker chose for it.
    pub id: u64,
}

/// Whoever may move funds out of a token account.
#[derive(Clone, Copy, Debug, PartialEq, Eq, Structural, Hash)]
pub enum Authority {
    /// A party that signs for itself.
    Party(Identity),
    /// An offer record, acting for the vault it owns.
    Offer(OfferKey),
}

/// The address of a token account: there is at most one for each pair of
/// owner and asset type.
#[derive(Clone, Copy, Debug, PartialEq, Eq, Structural, Hash)]
pub struct AccountKey {
    /// Who owns the account and signs for what leaves it.
    pub authority: Authority,
    /// The asset that the account holds.
    pub mint: Identity,
}

/// One outstanding offer: the maker holds `token_mint_a` in the offer's vault
/// and wants `token_b_wanted_amount` of `token_mint_b` for it.
#[derive(Clone, Copy, Debug, PartialEq, Eq, Structural, Hash)]
pub struct Offer {
    /// The number the maker chose; with the maker it addresses the record.
    pub id: u64,
    /// Who made the offer and is paid for it.
    pub maker: Identity,
    /// The asset held in the vault.
    pub token_mint_a: Identity,
    /// The asset the maker wants.
    pub token_mint_b: Identity,
    /// How much of asset B the taker has to pay, exactly.
    pub token_b_wanted_amount: u64,
    /// The salt of the record's address; the escrow keeps it and reads it
    /// only to sign for the vault.
    pub bump: u8,
}

impl Identity {
    /// The 32 bytes of the identity: its four words in turn, each
    /// little-endian.
    pub open spec fn spec_bytes(&self) -> Seq<u8> {
        spec_u64_to_le_bytes(self.w0) + spec_u64_to_le_bytes(self.w1) + spec_u64_to_le_bytes(
            self.w2,
        ) + spec_u64_to_le_bytes(self.w3)
    }

    /// The identity that the 32 bytes of `bytes` spell; any other number of
    /// bytes spells none.
    pub open spec fn spec_from_bytes(bytes: Seq<u8>) -> Option<Identity> {
        if bytes.len() == 32 {
            Some(
                Identity {
                    w0: spec_u64_from_le_bytes(bytes.subrange(0, 8)),
                    w1: spec_u64_from_le_bytes(bytes.subrange(8, 16)),
                    w2: spec_u64_from_le_bytes(bytes.subrange(16, 24)),
                    w3: spec_u64_from_le_bytes(bytes.subrange(24, 32)),
                },
            )
        } else {
            None
        }
    }

    /// The identity as 32 bytes.
    pub fn to_bytes(&self) -> (bytes: Vec<u8>)
        ensures
            bytes@ == self.spec_bytes(),
            bytes@.len() == 32,
    {
        let mut bytes = u64_to_le_bytes(self.w0);
        let mut second = u64_to_le_bytes(self.w1);
        let mut third = u64_to_le_bytes(self.w2);
        let mut fourth = u64_to_le_bytes(self.w3);
        bytes.append(&mut second);
        bytes.append(&mut third);
        bytes.append(&mut fourth);
        bytes
    }

    /// Reads an identity from 32 bytes; `None` for any other number of bytes.
    pub fn from_bytes(bytes: &[u8]) -> (identity: Option<Identity>)
        ensures
            identity == Identity::spec_from_bytes(bytes@),
    {
        if bytes.len() != 32 {
            return None;
        }
        Some(
            Identity {
                w0: u64_from_le_bytes(slice_subrange(bytes, 0, 8)),
                w1: u64_from_le_bytes(slice_subrange(bytes, 8, 16)),
                w2: u64_from_le_bytes(slice_subrange(bytes, 16, 24)),
                w3: u64_from_le_bytes(slice_subrange(bytes, 24, 32)),
            },
        )
    }

    /// Reads an identity from an array of 32 bytes.
    pub fn from_array(bytes: &[u8; 32]) -> (identity: Identity)
        ensures
            Some(identity) == Identity::spec_from_bytes(bytes@),
    {
        let bytes = bytes.as_slice();
        Identity {
            w0: u64_from_le_bytes(slice_subrange(bytes, 0, 8)),
            w1: u64_from_le_bytes(slice_subrange(bytes, 8, 16)),
            w2: u64_from_le_bytes(slice_subrange(bytes, 16, 24)),
            w3: u64_from_le_bytes(slice_subrange(bytes, 24, 32)),
        }
    }

    /// Bytes and identities stand one for one: reading what was written
    /// gives the identity back, and writing what was read gives the bytes
    /// back.
    pub proof fn bytes_round_trip(identity: Identity, bytes: Seq<u8>)
        ensures
            identity.spec_bytes().len() == 32,
            Identity::spec_from_bytes(identity.spec_bytes()) == Some(identity),
            bytes.len() == 32 ==> Identity::spec_from_bytes(bytes).unwrap().spec_bytes() == bytes,
    {
        lemma_auto_spec_u64_to_from_le_bytes();
        let written = identity.spec_bytes();
        assert(written.subrange(0, 8) =~= spec_u64_to_le_bytes(identity.w0));
        assert(written.subrange(8, 16) =~= spec_u64_to_le_bytes(identity.w1));
        assert(written.subrange(16, 24) =~= spec_u64_to_le_bytes(identity.w2));
        assert(written.subrange(24, 32) =~= spec_u64_to_le_bytes(identity.w3));
        if bytes.len() == 32 {
            let read = Identity::spec_from_bytes(bytes).unwrap();
            assert(bytes.subrange(0, 8).len() == 8);
            assert(bytes.subrange(8, 16).len() == 8);
            assert(bytes.subrange(16, 24).len() == 8);
            assert(bytes.subrange(24, 32).len() == 8);
            assert(read.spec_bytes() =~= bytes.subrange(0, 8) + bytes.subrange(8, 16)
                + bytes.subrange(16, 24) + bytes.subrange(24, 32));
            assert(read.spec_bytes() =~= bytes);
        }
    }
}

impl AccountKey {
    /// The account in which `party` holds asset `mint`.
    pub open spec fn of_party(party: Identity, mint: Identity) -> AccountKey {
        AccountKey { authority: Authority::Party(party), mint }
    }

    /// The vault of the offer at `offer`, holding asset `mint`.
    pub open spec fn of_offer(offer: OfferKey, mint: Identity) -> AccountKey {
        AccountKey { authority: Authority::Offer(offer), mint }
    }

    /// The key of the account in which `party` holds asset `mint`.
    pub fn party(party: Identity, mint: Identity) -> (key: AccountKey)
        ensures
            key == AccountKey::of_party(party, mint),
    {
        AccountKey { authority: Authority::Party(party), mint }
    }

    /// The key of the vault of the offer at `offer`, holding asset `mint`.
    pub fn vault(offer: OfferKey, mint: Identity) -> (key: AccountKey)
        ensures
            key == AccountKey::of_offer(offer, mint),
    {
        AccountKey { authority: Authority::Offer(offer), mint }
    }
}

impl Offer {
    /// The address under which this record is kept.
    pub open spec fn spec_key(&self) -> OfferKey {
        OfferKey { maker: self.maker, id: self.id }
    }

    /// The address under which this record is kept.
    #[verifier::when_used_as_spec(spec_key)]
    pub fn key(&self) -> (key: OfferKey)
        ensures
            key == self.spec_key(),
    {
        OfferKey { maker: self.maker, id: self.id }
    }
}

} // verus!
