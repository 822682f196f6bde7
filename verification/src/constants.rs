use vstd::prelude::*;

verus! {

/// The word that begins the signer seeds of every offer: `offer` in ASCII.
pub open spec fn offer_seed() -> Seq<u8> {
    seq![111u8, 102u8, 102u8, 101u8, 114u8]
}

/// The bytes of [`offer_seed`].
pub fn offer_seed_bytes() -> (seed: Vec<u8>)
    ensures
        seed@ == offer_seed(),
{
    let seed: Vec<u8> = vec![111u8, 102u8, 102u8, 101u8, 114u8];
    assert(seed@ =~= offer_seed());
    seed
}

} // verus!
