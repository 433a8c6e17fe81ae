//! Idempotency keys of emitted events.
//!
//! Every event carries a 32-byte key from which off-chain consumers detect
//! replays: the SHA-256 digest of a preimage that encodes the event domain,
//! the shipment, the event counter and the event type.  The preimage layout
//! is fixed-width up to the event type, so distinct inputs never share a
//! preimage.

use vstd::prelude::*;
use vstd::bytes::{spec_u32_to_le_bytes, spec_u64_to_le_bytes, u32_to_le_bytes, u64_to_le_bytes, lemma_auto_spec_u32_to_from_le_bytes, lemma_auto_spec_u64_to_from_le_bytes, spec_u32_from_le_bytes, spec_u64_from_le_bytes};
use vstd::string::StringSliceAdditionalSpecFns;

verus! {

/// `soroban_sdk::Env`, the contract environment through which host functions
/// are reached; it is carried through opaquely, nothing is claimed of it.
#[verifier::external_type_specification]
#[verifier::external_body]
pub struct ExEnv(soroban_sdk::Env);

/// The SHA-256 digest of `data`, as the contract host computes it.
pub uninterp spec fn sha256_digest(data: Seq<u8>) -> Seq<u8>;

/// The most bytes hashed in one call.  The host charges a hash by the byte
/// against the invocation's budget; this many bytes cost a small fraction of
/// it.
pub const MAX_HASHED_BYTES: usize = 1024;

/// The longest event type an idempotency key is made for: what fits in
/// `MAX_HASHED_BYTES` after the 13 fixed-width bytes of the preimage.
pub const MAX_EVENT_TYPE_BYTES: usize = 1011;

/// Calls the host's SHA-256 (`soroban_sdk::crypto::Crypto::sha256`, reached
/// through `Env::crypto`, after `Bytes::from_slice` copies `data` into the
/// host) on `data`.  Claimed: the 32 bytes returned are the digest of
/// `data`, which depends on `data` alone.  `data` is bounded so that one call
/// stays well inside the budget of an invocation.  Not stated, because
/// nothing here can know it: how much of the environment's budget earlier
/// calls spent.  The host meters every call against that budget and aborts
/// the whole invocation once it is spent, as it does for every host function.
#[verifier::external_body]
fn sha256(env: &soroban_sdk::Env, data: &Vec<u8>) -> (digest: [u8; 32])
    requires
        data@.len() <= MAX_HASHED_BYTES,
    ensures
        digest@ == sha256_digest(data@),
{
    let bytes = soroban_sdk::Bytes::from_slice(env, data.as_slice());
    env.crypto().sha256(&bytes).to_array()
}

/// The bytes hashed into an idempotency key: the domain byte, the shipment id
/// (8 bytes, little-endian), the event counter (4 bytes, little-endian) and
/// the UTF-8 bytes of the event type.
pub open spec fn idempotency_preimage(domain: u8, shipment_id: u64, event_type: Seq<u8>, event_counter: u32) -> Seq<u8> {
    seq![domain] + spec_u64_to_le_bytes(shipment_id) + spec_u32_to_le_bytes(event_counter) + event_type
}

/// The idempotency key of an event.
pub open spec fn spec_idempotency_key(domain: u8, shipment_id: u64, event_type: Seq<u8>, event_counter: u32) -> Seq<u8> {
    sha256_digest(idempotency_preimage(domain, shipment_id, event_type, event_counter))
}

fn append_bytes(out: &mut Vec<u8>, bytes: &[u8])
    ensures
        final(out)@ == old(out)@ + bytes@,
{
    let mut i: usize = 0;
    while i < bytes.len()
        invariant
            i <= bytes@.len(),
            out@ == old(out)@ + bytes@.subrange(0, i as int),
        decreases bytes@.len() - i,
    {
        out.push(bytes[i]);
        i = i + 1;
        proof {
            assert(bytes@.subrange(0, i as int) =~= bytes@.subrange(0, i - 1).push(bytes@[i - 1]));
        }
    }
    proof {
        assert(bytes@.subrange(0, bytes@.len() as int) =~= bytes@);
    }
}

/// Builds the preimage of an idempotency key.
pub fn idempotency_preimage_bytes(domain: u8, shipment_id: u64, event_type: &str, event_counter: u32) -> (preimage: Vec<u8>)
    ensures
        preimage@ == idempotency_preimage(domain, shipment_id, event_type.spec_bytes(), event_counter),
{
    let mut preimage: Vec<u8> = Vec::new();
    preimage.push(domain);
    let mut id_bytes = u64_to_le_bytes(shipment_id);
    preimage.append(&mut id_bytes);
    let mut counter_bytes = u32_to_le_bytes(event_counter);
    preimage.append(&mut counter_bytes);
    append_bytes(&mut preimage, event_type.as_bytes());
    proof {
        assert(seq![domain] =~= Seq::<u8>::empty().push(domain));
    }
    preimage
}

/// The idempotency key of the event of type `event_type` numbered
/// `event_counter`, about shipment `shipment_id`, in the event family `domain`.
/// The digest is computed by the host, which aborts the invocation once the
/// environment's budget is spent.
pub fn generate_idempotency_key(env: &soroban_sdk::Env, domain: u8, shipment_id: u64, event_type: &str, event_counter: u32) -> (key: [u8; 32])
    requires
        event_type.spec_bytes().len() <= MAX_EVENT_TYPE_BYTES,
    ensures
        key@ == spec_idempotency_key(domain, shipment_id, event_type.spec_bytes(), event_counter),
{
    let preimage = idempotency_preimage_bytes(domain, shipment_id, event_type, event_counter);
    proof {
        lemma_auto_spec_u64_to_from_le_bytes();
        lemma_auto_spec_u32_to_from_le_bytes();
    }
    sha256(env, &preimage)
}

/// Domain separation: two events share an idempotency preimage only when they
/// agree on domain, shipment, counter and event type.  So distinct events
/// hash distinct bytes, and their keys differ unless SHA-256 collides.
pub proof fn lemma_idempotency_preimage_injective(
    domain_a: u8,
    id_a: u64,
    type_a: Seq<u8>,
    counter_a: u32,
    domain_b: u8,
    id_b: u64,
    type_b: Seq<u8>,
    counter_b: u32,
)
    requires
        idempotency_preimage(domain_a, id_a, type_a, counter_a) == idempotency_preimage(
            domain_b,
            id_b,
            type_b,
            counter_b,
        ),
    ensures
        domain_a == domain_b,
        id_a == id_b,
        counter_a == counter_b,
        type_a == type_b,
{
    lemma_auto_spec_u64_to_from_le_bytes();
    lemma_auto_spec_u32_to_from_le_bytes();
    let pa = idempotency_preimage(domain_a, id_a, type_a, counter_a);
    let pb = idempotency_preimage(domain_b, id_b, type_b, counter_b);
    let ia = spec_u64_to_le_bytes(id_a);
    let ib = spec_u64_to_le_bytes(id_b);
    let ca = spec_u32_to_le_bytes(counter_a);
    let cb = spec_u32_to_le_bytes(counter_b);
    assert(pa[0] == domain_a);
    assert(pb[0] == domain_b);
    assert(pa.subrange(1, 9) =~= ia);
    assert(pb.subrange(1, 9) =~= ib);
    assert(spec_u64_from_le_bytes(ia) == id_a);
    assert(spec_u64_from_le_bytes(ib) == id_b);
    assert(pa.subrange(9, 13) =~= ca);
    assert(pb.subrange(9, 13) =~= cb);
    assert(spec_u32_from_le_bytes(ca) == counter_a);
    assert(spec_u32_from_le_bytes(cb) == counter_b);
    assert(pa.subrange(13, pa.len() as int) =~= type_a);
    assert(pb.subrange(13, pb.len() as int) =~= type_b);
}


} // verus!
