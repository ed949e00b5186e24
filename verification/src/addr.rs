//! Textual multiaddress fragments the session core works with.
//!
//! Addresses travel through the core as their textual form taken as bytes.
//! The fragments here are fixed ASCII strings: the wildcard host a kernel
//! reports for a bind to every interface, the marker of a relayed circuit
//! path, and the segments used to synthesize a circuit route to a peer
//! through the configured relay.

use vstd::prelude::*;
use vstd::utf8::encode_utf8;

verus! {

/// The bytes of `0.0.0.0`, the wildcard host of a bind to every interface.
pub open spec fn wildcard_pat() -> Seq<u8> {
    seq![48u8, 46u8, 48u8, 46u8, 48u8, 46u8, 48u8]
}

/// The bytes of `p2p-circuit`, the marker of a relayed circuit path.
pub open spec fn circuit_pat() -> Seq<u8> {
    seq![112u8, 50u8, 112u8, 45u8, 99u8, 105u8, 114u8, 99u8, 117u8, 105u8, 116u8]
}

/// The bytes of `/p2p-circuit`, the segment that turns a relay address
/// into a listen address via that relay.
pub open spec fn circuit_segment() -> Seq<u8> {
    seq![47u8] + circuit_pat()
}

/// The bytes of `/p2p/`, the segment that precedes a peer identifier.
pub open spec fn p2p_segment() -> Seq<u8> {
    seq![47u8, 112u8, 50u8, 112u8, 47u8]
}

/// The synthesized route to `peer` through the relay at `relay`:
/// `<relay>/p2p-circuit/p2p/<peer>`.
pub open spec fn circuit_route(relay: Seq<u8>, peer: Seq<char>) -> Seq<u8> {
    relay + circuit_segment() + p2p_segment() + encode_utf8(peer)
}

/// The wildcard host as bytes: `0.0.0.0`.
pub fn wildcard_pattern() -> (r: Vec<u8>)
    ensures
        r@ == wildcard_pat(),
{
    let mut v: Vec<u8> = Vec::new();
    v.push(48u8);
    v.push(46u8);
    v.push(48u8);
    v.push(46u8);
    v.push(48u8);
    v.push(46u8);
    v.push(48u8);
    proof {
        assert(v@ =~= wildcard_pat());
    }
    v
}

/// The circuit marker as bytes: `p2p-circuit`.
pub fn circuit_pattern() -> (r: Vec<u8>)
    ensures
        r@ == circuit_pat(),
{
    let mut v: Vec<u8> = Vec::new();
    v.push(112u8);
    v.push(50u8);
    v.push(112u8);
    v.push(45u8);
    v.push(99u8);
    v.push(105u8);
    v.push(114u8);
    v.push(99u8);
    v.push(117u8);
    v.push(105u8);
    v.push(116u8);
    proof {
        assert(v@ =~= circuit_pat());
    }
    v
}

/// The listen address via the relay at `relay`: `<relay>/p2p-circuit`.
pub fn relay_listen_addr(relay: &Vec<u8>) -> (r: Vec<u8>)
    ensures
        r@ == relay@ + circuit_segment(),
{
    let mut v = crate::bytestr::copy_range(relay, 0, relay.len());
    v.push(47u8);
    let mut marker = circuit_pattern();
    v.append(&mut marker);
    proof {
        assert(relay@.subrange(0, relay@.len() as int) =~= relay@);
        assert(v@ =~= relay@ + circuit_segment());
    }
    v
}

/// The synthesized route to `peer` through the relay at `relay`.
pub fn circuit_addr(relay: &Vec<u8>, peer: &str) -> (r: Vec<u8>)
    ensures
        r@ == circuit_route(relay@, peer@),
{
    let mut v = relay_listen_addr(relay);
    v.push(47u8);
    v.push(112u8);
    v.push(50u8);
    v.push(112u8);
    v.push(47u8);
    v.extend_from_slice(peer.as_bytes());
    proof {
        assert(v@ =~= circuit_route(relay@, peer@));
    }
    v
}

} // verus!
