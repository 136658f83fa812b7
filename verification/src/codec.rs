use vstd::prelude::*;

use crate::errors::BridgeError;
use crate::identity::Identity;

verus! {

// Inbound envelope format, fixed by this core:
//   bytes 0..32    recipient identity, four 64-bit words, big-endian
//   bytes 32..34   name length `nl`, big-endian
//   then           `nl` name bytes,
//                  2 symbol-length bytes, the symbol bytes,
//                  2 uri-length bytes, the uri bytes,
//   with no bytes left over.
//
// Outbound payloads carry the locked asset key (8 bytes, big-endian) followed
// by the 32 bytes of the original holder's identity.

/// Decoded contents of an inbound payload, at the specification level.
pub struct PayloadView {
    pub recipient: Identity,
    pub name: Seq<u8>,
    pub symbol: Seq<u8>,
    pub uri: Seq<u8>,
}

/// Big-endian 16-bit value at offset `i`.
pub open spec fn be16(s: Seq<u8>, i: int) -> int
    recommends
        0 <= i,
        i + 2 <= s.len(),
{
    (s[i] as int) * 256 + (s[i + 1] as int)
}

/// Big-endian 64-bit value at offset `i`.
pub open spec fn be64(s: Seq<u8>, i: int) -> u64
    recommends
        0 <= i,
        i + 8 <= s.len(),
{
    ((s[i] as u64) << 56) | ((s[i + 1] as u64) << 48) | ((s[i + 2] as u64) << 40)
        | ((s[i + 3] as u64) << 32) | ((s[i + 4] as u64) << 24) | ((s[i + 5] as u64) << 16)
        | ((s[i + 6] as u64) << 8) | (s[i + 7] as u64)
}

/// The recipient identity held in the first 32 payload bytes.
pub open spec fn recipient_of(s: Seq<u8>) -> Identity
    recommends
        s.len() >= 32,
{
    Identity { w0: be64(s, 0), w1: be64(s, 8), w2: be64(s, 16), w3: be64(s, 24) }
}

/// What an inbound payload decodes to: `None` exactly on malformed input.
pub open spec fn decode_spec(p: Seq<u8>) -> Option<PayloadView> {
    if p.len() < 34 {
        None
    } else {
        let nl = be16(p, 32);
        if p.len() < 36 + nl {
            None
        } else {
            let sl = be16(p, 34 + nl);
            if p.len() < 38 + nl + sl {
                None
            } else {
                let ul = be16(p, 36 + nl + sl);
                if p.len() != 38 + nl + sl + ul {
                    None
                } else {
                    Some(PayloadView {
                        recipient: recipient_of(p),
                        name: p.subrange(34, 34 + nl),
                        symbol: p.subrange(36 + nl, 36 + nl + sl),
                        uri: p.subrange(38 + nl + sl, 38 + nl + sl + ul),
                    })
                }
            }
        }
    }
}

/// Decoded contents of an inbound payload, as executable values.
#[derive(Debug)]
pub struct DecodedPayload {
    pub recipient: Identity,
    pub name: Vec<u8>,
    pub symbol: Vec<u8>,
    pub uri: Vec<u8>,
}

impl View for DecodedPayload {
    type V = PayloadView;

    open spec fn view(&self) -> PayloadView {
        PayloadView {
            recipient: self.recipient,
            name: self.name@,
            symbol: self.symbol@,
            uri: self.uri@,
        }
    }
}

/// Copy of the bytes `p[start..end]`.
pub fn bytes_range(p: &Vec<u8>, start: usize, end: usize) -> (r: Vec<u8>)
    requires
        start <= end <= p@.len(),
    ensures
        r@ == p@.subrange(start as int, end as int),
{
    let mut out: Vec<u8> = Vec::new();
    let mut i: usize = start;
    while i < end
        invariant
            start <= i <= end <= p@.len(),
            out@ == p@.subrange(start as int, i as int),
        decreases end - i,
    {
        out.push(p[i]);
        proof {
            assert(p@.subrange(start as int, i + 1 as int) =~= p@.subrange(
                start as int,
                i as int,
            ).push(p@[i as int]));
        }
        i += 1;
    }
    out
}

/// Copy of all bytes of `p`.
pub fn clone_bytes(p: &Vec<u8>) -> (r: Vec<u8>)
    ensures
        r@ == p@,
{
    let r = bytes_range(p, 0, p.len());
    proof {
        assert(p@.subrange(0, p@.len() as int) =~= p@);
    }
    r
}

fn be16_at(p: &Vec<u8>, i: usize) -> (r: usize)
    requires
        i + 2 <= p@.len() <= usize::MAX,
    ensures
        r == be16(p@, i as int),
        r <= 0xffff,
{
    (p[i] as usize) * 256 + (p[i + 1] as usize)
}

fn be64_at(p: &Vec<u8>, i: usize) -> (r: u64)
    requires
        i + 8 <= p@.len() <= usize::MAX,
    ensures
        r == be64(p@, i as int),
{
    ((p[i] as u64) << 56u64) | ((p[i + 1] as u64) << 48u64) | ((p[i + 2] as u64) << 40u64)
        | ((p[i + 3] as u64) << 32u64) | ((p[i + 4] as u64) << 24u64)
        | ((p[i + 5] as u64) << 16u64) | ((p[i + 6] as u64) << 8u64) | (p[i + 7] as u64)
}

/// The eight big-endian bytes of a 64-bit value.
pub open spec fn be64_bytes(x: u64) -> Seq<u8> {
    seq![
        ((x >> 56) & 0xff) as u8,
        ((x >> 48) & 0xff) as u8,
        ((x >> 40) & 0xff) as u8,
        ((x >> 32) & 0xff) as u8,
        ((x >> 24) & 0xff) as u8,
        ((x >> 16) & 0xff) as u8,
        ((x >> 8) & 0xff) as u8,
        (x & 0xff) as u8,
    ]
}

/// The outbound payload describing a locked asset-instance: its asset key,
/// then the identity that held it before the lock.
pub open spec fn outbound_payload(asset: u64, holder: Identity) -> Seq<u8> {
    be64_bytes(asset) + be64_bytes(holder.w0) + be64_bytes(holder.w1) + be64_bytes(holder.w2)
        + be64_bytes(holder.w3)
}

fn push_be64(out: &mut Vec<u8>, x: u64)
    ensures
        final(out)@ == old(out)@ + be64_bytes(x),
{
    out.push(((x >> 56u64) & 0xff) as u8);
    out.push(((x >> 48u64) & 0xff) as u8);
    out.push(((x >> 40u64) & 0xff) as u8);
    out.push(((x >> 32u64) & 0xff) as u8);
    out.push(((x >> 24u64) & 0xff) as u8);
    out.push(((x >> 16u64) & 0xff) as u8);
    out.push(((x >> 8u64) & 0xff) as u8);
    out.push((x & 0xff) as u8);
    proof {
        assert(out@ =~= old(out)@ + be64_bytes(x));
    }
}

/// Build the outbound payload for a locked asset-instance.
pub fn encode_outbound(asset: u64, holder: Identity) -> (r: Vec<u8>)
    ensures
        r@ == outbound_payload(asset, holder),
{
    let mut out: Vec<u8> = Vec::new();
    push_be64(&mut out, asset);
    push_be64(&mut out, holder.w0);
    push_be64(&mut out, holder.w1);
    push_be64(&mut out, holder.w2);
    push_be64(&mut out, holder.w3);
    proof {
        assert(out@ =~= outbound_payload(asset, holder));
    }
    out
}

fn push_be16(out: &mut Vec<u8>, l: usize)
    requires
        l <= 0xffff,
    ensures
        final(out)@ == old(out)@ + seq![(l / 256) as u8, (l % 256) as u8],
{
    out.push((l / 256) as u8);
    out.push((l % 256) as u8);
    proof {
        assert(out@ =~= old(out)@ + seq![(l / 256) as u8, (l % 256) as u8]);
    }
}

fn push_bytes(out: &mut Vec<u8>, bytes: &Vec<u8>)
    ensures
        final(out)@ == old(out)@ + bytes@,
{
    let mut i: usize = 0;
    while i < bytes.len()
        invariant
            i <= bytes@.len(),
            out@ == old(out)@ + bytes@.subrange(0, i as int),
        decreases bytes@.len() - i,
    {
        out.push(bytes[i]);
        proof {
            assert(old(out)@ + bytes@.subrange(0, i + 1 as int) =~= (old(out)@ + bytes@.subrange(
                0,
                i as int,
            )).push(bytes@[i as int]));
        }
        i += 1;
    }
    proof {
        assert(out@ =~= old(out)@ + bytes@);
    }
}

/// Byte reassembly: the eight big-endian bytes of a 64-bit value decode back
/// to that value.
proof fn lemma_be64_roundtrip(s: Seq<u8>, i: int, x: u64)
    requires
        0 <= i,
        i + 8 <= s.len(),
        s.subrange(i, i + 8) == be64_bytes(x),
    ensures
        be64(s, i) == x,
{
    assert forall|k: int| 0 <= k < 8 implies s[i + k] == be64_bytes(x)[k] by {
        assert(s.subrange(i, i + 8)[k] == s[i + k]);
    }
    assert((x >> 56) & 0xff <= 0xff && (x >> 48) & 0xff <= 0xff && (x >> 40) & 0xff <= 0xff && (x
        >> 32) & 0xff <= 0xff && (x >> 24) & 0xff <= 0xff && (x >> 16) & 0xff <= 0xff && (x >> 8)
        & 0xff <= 0xff && x & 0xff <= 0xff) by (bit_vector);
    assert(x == ((((x >> 56) & 0xff)) << 56) | (((x >> 48) & 0xff) << 48) | (((x >> 40) & 0xff)
        << 40) | (((x >> 32) & 0xff) << 32) | (((x >> 24) & 0xff) << 24) | (((x >> 16) & 0xff)
        << 16) | (((x >> 8) & 0xff) << 8) | (x & 0xff)) by (bit_vector);
}

/// Build an inbound payload; it decodes to exactly the given fields, so the
/// envelope format loses nothing.
pub fn encode_inbound(recipient: Identity, name: &Vec<u8>, symbol: &Vec<u8>, uri: &Vec<u8>) -> (r:
    Vec<u8>)
    requires
        name@.len() <= 0xffff,
        symbol@.len() <= 0xffff,
        uri@.len() <= 0xffff,
    ensures
        decode_spec(r@) == Some(
            PayloadView { recipient, name: name@, symbol: symbol@, uri: uri@ },
        ),
{
    let mut out: Vec<u8> = Vec::new();
    push_be64(&mut out, recipient.w0);
    push_be64(&mut out, recipient.w1);
    push_be64(&mut out, recipient.w2);
    push_be64(&mut out, recipient.w3);
    push_be16(&mut out, name.len());
    push_bytes(&mut out, name);
    push_be16(&mut out, symbol.len());
    push_bytes(&mut out, symbol);
    push_be16(&mut out, uri.len());
    push_bytes(&mut out, uri);
    proof {
        let p = out@;
        let nl = name@.len() as int;
        let sl = symbol@.len() as int;
        let ul = uri@.len() as int;
        assert(p.len() == 38 + nl + sl + ul);
        assert(p.subrange(0, 8) =~= be64_bytes(recipient.w0));
        assert(p.subrange(8, 16) =~= be64_bytes(recipient.w1));
        assert(p.subrange(16, 24) =~= be64_bytes(recipient.w2));
        assert(p.subrange(24, 32) =~= be64_bytes(recipient.w3));
        lemma_be64_roundtrip(p, 0, recipient.w0);
        lemma_be64_roundtrip(p, 8, recipient.w1);
        lemma_be64_roundtrip(p, 16, recipient.w2);
        lemma_be64_roundtrip(p, 24, recipient.w3);
        assert(recipient_of(p) == recipient);
        assert(be16(p, 32) == nl);
        assert(be16(p, 34 + nl) == sl);
        assert(be16(p, 36 + nl + sl) == ul);
        assert(p.subrange(34, 34 + nl) =~= name@);
        assert(p.subrange(36 + nl, 36 + nl + sl) =~= symbol@);
        assert(p.subrange(38 + nl + sl, 38 + nl + sl + ul) =~= uri@);
    }
    out
}

/// Decode an inbound payload; fails exactly on input the envelope format
/// rejects.
pub fn decode_payload(p: &Vec<u8>) -> (r: Result<DecodedPayload, BridgeError>)
    ensures
        match r {
            Ok(d) => decode_spec(p@) == Some(d@),
            Err(e) => e == BridgeError::MalformedPayload && decode_spec(p@) is None,
        },
{
    if p.len() < 34 {
        return Err(BridgeError::MalformedPayload);
    }
    let nl = be16_at(p, 32);
    if p.len() < 36 + nl {
        return Err(BridgeError::MalformedPayload);
    }
    let sl = be16_at(p, 34 + nl);
    if p.len() < 38 + nl + sl {
        return Err(BridgeError::MalformedPayload);
    }
    let ul = be16_at(p, 36 + nl + sl);
    if p.len() != 38 + nl + sl + ul {
        return Err(BridgeError::MalformedPayload);
    }
    let recipient = Identity {
        w0: be64_at(p, 0),
        w1: be64_at(p, 8),
        w2: be64_at(p, 16),
        w3: be64_at(p, 24),
    };
    let d = DecodedPayload {
        recipient,
        name: bytes_range(p, 34, 34 + nl),
        symbol: bytes_range(p, 36 + nl, 36 + nl + sl),
        uri: bytes_range(p, 38 + nl + sl, 38 + nl + sl + ul),
    };
    Ok(d)
}

} // verus!
