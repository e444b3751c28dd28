//! The instruction payload and the price record, both in little-endian bytes.

use crate::error::SellError;
use vstd::prelude::*;

verus! {

/// A decoded instruction.
#[derive(Clone, Copy, Debug, PartialEq, Eq, Structural)]
pub enum SellInstruction {
    CreateVault,
    Buy { amount: u64 },
    Withdraw { amount: u64 },
    SetPrice { price: u64 },
}

/// The little-endian 64-bit integer held by `s[off..off + 8]`.
pub open spec fn u64_le_at(s: Seq<u8>, off: int) -> u64 {
    (s[off] as u64) | ((s[off + 1] as u64) << 8u64) | ((s[off + 2] as u64) << 16u64) | ((
    s[off + 3] as u64) << 24u64) | ((s[off + 4] as u64) << 32u64) | ((s[off + 5] as u64)
        << 40u64) | ((s[off + 6] as u64) << 48u64) | ((s[off + 7] as u64) << 56u64)
}

/// The eight little-endian bytes of `v`.
pub open spec fn u64_le_bytes(v: u64) -> Seq<u8> {
    seq![
        (v & 0xff) as u8,
        ((v >> 8u64) & 0xff) as u8,
        ((v >> 16u64) & 0xff) as u8,
        ((v >> 24u64) & 0xff) as u8,
        ((v >> 32u64) & 0xff) as u8,
        ((v >> 40u64) & 0xff) as u8,
        ((v >> 48u64) & 0xff) as u8,
        ((v >> 56u64) & 0xff) as u8,
    ]
}

/// The instruction a payload carries: a tag byte, then for tags 1 to 3 a
/// little-endian `u64`. Bytes after those are not read.
pub open spec fn decode_spec(d: Seq<u8>) -> Option<SellInstruction> {
    if d.len() == 0 {
        None
    } else if d[0] == 0 {
        Some(SellInstruction::CreateVault)
    } else if d[0] <= 3 && d.len() >= 9 {
        let v = u64_le_at(d, 1);
        if d[0] == 1 {
            Some(SellInstruction::Buy { amount: v })
        } else if d[0] == 2 {
            Some(SellInstruction::Withdraw { amount: v })
        } else {
            Some(SellInstruction::SetPrice { price: v })
        }
    } else {
        None
    }
}

/// The payload of an instruction.
pub open spec fn encode_spec(i: SellInstruction) -> Seq<u8> {
    match i {
        SellInstruction::CreateVault => seq![0u8],
        SellInstruction::Buy { amount } => seq![1u8] + u64_le_bytes(amount),
        SellInstruction::Withdraw { amount } => seq![2u8] + u64_le_bytes(amount),
        SellInstruction::SetPrice { price } => seq![3u8] + u64_le_bytes(price),
    }
}

/// The price record: exactly eight bytes, a little-endian `u64`.
pub open spec fn price_record(d: Seq<u8>) -> Option<u64> {
    if d.len() == 8 {
        Some(u64_le_at(d, 0))
    } else {
        None
    }
}

/// Reading back the bytes of an integer gives the integer.
pub proof fn lemma_u64_le_round_trip(v: u64)
    ensures
        u64_le_at(u64_le_bytes(v), 0) == v,
{
    let b = u64_le_bytes(v);
    assert(((v & 0xff) as u8 as u64) | ((((v >> 8u64) & 0xff) as u8 as u64) << 8u64) | ((((v
        >> 16u64) & 0xff) as u8 as u64) << 16u64) | ((((v >> 24u64) & 0xff) as u8 as u64)
        << 24u64) | ((((v >> 32u64) & 0xff) as u8 as u64) << 32u64) | ((((v >> 40u64) & 0xff)
        as u8 as u64) << 40u64) | ((((v >> 48u64) & 0xff) as u8 as u64) << 48u64) | ((((v
        >> 56u64) & 0xff) as u8 as u64) << 56u64) == v) by (bit_vector);
}

/// Reads the little-endian `u64` at `d[off..off + 8]`.
pub fn read_u64_le(d: &[u8], off: usize) -> (r: u64)
    requires
        off + 8 <= d@.len(),
    ensures
        r == u64_le_at(d@, off as int),
{
    (d[off] as u64) | ((d[off + 1] as u64) << 8u64) | ((d[off + 2] as u64) << 16u64) | ((
    d[off + 3] as u64) << 24u64) | ((d[off + 4] as u64) << 32u64) | ((d[off + 5] as u64)
        << 40u64) | ((d[off + 6] as u64) << 48u64) | ((d[off + 7] as u64) << 56u64)
}

/// Appends the eight little-endian bytes of `v` to `out`.
pub fn push_u64_le(out: &mut Vec<u8>, v: u64)
    ensures
        final(out)@ == old(out)@ + u64_le_bytes(v),
{
    out.push((v & 0xff) as u8);
    out.push(((v >> 8u64) & 0xff) as u8);
    out.push(((v >> 16u64) & 0xff) as u8);
    out.push(((v >> 24u64) & 0xff) as u8);
    out.push(((v >> 32u64) & 0xff) as u8);
    out.push(((v >> 40u64) & 0xff) as u8);
    out.push(((v >> 48u64) & 0xff) as u8);
    out.push(((v >> 56u64) & 0xff) as u8);
    assert(final(out)@ =~= old(out)@ + u64_le_bytes(v));
}

/// Decodes an instruction payload.
pub fn decode_instruction(data: &[u8]) -> (r: Result<SellInstruction, SellError>)
    ensures
        match decode_spec(data@) {
            Some(i) => r == Ok::<SellInstruction, SellError>(i),
            None => r == Err::<SellInstruction, SellError>(SellError::MalformedInstruction),
        },
{
    if data.len() == 0 {
        return Err(SellError::MalformedInstruction);
    }
    let tag = data[0];
    if tag == 0 {
        Ok(SellInstruction::CreateVault)
    } else if tag <= 3 && data.len() >= 9 {
        let v = read_u64_le(data, 1);
        if tag == 1 {
            Ok(SellInstruction::Buy { amount: v })
        } else if tag == 2 {
            Ok(SellInstruction::Withdraw { amount: v })
        } else {
            Ok(SellInstruction::SetPrice { price: v })
        }
    } else {
        Err(SellError::MalformedInstruction)
    }
}

impl SellInstruction {
    /// The payload that carries this instruction.
    pub fn encode(&self) -> (r: Vec<u8>)
        ensures
            r@ == encode_spec(*self),
    {
        let mut out: Vec<u8> = Vec::new();
        match *self {
            SellInstruction::CreateVault => {
                out.push(0u8);
            },
            SellInstruction::Buy { amount } => {
                out.push(1u8);
                push_u64_le(&mut out, amount);
            },
            SellInstruction::Withdraw { amount } => {
                out.push(2u8);
                push_u64_le(&mut out, amount);
            },
            SellInstruction::SetPrice { price } => {
                out.push(3u8);
                push_u64_le(&mut out, price);
            },
        }
        assert(out@ =~= encode_spec(*self));
        out
    }
}

/// Decoding the payload of an instruction gives the instruction back.
pub proof fn lemma_decode_encode(i: SellInstruction)
    ensures
        decode_spec(encode_spec(i)) == Some(i),
{
    let e = encode_spec(i);
    match i {
        SellInstruction::CreateVault => {},
        SellInstruction::Buy { amount: v } | SellInstruction::Withdraw { amount: v }
        | SellInstruction::SetPrice { price: v } => {
            lemma_u64_le_round_trip(v);
            assert(e.subrange(1, 9) =~= u64_le_bytes(v));
            assert(u64_le_at(e, 1) == u64_le_at(u64_le_bytes(v), 0));
        },
    }
}

/// Reads the price record held by the price account's data.
pub fn read_price(data: &[u8]) -> (r: Result<u64, SellError>)
    ensures
        match price_record(data@) {
            Some(p) => r == Ok::<u64, SellError>(p),
            None => r == Err::<u64, SellError>(SellError::PriceNotSet),
        },
{
    if data.len() == 8 {
        Ok(read_u64_le(data, 0))
    } else {
        Err(SellError::PriceNotSet)
    }
}

/// The price record for `price`.
pub fn price_bytes(price: u64) -> (r: Vec<u8>)
    ensures
        r@ == u64_le_bytes(price),
        price_record(r@) == Some(price),
{
    let mut out: Vec<u8> = Vec::new();
    push_u64_le(&mut out, price);
    assert(out@ =~= u64_le_bytes(price));
    proof {
        lemma_u64_le_round_trip(price);
    }
    out
}

} // verus!
