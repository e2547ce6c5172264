//! Transactions as the consensus engine and the mempool see them.

use crate::digest::{hex_encode, hex_lower, sha256, sha256_digest};
use crate::text::{debug_str, debug_text, decimal, u64_to_decimal};
use vstd::prelude::*;
use vstd::string::StringSliceAdditionalSpecFns;
use vstd::utf8::encode_utf8;

verus! {

/// A payment from one address to another, with its signature.
#[derive(Debug)]
pub struct Transaction {
    pub from: String,
    pub to: String,
    pub amount: u64,
    pub sig: String,
}

/// The little-endian bytes of `x`, `n` of them.
pub open spec fn le_bytes(x: nat, n: nat) -> Seq<u8>
    decreases n,
{
    if n == 0 {
        Seq::empty()
    } else {
        seq![(x % 256) as u8] + le_bytes(x / 256, (n - 1) as nat)
    }
}

/// The bincode encoding of a string: its byte length as 8 little-endian
/// bytes, then its UTF-8 bytes.
pub open spec fn framed_text(s: Seq<char>) -> Seq<u8> {
    le_bytes(encode_utf8(s).len(), 8) + encode_utf8(s)
}

/// The bincode encoding of a transaction: its fields in order.
pub open spec fn transaction_bytes(t: Transaction) -> Seq<u8> {
    framed_text(t.from@) + framed_text(t.to@) + le_bytes(t.amount as nat, 8) + framed_text(t.sig@)
}

/// The id of a transaction: the lower-case hex of the SHA-256 of its bytes.
pub open spec fn transaction_id(t: Transaction) -> Seq<char> {
    hex_lower(sha256(transaction_bytes(t)))
}

/// What `{:?}` prints for a transaction.
pub open spec fn transaction_debug(t: Transaction) -> Seq<char> {
    "Transaction { from: "@ + debug_text(t.from@) + ", to: "@ + debug_text(t.to@) + ", amount: "@
        + decimal(t.amount as nat) + ", sig: "@ + debug_text(t.sig@) + " }"@
}

/// Appends the `n` little-endian bytes of `x`.
pub fn push_le_bytes(out: &mut Vec<u8>, x: u64, n: usize)
    requires
        n <= 8,
    ensures
        final(out)@ == old(out)@ + le_bytes(x as nat, n as nat),
    decreases n,
{
    if n > 0 {
        out.push((x % 256) as u8);
        let ghost mid = out@;
        push_le_bytes(out, x / 256, n - 1);
        assert(old(out)@ + le_bytes(x as nat, n as nat) =~= mid + le_bytes((x / 256) as nat, (n - 1) as nat));
    }
}

pub(crate) fn push_framed_text(out: &mut Vec<u8>, s: &str)
    ensures
        final(out)@ == old(out)@ + framed_text(s@),
{
    let bytes = s.as_bytes();
    push_le_bytes(out, bytes.len() as u64, 8);
    let ghost mid = out@;
    let mut i: usize = 0;
    while i < bytes.len()
        invariant
            0 <= i <= bytes@.len(),
            out@ == mid + bytes@.take(i as int),
        decreases bytes@.len() - i,
    {
        out.push(bytes[i]);
        assert(out@ =~= mid + bytes@.take(i + 1));
        i = i + 1;
    }
    assert(bytes@.take(bytes@.len() as int) =~= bytes@);
    assert(out@ =~= old(out)@ + framed_text(s@));
}

impl Transaction {
    /// Makes a transaction.
    pub fn new(from: String, to: String, amount: u64, sig: String) -> (t: Transaction)
        ensures
            t.from == from,
            t.to == to,
            t.amount == amount,
            t.sig == sig,
    {
        Transaction { from, to, amount, sig }
    }

    /// The bincode encoding of the transaction.
    pub fn to_bytes(&self) -> (b: Vec<u8>)
        ensures
            b@ == transaction_bytes(*self),
    {
        let mut out: Vec<u8> = Vec::new();
        push_framed_text(&mut out, self.from.as_str());
        push_framed_text(&mut out, self.to.as_str());
        push_le_bytes(&mut out, self.amount, 8);
        push_framed_text(&mut out, self.sig.as_str());
        assert(out@ =~= transaction_bytes(*self));
        out
    }

    /// The id the mempool files the transaction under.
    pub fn tx_id(&self) -> (id: String)
        ensures
            id@ == transaction_id(*self),
    {
        let bytes = self.to_bytes();
        let digest = sha256_digest(bytes.as_slice());
        hex_encode(digest.as_slice())
    }

    /// The `{:?}` text of the transaction.
    pub fn debug_text(&self) -> (s: String)
        ensures
            s@ == transaction_debug(*self),
    {
        let mut s = crate::text::owned("Transaction { from: ");
        s.append(debug_str(self.from.as_str()).as_str());
        s.append(", to: ");
        s.append(debug_str(self.to.as_str()).as_str());
        s.append(", amount: ");
        s.append(u64_to_decimal(self.amount).as_str());
        s.append(", sig: ");
        s.append(debug_str(self.sig.as_str()).as_str());
        s.append(" }");
        s
    }
}

impl Clone for Transaction {
    fn clone(&self) -> (r: Self)
        ensures
            r == *self,
    {
        Transaction {
            from: self.from.clone(),
            to: self.to.clone(),
            amount: self.amount,
            sig: self.sig.clone(),
        }
    }
}

} // verus!
