//! Wallets: a secret key with its public key and address, and the signed
//! transfers a wallet makes.

use crate::crypto::{
    address_from_hex, address_of_key, lemma_strip_0x_prefixed, pubkey_to_address, recovered_address, sign_message,
    signature_text,
};
use crate::digest::lemma_hex_roundtrip;
use crate::digest::{hex_decodable, hex_decode, hex_decoded, hex_encode, hex_lower};
use crate::secp::{parse_secret_key, public_key_of, random_secret_key, secp_public_key, valid_secret};
use crate::text::{concat, lowercase, owned, strip_0x, strip_0x_prefix, to_lowercase};
use crate::types::Transaction;
use crate::validation::{balance, canonical_text, canonical_transfer_text, transfer_check};
use vstd::prelude::*;
use vstd::string::StringSliceAdditionalSpecFns;
use vstd::utf8::encode_utf8;

verus! {

/// A secret key with the hex of its public key and its address.
pub struct Wallet {
    pub secret_key: Vec<u8>,
    pub public_key_hex: String,
    pub address: String,
}

impl Wallet {
    /// The public key hex and the address are those of the secret key.
    pub open spec fn wf(self) -> bool {
        &&& valid_secret(self.secret_key@)
        &&& self.public_key_hex@ == "0x"@ + hex_lower(secp_public_key(self.secret_key@))
        &&& self.address@ == address_of_key(secp_public_key(self.secret_key@))
        &&& address_from_hex(self.public_key_hex@) == Ok::<Seq<char>, Seq<char>>(self.address@)
    }
}

/// Builds the wallet of a valid secret key.
pub fn wallet_of_secret(secret_key: Vec<u8>) -> (w: Wallet)
    requires
        valid_secret(secret_key@),
    ensures
        w.wf(),
        w.secret_key@ == secret_key@,
{
    let pk = public_key_of(secret_key.as_slice());
    let public_key_hex = concat("0x", hex_encode(pk.as_slice()).as_str());
    let address = pubkey_to_address(pk.as_slice());
    proof {
        lemma_strip_0x_prefixed(hex_lower(pk@));
        lemma_hex_roundtrip(pk@);
    }
    Wallet { secret_key, public_key_hex, address }
}

/// Makes a wallet with a fresh random secret key.
pub fn create_wallet() -> (w: Wallet)
    ensures
        w.wf(),
{
    wallet_of_secret(random_secret_key())
}

/// What `wallet_from_privkey` makes of a hex text: the secret key it
/// stands for, or the reason it is refused.
pub open spec fn secret_from_hex(s: Seq<char>) -> Result<Seq<u8>, Seq<char>> {
    let bytes = encode_utf8(strip_0x(s));
    if !hex_decodable(bytes) {
        Err("bad hex"@)
    } else if hex_decoded(bytes).len() != 32 {
        Err("privkey must be 32 bytes"@)
    } else if !valid_secret(hex_decoded(bytes)) {
        Err("invalid privkey"@)
    } else {
        Ok(hex_decoded(bytes))
    }
}

/// Builds the wallet of a secret key written in hex (with or without
/// `0x`), or says why the text is refused.
pub fn wallet_from_privkey(privkey_hex: &str) -> (r: Result<Wallet, String>)
    ensures
        match r {
            Ok(w) => w.wf() && secret_from_hex(privkey_hex@) == Ok::<Seq<u8>, Seq<char>>(w.secret_key@),
            Err(e) => secret_from_hex(privkey_hex@) == Err::<Seq<u8>, Seq<char>>(e@),
        },
{
    let bytes = match hex_decode(strip_0x_prefix(privkey_hex)) {
        Ok(b) => b,
        Err(_) => {
            return Err(owned("bad hex"));
        },
    };
    if bytes.len() != 32 {
        return Err(owned("privkey must be 32 bytes"));
    }
    match parse_secret_key(bytes.as_slice()) {
        Ok(()) => Ok(wallet_of_secret(bytes)),
        Err(_) => Err(owned("invalid privkey")),
    }
}

/// The transfer a wallet makes: recipient lower-cased, sender its
/// address, signed over the canonical text.
pub open spec fn transfer_from(w: Wallet, to: Seq<char>, amount: u64, timestamp: u64, id: Seq<char>, tx: Transaction) -> bool {
    &&& tx.id@ == id
    &&& tx.tx_type@ == "TRANSFER"@
    &&& tx.from@ == w.address@
    &&& tx.to@ == lowercase(to)
    &&& tx.amount == amount
    &&& tx.timestamp == timestamp
    &&& tx.public_key@ == w.public_key_hex@
    &&& tx.signature@ == signature_text(canonical_text(tx), w.secret_key@)
}

/// Makes and signs a transfer from a wallet.
pub fn new_transfer(w: &Wallet, to: &str, amount: u64, timestamp: u64, id: String) -> (tx: Transaction)
    requires
        w.wf(),
    ensures
        transfer_from(*w, to@, amount, timestamp, id@, tx),
        recovered_address(canonical_text(tx), tx.signature@) == Ok::<Seq<char>, Seq<char>>(w.address@),
        (id@.len() > 0 && tx.to@.len() > 0 && tx.to@ != w.address@ && amount > 0 && timestamp > 0) ==> forall|
            chain: Seq<crate::types::Block>,
        | (#[trigger] transfer_check(tx, chain) is Ok) == (balance(w.address@, chain) >= (amount as i64)),
{
    let to_lower = to_lowercase(to);
    let canonical = canonical_transfer_text(w.address.as_str(), to_lower.as_str(), amount, timestamp);
    let signature = sign_message(canonical.as_str(), w.secret_key.as_slice());
    proof {
        reveal_strlit("TRANSFER");
        reveal_strlit("0x");
    }
    Transaction {
        id,
        tx_type: owned("TRANSFER"),
        from: owned(w.address.as_str()),
        to: to_lower,
        amount,
        timestamp,
        public_key: owned(w.public_key_hex.as_str()),
        signature,
    }
}

} // verus!
