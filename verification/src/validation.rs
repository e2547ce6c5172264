//! Validation of transactions, blocks and whole chains, and balances.

use crate::crypto::{
    address_from_hex, address_from_pubkey_hex, block_hash, compute_block_hash, recover_address,
    recovered_address,
};
use crate::mining::{difficulty_prefix, meets_difficulty};
use crate::text::{
    ascii_lower, ascii_upper, concat, decimal, is_ascii_text, lemma_ascii_case, i64_to_decimal, lowercase, signed_decimal, starts_with, str_eq, to_lowercase,
    u64_to_decimal, unit_result_view, usize_to_decimal,
};
use crate::types::{Block, Transaction, BLOCK_REWARD};
use vstd::prelude::*;
use vstd::slice::slice_subrange;
use vstd::string::StrSliceExecFns;

verus! {

// ── Coinbase ───────────────────────────────────────────────

/// `s` with every `"0x"` removed, matches taken left to right without
/// overlap, as `str::replace("0x", "")` does.
pub open spec fn without_0x(s: Seq<char>) -> Seq<char>
    decreases s.len(),
{
    if s.len() == 0 {
        s
    } else if s.len() >= 2 && s[0] == '0' && s[1] == 'x' {
        without_0x(s.subrange(2, s.len() as int))
    } else {
        seq![s[0]] + without_0x(s.drop_first())
    }
}

/// Whether every character of `s` is `'0'`.
pub open spec fn all_zero(s: Seq<char>) -> bool {
    forall|i: int| 0 <= i < s.len() ==> s[i] == '0'
}

/// Whether `s`, once its `"0x"`s are removed, is a non-empty run of zeros.
pub open spec fn zero_filled(s: Seq<char>) -> bool {
    without_0x(s).len() > 0 && all_zero(without_0x(s))
}

proof fn lemma_all_zero_cons(c: char, rest: Seq<char>)
    ensures
        all_zero(seq![c] + rest) == (c == '0' && all_zero(rest)),
{
    let s = seq![c] + rest;
    if c == '0' && all_zero(rest) {
        assert forall|i: int| 0 <= i < s.len() implies s[i] == '0' by {
            if i > 0 {
                assert(s[i] == rest[i - 1]);
            }
        }
    }
    if all_zero(s) {
        assert(s[0] == c);
        assert forall|i: int| 0 <= i < rest.len() implies rest[i] == '0' by {
            assert(s[i + 1] == rest[i]);
        }
    }
}

/// Whether `s` is zero-filled once its `"0x"`s are removed.
pub fn is_zero_filled(s: &str) -> (r: bool)
    ensures
        r == zero_filled(s@),
{
    let n = s.unicode_len();
    let ghost full = s@;
    let mut i: usize = 0;
    let mut kept = false;
    assert(full.subrange(0, n as int) =~= full);
    while i < n
        invariant
            n == full.len(),
            full == s@,
            0 <= i <= n,
            zero_filled(full) == ((kept || without_0x(full.subrange(i as int, n as int)).len() > 0)
                && all_zero(without_0x(full.subrange(i as int, n as int)))),
        decreases n - i,
    {
        let ghost t = full.subrange(i as int, n as int);
        let c = s.get_char(i);
        if i + 1 < n && c == '0' && s.get_char(i + 1) == 'x' {
            assert(t.subrange(2, t.len() as int) =~= full.subrange(i + 2, n as int));
            i = i + 2;
        } else {
            assert(t.drop_first() =~= full.subrange(i + 1, n as int));
            proof {
                lemma_all_zero_cons(t[0], without_0x(t.drop_first()));
            }
            if c != '0' {
                return false;
            }
            kept = true;
            i = i + 1;
        }
    }
    assert(full.subrange(n as int, n as int) =~= Seq::<char>::empty());
    kept
}

/// What `validate_coinbase` decides for a coinbase transaction of a block
/// with timestamp `block_ts`: the first failed check, in order.
pub open spec fn coinbase_check(tx: Transaction, block_ts: u64) -> Result<(), Seq<char>> {
    if tx.tx_type@ != "COINBASE"@ {
        Err("not COINBASE"@)
    } else if tx.from@ != "SYSTEM"@ {
        Err("from != SYSTEM"@)
    } else if tx.amount != BLOCK_REWARD {
        Err("reward "@ + decimal(tx.amount as nat) + " != 10"@)
    } else if tx.timestamp != block_ts {
        Err("coinbase ts mismatch"@)
    } else if !zero_filled(tx.public_key@) {
        Err("coinbase pk not zeros"@)
    } else if !zero_filled(tx.signature@) {
        Err("coinbase sig not zeros"@)
    } else {
        Ok(())
    }
}

/// Checks the coinbase transaction of a block.
pub fn validate_coinbase(tx: &Transaction, block_ts: u64) -> (r: Result<(), String>)
    ensures
        unit_result_view(r) == coinbase_check(*tx, block_ts),
        r is Ok ==> tx.tx_type@ == "COINBASE"@ && tx.from@ == "SYSTEM"@ && tx.amount == BLOCK_REWARD && tx.timestamp
            == block_ts,
{
    if !str_eq(tx.tx_type.as_str(), "COINBASE") {
        return Err(owned_msg("not COINBASE"));
    }
    if !str_eq(tx.from.as_str(), "SYSTEM") {
        return Err(owned_msg("from != SYSTEM"));
    }
    if tx.amount != BLOCK_REWARD {
        let mut m = concat("reward ", u64_to_decimal(tx.amount).as_str());
        m.append(" != 10");
        return Err(m);
    }
    if tx.timestamp != block_ts {
        return Err(owned_msg("coinbase ts mismatch"));
    }
    if !is_zero_filled(tx.public_key.as_str()) {
        return Err(owned_msg("coinbase pk not zeros"));
    }
    if !is_zero_filled(tx.signature.as_str()) {
        return Err(owned_msg("coinbase sig not zeros"));
    }
    Ok(())
}

fn owned_msg(s: &str) -> (r: String)
    ensures
        r@ == s@,
{
    crate::text::owned(s)
}

// ── Balance ───────────────────────────────────────────────

/// The effect of one transaction on the balance of lower-cased address `a`:
/// credited when it is the recipient, debited when it is the sender (unless
/// the sender is `SYSTEM`), in wrapping 64-bit arithmetic.
pub open spec fn tx_effect(a: Seq<char>, tx: Transaction, bal: i64) -> i64 {
    let credited = if lowercase(tx.to@) == a {
        bal.wrapping_add(tx.amount as i64)
    } else {
        bal
    };
    if tx.from@ != "SYSTEM"@ && lowercase(tx.from@) == a {
        credited.wrapping_sub(tx.amount as i64)
    } else {
        credited
    }
}

/// The balance after applying `txs` in order, starting from `bal`.
pub open spec fn txs_effect(a: Seq<char>, txs: Seq<Transaction>, bal: i64) -> i64
    decreases txs.len(),
{
    if txs.len() == 0 {
        bal
    } else {
        tx_effect(a, txs.last(), txs_effect(a, txs.drop_last(), bal))
    }
}

/// The balance after applying every transaction of `chain` in order,
/// starting from 0.
pub open spec fn chain_effect(a: Seq<char>, chain: Seq<Block>) -> i64
    decreases chain.len(),
{
    if chain.len() == 0 {
        0
    } else {
        txs_effect(a, chain.last().transactions@, chain_effect(a, chain.drop_last()))
    }
}

/// The balance of `addr` on `chain`; addresses compare case-insensitively.
pub open spec fn balance(addr: Seq<char>, chain: Seq<Block>) -> i64 {
    chain_effect(lowercase(addr), chain)
}

/// The `i64` that `x` stands for in 64-bit wrapping arithmetic: the value
/// in the `i64` range congruent to `x` modulo 2^64.
pub open spec fn wrap64(x: int) -> i64 {
    let r = x % 0x1_0000_0000_0000_0000;
    (if r > i64::MAX { r - 0x1_0000_0000_0000_0000 } else { r }) as i64
}

/// What one transaction adds to the balance of lower-cased address `a`,
/// counted without wrapping.
pub open spec fn tx_delta(a: Seq<char>, tx: Transaction) -> int {
    (if lowercase(tx.to@) == a { (tx.amount as i64) as int } else { 0 }) - (if tx.from@ != "SYSTEM"@
        && lowercase(tx.from@) == a {
        (tx.amount as i64) as int
    } else {
        0
    })
}

/// What a list of transactions adds to the balance of `a`, without
/// wrapping.
pub open spec fn txs_delta(a: Seq<char>, txs: Seq<Transaction>) -> int
    decreases txs.len(),
{
    if txs.len() == 0 {
        0
    } else {
        txs_delta(a, txs.drop_last()) + tx_delta(a, txs.last())
    }
}

/// What a chain adds to the balance of `a`, without wrapping.
pub open spec fn chain_delta(a: Seq<char>, chain: Seq<Block>) -> int
    decreases chain.len(),
{
    if chain.len() == 0 {
        0
    } else {
        chain_delta(a, chain.drop_last()) + txs_delta(a, chain.last().transactions@)
    }
}

proof fn lemma_wrap_in_range(s: int)
    requires
        i64::MIN <= s <= i64::MAX,
    ensures
        wrap64(s) == s,
{
    let m: int = 0x1_0000_0000_0000_0000;
    if s >= 0 {
        vstd::arithmetic::div_mod::lemma_small_mod(s as nat, m as nat);
    } else {
        vstd::arithmetic::div_mod::lemma_mod_multiples_vanish(1, s, m);
        vstd::arithmetic::div_mod::lemma_small_mod((s + m) as nat, m as nat);
    }
}

proof fn lemma_wrap_shift(z: int, k: int)
    ensures
        wrap64(z + k * 0x1_0000_0000_0000_0000) == wrap64(z),
{
    let m: int = 0x1_0000_0000_0000_0000;
    vstd::arithmetic::div_mod::lemma_mod_multiples_vanish(k, z, m);
    assert(m * k + z == z + k * m) by (nonlinear_arith);
}

proof fn lemma_wrap_compose(u: int, v: int)
    ensures
        wrap64(wrap64(u) + v) == wrap64(u + v),
{
    let m: int = 0x1_0000_0000_0000_0000;
    vstd::arithmetic::div_mod::lemma_fundamental_div_mod(u, m);
    vstd::arithmetic::div_mod::lemma_mod_bound(u, m);
    let q = u / m;
    if u % m > i64::MAX {
        assert(wrap64(u) + v == (u + v) + (-q - 1) * m) by (nonlinear_arith)
            requires
                wrap64(u) == u % m - m,
                u == m * q + u % m,
        ;
        lemma_wrap_shift(u + v, -q - 1);
    } else {
        assert(wrap64(u) + v == (u + v) + (-q) * m) by (nonlinear_arith)
            requires
                wrap64(u) == u % m,
                u == m * q + u % m,
        ;
        lemma_wrap_shift(u + v, -q);
    }
}

proof fn lemma_wrapping_add(x: i64, y: i64)
    ensures
        x.wrapping_add(y) == wrap64(x + y),
{
    let m: int = 0x1_0000_0000_0000_0000;
    let r = x.wrapping_add(y);
    if x + y > i64::MAX {
        assert(r == x + y - m);
        lemma_wrap_in_range(x + y - m);
        lemma_wrap_shift(x + y, -1);
    } else if x + y < i64::MIN {
        assert(r == x + y + m);
        lemma_wrap_in_range(x + y + m);
        lemma_wrap_shift(x + y, 1);
    } else {
        lemma_wrap_in_range(x + y);
    }
}

proof fn lemma_wrapping_sub(x: i64, y: i64)
    ensures
        x.wrapping_sub(y) == wrap64(x - y),
{
    let m: int = 0x1_0000_0000_0000_0000;
    let r = x.wrapping_sub(y);
    if x - y > i64::MAX {
        assert(r == x - y - m);
        lemma_wrap_in_range(x - y - m);
        lemma_wrap_shift(x - y, -1);
    } else if x - y < i64::MIN {
        assert(r == x - y + m);
        lemma_wrap_in_range(x - y + m);
        lemma_wrap_shift(x - y, 1);
    } else {
        lemma_wrap_in_range(x - y);
    }
}

proof fn lemma_tx_effect(a: Seq<char>, tx: Transaction, base: int)
    ensures
        tx_effect(a, tx, wrap64(base)) == wrap64(base + tx_delta(a, tx)),
{
    let amt = tx.amount as i64;
    let b0 = wrap64(base);
    let credit: int = if lowercase(tx.to@) == a { amt as int } else { 0 };
    let credited = if lowercase(tx.to@) == a { b0.wrapping_add(amt) } else { b0 };
    if lowercase(tx.to@) == a {
        lemma_wrapping_add(b0, amt);
        lemma_wrap_compose(base, amt as int);
    }
    assert(credited == wrap64(base + credit));
    if tx.from@ != "SYSTEM"@ && lowercase(tx.from@) == a {
        lemma_wrapping_sub(credited, amt);
        lemma_wrap_compose(base + credit, -(amt as int));
        assert(tx_effect(a, tx, b0) == wrap64(base + credit - amt));
    } else {
        assert(tx_effect(a, tx, b0) == credited);
    }
}

proof fn lemma_txs_effect(a: Seq<char>, txs: Seq<Transaction>, base: int)
    ensures
        txs_effect(a, txs, wrap64(base)) == wrap64(base + txs_delta(a, txs)),
    decreases txs.len(),
{
    if txs.len() > 0 {
        lemma_txs_effect(a, txs.drop_last(), base);
        lemma_tx_effect(a, txs.last(), base + txs_delta(a, txs.drop_last()));
    }
}

proof fn lemma_chain_effect(a: Seq<char>, chain: Seq<Block>)
    ensures
        chain_effect(a, chain) == wrap64(chain_delta(a, chain)),
    decreases chain.len(),
{
    if chain.len() == 0 {
        lemma_wrap_in_range(0);
    } else {
        lemma_chain_effect(a, chain.drop_last());
        lemma_txs_effect(a, chain.last().transactions@, chain_delta(a, chain.drop_last()));
    }
}

proof fn lemma_chain_delta_concat(a: Seq<char>, c1: Seq<Block>, c2: Seq<Block>)
    ensures
        chain_delta(a, c1 + c2) == chain_delta(a, c1) + chain_delta(a, c2),
    decreases c2.len(),
{
    if c2.len() == 0 {
        assert(c1 + c2 =~= c1);
    } else {
        lemma_chain_delta_concat(a, c1, c2.drop_last());
        assert((c1 + c2).drop_last() =~= c1 + c2.drop_last());
    }
}

/// The balance is what the chain adds to the address, wrapped to 64 bits:
/// exactly that sum when it fits in an `i64`.
pub proof fn lemma_balance_is_sum(addr: Seq<char>, chain: Seq<Block>)
    ensures
        balance(addr, chain) == wrap64(chain_delta(lowercase(addr), chain)),
        i64::MIN <= chain_delta(lowercase(addr), chain) <= i64::MAX ==> balance(addr, chain) == chain_delta(
            lowercase(addr),
            chain,
        ),
{
    lemma_chain_effect(lowercase(addr), chain);
    if i64::MIN <= chain_delta(lowercase(addr), chain) <= i64::MAX {
        lemma_wrap_in_range(chain_delta(lowercase(addr), chain));
    }
}

/// Balances add up over chains: nothing on an empty chain, and on two
/// chains one after the other the sum of the two balances (in 64-bit
/// wrapping arithmetic, so the plain sum when nothing overflows).  The
/// address is compared by its lower-case form, so two addresses with the
/// same lower-case form have the same balance.
pub proof fn lemma_balance_additive(addr: Seq<char>, other: Seq<char>, c1: Seq<Block>, c2: Seq<Block>)
    ensures
        balance(addr, Seq::empty()) == 0,
        balance(addr, c1 + c2) == balance(addr, c1).wrapping_add(balance(addr, c2)),
        lowercase(other) == lowercase(addr) ==> balance(other, c1) == balance(addr, c1),
{
    let a = lowercase(addr);
    lemma_balance_is_sum(addr, Seq::empty());
    lemma_wrap_in_range(0);
    lemma_chain_effect(a, c1);
    lemma_chain_effect(a, c2);
    lemma_chain_effect(a, c1 + c2);
    lemma_chain_delta_concat(a, c1, c2);
    lemma_wrapping_add(balance(addr, c1), balance(addr, c2));
    lemma_wrap_compose(chain_delta(a, c1), balance(addr, c2) as int);
    lemma_wrap_compose(chain_delta(a, c2), chain_delta(a, c1));
    assert(chain_delta(a, c2) + chain_delta(a, c1) == chain_delta(a, c1) + chain_delta(a, c2));
}

proof fn lemma_no_debit_nonneg(a: Seq<char>, txs: Seq<Transaction>)
    requires
        forall|i: int|
            0 <= i < txs.len() ==> #[trigger] txs[i].amount <= i64::MAX && (txs[i].from@ == "SYSTEM"@ || lowercase(
                txs[i].from@,
            ) != a),
    ensures
        txs_delta(a, txs) >= 0,
    decreases txs.len(),
{
    if txs.len() > 0 {
        assert(txs.last() == txs[txs.len() - 1]);
        assert forall|i: int| 0 <= i < txs.drop_last().len() implies #[trigger] txs.drop_last()[i].amount <= i64::MAX
            && (txs.drop_last()[i].from@ == "SYSTEM"@ || lowercase(txs.drop_last()[i].from@) != a) by {
            assert(txs.drop_last()[i] == txs[i]);
        }
        lemma_no_debit_nonneg(a, txs.drop_last());
    }
}

/// An ASCII address and its upper-case form have the same balance: both
/// are looked up by the same lower-case form.
pub proof fn lemma_balance_ignores_ascii_case(addr: Seq<char>, chain: Seq<Block>)
    requires
        is_ascii_text(addr),
    ensures
        is_ascii_text(ascii_upper(addr)),
        chain_effect(ascii_lower(ascii_upper(addr)), chain) == chain_effect(ascii_lower(addr), chain),
{
    lemma_ascii_case(addr);
}

/// A transfer that passes against a chain still passes once a block is
/// appended that never debits its sender (every transaction of it pays
/// at most `i64::MAX` and comes from `SYSTEM` or from another address),
/// provided the sender's balance does not overflow on either chain.
pub proof fn lemma_transfer_stays_valid(tx: Transaction, chain: Seq<Block>, blk: Block)
    requires
        transfer_check(tx, chain) is Ok,
        forall|i: int|
            0 <= i < blk.transactions@.len() ==> #[trigger] blk.transactions@[i].amount <= i64::MAX && (
            blk.transactions@[i].from@ == "SYSTEM"@ || lowercase(blk.transactions@[i].from@) != lowercase(tx.from@)),
        i64::MIN <= chain_delta(lowercase(tx.from@), chain),
        chain_delta(lowercase(tx.from@), chain) + txs_delta(lowercase(tx.from@), blk.transactions@) <= i64::MAX,
    ensures
        transfer_check(tx, chain.push(blk)) is Ok,
{
    let a = lowercase(tx.from@);
    let c2 = chain.push(blk);
    lemma_no_debit_nonneg(a, blk.transactions@);
    assert(c2.drop_last() =~= chain);
    assert(chain_delta(a, c2) == chain_delta(a, chain) + txs_delta(a, blk.transactions@));
    lemma_balance_is_sum(tx.from@, chain);
    lemma_balance_is_sum(tx.from@, c2);
    assert(balance(tx.from@, c2) >= balance(tx.from@, chain));
}

/// Computes the balance of an address over a chain.
pub fn get_balance(addr: &str, chain: &[Block]) -> (bal: i64)
    ensures
        bal == balance(addr@, chain@),
        is_ascii_text(addr@) ==> bal == chain_effect(ascii_lower(addr@), chain@),
{
    let a = to_lowercase(addr);
    let mut bal: i64 = 0;
    let mut i: usize = 0;
    while i < chain.len()
        invariant
            0 <= i <= chain@.len(),
            a@ == lowercase(addr@),
            bal == chain_effect(a@, chain@.take(i as int)),
        decreases chain@.len() - i,
    {
        let blk = &chain[i];
        let ghost start = bal;
        let mut j: usize = 0;
        while j < blk.transactions.len()
            invariant
                0 <= j <= blk.transactions@.len(),
                bal == txs_effect(a@, blk.transactions@.take(j as int), start),
            decreases blk.transactions@.len() - j,
        {
            let tx = &blk.transactions[j];
            let to = to_lowercase(tx.to.as_str());
            if str_eq(to.as_str(), a.as_str()) {
                bal = bal.wrapping_add(tx.amount as i64);
            }
            let from = to_lowercase(tx.from.as_str());
            proof {
                reveal_strlit("SYSTEM");
            }
            if !str_eq(tx.from.as_str(), "SYSTEM") && str_eq(from.as_str(), a.as_str()) {
                bal = bal.wrapping_sub(tx.amount as i64);
            }
            assert(blk.transactions@.take(j + 1).drop_last() =~= blk.transactions@.take(j as int));
            j = j + 1;
        }
        assert(blk.transactions@.take(blk.transactions@.len() as int) =~= blk.transactions@);
        assert(chain@.take(i + 1).drop_last() =~= chain@.take(i as int));
        i = i + 1;
    }
    assert(chain@.take(chain@.len() as int) =~= chain@);
    bal
}


// ── Transfers ─────────────────────────────────────────────

/// The text a transfer's sender signs: `TRANSFER|from|to|amount|timestamp`.
pub open spec fn canonical_text(tx: Transaction) -> Seq<char> {
    "TRANSFER|"@ + tx.from@ + "|"@ + tx.to@ + "|"@ + decimal(tx.amount as nat) + "|"@
        + decimal(tx.timestamp as nat)
}

/// What `validate_transfer` decides for a transfer against the chain it
/// would extend: the first failed check, in order, or the error of the
/// signature recovery or of the public key.
pub open spec fn transfer_check(tx: Transaction, chain: Seq<Block>) -> Result<(), Seq<char>> {
    if tx.tx_type@ != "TRANSFER"@ {
        Err("not TRANSFER"@)
    } else if tx.id@.len() == 0 {
        Err("missing id"@)
    } else if tx.from@.len() == 0 || tx.to@.len() == 0 {
        Err("missing from/to"@)
    } else if tx.from@ == tx.to@ {
        Err("from == to"@)
    } else if tx.amount == 0 {
        Err("amount == 0"@)
    } else if tx.timestamp == 0 {
        Err("timestamp == 0"@)
    } else if tx.public_key@.len() == 0 {
        Err("missing publicKey"@)
    } else if tx.signature@.len() == 0 {
        Err("missing signature"@)
    } else {
        match recovered_address(canonical_text(tx), tx.signature@) {
            Err(e) => Err(e),
            Ok(rec) => if lowercase(rec) != lowercase(tx.from@) {
                Err("sig mismatch: recovered="@ + rec + " from="@ + tx.from@)
            } else {
                match address_from_hex(tx.public_key@) {
                    Err(e) => Err(e),
                    Ok(derived) => if lowercase(derived) != lowercase(tx.from@) {
                        Err("publicKey doesn't match from"@)
                    } else {
                        let bal = balance(tx.from@, chain);
                        if bal < (tx.amount as i64) {
                            Err("insufficient balance: "@ + signed_decimal(bal as int) + " < "@
                                + decimal(tx.amount as nat))
                        } else {
                            Ok(())
                        }
                    },
                }
            },
        }
    }
}

/// Builds the text a transfer's sender signs.
pub fn canonical_transfer_text(from: &str, to: &str, amount: u64, timestamp: u64) -> (s: String)
    ensures
        s@ == "TRANSFER|"@ + from@ + "|"@ + to@ + "|"@ + decimal(amount as nat) + "|"@
            + decimal(timestamp as nat),
{
    let mut s = concat("TRANSFER|", from);
    s.append("|");
    s.append(to);
    s.append("|");
    s.append(u64_to_decimal(amount).as_str());
    s.append("|");
    s.append(u64_to_decimal(timestamp).as_str());
    s
}

/// Checks a transfer against the chain it would extend: its fields, its
/// signature over the canonical text, its public key, and the sender's
/// balance.
pub fn validate_transfer(tx: &Transaction, chain: &[Block]) -> (r: Result<(), String>)
    ensures
        unit_result_view(r) == transfer_check(*tx, chain@),
        r is Ok ==> {
            &&& recovered_address(canonical_text(*tx), tx.signature@) is Ok
            &&& lowercase(recovered_address(canonical_text(*tx), tx.signature@)->Ok_0) == lowercase(tx.from@)
            &&& balance(tx.from@, chain@) >= tx.amount as i64
        },
{
    if !str_eq(tx.tx_type.as_str(), "TRANSFER") {
        return Err(owned_msg("not TRANSFER"));
    }
    if tx.id.as_str().is_empty() {
        return Err(owned_msg("missing id"));
    }
    if tx.from.as_str().is_empty() || tx.to.as_str().is_empty() {
        return Err(owned_msg("missing from/to"));
    }
    if str_eq(tx.from.as_str(), tx.to.as_str()) {
        return Err(owned_msg("from == to"));
    }
    if tx.amount == 0 {
        return Err(owned_msg("amount == 0"));
    }
    if tx.timestamp == 0 {
        return Err(owned_msg("timestamp == 0"));
    }
    if tx.public_key.as_str().is_empty() {
        return Err(owned_msg("missing publicKey"));
    }
    if tx.signature.as_str().is_empty() {
        return Err(owned_msg("missing signature"));
    }
    let canonical = canonical_transfer_text(tx.from.as_str(), tx.to.as_str(), tx.amount, tx.timestamp);
    let recovered = match recover_address(canonical.as_str(), tx.signature.as_str()) {
        Ok(a) => a,
        Err(e) => {
            return Err(e);
        },
    };
    let from_lower = to_lowercase(tx.from.as_str());
    if !str_eq(to_lowercase(recovered.as_str()).as_str(), from_lower.as_str()) {
        let mut m = concat("sig mismatch: recovered=", recovered.as_str());
        m.append(" from=");
        m.append(tx.from.as_str());
        return Err(m);
    }
    let derived = match address_from_pubkey_hex(tx.public_key.as_str()) {
        Ok(a) => a,
        Err(e) => {
            return Err(e);
        },
    };
    if !str_eq(to_lowercase(derived.as_str()).as_str(), from_lower.as_str()) {
        return Err(owned_msg("publicKey doesn't match from"));
    }
    let bal = get_balance(tx.from.as_str(), chain);
    if bal < tx.amount as i64 {
        let mut m = concat("insufficient balance: ", i64_to_decimal(bal).as_str());
        m.append(" < ");
        m.append(u64_to_decimal(tx.amount).as_str());
        return Err(m);
    }
    Ok(())
}

// ── Blocks ────────────────────────────────────────────────

/// How many transactions of `txs` are of type `COINBASE`.
pub open spec fn coinbase_count(txs: Seq<Transaction>) -> nat
    decreases txs.len(),
{
    if txs.len() == 0 {
        0
    } else {
        coinbase_count(txs.drop_last()) + if txs.last().tx_type@ == "COINBASE"@ {
            1nat
        } else {
            0nat
        }
    }
}

/// The first failing transfer check among `txs`, in order.
pub open spec fn transfers_check(txs: Seq<Transaction>, chain: Seq<Block>) -> Result<(), Seq<char>>
    decreases txs.len(),
{
    if txs.len() == 0 {
        Ok(())
    } else {
        match transfer_check(txs[0], chain) {
            Err(e) => Err(e),
            Ok(()) => transfers_check(txs.drop_first(), chain),
        }
    }
}

/// What `validate_block` decides for a block, the block before it (if any),
/// and the chain before it: the first failed check, in order.
pub open spec fn block_check(blk: Block, prev: Option<Block>, before: Seq<Block>) -> Result<(), Seq<char>> {
    let computed = block_hash(blk.index, blk.timestamp, blk.previous_hash@, blk.nonce, blk.transactions@);
    let txs = blk.transactions@;
    if blk.timestamp == 0 {
        Err("ts == 0"@)
    } else if computed != blk.hash@ {
        Err("hash mismatch: "@ + computed + " != "@ + blk.hash@)
    } else if !meets_difficulty(blk.hash@) {
        Err("PoW fail"@)
    } else if blk.index == 0 {
        if blk.previous_hash@ != "0"@ {
            Err("genesis prevHash"@)
        } else if txs.len() != 0 {
            Err("genesis has txs"@)
        } else {
            Ok(())
        }
    } else {
        match prev {
            None => Err("no previous block"@),
            Some(p) => if blk.previous_hash@ != p.hash@ {
                Err("prevHash mismatch"@)
            } else if blk.index != p.index + 1 {
                Err("index gap"@)
            } else if blk.timestamp <= p.timestamp {
                Err("ts not increasing"@)
            } else if txs.len() == 0 {
                Err("no txs"@)
            } else {
                match coinbase_check(txs[0], blk.timestamp) {
                    Err(e) => Err(e),
                    Ok(()) => if coinbase_count(txs) != 1 {
                        Err(decimal(coinbase_count(txs)) + " coinbases"@)
                    } else {
                        transfers_check(txs.drop_first(), before)
                    },
                }
            },
        }
    }
}

/// The block behind an optional reference.
pub open spec fn opt_block(p: Option<&Block>) -> Option<Block> {
    match p {
        Some(b) => Some(*b),
        None => None,
    }
}

fn count_coinbases(txs: &[Transaction]) -> (n: usize)
    ensures
        n == coinbase_count(txs@),
{
    let mut n: usize = 0;
    let mut i: usize = 0;
    while i < txs.len()
        invariant
            0 <= i <= txs@.len(),
            n == coinbase_count(txs@.take(i as int)),
            n <= i,
        decreases txs@.len() - i,
    {
        assert(txs@.take(i + 1).drop_last() =~= txs@.take(i as int));
        if str_eq(txs[i].tx_type.as_str(), "COINBASE") {
            n = n + 1;
        }
        i = i + 1;
    }
    assert(txs@.take(txs@.len() as int) =~= txs@);
    n
}

fn validate_transfers_from(txs: &[Transaction], start: usize, chain: &[Block]) -> (r: Result<(), String>)
    requires
        start <= txs@.len(),
    ensures
        unit_result_view(r) == transfers_check(txs@.subrange(start as int, txs@.len() as int), chain@),
{
    let n = txs.len();
    let mut i: usize = start;
    while i < n
        invariant
            n == txs@.len(),
            start <= i <= n,
            transfers_check(txs@.subrange(start as int, n as int), chain@) == transfers_check(
                txs@.subrange(i as int, n as int),
                chain@,
            ),
        decreases n - i,
    {
        let ghost rest = txs@.subrange(i as int, n as int);
        assert(rest[0] == txs@[i as int]);
        assert(rest.drop_first() =~= txs@.subrange(i + 1, n as int));
        match validate_transfer(&txs[i], chain) {
            Ok(()) => {},
            Err(e) => {
                return Err(e);
            },
        }
        i = i + 1;
    }
    assert(txs@.subrange(n as int, n as int) =~= Seq::<Transaction>::empty());
    Ok(())
}

/// Checks a block against the block before it and the chain before it:
/// timestamp, hash, proof of work, and either the genesis rules or the
/// links to the previous block, the coinbase and every transfer.
pub fn validate_block(blk: &Block, prev: Option<&Block>, chain_before: &[Block]) -> (r: Result<(), String>)
    ensures
        unit_result_view(r) == block_check(*blk, opt_block(prev), chain_before@),
        r is Ok && blk.index != 0 ==> forall|i: int|
            1 <= i < blk.transactions@.len() ==> #[trigger] transfer_check(blk.transactions@[i], chain_before@) is Ok,
{
    let ghost prev_block = opt_block(prev);
    if blk.timestamp == 0 {
        return Err(owned_msg("ts == 0"));
    }
    let computed = compute_block_hash(
        blk.index,
        blk.timestamp,
        blk.previous_hash.as_str(),
        blk.nonce,
        blk.transactions.as_slice(),
    );
    if !str_eq(computed.as_str(), blk.hash.as_str()) {
        let mut m = concat("hash mismatch: ", computed.as_str());
        m.append(" != ");
        m.append(blk.hash.as_str());
        return Err(m);
    }
    if !starts_with(blk.hash.as_str(), difficulty_prefix().as_str()) {
        return Err(owned_msg("PoW fail"));
    }
    if blk.index == 0 {
        if !str_eq(blk.previous_hash.as_str(), "0") {
            return Err(owned_msg("genesis prevHash"));
        }
        if blk.transactions.len() != 0 {
            return Err(owned_msg("genesis has txs"));
        }
        return Ok(());
    }
    let prev = match prev {
        Some(p) => p,
        None => {
            return Err(owned_msg("no previous block"));
        },
    };
    if !str_eq(blk.previous_hash.as_str(), prev.hash.as_str()) {
        return Err(owned_msg("prevHash mismatch"));
    }
    if prev.index == u64::MAX || blk.index != prev.index + 1 {
        return Err(owned_msg("index gap"));
    }
    if blk.timestamp <= prev.timestamp {
        return Err(owned_msg("ts not increasing"));
    }
    if blk.transactions.len() == 0 {
        return Err(owned_msg("no txs"));
    }
    match validate_coinbase(&blk.transactions[0], blk.timestamp) {
        Ok(()) => {},
        Err(e) => {
            return Err(e);
        },
    }
    let cb_count = count_coinbases(blk.transactions.as_slice());
    if cb_count != 1 {
        let mut m = usize_to_decimal(cb_count);
        m.append(" coinbases");
        return Err(m);
    }
    assert(blk.transactions@.subrange(1, blk.transactions@.len() as int) =~= blk.transactions@.drop_first());
    let r = validate_transfers_from(blk.transactions.as_slice(), 1, chain_before);
    proof {
        if r is Ok {
            lemma_block_admits_only_valid(*blk, prev_block, chain_before@);
        }
    }
    r
}

// ── Chains ────────────────────────────────────────────────

/// The block before position `i` of a chain, if any.
pub open spec fn prev_of(chain: Seq<Block>, i: int) -> Option<Block> {
    if i > 0 {
        Some(chain[i - 1])
    } else {
        None
    }
}

/// Whether block `i` of `chain` passes `validate_block` against the block
/// before it and the chain before it.
pub open spec fn block_valid_at(chain: Seq<Block>, i: int) -> bool {
    block_check(chain[i], prev_of(chain, i), chain.subrange(0, i)) is Ok
}

/// A valid chain: non-empty, and every block valid at its position.
pub open spec fn chain_valid(chain: Seq<Block>) -> bool {
    &&& chain.len() > 0
    &&& forall|i: int| 0 <= i < chain.len() ==> #[trigger] block_valid_at(chain, i)
}

/// Checks a whole chain, block by block from the genesis.
pub fn validate_full_chain(chain: &[Block]) -> (r: bool)
    ensures
        r == chain_valid(chain@),
        r ==> block_check(chain@[0], None, Seq::empty()) is Ok,
{
    if chain.len() == 0 {
        return false;
    }
    let mut i: usize = 0;
    while i < chain.len()
        invariant
            0 <= i <= chain@.len(),
            forall|j: int| 0 <= j < i ==> #[trigger] block_valid_at(chain@, j),
        decreases chain@.len() - i,
    {
        let prev = if i > 0 { Some(&chain[i - 1]) } else { None };
        let before = slice_subrange(chain, 0, i);
        if validate_block(&chain[i], prev, before).is_err() {
            assert(!block_valid_at(chain@, i as int));
            return false;
        }
        i = i + 1;
    }
    proof {
        lemma_chain_admits_only_valid_blocks(chain@);
    }
    true
}


// ── Laws of what validation admits ────────────────────────

/// A coinbase that passes pays exactly the block reward, from `SYSTEM`, at
/// the block's time, with a zero-filled public key and signature.
pub proof fn lemma_coinbase_admits_only_the_reward(tx: Transaction, block_ts: u64)
    requires
        coinbase_check(tx, block_ts) is Ok,
    ensures
        tx.tx_type@ == "COINBASE"@,
        tx.from@ == "SYSTEM"@,
        tx.amount == BLOCK_REWARD,
        tx.timestamp == block_ts,
        zero_filled(tx.public_key@),
        zero_filled(tx.signature@),
{
}

/// A transfer that passes is a transfer with an id, two different
/// parties and a positive amount and time, whose signature over its
/// canonical text recovers to its sender's address, whose public key is
/// its sender's, and whose sender's balance on the chain covers it.
pub proof fn lemma_transfer_admits_only_signed_covered(tx: Transaction, chain: Seq<Block>)
    requires
        transfer_check(tx, chain) is Ok,
    ensures
        tx.tx_type@ == "TRANSFER"@,
        tx.id@.len() > 0,
        tx.from@.len() > 0 && tx.to@.len() > 0 && tx.from@ != tx.to@,
        tx.amount > 0 && tx.timestamp > 0,
        tx.public_key@.len() > 0 && tx.signature@.len() > 0,
        recovered_address(canonical_text(tx), tx.signature@) is Ok,
        lowercase(recovered_address(canonical_text(tx), tx.signature@)->Ok_0) == lowercase(tx.from@),
        address_from_hex(tx.public_key@) is Ok,
        lowercase(address_from_hex(tx.public_key@)->Ok_0) == lowercase(tx.from@),
        balance(tx.from@, chain) >= tx.amount as i64,
{
}

proof fn lemma_transfers_check_each(txs: Seq<Transaction>, chain: Seq<Block>)
    requires
        transfers_check(txs, chain) is Ok,
    ensures
        forall|i: int| 0 <= i < txs.len() ==> #[trigger] transfer_check(txs[i], chain) is Ok,
    decreases txs.len(),
{
    if txs.len() > 0 {
        lemma_transfers_check_each(txs.drop_first(), chain);
        assert forall|i: int| 0 <= i < txs.len() implies #[trigger] transfer_check(txs[i], chain) is Ok by {
            if i > 0 {
                assert(txs[i] == txs.drop_first()[i - 1]);
            }
        }
    }
}

/// A block that passes has its recomputed hash, meets the proof of work,
/// and either is a genesis (previous hash `"0"`, no transactions) or links
/// to the block before it (its hash, the next index, a later time) and
/// holds a valid coinbase first, no other coinbase, and after it only
/// transfers that each pass against the chain before the block.
pub proof fn lemma_block_admits_only_valid(blk: Block, prev: Option<Block>, before: Seq<Block>)
    requires
        block_check(blk, prev, before) is Ok,
    ensures
        blk.timestamp != 0,
        blk.hash@ == block_hash(blk.index, blk.timestamp, blk.previous_hash@, blk.nonce, blk.transactions@),
        meets_difficulty(blk.hash@),
        blk.index == 0 ==> blk.previous_hash@ == "0"@ && blk.transactions@.len() == 0,
        blk.index != 0 ==> {
            &&& prev is Some
            &&& blk.previous_hash@ == prev->0.hash@
            &&& blk.index == prev->0.index + 1
            &&& blk.timestamp > prev->0.timestamp
            &&& blk.transactions@.len() > 0
            &&& coinbase_check(blk.transactions@[0], blk.timestamp) is Ok
            &&& forall|i: int|
                1 <= i < blk.transactions@.len() ==> #[trigger] transfer_check(blk.transactions@[i], before) is Ok
        },
{
    let txs = blk.transactions@;
    if blk.index != 0 {
        lemma_transfers_check_each(txs.drop_first(), before);
        assert forall|i: int| 1 <= i < txs.len() implies #[trigger] transfer_check(txs[i], before) is Ok by {
            assert(txs[i] == txs.drop_first()[i - 1]);
        }
    }
}

/// A chain that passes is non-empty and every block of it, the first one
/// included, passes `validate_block` against the block before it (none for
/// the first) and the chain before it.
pub proof fn lemma_chain_admits_only_valid_blocks(chain: Seq<Block>)
    requires
        chain_valid(chain),
    ensures
        chain.len() > 0,
        block_check(chain[0], None, Seq::empty()) is Ok,
        forall|i: int|
            1 <= i < chain.len() ==> #[trigger] block_check(chain[i], Some(chain[i - 1]), chain.take(i)) is Ok,
{
    assert(block_valid_at(chain, 0));
    assert(chain.subrange(0, 0) =~= Seq::<Block>::empty());
    assert forall|i: int| 1 <= i < chain.len() implies #[trigger] block_check(chain[i], Some(chain[i - 1]), chain.take(i))
        is Ok by {
        assert(block_valid_at(chain, i));
        assert(chain.subrange(0, i) =~= chain.take(i));
    }
}

// ── Laws of validity ──────────────────────────────────────

proof fn lemma_all_zero_without_0x(s: Seq<char>)
    requires
        all_zero(s),
    ensures
        without_0x(s) == s,
    decreases s.len(),
{
    if s.len() > 0 {
        assert(s.len() < 2 || s[1] == '0');
        assert(all_zero(s.drop_first()));
        lemma_all_zero_without_0x(s.drop_first());
        assert(seq![s[0]] + s.drop_first() =~= s);
    }
}

/// The coinbase placeholder `ZEROS` is zero-filled.
pub proof fn lemma_zeros_zero_filled()
    ensures
        zero_filled(crate::types::ZEROS@),
{
    reveal_strlit("0000000000000000000000000000000000000000000000000000000000000000000000000000000000000000000000000000000000000000000000000000000000");
    lemma_all_zero_without_0x(crate::types::ZEROS@);
}

/// Counting coinbases of a list that starts with `c`.
pub proof fn lemma_coinbase_count_cons(c: Transaction, p: Seq<Transaction>)
    ensures
        coinbase_count(seq![c] + p) == coinbase_count(p) + if c.tx_type@ == "COINBASE"@ {
            1nat
        } else {
            0nat
        },
    decreases p.len(),
{
    let s = seq![c] + p;
    if p.len() > 0 {
        assert(s.drop_last() =~= seq![c] + p.drop_last());
        assert(s.last() == p.last());
        lemma_coinbase_count_cons(c, p.drop_last());
        assert(coinbase_count(s) == coinbase_count(s.drop_last()) + if s.last().tx_type@ == "COINBASE"@ {
            1nat
        } else {
            0nat
        });
    } else {
        assert(s.drop_last() =~= Seq::<Transaction>::empty());
        assert(s.last() == c);
        assert(coinbase_count(Seq::<Transaction>::empty()) == 0);
    }
}

/// A list in which no transaction is of type `COINBASE` counts none.
pub proof fn lemma_no_coinbase(p: Seq<Transaction>)
    requires
        forall|i: int| 0 <= i < p.len() ==> #[trigger] p[i].tx_type@ != "COINBASE"@,
    ensures
        coinbase_count(p) == 0,
    decreases p.len(),
{
    if p.len() > 0 {
        lemma_no_coinbase(p.drop_last());
    }
}

/// Transfers that each pass `transfer_check` pass together.
pub proof fn lemma_transfers_all_ok(txs: Seq<Transaction>, chain: Seq<Block>)
    requires
        forall|i: int| 0 <= i < txs.len() ==> #[trigger] transfer_check(txs[i], chain) is Ok,
    ensures
        transfers_check(txs, chain) is Ok,
    decreases txs.len(),
{
    if txs.len() > 0 {
        assert(transfer_check(txs[0], chain) is Ok);
        assert forall|i: int| 0 <= i < txs.drop_first().len() implies #[trigger] transfer_check(
            txs.drop_first()[i],
            chain,
        ) is Ok by {
            assert(transfer_check(txs[i + 1], chain) is Ok);
        }
        lemma_transfers_all_ok(txs.drop_first(), chain);
    }
}

/// A genesis block alone is a valid chain.
pub proof fn lemma_genesis_chain_valid(b: Block)
    requires
        crate::mining::is_genesis(b),
    ensures
        chain_valid(seq![b]),
{
    assert(b.transactions@ =~= Seq::<Transaction>::empty());
    assert(block_valid_at(seq![b], 0));
}

/// Every non-empty prefix of a valid chain is valid.
pub proof fn lemma_prefix_valid(chain: Seq<Block>, k: int)
    requires
        chain_valid(chain),
        1 <= k <= chain.len(),
    ensures
        chain_valid(chain.take(k)),
{
    let c = chain.take(k);
    assert forall|i: int| 0 <= i < c.len() implies #[trigger] block_valid_at(c, i) by {
        assert(c.subrange(0, i) =~= chain.subrange(0, i));
        assert(block_valid_at(chain, i));
    }
}

} // verus!
