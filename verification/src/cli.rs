//! The command line of the node: which command the arguments ask for, the
//! numbers they carry, the seed list, and the transfer `send` builds.

use crate::text::{owned, trim, trim_end_slash, trim_end_slashes, trim_ws};
use crate::types::Transaction;
use crate::wallet::{new_transfer, secret_from_hex, transfer_from, wallet_from_privkey};
use vstd::prelude::*;
use vstd::string::StrSliceExecFns;

verus! {

/// Whether every character of `s` is an ASCII digit.
pub open spec fn all_digits(s: Seq<char>) -> bool {
    forall|i: int| 0 <= i < s.len() ==> '0' <= #[trigger] s[i] <= '9'
}

/// The number the decimal digits `s` write.
pub open spec fn digits_value(s: Seq<char>) -> int
    decreases s.len(),
{
    if s.len() == 0 {
        0
    } else {
        digits_value(s.drop_last()) * 10 + (s.last() as int - '0' as int)
    }
}

/// The digits of a number text: without one leading `+`.
pub open spec fn unsigned_digits(s: Seq<char>) -> Seq<char> {
    if s.len() > 0 && s[0] == '+' {
        s.drop_first()
    } else {
        s
    }
}

/// What `str::parse` makes of `s` as an unsigned number not above `max`:
/// an optional `+` then at least one decimal digit, with a value that fits.
pub open spec fn parsed_unsigned(s: Seq<char>, max: int) -> Option<int> {
    let d = unsigned_digits(s);
    if d.len() > 0 && all_digits(d) && digits_value(d) <= max {
        Some(digits_value(d))
    } else {
        None
    }
}

proof fn lemma_digits_value_nonneg(s: Seq<char>)
    requires
        all_digits(s),
    ensures
        digits_value(s) >= 0,
    decreases s.len(),
{
    if s.len() > 0 {
        lemma_digits_value_nonneg(s.drop_last());
    }
}

proof fn lemma_digits_prefix_le(s: Seq<char>, k: int)
    requires
        all_digits(s),
        0 <= k <= s.len(),
    ensures
        digits_value(s.take(k)) <= digits_value(s),
    decreases s.len(),
{
    if k == s.len() {
        assert(s.take(k) =~= s);
    } else {
        lemma_digits_prefix_le(s.drop_last(), k);
        assert(s.drop_last().take(k) =~= s.take(k));
        lemma_digits_value_nonneg(s.drop_last());
    }
}

/// Parses an unsigned decimal number not above `max`, as `str::parse` does
/// for the unsigned integer types.
pub fn parse_unsigned(s: &str, max: u64) -> (r: Option<u64>)
    ensures
        match r {
            Some(v) => parsed_unsigned(s@, max as int) == Some(v as int),
            None => parsed_unsigned(s@, max as int) is None,
        },
{
    let n = s.unicode_len();
    let mut start: usize = 0;
    if n > 0 && s.get_char(0) == '+' {
        start = 1;
    }
    let ghost d = unsigned_digits(s@);
    assert(d =~= s@.subrange(start as int, n as int));
    if start >= n {
        return None;
    }
    let mut value: u64 = 0;
    let mut i: usize = start;
    while i < n
        invariant
            n == s@.len(),
            start <= i <= n,
            d == unsigned_digits(s@),
            d == s@.subrange(start as int, n as int),
            all_digits(d.take(i - start)),
            value as int == digits_value(d.take(i - start)),
            value <= max,
        decreases n - i,
    {
        let c = s.get_char(i);
        assert(c == d[i - start]);
        assert(d.take(i - start + 1).drop_last() =~= d.take(i - start));
        if c < '0' || c > '9' {
            assert(!all_digits(d));
            return None;
        }
        let digit: u64 = (c as u32 - '0' as u32) as u64;
        let next = match value.checked_mul(10) {
            Some(v) => v.checked_add(digit),
            None => None,
        };
        match next {
            Some(v) if v <= max => {
                value = v;
            },
            _ => {
                proof {
                    assert(all_digits(d.take(i - start + 1)));
                    if all_digits(d) {
                        lemma_digits_prefix_le(d, i - start + 1);
                    }
                }
                return None;
            },
        }
        i = i + 1;
    }
    assert(d.take(n - start) =~= d);
    Some(value)
}

/// What the arguments ask the program to do.
pub enum CliCommand {
    /// Print a new wallet.
    Wallet,
    /// Send a transfer; the arguments after `send`.
    Send(Vec<String>),
    /// Run a node on this port.
    Run(u16),
    /// The port is not a number that fits.
    BadPort,
    /// No command: print the usage.
    Usage,
}

/// Reads the command from the program's arguments (the program's name
/// first).
pub fn parse_command(args: &Vec<String>) -> (c: CliCommand)
    ensures
        args@.len() < 2 ==> c is Usage,
        args@.len() >= 2 ==> {
            let a = args@[1]@;
            if a == "wallet"@ {
                c is Wallet
            } else if a == "send"@ {
                (c matches CliCommand::Send(rest) && rest@ == args@.skip(2))
            } else {
                match parsed_unsigned(a, 65535) {
                    Some(p) => (c matches CliCommand::Run(port) && port == p),
                    None => c is BadPort,
                }
            }
        },
{
    if args.len() < 2 {
        return CliCommand::Usage;
    }
    let a = args[1].as_str();
    if crate::text::str_eq(a, "wallet") {
        return CliCommand::Wallet;
    }
    if crate::text::str_eq(a, "send") {
        let mut rest: Vec<String> = Vec::new();
        let mut i: usize = 2;
        while i < args.len()
            invariant
                2 <= i <= args@.len(),
                rest@ == args@.subrange(2, i as int),
            decreases args@.len() - i,
        {
            rest.push(args[i].clone());
            assert(rest@ =~= args@.subrange(2, i + 1));
            i = i + 1;
        }
        assert(rest@ =~= args@.skip(2));
        return CliCommand::Send(rest);
    }
    match parse_unsigned(a, 65535) {
        Some(p) => CliCommand::Run(p as u16),
        None => CliCommand::BadPort,
    }
}

/// The usage line of `send`.
pub open spec fn send_usage() -> Seq<char> {
    "Usage: send <node_url> <to> <amount> <private_key>"@
}

/// Builds the transfer of `send <node_url> <to> <amount> <private_key>`:
/// the node URL without trailing slashes, and the transfer the wallet of
/// the key signs, with this id and time.  Refused with the usage line when
/// there are not four arguments, with `bad amount` when the amount is not
/// a `u64`, and with the key's refusal when the key is refused.
pub fn prepare_send(args: &Vec<String>, timestamp: u64, id: String) -> (r: Result<(String, Transaction), String>)
    ensures
        args@.len() != 4 ==> (r matches Err(e) && e@ == send_usage()),
        args@.len() == 4 && parsed_unsigned(args@[2]@, u64::MAX as int) is None ==> (r matches Err(e) && e@
            == "bad amount"@),
        args@.len() == 4 && parsed_unsigned(args@[2]@, u64::MAX as int) is Some && secret_from_hex(args@[3]@) is Err
            ==> (r matches Err(e) && Err::<Seq<u8>, Seq<char>>(e@) == secret_from_hex(args@[3]@)),
        args@.len() == 4 && parsed_unsigned(args@[2]@, u64::MAX as int) is Some && secret_from_hex(args@[3]@) is Ok
            ==> (r matches Ok((url, tx)) && url@ == trim_end_slashes(args@[0]@) && exists|w: crate::wallet::Wallet|
            w.wf() && Ok::<Seq<u8>, Seq<char>>(w.secret_key@) == secret_from_hex(args@[3]@) && #[trigger] transfer_from(
                w,
                args@[1]@,
                parsed_unsigned(args@[2]@, u64::MAX as int)->0 as u64,
                timestamp,
                id@,
                tx,
            )),
{
    if args.len() != 4 {
        return Err(owned("Usage: send <node_url> <to> <amount> <private_key>"));
    }
    let node_url = owned(trim_end_slash(args[0].as_str()));
    let amount = match parse_unsigned(args[2].as_str(), u64::MAX) {
        Some(a) => a,
        None => {
            return Err(owned("bad amount"));
        },
    };
    let w = match wallet_from_privkey(args[3].as_str()) {
        Ok(w) => w,
        Err(e) => {
            return Err(e);
        },
    };
    let ghost id_view = id@;
    let tx = new_transfer(&w, args[1].as_str(), amount, timestamp, id);
    let r: Result<(String, Transaction), String> = Ok((node_url, tx));
    proof {
        let a = parsed_unsigned(args@[2]@, u64::MAX as int)->0;
        assert(a as u64 == amount);
        assert(transfer_from(w, args@[1]@, a as u64, timestamp, id_view, r->Ok_0.1));
    }
    r
}

/// The pieces of `s` between commas, in order (one piece when there is
/// no comma).
pub open spec fn comma_pieces(s: Seq<char>) -> Seq<Seq<char>>
    decreases s.len(),
{
    if s.len() == 0 {
        seq![Seq::<char>::empty()]
    } else {
        let parts = comma_pieces(s.drop_last());
        if s.last() == ',' {
            parts.push(Seq::<char>::empty())
        } else {
            parts.update(parts.len() - 1, parts.last().push(s.last()))
        }
    }
}

proof fn lemma_comma_pieces_nonempty(s: Seq<char>)
    ensures
        comma_pieces(s).len() >= 1,
    decreases s.len(),
{
    if s.len() > 0 {
        lemma_comma_pieces_nonempty(s.drop_last());
    }
}

/// Splits a seed list at its commas and trims each piece.
pub fn split_seeds(s: &str) -> (r: Vec<String>)
    ensures
        r@.len() == comma_pieces(s@).len(),
        forall|i: int| 0 <= i < r@.len() ==> (#[trigger] r@[i])@ == trim_ws(comma_pieces(s@)[i]),
{
    let n = s.unicode_len();
    let mut pieces: Vec<String> = Vec::new();
    let mut current = String::new();
    let mut i: usize = 0;
    assert(s@.take(0) =~= Seq::<char>::empty());
    while i < n
        invariant
            n == s@.len(),
            0 <= i <= n,
            pieces@.len() + 1 == comma_pieces(s@.take(i as int)).len(),
            forall|k: int| 0 <= k < pieces@.len() ==> (#[trigger] pieces@[k])@ == comma_pieces(s@.take(i as int))[k],
            current@ == comma_pieces(s@.take(i as int)).last(),
        decreases n - i,
    {
        proof {
            lemma_comma_pieces_nonempty(s@.take(i as int));
        }
        let c = s.get_char(i);
        assert(s@.take(i + 1).drop_last() =~= s@.take(i as int));
        assert(s@.take(i + 1).last() == c);
        if c == ',' {
            let mut fresh = String::new();
            std::mem::swap(&mut fresh, &mut current);
            pieces.push(fresh);
        } else {
            let mut one = String::new();
            one.append(s.substring_char(i, i + 1));
            assert(one@ =~= seq![c]);
            current.append(one.as_str());
        }
        i = i + 1;
    }
    assert(s@.take(n as int) =~= s@);
    pieces.push(current);
    let mut r: Vec<String> = Vec::new();
    let mut k: usize = 0;
    while k < pieces.len()
        invariant
            0 <= k <= pieces@.len(),
            pieces@.len() == comma_pieces(s@).len(),
            forall|m: int| 0 <= m < pieces@.len() ==> (#[trigger] pieces@[m])@ == comma_pieces(s@)[m],
            r@.len() == k,
            forall|m: int| 0 <= m < k ==> (#[trigger] r@[m])@ == trim_ws(comma_pieces(s@)[m]),
        decreases pieces@.len() - k,
    {
        r.push(owned(trim(pieces[k].as_str())));
        k = k + 1;
    }
    r
}

} // verus!
