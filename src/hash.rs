//! Short hashes of strings for cache keys, through siphasher.
use vstd::prelude::*;

use std::hash::{Hash, Hasher};

use crate::text::views;

verus! {

/// SipHash-2-4 (zero keys) of a string as `Hash` feeds it.
pub uninterp spec fn sip_hash_of_str(s: Seq<char>) -> u64;

/// SipHash-2-4 (zero keys) of a list of strings as `Hash` feeds it.
pub uninterp spec fn sip_hash_of_list(v: Seq<Seq<char>>) -> u64;

/// Relies on siphasher's SipHasher (new, then `Hash::hash`, then finish):
/// the value depends on the string alone.
#[verifier::external_body]
fn sip_hash_str(s: &str) -> (r: u64)
    ensures
        r == sip_hash_of_str(s@),
{
    let mut h = siphasher::sip::SipHasher::new();
    s.hash(&mut h);
    h.finish()
}

/// Relies on siphasher's SipHasher, as for a single string, over a list.
#[verifier::external_body]
fn sip_hash_list(v: &Vec<String>) -> (r: u64)
    ensures
        r == sip_hash_of_list(views(v@)),
{
    let mut h = siphasher::sip::SipHasher::new();
    v.hash(&mut h);
    h.finish()
}

/// The lower-case hexadecimal digit of `d`.
pub open spec fn hex_digit(d: nat) -> char {
    "0123456789abcdef"@[d as int]
}

/// `n` in lower-case hexadecimal, without leading zeros.
pub open spec fn hex_of(n: nat) -> Seq<char>
    decreases n,
{
    if n < 16 {
        seq![hex_digit(n)]
    } else {
        hex_of(n / 16) + seq![hex_digit(n % 16)]
    }
}

fn hex_digit_exec(d: u64) -> (r: String)
    requires
        d < 16,
    ensures
        r@ == seq![hex_digit(d as nat)],
{
    let digits = "0123456789abcdef";
    proof {
        reveal_strlit("0123456789abcdef");
    }
    let i = d as usize;
    let s = digits.substring_char(i, i + 1).to_string();
    assert(s@ =~= seq![hex_digit(d as nat)]);
    s
}

fn hex_exec(n: u64) -> (r: String)
    ensures
        r@ == hex_of(n as nat),
{
    let mut out = String::new();
    let mut m: u64 = n;
    while m >= 16
        invariant
            hex_of(n as nat) == hex_of(m as nat) + out@,
        decreases m,
    {
        let mut s = hex_digit_exec(m % 16);
        s.append(out.as_str());
        assert(hex_of(m as nat) == hex_of((m / 16) as nat) + seq![hex_digit((m % 16) as nat)]);
        assert(hex_of(m as nat) + out@ =~= hex_of((m / 16) as nat) + s@);
        out = s;
        m = m / 16;
    }
    let mut s = hex_digit_exec(m);
    s.append(out.as_str());
    assert(hex_of(n as nat) =~= s@);
    s
}

/// The SipHash of a string in lower-case hexadecimal.
pub fn hash_to_str(s: &str) -> (r: String)
    ensures
        r@ == hex_of(sip_hash_of_str(s@) as nat),
{
    hex_exec(sip_hash_str(s))
}

/// The SipHash of a list of strings in lower-case hexadecimal.
pub fn hash_list_to_str(v: &Vec<String>) -> (r: String)
    ensures
        r@ == hex_of(sip_hash_of_list(views(v@)) as nat),
{
    hex_exec(sip_hash_list(v))
}

} // verus!
