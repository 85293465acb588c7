//! Identifier and secret generation: random strings over a fixed 58-symbol
//! alphabet (digits and letters, excluding `0`, `O`, `I` and `l`).

use vstd::prelude::*;
use crate::config::Config;

verus! {

/// The 58 symbols a token may be built from, in generator order.
pub open spec fn base58_alphabet() -> Seq<char> {
    "123456789ABCDEFGHJKLMNPQRSTUVWXYZabcdefghijkmnopqrstuvwxyz"@
}

/// A character the generator may emit.
pub open spec fn is_base58_char(c: char) -> bool {
    base58_alphabet().contains(c)
}

/// A well-formed token of length `len`: every character from the alphabet.
pub open spec fn is_token(s: Seq<char>, len: int) -> bool {
    &&& s.len() == len
    &&& forall|i: int| 0 <= i < s.len() ==> is_base58_char(#[trigger] s[i])
}

/// Relies on rand::random_range: a draw from `0..n`, uniform over the range;
/// it panics only when the range is empty, which `1 <= n` rules out.
#[verifier::external_body]
fn random_below(n: usize) -> (r: usize)
    requires
        1 <= n,
    ensures
        r < n,
{
    rand::random_range(0..n)
}

/// The `i`-th symbol of the alphabet, as a one-character string slice.
fn alphabet_symbol(i: usize) -> (s: &'static str)
    requires
        i < 58,
    ensures
        s@ =~= seq![base58_alphabet()[i as int]],
{
    let a = "123456789ABCDEFGHJKLMNPQRSTUVWXYZabcdefghijkmnopqrstuvwxyz";
    proof {
        reveal_strlit("123456789ABCDEFGHJKLMNPQRSTUVWXYZabcdefghijkmnopqrstuvwxyz");
    }
    a.substring_char(i, i + 1)
}

/// A fresh random token of `len` symbols from the alphabet.
pub fn generate_token(len: usize) -> (t: String)
    ensures
        is_token(t@, len as int),
{
    let mut t = String::new();
    let mut k: usize = 0;
    while k < len
        invariant
            k <= len,
            t@.len() == k,
            forall|i: int| 0 <= i < t@.len() ==> is_base58_char(#[trigger] t@[i]),
        decreases len - k,
    {
        let d = random_below(58);
        let s = alphabet_symbol(d);
        proof {
            reveal_strlit("123456789ABCDEFGHJKLMNPQRSTUVWXYZabcdefghijkmnopqrstuvwxyz");
            assert(is_base58_char(base58_alphabet()[d as int])) by {
                assert(base58_alphabet()[d as int] == base58_alphabet()[d as int]);
            }
        }
        t.append(s);
        k = k + 1;
    }
    t
}

/// A fresh (identifier, secret) pair; the two strings are drawn independently
/// and neither is derived from the other.
pub fn generate_id_pair(cfg: &Config) -> (p: (String, String))
    ensures
        is_token(p.0@, cfg.token_length as int),
        is_token(p.1@, cfg.token_length as int),
{
    (generate_token(cfg.token_length), generate_token(cfg.token_length))
}

} // verus!
