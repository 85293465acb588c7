//! Query-string handling for the endpoints: the decoded (key, value) pairs,
//! the per-endpoint argument extraction, and decimal parsing of `length`.
//!
//! Every endpoint reads single-valued keys from the request's query string;
//! when a handler is strict, any unknown key is rejected outright.

use vstd::prelude::*;
use crate::config::Config;
use crate::text::str_eq;

verus! {

/// The (key, value) pairs that form-urlencoded decoding yields for a query
/// string, in order of appearance.
pub uninterp spec fn query_pairs_of(q: Seq<char>) -> Seq<(Seq<char>, Seq<char>)>;

/// Relies on url::form_urlencoded::parse: splits the query text on `&` and
/// `=`, skips empty fragments, decodes percent-escapes and `+`, and yields
/// the (key, value) pairs in order; the result depends on the text alone.
#[verifier::external_body]
pub(crate) fn parse_query_pairs(q: &str) -> (r: Vec<(String, String)>)
    ensures
        r.deep_view() == query_pairs_of(q@),
{
    url::form_urlencoded::parse(q.as_bytes()).into_owned().collect()
}

/// The value of the last pair carrying `key`, if any; a later occurrence of
/// a key overrides an earlier one.
pub open spec fn lookup_last(pairs: Seq<(Seq<char>, Seq<char>)>, key: Seq<char>) -> Option<
    Seq<char>,
>
    decreases pairs.len(),
{
    if pairs.len() == 0 {
        None
    } else if pairs.last().0 == key {
        Some(pairs.last().1)
    } else {
        lookup_last(pairs.drop_last(), key)
    }
}

/// Every key is the single supported one.
pub open spec fn keys_within1(pairs: Seq<(Seq<char>, Seq<char>)>, k: Seq<char>) -> bool {
    forall|i: int| 0 <= i < pairs.len() ==> (#[trigger] pairs[i]).0 == k
}

/// Every key is one of the two supported ones.
pub open spec fn keys_within2(
    pairs: Seq<(Seq<char>, Seq<char>)>,
    k1: Seq<char>,
    k2: Seq<char>,
) -> bool {
    forall|i: int| 0 <= i < pairs.len() ==> ((#[trigger] pairs[i]).0 == k1 || pairs[i].0 == k2)
}

/// What `query_id` answers, determined by the pairs alone.
pub open spec fn spec_query_id(pairs: Seq<(Seq<char>, Seq<char>)>, only: bool) -> Result<
    Seq<char>,
    QueryIdError,
> {
    if only && !keys_within1(pairs, "id"@) {
        Err(QueryIdError::UnsupportedArgument)
    } else {
        match lookup_last(pairs, "id"@) {
            Some(v) => Ok(v),
            None => Err(QueryIdError::MissingId),
        }
    }
}

/// What `query_id_and_secret` answers, determined by the pairs alone.
pub open spec fn spec_query_id_secret(pairs: Seq<(Seq<char>, Seq<char>)>, only: bool) -> Result<
    (Seq<char>, Seq<char>),
    QueryIdSecretError,
> {
    if only && !keys_within2(pairs, "id"@, "secret"@) {
        Err(QueryIdSecretError::UnsupportedArgument)
    } else {
        match (lookup_last(pairs, "id"@), lookup_last(pairs, "secret"@)) {
            (None, _) => Err(QueryIdSecretError::MissingId),
            (Some(_), None) => Err(QueryIdSecretError::MissingSecret),
            (Some(i), Some(s)) => Ok((i, s)),
        }
    }
}

/// What `query_length` answers, determined by the pairs and the bound alone.
pub open spec fn spec_query_length(
    pairs: Seq<(Seq<char>, Seq<char>)>,
    only: bool,
    max: u64,
) -> Result<u64, QueryLengthError> {
    if only && !keys_within1(pairs, "length"@) {
        Err(QueryLengthError::UnsupportedArgument)
    } else {
        match lookup_last(pairs, "length"@) {
            None => Err(QueryLengthError::MissingLength),
            Some(raw) => if !is_dec_u64(raw) {
                Err(QueryLengthError::NotDecimal)
            } else if dec_digits_value(dec_digit_run(raw)) > max {
                Err(QueryLengthError::TooLong)
            } else {
                Ok(dec_digits_value(dec_digit_run(raw)) as u64)
            },
        }
    }
}

#[derive(Clone, Copy, PartialEq, Eq, Structural, Debug)]
pub enum QueryIdError {
    /// A strict handler saw a key other than `id`.
    UnsupportedArgument,
    /// No `id` key was present.
    MissingId,
}

#[derive(Clone, Copy, PartialEq, Eq, Structural, Debug)]
pub enum QueryIdSecretError {
    /// A strict handler saw a key other than `id` or `secret`.
    UnsupportedArgument,
    /// No `id` key was present.
    MissingId,
    /// No `secret` key was present.
    MissingSecret,
}

#[derive(Clone, Copy, PartialEq, Eq, Structural, Debug)]
pub enum QueryLengthError {
    /// A strict handler saw a key other than `length`.
    UnsupportedArgument,
    /// No `length` key was present.
    MissingLength,
    /// The `length` value is not a decimal integer that fits.
    NotDecimal,
    /// The declared length exceeds the configured upper bound.
    TooLong,
}

/// The `id` argument of a request, from its decoded pairs. With `only` set,
/// any pair under another key is rejected.
pub fn query_id(pairs: &Vec<(String, String)>, only: bool) -> (r: Result<String, QueryIdError>)
    ensures
        ({
            let sr = spec_query_id(pairs.deep_view(), only);
            match r {
                Ok(v) => sr == Ok::<Seq<char>, QueryIdError>(v@),
                Err(e) => sr == Err::<Seq<char>, QueryIdError>(e),
            }
        }),
{
    let ghost vp = pairs.deep_view();
    let mut id: Option<String> = None;
    let mut i: usize = 0;
    while i < pairs.len()
        invariant
            i <= pairs.len(),
            vp == pairs.deep_view(),
            vp.len() == pairs.len(),
            only ==> keys_within1(vp.take(i as int), "id"@),
            match id {
                Some(s) => lookup_last(vp.take(i as int), "id"@) == Some(s@),
                None => lookup_last(vp.take(i as int), "id"@) is None,
            },
        decreases pairs.len() - i,
    {
        proof {
            assert(vp[i as int] == (pairs@[i as int].0@, pairs@[i as int].1@));
            assert(vp.take(i as int + 1).drop_last() =~= vp.take(i as int));
            assert(vp.take(i as int + 1).last() == vp[i as int]);
        }
        if str_eq(pairs[i].0.as_str(), "id") {
            id = Some(pairs[i].1.clone());
        } else if only {
            return Err(QueryIdError::UnsupportedArgument);
        }
        i = i + 1;
    }
    proof {
        assert(vp.take(vp.len() as int) =~= vp);
    }
    match id {
        Some(v) => Ok(v),
        None => Err(QueryIdError::MissingId),
    }
}

/// The `id` and `secret` arguments of a request, from its decoded pairs.
/// With `only` set, any pair under another key is rejected; a missing `id`
/// is reported before a missing `secret`.
pub fn query_id_and_secret(pairs: &Vec<(String, String)>, only: bool) -> (r: Result<
    (String, String),
    QueryIdSecretError,
>)
    ensures
        ({
            let sr = spec_query_id_secret(pairs.deep_view(), only);
            match r {
                Ok(v) => sr == Ok::<(Seq<char>, Seq<char>), QueryIdSecretError>((v.0@, v.1@)),
                Err(e) => sr == Err::<(Seq<char>, Seq<char>), QueryIdSecretError>(e),
            }
        }),
{
    let ghost vp = pairs.deep_view();
    let mut id: Option<String> = None;
    let mut secret: Option<String> = None;
    let mut i: usize = 0;
    while i < pairs.len()
        invariant
            i <= pairs.len(),
            vp == pairs.deep_view(),
            vp.len() == pairs.len(),
            only ==> keys_within2(vp.take(i as int), "id"@, "secret"@),
            match id {
                Some(s) => lookup_last(vp.take(i as int), "id"@) == Some(s@),
                None => lookup_last(vp.take(i as int), "id"@) is None,
            },
            match secret {
                Some(s) => lookup_last(vp.take(i as int), "secret"@) == Some(s@),
                None => lookup_last(vp.take(i as int), "secret"@) is None,
            },
        decreases pairs.len() - i,
    {
        proof {
            assert("id"@ != "secret"@) by {
                reveal_strlit("id");
                reveal_strlit("secret");
                assert("id"@.len() == 2);
                assert("secret"@.len() == 6);
            }
            assert(vp[i as int] == (pairs@[i as int].0@, pairs@[i as int].1@));
            assert(vp.take(i as int + 1).drop_last() =~= vp.take(i as int));
            assert(vp.take(i as int + 1).last() == vp[i as int]);
        }
        if str_eq(pairs[i].0.as_str(), "id") {
            id = Some(pairs[i].1.clone());
        } else if str_eq(pairs[i].0.as_str(), "secret") {
            secret = Some(pairs[i].1.clone());
        } else if only {
            return Err(QueryIdSecretError::UnsupportedArgument);
        }
        i = i + 1;
    }
    proof {
        assert(vp.take(vp.len() as int) =~= vp);
    }
    let id = match id {
        Some(v) => v,
        None => {
            return Err(QueryIdSecretError::MissingId);
        },
    };
    let secret = match secret {
        Some(v) => v,
        None => {
            return Err(QueryIdSecretError::MissingSecret);
        },
    };
    Ok((id, secret))
}

/// A decimal digit.
pub open spec fn is_dec_digit(c: char) -> bool {
    48 <= c as u32 <= 57
}

/// Every character of `s` is a decimal digit.
pub open spec fn all_dec_digits(s: Seq<char>) -> bool {
    forall|i: int| 0 <= i < s.len() ==> is_dec_digit(#[trigger] s[i])
}

/// The number the digit string `s` denotes.
pub open spec fn dec_digits_value(s: Seq<char>) -> int
    decreases s.len(),
{
    if s.len() == 0 {
        0
    } else {
        dec_digits_value(s.drop_last()) * 10 + (s.last() as u32 - 48)
    }
}

/// The digit run of a decimal literal: an optional leading `+` stripped.
pub open spec fn dec_digit_run(s: Seq<char>) -> Seq<char> {
    if s.len() > 0 && s[0] == '+' {
        s.skip(1)
    } else {
        s
    }
}

/// The strings on which parsing an unsigned 64-bit decimal succeeds.
pub open spec fn is_dec_u64(s: Seq<char>) -> bool {
    let d = dec_digit_run(s);
    &&& d.len() > 0
    &&& all_dec_digits(d)
    &&& dec_digits_value(d) <= u64::MAX
}

proof fn lemma_dec_value_nonneg(s: Seq<char>)
    requires
        all_dec_digits(s),
    ensures
        dec_digits_value(s) >= 0,
    decreases s.len(),
{
    if s.len() > 0 {
        assert forall|j: int| 0 <= j < s.drop_last().len() implies is_dec_digit(
            #[trigger] s.drop_last()[j],
        ) by {
            assert(s.drop_last()[j] == s[j]);
        }
        lemma_dec_value_nonneg(s.drop_last());
    }
}

/// Reading more digits never shrinks the denoted number.
proof fn lemma_dec_value_prefix_le(s: Seq<char>, k: int)
    requires
        all_dec_digits(s),
        0 <= k <= s.len(),
    ensures
        dec_digits_value(s.take(k)) <= dec_digits_value(s),
    decreases s.len() - k,
{
    if k == s.len() {
        assert(s.take(k) =~= s);
    } else {
        assert forall|j: int| 0 <= j < s.take(k).len() implies is_dec_digit(
            #[trigger] s.take(k)[j],
        ) by {
            assert(s.take(k)[j] == s[j]);
        }
        lemma_dec_value_nonneg(s.take(k));
        assert(s.take(k + 1).drop_last() =~= s.take(k));
        assert(s.take(k + 1).last() == s[k]);
        lemma_dec_value_prefix_le(s, k + 1);
    }
}

/// Parse a decimal unsigned 64-bit number, as the `length` argument allows
/// it: digits with an optional leading `+`, rejecting anything else and any
/// value that does not fit.
pub fn parse_dec_u64(s: &str) -> (r: Option<u64>)
    ensures
        match r {
            Some(v) => is_dec_u64(s@) && v as int == dec_digits_value(dec_digit_run(s@)),
            None => !is_dec_u64(s@),
        },
{
    let n = s.unicode_len();
    if n == 0 {
        return None;
    }
    let start: usize = if s.get_char(0) == '+' {
        1
    } else {
        0
    };
    if n == start {
        return None;
    }
    let ghost run = dec_digit_run(s@);
    proof {
        assert(run =~= s@.skip(start as int));
    }
    let mut i: usize = start;
    let mut acc: u64 = 0;
    while i < n
        invariant
            start <= i <= n,
            n == s@.len(),
            start <= 1,
            run == dec_digit_run(s@),
            run =~= s@.skip(start as int),
            run.len() == n - start,
            all_dec_digits(run.take(i - start)),
            acc as int == dec_digits_value(run.take(i - start)),
        decreases n - i,
    {
        let c = s.get_char(i);
        let cu = c as u32;
        proof {
            assert(run[i - start] == s@[i as int]);
        }
        if cu < 48 || 57 < cu {
            proof {
                assert(!is_dec_digit(run[i - start]));
            }
            return None;
        }
        let d = (cu - 48) as u64;
        proof {
            assert(run.take(i - start + 1).drop_last() =~= run.take(i - start));
            assert(run.take(i - start + 1).last() == run[i - start]);
        }
        let acc10 = match acc.checked_mul(10) {
            Some(x) => x,
            None => {
                proof {
                    assert(dec_digits_value(run.take(i - start + 1)) > u64::MAX);
                    if all_dec_digits(run) {
                        lemma_dec_value_prefix_le(run, i - start + 1);
                    }
                }
                return None;
            },
        };
        let acc2 = match acc10.checked_add(d) {
            Some(x) => x,
            None => {
                proof {
                    assert(dec_digits_value(run.take(i - start + 1)) > u64::MAX);
                    if all_dec_digits(run) {
                        lemma_dec_value_prefix_le(run, i - start + 1);
                    }
                }
                return None;
            },
        };
        acc = acc2;
        i = i + 1;
    }
    proof {
        assert(run.take(n - start) =~= run);
    }
    Some(acc)
}

/// The `length` argument of a request, from its decoded pairs: a decimal
/// number no greater than the configured `max_content_length`. With `only`
/// set, any pair under another key is rejected.
pub fn query_length(pairs: &Vec<(String, String)>, only: bool, cfg: &Config) -> (r: Result<
    u64,
    QueryLengthError,
>)
    ensures
        r == spec_query_length(pairs.deep_view(), only, cfg.max_content_length),
{
    let ghost vp = pairs.deep_view();
    let mut length: Option<String> = None;
    let mut i: usize = 0;
    while i < pairs.len()
        invariant
            i <= pairs.len(),
            vp == pairs.deep_view(),
            vp.len() == pairs.len(),
            only ==> keys_within1(vp.take(i as int), "length"@),
            match length {
                Some(s) => lookup_last(vp.take(i as int), "length"@) == Some(s@),
                None => lookup_last(vp.take(i as int), "length"@) is None,
            },
        decreases pairs.len() - i,
    {
        proof {
            assert(vp[i as int] == (pairs@[i as int].0@, pairs@[i as int].1@));
            assert(vp.take(i as int + 1).drop_last() =~= vp.take(i as int));
            assert(vp.take(i as int + 1).last() == vp[i as int]);
        }
        if str_eq(pairs[i].0.as_str(), "length") {
            length = Some(pairs[i].1.clone());
        } else if only {
            return Err(QueryLengthError::UnsupportedArgument);
        }
        i = i + 1;
    }
    proof {
        assert(vp.take(vp.len() as int) =~= vp);
    }
    let raw = match length {
        Some(v) => v,
        None => {
            return Err(QueryLengthError::MissingLength);
        },
    };
    let value = match parse_dec_u64(raw.as_str()) {
        Some(v) => v,
        None => {
            return Err(QueryLengthError::NotDecimal);
        },
    };
    if value > cfg.max_content_length {
        return Err(QueryLengthError::TooLong);
    }
    Ok(value)
}

} // verus!
