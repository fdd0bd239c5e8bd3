use vstd::prelude::*;

verus! {

/// ASCII whitespace: space, tab, line feed, carriage return.  These are the
/// token separators of the command surface.
pub open spec fn is_ws(b: u8) -> bool {
    b == 32 || b == 9 || b == 10 || b == 13
}

pub fn is_ws_byte(b: u8) -> (r: bool)
    ensures
        r == is_ws(b),
{
    b == 32 || b == 9 || b == 10 || b == 13
}

/// Length of the maximal non-whitespace prefix of `s`.
pub open spec fn token_end(s: Seq<u8>) -> int
    decreases s.len(),
{
    if s.len() == 0 || is_ws(s[0]) {
        0
    } else {
        1 + token_end(s.subrange(1, s.len() as int))
    }
}

pub proof fn lemma_token_end_bounds(s: Seq<u8>)
    ensures
        0 <= token_end(s) <= s.len(),
        s.len() > 0 && !is_ws(s[0]) ==> 1 <= token_end(s),
    decreases s.len(),
{
    if s.len() > 0 && !is_ws(s[0]) {
        lemma_token_end_bounds(s.subrange(1, s.len() as int));
    }
}

/// The maximal non-whitespace prefix is exactly the run the scanner finds:
/// `m` non-whitespace bytes followed by the end or a whitespace byte.
pub proof fn lemma_token_end_is_run(s: Seq<u8>, m: int)
    requires
        0 <= m <= s.len(),
        forall|j: int| 0 <= j < m ==> !is_ws(s[j]),
        m == s.len() || is_ws(s[m]),
    ensures
        token_end(s) == m,
    decreases s.len(),
{
    if m > 0 {
        let rest = s.subrange(1, s.len() as int);
        assert(forall|j: int| 0 <= j < m - 1 ==> !is_ws(rest[j]));
        lemma_token_end_is_run(rest, m - 1);
    }
}

/// Whitespace-splitting of a byte string: the sequence of its maximal
/// non-whitespace runs, in order.
pub open spec fn tokens(s: Seq<u8>) -> Seq<Seq<u8>>
    decreases s.len(),
        via tokens_decreases
{
    if s.len() == 0 {
        seq![]
    } else if is_ws(s[0]) {
        tokens(s.subrange(1, s.len() as int))
    } else {
        seq![s.subrange(0, token_end(s))] + tokens(s.subrange(token_end(s), s.len() as int))
    }
}

#[via_fn]
proof fn tokens_decreases(s: Seq<u8>) {
    if s.len() > 0 && !is_ws(s[0]) {
        lemma_token_end_bounds(s);
    }
}

/// The views of a list of byte vectors, elementwise.
pub open spec fn views_of(ts: Seq<Vec<u8>>) -> Seq<Seq<u8>> {
    ts.map_values(|t: Vec<u8>| t@)
}

/// Split `s` into its whitespace-delimited tokens.
pub fn tokenize(s: &[u8]) -> (r: Vec<Vec<u8>>)
    ensures
        views_of(r@) == tokens(s@),
{
    let n = s.len();
    let mut out: Vec<Vec<u8>> = Vec::new();
    let mut i: usize = 0;
    proof {
        assert(s@.subrange(0, n as int) =~= s@);
        assert(views_of(out@) + tokens(s@) =~= tokens(s@));
    }
    while i < n
        invariant
            n == s@.len(),
            i <= n,
            views_of(out@) + tokens(s@.subrange(i as int, n as int)) == tokens(s@),
        decreases n - i,
    {
        if is_ws_byte(s[i]) {
            proof {
                let t = s@.subrange(i as int, n as int);
                assert(t.subrange(1, t.len() as int) =~= s@.subrange(i as int + 1, n as int));
            }
            i += 1;
        } else {
            let start = i;
            let mut j = i + 1;
            while j < n && !is_ws_byte(s[j])
                invariant
                    n == s@.len(),
                    start < j <= n,
                    forall|m: int| start <= m < j ==> !is_ws(s@[m]),
                decreases n - j,
            {
                j += 1;
            }
            let mut tok: Vec<u8> = Vec::new();
            let mut k = start;
            while k < j
                invariant
                    start <= k <= j <= n,
                    n == s@.len(),
                    tok@ == s@.subrange(start as int, k as int),
                decreases j - k,
            {
                tok.push(s[k]);
                proof {
                    assert(s@.subrange(start as int, k as int + 1) =~= s@.subrange(
                        start as int,
                        k as int,
                    ).push(s@[k as int]));
                }
                k += 1;
            }
            proof {
                let t = s@.subrange(start as int, n as int);
                lemma_token_end_is_run(t, j - start);
                assert(t.subrange(0, (j - start) as int) =~= s@.subrange(start as int, j as int));
                assert(t.subrange((j - start) as int, t.len() as int) =~= s@.subrange(
                    j as int,
                    n as int,
                ));
                assert(tokens(t) == seq![tok@] + tokens(s@.subrange(j as int, n as int)));
            }
            let ghost prev = out@;
            out.push(tok);
            proof {
                assert(views_of(out@) =~= views_of(prev).push(s@.subrange(
                    start as int,
                    j as int,
                )));
                assert(views_of(out@) + tokens(s@.subrange(j as int, n as int)) =~= views_of(prev)
                    + tokens(s@.subrange(start as int, n as int)));
            }
            i = j;
        }
    }
    proof {
        assert(s@.subrange(n as int, n as int) =~= Seq::<u8>::empty());
        assert(views_of(out@) + tokens(s@.subrange(n as int, n as int)) =~= views_of(out@));
    }
    out
}

/// An ASCII decimal digit.
pub open spec fn is_digit(b: u8) -> bool {
    48 <= b && b <= 57
}

pub open spec fn all_digits(s: Seq<u8>) -> bool {
    forall|i: int| 0 <= i < s.len() ==> is_digit(s[i])
}

/// Numeric value of a digit string, most significant digit first.  Leading
/// zeros are accepted and carry no weight.
pub open spec fn dec_value(s: Seq<u8>) -> int
    decreases s.len(),
{
    if s.len() == 0 {
        0
    } else {
        dec_value(s.drop_last()) * 10 + (s.last() - 48)
    }
}

pub proof fn lemma_dec_value_nonneg(s: Seq<u8>)
    requires
        all_digits(s),
    ensures
        dec_value(s) >= 0,
    decreases s.len(),
{
    if s.len() > 0 {
        assert(forall|i: int| 0 <= i < s.drop_last().len() ==> is_digit(s.drop_last()[i]));
        lemma_dec_value_nonneg(s.drop_last());
    }
}

/// A digit string is worth at least any of its prefixes.
pub proof fn lemma_dec_value_prefix_le(s: Seq<u8>, k: int)
    requires
        all_digits(s),
        0 <= k <= s.len(),
    ensures
        dec_value(s.subrange(0, k)) <= dec_value(s),
    decreases s.len(),
{
    if k == s.len() {
        assert(s.subrange(0, k) =~= s);
    } else {
        let head = s.drop_last();
        assert(forall|i: int| 0 <= i < head.len() ==> is_digit(head[i]));
        assert(s.subrange(0, k) =~= head.subrange(0, k));
        lemma_dec_value_prefix_le(head, k);
        lemma_dec_value_nonneg(head);
    }
}

/// Parse the decimal digits of `s` from `start` to the end as a `u64`.
/// Fails exactly when the range is empty, holds a non-digit, or its value
/// does not fit.
pub fn parse_digits(s: &[u8], start: usize) -> (r: Option<u64>)
    requires
        start <= s@.len(),
    ensures
        (r is Some) <==> (start < s@.len() && all_digits(s@.subrange(start as int, s@.len() as int))
            && dec_value(s@.subrange(start as int, s@.len() as int)) <= u64::MAX),
        r matches Some(v) ==> v == dec_value(s@.subrange(start as int, s@.len() as int)),
{
    let ghost whole = s@.subrange(start as int, s@.len() as int);
    let n = s.len();
    if start >= n {
        return None;
    }
    let mut acc: u64 = 0;
    let mut i = start;
    while i < n
        invariant
            start <= i <= n,
            n == s@.len(),
            whole == s@.subrange(start as int, n as int),
            forall|j: int| start <= j < i ==> is_digit(s@[j]),
            acc == dec_value(s@.subrange(start as int, i as int)),
        decreases n - i,
    {
        let b = s[i];
        if b < 48 || b > 57 {
            proof {
                assert(!is_digit(whole[i - start]));
            }
            return None;
        }
        let d = (b - 48) as u64;
        proof {
            assert(s@.subrange(start as int, i as int + 1).drop_last() =~= s@.subrange(
                start as int,
                i as int,
            ));
            assert(s@.subrange(start as int, i as int + 1).last() == s@[i as int]);
        }
        if acc > 1844674407370955161u64 || (acc == 1844674407370955161u64 && d > 5) {
            proof {
                assert(dec_value(s@.subrange(start as int, i as int + 1)) > u64::MAX);
                assert(forall|j: int| 0 <= j < i + 1 - start ==> #[trigger] whole[j] == s@[
                    start + j
                ]);
                if all_digits(whole) {
                    lemma_dec_value_prefix_le(whole, i + 1 - start);
                    assert(whole.subrange(0, i + 1 - start) =~= s@.subrange(
                        start as int,
                        i as int + 1,
                    ));
                }
            }
            return None;
        }
        acc = acc * 10 + d;
        i += 1;
    }
    proof {
        assert(s@.subrange(start as int, n as int) =~= whole);
        assert(forall|j: int| 0 <= j < whole.len() ==> #[trigger] whole[j] == s@[start + j]);
    }
    Some(acc)
}

/// Parse a whole byte string as an unsigned decimal `u64`: the count
/// argument of the content-fetch surface.
pub fn parse_u64(s: &[u8]) -> (r: Option<u64>)
    ensures
        (r is Some) <==> (s@.len() > 0 && all_digits(s@) && dec_value(s@) <= u64::MAX),
        r matches Some(v) ==> v == dec_value(s@),
{
    proof {
        assert(s@.subrange(0, s@.len() as int) =~= s@);
    }
    parse_digits(s, 0)
}

/// A signed decimal integer literal: an optional leading minus sign, then
/// at least one digit.
pub open spec fn is_dec_int(s: Seq<u8>) -> bool {
    if s.len() > 0 && s[0] == 45 {
        s.len() > 1 && all_digits(s.subrange(1, s.len() as int))
    } else {
        s.len() > 0 && all_digits(s)
    }
}

pub open spec fn dec_int_value(s: Seq<u8>) -> int {
    if s.len() > 0 && s[0] == 45 {
        -dec_value(s.subrange(1, s.len() as int))
    } else {
        dec_value(s)
    }
}

/// Parse a whole byte string as a signed decimal `i64`: the identity
/// argument of the grant command.  Fails exactly when the string is not a
/// decimal integer literal or its value does not fit in an `i64`.
pub fn parse_i64(s: &[u8]) -> (r: Option<i64>)
    ensures
        (r is Some) <==> (is_dec_int(s@) && i64::MIN <= dec_int_value(s@) <= i64::MAX),
        r matches Some(v) ==> v == dec_int_value(s@),
{
    if s.len() > 0 && s[0] == 45 {
        match parse_digits(s, 1) {
            Some(mag) => {
                if mag <= 9223372036854775807u64 {
                    Some(-(mag as i64))
                } else if mag == 9223372036854775808u64 {
                    Some(i64::MIN)
                } else {
                    None
                }
            },
            None => None,
        }
    } else {
        match parse_digits(s, 0) {
            Some(mag) => {
                proof {
                    assert(s@.subrange(0, s@.len() as int) =~= s@);
                }
                if mag <= 9223372036854775807u64 {
                    Some(mag as i64)
                } else {
                    None
                }
            },
            None => {
                proof {
                    assert(s@.subrange(0, s@.len() as int) =~= s@);
                }
                None
            },
        }
    }
}

} // verus!
