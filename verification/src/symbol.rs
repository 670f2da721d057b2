//! Symbol normalization and access-point region checks.
//!
//! A security symbol has the shape `"<CODE>.<MARKET>"`. For the HK market
//! the numeric code is normalized by stripping leading zeros, so that
//! `"0700.HK"` and `"700.HK"` name the same subscription key.
use vstd::prelude::*;

verus! {

/// Index of the first `'.'` in `s`, or `s.len()` when there is none.
pub open spec fn first_dot(s: Seq<char>) -> int
    decreases s.len(),
{
    if s.len() == 0 {
        0
    } else if s[0] == '.' {
        0
    } else {
        1 + first_dot(s.drop_first())
    }
}

/// Number of leading `'0'` characters of `s`.
pub open spec fn leading_zeros(s: Seq<char>) -> int
    decreases s.len(),
{
    if s.len() == 0 {
        0
    } else if s[0] == '0' {
        1 + leading_zeros(s.drop_first())
    } else {
        0
    }
}

/// True when `s` names the HK market, compared without regard to ASCII
/// case.
pub open spec fn is_hk_market(s: Seq<char>) -> bool {
    s.len() == 2 && (s[0] == 'H' || s[0] == 'h') && (s[1] == 'K' || s[1] == 'k')
}

/// The normalized form of a symbol: when the part after the first dot is
/// the HK market, leading zeros are stripped; any other symbol is kept as
/// it is.
pub open spec fn spec_normalize_symbol(s: Seq<char>) -> Seq<char> {
    if first_dot(s) < s.len() && is_hk_market(s.skip(first_dot(s) + 1)) {
        s.skip(leading_zeros(s))
    } else {
        s
    }
}

proof fn lemma_first_dot_at(s: Seq<char>, i: int)
    requires
        0 <= i <= s.len(),
        forall|j: int| 0 <= j < i ==> s[j] != '.',
        i < s.len() ==> s[i] == '.',
    ensures
        first_dot(s) == i,
    decreases i,
{
    if i > 0 {
        assert(forall|j: int|
            0 <= j < s.drop_first().len() ==> #[trigger] s.drop_first()[j] == s[j + 1]);
        lemma_first_dot_at(s.drop_first(), i - 1);
    } else if s.len() > 0 && i == 0 {
    }
}

proof fn lemma_leading_zeros_at(s: Seq<char>, i: int)
    requires
        0 <= i <= s.len(),
        forall|j: int| 0 <= j < i ==> s[j] == '0',
        i < s.len() ==> s[i] != '0',
    ensures
        leading_zeros(s) == i,
    decreases i,
{
    if i > 0 {
        assert(forall|j: int|
            0 <= j < s.drop_first().len() ==> #[trigger] s.drop_first()[j] == s[j + 1]);
        lemma_leading_zeros_at(s.drop_first(), i - 1);
    }
}

/// Normalize a symbol: strip the leading zeros of an HK-market code, keep
/// any other symbol unchanged.
pub fn normalize_symbol(symbol: &str) -> (r: &str)
    ensures
        r@ == spec_normalize_symbol(symbol@),
{
    let n = symbol.unicode_len();
    let mut i: usize = 0;
    while i < n
        invariant
            n == symbol@.len(),
            0 <= i <= n,
            forall|j: int| 0 <= j < i ==> symbol@[j] != '.',
        ensures
            n == symbol@.len(),
            0 <= i <= n,
            forall|j: int| 0 <= j < i ==> symbol@[j] != '.',
            i < n ==> symbol@[i as int] == '.',
        decreases n - i,
    {
        if symbol.get_char(i) == '.' {
            break ;
        }
        i = i + 1;
    }
    proof {
        lemma_first_dot_at(symbol@, i as int);
    }
    if i == n {
        return symbol;
    }
    let market_len = n - i - 1;
    if market_len != 2 {
        return symbol;
    }
    let m0 = symbol.get_char(i + 1);
    let m1 = symbol.get_char(i + 2);
    proof {
        assert(symbol@.skip(i + 1)[0] == symbol@[i + 1]);
        assert(symbol@.skip(i + 1)[1] == symbol@[i + 2]);
    }
    if !((m0 == 'H' || m0 == 'h') && (m1 == 'K' || m1 == 'k')) {
        return symbol;
    }
    let mut z: usize = 0;
    while z < n
        invariant
            n == symbol@.len(),
            0 <= z <= n,
            forall|j: int| 0 <= j < z ==> symbol@[j] == '0',
        ensures
            n == symbol@.len(),
            0 <= z <= n,
            forall|j: int| 0 <= j < z ==> symbol@[j] == '0',
            z < n ==> symbol@[z as int] != '0',
        decreases n - z,
    {
        if symbol.get_char(z) != '0' {
            break ;
        }
        z = z + 1;
    }
    proof {
        lemma_leading_zeros_at(symbol@, z as int);
        assert(symbol@.subrange(z as int, n as int) =~= symbol@.skip(z as int));
    }
    symbol.substring_char(z, n)
}

/// True when the access point's reported region is mainland China: the
/// region string is exactly `"CN"`, compared without regard to ASCII case.
pub fn is_cn(region: Option<&str>) -> (r: bool)
    ensures
        r == match region {
            Some(s) => s@.len() == 2 && (s@[0] == 'C' || s@[0] == 'c') && (s@[1] == 'N' || s@[1]
                == 'n'),
            None => false,
        },
{
    match region {
        Some(s) => {
            if s.unicode_len() != 2 {
                return false;
            }
            let c0 = s.get_char(0);
            let c1 = s.get_char(1);
            (c0 == 'C' || c0 == 'c') && (c1 == 'N' || c1 == 'n')
        },
        None => false,
    }
}

} // verus!
