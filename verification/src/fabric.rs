//! Typestate markers for fabric sockets.
//!
//! A socket is created detached and becomes linked when it is bound or
//! connected; only a linked socket can send or receive. The unverified
//! socket layer carries these markers as type parameters, so that misuse
//! is a type error rather than a runtime failure.

use vstd::prelude::*;

verus! {

/// A socket that is bound or connected, and ready for I/O.
#[derive(Debug, Clone, Copy, PartialEq, Eq, Structural)]
pub struct Linked;

/// A socket that is created but not yet bound or connected.
#[derive(Debug, Clone, Copy, PartialEq, Eq, Structural)]
pub struct Detached;

/// Whether position `i` holds the last colon of the string.
pub open spec fn is_last_colon(s: Seq<char>, i: int) -> bool {
    &&& 0 <= i < s.len()
    &&& s[i] == ':'
    &&& forall|j: int| i < j < s.len() ==> s[j] != ':'
}

/// Whether the string is one or more decimal digits.
pub open spec fn spec_is_digits(s: Seq<char>) -> bool {
    s.len() > 0 && forall|i: int| 0 <= i < s.len() ==> '0' <= #[trigger] s[i] <= '9'
}

/// The number the digit string spells.
pub open spec fn spec_digits_value(s: Seq<char>) -> int
    decreases s.len(),
{
    if s.len() == 0 {
        0
    } else {
        spec_digits_value(s.drop_last()) * 10 + (s.last() as int - '0' as int)
    }
}

/// The port at the end of an endpoint such as `tcp://10.0.0.2:4711`: the
/// digits after the last colon, if they are digits and fit a port number.
pub open spec fn spec_endpoint_port(s: Seq<char>) -> Option<u16> {
    if exists|i: int| is_last_colon(s, i) {
        let i = choose|i: int| is_last_colon(s, i);
        let digits = s.skip(i + 1);
        if spec_is_digits(digits) && spec_digits_value(digits) <= 65535 {
            Some(spec_digits_value(digits) as u16)
        } else {
            None
        }
    } else {
        None
    }
}

/// A digit string's value is nonnegative and no prefix spells more.
proof fn lemma_digits_value_bounds(s: Seq<char>, k: int)
    requires
        forall|i: int| 0 <= i < s.len() ==> '0' <= #[trigger] s[i] <= '9',
        0 <= k <= s.len(),
    ensures
        0 <= spec_digits_value(s.take(k)) <= spec_digits_value(s),
    decreases s.len() - k,
{
    if k == s.len() {
        assert(s.take(k) =~= s);
        lemma_digits_value_nonneg(s);
    } else {
        lemma_digits_value_bounds(s, k + 1);
        let t = s.take(k + 1);
        assert(t.drop_last() =~= s.take(k));
        assert(t.last() == s[k]);
        lemma_digits_value_nonneg(s.take(k));
    }
}

/// A digit string's value is nonnegative.
proof fn lemma_digits_value_nonneg(s: Seq<char>)
    requires
        forall|i: int| 0 <= i < s.len() ==> '0' <= #[trigger] s[i] <= '9',
    ensures
        spec_digits_value(s) >= 0,
    decreases s.len(),
{
    if s.len() > 0 {
        assert(forall|i: int|
            0 <= i < s.drop_last().len() ==> '0' <= #[trigger] s.drop_last()[i] <= '9');
        lemma_digits_value_nonneg(s.drop_last());
    }
}

/// The position of the last colon, if the string has one.
fn find_last_colon(s: &str) -> (r: Option<usize>)
    ensures
        match r {
            Option::Some(i) => is_last_colon(s@, i as int),
            Option::None => forall|j: int| 0 <= j < s@.len() ==> s@[j] != ':',
        },
{
    let len = s.unicode_len();
    let mut k = len;
    while k > 0
        invariant
            0 <= k <= len,
            len == s@.len(),
            forall|j: int| k <= j < len ==> s@[j] != ':',
        decreases k,
    {
        k = k - 1;
        if s.get_char(k) == ':' {
            return Some(k);
        }
    }
    None
}

/// Parse the port out of an endpoint string, as the fabric reports one for
/// a bound socket.
pub fn endpoint_port(endpoint: &str) -> (r: Option<u16>)
    ensures
        r == spec_endpoint_port(endpoint@),
{
    let len = endpoint.unicode_len();
    let k = match find_last_colon(endpoint) {
        Option::None => {
            proof {
                if exists|i: int| is_last_colon(endpoint@, i) {
                    let i = choose|i: int| is_last_colon(endpoint@, i);
                    assert(endpoint@[i] == ':');
                }
            }
            return None;
        },
        Option::Some(k) => k,
    };
    proof {
        let w = choose|i: int| is_last_colon(endpoint@, i);
        assert(w == k as int) by {
            if w < k {
                assert(endpoint@[k as int] != ':');
            }
            if w > k {
                assert(endpoint@[w] != ':');
            }
        }
    }
    let ghost digits = endpoint@.skip(k + 1);
    if k + 1 == len {
        proof {
            assert(!spec_is_digits(digits));
        }
        return None;
    }
    let mut acc: u32 = 0;
    let mut j = k + 1;
    proof {
        assert(digits.take(0) =~= Seq::<char>::empty());
    }
    while j < len
        invariant
            k + 1 <= j <= len,
            k + 1 < len,
            k < len,
            len == endpoint@.len(),
            digits == endpoint@.skip(k + 1),
            is_last_colon(endpoint@, k as int),
            (choose|i: int| is_last_colon(endpoint@, i)) == k as int,
            acc <= 65535,
            acc == spec_digits_value(digits.take(j - (k + 1))),
            forall|i: int| 0 <= i < j - (k + 1) ==> '0' <= #[trigger] digits[i] <= '9',
        decreases len - j,
    {
        let c = endpoint.get_char(j);
        proof {
            assert(digits[j - (k + 1)] == endpoint@[j as int]);
        }
        if !('0' <= c && c <= '9') {
            proof {
                assert(!spec_is_digits(digits));
            }
            return None;
        }
        let d = (c as u32) - ('0' as u32);
        let next = acc * 10 + d;
        proof {
            assert(digits.take(j - (k + 1) + 1).drop_last() =~= digits.take(j - (k + 1)));
            assert(digits.take(j - (k + 1) + 1).last() == digits[j - (k + 1)]);
        }
        if next > 65535 {
            proof {
                if spec_is_digits(digits) {
                    lemma_digits_value_bounds(digits, j - (k + 1) + 1);
                }
            }
            return None;
        }
        acc = next;
        j = j + 1;
    }
    proof {
        assert(digits.take(len - (k + 1)) =~= digits);
        assert(spec_is_digits(digits));
    }
    Some(acc as u16)
}

} // verus!
