//! The `Range` header: its grammar, and its resolution against a resource length.
use vstd::prelude::*;

use crate::text::opt_view;

verus! {

pub open spec fn is_digit(c: char) -> bool {
    '0' <= c && c <= '9'
}

pub open spec fn all_digits(s: Seq<char>) -> bool {
    forall|i: int| 0 <= i < s.len() ==> is_digit(#[trigger] s[i])
}

pub open spec fn digit_value(c: char) -> nat {
    (c as u32 - '0' as u32) as nat
}

/// The number that a run of decimal digits denotes.
pub open spec fn decimal_value(s: Seq<char>) -> nat
    decreases s.len(),
{
    if s.len() == 0 {
        0
    } else {
        decimal_value(s.drop_last()) * 10 + digit_value(s.last())
    }
}

pub open spec fn units_prefix() -> Seq<char> {
    seq!['b', 'y', 't', 'e', 's', '=']
}

/// `k` is where the dash stands in a specifier `bytes=<digits>-<digits or nothing>`.
pub open spec fn dash_at(s: Seq<char>, k: int) -> bool {
    &&& 6 < k < s.len()
    &&& s.subrange(0, 6) == units_prefix()
    &&& s[k] == '-'
    &&& all_digits(s.subrange(6, k))
    &&& all_digits(s.subrange(k + 1, s.len() as int))
}

/// The bounds written in a specifier that follows the grammar, as unbounded numbers.
pub open spec fn written_bounds(s: Seq<char>) -> Option<(nat, Option<nat>)> {
    if exists|k: int| dash_at(s, k) {
        let k = choose|k: int| dash_at(s, k);
        let tail = s.subrange(k + 1, s.len() as int);
        Some(
            (
                decimal_value(s.subrange(6, k)),
                if tail.len() == 0 {
                    None
                } else {
                    Some(decimal_value(tail))
                },
            ),
        )
    } else {
        None
    }
}

/// The bounds of a specifier that parses: both fit in a `u64` and the end is not
/// below the start.
pub open spec fn range_request(s: Seq<char>) -> Option<(u64, Option<u64>)> {
    match written_bounds(s) {
        None => None,
        Some((start, end)) => {
            if start > u64::MAX {
                None
            } else {
                match end {
                    None => Some((start as u64, None)),
                    Some(e) => if e > u64::MAX || e < start {
                        None
                    } else {
                        Some((start as u64, Some(e as u64)))
                    },
                }
            }
        },
    }
}

/// An inclusive byte interval.
#[derive(Clone, Copy, Debug, PartialEq, Eq, Structural)]
pub struct ByteRange {
    pub start: u64,
    pub end: u64,
}

/// What a request asks of a resource of known length.
#[derive(Clone, Copy, Debug, PartialEq, Eq, Structural)]
pub enum RangeOutcome {
    Whole,
    Partial(ByteRange),
    NotSatisfiable,
}

/// Resolution: no specifier, or one that does not parse, asks for the whole resource;
/// a start at or past the end cannot be served; an end past the last byte, or none,
/// stands for the last byte.
pub open spec fn resolve_spec(spec: Option<Seq<char>>, total: nat) -> RangeOutcome {
    match spec {
        None => RangeOutcome::Whole,
        Some(s) => match range_request(s) {
            None => RangeOutcome::Whole,
            Some((start, end)) => {
                if start >= total {
                    RangeOutcome::NotSatisfiable
                } else {
                    let last: nat = match end {
                        Some(e) => if e < total {
                            e as nat
                        } else {
                            (total - 1) as nat
                        },
                        None => (total - 1) as nat,
                    };
                    RangeOutcome::Partial(ByteRange { start, end: last as u64 })
                }
            },
        },
    }
}

pub proof fn lemma_dash_unique(s: Seq<char>, k1: int, k2: int)
    requires
        dash_at(s, k1),
        dash_at(s, k2),
    ensures
        k1 == k2,
{
    if k1 < k2 {
        assert(s.subrange(6, k2)[k1 - 6] == s[k1]);
    } else if k2 < k1 {
        assert(s.subrange(6, k1)[k2 - 6] == s[k2]);
    }
}

proof fn lemma_prefix_value_le(s: Seq<char>, n: int)
    requires
        0 <= n <= s.len(),
    ensures
        decimal_value(s.subrange(0, n)) <= decimal_value(s),
    decreases s.len(),
{
    if n < s.len() {
        let t = s.drop_last();
        lemma_prefix_value_le(t, n);
        assert(t.subrange(0, n) =~= s.subrange(0, n));
    } else {
        assert(s.subrange(0, n) =~= s);
    }
}

fn is_digit_char(c: char) -> (r: bool)
    ensures
        r == is_digit(c),
{
    '0' <= c && c <= '9'
}

/// Reads the digits of `s` in `[from, to)` as a number, or `None` where it exceeds `u64`.
fn parse_decimal(s: &str, from: usize, to: usize) -> (r: Option<u64>)
    requires
        from <= to <= s@.len(),
        all_digits(s@.subrange(from as int, to as int)),
    ensures
        match r {
            Some(v) => v as nat == decimal_value(s@.subrange(from as int, to as int)),
            None => decimal_value(s@.subrange(from as int, to as int)) > u64::MAX,
        },
{
    let ghost whole = s@.subrange(from as int, to as int);
    let mut acc: u64 = 0;
    let mut i: usize = from;
    assert(s@.subrange(from as int, from as int) =~= Seq::<char>::empty());
    while i < to
        invariant
            from <= i <= to <= s@.len(),
            whole == s@.subrange(from as int, to as int),
            all_digits(whole),
            acc as nat == decimal_value(s@.subrange(from as int, i as int)),
        decreases to - i,
    {
        let c = s.get_char(i);
        let ghost next = s@.subrange(from as int, i + 1);
        assert(next.drop_last() =~= s@.subrange(from as int, i as int));
        assert(next.last() == c);
        assert(whole[i - from] == c);
        let d = (c as u32 - '0' as u32) as u64;
        assert(d as nat == digit_value(c));
        assert(decimal_value(next) == acc as nat * 10 + d as nat);
        proof {
            assert(whole.subrange(0, i + 1 - from) =~= next);
            lemma_prefix_value_le(whole, i + 1 - from);
        }
        match acc.checked_mul(10) {
            None => {
                return None;
            },
            Some(m) => match m.checked_add(d) {
                None => {
                    return None;
                },
                Some(v) => {
                    acc = v;
                },
            },
        }
        i = i + 1;
    }
    assert(s@.subrange(from as int, i as int) =~= whole);
    Some(acc)
}

/// Parses a specifier of the form `bytes=<start>-<end>?`, the whole text.
pub fn parse_range_spec(s: &str) -> (r: Option<(u64, Option<u64>)>)
    ensures
        r == range_request(s@),
{
    let n = s.unicode_len();
    if n < 8 {
        assert forall|k: int| !dash_at(s@, k) by {}
        return None;
    }
    proof {
        reveal_strlit("bytes=");
    }
    let prefix = "bytes=";
    let mut p: usize = 0;
    while p < 6
        invariant
            0 <= p <= 6,
            n == s@.len(),
            n >= 8,
            prefix@ == units_prefix(),
            s@.subrange(0, p as int) == units_prefix().subrange(0, p as int),
        decreases 6 - p,
    {
        if s.get_char(p) != prefix.get_char(p) {
            proof {
                assert forall|k: int| !dash_at(s@, k) by {
                    if dash_at(s@, k) {
                        assert(s@.subrange(0, 6)[p as int] == s@[p as int]);
                    }
                }
            }
            return None;
        }
        assert(s@.subrange(0, p + 1) =~= units_prefix().subrange(0, p + 1));
        p = p + 1;
    }
    assert(units_prefix().subrange(0, 6) =~= units_prefix());
    let mut i: usize = 6;
    while i < n && is_digit_char(s.get_char(i))
        invariant
            6 <= i <= n,
            n == s@.len(),
            s@.subrange(0, 6) == units_prefix(),
            all_digits(s@.subrange(6, i as int)),
        decreases n - i,
    {
        assert(s@.subrange(6, i + 1) =~= s@.subrange(6, i as int).push(s@[i as int]));
        i = i + 1;
    }
    if i == 6 || i >= n || s.get_char(i) != '-' {
        proof {
            assert forall|k: int| !dash_at(s@, k) by {
                if dash_at(s@, k) {
                    if i < k {
                        assert(s@.subrange(6, k)[i - 6] == s@[i as int]);
                    } else if k < i {
                        assert(s@.subrange(6, i as int)[k - 6] == s@[k]);
                    } else {
                        assert(s@.subrange(6, k)[0] == s@[6]);
                    }
                }
            }
        }
        return None;
    }
    let k = i;
    let mut j: usize = k + 1;
    while j < n
        invariant
            6 < k < n,
            k + 1 <= j <= n,
            n == s@.len(),
            s@[k as int] == '-',
            all_digits(s@.subrange(6, k as int)),
            all_digits(s@.subrange(k + 1, j as int)),
        decreases n - j,
    {
        if !is_digit_char(s.get_char(j)) {
            proof {
                assert forall|k2: int| !dash_at(s@, k2) by {
                    if dash_at(s@, k2) {
                        if k2 < k as int {
                            assert(s@.subrange(6, k as int)[k2 - 6] == s@[k2]);
                        } else if k < k2 {
                            assert(s@.subrange(6, k2)[k as int - 6] == s@[k as int]);
                        } else {
                            assert(s@.subrange(k + 1, n as int)[j as int - k - 1] == s@[j as int]);
                        }
                    }
                }
            }
            return None;
        }
        assert(s@.subrange(k + 1, j + 1) =~= s@.subrange(k + 1, j as int).push(s@[j as int]));
        j = j + 1;
    }
    assert(dash_at(s@, k as int));
    proof {
        let kc = choose|kc: int| dash_at(s@, kc);
        lemma_dash_unique(s@, kc, k as int);
    }
    let start = match parse_decimal(s, 6, k) {
        Some(v) => v,
        None => {
            return None;
        },
    };
    if k + 1 == n {
        assert(s@.subrange(k + 1, n as int).len() == 0);
        return Some((start, None));
    }
    match parse_decimal(s, k + 1, n) {
        Some(e) => {
            if e < start {
                None
            } else {
                Some((start, Some(e)))
            }
        },
        None => None,
    }
}

/// Resolves an optional specifier against a resource of `total_length` bytes.
pub fn resolve_range(spec: Option<&str>, total_length: u64) -> (r: RangeOutcome)
    ensures
        r == resolve_spec(opt_view(spec), total_length as nat),
        r matches RangeOutcome::Partial(b) ==> b.start <= b.end < total_length,
{
    match spec {
        None => RangeOutcome::Whole,
        Some(s) => match parse_range_spec(s) {
            None => RangeOutcome::Whole,
            Some((start, end)) => {
                if start >= total_length {
                    RangeOutcome::NotSatisfiable
                } else {
                    let last = match end {
                        Some(e) => if e < total_length {
                            e
                        } else {
                            total_length - 1
                        },
                        None => total_length - 1,
                    };
                    RangeOutcome::Partial(ByteRange { start, end: last })
                }
            },
        },
    }
}

} // verus!
