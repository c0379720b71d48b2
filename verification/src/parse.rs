//! Parsing of a URL-encoded query string into an `Options` record.
//!
//! The grammar: pairs are separated by `&`; a key runs to the first `&` or
//! `=`; a value runs from after `=` to the next `&`. Keys and values are
//! percent-decoded independently: `+` means space, `%HH` (either letter
//! case) means the encoded byte, and a malformed `%` sequence stands for
//! itself. A repeated key's later occurrence wins. An absent key, a key
//! without `=`, and an empty value all leave a field at its default; any
//! other text must parse exactly or the whole query is rejected.

use vstd::prelude::*;
use crate::color::{is_hex_upper, hex_val_upper, spec_parse_color, parse_color};
use crate::options::{Options, Ec, Format, Mode};

verus! {

pub const AMP: u8 = 38;

pub const EQUALS: u8 = 61;

pub const PLUS: u8 = 43;

pub const PERCENT: u8 = 37;

pub const SPACE: u8 = 32;

/// Whether a byte is a hexadecimal digit of either letter case, as accepted
/// inside a `%HH` escape.
pub open spec fn is_hex_any(b: u8) -> bool {
    is_hex_upper(b) || (97 <= b <= 102)
}

/// Numeric value of a hexadecimal digit of either letter case.
pub open spec fn hex_val_any(b: u8) -> int {
    if 97 <= b <= 102 {
        b - 87
    } else {
        hex_val_upper(b)
    }
}

/// Percent-decoding of one key or value: `+` becomes space, a valid `%HH`
/// escape becomes its byte, and everything else (a malformed escape
/// included) stands for itself. Decoding never fails.
pub open spec fn spec_pct_decode(s: Seq<u8>) -> Seq<u8>
    decreases s.len(),
{
    if s.len() == 0 {
        Seq::empty()
    } else if s[0] == PLUS {
        seq![SPACE] + spec_pct_decode(s.skip(1))
    } else if s[0] == PERCENT && s.len() >= 3 && is_hex_any(s[1]) && is_hex_any(s[2]) {
        seq![(hex_val_any(s[1]) * 16 + hex_val_any(s[2])) as u8] + spec_pct_decode(s.skip(3))
    } else {
        seq![s[0]] + spec_pct_decode(s.skip(1))
    }
}

/// Length of the key at the head of the text: the run of bytes before the
/// first `&` or `=`.
pub open spec fn key_len(s: Seq<u8>) -> nat
    decreases s.len(),
{
    if s.len() == 0 || s[0] == AMP || s[0] == EQUALS {
        0
    } else {
        1 + key_len(s.skip(1))
    }
}

/// Length of the value at the head of the text: the run of bytes before the
/// first `&`.
pub open spec fn val_len(s: Seq<u8>) -> nat
    decreases s.len(),
{
    if s.len() == 0 || s[0] == AMP {
        0
    } else {
        1 + val_len(s.skip(1))
    }
}

/// A scan that stops at position `n` with only non-delimiter bytes before it
/// has found exactly the key length.
pub proof fn lemma_key_len_at(s: Seq<u8>, n: int)
    requires
        0 <= n <= s.len(),
        forall|k: int| 0 <= k < n ==> s[k] != AMP && s[k] != EQUALS,
        n == s.len() || s[n] == AMP || s[n] == EQUALS,
    ensures
        key_len(s) == n,
    decreases n,
{
    if n == 0 {
    } else {
        lemma_key_len_at(s.skip(1), n - 1);
    }
}

/// The same, for a value scan that stops at the first `&`.
pub proof fn lemma_val_len_at(s: Seq<u8>, n: int)
    requires
        0 <= n <= s.len(),
        forall|k: int| 0 <= k < n ==> s[k] != AMP,
        n == s.len() || s[n] == AMP,
    ensures
        val_len(s) == n,
    decreases n,
{
    if n == 0 {
    } else {
        lemma_val_len_at(s.skip(1), n - 1);
    }
}

/// The decoded key/value pairs of a query string, in order of appearance.
/// A key without `=` carries no value.
pub open spec fn spec_pairs(s: Seq<u8>) -> Seq<(Seq<u8>, Option<Seq<u8>>)>
    decreases s.len(),
{
    if s.len() == 0 {
        Seq::empty()
    } else {
        let kl = if key_len(s) <= s.len() {
            key_len(s) as int
        } else {
            s.len() as int
        };
        let k = spec_pct_decode(s.take(kl));
        let rest = s.skip(kl);
        if rest.len() == 0 {
            seq![(k, Option::<Seq<u8>>::None)]
        } else if rest[0] == AMP {
            seq![(k, Option::<Seq<u8>>::None)] + spec_pairs(rest.skip(1))
        } else {
            let tail = rest.skip(1);
            let vl = if val_len(tail) <= tail.len() {
                val_len(tail) as int
            } else {
                tail.len() as int
            };
            let v = spec_pct_decode(tail.take(vl));
            if vl < tail.len() {
                seq![(k, Option::<Seq<u8>>::Some(v))] + spec_pairs(tail.skip(vl + 1))
            } else {
                seq![(k, Option::<Seq<u8>>::Some(v))]
            }
        }
    }
}

/// The value of the last pair carrying the given (decoded) key, if any.
pub open spec fn last_match(ps: Seq<(Seq<u8>, Option<Seq<u8>>)>, key: Seq<u8>) -> Option<
    Option<Seq<u8>>,
>
    decreases ps.len(),
{
    if ps.len() == 0 {
        None
    } else if ps.last().0 == key {
        Some(ps.last().1)
    } else {
        last_match(ps.drop_last(), key)
    }
}

/// What the query string assigns to a key: absent, present without a value,
/// or present with the decoded value text. A repeated key's last occurrence
/// wins.
pub open spec fn lookup(q: Seq<u8>, key: Seq<u8>) -> Option<Option<Seq<u8>>> {
    last_match(spec_pairs(q), key)
}

/// Percent-decodes `s[from..to]`.
pub fn pct_decode(s: &[u8], from: usize, to: usize) -> (r: Vec<u8>)
    requires
        0 <= from <= to <= s@.len(),
    ensures
        r@ == spec_pct_decode(s@.subrange(from as int, to as int)),
{
    let mut r: Vec<u8> = Vec::new();
    let mut c: usize = from;
    while c < to
        invariant
            from <= c <= to <= s@.len(),
            spec_pct_decode(s@.subrange(from as int, to as int)) == r@ + spec_pct_decode(
                s@.subrange(c as int, to as int),
            ),
        decreases to - c,
    {
        let ghost t = s@.subrange(c as int, to as int);
        let b = s[c];
        if b == PLUS {
            proof {
                assert(t.skip(1) =~= s@.subrange(c + 1, to as int));
                assert(r@ + spec_pct_decode(t) =~= r@.push(SPACE) + spec_pct_decode(t.skip(1)));
            }
            r.push(SPACE);
            c += 1;
        } else if b == PERCENT && to - c > 2 && is_hex_any_digit(s[c + 1]) && is_hex_any_digit(
            s[c + 2],
        ) {
            let d = hex_any_val(s[c + 1]) * 16 + hex_any_val(s[c + 2]);
            proof {
                assert(t.len() >= 3 && t[0] == PERCENT && t[1] == s@[c + 1] && t[2] == s@[c + 2]);
                assert(t.skip(3) =~= s@.subrange(c + 3, to as int));
                assert(d == (hex_val_any(t[1]) * 16 + hex_val_any(t[2])) as u8);
                assert(r@ + spec_pct_decode(t) =~= r@.push(d) + spec_pct_decode(t.skip(3)));
            }
            r.push(d);
            c += 3;
        } else {
            proof {
                assert(t[0] == b);
                assert(!(t[0] == PERCENT && t.len() >= 3 && is_hex_any(t[1]) && is_hex_any(t[2])));
                assert(t.skip(1) =~= s@.subrange(c + 1, to as int));
                assert(r@ + spec_pct_decode(t) =~= r@.push(b) + spec_pct_decode(t.skip(1)));
            }
            r.push(b);
            c += 1;
        }
    }
    proof {
        assert(s@.subrange(c as int, to as int) =~= Seq::<u8>::empty());
        assert(r@ + spec_pct_decode(s@.subrange(c as int, to as int)) =~= r@);
    }
    r
}

/// Whether a byte is a hexadecimal digit of either letter case.
fn is_hex_any_digit(b: u8) -> (r: bool)
    ensures
        r == is_hex_any(b),
{
    (48 <= b && b <= 57) || (65 <= b && b <= 70) || (97 <= b && b <= 102)
}

/// Numeric value of a hexadecimal digit of either letter case.
fn hex_any_val(b: u8) -> (r: u8)
    requires
        is_hex_any(b),
    ensures
        r == hex_val_any(b),
{
    if b <= 57 {
        b - 48
    } else if b <= 70 {
        b - 55
    } else {
        b - 87
    }
}

/// The pairs of a pair list as mathematical values.
pub open spec fn pairs_view(ps: Seq<(Vec<u8>, Option<Vec<u8>>)>) -> Seq<(Seq<u8>, Option<Seq<u8>>)> {
    ps.map(
        |i: int, p: (Vec<u8>, Option<Vec<u8>>)|
            (
                p.0@,
                match p.1 {
                    Some(v) => Some(v@),
                    None => None,
                },
            ),
    )
}

/// Splits a query string into its decoded key/value pairs, in order.
pub fn split_pairs(q: &[u8]) -> (r: Vec<(Vec<u8>, Option<Vec<u8>>)>)
    ensures
        pairs_view(r@) == spec_pairs(q@),
{
    let mut out: Vec<(Vec<u8>, Option<Vec<u8>>)> = Vec::new();
    let mut i: usize = 0;
    proof {
        assert(q@.skip(0) =~= q@);
        assert(pairs_view(out@) + spec_pairs(q@) =~= spec_pairs(q@));
    }
    while i < q.len()
        invariant
            0 <= i <= q@.len(),
            spec_pairs(q@) == pairs_view(out@) + spec_pairs(q@.skip(i as int)),
        decreases q@.len() - i,
    {
        let ghost t = q@.skip(i as int);
        let mut j: usize = i;
        while j < q.len() && q[j] != AMP && q[j] != EQUALS
            invariant
                i <= j <= q@.len(),
                forall|k: int| i <= k < j ==> q@[k] != AMP && q@[k] != EQUALS,
            decreases q@.len() - j,
        {
            j += 1;
        }
        proof {
            assert(forall|k: int|
                0 <= k < j - i ==> t[k] == q@[i + k] && t[k] != AMP && t[k] != EQUALS);
            lemma_key_len_at(t, j - i);
            assert(t.take(j - i) =~= q@.subrange(i as int, j as int));
        }
        let key = pct_decode(q, i, j);
        if j >= q.len() {
            proof {
                assert(t.skip(j - i).len() == 0);
                assert(spec_pairs(t) =~= seq![(key@, Option::<Seq<u8>>::None)]);
            }
            out.push((key, None));
            proof {
                assert(pairs_view(out@) =~= pairs_view(out@.drop_last()) + spec_pairs(t));
                assert(spec_pairs(q@.skip(q@.len() as int)) =~= Seq::<
                    (Seq<u8>, Option<Seq<u8>>),
                >::empty());
                assert(pairs_view(out@) + spec_pairs(q@.skip(q@.len() as int)) =~= pairs_view(
                    out@,
                ));
            }
            i = q.len();
        } else if q[j] == AMP {
            proof {
                let rest = t.skip(j - i);
                assert(rest[0] == q@[j as int]);
                assert(rest.skip(1) =~= q@.skip(j + 1));
                assert(spec_pairs(t) =~= seq![(key@, Option::<Seq<u8>>::None)] + spec_pairs(
                    q@.skip(j + 1),
                ));
            }
            out.push((key, None));
            proof {
                assert(pairs_view(out@) =~= pairs_view(out@.drop_last()).push(
                    (out@.last().0@, Option::<Seq<u8>>::None),
                ));
                assert(pairs_view(out@) + spec_pairs(q@.skip(j + 1)) =~= pairs_view(
                    out@.drop_last(),
                ) + spec_pairs(t));
            }
            i = j + 1;
        } else {
            let vstart = j + 1;
            let mut m: usize = vstart;
            while m < q.len() && q[m] != AMP
                invariant
                    vstart <= m <= q@.len(),
                    forall|k: int| vstart <= k < m ==> q@[k] != AMP,
                decreases q@.len() - m,
            {
                m += 1;
            }
            let ghost tail = t.skip(j - i).skip(1);
            proof {
                assert(t.skip(j - i)[0] == q@[j as int]);
                assert(tail =~= q@.skip(vstart as int));
                assert(forall|k: int| 0 <= k < m - vstart ==> tail[k] == q@[vstart + k]);
                lemma_val_len_at(tail, m - vstart);
                assert(tail.take(m - vstart) =~= q@.subrange(vstart as int, m as int));
            }
            let value = pct_decode(q, vstart, m);
            let entry_val = Some(value);
            if m < q.len() {
                proof {
                    assert(tail.skip(m - vstart + 1) =~= q@.skip(m + 1));
                    assert(spec_pairs(t) =~= seq![
                        (key@, Option::<Seq<u8>>::Some(spec_pct_decode(q@.subrange(vstart as int, m as int)))),
                    ] + spec_pairs(q@.skip(m + 1)));
                }
                out.push((key, entry_val));
                proof {
                    assert(pairs_view(out@) + spec_pairs(q@.skip(m + 1)) =~= pairs_view(
                        out@.drop_last(),
                    ) + spec_pairs(t));
                }
                i = m + 1;
            } else {
                proof {
                    assert(spec_pairs(t) =~= seq![
                        (key@, Option::<Seq<u8>>::Some(spec_pct_decode(q@.subrange(vstart as int, m as int)))),
                    ]);
                }
                out.push((key, entry_val));
                proof {
                    assert(spec_pairs(q@.skip(q@.len() as int)) =~= Seq::<
                        (Seq<u8>, Option<Seq<u8>>),
                    >::empty());
                    assert(pairs_view(out@) =~= pairs_view(out@.drop_last()) + spec_pairs(t));
                    assert(pairs_view(out@) + spec_pairs(q@.skip(q@.len() as int)) =~= pairs_view(
                        out@,
                    ));
                }
                i = q.len();
            }
        }
    }
    proof {
        assert(q@.skip(i as int) =~= Seq::<u8>::empty());
        assert(pairs_view(out@) + spec_pairs(q@.skip(i as int)) =~= pairs_view(out@));
    }
    out
}


/// Whether every byte is a decimal digit.
pub open spec fn all_digits(s: Seq<u8>) -> bool {
    forall|i: int| 0 <= i < s.len() ==> 48 <= #[trigger] s[i] <= 57
}

/// The number the decimal digits denote.
pub open spec fn dec_val(s: Seq<u8>) -> int
    decreases s.len(),
{
    if s.len() == 0 {
        0
    } else {
        dec_val(s.drop_last()) * 10 + (s.last() - 48)
    }
}

pub proof fn lemma_dec_val_nonneg(s: Seq<u8>)
    requires
        all_digits(s),
    ensures
        dec_val(s) >= 0,
    decreases s.len(),
{
    if s.len() > 0 {
        assert(all_digits(s.drop_last()));
        lemma_dec_val_nonneg(s.drop_last());
    }
}

/// A digit string's value never falls when more digits follow.
pub proof fn lemma_dec_val_grow(s: Seq<u8>, i: int)
    requires
        0 <= i <= s.len(),
        all_digits(s),
    ensures
        dec_val(s) >= dec_val(s.take(i)),
    decreases s.len() - i,
{
    if i == s.len() {
        assert(s.take(i) =~= s);
    } else {
        assert(all_digits(s.take(i)));
        lemma_dec_val_nonneg(s.take(i));
        assert(s.take(i + 1).drop_last() =~= s.take(i));
        assert(dec_val(s.take(i + 1)) >= dec_val(s.take(i)));
        lemma_dec_val_grow(s, i + 1);
    }
}

/// The number denoted by the digits of `s` from `start` on: defined when
/// there is at least one digit, nothing else follows, and the value fits.
fn parse_digits(s: &[u8], start: usize) -> (r: Option<u32>)
    requires
        start <= s@.len(),
    ensures
        r is Some <==> (start < s@.len() && all_digits(s@.skip(start as int)) && dec_val(
            s@.skip(start as int),
        ) <= u32::MAX),
        r matches Some(v) ==> v == dec_val(s@.skip(start as int)),
{
    let ghost t = s@.skip(start as int);
    if start == s.len() {
        return None;
    }
    let mut acc: u32 = 0;
    let mut i: usize = start;
    proof {
        assert(t.take(0) =~= Seq::<u8>::empty());
    }
    while i < s.len()
        invariant
            start <= i <= s@.len(),
            t == s@.skip(start as int),
            all_digits(t.take(i - start)),
            acc == dec_val(t.take(i - start)),
        decreases s@.len() - i,
    {
        let b = s[i];
        proof {
            assert(t[i - start] == s@[i as int]);
        }
        if !(48 <= b && b <= 57) {
            proof {
                assert(!all_digits(t));
            }
            return None;
        }
        let d = b - 48;
        proof {
            assert(t.take(i - start + 1).drop_last() =~= t.take(i - start));
            assert(t.take(i - start + 1).last() == b);
            assert(dec_val(t.take(i - start + 1)) == acc * 10 + d);
        }
        if acc > u32::MAX / 10 || (acc == u32::MAX / 10 && d > 5) {
            proof {
                assert(dec_val(t.take(i - start + 1)) > u32::MAX);
                if all_digits(t) {
                    lemma_dec_val_grow(t, i - start + 1);
                }
            }
            return None;
        }
        acc = acc * 10 + d as u32;
        i += 1;
    }
    proof {
        assert(t.take(i - start) =~= t);
    }
    Some(acc)
}

/// The unsigned number a width field's text denotes: an optional `+` sign,
/// then decimal digits whose value fits.
pub open spec fn spec_parse_u32(s: Seq<u8>) -> Option<u32> {
    let t = if s.len() > 0 && s[0] == 43 {
        s.skip(1)
    } else {
        s
    };
    if t.len() > 0 && all_digits(t) && dec_val(t) <= u32::MAX {
        Some(dec_val(t) as u32)
    } else {
        None
    }
}

/// The signed number a version field's text denotes: an optional sign, then
/// decimal digits whose value fits.
pub open spec fn spec_parse_i16(s: Seq<u8>) -> Option<i16> {
    if s.len() > 0 && s[0] == 45 {
        let t = s.skip(1);
        if t.len() > 0 && all_digits(t) && dec_val(t) <= 32768 {
            Some((-dec_val(t)) as i16)
        } else {
            None
        }
    } else {
        let t = if s.len() > 0 && s[0] == 43 {
            s.skip(1)
        } else {
            s
        };
        if t.len() > 0 && all_digits(t) && dec_val(t) <= i16::MAX {
            Some(dec_val(t) as i16)
        } else {
            None
        }
    }
}

/// Parses a width field's text.
pub fn parse_u32_bytes(s: &[u8]) -> (r: Option<u32>)
    ensures
        r == spec_parse_u32(s@),
{
    let start: usize = if s.len() > 0 && s[0] == 43 {
        1
    } else {
        0
    };
    proof {
        if start == 0 {
            assert(s@.skip(0) =~= s@);
        }
    }
    parse_digits(s, start)
}

/// Parses a version field's text.
pub fn parse_i16_bytes(s: &[u8]) -> (r: Option<i16>)
    ensures
        r == spec_parse_i16(s@),
{
    if s.len() > 0 && s[0] == 45 {
        match parse_digits(s, 1) {
            Some(v) => {
                if v <= 32768 {
                    proof {
                        assert(-(v as int) >= i16::MIN);
                    }
                    Some((-(v as i32)) as i16)
                } else {
                    None
                }
            },
            None => {
                proof {
                    lemma_dec_val_nonneg_weak(s@.skip(1));
                }
                None
            },
        }
    } else {
        let start: usize = if s.len() > 0 && s[0] == 43 {
            1
        } else {
            0
        };
        proof {
            if start == 0 {
                assert(s@.skip(0) =~= s@);
            }
        }
        match parse_digits(s, start) {
            Some(v) => {
                if v <= 32767 {
                    Some(v as i16)
                } else {
                    None
                }
            },
            None => {
                proof {
                    lemma_dec_val_nonneg_weak(s@.skip(start as int));
                }
                None
            },
        }
    }
}

/// A digit string's value is nonnegative (trivially true of the empty or
/// non-digit string as well, by case).
proof fn lemma_dec_val_nonneg_weak(s: Seq<u8>)
    ensures
        all_digits(s) ==> dec_val(s) >= 0,
{
    if all_digits(s) {
        lemma_dec_val_nonneg(s);
    }
}

pub open spec fn key_width() -> Seq<u8> {
    seq![119u8, 105u8, 100u8, 116u8, 104u8]
}

pub open spec fn key_fg() -> Seq<u8> {
    seq![102u8, 103u8]
}

pub open spec fn key_bg() -> Seq<u8> {
    seq![98u8, 103u8]
}

pub open spec fn key_ec() -> Seq<u8> {
    seq![101u8, 99u8]
}

pub open spec fn key_version() -> Seq<u8> {
    seq![118u8, 101u8, 114u8, 115u8, 105u8, 111u8, 110u8]
}

pub open spec fn key_format() -> Seq<u8> {
    seq![102u8, 111u8, 114u8, 109u8, 97u8, 116u8]
}

pub open spec fn key_mode() -> Seq<u8> {
    seq![109u8, 111u8, 100u8, 101u8]
}

/// The error-correction level a token denotes.
pub open spec fn spec_parse_ec(s: Seq<u8>) -> Option<Ec> {
    if s == seq![76u8] {
        Some(Ec::L)
    } else if s == seq![77u8] {
        Some(Ec::M)
    } else if s == seq![81u8] {
        Some(Ec::Q)
    } else if s == seq![72u8] {
        Some(Ec::H)
    } else {
        None
    }
}

/// The output format a token denotes.
pub open spec fn spec_parse_format(s: Seq<u8>) -> Option<Format> {
    if s == seq![80u8, 110u8, 103u8] {
        Some(Format::Png)
    } else if s == seq![65u8, 118u8, 105u8, 102u8] {
        Some(Format::Avif)
    } else if s == seq![83u8, 118u8, 103u8] {
        Some(Format::Svg)
    } else {
        None
    }
}

/// The sizing mode a token denotes.
pub open spec fn spec_parse_mode(s: Seq<u8>) -> Option<Mode> {
    if s == seq![65u8, 117u8, 116u8, 111u8] {
        Some(Mode::Auto)
    } else if s == seq![83u8, 116u8, 97u8, 110u8, 100u8, 97u8, 114u8, 100u8] {
        Some(Mode::Standard)
    } else if s == seq![77u8, 105u8, 99u8, 114u8, 111u8] {
        Some(Mode::Micro)
    } else {
        None
    }
}

/// Parses an error-correction token (`L`, `M`, `Q` or `H`).
pub fn parse_ec_token(s: &[u8]) -> (r: Option<Ec>)
    ensures
        r == spec_parse_ec(s@),
{
    if s.len() == 1 {
        let b = s[0];
        if b == 76 {
            proof {
                assert(s@ =~= seq![76u8]);
            }
            Some(Ec::L)
        } else if b == 77 {
            proof {
                assert(s@ =~= seq![77u8]);
            }
            Some(Ec::M)
        } else if b == 81 {
            proof {
                assert(s@ =~= seq![81u8]);
            }
            Some(Ec::Q)
        } else if b == 72 {
            proof {
                assert(s@ =~= seq![72u8]);
            }
            Some(Ec::H)
        } else {
            None
        }
    } else {
        None
    }
}

/// Parses a format token (`Png`, `Avif` or `Svg`).
pub fn parse_format_token(s: &[u8]) -> (r: Option<Format>)
    ensures
        r == spec_parse_format(s@),
{
    if s.len() == 3 && s[0] == 80 && s[1] == 110 && s[2] == 103 {
        proof {
            assert(s@ =~= seq![80u8, 110u8, 103u8]);
        }
        Some(Format::Png)
    } else if s.len() == 4 && s[0] == 65 && s[1] == 118 && s[2] == 105 && s[3] == 102 {
        proof {
            assert(s@ =~= seq![65u8, 118u8, 105u8, 102u8]);
        }
        Some(Format::Avif)
    } else if s.len() == 3 && s[0] == 83 && s[1] == 118 && s[2] == 103 {
        proof {
            assert(s@ =~= seq![83u8, 118u8, 103u8]);
        }
        Some(Format::Svg)
    } else {
        None
    }
}

/// Parses a mode token (`Auto`, `Standard` or `Micro`).
pub fn parse_mode_token(s: &[u8]) -> (r: Option<Mode>)
    ensures
        r == spec_parse_mode(s@),
{
    if s.len() == 4 && s[0] == 65 && s[1] == 117 && s[2] == 116 && s[3] == 111 {
        proof {
            assert(s@ =~= seq![65u8, 117u8, 116u8, 111u8]);
        }
        Some(Mode::Auto)
    } else if s.len() == 8 && s[0] == 83 && s[1] == 116 && s[2] == 97 && s[3] == 110 && s[4] == 100
        && s[5] == 97 && s[6] == 114 && s[7] == 100 {
        proof {
            assert(s@ =~= seq![83u8, 116u8, 97u8, 110u8, 100u8, 97u8, 114u8, 100u8]);
        }
        Some(Mode::Standard)
    } else if s.len() == 5 && s[0] == 77 && s[1] == 105 && s[2] == 99 && s[3] == 114 && s[4] == 111 {
        proof {
            assert(s@ =~= seq![77u8, 105u8, 99u8, 114u8, 111u8]);
        }
        Some(Mode::Micro)
    } else {
        None
    }
}


/// The text of an optional-valued field: an absent key, a key without `=`,
/// and an empty value all count as "not given".
pub open spec fn field_text(q: Seq<u8>, key: Seq<u8>) -> Option<Seq<u8>> {
    match lookup(q, key) {
        None => None,
        Some(vo) => match vo {
            None => None,
            Some(v) => if v.len() == 0 {
                None
            } else {
                Some(v)
            },
        },
    }
}

/// The token of an enum-valued field: an absent key means the default; a
/// key without a value carries the empty (hence invalid) token.
pub open spec fn enum_token(q: Seq<u8>, key: Seq<u8>) -> Option<Seq<u8>> {
    match lookup(q, key) {
        None => None,
        Some(vo) => match vo {
            None => Some(Seq::empty()),
            Some(v) => Some(v),
        },
    }
}

/// The parsed width field; `None` means the field's text is invalid.
pub open spec fn spec_width_field(q: Seq<u8>) -> Option<Option<u32>> {
    match field_text(q, key_width()) {
        None => Some(None),
        Some(s) => match spec_parse_u32(s) {
            Some(v) => Some(Some(v)),
            None => None,
        },
    }
}

/// The parsed foreground color field.
pub open spec fn spec_fg_field(q: Seq<u8>) -> Option<Option<Seq<u8>>> {
    match field_text(q, key_fg()) {
        None => Some(None),
        Some(s) => match spec_parse_color(s) {
            Some(c) => Some(Some(c)),
            None => None,
        },
    }
}

/// The parsed background color field.
pub open spec fn spec_bg_field(q: Seq<u8>) -> Option<Option<Seq<u8>>> {
    match field_text(q, key_bg()) {
        None => Some(None),
        Some(s) => match spec_parse_color(s) {
            Some(c) => Some(Some(c)),
            None => None,
        },
    }
}

/// The parsed error-correction field, defaulting to M.
pub open spec fn spec_ec_field(q: Seq<u8>) -> Option<Ec> {
    match enum_token(q, key_ec()) {
        None => Some(Ec::M),
        Some(t) => spec_parse_ec(t),
    }
}

/// The parsed version field.
pub open spec fn spec_version_field(q: Seq<u8>) -> Option<Option<i16>> {
    match field_text(q, key_version()) {
        None => Some(None),
        Some(s) => match spec_parse_i16(s) {
            Some(v) => Some(Some(v)),
            None => None,
        },
    }
}

/// The parsed format field, defaulting to PNG.
pub open spec fn spec_format_field(q: Seq<u8>) -> Option<Format> {
    match enum_token(q, key_format()) {
        None => Some(Format::Png),
        Some(t) => spec_parse_format(t),
    }
}

/// The parsed mode field, defaulting to Auto.
pub open spec fn spec_mode_field(q: Seq<u8>) -> Option<Mode> {
    match enum_token(q, key_mode()) {
        None => Some(Mode::Auto),
        Some(t) => spec_parse_mode(t),
    }
}

/// Why a query string was rejected.
#[derive(Copy, Clone, Debug, PartialEq, Eq, Structural)]
pub enum ParseError {
    /// The width field is not a decimal number that fits.
    Width,
    /// The foreground color is not eight uppercase hexadecimal digits.
    Fg,
    /// The background color is not eight uppercase hexadecimal digits.
    Bg,
    /// The error-correction field is not one of `L`, `M`, `Q`, `H`.
    Ec,
    /// The version field is not a decimal number that fits.
    Version,
    /// The format field is not one of `Png`, `Avif`, `Svg`.
    Format,
    /// The mode field is not one of `Auto`, `Standard`, `Micro`.
    Mode,
}

/// The first invalid field of a query string, in field order, if any.
pub open spec fn spec_parse_error(q: Seq<u8>) -> Option<ParseError> {
    if spec_width_field(q) is None {
        Some(ParseError::Width)
    } else if spec_fg_field(q) is None {
        Some(ParseError::Fg)
    } else if spec_bg_field(q) is None {
        Some(ParseError::Bg)
    } else if spec_ec_field(q) is None {
        Some(ParseError::Ec)
    } else if spec_version_field(q) is None {
        Some(ParseError::Version)
    } else if spec_format_field(q) is None {
        Some(ParseError::Format)
    } else if spec_mode_field(q) is None {
        Some(ParseError::Mode)
    } else {
        None
    }
}

/// Whether an options record is exactly what the query string denotes.
pub open spec fn spec_options_ok(q: Seq<u8>, o: Options) -> bool {
    &&& spec_width_field(q) == Some(o.width)
    &&& match o.fg {
        Some(c) => spec_fg_field(q) == Some(Some(c@)),
        None => spec_fg_field(q) == Some(Option::<Seq<u8>>::None),
    }
    &&& match o.bg {
        Some(c) => spec_bg_field(q) == Some(Some(c@)),
        None => spec_bg_field(q) == Some(Option::<Seq<u8>>::None),
    }
    &&& spec_ec_field(q) == Some(o.ec)
    &&& spec_version_field(q) == Some(o.version)
    &&& spec_format_field(q) == Some(o.format)
    &&& spec_mode_field(q) == Some(o.mode)
}

/// A slot during the last-wins scan, as a mathematical value.
pub open spec fn slot_view(s: Option<Option<Vec<u8>>>) -> Option<Option<Seq<u8>>> {
    match s {
        None => None,
        Some(vo) => match vo {
            None => Some(None),
            Some(v) => Some(Some(v@)),
        },
    }
}

/// Which known key a decoded key is: `1` width, `2` fg, `3` bg, `4` ec,
/// `5` version, `6` format, `7` mode, `0` any other (ignored) key.
fn key_code(k: &Vec<u8>) -> (r: u8)
    ensures
        (r == 1) == (k@ == key_width()),
        (r == 2) == (k@ == key_fg()),
        (r == 3) == (k@ == key_bg()),
        (r == 4) == (k@ == key_ec()),
        (r == 5) == (k@ == key_version()),
        (r == 6) == (k@ == key_format()),
        (r == 7) == (k@ == key_mode()),
        r <= 7,
{
    if k.len() == 5 && k[0] == 119 && k[1] == 105 && k[2] == 100 && k[3]
        == 116 && k[4] == 104 {
        proof {
            assert(k@ =~= key_width());
        }
        1
    } else if k.len() == 2 && k[0] == 102 && k[1] == 103 {
        proof {
            assert(k@ =~= key_fg());
        }
        2
    } else if k.len() == 2 && k[0] == 98 && k[1] == 103 {
        proof {
            assert(k@ =~= key_bg());
        }
        3
    } else if k.len() == 2 && k[0] == 101 && k[1] == 99 {
        proof {
            assert(k@ =~= key_ec());
        }
        4
    } else if k.len() == 7 && k[0] == 118 && k[1] == 101 && k[2] == 114
        && k[3] == 115 && k[4] == 105 && k[5] == 111 && k[6] == 110 {
        proof {
            assert(k@ =~= key_version());
        }
        5
    } else if k.len() == 6 && k[0] == 102 && k[1] == 111 && k[2] == 114
        && k[3] == 109 && k[4] == 97 && k[5] == 116 {
        proof {
            assert(k@ =~= key_format());
        }
        6
    } else if k.len() == 4 && k[0] == 109 && k[1] == 111 && k[2] == 100
        && k[3] == 101 {
        proof {
            assert(k@ =~= key_mode());
        }
        7
    } else {
        0
    }
}

/// Copies a pair's value for a slot.
fn clone_value(v: &Option<Vec<u8>>) -> (r: Option<Vec<u8>>)
    ensures
        slot_view(Some(r)) == Some(
            match *v {
                Some(ref w) => Some(w@),
                None => Option::<Seq<u8>>::None,
            },
        ),
{
    match v {
        Some(w) => {
            let mut c: Vec<u8> = Vec::new();
            let mut i: usize = 0;
            while i < w.len()
                invariant
                    i <= w@.len(),
                    c@ == w@.take(i as int),
                decreases w@.len() - i,
            {
                let b = w[i];
                c.push(b);
                proof {
                    assert(c@ =~= w@.take(i + 1));
                }
                i += 1;
            }
            proof {
                assert(c@ =~= w@);
            }
            Some(c)
        },
        None => None,
    }
}

/// Parses a URL-encoded query string into an options record, or reports the
/// first invalid field. Absent fields take their documented defaults, so an
/// empty query string always succeeds.
pub fn parse_options(q: &[u8]) -> (r: Result<Options, ParseError>)
    ensures
        r is Ok <==> spec_parse_error(q@) is None,
        r matches Err(e) ==> spec_parse_error(q@) == Some(e),
        r matches Ok(o) ==> spec_options_ok(q@, o),
{
    let pairs = split_pairs(q);
    let ghost pv = pairs_view(pairs@);
    let mut s_width: Option<Option<Vec<u8>>> = None;
    let mut s_fg: Option<Option<Vec<u8>>> = None;
    let mut s_bg: Option<Option<Vec<u8>>> = None;
    let mut s_ec: Option<Option<Vec<u8>>> = None;
    let mut s_version: Option<Option<Vec<u8>>> = None;
    let mut s_format: Option<Option<Vec<u8>>> = None;
    let mut s_mode: Option<Option<Vec<u8>>> = None;
    let mut idx: usize = 0;
    proof {
        assert(pv.take(0) =~= Seq::<(Seq<u8>, Option<Seq<u8>>)>::empty());
    }
    while idx < pairs.len()
        invariant
            idx <= pairs@.len(),
            pv == pairs_view(pairs@),
            slot_view(s_width) == last_match(pv.take(idx as int), key_width()),
            slot_view(s_fg) == last_match(pv.take(idx as int), key_fg()),
            slot_view(s_bg) == last_match(pv.take(idx as int), key_bg()),
            slot_view(s_ec) == last_match(pv.take(idx as int), key_ec()),
            slot_view(s_version) == last_match(pv.take(idx as int), key_version()),
            slot_view(s_format) == last_match(pv.take(idx as int), key_format()),
            slot_view(s_mode) == last_match(pv.take(idx as int), key_mode()),
        decreases pairs@.len() - idx,
    {
        let p = &pairs[idx];
        let code = key_code(&p.0);
        proof {
            assert(pv.take(idx + 1).drop_last() =~= pv.take(idx as int));
            assert(pv.take(idx + 1).last() == pv[idx as int]);
            assert(pv[idx as int].0 == p.0@);
        }
        if code == 1 {
            s_width = Some(clone_value(&p.1));
        } else if code == 2 {
            s_fg = Some(clone_value(&p.1));
        } else if code == 3 {
            s_bg = Some(clone_value(&p.1));
        } else if code == 4 {
            s_ec = Some(clone_value(&p.1));
        } else if code == 5 {
            s_version = Some(clone_value(&p.1));
        } else if code == 6 {
            s_format = Some(clone_value(&p.1));
        } else if code == 7 {
            s_mode = Some(clone_value(&p.1));
        }
        idx += 1;
    }
    proof {
        assert(pv.take(pairs@.len() as int) =~= pv);
    }
    let width: Option<u32> = match &s_width {
        None => None,
        Some(vo) => match vo {
            None => None,
            Some(v) => {
                if v.len() == 0 {
                    None
                } else {
                    match parse_u32_bytes(v.as_slice()) {
                        Some(w) => Some(w),
                        None => {
                            return Err(ParseError::Width);
                        },
                    }
                }
            },
        },
    };
    let fg: Option<[u8; 4]> = match &s_fg {
        None => None,
        Some(vo) => match vo {
            None => None,
            Some(v) => {
                if v.len() == 0 {
                    None
                } else {
                    match parse_color(v.as_slice()) {
                        Some(c) => Some(c),
                        None => {
                            return Err(ParseError::Fg);
                        },
                    }
                }
            },
        },
    };
    let bg: Option<[u8; 4]> = match &s_bg {
        None => None,
        Some(vo) => match vo {
            None => None,
            Some(v) => {
                if v.len() == 0 {
                    None
                } else {
                    match parse_color(v.as_slice()) {
                        Some(c) => Some(c),
                        None => {
                            return Err(ParseError::Bg);
                        },
                    }
                }
            },
        },
    };
    let ec: Ec = match &s_ec {
        None => Ec::M,
        Some(vo) => {
            let parsed = match vo {
                None => {
                    proof {
                        assert(Seq::<u8>::empty() !~= seq![76u8]);
                        assert(Seq::<u8>::empty() !~= seq![77u8]);
                        assert(Seq::<u8>::empty() !~= seq![81u8]);
                        assert(Seq::<u8>::empty() !~= seq![72u8]);
                    }
                    None
                },
                Some(v) => parse_ec_token(v.as_slice()),
            };
            match parsed {
                Some(e) => e,
                None => {
                    return Err(ParseError::Ec);
                },
            }
        },
    };
    let version: Option<i16> = match &s_version {
        None => None,
        Some(vo) => match vo {
            None => None,
            Some(v) => {
                if v.len() == 0 {
                    None
                } else {
                    match parse_i16_bytes(v.as_slice()) {
                        Some(w) => Some(w),
                        None => {
                            return Err(ParseError::Version);
                        },
                    }
                }
            },
        },
    };
    let format: Format = match &s_format {
        None => Format::Png,
        Some(vo) => {
            let parsed = match vo {
                None => {
                    proof {
                        assert(Seq::<u8>::empty() !~= seq![80u8, 110u8, 103u8]);
                        assert(Seq::<u8>::empty() !~= seq![65u8, 118u8, 105u8, 102u8]);
                        assert(Seq::<u8>::empty() !~= seq![83u8, 118u8, 103u8]);
                    }
                    None
                },
                Some(v) => parse_format_token(v.as_slice()),
            };
            match parsed {
                Some(f) => f,
                None => {
                    return Err(ParseError::Format);
                },
            }
        },
    };
    let mode: Mode = match &s_mode {
        None => Mode::Auto,
        Some(vo) => {
            let parsed = match vo {
                None => {
                    proof {
                        assert(Seq::<u8>::empty() !~= seq![65u8, 117u8, 116u8, 111u8]);
                        assert(Seq::<u8>::empty() !~= seq![
                            83u8,
                            116u8,
                            97u8,
                            110u8,
                            100u8,
                            97u8,
                            114u8,
                            100u8,
                        ]);
                        assert(Seq::<u8>::empty() !~= seq![77u8, 105u8, 99u8, 114u8, 111u8]);
                    }
                    None
                },
                Some(v) => parse_mode_token(v.as_slice()),
            };
            match parsed {
                Some(m) => m,
                None => {
                    return Err(ParseError::Mode);
                },
            }
        },
    };
    Ok(Options { width, fg, bg, ec, version, format, mode })
}


/// Law: a query string that names none of the option fields parses, and
/// every field takes its documented default (width 256 after clamping,
/// level M, format PNG, mode Auto, no explicit colors or version).
pub proof fn lemma_omitted_fields_default(q: Seq<u8>)
    requires
        lookup(q, key_width()) is None,
        lookup(q, key_fg()) is None,
        lookup(q, key_bg()) is None,
        lookup(q, key_ec()) is None,
        lookup(q, key_version()) is None,
        lookup(q, key_format()) is None,
        lookup(q, key_mode()) is None,
    ensures
        spec_parse_error(q) is None,
        spec_width_field(q) == Some(Option::<u32>::None),
        spec_fg_field(q) == Some(Option::<Seq<u8>>::None),
        spec_bg_field(q) == Some(Option::<Seq<u8>>::None),
        spec_ec_field(q) == Some(Ec::M),
        spec_version_field(q) == Some(Option::<i16>::None),
        spec_format_field(q) == Some(Format::Png),
        spec_mode_field(q) == Some(Mode::Auto),
        crate::options::spec_effective_width(spec_width_field(q).unwrap())
            == crate::options::DEFAULT_WIDTH,
{
}

/// Law: the empty query string names no field at all, so it parses to the
/// documented defaults.
pub proof fn lemma_empty_query_defaults()
    ensures
        spec_parse_error(Seq::<u8>::empty()) is None,
        spec_width_field(Seq::<u8>::empty()) == Some(Option::<u32>::None),
        spec_ec_field(Seq::<u8>::empty()) == Some(Ec::M),
        spec_format_field(Seq::<u8>::empty()) == Some(Format::Png),
        spec_mode_field(Seq::<u8>::empty()) == Some(Mode::Auto),
{
    assert(spec_pairs(Seq::<u8>::empty()) =~= Seq::<(Seq<u8>, Option<Seq<u8>>)>::empty());
    lemma_omitted_fields_default(Seq::<u8>::empty());
}

} // verus!
