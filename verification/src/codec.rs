//! Wire codec for [`PublishData`]: a canonical JSON encoding, written and
//! parsed by this module. The encoder always emits the canonical form; the
//! decoder accepts exactly that form and rejects everything else, so a
//! malformed payload is reported as `None` and dropped by the caller.
//! Decoding an encoded envelope gives the envelope back; the round trip is
//! proved in [`lemma_decode_of_encode`].
//!
//! Strings are escaped with a backslash for the quote and the backslash
//! themselves; other characters, including control characters, pass through
//! unchanged.
use vstd::prelude::*;

use crate::envelope::{
    AlertType, CallRequestRejectReason, CallRequestResponse, Location, Property, PublishData,
    SignalQuality,
};

verus! {

// ---------------------------------------------------------------------------
// Characters and literals
// ---------------------------------------------------------------------------

/// Whether `c` is a decimal digit.
pub open spec fn is_digit_char(c: char) -> bool {
    c == '0' || c == '1' || c == '2' || c == '3' || c == '4' || c == '5' || c == '6' || c == '7'
        || c == '8' || c == '9'
}

/// Numeric value of a decimal digit character (zero for any other).
pub open spec fn digit_val(c: char) -> nat {
    if c == '1' {
        1
    } else if c == '2' {
        2
    } else if c == '3' {
        3
    } else if c == '4' {
        4
    } else if c == '5' {
        5
    } else if c == '6' {
        6
    } else if c == '7' {
        7
    } else if c == '8' {
        8
    } else if c == '9' {
        9
    } else {
        0
    }
}

/// The decimal digit character for a value below ten.
pub open spec fn digit_char(d: nat) -> char {
    if d == 1 {
        '1'
    } else if d == 2 {
        '2'
    } else if d == 3 {
        '3'
    } else if d == 4 {
        '4'
    } else if d == 5 {
        '5'
    } else if d == 6 {
        '6'
    } else if d == 7 {
        '7'
    } else if d == 8 {
        '8'
    } else if d == 9 {
        '9'
    } else {
        '0'
    }
}

/// Whether the characters of `lit` stand in `s` at position `i`.
pub open spec fn matches_at(s: Seq<char>, i: int, lit: Seq<char>) -> bool {
    0 <= i && i + lit.len() <= s.len() && s.subrange(i, i + lit.len()) == lit
}

/// Exec mirror of [`matches_at`].
pub fn match_lit(s: &str, i: usize, lit: &str) -> (b: bool)
    requires
        i <= s@.len(),
    ensures
        b == matches_at(s@, i as int, lit@),
{
    let n = s.unicode_len();
    let m = lit.unicode_len();
    if m > n - i {
        proof {
            assert(!matches_at(s@, i as int, lit@));
        }
        return false;
    }
    let mut k: usize = 0;
    while k < m
        invariant
            0 <= k <= m,
            i + m <= n,
            n == s@.len(),
            m == lit@.len(),
            forall|j: int| 0 <= j < k ==> s@[i + j] == lit@[j],
        decreases m - k,
    {
        if s.get_char(i + k) != lit.get_char(k) {
            proof {
                assert(s@.subrange(i as int, i + m) != lit@) by {
                    assert(s@.subrange(i as int, i + m)[k as int] == s@[i + k]);
                }
            }
            return false;
        }
        k = k + 1;
    }
    proof {
        assert(s@.subrange(i as int, i + m) =~= lit@);
    }
    true
}

// ---------------------------------------------------------------------------
// Unsigned and signed decimal numbers
// ---------------------------------------------------------------------------

/// Decimal digits of `v`, most significant first, no leading zeros.
pub open spec fn spec_enc_u64(v: nat) -> Seq<char>
    decreases v,
{
    if v < 10 {
        seq![digit_char(v)]
    } else {
        spec_enc_u64(v / 10).push(digit_char(v % 10))
    }
}

/// Value of a digit sequence, most significant first.
pub open spec fn digits_val(ds: Seq<char>) -> nat
    decreases ds.len(),
{
    if ds.len() == 0 {
        0
    } else {
        digits_val(ds.drop_last()) * 10 + digit_val(ds.last())
    }
}

/// Digit run parser: consumes decimal digits starting at `i`, accumulating
/// onto `acc`, and stops at the first non-digit (or the end). Fails when the
/// value would not fit `u64` or when `i` is out of range.
pub open spec fn parse_u64_digits(s: Seq<char>, i: int, acc: nat) -> Option<(u64, int)>
    decreases s.len() - i,
{
    if !(0 <= i <= s.len()) {
        None
    } else if i < s.len() && is_digit_char(s[i]) {
        if acc * 10 + digit_val(s[i]) > u64::MAX {
            None
        } else {
            parse_u64_digits(s, i + 1, acc * 10 + digit_val(s[i]))
        }
    } else {
        Some((acc as u64, i))
    }
}

/// Number parser: at least one digit, value fitting `u64`.
pub open spec fn parse_u64(s: Seq<char>, i: int) -> Option<(u64, int)> {
    if 0 <= i < s.len() && is_digit_char(s[i]) {
        parse_u64_digits(s, i, 0)
    } else {
        None
    }
}

/// Every character of an encoded number is a digit, its value is the number,
/// and it is never empty.
pub proof fn lemma_enc_u64_digits(v: nat)
    ensures
        spec_enc_u64(v).len() >= 1,
        forall|j: int| 0 <= j < spec_enc_u64(v).len() ==> is_digit_char(#[trigger] spec_enc_u64(v)[j]),
        digits_val(spec_enc_u64(v)) == v,
    decreases v,
{
    lemma_digit_char_val(v % 10);
    if v < 10 {
        assert(v % 10 == v);
        let e = spec_enc_u64(v);
        assert(e == seq![digit_char(v)]);
        assert(e.drop_last() =~= Seq::<char>::empty());
        assert(digits_val(Seq::<char>::empty()) == 0);
        assert(e.last() == digit_char(v));
        assert(digits_val(e) == digits_val(e.drop_last()) * 10 + digit_val(e.last()));
    } else {
        lemma_enc_u64_digits(v / 10);
        let e = spec_enc_u64(v);
        assert(e == spec_enc_u64(v / 10).push(digit_char(v % 10)));
        assert(e.drop_last() =~= spec_enc_u64(v / 10));
        assert(e.last() == digit_char(v % 10));
        assert(forall|j: int| 0 <= j < e.len() - 1 ==> e[j] == spec_enc_u64(v / 10)[j]);
        assert(digits_val(e) == (v / 10) * 10 + (v % 10));
        assert((v / 10) * 10 + (v % 10) == v) by (nonlinear_arith);
    }
}

/// For a value below ten, its digit character is a digit whose value is the
/// value itself.
pub proof fn lemma_digit_char_val(d: nat)
    requires
        d < 10,
    ensures
        is_digit_char(digit_char(d)),
        digit_val(digit_char(d)) == d,
{
}

/// The digit-run parser over a region holding digits `ds`, followed by a
/// non-digit or the end, accumulates `acc * 10^|ds| + digits_val(ds)` —
/// stated here through the fold itself to avoid powers.
pub proof fn lemma_parse_digit_run(s: Seq<char>, i: int, acc: nat, ds: Seq<char>)
    requires
        0 <= i,
        i + ds.len() <= s.len(),
        s.subrange(i, i + ds.len()) == ds,
        forall|j: int| 0 <= j < ds.len() ==> is_digit_char(#[trigger] ds[j]),
        i + ds.len() == s.len() || !is_digit_char(s[i + ds.len()]),
        fold_digits(acc, ds) <= u64::MAX,
    ensures
        parse_u64_digits(s, i, acc) == Some((fold_digits(acc, ds) as u64, i + ds.len())),
    decreases ds.len(),
{
    if ds.len() == 0 {
        if i < s.len() {
            assert(!is_digit_char(s[i]));
        }
    } else {
        assert(s[i] == ds[0]);
        assert(is_digit_char(ds[0]));
        let acc2 = acc * 10 + digit_val(ds[0]);
        lemma_fold_digits_bound(acc, ds);
        assert(acc2 <= fold_digits(acc, ds));
        assert(s.subrange(i + 1, i + ds.len()) =~= ds.skip(1));
        assert(fold_digits(acc2, ds.skip(1)) == fold_digits(acc, ds));
        lemma_parse_digit_run(s, i + 1, acc2, ds.skip(1));
    }
}

/// Left fold of digits onto an accumulator.
pub open spec fn fold_digits(acc: nat, ds: Seq<char>) -> nat
    decreases ds.len(),
{
    if ds.len() == 0 {
        acc
    } else {
        fold_digits(acc * 10 + digit_val(ds[0]), ds.skip(1))
    }
}

/// The fold never shrinks the accumulator.
pub proof fn lemma_fold_digits_bound(acc: nat, ds: Seq<char>)
    ensures
        acc <= fold_digits(acc, ds),
        ds.len() > 0 ==> acc * 10 + digit_val(ds[0]) <= fold_digits(acc, ds),
    decreases ds.len(),
{
    if ds.len() > 0 {
        lemma_fold_digits_bound(acc * 10 + digit_val(ds[0]), ds.skip(1));
    }
}

/// Folding digits from zero gives their value.
pub proof fn lemma_fold_digits_val(acc: nat, ds: Seq<char>)
    ensures
        fold_digits(acc, ds) == mul_pow10(acc, ds.len()) + digits_val(ds),
    decreases ds.len(),
{
    if ds.len() == 0 {
    } else {
        let acc2 = acc * 10 + digit_val(ds[0]);
        lemma_fold_digits_val(acc2, ds.skip(1));
        lemma_digits_val_unfold_left(ds);
        lemma_mul_pow10_add(acc * 10, digit_val(ds[0]), (ds.len() - 1) as nat);
        assert(mul_pow10(acc, ds.len()) == mul_pow10(acc * 10, (ds.len() - 1) as nat));
    }
}

/// `mul_pow10` distributes over addition in its first argument.
pub proof fn lemma_mul_pow10_add(a: nat, b: nat, k: nat)
    ensures
        mul_pow10(a + b, k) == mul_pow10(a, k) + mul_pow10(b, k),
    decreases k,
{
    if k > 0 {
        assert((a + b) * 10 == a * 10 + b * 10) by (nonlinear_arith);
        lemma_mul_pow10_add(a * 10, b * 10, (k - 1) as nat);
    }
}

/// `acc * 10^k`, defined by recursion on `k`.
pub open spec fn mul_pow10(acc: nat, k: nat) -> nat
    decreases k,
{
    if k == 0 {
        acc
    } else {
        mul_pow10(acc * 10, (k - 1) as nat)
    }
}

/// Digit-sequence value, unfolded at the most significant digit.
pub proof fn lemma_digits_val_unfold_left(ds: Seq<char>)
    requires
        ds.len() >= 1,
    ensures
        digits_val(ds) == mul_pow10(digit_val(ds[0]), (ds.len() - 1) as nat) + digits_val(
            ds.skip(1),
        ),
    decreases ds.len(),
{
    if ds.len() == 1 {
        assert(ds.skip(1) =~= Seq::<char>::empty());
        assert(ds.drop_last() =~= Seq::<char>::empty());
        assert(digits_val(ds) == digits_val(ds.drop_last()) * 10 + digit_val(ds.last()));
    } else {
        let ddl = ds.drop_last();
        lemma_digits_val_unfold_left(ddl);
        assert(ddl[0] == ds[0]);
        assert(ddl.skip(1) =~= ds.skip(1).drop_last());
        assert(ds.skip(1).last() == ds.last());
        assert(digits_val(ds) == digits_val(ddl) * 10 + digit_val(ds.last()));
        assert(digits_val(ds.skip(1)) == digits_val(ds.skip(1).drop_last()) * 10 + digit_val(
            ds.skip(1).last(),
        ));
        lemma_mul_pow10_last(digit_val(ds[0]), (ds.len() - 2) as nat);
        assert((mul_pow10(digit_val(ds[0]), (ds.len() - 2) as nat) + digits_val(ddl.skip(1)))
            * 10 == mul_pow10(digit_val(ds[0]), (ds.len() - 2) as nat) * 10 + digits_val(
            ddl.skip(1),
        ) * 10) by (nonlinear_arith);
    }
}

/// `mul_pow10(a, k+1) == mul_pow10(a, k) * 10`.
pub proof fn lemma_mul_pow10_last(acc: nat, k: nat)
    ensures
        mul_pow10(acc, k + 1) == mul_pow10(acc, k) * 10,
    decreases k,
{
    if k == 0 {
        assert(mul_pow10(acc, 1) == mul_pow10(acc * 10, 0));
        assert(mul_pow10(acc * 10, 0) == acc * 10);
    } else {
        lemma_mul_pow10_last(acc * 10, (k - 1) as nat);
        assert(mul_pow10(acc, k + 1) == mul_pow10(acc * 10, k));
        assert(mul_pow10(acc, k) == mul_pow10(acc * 10, (k - 1) as nat));
    }
}

/// Parsing directly after an encoded number, with a non-digit (or the end)
/// delimiting it, yields exactly that number.
pub proof fn lemma_parse_u64_of_enc(v: u64, s: Seq<char>, i: int)
    requires
        matches_at(s, i, spec_enc_u64(v as nat)),
        i + spec_enc_u64(v as nat).len() == s.len() || !is_digit_char(
            s[i + spec_enc_u64(v as nat).len()],
        ),
    ensures
        parse_u64(s, i) == Some((v, i + spec_enc_u64(v as nat).len())),
{
    let ds = spec_enc_u64(v as nat);
    lemma_enc_u64_digits(v as nat);
    assert(s[i] == ds[0]);
    lemma_fold_digits_val(0, ds);
    lemma_mul_pow10_zero(ds.len());
    assert(fold_digits(0, ds) == digits_val(ds));
    lemma_parse_digit_run(s, i, 0, ds);
}

/// `mul_pow10(0, k) == 0`.
pub proof fn lemma_mul_pow10_zero(k: nat)
    ensures
        mul_pow10(0, k) == 0,
    decreases k,
{
    if k > 0 {
        lemma_mul_pow10_zero((k - 1) as nat);
    }
}

/// Decimal encoding of a signed number: a minus sign before the magnitude
/// for negative values.
pub open spec fn spec_enc_i64(v: int) -> Seq<char> {
    if v >= 0 {
        spec_enc_u64(v as nat)
    } else {
        seq!['-'] + spec_enc_u64((-v) as nat)
    }
}

/// Signed number parser: an optional minus sign (only before a non-zero
/// magnitude) and a magnitude fitting `i64`.
pub open spec fn parse_i64(s: Seq<char>, i: int) -> Option<(i64, int)> {
    if 0 <= i < s.len() && s[i] == '-' {
        match parse_u64(s, i + 1) {
            Some((m, j)) => {
                if 0 < m <= 0x8000_0000_0000_0000u64 {
                    Some(((-(m as int)) as i64, j))
                } else {
                    None
                }
            },
            None => None,
        }
    } else {
        match parse_u64(s, i) {
            Some((m, j)) => {
                if m <= i64::MAX as u64 {
                    Some((m as i64, j))
                } else {
                    None
                }
            },
            None => None,
        }
    }
}

/// Parsing directly after an encoded signed number, delimited by a non-digit
/// or the end, yields exactly that number.
pub proof fn lemma_parse_i64_of_enc(v: i64, s: Seq<char>, i: int)
    requires
        matches_at(s, i, spec_enc_i64(v as int)),
        i + spec_enc_i64(v as int).len() == s.len() || !is_digit_char(
            s[i + spec_enc_i64(v as int).len()],
        ),
    ensures
        parse_i64(s, i) == Some((v, i + spec_enc_i64(v as int).len())),
{
    let e = spec_enc_i64(v as int);
    if v >= 0 {
        lemma_parse_u64_of_enc(v as u64, s, i);
        lemma_enc_u64_digits(v as nat);
        assert(s[i] == e[0]);
        assert(e[0] == spec_enc_u64(v as nat)[0]);
        assert(is_digit_char(e[0]));
        assert(s[i] != '-');
    } else {
        let m = (-(v as int)) as nat;
        let me = spec_enc_u64(m);
        assert(s[i] == e[0]);
        assert(e[0] == '-');
        assert(s.subrange(i + 1, i + e.len()) =~= me) by {
            assert(forall|j: int|
                0 <= j < me.len() ==> s.subrange(i, i + e.len())[j + 1] == #[trigger] me[j]);
        }
        assert(matches_at(s, i + 1, me));
        let mv = m as u64;
        assert(mv as nat == m);
        lemma_parse_u64_of_enc(mv, s, i + 1);
        assert(0 < mv <= 0x8000_0000_0000_0000u64);
        assert((-(mv as int)) as i64 == v);
    }
}

// ---------------------------------------------------------------------------
// Strings
// ---------------------------------------------------------------------------

/// Wire form of one string character: the quote and the backslash are
/// preceded by a backslash, everything else stands as it is.
pub open spec fn esc_char(c: char) -> Seq<char> {
    if c == '\\' || c == '"' {
        seq!['\\', c]
    } else {
        seq![c]
    }
}

/// Wire form of a string's characters.
pub open spec fn esc_str(t: Seq<char>) -> Seq<char>
    decreases t.len(),
{
    if t.len() == 0 {
        Seq::<char>::empty()
    } else {
        esc_char(t[0]) + esc_str(t.skip(1))
    }
}

/// Wire form of a string: the escaped characters between quotes.
pub open spec fn spec_enc_string(t: Seq<char>) -> Seq<char> {
    seq!['"'] + esc_str(t) + seq!['"']
}

/// Escaping one more character on the right appends its wire form.
pub proof fn lemma_esc_str_push(t: Seq<char>, c: char)
    ensures
        esc_str(t.push(c)) == esc_str(t) + esc_char(c),
    decreases t.len(),
{
    if t.len() == 0 {
        assert(t.push(c)[0] == c);
        assert(t.push(c).skip(1) =~= Seq::<char>::empty());
        assert(esc_str(Seq::<char>::empty()) == Seq::<char>::empty());
        assert(esc_str(t.push(c)) == esc_char(c) + esc_str(t.push(c).skip(1)));
        assert(esc_char(c) + Seq::<char>::empty() =~= esc_char(c));
        assert(esc_str(t) + esc_char(c) =~= esc_char(c));
    } else {
        assert(t.push(c)[0] == t[0]);
        assert(t.push(c).skip(1) =~= t.skip(1).push(c));
        lemma_esc_str_push(t.skip(1), c);
        assert(esc_char(t[0]) + (esc_str(t.skip(1)) + esc_char(c)) =~= (esc_char(t[0]) + esc_str(
            t.skip(1),
        )) + esc_char(c));
    }
}

/// String-body parser: consumes escaped characters onto `acc` until the
/// closing quote, which it consumes too.
pub open spec fn parse_str_body(s: Seq<char>, i: int, acc: Seq<char>) -> Option<(Seq<char>, int)>
    decreases s.len() - i,
{
    if !(0 <= i < s.len()) {
        None
    } else if s[i] == '"' {
        Some((acc, i + 1))
    } else if s[i] == '\\' {
        if i + 1 < s.len() && (s[i + 1] == '\\' || s[i + 1] == '"') {
            parse_str_body(s, i + 2, acc.push(s[i + 1]))
        } else {
            None
        }
    } else {
        parse_str_body(s, i + 1, acc.push(s[i]))
    }
}

/// String parser: an opening quote, then the body.
pub open spec fn parse_string(s: Seq<char>, i: int) -> Option<(Seq<char>, int)> {
    if 0 <= i < s.len() && s[i] == '"' {
        parse_str_body(s, i + 1, Seq::<char>::empty())
    } else {
        None
    }
}

/// Parsing a string body over the escaped form of `t` followed by the
/// closing quote appends `t` to the accumulator.
pub proof fn lemma_parse_str_body_of_esc(t: Seq<char>, s: Seq<char>, i: int, acc: Seq<char>)
    requires
        matches_at(s, i, esc_str(t)),
        i + esc_str(t).len() < s.len(),
        s[i + esc_str(t).len()] == '"',
    ensures
        parse_str_body(s, i, acc) == Some((acc + t, i + esc_str(t).len() + 1)),
    decreases t.len(),
{
    let e = esc_str(t);
    if t.len() == 0 {
        assert(s[i] == '"');
        assert(acc + t =~= acc);
    } else {
        let c = t[0];
        let rest = esc_str(t.skip(1));
        assert(e == esc_char(c) + rest);
        assert(matches_at(s, i + esc_char(c).len(), rest)) by {
            assert(forall|j: int|
                0 <= j < rest.len() ==> s.subrange(i, i + e.len())[esc_char(c).len() + j]
                    == #[trigger] rest[j]);
            assert(s.subrange(
                i + esc_char(c).len(),
                i + esc_char(c).len() + rest.len(),
            ) =~= rest);
        }
        if c == '\\' || c == '"' {
            assert(s[i] == e[0]);
            assert(e[0] == '\\');
            assert(s[i + 1] == e[1]);
            assert(e[1] == c);
            lemma_parse_str_body_of_esc(t.skip(1), s, i + 2, acc.push(c));
            assert(acc.push(c) + t.skip(1) =~= acc + t);
        } else {
            assert(s[i] == e[0]);
            assert(e[0] == c);
            lemma_parse_str_body_of_esc(t.skip(1), s, i + 1, acc.push(c));
            assert(acc.push(c) + t.skip(1) =~= acc + t);
        }
    }
}

/// Splitting a matched concatenation: each half matches at its position.
pub proof fn lemma_matches_split(s: Seq<char>, i: int, a: Seq<char>, b: Seq<char>)
    requires
        matches_at(s, i, a + b),
    ensures
        matches_at(s, i, a),
        matches_at(s, i + a.len(), b),
{
    let w = a + b;
    assert(s.subrange(i, i + a.len()) =~= a) by {
        assert(forall|j: int|
            0 <= j < a.len() ==> s.subrange(i, i + w.len())[j] == #[trigger] w[j]);
        assert(forall|j: int| 0 <= j < a.len() ==> w[j] == a[j]);
    }
    assert(s.subrange(i + a.len(), i + a.len() + b.len()) =~= b) by {
        assert(forall|j: int|
            0 <= j < b.len() ==> s.subrange(i, i + w.len())[a.len() + j] == #[trigger] w[a.len()
                + j]);
        assert(forall|j: int| 0 <= j < b.len() ==> w[a.len() + j] == b[j]);
    }
}

/// A matched region fixes each of its characters.
pub proof fn lemma_matches_index(s: Seq<char>, i: int, w: Seq<char>, k: int)
    requires
        matches_at(s, i, w),
        0 <= k < w.len(),
    ensures
        s[i + k] == w[k],
{
    assert(s.subrange(i, i + w.len())[k] == s[i + k]);
}

/// A literal that differs, within range, from what actually stands at `i`
/// does not match there.
pub proof fn lemma_not_matches(s: Seq<char>, i: int, a: Seq<char>, w: Seq<char>, k: int)
    requires
        matches_at(s, i, w),
        0 <= k < a.len(),
        k < w.len(),
        a[k] != w[k],
    ensures
        !matches_at(s, i, a),
{
    lemma_matches_index(s, i, w, k);
    if matches_at(s, i, a) {
        lemma_matches_index(s, i, a, k);
    }
}

/// Parsing directly after an encoded string yields exactly that string.
pub proof fn lemma_parse_string_of_enc(t: Seq<char>, s: Seq<char>, i: int)
    requires
        matches_at(s, i, spec_enc_string(t)),
    ensures
        parse_string(s, i) == Some((t, i + spec_enc_string(t).len())),
{
    let e = spec_enc_string(t);
    assert(s[i] == e[0]);
    assert(e[0] == '"');
    assert(matches_at(s, i + 1, esc_str(t))) by {
        assert(forall|j: int|
            0 <= j < esc_str(t).len() ==> s.subrange(i, i + e.len())[1 + j] == #[trigger] esc_str(
                t,
            )[j]);
        assert(s.subrange(i + 1, i + 1 + esc_str(t).len()) =~= esc_str(t));
    }
    assert(s[i + 1 + esc_str(t).len()] == e[e.len() - 1]);
    assert(e[e.len() - 1] == '"');
    lemma_parse_str_body_of_esc(t, s, i + 1, Seq::<char>::empty());
    assert(Seq::<char>::empty() + t =~= t);
}

// ---------------------------------------------------------------------------
// Envelope views
// ---------------------------------------------------------------------------

/// Ghost-level shape of a [`Property`], with string contents as character
/// sequences; the decoder's specification speaks of these.
pub enum PropertyV {
    Name(Seq<char>),
    Location(Option<Location>),
    Speed(u64),
    SignalQuality(SignalQuality),
    IconName(Seq<char>),
}

/// Ghost-level shape of a [`PublishData`].
pub enum PublishDataV {
    PropertyChanged(Seq<PropertyV>),
    Alert(AlertType),
    CallRequest { destination: u64 },
    CallRequestCancel { destination: u64 },
    CallRequestResponse { destination: u64, response: CallRequestResponse },
}

/// The ghost-level shape of a property.
pub open spec fn prop_view(p: Property) -> PropertyV {
    match p {
        Property::Name(t) => PropertyV::Name(t@),
        Property::Location(l) => PropertyV::Location(l),
        Property::Speed(v) => PropertyV::Speed(v),
        Property::SignalQuality(q) => PropertyV::SignalQuality(q),
        Property::IconName(t) => PropertyV::IconName(t@),
    }
}

/// The ghost-level shapes of a property sequence.
pub open spec fn props_view(ps: Seq<Property>) -> Seq<PropertyV> {
    ps.map_values(|p: Property| prop_view(p))
}

/// The ghost-level shape of an envelope.
pub open spec fn envelope_view(e: PublishData) -> PublishDataV {
    match e {
        PublishData::PropertyChanged(ps) => PublishDataV::PropertyChanged(props_view(ps@)),
        PublishData::Alert(a) => PublishDataV::Alert(a),
        PublishData::CallRequest { destination } => PublishDataV::CallRequest { destination },
        PublishData::CallRequestCancel { destination } => PublishDataV::CallRequestCancel {
            destination,
        },
        PublishData::CallRequestResponse { destination, response } => {
            PublishDataV::CallRequestResponse { destination, response }
        },
    }
}

// ---------------------------------------------------------------------------
// Literal fragments of the canonical form
// ---------------------------------------------------------------------------

pub open spec fn lit_pc() -> Seq<char> {
    "{\"PropertyChanged\":["@
}

pub open spec fn lit_alert() -> Seq<char> {
    "{\"Alert\":"@
}

pub open spec fn lit_cr() -> Seq<char> {
    "{\"CallRequest\":{\"destination\":"@
}

pub open spec fn lit_crc() -> Seq<char> {
    "{\"CallRequestCancel\":{\"destination\":"@
}

pub open spec fn lit_crr() -> Seq<char> {
    "{\"CallRequestResponse\":{\"destination\":"@
}

pub open spec fn lit_resp() -> Seq<char> {
    ",\"response\":"@
}

pub open spec fn lit_name() -> Seq<char> {
    "{\"Name\":"@
}

pub open spec fn lit_icon() -> Seq<char> {
    "{\"IconName\":"@
}

pub open spec fn lit_speed() -> Seq<char> {
    "{\"Speed\":"@
}

pub open spec fn lit_sq() -> Seq<char> {
    "{\"SignalQuality\":"@
}

pub open spec fn lit_loc_null() -> Seq<char> {
    "{\"Location\":null}"@
}

pub open spec fn lit_loc() -> Seq<char> {
    "{\"Location\":{\"latitude\":"@
}

pub open spec fn lit_lon() -> Seq<char> {
    ",\"longitude\":"@
}

pub open spec fn lit_close2() -> Seq<char> {
    "}}"@
}

/// Quoted name of an alert kind, with the envelope's closing brace.
pub open spec fn alert_lit(a: AlertType) -> Seq<char> {
    match a {
        AlertType::Sos => "\"Sos\"}"@,
        AlertType::Hazard => "\"Hazard\"}"@,
        AlertType::Yielding => "\"Yielding\"}"@,
    }
}

/// Quoted name of a signal quality, with the property's closing brace; the
/// wire names are `None` and `Ok`.
pub open spec fn quality_lit(q: SignalQuality) -> Seq<char> {
    match q {
        SignalQuality::NoSignal => "\"None\"}"@,
        SignalQuality::Weak => "\"Weak\"}"@,
        SignalQuality::Okay => "\"Ok\"}"@,
        SignalQuality::Good => "\"Good\"}"@,
        SignalQuality::Excellent => "\"Excellent\"}"@,
    }
}

/// A response outcome with the two closing braces of the envelope.
pub open spec fn response_lit(r: CallRequestResponse) -> Seq<char> {
    match r {
        CallRequestResponse::Accept => "\"Accept\"}}"@,
        CallRequestResponse::Cancelled => "\"Cancelled\"}}"@,
        CallRequestResponse::Reject(CallRequestRejectReason::AlreadyInCall) => {
            "{\"Reject\":\"AlreadyInCall\"}}}"@
        },
        CallRequestResponse::Reject(CallRequestRejectReason::RejectedByUser) => {
            "{\"Reject\":\"RejectedByUser\"}}}"@
        },
        CallRequestResponse::Reject(CallRequestRejectReason::MutedByUser) => {
            "{\"Reject\":\"MutedByUser\"}}}"@
        },
        CallRequestResponse::Reject(CallRequestRejectReason::Other) => {
            "{\"Reject\":\"Other\"}}}"@
        },
    }
}

// ---------------------------------------------------------------------------
// Encoding
// ---------------------------------------------------------------------------

/// Canonical form of one property.
pub open spec fn spec_enc_prop(p: PropertyV) -> Seq<char> {
    match p {
        PropertyV::Name(t) => lit_name() + spec_enc_string(t) + seq!['}'],
        PropertyV::IconName(t) => lit_icon() + spec_enc_string(t) + seq!['}'],
        PropertyV::Speed(v) => lit_speed() + spec_enc_u64(v as nat) + seq!['}'],
        PropertyV::SignalQuality(q) => lit_sq() + quality_lit(q),
        PropertyV::Location(l) => match l {
            Some(loc) => lit_loc() + spec_enc_i64(loc.latitude as int) + lit_lon() + spec_enc_i64(
                loc.longitude as int,
            ) + lit_close2(),
            None => lit_loc_null(),
        },
    }
}

/// Canonical form of a property list's elements with the closing bracket.
pub open spec fn spec_enc_props(ps: Seq<PropertyV>) -> Seq<char>
    decreases ps.len(),
{
    if ps.len() == 0 {
        seq![']']
    } else if ps.len() == 1 {
        spec_enc_prop(ps[0]) + seq![']']
    } else {
        spec_enc_prop(ps[0]) + seq![','] + spec_enc_props(ps.skip(1))
    }
}

/// Canonical form of an envelope.
pub open spec fn spec_enc_envelope(e: PublishDataV) -> Seq<char> {
    match e {
        PublishDataV::PropertyChanged(ps) => lit_pc() + spec_enc_props(ps) + seq!['}'],
        PublishDataV::Alert(a) => lit_alert() + alert_lit(a),
        PublishDataV::CallRequest { destination } => lit_cr() + spec_enc_u64(destination as nat)
            + lit_close2(),
        PublishDataV::CallRequestCancel { destination } => lit_crc() + spec_enc_u64(
            destination as nat,
        ) + lit_close2(),
        PublishDataV::CallRequestResponse { destination, response } => lit_crr() + spec_enc_u64(
            destination as nat,
        ) + lit_resp() + response_lit(response),
    }
}

// ---------------------------------------------------------------------------
// Parsing
// ---------------------------------------------------------------------------

/// Property parser: one property object of the canonical form.
pub open spec fn parse_prop(s: Seq<char>, i: int) -> Option<(PropertyV, int)> {
    if matches_at(s, i, lit_name()) {
        match parse_string(s, i + lit_name().len()) {
            Some((t, j)) => {
                if j < s.len() && s[j] == '}' {
                    Some((PropertyV::Name(t), j + 1))
                } else {
                    None
                }
            },
            None => None,
        }
    } else if matches_at(s, i, lit_icon()) {
        match parse_string(s, i + lit_icon().len()) {
            Some((t, j)) => {
                if j < s.len() && s[j] == '}' {
                    Some((PropertyV::IconName(t), j + 1))
                } else {
                    None
                }
            },
            None => None,
        }
    } else if matches_at(s, i, lit_speed()) {
        match parse_u64(s, i + lit_speed().len()) {
            Some((v, j)) => {
                if j < s.len() && s[j] == '}' {
                    Some((PropertyV::Speed(v), j + 1))
                } else {
                    None
                }
            },
            None => None,
        }
    } else if matches_at(s, i, lit_sq()) {
        let k = i + lit_sq().len();
        if matches_at(s, k, quality_lit(SignalQuality::NoSignal)) {
            Some((
                PropertyV::SignalQuality(SignalQuality::NoSignal),
                k + quality_lit(SignalQuality::NoSignal).len(),
            ))
        } else if matches_at(s, k, quality_lit(SignalQuality::Weak)) {
            Some((
                PropertyV::SignalQuality(SignalQuality::Weak),
                k + quality_lit(SignalQuality::Weak).len(),
            ))
        } else if matches_at(s, k, quality_lit(SignalQuality::Okay)) {
            Some((
                PropertyV::SignalQuality(SignalQuality::Okay),
                k + quality_lit(SignalQuality::Okay).len(),
            ))
        } else if matches_at(s, k, quality_lit(SignalQuality::Good)) {
            Some((
                PropertyV::SignalQuality(SignalQuality::Good),
                k + quality_lit(SignalQuality::Good).len(),
            ))
        } else if matches_at(s, k, quality_lit(SignalQuality::Excellent)) {
            Some((
                PropertyV::SignalQuality(SignalQuality::Excellent),
                k + quality_lit(SignalQuality::Excellent).len(),
            ))
        } else {
            None
        }
    } else if matches_at(s, i, lit_loc_null()) {
        Some((PropertyV::Location(None), i + lit_loc_null().len()))
    } else if matches_at(s, i, lit_loc()) {
        match parse_i64(s, i + lit_loc().len()) {
            Some((lat, j)) => {
                if matches_at(s, j, lit_lon()) {
                    match parse_i64(s, j + lit_lon().len()) {
                        Some((lon, k)) => {
                            if matches_at(s, k, lit_close2()) {
                                Some((
                                    PropertyV::Location(
                                        Some(Location { latitude: lat, longitude: lon }),
                                    ),
                                    k + lit_close2().len(),
                                ))
                            } else {
                                None
                            }
                        },
                        None => None,
                    }
                } else {
                    None
                }
            },
            None => None,
        }
    } else {
        None
    }
}

/// Property-list parser: properties separated by commas, ended by the
/// closing bracket, which it consumes.
pub open spec fn parse_props(s: Seq<char>, i: int, acc: Seq<PropertyV>) -> Option<
    (Seq<PropertyV>, int),
>
    decreases s.len() - i,
{
    if !(0 <= i < s.len()) {
        None
    } else if s[i] == ']' {
        Some((acc, i + 1))
    } else {
        match parse_prop(s, i) {
            Some((p, j)) => {
                if i < j && j < s.len() {
                    if s[j] == ',' {
                        parse_props(s, j + 1, acc.push(p))
                    } else if s[j] == ']' {
                        Some((acc.push(p), j + 1))
                    } else {
                        None
                    }
                } else {
                    None
                }
            },
            None => None,
        }
    }
}

/// Envelope parser: the decoder's specification. Succeeds exactly on the
/// canonical form of some envelope, consuming all of `s`.
pub open spec fn spec_decode(s: Seq<char>) -> Option<PublishDataV> {
    if matches_at(s, 0, lit_pc()) {
        match parse_props(s, lit_pc().len() as int, Seq::<PropertyV>::empty()) {
            Some((ps, j)) => {
                if j + 1 == s.len() && s[j] == '}' {
                    Some(PublishDataV::PropertyChanged(ps))
                } else {
                    None
                }
            },
            None => None,
        }
    } else if matches_at(s, 0, lit_alert()) {
        let i = lit_alert().len() as int;
        if matches_at(s, i, alert_lit(AlertType::Sos)) && s.len() == i + alert_lit(
            AlertType::Sos,
        ).len() {
            Some(PublishDataV::Alert(AlertType::Sos))
        } else if matches_at(s, i, alert_lit(AlertType::Hazard)) && s.len() == i + alert_lit(
            AlertType::Hazard,
        ).len() {
            Some(PublishDataV::Alert(AlertType::Hazard))
        } else if matches_at(s, i, alert_lit(AlertType::Yielding)) && s.len() == i + alert_lit(
            AlertType::Yielding,
        ).len() {
            Some(PublishDataV::Alert(AlertType::Yielding))
        } else {
            None
        }
    } else if matches_at(s, 0, lit_cr()) {
        match parse_u64(s, lit_cr().len() as int) {
            Some((d, j)) => {
                if matches_at(s, j, lit_close2()) && s.len() == j + lit_close2().len() {
                    Some(PublishDataV::CallRequest { destination: d })
                } else {
                    None
                }
            },
            None => None,
        }
    } else if matches_at(s, 0, lit_crc()) {
        match parse_u64(s, lit_crc().len() as int) {
            Some((d, j)) => {
                if matches_at(s, j, lit_close2()) && s.len() == j + lit_close2().len() {
                    Some(PublishDataV::CallRequestCancel { destination: d })
                } else {
                    None
                }
            },
            None => None,
        }
    } else if matches_at(s, 0, lit_crr()) {
        match parse_u64(s, lit_crr().len() as int) {
            Some((d, j)) => {
                if matches_at(s, j, lit_resp()) {
                    let k = j + lit_resp().len();
                    if matches_at(s, k, response_lit(CallRequestResponse::Accept)) && s.len() == k
                        + response_lit(CallRequestResponse::Accept).len() {
                        Some(
                            PublishDataV::CallRequestResponse {
                                destination: d,
                                response: CallRequestResponse::Accept,
                            },
                        )
                    } else if matches_at(s, k, response_lit(CallRequestResponse::Cancelled))
                        && s.len() == k + response_lit(CallRequestResponse::Cancelled).len() {
                        Some(
                            PublishDataV::CallRequestResponse {
                                destination: d,
                                response: CallRequestResponse::Cancelled,
                            },
                        )
                    } else if matches_at(
                        s,
                        k,
                        response_lit(
                            CallRequestResponse::Reject(CallRequestRejectReason::AlreadyInCall),
                        ),
                    ) && s.len() == k + response_lit(
                        CallRequestResponse::Reject(CallRequestRejectReason::AlreadyInCall),
                    ).len() {
                        Some(
                            PublishDataV::CallRequestResponse {
                                destination: d,
                                response: CallRequestResponse::Reject(
                                    CallRequestRejectReason::AlreadyInCall,
                                ),
                            },
                        )
                    } else if matches_at(
                        s,
                        k,
                        response_lit(
                            CallRequestResponse::Reject(CallRequestRejectReason::RejectedByUser),
                        ),
                    ) && s.len() == k + response_lit(
                        CallRequestResponse::Reject(CallRequestRejectReason::RejectedByUser),
                    ).len() {
                        Some(
                            PublishDataV::CallRequestResponse {
                                destination: d,
                                response: CallRequestResponse::Reject(
                                    CallRequestRejectReason::RejectedByUser,
                                ),
                            },
                        )
                    } else if matches_at(
                        s,
                        k,
                        response_lit(
                            CallRequestResponse::Reject(CallRequestRejectReason::MutedByUser),
                        ),
                    ) && s.len() == k + response_lit(
                        CallRequestResponse::Reject(CallRequestRejectReason::MutedByUser),
                    ).len() {
                        Some(
                            PublishDataV::CallRequestResponse {
                                destination: d,
                                response: CallRequestResponse::Reject(
                                    CallRequestRejectReason::MutedByUser,
                                ),
                            },
                        )
                    } else if matches_at(
                        s,
                        k,
                        response_lit(CallRequestResponse::Reject(CallRequestRejectReason::Other)),
                    ) && s.len() == k + response_lit(
                        CallRequestResponse::Reject(CallRequestRejectReason::Other),
                    ).len() {
                        Some(
                            PublishDataV::CallRequestResponse {
                                destination: d,
                                response: CallRequestResponse::Reject(
                                    CallRequestRejectReason::Other,
                                ),
                            },
                        )
                    } else {
                        None
                    }
                } else {
                    None
                }
            },
            None => None,
        }
    } else {
        None
    }
}

// ---------------------------------------------------------------------------
// Encoder
// ---------------------------------------------------------------------------

/// Relies on `String::push`: appends the given character to the end of the
/// string.
#[verifier::external_body]
fn push_char(s: &mut String, c: char)
    ensures
        final(s)@ == old(s)@.push(c),
{
    s.push(c);
}

/// The decimal digit character of a value below ten.
fn digit_char_of(d: u64) -> (c: char)
    requires
        d < 10,
    ensures
        c == digit_char(d as nat),
{
    if d == 1 {
        '1'
    } else if d == 2 {
        '2'
    } else if d == 3 {
        '3'
    } else if d == 4 {
        '4'
    } else if d == 5 {
        '5'
    } else if d == 6 {
        '6'
    } else if d == 7 {
        '7'
    } else if d == 8 {
        '8'
    } else if d == 9 {
        '9'
    } else {
        '0'
    }
}

/// Appends the decimal form of `v`.
fn enc_u64(out: &mut String, v: u64)
    ensures
        final(out)@ == old(out)@ + spec_enc_u64(v as nat),
    decreases v,
{
    if v < 10 {
        push_char(out, digit_char_of(v));
        proof {
            assert(old(out)@.push(digit_char(v as nat)) =~= old(out)@ + spec_enc_u64(v as nat));
        }
    } else {
        enc_u64(out, v / 10);
        push_char(out, digit_char_of(v % 10));
        proof {
            assert((old(out)@ + spec_enc_u64((v / 10) as nat)).push(digit_char((v % 10) as nat))
                =~= old(out)@ + spec_enc_u64(v as nat));
        }
    }
}

/// Appends the decimal form of `v`, with a minus sign when negative.
fn enc_i64(out: &mut String, v: i64)
    ensures
        final(out)@ == old(out)@ + spec_enc_i64(v as int),
{
    if v >= 0 {
        enc_u64(out, v as u64);
    } else {
        push_char(out, '-');
        let m: u64 = if v == i64::MIN {
            9223372036854775808u64
        } else {
            (-v) as u64
        };
        proof {
            assert(m as nat == (-(v as int)) as nat);
        }
        enc_u64(out, m);
        proof {
            assert(old(out)@.push('-') + spec_enc_u64(m as nat) =~= old(out)@ + spec_enc_i64(
                v as int,
            ));
        }
    }
}

/// Appends the quoted, escaped form of `t`.
fn enc_string(out: &mut String, t: &str)
    ensures
        final(out)@ == old(out)@ + spec_enc_string(t@),
{
    let ghost pre = out@;
    push_char(out, '"');
    proof {
        assert(esc_str(t@.subrange(0, 0)) =~= Seq::<char>::empty());
        assert(out@ =~= pre + seq!['"'] + esc_str(t@.subrange(0, 0)));
    }
    let n = t.unicode_len();
    let mut i: usize = 0;
    while i < n
        invariant
            i <= n,
            n == t@.len(),
            out@ == pre + seq!['"'] + esc_str(t@.subrange(0, i as int)),
        decreases n - i,
    {
        let ghost mid = out@;
        let c = t.get_char(i);
        if c == '"' || c == '\\' {
            push_char(out, '\\');
        }
        push_char(out, c);
        proof {
            if c == '"' || c == '\\' {
                assert(out@ =~= mid + esc_char(c));
            } else {
                assert(out@ =~= mid + esc_char(c));
            }
            lemma_esc_str_push(t@.subrange(0, i as int), c);
            assert(t@.subrange(0, i as int).push(c) =~= t@.subrange(0, i as int + 1));
            assert(out@ =~= pre + seq!['"'] + esc_str(t@.subrange(0, i as int + 1)));
        }
        i = i + 1;
    }
    push_char(out, '"');
    proof {
        assert(t@.subrange(0, n as int) =~= t@);
        assert(out@ =~= pre + spec_enc_string(t@));
    }
}

/// Appends the canonical form of one property.
fn enc_prop(out: &mut String, p: &Property)
    ensures
        final(out)@ == old(out)@ + spec_enc_prop(prop_view(*p)),
{
    let ghost pre = out@;
    match p {
        Property::Name(t) => {
            out.append("{\"Name\":");
            enc_string(out, t.as_str());
            push_char(out, '}');
            proof {
                assert(out@ =~= pre + spec_enc_prop(prop_view(*p)));
            }
        },
        Property::IconName(t) => {
            out.append("{\"IconName\":");
            enc_string(out, t.as_str());
            push_char(out, '}');
            proof {
                assert(out@ =~= pre + spec_enc_prop(prop_view(*p)));
            }
        },
        Property::Speed(v) => {
            out.append("{\"Speed\":");
            enc_u64(out, *v);
            push_char(out, '}');
            proof {
                assert(out@ =~= pre + spec_enc_prop(prop_view(*p)));
            }
        },
        Property::SignalQuality(q) => {
            out.append("{\"SignalQuality\":");
            match q {
                SignalQuality::NoSignal => out.append("\"None\"}"),
                SignalQuality::Weak => out.append("\"Weak\"}"),
                SignalQuality::Okay => out.append("\"Ok\"}"),
                SignalQuality::Good => out.append("\"Good\"}"),
                SignalQuality::Excellent => out.append("\"Excellent\"}"),
            }
            proof {
                assert(out@ =~= pre + spec_enc_prop(prop_view(*p)));
            }
        },
        Property::Location(l) => {
            match l {
                Some(loc) => {
                    out.append("{\"Location\":{\"latitude\":");
                    enc_i64(out, loc.latitude);
                    out.append(",\"longitude\":");
                    enc_i64(out, loc.longitude);
                    out.append("}}");
                    proof {
                        assert(out@ =~= pre + spec_enc_prop(prop_view(*p)));
                    }
                },
                None => {
                    out.append("{\"Location\":null}");
                    proof {
                        assert(out@ =~= pre + spec_enc_prop(prop_view(*p)));
                    }
                },
            }
        },
    }
}

/// Appends the canonical forms of the properties from index `i` on, with the
/// closing bracket.
fn enc_props_from(out: &mut String, ps: &Vec<Property>, i: usize)
    requires
        i <= ps@.len(),
    ensures
        final(out)@ == old(out)@ + spec_enc_props(props_view(ps@).skip(i as int)),
    decreases ps@.len() - i,
{
    let ghost pre = out@;
    let ghost vs = props_view(ps@).skip(i as int);
    if i == ps.len() {
        push_char(out, ']');
        proof {
            assert(vs =~= Seq::<PropertyV>::empty());
            assert(out@ =~= pre + spec_enc_props(vs));
        }
    } else if i + 1 == ps.len() {
        enc_prop(out, &ps[i]);
        push_char(out, ']');
        proof {
            assert(vs.len() == 1);
            assert(vs[0] == prop_view(ps@[i as int]));
            assert(out@ =~= pre + spec_enc_props(vs));
        }
    } else {
        enc_prop(out, &ps[i]);
        push_char(out, ',');
        enc_props_from(out, ps, i + 1);
        proof {
            assert(vs.len() > 1);
            assert(vs[0] == prop_view(ps@[i as int]));
            assert(vs.skip(1) =~= props_view(ps@).skip(i as int + 1));
            assert(out@ =~= pre + spec_enc_props(vs));
        }
    }
}

/// Encodes an envelope into its canonical wire form.
pub fn encode(e: &PublishData) -> (r: String)
    ensures
        r@ == spec_enc_envelope(envelope_view(*e)),
{
    let mut out = String::new();
    match e {
        PublishData::PropertyChanged(ps) => {
            out.append("{\"PropertyChanged\":[");
            enc_props_from(&mut out, ps, 0);
            push_char(&mut out, '}');
            proof {
                assert(props_view(ps@).skip(0) =~= props_view(ps@));
                assert(out@ =~= spec_enc_envelope(envelope_view(*e)));
            }
        },
        PublishData::Alert(a) => {
            out.append("{\"Alert\":");
            match a {
                AlertType::Sos => out.append("\"Sos\"}"),
                AlertType::Hazard => out.append("\"Hazard\"}"),
                AlertType::Yielding => out.append("\"Yielding\"}"),
            }
            proof {
                assert(out@ =~= spec_enc_envelope(envelope_view(*e)));
            }
        },
        PublishData::CallRequest { destination } => {
            out.append("{\"CallRequest\":{\"destination\":");
            enc_u64(&mut out, *destination);
            out.append("}}");
            proof {
                assert(out@ =~= spec_enc_envelope(envelope_view(*e)));
            }
        },
        PublishData::CallRequestCancel { destination } => {
            out.append("{\"CallRequestCancel\":{\"destination\":");
            enc_u64(&mut out, *destination);
            out.append("}}");
            proof {
                assert(out@ =~= spec_enc_envelope(envelope_view(*e)));
            }
        },
        PublishData::CallRequestResponse { destination, response } => {
            out.append("{\"CallRequestResponse\":{\"destination\":");
            enc_u64(&mut out, *destination);
            out.append(",\"response\":");
            match response {
                CallRequestResponse::Accept => out.append("\"Accept\"}}"),
                CallRequestResponse::Cancelled => out.append("\"Cancelled\"}}"),
                CallRequestResponse::Reject(CallRequestRejectReason::AlreadyInCall) => out.append(
                    "{\"Reject\":\"AlreadyInCall\"}}}",
                ),
                CallRequestResponse::Reject(CallRequestRejectReason::RejectedByUser) => out.append(
                    "{\"Reject\":\"RejectedByUser\"}}}",
                ),
                CallRequestResponse::Reject(CallRequestRejectReason::MutedByUser) => out.append(
                    "{\"Reject\":\"MutedByUser\"}}}",
                ),
                CallRequestResponse::Reject(CallRequestRejectReason::Other) => out.append(
                    "{\"Reject\":\"Other\"}}}",
                ),
            }
            proof {
                assert(out@ =~= spec_enc_envelope(envelope_view(*e)));
            }
        },
    }
    out
}

// ---------------------------------------------------------------------------
// Decoder
// ---------------------------------------------------------------------------

/// Exec mirror of [`is_digit_char`].
fn is_digit(c: char) -> (b: bool)
    ensures
        b == is_digit_char(c),
{
    c == '0' || c == '1' || c == '2' || c == '3' || c == '4' || c == '5' || c == '6' || c == '7'
        || c == '8' || c == '9'
}

/// Exec mirror of [`digit_val`].
fn digit_of(c: char) -> (d: u64)
    ensures
        d == digit_val(c),
{
    if c == '1' {
        1
    } else if c == '2' {
        2
    } else if c == '3' {
        3
    } else if c == '4' {
        4
    } else if c == '5' {
        5
    } else if c == '6' {
        6
    } else if c == '7' {
        7
    } else if c == '8' {
        8
    } else if c == '9' {
        9
    } else {
        0
    }
}

/// Exec mirror of [`parse_u64`].
fn parse_u64_at(s: &str, i: usize) -> (r: Option<(u64, usize)>)
    requires
        i <= s@.len(),
    ensures
        match r {
            Some((v, j)) => parse_u64(s@, i as int) == Some((v, j as int)) && i < j <= s@.len(),
            None => parse_u64(s@, i as int) is None,
        },
{
    let n = s.unicode_len();
    if i >= n {
        return None;
    }
    let first = s.get_char(i);
    if !is_digit(first) {
        return None;
    }
    let mut acc: u64 = 0;
    let mut j: usize = i;
    loop
        invariant
            i <= j <= n,
            n == s@.len(),
            i < s@.len(),
            is_digit_char(s@[i as int]),
            j == i ==> acc == 0,
            parse_u64_digits(s@, i as int, 0) == parse_u64_digits(s@, j as int, acc as nat),
        decreases n - j,
    {
        if j >= n {
            proof {
                assert(parse_u64_digits(s@, j as int, acc as nat) == Some((acc, j as int)));
            }
            return Some((acc, j));
        }
        let c = s.get_char(j);
        if !is_digit(c) {
            proof {
                if j == i {
                    assert(false);
                }
                assert(parse_u64_digits(s@, j as int, acc as nat) == Some((acc, j as int)));
            }
            return Some((acc, j));
        }
        let d = digit_of(c);
        let wide: u128 = acc as u128 * 10 + d as u128;
        if wide > u64::MAX as u128 {
            proof {
                assert(parse_u64_digits(s@, j as int, acc as nat) is None);
            }
            return None;
        }
        acc = wide as u64;
        j = j + 1;
    }
}

/// Exec mirror of [`parse_i64`].
fn parse_i64_at(s: &str, i: usize) -> (r: Option<(i64, usize)>)
    requires
        i <= s@.len(),
    ensures
        match r {
            Some((v, j)) => parse_i64(s@, i as int) == Some((v, j as int)) && i < j <= s@.len(),
            None => parse_i64(s@, i as int) is None,
        },
{
    let n = s.unicode_len();
    if i < n && s.get_char(i) == '-' {
        match parse_u64_at(s, i + 1) {
            Some((m, j)) => {
                if 0 < m && m <= 9223372036854775808u64 {
                    let v: i64 = if m == 9223372036854775808u64 {
                        i64::MIN
                    } else {
                        -(m as i64)
                    };
                    proof {
                        assert(v as int == -(m as int));
                    }
                    Some((v, j))
                } else {
                    None
                }
            },
            None => None,
        }
    } else {
        match parse_u64_at(s, i) {
            Some((m, j)) => {
                if m <= 9223372036854775807u64 {
                    Some((m as i64, j))
                } else {
                    None
                }
            },
            None => None,
        }
    }
}

/// Exec mirror of [`parse_string`].
fn parse_string_at(s: &str, i: usize) -> (r: Option<(String, usize)>)
    requires
        i <= s@.len(),
    ensures
        match r {
            Some((t, j)) => parse_string(s@, i as int) == Some((t@, j as int)) && i < j
                <= s@.len(),
            None => parse_string(s@, i as int) is None,
        },
{
    let n = s.unicode_len();
    if i >= n || s.get_char(i) != '"' {
        return None;
    }
    let mut acc = String::new();
    let mut j: usize = i + 1;
    loop
        invariant
            i + 1 <= j <= n,
            n == s@.len(),
            i < s@.len(),
            s@[i as int] == '"',
            parse_str_body(s@, i as int + 1, Seq::<char>::empty()) == parse_str_body(
                s@,
                j as int,
                acc@,
            ),
        decreases n - j,
    {
        if j >= n {
            return None;
        }
        let c = s.get_char(j);
        if c == '"' {
            return Some((acc, j + 1));
        }
        if c == '\\' {
            if j + 1 < n {
                let c2 = s.get_char(j + 1);
                if c2 == '\\' || c2 == '"' {
                    push_char(&mut acc, c2);
                    j = j + 2;
                } else {
                    return None;
                }
            } else {
                return None;
            }
        } else {
            push_char(&mut acc, c);
            j = j + 1;
        }
    }
}

/// Pushing a property pushes its view.
proof fn lemma_props_view_push(ps: Seq<Property>, p: Property)
    ensures
        props_view(ps.push(p)) == props_view(ps).push(prop_view(p)),
{
    assert(props_view(ps.push(p)) =~= props_view(ps).push(prop_view(p)));
}

/// Exec mirror of [`parse_prop`].
fn parse_prop_at(s: &str, i: usize) -> (r: Option<(Property, usize)>)
    requires
        i <= s@.len(),
    ensures
        match r {
            Some((p, j)) => parse_prop(s@, i as int) == Some((prop_view(p), j as int)) && i < j
                <= s@.len(),
            None => parse_prop(s@, i as int) is None,
        },
{
    proof {
        reveal_lits();
    }
    let n = s.unicode_len();
    if match_lit(s, i, "{\"Name\":") {
        proof {
            assert(i + 8 <= n);
        }
        match parse_string_at(s, i + 8) {
            Some((t, j)) => {
                if j < n && s.get_char(j) == '}' {
                    Some((Property::Name(t), j + 1))
                } else {
                    None
                }
            },
            None => None,
        }
    } else if match_lit(s, i, "{\"IconName\":") {
        proof {
            assert(i + 12 <= n);
        }
        match parse_string_at(s, i + 12) {
            Some((t, j)) => {
                if j < n && s.get_char(j) == '}' {
                    Some((Property::IconName(t), j + 1))
                } else {
                    None
                }
            },
            None => None,
        }
    } else if match_lit(s, i, "{\"Speed\":") {
        proof {
            assert(i + 9 <= n);
        }
        match parse_u64_at(s, i + 9) {
            Some((v, j)) => {
                if j < n && s.get_char(j) == '}' {
                    Some((Property::Speed(v), j + 1))
                } else {
                    None
                }
            },
            None => None,
        }
    } else if match_lit(s, i, "{\"SignalQuality\":") {
        proof {
            assert(i + 17 <= n);
        }
        let k = i + 17;
        if match_lit(s, k, "\"None\"}") {
            Some((Property::SignalQuality(SignalQuality::NoSignal), k + 7))
        } else if match_lit(s, k, "\"Weak\"}") {
            Some((Property::SignalQuality(SignalQuality::Weak), k + 7))
        } else if match_lit(s, k, "\"Ok\"}") {
            Some((Property::SignalQuality(SignalQuality::Okay), k + 5))
        } else if match_lit(s, k, "\"Good\"}") {
            Some((Property::SignalQuality(SignalQuality::Good), k + 7))
        } else if match_lit(s, k, "\"Excellent\"}") {
            Some((Property::SignalQuality(SignalQuality::Excellent), k + 12))
        } else {
            None
        }
    } else if match_lit(s, i, "{\"Location\":null}") {
        Some((Property::Location(None), i + 17))
    } else if match_lit(s, i, "{\"Location\":{\"latitude\":") {
        proof {
            assert(i + 24 <= n);
        }
        match parse_i64_at(s, i + 24) {
            Some((lat, j)) => {
                if match_lit(s, j, ",\"longitude\":") {
                    proof {
                        assert(j + 13 <= n);
                    }
                    match parse_i64_at(s, j + 13) {
                        Some((lon, k)) => {
                            if match_lit(s, k, "}}") {
                                Some((
                                    Property::Location(
                                        Some(Location { latitude: lat, longitude: lon }),
                                    ),
                                    k + 2,
                                ))
                            } else {
                                None
                            }
                        },
                        None => None,
                    }
                } else {
                    None
                }
            },
            None => None,
        }
    } else {
        None
    }
}

/// Exec mirror of [`parse_props`], started on an empty accumulator.
fn parse_props_at(s: &str, i: usize) -> (r: Option<(Vec<Property>, usize)>)
    requires
        i <= s@.len(),
    ensures
        match r {
            Some((ps, j)) => parse_props(s@, i as int, Seq::<PropertyV>::empty()) == Some(
                (props_view(ps@), j as int),
            ) && j <= s@.len(),
            None => parse_props(s@, i as int, Seq::<PropertyV>::empty()) is None,
        },
{
    let n = s.unicode_len();
    let mut acc: Vec<Property> = Vec::new();
    let mut j: usize = i;
    proof {
        assert(props_view(acc@) =~= Seq::<PropertyV>::empty());
    }
    loop
        invariant
            i <= j <= n,
            n == s@.len(),
            parse_props(s@, i as int, Seq::<PropertyV>::empty()) == parse_props(
                s@,
                j as int,
                props_view(acc@),
            ),
        decreases n - j,
    {
        if j >= n {
            return None;
        }
        let c = s.get_char(j);
        if c == ']' {
            return Some((acc, j + 1));
        }
        match parse_prop_at(s, j) {
            Some((p, j2)) => {
                if j2 < n {
                    let c2 = s.get_char(j2);
                    if c2 == ',' {
                        proof {
                            lemma_props_view_push(acc@, p);
                        }
                        acc.push(p);
                        j = j2 + 1;
                    } else if c2 == ']' {
                        proof {
                            lemma_props_view_push(acc@, p);
                        }
                        acc.push(p);
                        return Some((acc, j2 + 1));
                    } else {
                        return None;
                    }
                } else {
                    return None;
                }
            },
            None => {
                return None;
            },
        }
    }
}

/// Decodes a payload in the canonical wire form; `None` on anything else.
pub fn decode(s: &str) -> (r: Option<PublishData>)
    ensures
        match r {
            Some(e) => spec_decode(s@) == Some(envelope_view(e)),
            None => spec_decode(s@) is None,
        },
{
    proof {
        reveal_lits();
    }
    let n = s.unicode_len();
    if match_lit(s, 0, "{\"PropertyChanged\":[") {
        proof {
            assert(20 <= n);
        }
        match parse_props_at(s, 20) {
            Some((ps, j)) => {
                if j < n && j + 1 == n && s.get_char(j) == '}' {
                    Some(PublishData::PropertyChanged(ps))
                } else {
                    None
                }
            },
            None => None,
        }
    } else if match_lit(s, 0, "{\"Alert\":") {
        proof {
            assert(9 <= n);
        }
        if match_lit(s, 9, "\"Sos\"}") && n == 15 {
            Some(PublishData::Alert(AlertType::Sos))
        } else if match_lit(s, 9, "\"Hazard\"}") && n == 18 {
            Some(PublishData::Alert(AlertType::Hazard))
        } else if match_lit(s, 9, "\"Yielding\"}") && n == 20 {
            Some(PublishData::Alert(AlertType::Yielding))
        } else {
            None
        }
    } else if match_lit(s, 0, "{\"CallRequest\":{\"destination\":") {
        proof {
            assert(30 <= n);
        }
        match parse_u64_at(s, 30) {
            Some((d, j)) => {
                if match_lit(s, j, "}}") && n == j + 2 {
                    Some(PublishData::CallRequest { destination: d })
                } else {
                    None
                }
            },
            None => None,
        }
    } else if match_lit(s, 0, "{\"CallRequestCancel\":{\"destination\":") {
        proof {
            assert(36 <= n);
        }
        match parse_u64_at(s, 36) {
            Some((d, j)) => {
                if match_lit(s, j, "}}") && n == j + 2 {
                    Some(PublishData::CallRequestCancel { destination: d })
                } else {
                    None
                }
            },
            None => None,
        }
    } else if match_lit(s, 0, "{\"CallRequestResponse\":{\"destination\":") {
        proof {
            assert(38 <= n);
        }
        match parse_u64_at(s, 38) {
            Some((d, j)) => {
                if match_lit(s, j, ",\"response\":") {
                    proof {
                        assert(j + 12 <= n);
                    }
                    let k = j + 12;
                    if match_lit(s, k, "\"Accept\"}}") && n == k + 10 {
                        Some(
                            PublishData::CallRequestResponse {
                                destination: d,
                                response: CallRequestResponse::Accept,
                            },
                        )
                    } else if match_lit(s, k, "\"Cancelled\"}}") && n == k + 13 {
                        Some(
                            PublishData::CallRequestResponse {
                                destination: d,
                                response: CallRequestResponse::Cancelled,
                            },
                        )
                    } else if match_lit(s, k, "{\"Reject\":\"AlreadyInCall\"}}}") && n == k + 28 {
                        Some(
                            PublishData::CallRequestResponse {
                                destination: d,
                                response: CallRequestResponse::Reject(
                                    CallRequestRejectReason::AlreadyInCall,
                                ),
                            },
                        )
                    } else if match_lit(s, k, "{\"Reject\":\"RejectedByUser\"}}}") && n == k + 29 {
                        Some(
                            PublishData::CallRequestResponse {
                                destination: d,
                                response: CallRequestResponse::Reject(
                                    CallRequestRejectReason::RejectedByUser,
                                ),
                            },
                        )
                    } else if match_lit(s, k, "{\"Reject\":\"MutedByUser\"}}}") && n == k + 26 {
                        Some(
                            PublishData::CallRequestResponse {
                                destination: d,
                                response: CallRequestResponse::Reject(
                                    CallRequestRejectReason::MutedByUser,
                                ),
                            },
                        )
                    } else if match_lit(s, k, "{\"Reject\":\"Other\"}}}") && n == k + 20 {
                        Some(
                            PublishData::CallRequestResponse {
                                destination: d,
                                response: CallRequestResponse::Reject(
                                    CallRequestRejectReason::Other,
                                ),
                            },
                        )
                    } else {
                        None
                    }
                } else {
                    None
                }
            },
            None => None,
        }
    } else {
        None
    }
}

// ---------------------------------------------------------------------------
// Round trip
// ---------------------------------------------------------------------------

/// Exports the lengths of the literal fragments and the single characters
/// the disambiguation steps compare.
proof fn reveal_lits()
    ensures
        lit_pc().len() == 20,
        lit_alert().len() == 9,
        lit_cr().len() == 30,
        lit_crc().len() == 36,
        lit_crr().len() == 38,
        lit_resp().len() == 12,
        lit_name().len() == 8,
        lit_icon().len() == 12,
        lit_speed().len() == 9,
        lit_sq().len() == 17,
        lit_loc_null().len() == 17,
        lit_loc().len() == 24,
        lit_lon().len() == 13,
        lit_close2().len() == 2,
        lit_pc()[2] == 'P',
        lit_alert()[2] == 'A',
        lit_cr()[2] == 'C',
        lit_cr()[13] == '"',
        lit_crc()[2] == 'C',
        lit_crc()[13] == 'C',
        lit_crr()[2] == 'C',
        lit_crr()[13] == 'R',
        lit_name()[2] == 'N',
        lit_icon()[2] == 'I',
        lit_speed()[2] == 'S',
        lit_speed()[3] == 'p',
        lit_sq()[2] == 'S',
        lit_sq()[3] == 'i',
        lit_loc()[2] == 'L',
        lit_loc()[12] == '{',
        lit_loc_null()[2] == 'L',
        lit_loc_null()[12] == 'n',
        lit_lon()[0] == ',',
        lit_resp()[0] == ',',
        lit_close2()[0] == '}',
        alert_lit(AlertType::Sos).len() == 6,
        alert_lit(AlertType::Hazard).len() == 9,
        alert_lit(AlertType::Yielding).len() == 11,
        alert_lit(AlertType::Sos)[1] == 'S',
        alert_lit(AlertType::Hazard)[1] == 'H',
        alert_lit(AlertType::Yielding)[1] == 'Y',
        quality_lit(SignalQuality::NoSignal).len() == 7,
        quality_lit(SignalQuality::Weak).len() == 7,
        quality_lit(SignalQuality::Okay).len() == 5,
        quality_lit(SignalQuality::Good).len() == 7,
        quality_lit(SignalQuality::Excellent).len() == 12,
        quality_lit(SignalQuality::NoSignal)[1] == 'N',
        quality_lit(SignalQuality::Weak)[1] == 'W',
        quality_lit(SignalQuality::Okay)[1] == 'O',
        quality_lit(SignalQuality::Good)[1] == 'G',
        quality_lit(SignalQuality::Excellent)[1] == 'E',
        response_lit(CallRequestResponse::Accept).len() == 10,
        response_lit(CallRequestResponse::Cancelled).len() == 13,
        response_lit(CallRequestResponse::Reject(CallRequestRejectReason::AlreadyInCall)).len()
            == 28,
        response_lit(CallRequestResponse::Reject(CallRequestRejectReason::RejectedByUser)).len()
            == 29,
        response_lit(CallRequestResponse::Reject(CallRequestRejectReason::MutedByUser)).len()
            == 26,
        response_lit(CallRequestResponse::Reject(CallRequestRejectReason::Other)).len() == 20,
        response_lit(CallRequestResponse::Accept)[0] == '"',
        response_lit(CallRequestResponse::Accept)[1] == 'A',
        response_lit(CallRequestResponse::Cancelled)[0] == '"',
        response_lit(CallRequestResponse::Cancelled)[1] == 'C',
        response_lit(CallRequestResponse::Reject(CallRequestRejectReason::AlreadyInCall))[0]
            == '{',
        response_lit(CallRequestResponse::Reject(CallRequestRejectReason::RejectedByUser))[0]
            == '{',
        response_lit(CallRequestResponse::Reject(CallRequestRejectReason::MutedByUser))[0] == '{',
        response_lit(CallRequestResponse::Reject(CallRequestRejectReason::Other))[0] == '{',
        response_lit(CallRequestResponse::Reject(CallRequestRejectReason::AlreadyInCall))[11]
            == 'A',
        response_lit(CallRequestResponse::Reject(CallRequestRejectReason::RejectedByUser))[11]
            == 'R',
        response_lit(CallRequestResponse::Reject(CallRequestRejectReason::MutedByUser))[11]
            == 'M',
        response_lit(CallRequestResponse::Reject(CallRequestRejectReason::Other))[11] == 'O',
        lit_pc()[0] == '{',
        lit_alert()[0] == '{',
        lit_cr()[0] == '{',
        lit_crc()[0] == '{',
        lit_crr()[0] == '{',
        lit_name()[0] == '{',
        lit_icon()[0] == '{',
        lit_speed()[0] == '{',
        lit_sq()[0] == '{',
        lit_loc()[0] == '{',
        lit_loc_null()[0] == '{',
{
    reveal_strlit("{\"PropertyChanged\":[");
    reveal_strlit("{\"Alert\":");
    reveal_strlit("{\"CallRequest\":{\"destination\":");
    reveal_strlit("{\"CallRequestCancel\":{\"destination\":");
    reveal_strlit("{\"CallRequestResponse\":{\"destination\":");
    reveal_strlit(",\"response\":");
    reveal_strlit("{\"Name\":");
    reveal_strlit("{\"IconName\":");
    reveal_strlit("{\"Speed\":");
    reveal_strlit("{\"SignalQuality\":");
    reveal_strlit("{\"Location\":null}");
    reveal_strlit("{\"Location\":{\"latitude\":");
    reveal_strlit(",\"longitude\":");
    reveal_strlit("}}");
    reveal_strlit("\"Sos\"}");
    reveal_strlit("\"Hazard\"}");
    reveal_strlit("\"Yielding\"}");
    reveal_strlit("\"None\"}");
    reveal_strlit("\"Weak\"}");
    reveal_strlit("\"Ok\"}");
    reveal_strlit("\"Good\"}");
    reveal_strlit("\"Excellent\"}");
    reveal_strlit("\"Accept\"}}");
    reveal_strlit("\"Cancelled\"}}");
    reveal_strlit("{\"Reject\":\"AlreadyInCall\"}}}");
    reveal_strlit("{\"Reject\":\"RejectedByUser\"}}}");
    reveal_strlit("{\"Reject\":\"MutedByUser\"}}}");
    reveal_strlit("{\"Reject\":\"Other\"}}}");
}

/// A property's canonical form is not empty and opens its object brace.
proof fn lemma_enc_prop_first(p: PropertyV)
    ensures
        spec_enc_prop(p).len() >= 1,
        spec_enc_prop(p)[0] == '{',
{
    reveal_lits();
    match p {
        PropertyV::Name(t) => {
            assert(spec_enc_prop(p)[0] == lit_name()[0]);
        },
        PropertyV::IconName(t) => {
            assert(spec_enc_prop(p)[0] == lit_icon()[0]);
        },
        PropertyV::Speed(v) => {
            assert(spec_enc_prop(p)[0] == lit_speed()[0]);
        },
        PropertyV::SignalQuality(q) => {
            assert(spec_enc_prop(p)[0] == lit_sq()[0]);
        },
        PropertyV::Location(l) => {
            if l is Some {
                assert(spec_enc_prop(p)[0] == lit_loc()[0]);
            } else {
                assert(spec_enc_prop(p)[0] == lit_loc_null()[0]);
            }
        },
    }
}

/// Parsing directly after one encoded property yields exactly that property.
proof fn lemma_parse_prop_of_enc(p: PropertyV, s: Seq<char>, i: int)
    requires
        matches_at(s, i, spec_enc_prop(p)),
    ensures
        parse_prop(s, i) == Some((p, i + spec_enc_prop(p).len())),
{
    reveal_lits();
    let e = spec_enc_prop(p);
    match p {
        PropertyV::Name(t) => {
            lemma_matches_split(s, i, lit_name() + spec_enc_string(t), seq!['}']);
            lemma_matches_split(s, i, lit_name(), spec_enc_string(t));
            lemma_parse_string_of_enc(t, s, i + lit_name().len());
            lemma_matches_index(s, i + lit_name().len() + spec_enc_string(t).len(), seq!['}'], 0);
        },
        PropertyV::IconName(t) => {
            lemma_matches_split(s, i, lit_icon() + spec_enc_string(t), seq!['}']);
            lemma_matches_split(s, i, lit_icon(), spec_enc_string(t));
            lemma_not_matches(s, i, lit_name(), lit_icon(), 2);
            lemma_parse_string_of_enc(t, s, i + lit_icon().len());
            lemma_matches_index(s, i + lit_icon().len() + spec_enc_string(t).len(), seq!['}'], 0);
        },
        PropertyV::Speed(v) => {
            lemma_matches_split(s, i, lit_speed() + spec_enc_u64(v as nat), seq!['}']);
            lemma_matches_split(s, i, lit_speed(), spec_enc_u64(v as nat));
            lemma_not_matches(s, i, lit_name(), lit_speed(), 2);
            lemma_not_matches(s, i, lit_icon(), lit_speed(), 2);
            let j = i + lit_speed().len() + spec_enc_u64(v as nat).len();
            lemma_matches_index(s, j, seq!['}'], 0);
            lemma_parse_u64_of_enc(v, s, i + lit_speed().len());
        },
        PropertyV::SignalQuality(q) => {
            lemma_matches_split(s, i, lit_sq(), quality_lit(q));
            lemma_not_matches(s, i, lit_name(), lit_sq(), 2);
            lemma_not_matches(s, i, lit_icon(), lit_sq(), 2);
            lemma_not_matches(s, i, lit_speed(), lit_sq(), 3);
            let k = i + lit_sq().len();
            match q {
                SignalQuality::NoSignal => {
                },
                SignalQuality::Weak => {
                    lemma_not_matches(s, k, quality_lit(SignalQuality::NoSignal), quality_lit(q), 1);
                },
                SignalQuality::Okay => {
                    lemma_not_matches(s, k, quality_lit(SignalQuality::NoSignal), quality_lit(q), 1);
                    lemma_not_matches(s, k, quality_lit(SignalQuality::Weak), quality_lit(q), 1);
                },
                SignalQuality::Good => {
                    lemma_not_matches(s, k, quality_lit(SignalQuality::NoSignal), quality_lit(q), 1);
                    lemma_not_matches(s, k, quality_lit(SignalQuality::Weak), quality_lit(q), 1);
                    lemma_not_matches(s, k, quality_lit(SignalQuality::Okay), quality_lit(q), 1);
                },
                SignalQuality::Excellent => {
                    lemma_not_matches(s, k, quality_lit(SignalQuality::NoSignal), quality_lit(q), 1);
                    lemma_not_matches(s, k, quality_lit(SignalQuality::Weak), quality_lit(q), 1);
                    lemma_not_matches(s, k, quality_lit(SignalQuality::Okay), quality_lit(q), 1);
                    lemma_not_matches(s, k, quality_lit(SignalQuality::Good), quality_lit(q), 1);
                },
            }
        },
        PropertyV::Location(l) => {
            match l {
                Some(loc) => {
                    let e1 = lit_loc();
                    let e2 = spec_enc_i64(loc.latitude as int);
                    let e3 = lit_lon();
                    let e4 = spec_enc_i64(loc.longitude as int);
                    lemma_matches_split(s, i, e1 + e2 + e3 + e4, lit_close2());
                    lemma_matches_split(s, i, e1 + e2 + e3, e4);
                    lemma_matches_split(s, i, e1 + e2, e3);
                    lemma_matches_split(s, i, e1, e2);
                    lemma_not_matches(s, i, lit_name(), e1, 2);
                    lemma_not_matches(s, i, lit_icon(), e1, 2);
                    lemma_not_matches(s, i, lit_speed(), e1, 2);
                    lemma_not_matches(s, i, lit_sq(), e1, 2);
                    lemma_not_matches(s, i, lit_loc_null(), e1, 12);
                    let j = i + e1.len() + e2.len();
                    lemma_matches_index(s, j, e3, 0);
                    lemma_parse_i64_of_enc(loc.latitude, s, i + e1.len());
                    let k = j + e3.len() + e4.len();
                    lemma_matches_index(s, k, lit_close2(), 0);
                    lemma_parse_i64_of_enc(loc.longitude, s, j + e3.len());
                },
                None => {
                    lemma_not_matches(s, i, lit_name(), lit_loc_null(), 2);
                    lemma_not_matches(s, i, lit_icon(), lit_loc_null(), 2);
                    lemma_not_matches(s, i, lit_speed(), lit_loc_null(), 2);
                    lemma_not_matches(s, i, lit_sq(), lit_loc_null(), 2);
                },
            }
        },
    }
}

/// Parsing a property list over its canonical form appends the properties to
/// the accumulator and consumes the closing bracket.
proof fn lemma_parse_props_of_enc(ps: Seq<PropertyV>, s: Seq<char>, i: int, acc: Seq<PropertyV>)
    requires
        matches_at(s, i, spec_enc_props(ps)),
    ensures
        parse_props(s, i, acc) == Some((acc + ps, i + spec_enc_props(ps).len())),
    decreases ps.len(),
{
    reveal_lits();
    if ps.len() == 0 {
        lemma_matches_index(s, i, spec_enc_props(ps), 0);
        assert(s[i] == ']');
        assert(acc + ps =~= acc);
    } else if ps.len() == 1 {
        lemma_matches_split(s, i, spec_enc_prop(ps[0]), seq![']']);
        lemma_enc_prop_first(ps[0]);
        lemma_matches_index(s, i, spec_enc_prop(ps[0]), 0);
        lemma_parse_prop_of_enc(ps[0], s, i);
        let j = i + spec_enc_prop(ps[0]).len();
        lemma_matches_index(s, j, seq![']'], 0);
        assert(acc + ps =~= acc.push(ps[0]));
    } else {
        lemma_matches_split(s, i, spec_enc_prop(ps[0]) + seq![','], spec_enc_props(ps.skip(1)));
        lemma_matches_split(s, i, spec_enc_prop(ps[0]), seq![',']);
        lemma_enc_prop_first(ps[0]);
        lemma_matches_index(s, i, spec_enc_prop(ps[0]), 0);
        lemma_parse_prop_of_enc(ps[0], s, i);
        let j = i + spec_enc_prop(ps[0]).len();
        lemma_matches_index(s, j, seq![','], 0);
        lemma_parse_props_of_enc(ps.skip(1), s, j + 1, acc.push(ps[0]));
        assert(acc.push(ps[0]) + ps.skip(1) =~= acc + ps);
    }
}

/// Decoding the canonical form of an envelope yields exactly that envelope:
/// the round trip at the level the wire carries.
pub proof fn lemma_decode_of_encode(e: PublishDataV)
    ensures
        spec_decode(spec_enc_envelope(e)) == Some(e),
{
    reveal_lits();
    let s = spec_enc_envelope(e);
    assert(matches_at(s, 0, s)) by {
        assert(s.subrange(0, s.len() as int) =~= s);
    }
    match e {
        PublishDataV::PropertyChanged(ps) => {
            lemma_matches_split(s, 0, lit_pc() + spec_enc_props(ps), seq!['}']);
            lemma_matches_split(s, 0, lit_pc(), spec_enc_props(ps));
            lemma_parse_props_of_enc(ps, s, lit_pc().len() as int, Seq::<PropertyV>::empty());
            let j = lit_pc().len() + spec_enc_props(ps).len();
            lemma_matches_index(s, j as int, seq!['}'], 0);
            assert(Seq::<PropertyV>::empty() + ps =~= ps);
        },
        PublishDataV::Alert(a) => {
            lemma_matches_split(s, 0, lit_alert(), alert_lit(a));
            lemma_not_matches(s, 0, lit_pc(), lit_alert(), 2);
            let i = lit_alert().len() as int;
            match a {
                AlertType::Sos => {
                },
                AlertType::Hazard => {
                    lemma_not_matches(s, i, alert_lit(AlertType::Sos), alert_lit(a), 1);
                },
                AlertType::Yielding => {
                    lemma_not_matches(s, i, alert_lit(AlertType::Sos), alert_lit(a), 1);
                    lemma_not_matches(s, i, alert_lit(AlertType::Hazard), alert_lit(a), 1);
                },
            }
        },
        PublishDataV::CallRequest { destination } => {
            lemma_matches_split(s, 0, lit_cr() + spec_enc_u64(destination as nat), lit_close2());
            lemma_matches_split(s, 0, lit_cr(), spec_enc_u64(destination as nat));
            lemma_not_matches(s, 0, lit_pc(), lit_cr(), 2);
            lemma_not_matches(s, 0, lit_alert(), lit_cr(), 2);
            let j = lit_cr().len() + spec_enc_u64(destination as nat).len();
            lemma_matches_index(s, j as int, lit_close2(), 0);
            lemma_parse_u64_of_enc(destination, s, lit_cr().len() as int);
        },
        PublishDataV::CallRequestCancel { destination } => {
            lemma_matches_split(s, 0, lit_crc() + spec_enc_u64(destination as nat), lit_close2());
            lemma_matches_split(s, 0, lit_crc(), spec_enc_u64(destination as nat));
            lemma_not_matches(s, 0, lit_pc(), lit_crc(), 2);
            lemma_not_matches(s, 0, lit_alert(), lit_crc(), 2);
            lemma_not_matches(s, 0, lit_cr(), lit_crc(), 13);
            let j = lit_crc().len() + spec_enc_u64(destination as nat).len();
            lemma_matches_index(s, j as int, lit_close2(), 0);
            lemma_parse_u64_of_enc(destination, s, lit_crc().len() as int);
        },
        PublishDataV::CallRequestResponse { destination, response } => {
            let d = spec_enc_u64(destination as nat);
            lemma_matches_split(s, 0, lit_crr() + d + lit_resp(), response_lit(response));
            lemma_matches_split(s, 0, lit_crr() + d, lit_resp());
            lemma_matches_split(s, 0, lit_crr(), d);
            lemma_not_matches(s, 0, lit_pc(), lit_crr(), 2);
            lemma_not_matches(s, 0, lit_alert(), lit_crr(), 2);
            lemma_not_matches(s, 0, lit_cr(), lit_crr(), 13);
            lemma_not_matches(s, 0, lit_crc(), lit_crr(), 13);
            let j = lit_crr().len() + d.len();
            lemma_matches_index(s, j as int, lit_resp(), 0);
            lemma_parse_u64_of_enc(destination, s, lit_crr().len() as int);
            let k = j + lit_resp().len();
            let ra = response_lit(CallRequestResponse::Accept);
            let rc = response_lit(CallRequestResponse::Cancelled);
            let r1 = response_lit(
                CallRequestResponse::Reject(CallRequestRejectReason::AlreadyInCall),
            );
            let r2 = response_lit(
                CallRequestResponse::Reject(CallRequestRejectReason::RejectedByUser),
            );
            let r3 = response_lit(CallRequestResponse::Reject(CallRequestRejectReason::MutedByUser));
            let rl = response_lit(response);
            match response {
                CallRequestResponse::Accept => {
                },
                CallRequestResponse::Cancelled => {
                    lemma_not_matches(s, k as int, ra, rl, 1);
                },
                CallRequestResponse::Reject(reason) => {
                    lemma_not_matches(s, k as int, ra, rl, 0);
                    lemma_not_matches(s, k as int, rc, rl, 0);
                    match reason {
                        CallRequestRejectReason::AlreadyInCall => {
                        },
                        CallRequestRejectReason::RejectedByUser => {
                            lemma_not_matches(s, k as int, r1, rl, 11);
                        },
                        CallRequestRejectReason::MutedByUser => {
                            lemma_not_matches(s, k as int, r1, rl, 11);
                            lemma_not_matches(s, k as int, r2, rl, 11);
                        },
                        CallRequestRejectReason::Other => {
                            lemma_not_matches(s, k as int, r1, rl, 11);
                            lemma_not_matches(s, k as int, r2, rl, 11);
                            lemma_not_matches(s, k as int, r3, rl, 11);
                        },
                    }
                },
            }
        },
    }
}

} // verus!
