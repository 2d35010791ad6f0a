//! Decimal notation for integers: the spec-level definition and the
//! trusted bridges to std's formatting.
use vstd::prelude::*;

verus! {

/// The character for a single decimal digit `d` in `0 ..= 9`.
pub open spec fn dec_digit(d: int) -> char {
    if d == 0 {
        '0'
    } else if d == 1 {
        '1'
    } else if d == 2 {
        '2'
    } else if d == 3 {
        '3'
    } else if d == 4 {
        '4'
    } else if d == 5 {
        '5'
    } else if d == 6 {
        '6'
    } else if d == 7 {
        '7'
    } else if d == 8 {
        '8'
    } else {
        '9'
    }
}

/// Whether `c` is an ASCII decimal digit.
pub open spec fn is_digit(c: char) -> bool {
    '0' as int <= c as int && c as int <= '9' as int
}

/// The numeric value of an ASCII decimal digit.
pub open spec fn digit_val(c: char) -> int {
    c as int - '0' as int
}

/// The decimal digits of a non-negative integer, most significant first.
pub open spec fn spec_dec_digits(n: nat) -> Seq<char>
    decreases n,
{
    if n < 10 {
        seq![dec_digit(n as int)]
    } else {
        spec_dec_digits(n / 10).push(dec_digit((n % 10) as int))
    }
}

/// The decimal notation of an integer, with a leading `-` when negative.
pub open spec fn spec_dec_str(i: int) -> Seq<char> {
    if i < 0 {
        seq!['-'] + spec_dec_digits((-i) as nat)
    } else {
        spec_dec_digits(i as nat)
    }
}

/// The integer denoted by a sequence of decimal digits (0 when empty).
pub open spec fn spec_digits_val(s: Seq<char>) -> int
    decreases s.len(),
{
    if s.len() == 0 {
        0
    } else {
        spec_digits_val(s.drop_last()) * 10 + digit_val(s.last())
    }
}

/// Whether every character of `s` is a decimal digit.
pub open spec fn all_digits(s: Seq<char>) -> bool {
    forall|i: int| 0 <= i < s.len() ==> is_digit(s[i])
}

proof fn lemma_digit_roundtrip(d: int)
    requires
        0 <= d < 10,
    ensures
        digit_val(dec_digit(d)) == d,
        is_digit(dec_digit(d)),
{
}

/// Reading back the decimal digits of `n` yields `n` again.
pub proof fn lemma_digits_roundtrip(n: nat)
    ensures
        spec_digits_val(spec_dec_digits(n)) == n,
        all_digits(spec_dec_digits(n)),
        spec_dec_digits(n).len() >= 1,
    decreases n,
{
    if n < 10 {
        lemma_digit_roundtrip(n as int);
        let s = spec_dec_digits(n);
        assert(s =~= seq![dec_digit(n as int)]);
        assert(s.drop_last() =~= Seq::<char>::empty());
        assert(spec_digits_val(Seq::<char>::empty()) == 0);
        assert(s.last() == dec_digit(n as int));
        assert(spec_digits_val(s) == digit_val(dec_digit(n as int)));
    } else {
        lemma_digits_roundtrip(n / 10);
        lemma_digit_roundtrip((n % 10) as int);
        let s = spec_dec_digits(n);
        assert(s.drop_last() =~= spec_dec_digits(n / 10));
        assert(spec_digits_val(s) == (n / 10) * 10 + n % 10);
        assert((n / 10) * 10 + n % 10 == n) by (nonlinear_arith);
        assert forall|i: int| 0 <= i < s.len() implies is_digit(s[i]) by {
            if i < s.len() - 1 {
                assert(s[i] == spec_dec_digits(n / 10)[i]);
            }
        }
    }
}

/// The power `10^k`.
pub open spec fn pow10(k: nat) -> int
    decreases k,
{
    if k == 0 {
        1
    } else {
        10 * pow10((k - 1) as nat)
    }
}

/// Powers of ten are positive.
pub proof fn lemma_pow10_pos(k: nat)
    ensures
        pow10(k) >= 1,
    decreases k,
{
    if k > 0 {
        lemma_pow10_pos((k - 1) as nat);
    }
}

/// The value of a digit string is non-negative.
pub proof fn lemma_digits_val_nonneg(s: Seq<char>)
    requires
        all_digits(s),
    ensures
        spec_digits_val(s) >= 0,
    decreases s.len(),
{
    if s.len() > 0 {
        assert(all_digits(s.drop_last())) by {
            assert forall|i: int| 0 <= i < s.drop_last().len() implies is_digit(
                #[trigger] s.drop_last()[i],
            ) by {
                assert(s.drop_last()[i] == s[i]);
            }
        }
        lemma_digits_val_nonneg(s.drop_last());
        assert(is_digit(s.last()));
    }
}

/// A digit string's value decomposes at the front: the leading digit
/// weighs a power of ten, the rest keeps its own value.
pub proof fn lemma_digits_val_front(s: Seq<char>)
    requires
        s.len() > 0,
    ensures
        spec_digits_val(s) == digit_val(s[0]) * pow10((s.len() - 1) as nat) + spec_digits_val(
            s.subrange(1, s.len() as int),
        ),
    decreases s.len(),
{
    let rest = s.subrange(1, s.len() as int);
    if s.len() == 1 {
        assert(rest =~= Seq::<char>::empty());
        assert(s.drop_last() =~= Seq::<char>::empty());
        assert(s.last() == s[0]);
    } else {
        let head = s.drop_last();
        lemma_digits_val_front(head);
        assert(head[0] == s[0]);
        assert(head.subrange(1, head.len() as int) =~= rest.drop_last());
        assert(rest.last() == s.last());
        let k = (s.len() - 2) as nat;
        assert(spec_digits_val(head) == digit_val(s[0]) * pow10(k) + spec_digits_val(
            rest.drop_last(),
        ));
        assert(spec_digits_val(s) == spec_digits_val(head) * 10 + digit_val(s.last()));
        assert(spec_digits_val(rest) == spec_digits_val(rest.drop_last()) * 10 + digit_val(
            rest.last(),
        ));
        assert((digit_val(s[0]) * pow10(k) + spec_digits_val(rest.drop_last())) * 10 == digit_val(
            s[0],
        ) * (10 * pow10(k)) + spec_digits_val(rest.drop_last()) * 10) by (nonlinear_arith);
        assert(pow10((s.len() - 1) as nat) == 10 * pow10(k));
    }
}

/// Relies on `i64`'s `ToString`/`Display` implementation, whose documented
/// output is the plain decimal notation with a leading `-` when negative.
#[verifier::external_body]
pub fn int_to_string(i: i64) -> (r: String)
    ensures
        r@ == spec_dec_str(i as int),
{
    i.to_string()
}

/// Relies on `usize`'s `ToString`/`Display` implementation, whose documented
/// output is the plain decimal notation.
#[verifier::external_body]
pub fn usize_to_string(n: usize) -> (r: String)
    ensures
        r@ == spec_dec_str(n as int),
{
    n.to_string()
}

} // verus!
