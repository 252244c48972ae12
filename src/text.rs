//! Decimal digits and character sequences.

use vstd::prelude::*;

verus! {

pub open spec fn is_digit(c: char) -> bool {
    '0' <= c && c <= '9'
}

pub open spec fn digit_value(c: char) -> int {
    c as int - '0' as int
}

/// The character of a decimal digit `d` (0 to 9).
pub open spec fn digit_char(d: int) -> char {
    if d == 0 {
        '0'
    } else if d == 1 {
        '1'
    } else if d == 2 {
        '2'
    } else if d == 3 {
        '3'
    } else if d == 4 {
        '4'
    } else if d == 5 {
        '5'
    } else if d == 6 {
        '6'
    } else if d == 7 {
        '7'
    } else if d == 8 {
        '8'
    } else {
        '9'
    }
}

pub open spec fn all_digits(s: Seq<char>) -> bool {
    forall|i: int| 0 <= i < s.len() ==> #[trigger] is_digit(s[i])
}

/// The number that a string of decimal digits denotes.
pub open spec fn digits_value(s: Seq<char>) -> int
    decreases s.len(),
{
    if s.len() == 0 {
        0
    } else {
        digits_value(s.drop_last()) * 10 + digit_value(s.last())
    }
}

/// The canonical decimal writing of `n`: no leading zero, "0" for zero.
pub open spec fn decimal(n: nat) -> Seq<char>
    decreases n,
{
    if n < 10 {
        seq![digit_char(n as int)]
    } else {
        decimal(n / 10).push(digit_char((n % 10) as int))
    }
}

/// The decimal writing of a signed integer, with a leading `-` when negative.
pub open spec fn int_text(i: int) -> Seq<char> {
    if i < 0 {
        seq!['-'] + decimal((-i) as nat)
    } else {
        decimal(i as nat)
    }
}

/// Whether `s` is a non-empty run of digits that denotes a value of `i64`.
pub open spec fn is_i64_digits(s: Seq<char>) -> bool {
    s.len() > 0 && all_digits(s) && digits_value(s) <= i64::MAX
}

pub proof fn lemma_digit_char(d: int)
    requires
        0 <= d < 10,
    ensures
        is_digit(digit_char(d)),
        digit_value(digit_char(d)) == d,
        digit_char(d) != '|',
        digit_char(d) != '-',
{
}

/// The canonical writing of `n` is a non-empty run of digits that denotes `n`.
pub proof fn lemma_decimal(n: nat)
    ensures
        decimal(n).len() > 0,
        all_digits(decimal(n)),
        digits_value(decimal(n)) == n,
        n > 0 ==> decimal(n)[0] != '0',
    decreases n,
{
    if n < 10 {
        lemma_digit_char(n as int);
        assert(decimal(n).drop_last() =~= Seq::<char>::empty());
        assert(digits_value(Seq::<char>::empty()) == 0);
    } else {
        lemma_decimal(n / 10);
        lemma_digit_char((n % 10) as int);
        let s = decimal(n);
        assert(s.drop_last() =~= decimal(n / 10));
        assert(s.last() == digit_char((n % 10) as int));
        assert(n == (n / 10) * 10 + n % 10);
        assert forall|i: int| 0 <= i < s.len() implies #[trigger] is_digit(s[i]) by {
            if i < s.len() - 1 {
                assert(s[i] == decimal(n / 10)[i]);
            }
        }
    }
}

/// The digits read so far never denote more than the whole run.
pub proof fn lemma_digits_prefix(s: Seq<char>, k: int)
    requires
        all_digits(s),
        0 <= k <= s.len(),
    ensures
        0 <= digits_value(s.take(k)) <= digits_value(s),
    decreases s.len() - k,
{
    if k == s.len() {
        assert(s.take(k) =~= s);
        lemma_digits_nonneg(s);
    } else {
        lemma_digits_prefix(s, k + 1);
        assert(s.take(k + 1).drop_last() =~= s.take(k));
        assert(is_digit(s[k]));
        lemma_digits_nonneg(s.take(k));
    }
}

pub proof fn lemma_digits_nonneg(s: Seq<char>)
    requires
        all_digits(s),
    ensures
        digits_value(s) >= 0,
    decreases s.len(),
{
    if s.len() > 0 {
        assert(is_digit(s[s.len() - 1]));
        assert forall|i: int| 0 <= i < s.drop_last().len() implies #[trigger] is_digit(
            s.drop_last()[i],
        ) by {
            assert(s.drop_last()[i] == s[i]);
        }
        lemma_digits_nonneg(s.drop_last());
    }
}

/// Appends one character to a string.
/// Relies on `String::push`: the character is added at the end.
#[verifier::external_body]
pub(crate) fn push_char(s: &mut String, c: char)
    ensures
        final(s)@ == old(s)@.push(c),
{
    s.push(c)
}

/// Appends the canonical decimal writing of `n` to `out`.
pub fn push_decimal(out: &mut String, n: u64)
    ensures
        final(out)@ == old(out)@ + decimal(n as nat),
{
    let mut digits: Vec<char> = Vec::new();
    let mut m: u64 = n;
    // digits holds the lowest digits of n, least significant first
    loop
        invariant_except_break
            decimal(n as nat) =~= decimal(m as nat) + reversed(digits@),
        ensures
            decimal(n as nat) =~= reversed(digits@),
        decreases m,
    {
        let d: u64 = m % 10;
        let c = digit_of(d);
        if m < 10 {
            proof {
                lemma_reversed_push(digits@, c);
                assert(decimal(m as nat) == seq![c]);
            }
            digits.push(c);
            break;
        }
        proof {
            assert(decimal(m as nat) == decimal((m / 10) as nat).push(c));
            lemma_reversed_push(digits@, c);
        }
        digits.push(c);
        m = m / 10;
    }
    assert(decimal(n as nat) =~= reversed(digits@));
    let mut i: usize = digits.len();
    while i > 0
        invariant
            i <= digits@.len(),
            written_so_far(out@, old(out)@, digits@, i as int),
            decimal(n as nat) =~= reversed(digits@),
        decreases i,
    {
        i = i - 1;
        push_char(out, digits[i]);
        proof {
            assert(reversed(digits@.subrange(i as int, digits@.len() as int)) =~= reversed(
                digits@.subrange(i + 1, digits@.len() as int),
            ).push(digits@[i as int])) by {
                lemma_reversed_cons(digits@.subrange(i as int, digits@.len() as int));
                assert(digits@.subrange(i as int, digits@.len() as int).drop_first()
                    =~= digits@.subrange(i + 1, digits@.len() as int));
            }
        }
    }
    assert(digits@.subrange(0, digits@.len() as int) =~= digits@);
}

spec fn written_so_far(now: Seq<char>, start: Seq<char>, digits: Seq<char>, i: int) -> bool {
    now =~= start + reversed(digits.subrange(i, digits.len() as int))
}

/// `s` read from its last element to its first.
pub open spec fn reversed(s: Seq<char>) -> Seq<char>
    decreases s.len(),
{
    if s.len() == 0 {
        s
    } else {
        seq![s.last()] + reversed(s.drop_last())
    }
}

proof fn lemma_reversed_push(s: Seq<char>, c: char)
    ensures
        reversed(s.push(c)) =~= seq![c] + reversed(s),
{
    assert(s.push(c).drop_last() =~= s);
}

proof fn lemma_reversed_cons(s: Seq<char>)
    requires
        s.len() > 0,
    ensures
        reversed(s) =~= reversed(s.drop_first()).push(s[0]),
    decreases s.len(),
{
    if s.len() == 1 {
        assert(s.drop_first() =~= Seq::<char>::empty());
        assert(s.drop_last() =~= Seq::<char>::empty());
    } else {
        lemma_reversed_cons(s.drop_last());
        assert(s.drop_last().drop_first() =~= s.drop_first().drop_last());
        assert(s.drop_first().last() == s.last());
    }
}

/// The character of the decimal digit `d`.
pub fn digit_of(d: u64) -> (c: char)
    requires
        d < 10,
    ensures
        c == digit_char(d as int),
        is_digit(c),
        digit_value(c) == d,
{
    proof {
        lemma_digit_char(d as int);
    }
    if d == 0 {
        '0'
    } else if d == 1 {
        '1'
    } else if d == 2 {
        '2'
    } else if d == 3 {
        '3'
    } else if d == 4 {
        '4'
    } else if d == 5 {
        '5'
    } else if d == 6 {
        '6'
    } else if d == 7 {
        '7'
    } else if d == 8 {
        '8'
    } else {
        '9'
    }
}

} // verus!
