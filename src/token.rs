//! The textual form of a token handed to a client: `"<id>|<secret>"`.

use vstd::prelude::*;

use crate::error::AuthError;
use crate::text::{
    all_digits, decimal, digit_char, digit_value, digits_value, int_text, is_digit, is_i64_digits,
    lemma_decimal, lemma_digit_char, lemma_digits_nonneg, lemma_digits_prefix, push_char, push_decimal,
};

verus! {

/// The one-time plaintext form of a token: the id of its stored record and
/// its secret. It exists only when the token is created and in the client.
#[derive(Debug)]
pub struct TransientToken {
    pub id: i64,
    pub secret: String,
}

/// `p` is the position of the one and only `|` in `s`.
pub open spec fn bar_at(s: Seq<char>, p: int) -> bool {
    &&& 0 <= p < s.len()
    &&& s[p] == '|'
    &&& forall|i: int| 0 <= i < s.len() && i != p ==> s[i] != '|'
}

pub open spec fn has_single_bar(s: Seq<char>) -> bool {
    exists|p: int| bar_at(s, p)
}

pub open spec fn bar_index(s: Seq<char>) -> int {
    choose|p: int| bar_at(s, p)
}

/// What stands left of the delimiter.
pub open spec fn id_part(s: Seq<char>) -> Seq<char> {
    s.take(bar_index(s))
}

/// What stands right of the delimiter.
pub open spec fn secret_part(s: Seq<char>) -> Seq<char> {
    s.skip(bar_index(s) + 1)
}

/// A token string: exactly one `|`, a non-negative decimal id that fits
/// `i64` on its left, and a non-empty secret on its right.
pub open spec fn is_token_text(s: Seq<char>) -> bool {
    &&& has_single_bar(s)
    &&& is_i64_digits(id_part(s))
    &&& secret_part(s).len() > 0
}

/// The canonical textual form of a token.
pub open spec fn token_text(id: int, secret: Seq<char>) -> Seq<char> {
    int_text(id) + seq!['|'] + secret
}

pub open spec fn no_bar(s: Seq<char>) -> bool {
    forall|i: int| 0 <= i < s.len() ==> s[i] != '|'
}

/// The characters of `s`, in order.
pub fn chars_of(s: &str) -> (r: Vec<char>)
    ensures
        r@ == s@,
{
    let n = s.unicode_len();
    let mut r: Vec<char> = Vec::new();
    let mut i: usize = 0;
    while i < n
        invariant
            n == s@.len(),
            i <= n,
            r@ == s@.take(i as int),
        decreases n - i,
    {
        let c = s.get_char(i);
        r.push(c);
        i = i + 1;
        assert(r@ =~= s@.take(i as int));
    }
    assert(r@ =~= s@);
    r
}

/// Reads a non-negative decimal number that fits `i64`.
pub fn parse_decimal(s: &Vec<char>, from: usize, to: usize) -> (r: Option<i64>)
    requires
        from <= to <= s@.len(),
    ensures
        r is Some <==> is_i64_digits(s@.subrange(from as int, to as int)),
        r matches Some(v) ==> v == digits_value(s@.subrange(from as int, to as int)),
{
    let ghost d = s@.subrange(from as int, to as int);
    if from == to {
        return None;
    }
    let mut acc: i64 = 0;
    let mut i: usize = from;
    while i < to
        invariant
            from <= i <= to <= s@.len(),
            d == s@.subrange(from as int, to as int),
            all_digits(d.take(i - from)),
            acc == digits_value(d.take(i - from)),
            0 <= acc,
        decreases to - i,
    {
        let c = s[i];
        assert(d[i - from] == c);
        assert(d.take(i - from + 1).drop_last() =~= d.take(i - from));
        if !('0' <= c && c <= '9') {
            assert(!all_digits(d)) by {
                assert(!is_digit(d[i - from]));
            }
            return None;
        }
        let v = (c as u32 - '0' as u32) as i64;
        if acc > (i64::MAX - v) / 10 {
            proof {
                assert(all_digits(d.take(i - from + 1)));
                assert(digits_value(d.take(i - from + 1)) == acc * 10 + v);
                assert(acc * 10 + v > i64::MAX) by (nonlinear_arith)
                    requires
                        acc > (i64::MAX - v) / 10,
                        0 <= v < 10,
                ;
                if all_digits(d) {
                    lemma_digits_prefix(d, i - from + 1);
                }
            }
            return None;
        }
        assert(acc * 10 + v <= i64::MAX) by (nonlinear_arith)
            requires
                acc <= (i64::MAX - v) / 10,
                0 <= v < 10,
                0 <= acc,
        ;
        acc = acc * 10 + v;
        i = i + 1;
    }
    assert(d.take(to - from) =~= d);
    Some(acc)
}

impl TransientToken {
    /// The kind of credential, as the creation response names it.
    pub fn get_type(&self) -> (r: String)
        ensures
            r@ == "bearer"@,
    {
        String::from_str("bearer")
    }

    /// Splits a token string into its id and its secret. Any deviation from
    /// the form `"<id>|<secret>"` is a malformed token.
    pub fn parse(token: String) -> (r: Result<TransientToken, AuthError>)
        ensures
            r is Ok <==> is_token_text(token@),
            r matches Ok(t) ==> t.id == digits_value(id_part(token@)) && t.secret@
                == secret_part(token@),
            r matches Err(e) ==> e == AuthError::MalformedToken,
    {
        let s = chars_of(token.as_str());
        let n = s.len();
        let mut first: Option<usize> = None;
        let mut second = false;
        let mut i: usize = 0;
        while i < n
            invariant
                n == s@.len(),
                s@ == token@,
                i <= n,
                first is None ==> no_bar(s@.take(i as int)),
                first matches Some(p) ==> p < i && s@[p as int] == '|' && no_bar(s@.take(p as int)),
                first is Some && !second ==> forall|j: int|
                    first->0 < j < i ==> s@[j] != '|',
                second ==> first is Some && exists|j: int|
                    0 <= j < i && j != first->0 && s@[j] == '|',
            decreases n - i,
        {
            if s[i] == '|' {
                match first {
                    None => {
                        first = Some(i);
                    },
                    Some(_) => {
                        second = true;
                    },
                }
            }
            i = i + 1;
        }
        match first {
            None => {
                proof {
                    assert(s@.take(n as int) =~= s@);
                    if has_single_bar(s@) {
                        let p = choose|p: int| bar_at(s@, p);
                        assert(s@.take(n as int)[p] == '|');
                    }
                }
                Err(AuthError::MalformedToken)
            },
            Some(p) => {
                if second {
                    proof {
                        let j = choose|j: int| 0 <= j < n && j != p && s@[j] == '|';
                        if has_single_bar(s@) {
                            let q = choose|q: int| bar_at(s@, q);
                            assert(bar_at(s@, q));
                        }
                    }
                    return Err(AuthError::MalformedToken);
                }
                proof {
                    assert forall|k: int| 0 <= k < s@.len() && k != p implies s@[k] != '|' by {
                        if k < p {
                            assert(s@.take(p as int)[k] == s@[k]);
                        }
                    }
                    assert(bar_at(s@, p as int));
                    assert(bar_index(s@) == p);
                    assert(s@.subrange(0, p as int) =~= id_part(s@));
                }
                let id = parse_decimal(&s, 0, p);
                match id {
                    None => Err(AuthError::MalformedToken),
                    Some(id) => {
                        if p + 1 == n {
                            assert(secret_part(s@).len() == 0);
                            return Err(AuthError::MalformedToken);
                        }
                        let rest = token.as_str().substring_char(p + 1, n);
                        let secret = rest.to_owned();
                        assert(secret@ =~= secret_part(s@));
                        Ok(TransientToken { id, secret })
                    },
                }
            },
        }
    }

    /// The textual form `"<id>|<secret>"` of the token.
    pub fn to_string(&self) -> (r: String)
        ensures
            r@ == token_text(self.id as int, self.secret@),
    {
        let mut out = String::new();
        if self.id < 0 {
            push_char(&mut out, '-');
            let m: u64 = (-(self.id as i128)) as u64;
            push_decimal(&mut out, m);
        } else {
            push_decimal(&mut out, self.id as u64);
        }
        push_char(&mut out, '|');
        out.append(self.secret.as_str());
        assert(out@ =~= token_text(self.id as int, self.secret@));
        out
    }
}

/// A token string whose id is written canonically, without leading zeros.
pub open spec fn is_canonical_token_text(s: Seq<char>) -> bool {
    &&& is_token_text(s)
    &&& (id_part(s)[0] != '0' || id_part(s).len() == 1)
}

/// Formatting a token and parsing the result gives back its id and secret,
/// for every non-negative id and every non-empty secret without `|`.
pub proof fn lemma_parse_format(id: i64, secret: Seq<char>)
    requires
        id >= 0,
        secret.len() > 0,
        no_bar(secret),
    ensures
        is_canonical_token_text(token_text(id as int, secret)),
        digits_value(id_part(token_text(id as int, secret))) == id,
        secret_part(token_text(id as int, secret)) == secret,
{
    let s = token_text(id as int, secret);
    let d = decimal(id as nat);
    lemma_decimal(id as nat);
    let p = d.len() as int;
    assert(s[p] == '|');
    assert forall|i: int| 0 <= i < s.len() && i != p implies s[i] != '|' by {
        if i < p {
            assert(s[i] == d[i]);
            assert(is_digit(d[i]));
        } else {
            assert(s[i] == secret[i - p - 1]);
        }
    }
    assert(bar_at(s, p));
    assert(bar_index(s) == p);
    assert(id_part(s) =~= d);
    assert(secret_part(s) =~= secret);
}

/// Parsing a canonically written token string and formatting the result
/// gives back the same string.
pub proof fn lemma_format_parse(s: Seq<char>)
    requires
        is_canonical_token_text(s),
    ensures
        token_text(digits_value(id_part(s)), secret_part(s)) == s,
{
    let d = id_part(s);
    lemma_canonical_decimal(d);
    lemma_digits_nonneg(d);
    let p = bar_index(s);
    assert(bar_at(s, p));
    assert(int_text(digits_value(d)) == d);
    assert(token_text(digits_value(d), secret_part(s)) =~= s);
}

/// A string with no `|`, with two or more, or with an id that is not a run
/// of digits is no token string, so `parse` refuses it.
pub proof fn lemma_parse_rejects(s: Seq<char>)
    ensures
        no_bar(s) ==> !is_token_text(s),
        (exists|i: int, j: int|
            0 <= i < j < s.len() && #[trigger] s[i] == '|' && #[trigger] s[j] == '|') ==> !is_token_text(s),
        has_single_bar(s) && !all_digits(id_part(s)) ==> !is_token_text(s),
{
    if has_single_bar(s) {
        let p = bar_index(s);
        assert(bar_at(s, p));
        assert(s[p] == '|');
        if exists|i: int, j: int| 0 <= i < j < s.len() && #[trigger] s[i] == '|' && #[trigger] s[j] == '|' {
            let (i, j) = choose|i: int, j: int|
                0 <= i < j < s.len() && #[trigger] s[i] == '|' && #[trigger] s[j] == '|';
            assert(i == p || s[i] != '|');
            assert(j == p || s[j] != '|');
        }
    }
}

/// A run of digits without a leading zero is the canonical writing of the
/// number it denotes.
pub proof fn lemma_canonical_decimal(d: Seq<char>)
    requires
        d.len() > 0,
        all_digits(d),
        d[0] != '0' || d.len() == 1,
    ensures
        decimal(digits_value(d) as nat) == d,
    decreases d.len(),
{
    lemma_digits_prefix(d, 0);
    if d.len() == 1 {
        assert(d.drop_last() =~= Seq::<char>::empty());
        assert(digits_value(Seq::<char>::empty()) == 0);
        assert(is_digit(d[0]));
        let v = digit_value(d[0]);
        lemma_digit_char(v);
        assert(digit_char(v) == d[0]);
        assert(decimal(v as nat) =~= d);
    } else {
        let e = d.drop_last();
        assert(e[0] == d[0]);
        assert forall|i: int| 0 <= i < e.len() implies #[trigger] is_digit(e[i]) by {
            assert(e[i] == d[i]);
        }
        lemma_canonical_decimal(e);
        lemma_digits_prefix(e, 1);
        assert(e.take(1).drop_last() =~= Seq::<char>::empty());
        assert(digits_value(Seq::<char>::empty()) == 0);
        assert(is_digit(e[0]));
        assert(digits_value(e) >= 1);
        assert(is_digit(d.last()));
        let v = digits_value(d);
        let l = digit_value(d.last());
        assert(v == digits_value(e) * 10 + l);
        assert(v / 10 == digits_value(e) && v % 10 == l);
        lemma_digit_char(l);
        assert(digit_char(l) == d.last());
        assert(decimal(v as nat) == decimal((v / 10) as nat).push(digit_char(v % 10)));
        assert(decimal(v as nat) =~= d);
    }
}

} // verus!
