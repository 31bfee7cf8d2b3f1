use vstd::prelude::*;

verus! {

/// The value of an ASCII decimal digit.
pub open spec fn is_digit(c: char) -> bool {
    '0' <= c && c <= '9'
}

pub open spec fn digit_value(c: char) -> int {
    c as int - '0' as int
}

pub open spec fn digit_char(d: nat) -> char
    recommends
        d < 10,
{
    if d == 0 { '0' } else if d == 1 { '1' } else if d == 2 { '2' } else if d == 3 { '3' }
    else if d == 4 { '4' } else if d == 5 { '5' } else if d == 6 { '6' } else if d == 7 { '7' }
    else if d == 8 { '8' } else { '9' }
}

pub open spec fn all_digits(s: Seq<char>) -> bool {
    forall|i: int| 0 <= i < s.len() ==> is_digit(#[trigger] s[i])
}

/// The number written by a sequence of decimal digits, most significant first.
pub open spec fn digits_value(s: Seq<char>) -> nat
    decreases s.len(),
{
    if s.len() == 0 {
        0
    } else {
        (digits_value(s.drop_last()) * 10 + digit_value(s.last())) as nat
    }
}

/// The shortest decimal digits of a natural number.
pub open spec fn nat_text(n: nat) -> Seq<char>
    decreases n,
{
    if n < 10 {
        seq![digit_char(n)]
    } else {
        nat_text(n / 10).push(digit_char(n % 10))
    }
}

/// The decimal text of an integer, with a leading `-` when negative.
pub open spec fn decimal_text(n: int) -> Seq<char> {
    if n < 0 {
        seq!['-'] + nat_text((-n) as nat)
    } else {
        nat_text(n as nat)
    }
}

/// The integer written by `s`: an optional sign (`+`, or `-` when `signed`)
/// followed by one or more decimal digits.
pub open spec fn integer_value(s: Seq<char>, signed: bool) -> Option<int> {
    let neg = s.len() > 0 && s[0] == '-' && signed;
    let body = if s.len() > 0 && (s[0] == '+' || neg) {
        s.subrange(1, s.len() as int)
    } else {
        s
    };
    if body.len() > 0 && all_digits(body) {
        if neg {
            Some(-digits_value(body))
        } else {
            Some(digits_value(body) as int)
        }
    } else {
        None
    }
}

/// What `str::parse::<i64>` accepts: an integer that fits in 64 signed bits.
pub open spec fn i64_value(s: Seq<char>) -> Option<int> {
    match integer_value(s, true) {
        Some(n) => if i64::MIN <= n <= i64::MAX {
            Some(n)
        } else {
            None
        },
        None => None,
    }
}

/// What `str::parse::<u64>` accepts: no `-` sign, and a value that fits in 64 bits.
pub open spec fn u64_value(s: Seq<char>) -> Option<int> {
    match integer_value(s, false) {
        Some(n) => if n <= u64::MAX {
            Some(n)
        } else {
            None
        },
        None => None,
    }
}

proof fn lemma_digit_char(d: nat)
    requires
        d < 10,
    ensures
        is_digit(digit_char(d)),
        digit_value(digit_char(d)) == d,
{
}

proof fn lemma_nat_text(n: nat)
    ensures
        nat_text(n).len() > 0,
        all_digits(nat_text(n)),
        digits_value(nat_text(n)) == n,
    decreases n,
{
    if n < 10 {
        lemma_digit_char(n);
        let s = nat_text(n);
        assert(s.drop_last() =~= Seq::<char>::empty());
        assert(digits_value(s) == digits_value(s.drop_last()) * 10 + digit_value(s.last()));
    } else {
        lemma_nat_text(n / 10);
        lemma_digit_char(n % 10);
        let s = nat_text(n);
        assert(s.drop_last() =~= nat_text(n / 10));
        assert(digits_value(s) == digits_value(s.drop_last()) * 10 + digit_value(s.last()));
        assert((n / 10) * 10 + n % 10 == n) by (nonlinear_arith);
        assert(all_digits(s)) by {
            assert forall|i: int| 0 <= i < s.len() implies is_digit(#[trigger] s[i]) by {
                if i < s.len() - 1 {
                    assert(s[i] == nat_text(n / 10)[i]);
                }
            }
        }
    }
}

/// Reading back the decimal text of an integer gives that integer.
pub proof fn lemma_decimal_round_trip(n: int)
    ensures
        integer_value(decimal_text(n), true) == Some(n),
{
    if n < 0 {
        lemma_nat_text((-n) as nat);
        let s = decimal_text(n);
        assert(s.subrange(1, s.len() as int) =~= nat_text((-n) as nat));
    } else {
        lemma_nat_text(n as nat);
        let s = nat_text(n as nat);
        assert(is_digit(s[0]));
    }
}

/// Relies on `str::parse::<i64>`: an optional sign, then decimal digits,
/// within the range of `i64`.
#[verifier::external_body]
pub(crate) fn parse_i64(s: &str) -> (r: Option<i64>)
    ensures
        match r {
            Some(n) => i64_value(s@) == Some(n as int),
            None => i64_value(s@) is None,
        },
{
    s.parse::<i64>().ok()
}

/// Relies on `str::parse::<u64>`: an optional `+`, then decimal digits,
/// within the range of `u64`.
#[verifier::external_body]
pub(crate) fn parse_u64(s: &str) -> (r: Option<u64>)
    ensures
        match r {
            Some(n) => u64_value(s@) == Some(n as int),
            None => u64_value(s@) is None,
        },
{
    s.parse::<u64>().ok()
}

/// Relies on `i64`'s `Display` (through `to_string`): decimal digits, with
/// a leading `-` for a negative number.
#[verifier::external_body]
pub(crate) fn i64_text(n: i64) -> (r: String)
    ensures
        r@ == decimal_text(n as int),
{
    n.to_string()
}

pub open spec fn is_ascii_bytes(b: Seq<u8>) -> bool {
    forall|i: int| 0 <= i < b.len() ==> #[trigger] b[i] < 128
}

/// The text of a token: its characters where it is ASCII, else what
/// `String::from_utf8_lossy` reads from it.
pub open spec fn token_text(b: Seq<u8>) -> Seq<char> {
    if is_ascii_bytes(b) {
        b.map_values(|c: u8| c as char)
    } else {
        lossy_text(b)
    }
}

/// The text that `String::from_utf8_lossy` reads from bytes.
pub uninterp spec fn lossy_text(b: Seq<u8>) -> Seq<char>;

/// Relies on `String::from_utf8_lossy`: the text depends on the bytes alone,
/// and valid UTF-8, ASCII in particular, comes back unchanged.
#[verifier::external_body]
fn text_of_bytes(b: &[u8]) -> (r: String)
    ensures
        r@ == lossy_text(b@),
        is_ascii_bytes(b@) ==> r@ == b@.map_values(|c: u8| c as char),
{
    String::from_utf8_lossy(b).into_owned()
}

/// The text of a token.
pub fn token_string(b: &[u8]) -> (r: String)
    ensures
        r@ == token_text(b@),
{
    text_of_bytes(b)
}

} // verus!
