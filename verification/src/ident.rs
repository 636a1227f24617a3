//! Message identifiers: the store time in microseconds written in base 36,
//! followed by random alphanumeric characters.

use vstd::prelude::*;
use vstd::string::*;
use crate::error::RsmqError;

verus! {

/// Number of random characters that end an identifier.
pub const SUFFIX_LEN: usize = 22;

/// Number of leading characters of an identifier that hold its timestamp.
pub const STAMP_LEN: usize = 10;

/// The upper-case base-36 digit of value `d`.
pub open spec fn upper_digit(d: int) -> char {
    if d < 10 {
        ((48 + d) as u8) as char
    } else {
        ((55 + d) as u8) as char
    }
}

/// `n` written in base 36 with upper-case digits, most significant first,
/// without leading zeros (`"0"` for zero).
pub open spec fn upper_digits(n: nat) -> Seq<char>
    decreases n,
{
    if n < 36 {
        seq![upper_digit(n as int)]
    } else {
        upper_digits(n / 36).push(upper_digit((n % 36) as int))
    }
}

/// Writes `n` in base 36 by `radix::RadixNum::from(n).with_radix(36)` and
/// returns the digits that `as_str` gives. The crate turns the number into
/// decimal text, reads it back into a `usize`, and then emits the remainders
/// of repeated division by 36, most significant first, with `0`-`9` and
/// `A`-`Z` as digits and `"0"` for zero; the contract states exactly that.
#[verifier::external_body]
fn radix36(n: usize) -> (s: String)
    ensures
        s@ == upper_digits(n as nat),
{
    radix::RadixNum::from(n).with_radix(36).unwrap().as_str().to_owned()
}

/// `n` in base 36 with upper-case digits. The conversion works on machine
/// words; a value wider than a word has its last digit split off first.
fn encode_upper(n: u64) -> (s: String)
    ensures
        s@ == upper_digits(n as nat),
    decreases n,
{
    if n <= usize::MAX as u64 {
        radix36(n as usize)
    } else {
        let mut s = encode_upper(n / 36);
        let d: u8 = (n % 36) as u8;
        let c = if d < 10 { (48 + d) as char } else { (55 + d) as char };
        s.push(c);
        s
    }
}

/// `String::push` of the standard library appends the given character to the
/// end of the string and leaves what was there.
pub assume_specification[ String::push ](s: &mut String, c: char)
    ensures
        final(s)@ == old(s)@.push(c),
;

/// The lower-case form of an ASCII letter; any other character unchanged.
pub open spec fn ascii_lower(c: char) -> char {
    if 'A' <= c <= 'Z' {
        ((c as u8 + 32) as u8) as char
    } else {
        c
    }
}

/// `n` written in base 36 with the digits `0`-`9` and `a`-`z`.
pub open spec fn base36(n: nat) -> Seq<char> {
    upper_digits(n).map_values(|c: char| ascii_lower(c))
}

/// Lower-cases the ASCII letters of `s`.
pub fn to_ascii_lower(s: &str) -> (r: String)
    ensures
        r@ == s@.map_values(|c: char| ascii_lower(c)),
{
    let n = s.unicode_len();
    let mut r = String::new();
    let mut i: usize = 0;
    while i < n
        invariant
            n == s@.len(),
            i <= n,
            r@ == s@.subrange(0, i as int).map_values(|c: char| ascii_lower(c)),
        decreases n - i,
    {
        let c = s.get_char(i);
        let lc = if 'A' <= c && c <= 'Z' {
            ((c as u8) + 32) as char
        } else {
            c
        };
        r.push(lc);
        i += 1;
    }
    r
}

/// `n` in base 36, lower case: the timestamp part of an identifier.
pub fn encode_base36(n: u64) -> (s: String)
    ensures
        s@ == base36(n as nat),
{
    let upper = encode_upper(n);
    to_ascii_lower(upper.as_str())
}

/// The value of a base-36 digit, in either case; `None` for any other
/// character.
pub open spec fn digit_value(c: char) -> Option<int> {
    if '0' <= c <= '9' {
        Some(c as int - 48)
    } else if 'a' <= c <= 'z' {
        Some(c as int - 87)
    } else if 'A' <= c <= 'Z' {
        Some(c as int - 55)
    } else {
        None
    }
}

/// The number that the base-36 digits `s` spell, most significant first;
/// `None` if a character is no digit.
pub open spec fn digits_value(s: Seq<char>) -> Option<int>
    decreases s.len(),
{
    if s.len() == 0 {
        Some(0)
    } else {
        match (digits_value(s.drop_last()), digit_value(s.last())) {
            (Some(v), Some(d)) => Some(v * 36 + d),
            _ => None,
        }
    }
}

/// 36 to the power `k`.
pub open spec fn pow36(k: nat) -> int
    decreases k,
{
    if k == 0 {
        1
    } else {
        36 * pow36((k - 1) as nat)
    }
}

/// The microsecond timestamp that an identifier carries: its first
/// `STAMP_LEN` characters read as a base-36 number. `None` if the identifier
/// is shorter than that or one of those characters is no digit.
pub open spec fn sent_of(id: Seq<char>) -> Option<int> {
    if id.len() < STAMP_LEN {
        None
    } else {
        digits_value(id.subrange(0, STAMP_LEN as int))
    }
}

/// Ten digits of base 36 fit in 64 bits.
pub proof fn lemma_pow36_ten()
    ensures
        pow36(9) == 101559956668416,
        pow36(STAMP_LEN as nat) == 3656158440062976,
{
    reveal_with_fuel(pow36, 11);
}

/// Reads the value of one base-36 digit.
fn digit_of(c: char) -> (r: Option<u64>)
    ensures
        match digit_value(c) {
            Some(d) => r == Some(d as u64) && 0 <= d < 36,
            None => r is None,
        },
{
    if '0' <= c && c <= '9' {
        Some((c as u64) - 48)
    } else if 'a' <= c && c <= 'z' {
        Some((c as u64) - 87)
    } else if 'A' <= c && c <= 'Z' {
        Some((c as u64) - 55)
    } else {
        None
    }
}

/// Decodes the time at which a message was sent, in microseconds, from the
/// head of its identifier.
pub fn decode_sent(id: &str) -> (r: Result<u64, RsmqError>)
    ensures
        match sent_of(id@) {
            Some(v) => r == Ok::<u64, RsmqError>(v as u64) && 0 <= v < pow36(STAMP_LEN as nat),
            None => r == Err::<u64, RsmqError>(RsmqError::MalformedId),
        },
{
    let n = id.unicode_len();
    if n < STAMP_LEN {
        return Err(RsmqError::MalformedId);
    }
    let mut acc: u64 = 0;
    let mut i: usize = 0;
    proof {
        lemma_pow36_ten();
    }
    while i < STAMP_LEN
        invariant
            n == id@.len(),
            n >= STAMP_LEN,
            i <= STAMP_LEN,
            digits_value(id@.subrange(0, i as int)) == Some(acc as int),
            acc < pow36(i as nat),
            pow36(STAMP_LEN as nat) == 3656158440062976,
        decreases STAMP_LEN - i,
    {
        proof {
            let read = id@.subrange(0, i as int);
            assert(id@.subrange(0, i + 1).drop_last() =~= read);
            lemma_pow36_mono(i as nat, (STAMP_LEN - 1) as nat);
        }
        match digit_of(id.get_char(i)) {
            Some(d) => {
                acc = acc * 36 + d;
            },
            None => {
                proof {
                    lemma_digits_value_prefix(id@.subrange(0, STAMP_LEN as int), i + 1);
                }
                return Err(RsmqError::MalformedId);
            },
        }
        i += 1;
    }
    Ok(acc)
}

/// Powers of 36 grow with the exponent.
pub proof fn lemma_pow36_mono(a: nat, b: nat)
    requires
        a <= b,
    ensures
        0 < pow36(a) <= pow36(b),
    decreases b,
{
    if a < b {
        lemma_pow36_mono(a, (b - 1) as nat);
    } else if a > 0 {
        lemma_pow36_mono((a - 1) as nat, (b - 1) as nat);
    }
}

/// If the first `k` characters hold a non-digit, so does the whole.
pub proof fn lemma_digits_value_prefix(s: Seq<char>, k: int)
    requires
        0 <= k <= s.len(),
        digits_value(s.subrange(0, k)) is None,
    ensures
        digits_value(s) is None,
    decreases s.len(),
{
    if k < s.len() {
        assert(s.drop_last().subrange(0, k) =~= s.subrange(0, k));
        lemma_digits_value_prefix(s.drop_last(), k);
    } else {
        assert(s.subrange(0, k) =~= s);
    }
}

/// Whether `c` is an ASCII letter or digit.
pub open spec fn is_alphanumeric(c: char) -> bool {
    ||| '0' <= c <= '9'
    ||| 'a' <= c <= 'z'
    ||| 'A' <= c <= 'Z'
}

/// Whether `s` can end an identifier: `SUFFIX_LEN` ASCII letters and digits.
pub open spec fn is_suffix(s: Seq<char>) -> bool {
    &&& s.len() == SUFFIX_LEN
    &&& forall|i: int| 0 <= i < s.len() ==> is_alphanumeric(#[trigger] s[i])
}

/// Whether `id` is an identifier for a message sent at `ts` microseconds: the
/// timestamp in base 36, then a suffix.
pub open spec fn is_id_for(id: Seq<char>, ts: nat) -> bool {
    let k = base36(ts).len() as int;
    &&& id.len() == k + SUFFIX_LEN
    &&& id.subrange(0, k) == base36(ts)
    &&& is_suffix(id.subrange(k, id.len() as int))
}

/// Draws one character with `rand::Rng::sample` from
/// `rand::distributions::Alphanumeric`, on the generator of the current
/// thread. The distribution picks from the 62 ASCII letters and digits; which
/// one comes is left open.
#[verifier::external_body]
fn random_alphanumeric() -> (c: char)
    ensures
        is_alphanumeric(c),
{
    rand::Rng::sample(&mut rand::thread_rng(), rand::distributions::Alphanumeric)
}

/// A fresh random suffix for an identifier.
pub fn make_id_22() -> (s: String)
    ensures
        is_suffix(s@),
{
    let mut s = String::new();
    let mut i: usize = 0;
    while i < SUFFIX_LEN
        invariant
            i <= SUFFIX_LEN,
            s@.len() == i,
            forall|j: int| 0 <= j < s@.len() ==> is_alphanumeric(#[trigger] s@[j]),
        decreases SUFFIX_LEN - i,
    {
        let c = random_alphanumeric();
        s.push(c);
        i += 1;
    }
    s
}

/// The identifier made of the time `ts_micros` and the given suffix.
pub fn make_id(ts_micros: u64, suffix: &str) -> (id: String)
    ensures
        id@ == base36(ts_micros as nat) + suffix@,
{
    let mut id = encode_base36(ts_micros);
    id.append(suffix);
    id
}

/// A new identifier for a message sent at `ts_micros`, with a random suffix.
pub fn new_id(ts_micros: u64) -> (id: String)
    ensures
        is_id_for(id@, ts_micros as nat),
{
    let suffix = make_id_22();
    let id = make_id(ts_micros, suffix.as_str());
    proof {
        let k = base36(ts_micros as nat).len() as int;
        assert(id@.subrange(0, k) =~= base36(ts_micros as nat));
    }
    id
}

/// A number between two neighbouring powers of 36 has as many digits as the
/// larger power's exponent.
pub proof fn lemma_digit_count(n: nat, k: nat)
    requires
        k >= 1,
        pow36((k - 1) as nat) <= n < pow36(k),
    ensures
        upper_digits(n).len() == k,
        base36(n).len() == k,
    decreases k,
{
    reveal_with_fuel(pow36, 3);
    if n < 36 {
        if k > 1 {
            lemma_pow36_mono(1, (k - 1) as nat);
        }
    } else {
        lemma_digit_count(n / 36, (k - 1) as nat);
    }
}

/// Reading the base-36 form of a number gives the number back.
pub proof fn lemma_base36_value(n: nat)
    ensures
        digits_value(base36(n)) == Some(n as int),
    decreases n,
{
    if n < 36 {
        assert(base36(n).drop_last() =~= Seq::<char>::empty());
        assert(digits_value(Seq::<char>::empty()) == Some(0int));
    } else {
        lemma_base36_value(n / 36);
        assert(base36(n).drop_last() =~= base36(n / 36));
    }
}

/// An identifier made at a time that takes `STAMP_LEN` digits gives that time
/// back when decoded, whatever its suffix.
pub proof fn law_id_round_trip(ts: nat, suffix: Seq<char>)
    requires
        pow36((STAMP_LEN - 1) as nat) <= ts < pow36(STAMP_LEN as nat),
    ensures
        sent_of(base36(ts) + suffix) == Some(ts as int),
        sent_of(base36(ts) + suffix)->0 / 1000 == ts / 1000,
{
    lemma_digit_count(ts, STAMP_LEN as nat);
    lemma_base36_value(ts);
    let id = base36(ts) + suffix;
    assert(id.subrange(0, STAMP_LEN as int) =~= base36(ts));
}

/// Whether `a` comes before `b` in the order of the dictionary, by the
/// character at which they first differ.
pub open spec fn lex_lt(a: Seq<char>, b: Seq<char>) -> bool {
    exists|i: int|
        0 <= i < a.len() && i < b.len() && a.subrange(0, i) == b.subrange(0, i) && (
        #[trigger] a[i]) < b[i]
}

/// The base-36 digit of a smaller value is the smaller character.
proof fn lemma_digit_order(d1: int, d2: int)
    requires
        0 <= d1 < d2 < 36,
    ensures
        ascii_lower(upper_digit(d1)) < ascii_lower(upper_digit(d2)),
{
}

/// Of two numbers with equally many digits, the smaller one is spelled by
/// the digits that come first in the order of the dictionary.
pub proof fn lemma_base36_order(n1: nat, n2: nat, k: nat)
    requires
        k >= 1,
        pow36((k - 1) as nat) <= n1 < n2 < pow36(k),
    ensures
        base36(n1).len() == k,
        base36(n2).len() == k,
        lex_lt(base36(n1), base36(n2)),
    decreases k,
{
    reveal_with_fuel(pow36, 3);
    lemma_digit_count(n1, k);
    lemma_digit_count(n2, k);
    let a = base36(n1);
    let b = base36(n2);
    let c1 = ascii_lower(upper_digit((n1 % 36) as int));
    let c2 = ascii_lower(upper_digit((n2 % 36) as int));
    if n2 < 36 {
        lemma_digit_order(n1 as int, n2 as int);
        assert(a.subrange(0, 0) =~= b.subrange(0, 0));
        assert(a[0] < b[0]);
    } else if n1 < 36 {
        // One digit against several: with equally many digits this cannot be.
        if k > 1 {
            lemma_pow36_mono(1, (k - 1) as nat);
        }
    } else {
        let q1 = n1 / 36;
        let q2 = n2 / 36;
        if q1 < q2 {
            lemma_base36_order(q1, q2, (k - 1) as nat);
            let i = choose|i: int|
                0 <= i < base36(q1).len() && i < base36(q2).len() && base36(q1).subrange(0, i)
                    == base36(q2).subrange(0, i) && (#[trigger] base36(q1)[i]) < base36(q2)[i];
            assert(a.subrange(0, i) =~= base36(q1).subrange(0, i));
            assert(b.subrange(0, i) =~= base36(q2).subrange(0, i));
            assert(a[i] < b[i]);
        } else {
            lemma_digit_order((n1 % 36) as int, (n2 % 36) as int);
            let i = k - 1;
            assert(a.subrange(0, i) =~= base36(q1));
            assert(b.subrange(0, i) =~= base36(q2));
            assert(a[i] < b[i]);
        }
    }
}

/// Identifiers sort by the time at which they were made: of two made at
/// different times of `STAMP_LEN` digits, the earlier one comes first in the
/// order of the dictionary, whatever the suffixes.
pub proof fn law_ids_sort_by_time(ts1: nat, ts2: nat, suffix1: Seq<char>, suffix2: Seq<char>)
    requires
        pow36((STAMP_LEN - 1) as nat) <= ts1 < ts2 < pow36(STAMP_LEN as nat),
    ensures
        lex_lt(base36(ts1) + suffix1, base36(ts2) + suffix2),
{
    lemma_base36_order(ts1, ts2, STAMP_LEN as nat);
    let a = base36(ts1);
    let b = base36(ts2);
    let i = choose|i: int|
        0 <= i < a.len() && i < b.len() && a.subrange(0, i) == b.subrange(0, i) && (
        #[trigger] a[i]) < b[i];
    let x = a + suffix1;
    let y = b + suffix2;
    assert(x.subrange(0, i) =~= a.subrange(0, i));
    assert(y.subrange(0, i) =~= b.subrange(0, i));
    assert(x[i] < y[i]);
}

} // verus!
