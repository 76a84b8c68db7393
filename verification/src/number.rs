//! Whole numbers as text, and the arithmetic of cutting a file into chunks.
use crate::text::chars_of;
use vstd::arithmetic::div_mod::*;
use vstd::arithmetic::mul::*;
use vstd::prelude::*;

verus! {

/// The digit of value `d`, with `a`..`f` above nine.
pub open spec fn digit_char(d: nat) -> char {
    if d < 10 {
        (('0' as u8) + d) as u8 as char
    } else {
        (('a' as u8) + (d - 10)) as u8 as char
    }
}

/// `n` written in base `base` (two to sixteen), without leading zeros.
pub open spec fn numeral(n: nat, base: nat) -> Seq<char>
    decreases n,
{
    if base < 2 || n < base {
        seq![digit_char(n)]
    } else {
        proof {
            assert(n / base < n) by (nonlinear_arith)
                requires
                    n >= base,
                    base >= 2,
            ;
        }
        numeral(n / base, base).push(digit_char(n % base))
    }
}

/// `n` in decimal.
pub open spec fn decimal(n: nat) -> Seq<char> {
    numeral(n, 10)
}

/// `n` in lower case hexadecimal, without leading zeros.
pub open spec fn hex(n: nat) -> Seq<char> {
    numeral(n, 16)
}

fn digit(d: u64) -> (c: char)
    requires
        d < 16,
    ensures
        c == digit_char(d as nat),
{
    if d < 10 {
        (48u8 + d as u8) as char
    } else {
        (97u8 + (d as u8 - 10)) as char
    }
}

fn write_numeral(n: u64, base: u64) -> (out: String)
    requires
        2 <= base <= 16,
    ensures
        out@ == numeral(n as nat, base as nat),
    decreases n,
{
    if n < base {
        let mut out = String::new();
        out.push(digit(n));
        assert(out@ == seq![digit_char(n as nat)]);
        out
    } else {
        assert(n / base < n) by (nonlinear_arith)
            requires
                n >= base,
                base >= 2,
        ;
        let mut out = write_numeral(n / base, base);
        assert((n % base) < base) by (nonlinear_arith)
            requires
                base >= 2,
        ;
        out.push(digit(n % base));
        out
    }
}

/// `n` in decimal.
pub fn decimal_of(n: u64) -> (out: String)
    ensures
        out@ == decimal(n as nat),
{
    write_numeral(n, 10)
}

/// `n` in lower case hexadecimal, without leading zeros.
pub fn hex_of(n: u64) -> (out: String)
    ensures
        out@ == hex(n as nat),
{
    write_numeral(n, 16)
}

/// `n` in decimal, with a minus sign when it is negative.
pub open spec fn signed_decimal(n: int) -> Seq<char> {
    if n < 0 {
        seq!['-'] + decimal((-n) as nat)
    } else {
        decimal(n as nat)
    }
}

/// `n` in decimal, with a minus sign when it is negative.
pub fn signed_decimal_of(n: i32) -> (out: String)
    ensures
        out@ == signed_decimal(n as int),
{
    if n < 0 {
        let mut out = String::new();
        out.push('-');
        let m: i64 = -(n as i64);
        let digits = decimal_of(m as u64);
        out.append(digits.as_str());
        assert(out@ == seq!['-'] + decimal((-n) as nat));
        out
    } else {
        decimal_of(n as u64)
    }
}

/// `n` in decimal with a leading zero below ten.
pub open spec fn two_digits(n: nat) -> Seq<char> {
    if n < 10 {
        seq!['0'] + decimal(n)
    } else {
        decimal(n)
    }
}

/// `n` in decimal with a leading zero below ten.
pub fn two_digits_of(n: u64) -> (out: String)
    ensures
        out@ == two_digits(n as nat),
{
    let d = decimal_of(n);
    if n < 10 {
        let mut out = String::new();
        out.push('0');
        out.append(d.as_str());
        assert(out@ == seq!['0'] + decimal(n as nat));
        out
    } else {
        d
    }
}

/// The value of a decimal digit.
pub open spec fn digit_value(c: char) -> Option<nat> {
    if '0' <= c <= '9' {
        Some((c as u8 - '0' as u8) as nat)
    } else {
        None
    }
}

/// The number that a run of decimal digits writes; the empty run writes nothing.
pub open spec fn digits_value(s: Seq<char>) -> Option<nat>
    decreases s.len(),
{
    if s.len() == 0 {
        None
    } else if s.len() == 1 {
        digit_value(s[0])
    } else {
        match (digits_value(s.drop_last()), digit_value(s.last())) {
            (Some(n), Some(d)) => Some(n * 10 + d),
            _ => None,
        }
    }
}

/// The number that `s` writes: decimal digits, with at most one plus sign in front.
pub open spec fn unsigned_value(s: Seq<char>) -> Option<nat> {
    if s.len() > 1 && s[0] == '+' {
        digits_value(s.drop_first())
    } else {
        digits_value(s)
    }
}

/// `s` writes a number that is at most `max`.
pub open spec fn writes_at_most(s: Seq<char>, max: nat) -> bool {
    unsigned_value(s) matches Some(n) && n <= max
}

proof fn lemma_digits_prefix(s: Seq<char>, k: int)
    requires
        0 < k <= s.len(),
        digits_value(s) is Some,
    ensures
        digits_value(s.take(k)) is Some,
        digits_value(s.take(k))->0 <= digits_value(s)->0,
    decreases s.len(),
{
    if k < s.len() {
        lemma_digits_prefix(s.drop_last(), k);
        assert(s.drop_last().take(k) == s.take(k));
    } else {
        assert(s.take(k) == s);
    }
}

/// Reads the number that `s` writes, when it is at most `max`.
pub fn parse_unsigned(s: &str, max: u64) -> (r: Option<u64>)
    ensures
        r is Some <==> (unsigned_value(s@) is Some && unsigned_value(s@)->0 <= max),
        r is Some ==> r->0 == unsigned_value(s@)->0,
{
    let chars = chars_of(s);
    let start: usize = if chars.len() > 1 && chars[0] == '+' {
        1
    } else {
        0
    };
    let ghost body = chars@.skip(start as int);
    assert(start == 1 ==> body == chars@.drop_first());
    assert(start == 0 ==> body == chars@);
    if chars.len() == start {
        return None;
    }
    let mut value: u64 = 0;
    let mut i: usize = start;
    while i < chars.len()
        invariant
            start <= i <= chars@.len(),
            start < chars@.len(),
            body == chars@.skip(start as int),
            body == (if start == 1 { s@.drop_first() } else { s@ }),
            unsigned_value(s@) == digits_value(body),
            i > start ==> digits_value(body.take(i - start)) == Some(value as nat),
            i == start ==> value == 0,
            value <= max,
        decreases chars@.len() - i,
    {
        let c = chars[i];
        let ghost next = body.take(i - start + 1);
        assert(next.drop_last() == body.take(i - start));
        assert(next.last() == c);
        if !('0' <= c && c <= '9') {
            proof {
                if digits_value(body) is Some {
                    lemma_digits_prefix(body, i - start + 1);
                }
            }
            return None;
        }
        let d: u64 = (c as u8 - 48u8) as u64;
        assert(digits_value(next) == Some((value * 10 + d) as nat)) by {
            if i == start {
                assert(next.len() == 1 && next[0] == c);
            }
        }
        if value as u128 * 10 + d as u128 > max as u128 {
            proof {
                if digits_value(body) is Some {
                    lemma_digits_prefix(body, i - start + 1);
                }
            }
            return None;
        }
        value = value * 10 + d;
        i += 1;
    }
    assert(body.take(chars@.len() - start) == body);
    Some(value)
}

/// Writing a number in decimal and reading it back gives the number.
pub proof fn law_decimal_read_back(n: nat)
    ensures
        unsigned_value(decimal(n)) == Some(n),
    decreases n,
{
    lemma_decimal_digits(n);
    let s = decimal(n);
    assert(s[0] != '+') by {
        lemma_decimal_head(n);
    }
}

proof fn lemma_decimal_digits(n: nat)
    ensures
        digits_value(decimal(n)) == Some(n),
    decreases n,
{
    if n >= 10 {
        lemma_decimal_digits(n / 10);
        let s = decimal(n);
        assert(s.drop_last() == decimal(n / 10));
        assert(decimal(n / 10).len() >= 1);
        assert(digit_value(digit_char(n % 10)) == Some(n % 10));
    } else {
        assert(digit_value(digit_char(n)) == Some(n));
    }
}

proof fn lemma_decimal_head(n: nat)
    ensures
        decimal(n).len() >= 1,
        '0' <= decimal(n)[0] <= '9',
    decreases n,
{
    if n >= 10 {
        lemma_decimal_head(n / 10);
    }
}

/// Two numbers with the same decimal writing are the same number.
pub proof fn law_decimal_injective(m: nat, n: nat)
    requires
        decimal(m) == decimal(n),
    ensures
        m == n,
{
    law_decimal_read_back(m);
    law_decimal_read_back(n);
}

/// How many chunks of `chunk_size` bytes a file of `file_size` bytes takes: full
/// ones, and a shorter one for what is left over.
pub open spec fn chunk_count(file_size: nat, chunk_size: nat) -> nat
    recommends
        chunk_size > 0,
{
    if file_size % chunk_size == 0 {
        file_size / chunk_size
    } else {
        file_size / chunk_size + 1
    }
}

/// Counts the chunks of a file.
pub fn count_chunks(file_size: u64, chunk_size: u64) -> (r: u64)
    requires
        chunk_size > 0,
    ensures
        r == chunk_count(file_size as nat, chunk_size as nat),
{
    if file_size % chunk_size == 0 {
        file_size / chunk_size
    } else {
        assert(file_size / chunk_size < u64::MAX) by (nonlinear_arith)
            requires
                chunk_size > 0,
                file_size % chunk_size != 0,
        ;
        file_size / chunk_size + 1
    }
}

/// The number of bytes in chunk `id`.
pub open spec fn chunk_len(file_size: nat, chunk_size: nat, id: nat) -> nat {
    if (id + 1) * chunk_size <= file_size {
        chunk_size
    } else if id * chunk_size <= file_size {
        (file_size - id * chunk_size) as nat
    } else {
        0
    }
}

/// The chunks cover the file exactly: chunk `id` is one of them just when it starts
/// inside the file, and just when it holds a byte; and the first offset past the last
/// of them is less than one chunk past the end.
pub proof fn law_chunks_cover_file(file_size: nat, chunk_size: nat, id: nat)
    requires
        chunk_size > 0,
    ensures
        id < chunk_count(file_size, chunk_size) <==> id * chunk_size < file_size,
        id < chunk_count(file_size, chunk_size) <==> chunk_len(file_size, chunk_size, id) > 0,
        file_size <= chunk_count(file_size, chunk_size) * chunk_size < file_size + chunk_size,
{
    lemma_fundamental_div_mod(file_size as int, chunk_size as int);
    lemma_mod_bound(file_size as int, chunk_size as int);
    let q = file_size / chunk_size;
    let n = chunk_count(file_size, chunk_size);
    lemma_mul_is_commutative(chunk_size as int, q as int);
    lemma_mul_is_distributive_add_other_way(chunk_size as int, q as int, 1);
    lemma_mul_is_distributive_add_other_way(chunk_size as int, id as int, 1);
    if id < n {
        lemma_mul_inequality(id as int, n - 1, chunk_size as int);
        lemma_mul_is_distributive_add_other_way(chunk_size as int, n - 1, 1);
    } else {
        lemma_mul_inequality(n as int, id as int, chunk_size as int);
    }
}

proof fn lemma_digit_chars_differ(a: nat, b: nat)
    requires
        a < 16,
        b < 16,
        digit_char(a) == digit_char(b),
    ensures
        a == b,
{
}

/// Two numbers with the same writing in a base are the same number.
pub proof fn law_numeral_injective(m: nat, n: nat, base: nat)
    requires
        2 <= base <= 16,
        numeral(m, base) == numeral(n, base),
    ensures
        m == n,
    decreases m,
{
    lemma_numeral_len(m, base);
    lemma_numeral_len(n, base);
    lemma_fundamental_div_mod(m as int, base as int);
    lemma_fundamental_div_mod(n as int, base as int);
    lemma_mod_bound(m as int, base as int);
    lemma_mod_bound(n as int, base as int);
    if m < base {
        lemma_small_mod(m, base);
    }
    if n < base {
        lemma_small_mod(n, base);
    }
    assert(numeral(m, base).last() == digit_char(m % base));
    assert(numeral(n, base).last() == digit_char(n % base));
    lemma_digit_chars_differ(m % base, n % base);
    if m >= base && n >= base {
        assert(m / base < m) by (nonlinear_arith)
            requires
                m >= base,
                base >= 2,
        ;
        assert(numeral(m, base).drop_last() == numeral(m / base, base));
        assert(numeral(n, base).drop_last() == numeral(n / base, base));
        law_numeral_injective(m / base, n / base, base);
    }
}

proof fn lemma_numeral_len(n: nat, base: nat)
    requires
        2 <= base <= 16,
    ensures
        numeral(n, base).len() >= 1,
        n >= base ==> numeral(n, base).len() >= 2,
    decreases n,
{
    if n >= base {
        assert(n / base < n) by (nonlinear_arith)
            requires
                n >= base,
                base >= 2,
        ;
        lemma_numeral_len(n / base, base);
    }
}

/// Every character of a number in decimal is a digit, and the first is no zero but for
/// zero itself.
pub proof fn law_decimal_is_digits(n: nat)
    ensures
        decimal(n).len() >= 1,
        forall|i: int| 0 <= i < decimal(n).len() ==> '0' <= #[trigger] decimal(n)[i] <= '9',
        n > 0 ==> decimal(n)[0] != '0',
    decreases n,
{
    if n >= 10 {
        law_decimal_is_digits(n / 10);
        assert(decimal(n) == decimal(n / 10).push(digit_char(n % 10)));
    }
}

/// A number in decimal with something behind it that starts with no digit is read in one
/// way only.
pub proof fn law_decimal_ends_at_no_digit(m: nat, n: nat, x: Seq<char>, y: Seq<char>)
    requires
        decimal(m) + x == decimal(n) + y,
        x.len() > 0,
        y.len() > 0,
        !('0' <= x[0] <= '9'),
        !('0' <= y[0] <= '9'),
    ensures
        m == n,
        x == y,
{
    law_decimal_is_digits(m);
    law_decimal_is_digits(n);
    let a = decimal(m);
    let b = decimal(n);
    if a.len() < b.len() {
        assert((a + x)[a.len() as int] == x[0]);
        assert((b + y)[a.len() as int] == b[a.len() as int]);
    }
    if b.len() < a.len() {
        assert((b + y)[b.len() as int] == y[0]);
        assert((a + x)[b.len() as int] == a[b.len() as int]);
    }
    assert(a =~= (a + x).take(a.len() as int));
    assert(b =~= (b + y).take(a.len() as int));
    assert(x =~= (a + x).skip(a.len() as int));
    assert(y =~= (b + y).skip(a.len() as int));
    law_decimal_injective(m, n);
}

/// The digits count up from zero, and each further digit counts the ones before it tenfold.
pub proof fn law_digits_have_place_values(s: Seq<char>, c: char)
    requires
        digits_value(s) is Some,
    ensures
        digit_value('0') == Some(0nat),
        '0' <= c < '9' ==> digit_value(c) is Some && digit_value(((c as u8) + 1) as u8 as char) == Some(
            digit_value(c)->0 + 1,
        ),
        digits_value(s.push(c)) is Some <==> '0' <= c <= '9',
        '0' <= c <= '9' ==> digits_value(s.push(c)) == Some(
            digits_value(s)->0 * 10 + digit_value(c)->0,
        ),
        s.len() > 0,
        s.len() == 1 ==> digits_value(s) == digit_value(s[0]),
{
    assert(s.push(c).drop_last() == s);
    assert(s.push(c).last() == c);
}

/// Only digits, with at most one plus sign in front of them, write a number: and that sign
/// changes nothing.
pub proof fn law_only_digits_write_a_number(s: Seq<char>)
    ensures
        unsigned_value(s) is Some ==> s.len() > 0 && forall|i: int|
            0 <= i < s.len() ==> '0' <= #[trigger] s[i] <= '9' || (i == 0 && s[i] == '+'),
        s.len() > 0 && (forall|i: int| 0 <= i < s.len() ==> '0' <= #[trigger] s[i] <= '9')
            ==> unsigned_value(s) is Some && unsigned_value(seq!['+'] + s) == unsigned_value(s),
{
    if s.len() > 0 {
        lemma_digits_only(s);
        let d = s.drop_first();
        lemma_digits_only(d);
        if s.len() > 1 && s[0] == '+' && unsigned_value(s) is Some {
            assert forall|i: int| 0 <= i < s.len() implies '0' <= #[trigger] s[i] <= '9' || (i == 0
                && s[i] == '+') by {
                if i > 0 {
                    assert(d[i - 1] == s[i]);
                }
            }
        }
        assert((seq!['+'] + s).drop_first() =~= s);
    }
}

proof fn lemma_digits_only(s: Seq<char>)
    ensures
        digits_value(s) is Some <==> s.len() > 0 && forall|i: int|
            0 <= i < s.len() ==> '0' <= #[trigger] s[i] <= '9',
    decreases s.len(),
{
    if s.len() > 1 {
        let d = s.drop_last();
        lemma_digits_only(d);
        if digits_value(s) is Some {
            assert forall|i: int| 0 <= i < s.len() implies '0' <= #[trigger] s[i] <= '9' by {
                if i < d.len() {
                    assert(d[i] == s[i]);
                }
            }
        }
    }
}

/// Two digits are enough below a hundred, and more are written as they are: the number is
/// read back, and a number below ten takes as much room as one above.
pub proof fn law_two_digits_read_back(n: nat)
    ensures
        unsigned_value(two_digits(n)) == Some(n),
        two_digits(n).len() >= 2,
        n < 100 ==> two_digits(n).len() == 2,
{
    law_decimal_read_back(n);
    if n < 10 {
        let s = two_digits(n);
        assert(decimal(n) =~= seq![digit_char(n)]);
        assert(s =~= seq!['0', digit_char(n)]);
        assert(s.drop_last() =~= seq!['0']);
        assert(digits_value(seq!['0']) == Some(0nat));
    } else {
        lemma_numeral_len(n, 10);
        if n < 100 {
            assert(numeral(n / 10, 10).len() == 1);
        }
    }
}

/// A number with its sign is read back: the minus sign stands just in front of a negative
/// one, and behind it the number without it.
pub proof fn law_signed_decimal_read_back(n: int)
    ensures
        n >= 0 ==> unsigned_value(signed_decimal(n)) == Some(n as nat),
        n < 0 ==> signed_decimal(n)[0] == '-' && unsigned_value(signed_decimal(n).drop_first())
            == Some((-n) as nat),
{
    if n < 0 {
        law_decimal_read_back((-n) as nat);
        assert((seq!['-'] + decimal((-n) as nat)).drop_first() =~= decimal((-n) as nat));
    } else {
        law_decimal_read_back(n as nat);
    }
}

/// The chunks of a file make up its size: each starts where the one before it ends, all
/// but the last are full, and none is empty.
pub proof fn law_chunks_make_up_file(file_size: nat, chunk_size: nat, id: nat)
    requires
        chunk_size > 0,
        id < chunk_count(file_size, chunk_size),
    ensures
        0 < chunk_len(file_size, chunk_size, id) <= chunk_size,
        id + 1 < chunk_count(file_size, chunk_size) ==> chunk_len(file_size, chunk_size, id)
            == chunk_size,
        id + 1 == chunk_count(file_size, chunk_size) ==> id * chunk_size + chunk_len(
            file_size,
            chunk_size,
            id,
        ) == file_size,
{
    law_chunks_cover_file(file_size, chunk_size, id);
    law_chunks_cover_file(file_size, chunk_size, id + 1);
    lemma_mul_is_distributive_add_other_way(chunk_size as int, id as int, 1);
}

/// The digits stand in order: from zero to nine, and from `a` on behind them.
pub proof fn law_digits_in_order(d: nat)
    requires
        d < 15,
    ensures
        digit_char(0) == '0',
        digit_char(10) == 'a',
        d != 9 ==> digit_char(d + 1) as u32 == digit_char(d) as u32 + 1,
{
}

}
