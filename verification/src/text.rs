//! Text as sequences of characters: comparing, trimming, and reading and writing
//! decimal numbers.

use vstd::prelude::*;

verus! {

/// The code points that have the Unicode `White_Space` property.
pub open spec fn white_space(c: char) -> bool {
    let p = c as u32;
    ||| 0x09 <= p <= 0x0d
    ||| p == 0x20
    ||| p == 0x85
    ||| p == 0xa0
    ||| p == 0x1680
    ||| 0x2000 <= p <= 0x200a
    ||| p == 0x2028
    ||| p == 0x2029
    ||| p == 0x202f
    ||| p == 0x205f
    ||| p == 0x3000
}

/// Says whether `c` is white space.
pub fn is_white_space(c: char) -> (r: bool)
    ensures
        r == white_space(c),
{
    let p: u32 = c as u32;
    (0x09 <= p && p <= 0x0d) || p == 0x20 || p == 0x85 || p == 0xa0 || p == 0x1680 || (0x2000 <= p
        && p <= 0x200a) || p == 0x2028 || p == 0x2029 || p == 0x202f || p == 0x205f || p == 0x3000
}

/// A text that holds nothing but white space.
pub open spec fn blank(s: Seq<char>) -> bool {
    forall|i: int| 0 <= i < s.len() ==> white_space(#[trigger] s[i])
}

/// `s` without the white space at its two ends.
pub open spec fn trimmed(s: Seq<char>) -> Seq<char>
    decreases s.len(),
{
    if s.len() == 0 {
        s
    } else if white_space(s.first()) {
        trimmed(s.drop_first())
    } else if white_space(s.last()) {
        trimmed(s.drop_last())
    } else {
        s
    }
}

/// `s` without the copies of `c` that it begins with.
pub open spec fn without_leading(s: Seq<char>, c: char) -> Seq<char>
    decreases s.len(),
{
    if s.len() > 0 && s.first() == c {
        without_leading(s.drop_first(), c)
    } else {
        s
    }
}

/// The characters of `s`.
pub fn chars_of(s: &str) -> (r: Vec<char>)
    ensures
        r@ == s@,
{
    let mut r: Vec<char> = Vec::new();
    for c in it: s.chars()
        invariant
            r@.len() == it.index(),
            it.seq() == s@,
            r@ == s@.take(it.index() as int),
    {
        r.push(c);
        assert(r@ =~= s@.take(it.index() as int + 1));
    }
    assert(s@.take(s@.len() as int) =~= s@);
    r
}

/// Says whether two texts hold the same characters.
pub fn same_text(a: &str, b: &str) -> (r: bool)
    ensures
        r == (a@ == b@),
{
    let x = chars_of(a);
    let y = chars_of(b);
    if x.len() != y.len() {
        return false;
    }
    let n: usize = x.len();
    let mut i: usize = 0;
    while i < n
        invariant
            x@ == a@,
            y@ == b@,
            n == x@.len(),
            n == y@.len(),
            i <= n,
            forall|k: int| 0 <= k < i ==> x@[k] == y@[k],
        decreases n - i,
    {
        if x[i] != y[i] {
            return false;
        }
        i += 1;
    }
    assert(x@ =~= y@);
    true
}

proof fn lemma_trim_front(s: Seq<char>, k: int)
    requires
        0 <= k <= s.len(),
        forall|i: int| 0 <= i < k ==> white_space(#[trigger] s[i]),
    ensures
        trimmed(s) == trimmed(s.skip(k)),
    decreases k,
{
    if k == 0 {
        assert(s.skip(0) =~= s);
    } else {
        assert(white_space(s[0]));
        assert forall|i: int| 0 <= i < k - 1 implies white_space(#[trigger] s.drop_first()[i]) by {
            assert(white_space(s[i + 1]));
        }
        lemma_trim_front(s.drop_first(), k - 1);
        assert(s.drop_first().skip(k - 1) =~= s.skip(k));
    }
}

proof fn lemma_trim_back(s: Seq<char>, k: int)
    requires
        0 < k <= s.len(),
        !white_space(s[0]),
        forall|i: int| k <= i < s.len() ==> white_space(#[trigger] s[i]),
    ensures
        trimmed(s) == trimmed(s.take(k)),
    decreases s.len() - k,
{
    if k == s.len() {
        assert(s.take(k) =~= s);
    } else {
        assert(white_space(s[s.len() - 1]));
        lemma_trim_back(s.drop_last(), k);
        assert(s.drop_last().take(k) =~= s.take(k));
    }
}

/// A text trims to nothing exactly when it is blank.
pub proof fn trimmed_of_blank(s: Seq<char>)
    ensures
        (trimmed(s).len() == 0) == blank(s),
    decreases s.len(),
{
    if s.len() > 0 {
        if white_space(s.first()) {
            trimmed_of_blank(s.drop_first());
            if blank(s.drop_first()) {
                assert forall|i: int| 0 <= i < s.len() implies white_space(#[trigger] s[i]) by {
                    if i > 0 {
                        assert(white_space(s.drop_first()[i - 1]));
                    }
                }
            }
            if blank(s) {
                assert forall|i: int| 0 <= i < s.drop_first().len() implies white_space(
                    #[trigger] s.drop_first()[i],
                ) by {
                    assert(white_space(s[i + 1]));
                }
            }
        } else {
            assert(!blank(s)) by {
                assert(!white_space(s[0]));
            }
            if white_space(s.last()) {
                trimmed_of_blank(s.drop_last());
                assert(!blank(s.drop_last())) by {
                    assert(s.drop_last()[0] == s[0]);
                }
            }
        }
    }
}

/// Takes the white space off both ends of a text.
pub fn trim<'a>(s: &'a str) -> (r: &'a str)
    ensures
        r@ == trimmed(s@),
{
    let x = chars_of(s);
    let n: usize = x.len();
    let mut lo: usize = 0;
    while lo < n && is_white_space(x[lo])
        invariant
            n == x@.len(),
            lo <= n,
            forall|i: int| 0 <= i < lo ==> white_space(#[trigger] x@[i]),
        decreases n - lo,
    {
        lo += 1;
    }
    proof {
        lemma_trim_front(x@, lo as int);
    }
    let mut hi: usize = n;
    while hi > lo && is_white_space(x[hi - 1])
        invariant
            n == x@.len(),
            lo <= hi <= n,
            forall|i: int| hi <= i < n ==> white_space(#[trigger] x@[i]),
        decreases hi,
    {
        hi -= 1;
    }
    proof {
        let rest = x@.skip(lo as int);
        if lo < n {
            assert(rest[0] == x@[lo as int]);
            assert forall|i: int| hi - lo <= i < rest.len() implies white_space(
                #[trigger] rest[i],
            ) by {
                assert(white_space(x@[i + lo]));
            }
            if hi > lo {
                lemma_trim_back(rest, hi - lo);
                let kept = rest.take(hi - lo);
                assert(kept =~= x@.subrange(lo as int, hi as int));
                assert(kept.last() == x@[hi - 1]);
            } else {
                assert(white_space(x@[lo as int]));
            }
        }
        assert(x@.subrange(lo as int, hi as int) =~= trimmed(s@));
    }
    s.substring_char(lo, hi)
}

/// Takes the copies of `c` off the front of a text.
pub fn trim_leading<'a>(s: &'a str, c: char) -> (r: &'a str)
    ensures
        r@ == without_leading(s@, c),
{
    let x = chars_of(s);
    let n: usize = x.len();
    let mut lo: usize = 0;
    assert(x@.skip(0) =~= x@);
    while lo < n && x[lo] == c
        invariant
            n == x@.len(),
            lo <= n,
            without_leading(x@, c) == without_leading(x@.skip(lo as int), c),
        decreases n - lo,
    {
        assert(x@.skip(lo as int).drop_first() =~= x@.skip(lo as int + 1));
        lo += 1;
    }
    assert(x@.subrange(lo as int, n as int) =~= x@.skip(lo as int));
    s.substring_char(lo, n)
}

/// The value of an ASCII digit, or nothing for another character.
pub open spec fn digit_value(c: char) -> Option<nat> {
    if '0' <= c <= '9' {
        Some((c as u32 - '0' as u32) as nat)
    } else {
        None
    }
}

/// A text of ASCII digits only.
pub open spec fn all_digits(s: Seq<char>) -> bool {
    forall|i: int| 0 <= i < s.len() ==> digit_value(#[trigger] s[i]) is Some
}

/// The number that a text of digits writes in base ten.
pub open spec fn number_written(s: Seq<char>) -> nat
    decreases s.len(),
{
    if s.len() == 0 {
        0
    } else {
        number_written(s.drop_last()) * 10 + digit_value(s.last()).unwrap()
    }
}

/// A text without the one plus sign that may stand before a number.
pub open spec fn after_sign(s: Seq<char>) -> Seq<char> {
    if s.len() > 0 && s.first() == '+' {
        s.drop_first()
    } else {
        s
    }
}

/// The unsigned 64-bit number that a text writes: digits, at least one, with
/// at most one plus sign before them, and a value that fits.
pub open spec fn parsed_u64(s: Seq<char>) -> Option<u64> {
    let digits = after_sign(s);
    if digits.len() > 0 && all_digits(digits) && number_written(digits) <= u64::MAX {
        Some(number_written(digits) as u64)
    } else {
        None
    }
}

proof fn lemma_prefix_is_smaller(s: Seq<char>, k: int)
    requires
        0 <= k <= s.len(),
        all_digits(s),
    ensures
        number_written(s.take(k)) <= number_written(s),
    decreases s.len() - k,
{
    if k == s.len() {
        assert(s.take(k) =~= s);
    } else {
        let t = s.drop_last();
        assert forall|i: int| 0 <= i < t.len() implies digit_value(#[trigger] t[i]) is Some by {
            assert(digit_value(s[i]) is Some);
        }
        lemma_prefix_is_smaller(t, k);
        assert(t.take(k) =~= s.take(k));
    }
}

/// Reads an unsigned 64-bit number.
pub fn parse_u64(s: &str) -> (r: Option<u64>)
    ensures
        r == parsed_u64(s@),
{
    let x = chars_of(s);
    let n: usize = x.len();
    let start: usize = if n > 0 && x[0] == '+' {
        1
    } else {
        0
    };
    let ghost digits = after_sign(s@);
    assert(digits =~= x@.skip(start as int));
    if start == n {
        return None;
    }
    let mut value: u64 = 0;
    let mut i: usize = start;
    assert(digits.take(0).len() == 0);
    while i < n
        invariant
            x@ == s@,
            n == x@.len(),
            start <= i <= n,
            start < n,
            digits == after_sign(s@),
            digits == x@.skip(start as int),
            all_digits(digits.take(i - start)),
            value == number_written(digits.take(i - start)),
        decreases n - i,
    {
        let c = x[i];
        let ghost k = i - start;
        assert(digits[k] == c);
        assert(digits.take(k + 1).drop_last() =~= digits.take(k));
        if c < '0' || c > '9' {
            assert(digit_value(digits[k]) is None);
            return None;
        }
        let d: u64 = (c as u32 - '0' as u32) as u64;
        assert(digits.take(k + 1).last() == c);
        assert(number_written(digits.take(k + 1)) == value * 10 + d);
        assert forall|j: int| 0 <= j < k + 1 implies digit_value(
            #[trigger] digits.take(k + 1)[j],
        ) is Some by {
            if j < k {
                assert(digit_value(digits.take(k)[j]) is Some);
            }
        }
        if value > u64::MAX / 10 || value * 10 > u64::MAX - d {
            proof {
                if all_digits(digits) {
                    lemma_prefix_is_smaller(digits, k + 1);
                }
            }
            return None;
        }
        value = value * 10 + d;
        i += 1;
    }
    assert(digits.take(n - start) =~= digits);
    Some(value)
}

/// The ASCII digit of a number below ten.
pub open spec fn digit_char(n: nat) -> char {
    ('0' as u32 + n) as char
}

/// A number written in base ten without needless zeros.
pub open spec fn decimal_text(n: nat) -> Seq<char>
    decreases n,
{
    if n < 10 {
        seq![digit_char(n)]
    } else {
        decimal_text(n / 10).push(digit_char(n % 10))
    }
}

/// An integer written in base ten, with a minus sign where it is negative.
pub open spec fn signed_text(n: int) -> Seq<char> {
    if n < 0 {
        seq!['-'] + decimal_text((-n) as nat)
    } else {
        decimal_text(n as nat)
    }
}

fn digit(d: u64) -> (r: &'static str)
    requires
        d < 10,
    ensures
        r@ == seq![digit_char(d as nat)],
{
    proof {
        reveal_strlit("0");
        reveal_strlit("1");
        reveal_strlit("2");
        reveal_strlit("3");
        reveal_strlit("4");
        reveal_strlit("5");
        reveal_strlit("6");
        reveal_strlit("7");
        reveal_strlit("8");
        reveal_strlit("9");
    }
    let r: &'static str = if d == 0 {
        "0"
    } else if d == 1 {
        "1"
    } else if d == 2 {
        "2"
    } else if d == 3 {
        "3"
    } else if d == 4 {
        "4"
    } else if d == 5 {
        "5"
    } else if d == 6 {
        "6"
    } else if d == 7 {
        "7"
    } else if d == 8 {
        "8"
    } else {
        "9"
    };
    assert(r@ =~= seq![digit_char(d as nat)]);
    r
}

/// Writes an unsigned number in base ten.
pub fn decimal(n: u64) -> (r: String)
    ensures
        r@ == decimal_text(n as nat),
    decreases n,
{
    if n < 10 {
        digit(n).to_owned()
    } else {
        let mut r = decimal(n / 10);
        r.append(digit(n % 10));
        assert(r@ =~= decimal_text(n as nat));
        r
    }
}

/// Writes a signed number in base ten.
pub fn signed_decimal(n: i64) -> (r: String)
    ensures
        r@ == signed_text(n as int),
{
    if n < 0 {
        proof {
            reveal_strlit("-");
        }
        let size: u64 = (0 - n as i128) as u64;
        let mut r = "-".to_owned();
        let tail = decimal(size);
        r.append(tail.as_str());
        assert(r@ =~= signed_text(n as int));
        r
    } else {
        decimal(n as u64)
    }
}

/// A number that was written in base ten is read back as it was.
pub proof fn number_survives_writing(n: u64)
    ensures
        parsed_u64(decimal_text(n as nat)) == Some(n),
{
    lemma_decimal_is_read_back(n as nat);
    let s = decimal_text(n as nat);
    assert(digit_value(s[0]) is Some);
    assert(after_sign(s) == s);
}

/// A number that was written in base ten has no white space to trim.
pub proof fn written_number_is_trimmed(n: nat)
    ensures
        trimmed(decimal_text(n)) == decimal_text(n),
{
    lemma_decimal_is_read_back(n);
    let s = decimal_text(n);
    assert(digit_value(s[0]) is Some);
    assert(digit_value(s[s.len() - 1]) is Some);
}

proof fn lemma_decimal_is_read_back(n: nat)
    ensures
        decimal_text(n).len() > 0,
        all_digits(decimal_text(n)),
        number_written(decimal_text(n)) == n,
    decreases n,
{
    let s = decimal_text(n);
    if n < 10 {
        assert(s.drop_last() =~= Seq::<char>::empty());
        assert(number_written(s.drop_last()) == 0);
    } else {
        lemma_decimal_is_read_back(n / 10);
        let t = decimal_text(n / 10);
        assert(s.drop_last() =~= t);
        assert forall|i: int| 0 <= i < s.len() implies digit_value(#[trigger] s[i]) is Some by {
            if i < t.len() {
                assert(digit_value(t[i]) is Some);
            }
        }
    }
}

} // verus!
