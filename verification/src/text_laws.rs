//! What holds of trimming, of reading and writing numbers, and of the order of names.

#[allow(unused_imports)]
use vstd::prelude::*;

#[allow(unused_imports)]
use crate::ids::texts;
#[allow(unused_imports)]
use crate::order::{names_of, text_le, text_sorted};
#[allow(unused_imports)]
use crate::text::{
    after_sign, all_digits, blank, decimal_text, digit_value, number_survives_writing,
    number_written, parsed_u64, signed_text, trimmed, white_space, without_leading,
    written_number_is_trimmed,
};
#[allow(unused_imports)]
use crate::types::signed_count;

verus! {

/// Trimming takes off the white space at the two ends and nothing else: what is left is
/// a stretch of the text that neither begins nor ends with white space, and all that
/// stood before and behind it is white space.
pub proof fn trimming_takes_off_the_white_ends(s: Seq<char>) -> (r: (int, int))
    ensures
        0 <= r.0 <= r.1 <= s.len(),
        trimmed(s) == s.subrange(r.0, r.1),
        forall|i: int| 0 <= i < r.0 || r.1 <= i < s.len() ==> white_space(#[trigger] s[i]),
        r.0 < r.1 ==> !white_space(s[r.0]) && !white_space(s[r.1 - 1]),
    decreases s.len(),
{
    if s.len() == 0 {
        assert(s.subrange(0, 0) =~= s);
        (0, 0)
    } else if white_space(s.first()) {
        let rest = s.drop_first();
        let (lo, hi) = trimming_takes_off_the_white_ends(rest);
        assert(rest.subrange(lo, hi) =~= s.subrange(lo + 1, hi + 1));
        assert forall|i: int| 0 <= i < lo + 1 || hi + 1 <= i < s.len() implies white_space(
            #[trigger] s[i],
        ) by {
            if i > 0 {
                assert(rest[i - 1] == s[i]);
            }
        }
        if lo < hi {
            assert(rest[lo] == s[lo + 1]);
            assert(rest[hi - 1] == s[hi]);
        }
        (lo + 1, hi + 1)
    } else if white_space(s.last()) {
        let rest = s.drop_last();
        let (lo, hi) = trimming_takes_off_the_white_ends(rest);
        assert(rest.subrange(lo, hi) =~= s.subrange(lo, hi));
        assert forall|i: int| 0 <= i < lo || hi <= i < s.len() implies white_space(
            #[trigger] s[i],
        ) by {
            if i < rest.len() {
                assert(rest[i] == s[i]);
            }
        }
        if lo < hi {
            assert(rest[lo] == s[lo]);
            assert(rest[hi - 1] == s[hi - 1]);
        }
        (lo, hi)
    } else {
        assert(s.subrange(0, s.len() as int) =~= s);
        (0, s.len() as int)
    }
}

/// White space round a text does not matter to trimming.
pub proof fn white_space_round_a_text_is_trimmed(before: Seq<char>, s: Seq<char>, behind: Seq<char>)
    requires
        blank(before),
        blank(behind),
    ensures
        trimmed(before + s + behind) == trimmed(s),
    decreases before.len() + behind.len(),
{
    let all = before + s + behind;
    if before.len() > 0 {
        assert(white_space(before[0]));
        assert(all.first() == before[0]);
        assert(all.drop_first() =~= before.drop_first() + s + behind);
        assert forall|i: int| 0 <= i < before.drop_first().len() implies white_space(
            #[trigger] before.drop_first()[i],
        ) by {
            assert(white_space(before[i + 1]));
        }
        white_space_round_a_text_is_trimmed(before.drop_first(), s, behind);
    } else if behind.len() > 0 {
        let shorter = behind.drop_last();
        assert(white_space(behind[behind.len() - 1]));
        assert forall|i: int| 0 <= i < shorter.len() implies white_space(#[trigger] shorter[i]) by {
            assert(white_space(behind[i]));
        }
        white_space_round_a_text_is_trimmed(before, s, shorter);
        assert(all =~= s + behind);
        assert((before + s + shorter) =~= s + shorter);
        lemma_trim_last(s + shorter, behind.last());
        assert((s + shorter).push(behind.last()) =~= all);
    } else {
        assert(all =~= s);
    }
}

proof fn lemma_trim_last(s: Seq<char>, c: char)
    requires
        white_space(c),
    ensures
        trimmed(s.push(c)) == trimmed(s),
    decreases s.len(),
{
    let t = s.push(c);
    if s.len() == 0 {
        assert(t.drop_first() =~= s);
    } else if white_space(s.first()) {
        lemma_trim_last(s.drop_first(), c);
        assert(t.first() == s.first());
        assert(t.drop_first() =~= s.drop_first().push(c));
    } else {
        assert(t.first() == s.first());
        assert(t.last() == c);
        assert(t.drop_last() =~= s);
    }
}

/// Taking a character off the front takes off every copy that the text begins with, and
/// no more.
pub proof fn leading_copies_are_taken_off(s: Seq<char>, c: char) -> (k: int)
    ensures
        0 <= k <= s.len(),
        without_leading(s, c) == s.skip(k),
        forall|i: int| 0 <= i < k ==> #[trigger] s[i] == c,
        k < s.len() ==> s[k] != c,
    decreases s.len(),
{
    if s.len() > 0 && s.first() == c {
        let k = leading_copies_are_taken_off(s.drop_first(), c);
        assert(s.drop_first().skip(k) =~= s.skip(k + 1));
        assert forall|i: int| 0 <= i < k + 1 implies #[trigger] s[i] == c by {
            if i > 0 {
                assert(s.drop_first()[i - 1] == s[i]);
            }
        }
        if k + 1 < s.len() {
            assert(s.drop_first()[k] == s[k + 1]);
        }
        k + 1
    } else {
        assert(s.skip(0) =~= s);
        0
    }
}

/// A number is read off its digits, whatever white space stands round it.
pub proof fn number_is_read_between_white_space(before: Seq<char>, n: u64, behind: Seq<char>)
    requires
        blank(before),
        blank(behind),
    ensures
        parsed_u64(trimmed(before + decimal_text(n as nat) + behind)) == Some(n),
{
    white_space_round_a_text_is_trimmed(before, decimal_text(n as nat), behind);
    written_number_is_trimmed(n as nat);
    number_survives_writing(n);
}

/// One digit is read as its value.
pub proof fn one_digit_is_its_value(c: char)
    requires
        '0' <= c <= '9',
    ensures
        parsed_u64(seq![c]) == Some((c as u32 - '0' as u32) as u64),
{
    let s = seq![c];
    assert(after_sign(s) == s);
    assert(s.drop_last() =~= Seq::<char>::empty());
    assert(number_written(s.drop_last()) == 0);
    assert(s.last() == c);
    assert(all_digits(s));
}

/// A digit behind a number counts ten times what stands before it and itself; where
/// that does not fit in 64 bits, no number is read.
pub proof fn a_further_digit_counts_tenfold(s: Seq<char>, n: u64, c: char)
    requires
        parsed_u64(s) == Some(n),
        '0' <= c <= '9',
    ensures
        ({
            let value = n * 10 + (c as u32 - '0' as u32);
            parsed_u64(s.push(c)) == (if value <= u64::MAX {
                Some(value as u64)
            } else {
                None::<u64>
            })
        }),
{
    let t = s.push(c);
    let digits = after_sign(s);
    assert(after_sign(t) =~= digits.push(c));
    let longer = digits.push(c);
    assert(longer.drop_last() =~= digits);
    assert(longer.last() == c);
    assert forall|i: int| 0 <= i < longer.len() implies digit_value(#[trigger] longer[i]) is Some by {
        if i < digits.len() {
            assert(digit_value(digits[i]) is Some);
        }
    }
    assert(all_digits(longer));
}

/// Behind a number nothing but a digit can stand.
pub proof fn nothing_but_digits_stands_in_a_number(s: Seq<char>, i: int)
    requires
        parsed_u64(s) is Some,
        0 <= i < s.len(),
    ensures
        '0' <= s[i] <= '9' || (i == 0 && s[i] == '+' && s.len() > 1),
{
    let digits = after_sign(s);
    if s.first() == '+' {
        if i > 0 {
            assert(digits[i - 1] == s[i]);
            assert(digit_value(digits[i - 1]) is Some);
        }
    } else {
        assert(digit_value(digits[i]) is Some);
    }
}

/// An empty text holds no number.
pub proof fn empty_text_is_no_number()
    ensures
        parsed_u64(Seq::empty()) is None,
{
}

/// One plus sign before a number does not matter.
pub proof fn plus_sign_does_not_matter(s: Seq<char>)
    requires
        s.len() > 0,
        s.first() != '+',
    ensures
        parsed_u64(seq!['+'] + s) == parsed_u64(s),
{
    assert((seq!['+'] + s).drop_first() =~= s);
}

/// A number is written with digits alone and without a needless zero.
pub proof fn number_is_written_with_digits(n: nat, i: int)
    requires
        0 <= i < decimal_text(n).len(),
    ensures
        '0' <= decimal_text(n)[i] <= '9',
        i == 0 && n > 0 ==> decimal_text(n)[i] != '0',
    decreases n,
{
    if n >= 10 {
        let front = decimal_text(n / 10);
        lemma_not_empty(n / 10);
        if i < front.len() {
            number_is_written_with_digits(n / 10, i);
        }
    }
}

proof fn lemma_not_empty(n: nat)
    ensures
        decimal_text(n).len() > 0,
    decreases n,
{
    if n >= 10 {
        lemma_not_empty(n / 10);
    }
}

/// Two numbers are not written alike.
pub proof fn numbers_are_written_differently(a: u64, b: u64)
    requires
        a != b,
    ensures
        decimal_text(a as nat) != decimal_text(b as nat),
{
    number_survives_writing(a);
    number_survives_writing(b);
}

/// A negative number is written as the positive one behind a minus sign.
pub proof fn minus_sign_stands_before_a_negative_number(n: int)
    requires
        n > 0,
    ensures
        signed_text(-n) == seq!['-'] + signed_text(n),
        signed_text(n) == decimal_text(n as nat),
        signed_text(0) == decimal_text(0),
{
}

/// Two texts are ordered by the first character in which they differ.
pub proof fn first_difference_decides(a: Seq<char>, b: Seq<char>, k: int)
    requires
        0 <= k < a.len(),
        k < b.len(),
        a.take(k) == b.take(k),
        a[k] < b[k],
    ensures
        text_le(a, b),
        !text_le(b, a),
    decreases k,
{
    if k > 0 {
        assert(a.take(k)[0] == a[0]);
        assert(b.take(k)[0] == b[0]);
        assert(a.drop_first().take(k - 1) =~= a.take(k).drop_first());
        assert(b.drop_first().take(k - 1) =~= b.take(k).drop_first());
        first_difference_decides(a.drop_first(), b.drop_first(), k - 1);
    }
}

/// A text stands before every longer text that it begins.
pub proof fn a_beginning_stands_first(a: Seq<char>, rest: Seq<char>)
    ensures
        text_le(a, a + rest),
        rest.len() > 0 ==> !text_le(a + rest, a),
    decreases a.len(),
{
    if a.len() > 0 {
        assert((a + rest).drop_first() =~= a.drop_first() + rest);
        a_beginning_stands_first(a.drop_first(), rest);
    }
}

/// In a sorted listing no name stands before an earlier one.
pub proof fn sorted_names_do_not_go_back(names: Seq<Seq<char>>, i: int, j: int)
    requires
        text_sorted(names),
        0 <= i < j < names.len(),
    ensures
        text_le(names[i], names[j]),
{
}

/// The names of a list stand at the places of their items.
pub proof fn names_keep_their_places<T>(items: Seq<(String, T)>, ids: Seq<String>)
    ensures
        names_of(items).len() == items.len(),
        forall|i: int| 0 <= i < items.len() ==> #[trigger] names_of(items)[i] == items[i].0@,
        texts(ids).len() == ids.len(),
        forall|i: int| 0 <= i < ids.len() ==> #[trigger] texts(ids)[i] == ids[i]@,
{
}

/// A count and its signed form are the same 64 bits: they differ by nothing or by 2^64,
/// and the signed form fits.
pub proof fn signed_form_has_the_same_bits(count: u64)
    ensures
        i64::MIN <= signed_count(count) <= i64::MAX,
        signed_count(count) == count || signed_count(count) + 0x1_0000_0000_0000_0000 == count,
{
}

} // verus!
