//! Text: what trimming, replacing and reading numbers give.

use crate::text;
use crate::text::{
    is_blank, lower_slice, parse_i32, parse_u32, push_decimal, push_signed_decimal, replace_slice,
    same_str, trim_slice,
};
use vstd::prelude::*;

verus! {

proof fn lemma_trim_start_cut(s: Seq<char>) -> (a: int)
    ensures
        0 <= a <= s.len(),
        text::trim_start(s) == s.skip(a),
        forall|i: int| 0 <= i < a ==> text::is_white_space(#[trigger] s[i]),
        a < s.len() ==> !text::is_white_space(s[a]),
    decreases s.len(),
{
    if s.len() > 0 && text::is_white_space(s.first()) {
        let a = lemma_trim_start_cut(s.drop_first());
        assert(s.drop_first().skip(a) =~= s.skip(a + 1));
        assert forall|i: int| 0 <= i < a + 1 implies text::is_white_space(#[trigger] s[i]) by {
            if i > 0 {
                assert(s[i] == s.drop_first()[i - 1]);
            }
        }
        a + 1
    } else {
        assert(s.skip(0) =~= s);
        0
    }
}

proof fn lemma_trim_end_cut(s: Seq<char>) -> (b: int)
    ensures
        0 <= b <= s.len(),
        text::trim_end(s) == s.take(b),
        forall|i: int| b <= i < s.len() ==> text::is_white_space(#[trigger] s[i]),
        b > 0 ==> !text::is_white_space(s[b - 1]),
    decreases s.len(),
{
    if s.len() > 0 && text::is_white_space(s.last()) {
        let b = lemma_trim_end_cut(s.drop_last());
        assert(s.drop_last().take(b) =~= s.take(b));
        assert forall|i: int| b <= i < s.len() implies text::is_white_space(#[trigger] s[i]) by {
            if i < s.len() - 1 {
                assert(s[i] == s.drop_last()[i]);
            }
        }
        b
    } else {
        assert(s.take(s.len() as int) =~= s);
        s.len() as int
    }
}

/// Trimming the end cuts off the white space there and nothing else, and leaves none.
pub proof fn lemma_end_trimmed(s: Seq<char>)
    ensures
        exists|after: Seq<char>|
            {
                &&& s == #[trigger] (text::trim_end(s) + after)
                &&& forall|i: int| 0 <= i < after.len() ==> text::is_white_space(#[trigger] after[i])
            },
        text::trim_end(s).len() > 0 ==> !text::is_white_space(
            text::trim_end(s)[text::trim_end(s).len() - 1],
        ),
{
    let b = lemma_trim_end_cut(s);
    assert(s =~= text::trim_end(s) + s.skip(b));
}

/// White space is what Unicode calls so: of the characters up to the last of them, the
/// five from the tab to the carriage return, the space, the next line, the spaces of
/// other widths, and the line and paragraph separators.
pub proof fn lemma_white_space(c: char)
    ensures
        text::is_white_space(c) <==> {
            let code = c as int;
            ||| 9 <= code <= 13
            ||| code == 32
            ||| code == 0x85
            ||| code == 0xa0
            ||| code == 0x1680
            ||| 0x2000 <= code <= 0x200a
            ||| 0x2028 <= code <= 0x2029
            ||| code == 0x202f
            ||| code == 0x205f
            ||| code == 0x3000
        },
{
}

/// Trimming cuts off white space at both ends and nothing else, and leaves none there.
pub proof fn lemma_trimmed(s: Seq<char>)
    ensures
        exists|before: Seq<char>, after: Seq<char>|
            {
                &&& s == #[trigger] (before + text::trim(s) + after)
                &&& forall|i: int| 0 <= i < before.len() ==> text::is_white_space(#[trigger] before[i])
                &&& forall|i: int| 0 <= i < after.len() ==> text::is_white_space(#[trigger] after[i])
            },
        text::trim(s).len() > 0 ==> {
            &&& !text::is_white_space(text::trim(s)[0])
            &&& !text::is_white_space(text::trim(s)[text::trim(s).len() - 1])
        },
{
    let a = lemma_trim_start_cut(s);
    let rest = s.skip(a);
    let b = lemma_trim_end_cut(rest);
    let before = s.take(a);
    let after = rest.skip(b);
    assert(s =~= before + text::trim(s) + after);
    assert forall|i: int| 0 <= i < after.len() implies text::is_white_space(
        #[trigger] after[i],
    ) by {
        assert(after[i] == rest[b + i]);
    }
    if text::trim(s).len() > 0 {
        assert(text::trim(s)[0] == s[a]);
        assert(text::trim(s)[b - 1] == rest[b - 1]);
    }
}

/// Text between white space trims to what it trims to alone.
pub proof fn lemma_trim_between(before: Seq<char>, s: Seq<char>, after: Seq<char>)
    requires
        forall|i: int| 0 <= i < before.len() ==> text::is_white_space(#[trigger] before[i]),
        forall|i: int| 0 <= i < after.len() ==> text::is_white_space(#[trigger] after[i]),
    ensures
        text::trim(before + s + after) == text::trim(s),
    decreases before.len() + after.len(),
{
    let all = before + s + after;
    if before.len() > 0 {
        assert(all.first() == before[0]);
        assert(all.drop_first() =~= before.drop_first() + s + after);
        assert forall|i: int| 0 <= i < before.drop_first().len() implies text::is_white_space(
            #[trigger] before.drop_first()[i],
        ) by {
            assert(before.drop_first()[i] == before[i + 1]);
        }
        lemma_trim_between(before.drop_first(), s, after);
    } else if after.len() > 0 {
        assert(all =~= s + after);
        assert forall|i: int| 0 <= i < after.drop_last().len() implies text::is_white_space(
            #[trigger] after.drop_last()[i],
        ) by {
            assert(after.drop_last()[i] == after[i]);
        }
        lemma_trim_between(before, s, after.drop_last());
        let less = s + after.drop_last();
        assert(before + s + after.drop_last() =~= less);
        assert(all =~= less.push(after.last()));
        lemma_trim_pushed(less, after.last());
    } else {
        assert(all =~= s);
    }
}

proof fn lemma_trim_pushed(s: Seq<char>, c: char)
    requires
        text::is_white_space(c),
    ensures
        text::trim(s.push(c)) == text::trim(s),
    decreases s.len(),
{
    let all = s.push(c);
    if s.len() == 0 {
        assert(all.drop_first() =~= Seq::<char>::empty());
        assert(text::trim_start(all) == text::trim_start(all.drop_first()));
        assert(text::trim_start(s) =~= Seq::<char>::empty());
        assert(text::trim_start(all.drop_first()) =~= Seq::<char>::empty());
    } else if text::is_white_space(s.first()) {
        assert(all.first() == s.first());
        assert(all.drop_first() =~= s.drop_first().push(c));
        lemma_trim_pushed(s.drop_first(), c);
    } else {
        assert(all.first() == s.first());
        assert(text::trim_start(all) == all);
        assert(text::trim_start(s) == s);
        assert(all.drop_last() =~= s);
        assert(text::trim_end(all) == text::trim_end(s));
    }
}

/// Text that neither starts nor ends with white space is its own trimming.
pub proof fn lemma_trim_kept(s: Seq<char>)
    requires
        s.len() > 0 ==> !text::is_white_space(s[0]) && !text::is_white_space(s[s.len() - 1]),
    ensures
        text::trim(s) == s,
{
}

/// In lower case, the capital letters of ASCII are 32 further on, and all else is as it
/// was.
pub proof fn lemma_lowered(s: Seq<char>)
    ensures
        text::lower(s).len() == s.len(),
        forall|i: int|
            0 <= i < s.len() ==> (#[trigger] text::lower(s)[i]) as int == s[i] as int + (if 65
                <= s[i] as int <= 90 {
                32int
            } else {
                0int
            }),
{
}

/// The first occurrence of a pattern is replaced, what stands before it is kept, and what
/// stands behind it is replaced in turn. Text without the pattern is kept.
pub proof fn lemma_replaced(s: Seq<char>, pat: Seq<char>, with: Seq<char>, at: int)
    requires
        pat.len() > 0,
        0 <= at <= s.len(),
        forall|i: int|
            #![trigger s.subrange(i, i + pat.len())]
            0 <= i < at && i + pat.len() <= s.len() ==> s.subrange(i, i + pat.len()) != pat,
        at < s.len() ==> at + pat.len() <= s.len() && s.subrange(at, at + pat.len()) == pat,
    ensures
        text::replace(s, pat, with) == (if at == s.len() {
            s
        } else {
            s.take(at) + with + text::replace(s.skip(at + pat.len()), pat, with)
        }),
    decreases at,
{
    if at == 0 {
        if s.len() > 0 {
            assert(s.take(0) + with =~= with);
        }
    } else {
        assert(s.subrange(0int, 0int + pat.len()) != pat || pat.len() > s.len());
        let rest = s.skip(1);
        assert forall|i: int|
            #![trigger rest.subrange(i, i + pat.len())]
            0 <= i < at - 1 && i + pat.len() <= rest.len() implies rest.subrange(
            i,
            i + pat.len(),
        ) != pat by {
            assert(rest.subrange(i, i + pat.len()) =~= s.subrange(i + 1, i + 1 + pat.len()));
        }
        if at < s.len() {
            assert(rest.subrange(at - 1, at - 1 + pat.len()) =~= s.subrange(at, at + pat.len()));
        }
        lemma_replaced(rest, pat, with, at - 1);
        if at < s.len() {
            assert(rest.skip(at - 1 + pat.len()) =~= s.skip(at + pat.len()));
            assert(seq![s[0]] + (rest.take(at - 1) + with + text::replace(
                s.skip(at + pat.len()),
                pat,
                with,
            )) =~= s.take(at) + with + text::replace(s.skip(at + pat.len()), pat, with));
        } else {
            assert(seq![s[0]] + rest =~= s);
        }
    }
}

/// Stripping a prefix undoes putting it in front, and succeeds only then.
pub proof fn lemma_prefix_stripped(s: Seq<char>, prefix: Seq<char>, rest: Seq<char>)
    ensures
        text::strip_prefix(s, prefix) == Some(rest) <==> s == prefix + rest,
{
    if s == prefix + rest {
        assert(prefix.is_prefix_of(s)) by {
            assert(s.subrange(0, prefix.len() as int) =~= prefix);
        }
        assert(s.skip(prefix.len() as int) =~= rest);
    }
    if text::strip_prefix(s, prefix) == Some(rest) {
        assert(s =~= prefix + s.skip(prefix.len() as int));
    }
}

/// Stripping a suffix undoes putting it behind, and succeeds only then.
pub proof fn lemma_suffix_stripped(s: Seq<char>, suffix: Seq<char>, start: Seq<char>)
    ensures
        text::strip_suffix(s, suffix) == Some(start) <==> s == start + suffix,
{
    if s == start + suffix {
        assert(s.subrange(s.len() - suffix.len(), s.len() as int) =~= suffix);
        assert(s.take(s.len() - suffix.len()) =~= start);
    }
    if text::strip_suffix(s, suffix) == Some(start) {
        assert(s =~= s.take(s.len() - suffix.len()) + suffix);
    }
}

/// A number below ten is written as its digit, and a digit is appended to a larger one.
pub proof fn lemma_digit_appended(n: nat, d: nat)
    requires
        d < 10,
    ensures
        n == 0 ==> text::decimal(d).len() == 1 && text::decimal(d)[0] as int == 48 + d,
        n > 0 ==> {
            let longer = text::decimal(10 * n + d);
            &&& longer.len() == text::decimal(n).len() + 1
            &&& longer.take(longer.len() - 1) == text::decimal(n)
            &&& longer[longer.len() - 1] as int == 48 + d
        },
{
    if n > 0 {
        let longer = text::decimal(10 * n + d);
        assert((10 * n + d) / 10 == n);
        assert((10 * n + d) % 10 == d);
        assert(longer.take(longer.len() - 1) =~= text::decimal(n));
    }
}

/// A negative number is written with a minus sign before its amount, and others as they
/// are.
pub proof fn lemma_sign_written(n: nat)
    ensures
        text::signed_decimal(n as int) == text::decimal(n),
        n > 0 ==> text::signed_decimal(-(n as int)) == seq!['-'] + text::decimal(n),
{
}

/// Some zeros.
pub open spec fn zeros(count: nat) -> Seq<char> {
    Seq::new(count, |i: int| '0')
}

proof fn lemma_digits_shape(s: Seq<char>) -> (count: nat)
    requires
        text::all_digits(s),
    ensures
        s == zeros(count) + text::decimal(text::digits_value(s)),
    decreases s.len(),
{
    let start = s.drop_last();
    let d = (s.last() as nat - '0' as nat) as nat;
    assert(text::is_digit(s[s.len() - 1]));
    if start.len() == 0 {
        assert(text::digits_value(start) == 0);
        assert(s =~= zeros(0) + text::decimal(d));
        0
    } else {
        assert forall|i: int| 0 <= i < start.len() implies text::is_digit(#[trigger] start[i]) by {
            assert(start[i] == s[i]);
        }
        let count = lemma_digits_shape(start);
        let v = text::digits_value(start);
        lemma_digit_appended(v, d);
        if v == 0 {
            assert(text::decimal(0) =~= seq!['0']);
            assert(start =~= zeros(count + 1));
            assert(text::decimal(d) =~= seq![s.last()]);
            assert(s =~= start + seq![s.last()]);
            count + 1
        } else {
            let longer = text::decimal(10 * v + d);
            assert(longer =~= longer.take(longer.len() - 1).push(longer[longer.len() - 1]));
            assert(longer[longer.len() - 1] == s.last());
            assert(s =~= start.push(s.last()));
            assert((zeros(count) + text::decimal(v)).push(s.last()) =~= zeros(count)
                + text::decimal(v).push(s.last()));
            assert(text::digits_value(s) == 10 * v + d);
            count
        }
    }
}

proof fn lemma_padded_value(count: nat, n: nat)
    ensures
        text::all_digits(zeros(count) + text::decimal(n)),
        text::digits_value(zeros(count) + text::decimal(n)) == n,
    decreases n,
{
    text::lemma_decimal_digits(n);
    let s = zeros(count) + text::decimal(n);
    assert forall|i: int| 0 <= i < s.len() implies text::is_digit(#[trigger] s[i]) by {
        if i >= count {
            assert(s[i] == text::decimal(n)[i - count]);
        }
    }
    if n < 10 {
        lemma_zeros_value(count);
        assert(s.drop_last() =~= zeros(count));
    } else {
        lemma_padded_value(count, n / 10);
        assert(s.drop_last() =~= zeros(count) + text::decimal(n / 10));
    }
}

proof fn lemma_zeros_value(count: nat)
    ensures
        text::digits_value(zeros(count)) == 0,
    decreases count,
{
    if count > 0 {
        lemma_zeros_value((count - 1) as nat);
        assert(zeros(count).drop_last() =~= zeros((count - 1) as nat));
    }
}

/// Whether a text is a sign, some zeros, and a number in decimal.
pub open spec fn written(s: Seq<char>, sign: Seq<char>, count: nat, n: nat) -> bool {
    s == sign + (zeros(count) + text::decimal(n))
}

proof fn lemma_written_shape(s: Seq<char>, sign: Seq<char>) -> (count: nat)
    requires
        sign.len() <= s.len(),
        s.take(sign.len() as int) == sign,
        text::all_digits(s.skip(sign.len() as int)),
    ensures
        written(s, sign, count, text::digits_value(s.skip(sign.len() as int))),
{
    let body = s.skip(sign.len() as int);
    let count = lemma_digits_shape(body);
    assert(s =~= s.take(sign.len() as int) + body);
    count
}

proof fn lemma_written_value(s: Seq<char>, sign: Seq<char>, count: nat, n: nat)
    requires
        written(s, sign, count, n),
        sign.len() <= 1,
    ensures
        text::all_digits(s.skip(sign.len() as int)),
        text::digits_value(s.skip(sign.len() as int)) == n,
        s.len() > 0,
        sign.len() == 0 ==> s.skip(0) == s && text::is_digit(s[0]),
        sign.len() == 1 ==> s[0] == sign[0],
{
    let body = zeros(count) + text::decimal(n);
    lemma_padded_value(count, n);
    assert(text::is_digit(body[0]));
    assert(s.skip(sign.len() as int) =~= body);
    if sign.len() == 0 {
        assert(s.skip(0) =~= s);
        assert(s =~= body);
    }
}

/// An unsigned number is read from its digits, after zeros, after a plus sign or none,
/// and from nothing else.
pub proof fn lemma_unsigned_read(s: Seq<char>, n: nat)
    ensures
        text::u32_value(s) == Some(n) <==> n <= 0xffff_ffff && exists|sign: Seq<char>, count: nat|
            {
                &&& sign.len() == 0 || sign == seq!['+']
                &&& #[trigger] written(s, sign, count, n)
            },
{
    if text::u32_value(s) == Some(n) {
        let sign = if s.len() > 0 && s[0] == '+' {
            seq!['+']
        } else {
            Seq::empty()
        };
        assert(s.take(sign.len() as int) =~= sign);
        assert(s.skip(0) =~= s);
        let count = lemma_written_shape(s, sign);
        assert(written(s, sign, count, n));
    }
    if n <= 0xffff_ffff {
        assert forall|sign: Seq<char>, count: nat|
            (sign.len() == 0 || sign == seq!['+']) && #[trigger] written(
                s,
                sign,
                count,
                n,
            ) implies text::u32_value(s) == Some(n) by {
            lemma_written_value(s, sign, count, n);
        }
    }
}

/// A signed number is read from its digits, after zeros, after its sign, which may be
/// left out or be a plus where it is not negative, and from nothing else.
pub proof fn lemma_signed_read(s: Seq<char>, n: int)
    ensures
        text::i32_value(s) == Some(n) <==> -0x8000_0000 <= n <= 0x7fff_ffff && exists|
            sign: Seq<char>,
            count: nat,
            amount: nat,
        |
            {
                &&& #[trigger] written(s, sign, count, amount)
                &&& if sign == seq!['-'] {
                    n == -amount
                } else {
                    n == amount && (sign.len() == 0 || sign == seq!['+'])
                }
            },
{
    assert(seq!['+'][0] != seq!['-'][0]);
    if text::i32_value(s) == Some(n) {
        let sign = if s.len() > 0 && s[0] == '-' {
            seq!['-']
        } else if s.len() > 0 && s[0] == '+' {
            seq!['+']
        } else {
            Seq::empty()
        };
        assert(s.take(sign.len() as int) =~= sign);
        assert(s.skip(0) =~= s);
        let count = lemma_written_shape(s, sign);
        assert(written(s, sign, count, text::digits_value(s.skip(sign.len() as int))));
    }
    if -0x8000_0000 <= n <= 0x7fff_ffff {
        assert forall|sign: Seq<char>, count: nat, amount: nat|
            {
                &&& #[trigger] written(s, sign, count, amount)
                &&& if sign == seq!['-'] {
                    n == -amount
                } else {
                    n == amount && (sign.len() == 0 || sign == seq!['+'])
                }
            } implies text::i32_value(s) == Some(n) by {
            lemma_written_value(s, sign, count, amount);
        }
    }
}

/// What the operations on text give is what is said of the text that they are given.
pub proof fn lemma_text_operations(
    s: &[char],
    pat: &[char],
    with: &[char],
    trimmed: &[char],
    lowered: Vec<char>,
    replaced: Vec<char>,
    unsigned: Option<u32>,
    signed: Option<i32>,
)
    requires
        call_ensures(trim_slice, (s,), trimmed),
        call_ensures(lower_slice, (s,), lowered),
        call_ensures(replace_slice, (s, pat, with), replaced),
        call_ensures(parse_u32, (s,), unsigned),
        call_ensures(parse_i32, (s,), signed),
    ensures
        trimmed@ == text::trim(s@),
        lowered@ == text::lower(s@),
        replaced@ == text::replace(s@, pat@, with@),
        match unsigned {
            Some(n) => text::u32_value(s@) == Some(n as nat),
            None => text::u32_value(s@) is None,
        },
        match signed {
            Some(n) => text::i32_value(s@) == Some(n as int),
            None => text::i32_value(s@) is None,
        },
{
}

/// A text is blank where every character of it is white space; and texts are the same
/// where all their characters are.
pub proof fn lemma_texts_compared(a: &str, b: &str, blank: bool, same: bool)
    requires
        call_ensures(is_blank, (a,), blank),
        call_ensures(same_str, (a, b), same),
    ensures
        blank <==> forall|i: int| 0 <= i < a@.len() ==> text::is_white_space(#[trigger] a@[i]),
        same <==> a@ == b@,
{
}

/// Numbers are appended in decimal, and what was there before is kept.
pub proof fn lemma_numbers_appended(a: &mut String, n: u64, b: &mut String, m: i64)
    requires
        call_ensures(push_decimal, (a, n), ()),
        call_ensures(push_signed_decimal, (b, m), ()),
    ensures
        final(a)@ == old(a)@ + text::decimal(n as nat),
        final(b)@ == old(b)@ + text::signed_decimal(m as int),
{
}

} // verus!
