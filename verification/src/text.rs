//! Text as sequences of characters: trimming, replacing, numbers in decimal.

use vstd::prelude::*;
use vstd::slice::slice_subrange;

verus! {

/// `String::push` appends the given character to the end of the string.
pub assume_specification[ String::push ](s: &mut String, c: char)
    ensures
        final(s)@ == old(s)@.push(c),
;

/// Whether `c` has the Unicode property `White_Space`.
pub open spec fn is_white_space(c: char) -> bool {
    ||| '\u{9}' <= c <= '\u{d}'
    ||| c == ' '
    ||| c == '\u{85}'
    ||| c == '\u{a0}'
    ||| c == '\u{1680}'
    ||| '\u{2000}' <= c <= '\u{200a}'
    ||| c == '\u{2028}'
    ||| c == '\u{2029}'
    ||| c == '\u{202f}'
    ||| c == '\u{205f}'
    ||| c == '\u{3000}'
}

/// Tests a character for the Unicode property `White_Space`.
pub fn white_space(c: char) -> (r: bool)
    ensures
        r == is_white_space(c),
{
    ('\u{9}' <= c && c <= '\u{d}') || c == ' ' || c == '\u{85}' || c == '\u{a0}' || c == '\u{1680}'
        || ('\u{2000}' <= c && c <= '\u{200a}') || c == '\u{2028}' || c == '\u{2029}'
        || c == '\u{202f}' || c == '\u{205f}' || c == '\u{3000}'
}

/// `s` without the white space at its start.
pub open spec fn trim_start(s: Seq<char>) -> Seq<char>
    decreases s.len(),
{
    if s.len() > 0 && is_white_space(s.first()) {
        trim_start(s.drop_first())
    } else {
        s
    }
}

/// `s` without the white space at its end.
pub open spec fn trim_end(s: Seq<char>) -> Seq<char>
    decreases s.len(),
{
    if s.len() > 0 && is_white_space(s.last()) {
        trim_end(s.drop_last())
    } else {
        s
    }
}

/// `s` without the white space at either end.
pub open spec fn trim(s: Seq<char>) -> Seq<char> {
    trim_end(trim_start(s))
}

/// Whether `s` holds nothing but white space.
pub open spec fn blank(s: Seq<char>) -> bool {
    forall|i: int| 0 <= i < s.len() ==> is_white_space(#[trigger] s[i])
}

proof fn lemma_trim_start_blank(s: Seq<char>)
    ensures
        blank(s) <==> trim_start(s).len() == 0,
    decreases s.len(),
{
    if s.len() > 0 && is_white_space(s.first()) {
        lemma_trim_start_blank(s.drop_first());
        assert(blank(s) <==> blank(s.drop_first())) by {
            assert forall|i: int| blank(s.drop_first()) && 0 <= i < s.len() implies is_white_space(
                #[trigger] s[i],
            ) by {
                if i > 0 {
                    assert(s[i] == s.drop_first()[i - 1]);
                }
            }
        }
    } else if s.len() > 0 {
        assert(!is_white_space(s[0]));
    }
}

proof fn lemma_trim_end_blank(s: Seq<char>)
    ensures
        blank(s) <==> trim_end(s).len() == 0,
    decreases s.len(),
{
    if s.len() > 0 && is_white_space(s.last()) {
        lemma_trim_end_blank(s.drop_last());
        assert(blank(s) <==> blank(s.drop_last())) by {
            assert forall|i: int| blank(s.drop_last()) && 0 <= i < s.len() implies is_white_space(
                #[trigger] s[i],
            ) by {
                if i < s.len() - 1 {
                    assert(s[i] == s.drop_last()[i]);
                }
            }
        }
    } else if s.len() > 0 {
        assert(!is_white_space(s[s.len() - 1]));
    }
}

proof fn lemma_trim_start_shape(s: Seq<char>)
    ensures
        trim_start(s).len() > 0 ==> !is_white_space(trim_start(s).first()),
    decreases s.len(),
{
    if s.len() > 0 && is_white_space(s.first()) {
        lemma_trim_start_shape(s.drop_first());
    }
}

proof fn lemma_trim_end_shape(s: Seq<char>)
    ensures
        trim_end(s).len() <= s.len(),
        trim_end(s) == s.take(trim_end(s).len() as int),
        trim_end(s).len() > 0 ==> !is_white_space(trim_end(s).last()),
    decreases s.len(),
{
    if s.len() > 0 && is_white_space(s.last()) {
        lemma_trim_end_shape(s.drop_last());
    }
}

/// Trimming leaves nothing exactly of a text that is all white space.
pub proof fn lemma_trim_blank(s: Seq<char>)
    ensures
        trim(s).len() == 0 <==> blank(s),
{
    lemma_trim_start_blank(s);
    lemma_trim_start_shape(s);
    lemma_trim_end_blank(trim_start(s));
    if trim_start(s).len() > 0 {
        assert(!is_white_space(trim_start(s)[0]));
    }
}

/// A trimmed text neither starts nor ends with white space.
pub proof fn lemma_trimmed_ends(s: Seq<char>)
    ensures
        trim(s).len() > 0 ==> !is_white_space(trim(s).first()) && !is_white_space(trim(s).last()),
{
    lemma_trim_start_shape(s);
    lemma_trim_end_shape(trim_start(s));
}

/// The characters of a string.
pub fn chars_of(s: &str) -> (r: Vec<char>)
    ensures
        r@ == s@,
{
    let mut r: Vec<char> = Vec::new();
    for c in it: s.chars()
        invariant
            it.seq() == s@,
            r@ == s@.take(it.index() as int),
    {
        r.push(c);
    }
    r
}

/// The string of some characters.
pub fn string_of(s: &[char]) -> (r: String)
    ensures
        r@ == s@,
{
    let mut r = String::new();
    let mut i: usize = 0;
    while i < s.len()
        invariant
            i <= s.len(),
            r@ == s@.take(i as int),
        decreases s.len() - i,
    {
        r.push(s[i]);
        i += 1;
    }
    r
}

/// Whether two character slices hold the same characters.
pub fn same(a: &[char], b: &[char]) -> (r: bool)
    ensures
        r == (a@ == b@),
{
    if a.len() != b.len() {
        return false;
    }
    let mut i: usize = 0;
    while i < a.len()
        invariant
            i <= a.len(),
            a.len() == b.len(),
            forall|j: int| 0 <= j < i ==> a@[j] == b@[j],
        decreases a.len() - i,
    {
        if a[i] != b[i] {
            return false;
        }
        i += 1;
    }
    assert(a@ =~= b@);
    true
}

/// Whether a character slice spells the given word.
pub fn spells(a: &[char], word: &str) -> (r: bool)
    ensures
        r == (a@ == word@),
{
    let w = chars_of(word);
    same(a, w.as_slice())
}

/// Whether two strings hold the same characters.
pub fn same_str(a: &str, b: &str) -> (r: bool)
    ensures
        r == (a@ == b@),
{
    let v = chars_of(a);
    spells(v.as_slice(), b)
}

/// The slice without the white space at its end.
pub fn trim_end_slice(s: &[char]) -> (r: &[char])
    ensures
        r@ == trim_end(s@),
{
    let mut n: usize = s.len();
    assert(s@.take(n as int) =~= s@);
    while n > 0 && white_space(s[n - 1])
        invariant
            n <= s.len(),
            trim_end(s@) == trim_end(s@.take(n as int)),
        decreases n,
    {
        assert(s@.take(n as int).drop_last() =~= s@.take(n - 1));
        n -= 1;
    }
    slice_subrange(s, 0, n)
}

/// The slice without the white space at either end.
pub fn trim_slice(s: &[char]) -> (r: &[char])
    ensures
        r@ == trim(s@),
{
    let mut i: usize = 0;
    assert(s@.skip(0) =~= s@);
    while i < s.len() && white_space(s[i])
        invariant
            i <= s.len(),
            trim_start(s@) == trim_start(s@.skip(i as int)),
        decreases s.len() - i,
    {
        assert(s@.skip(i as int).drop_first() =~= s@.skip(i + 1));
        i += 1;
    }
    trim_end_slice(slice_subrange(s, i, s.len()))
}

/// Whether a text is empty once trimmed.
pub fn is_blank(s: &str) -> (r: bool)
    ensures
        r == blank(s@),
{
    let v = chars_of(s);
    let t = trim_slice(v.as_slice());
    proof {
        lemma_trim_blank(s@);
    }
    t.len() == 0
}

/// The lower case form of an ASCII letter, any other character unchanged.
pub open spec fn ascii_lower(c: char) -> char {
    if 'A' <= c <= 'Z' {
        (c as u8 + 32) as char
    } else {
        c
    }
}

/// The upper case form of an ASCII letter, any other character unchanged.
pub open spec fn ascii_upper(c: char) -> char {
    if 'a' <= c <= 'z' {
        (c as u8 - 32) as char
    } else {
        c
    }
}

/// Converts an ASCII letter to lower case.
pub fn to_ascii_lower(c: char) -> (r: char)
    ensures
        r == ascii_lower(c),
{
    if 'A' <= c && c <= 'Z' {
        (c as u8 + 32) as char
    } else {
        c
    }
}

/// Every ASCII letter of `s` in lower case.
pub open spec fn lower(s: Seq<char>) -> Seq<char> {
    s.map_values(|c: char| ascii_lower(c))
}

/// Converts every ASCII letter to lower case.
pub fn lower_slice(s: &[char]) -> (r: Vec<char>)
    ensures
        r@ == lower(s@),
{
    let mut r: Vec<char> = Vec::new();
    let mut i: usize = 0;
    while i < s.len()
        invariant
            i <= s.len(),
            r@ == lower(s@.take(i as int)),
        decreases s.len() - i,
    {
        r.push(to_ascii_lower(s[i]));
        assert(lower(s@.take(i + 1)) =~= lower(s@.take(i as int)).push(ascii_lower(s@[i as int])));
        i += 1;
    }
    assert(s@.take(i as int) =~= s@);
    r
}

/// Whether `pat` stands in `s` at position `at`.
pub open spec fn occurs_at(s: Seq<char>, pat: Seq<char>, at: int) -> bool {
    &&& 0 <= at
    &&& at + pat.len() <= s.len()
    &&& s.subrange(at, at + pat.len()) == pat
}

/// `s` with every occurrence of `pat` replaced by `with`, found from left to
/// right without overlaps.
pub open spec fn replace(s: Seq<char>, pat: Seq<char>, with: Seq<char>) -> Seq<char>
    decreases s.len(),
{
    if s.len() == 0 || pat.len() == 0 {
        s
    } else if occurs_at(s, pat, 0) {
        with + replace(s.skip(pat.len() as int), pat, with)
    } else {
        seq![s[0]] + replace(s.skip(1), pat, with)
    }
}

/// Whether `pat` stands in the slice at position `at`.
pub fn stands_at(s: &[char], pat: &[char], at: usize) -> (r: bool)
    requires
        at <= s.len(),
    ensures
        r == occurs_at(s@, pat@, at as int),
{
    if pat.len() > s.len() - at {
        return false;
    }
    same(slice_subrange(s, at, at + pat.len()), pat)
}

/// Replaces every occurrence of `pat` by `with`.
pub fn replace_slice(s: &[char], pat: &[char], with: &[char]) -> (r: Vec<char>)
    requires
        pat.len() > 0,
    ensures
        r@ == replace(s@, pat@, with@),
{
    let mut r: Vec<char> = Vec::new();
    let mut i: usize = 0;
    assert(s@.skip(0) =~= s@);
    while i < s.len()
        invariant
            i <= s.len(),
            pat.len() > 0,
            r@ + replace(s@.skip(i as int), pat@, with@) == replace(s@, pat@, with@),
        decreases s.len() - i,
    {
        let ghost rest = s@.skip(i as int);
        let ghost before = r@;
        if stands_at(s, pat, i) {
            assert(rest.subrange(0, pat@.len() as int) =~= pat@);
            assert(rest.skip(pat@.len() as int) =~= s@.skip(i + pat@.len()));
            let mut j: usize = 0;
            while j < with.len()
                invariant
                    j <= with.len(),
                    r@ == before + with@.take(j as int),
                decreases with.len() - j,
            {
                r.push(with[j]);
                j += 1;
            }
            assert(r@ =~= before + with@);
            assert(r@ + replace(s@.skip(i + pat@.len()), pat@, with@) =~= before + (with@ + replace(
                s@.skip(i + pat@.len()),
                pat@,
                with@,
            )));
            i += pat.len();
        } else {
            proof {
                if occurs_at(rest, pat@, 0) {
                    assert(s@.subrange(i as int, i + pat@.len()) =~= pat@);
                }
            }
            assert(rest.skip(1) =~= s@.skip(i + 1));
            r.push(s[i]);
            assert(r@ + replace(s@.skip(i + 1), pat@, with@) =~= before + (seq![s@[i as int]]
                + replace(s@.skip(i + 1), pat@, with@)));
            i += 1;
        }
    }
    assert(s@.skip(i as int).len() == 0);
    assert(r@ =~= r@ + replace(s@.skip(i as int), pat@, with@));
    r
}

/// What follows `prefix` in `s`, where `s` starts with it.
pub open spec fn strip_prefix(s: Seq<char>, prefix: Seq<char>) -> Option<Seq<char>> {
    if prefix.is_prefix_of(s) {
        Some(s.skip(prefix.len() as int))
    } else {
        None
    }
}

/// What precedes `suffix` in `s`, where `s` ends with it.
pub open spec fn strip_suffix(s: Seq<char>, suffix: Seq<char>) -> Option<Seq<char>> {
    if suffix.is_suffix_of(s) {
        Some(s.take(s.len() - suffix.len()))
    } else {
        None
    }
}

/// Strips a prefix, where the slice starts with it.
pub fn strip_prefix_slice<'a>(s: &'a [char], prefix: &str) -> (r: Option<&'a [char]>)
    ensures
        match r {
            Some(rest) => strip_prefix(s@, prefix@) == Some(rest@),
            None => strip_prefix(s@, prefix@) is None,
        },
{
    let p = chars_of(prefix);
    if stands_at(s, p.as_slice(), 0) {
        assert(s@.subrange(0, prefix@.len() as int) =~= prefix@);
        Some(slice_subrange(s, p.len(), s.len()))
    } else {
        proof {
            if prefix@.is_prefix_of(s@) {
                assert(s@.subrange(0, prefix@.len() as int) =~= prefix@);
            }
        }
        None
    }
}

/// Strips a suffix, where the slice ends with it.
pub fn strip_suffix_slice<'a>(s: &'a [char], suffix: &str) -> (r: Option<&'a [char]>)
    ensures
        match r {
            Some(rest) => strip_suffix(s@, suffix@) == Some(rest@),
            None => strip_suffix(s@, suffix@) is None,
        },
{
    let p = chars_of(suffix);
    if p.len() <= s.len() && stands_at(s, p.as_slice(), s.len() - p.len()) {
        Some(slice_subrange(s, 0, s.len() - p.len()))
    } else {
        None
    }
}

/// Text in which `pat` does not occur stays as it is.
pub proof fn lemma_replace_absent(s: Seq<char>, pat: Seq<char>, with: Seq<char>)
    requires
        pat.len() > 0,
        forall|at: int| !occurs_at(s, pat, at),
    ensures
        replace(s, pat, with) == s,
    decreases s.len(),
{
    if s.len() > 0 {
        assert(!occurs_at(s, pat, 0));
        assert forall|at: int| !occurs_at(s.skip(1), pat, at) by {
            if occurs_at(s.skip(1), pat, at) {
                assert(s.subrange(at + 1, at + 1 + pat.len()) =~= s.skip(1).subrange(
                    at,
                    at + pat.len(),
                ));
                assert(occurs_at(s, pat, at + 1));
            }
        }
        lemma_replace_absent(s.skip(1), pat, with);
        assert(seq![s[0]] + s.skip(1) =~= s);
    }
}

/// Whether `c` is an ASCII digit.
pub open spec fn is_digit(c: char) -> bool {
    '0' <= c <= '9'
}

/// The number that a string of decimal digits writes.
pub open spec fn digits_value(s: Seq<char>) -> nat
    decreases s.len(),
{
    if s.len() == 0 {
        0
    } else {
        digits_value(s.drop_last()) * 10 + (s.last() as nat - '0' as nat) as nat
    }
}

/// Whether `s` is one digit or more and nothing else.
pub open spec fn all_digits(s: Seq<char>) -> bool {
    s.len() > 0 && forall|i: int| 0 <= i < s.len() ==> is_digit(#[trigger] s[i])
}

/// The number that a string of digits writes, unless it is over `limit`.
pub open spec fn digits_within(s: Seq<char>, limit: nat) -> Option<nat> {
    if all_digits(s) && digits_value(s) <= limit {
        Some(digits_value(s))
    } else {
        None
    }
}

/// Reads a string of digits as a number of at most `limit`.
pub fn parse_digits(s: &[char], limit: u32) -> (r: Option<u32>)
    ensures
        match r {
            Some(n) => digits_within(s@, limit as nat) == Some(n as nat),
            None => digits_within(s@, limit as nat) is None,
        },
{
    if s.len() == 0 {
        return None;
    }
    let mut value: u64 = 0;
    let mut over: bool = false;
    let mut i: usize = 0;
    while i < s.len()
        invariant
            i <= s.len(),
            forall|j: int| 0 <= j < i ==> is_digit(#[trigger] s@[j]),
            value <= limit,
            !over ==> value == digits_value(s@.take(i as int)),
            over ==> digits_value(s@.take(i as int)) > limit,
        decreases s.len() - i,
    {
        let c = s[i];
        if c < '0' || c > '9' {
            assert(!is_digit(s@[i as int]));
            return None;
        }
        assert(s@.take(i + 1).drop_last() =~= s@.take(i as int));
        if !over {
            let next: u64 = value * 10 + (c as u64 - 48);
            if next > limit as u64 {
                over = true;
            } else {
                value = next;
            }
        }
        i += 1;
    }
    assert(s@.take(i as int) =~= s@);
    if over {
        None
    } else {
        Some(value as u32)
    }
}

/// The unsigned number of 32 bits that `s` writes: digits, after an optional
/// plus sign.
pub open spec fn u32_value(s: Seq<char>) -> Option<nat> {
    digits_within(
        if s.len() > 0 && s[0] == '+' {
            s.skip(1)
        } else {
            s
        },
        u32::MAX as nat,
    )
}

/// Reads an unsigned number of 32 bits.
pub fn parse_u32(s: &[char]) -> (r: Option<u32>)
    ensures
        match r {
            Some(n) => u32_value(s@) == Some(n as nat),
            None => u32_value(s@) is None,
        },
{
    if s.len() > 0 && s[0] == '+' {
        parse_digits(slice_subrange(s, 1, s.len()), u32::MAX)
    } else {
        parse_digits(s, u32::MAX)
    }
}

/// The signed number of 32 bits that `s` writes: digits, after an optional
/// sign.
pub open spec fn i32_value(s: Seq<char>) -> Option<int> {
    if s.len() > 0 && s[0] == '-' {
        match digits_within(s.skip(1), 0x8000_0000) {
            Some(n) => Some(-(n as int)),
            None => None,
        }
    } else {
        let body = if s.len() > 0 && s[0] == '+' {
            s.skip(1)
        } else {
            s
        };
        match digits_within(body, 0x7fff_ffff) {
            Some(n) => Some(n as int),
            None => None,
        }
    }
}

/// Reads a signed number of 32 bits.
pub fn parse_i32(s: &[char]) -> (r: Option<i32>)
    ensures
        match r {
            Some(n) => i32_value(s@) == Some(n as int),
            None => i32_value(s@) is None,
        },
{
    if s.len() > 0 && s[0] == '-' {
        match parse_digits(slice_subrange(s, 1, s.len()), 0x8000_0000) {
            Some(n) => Some((-(n as i64)) as i32),
            None => None,
        }
    } else {
        let body = if s.len() > 0 && s[0] == '+' {
            slice_subrange(s, 1, s.len())
        } else {
            s
        };
        match parse_digits(body, 0x7fff_ffff) {
            Some(n) => Some(n as i32),
            None => None,
        }
    }
}

/// A digit below ten as a character.
pub open spec fn digit_char(d: nat) -> char {
    (48 + d) as char
}

/// `n` in decimal, without leading zeros.
pub open spec fn decimal(n: nat) -> Seq<char>
    decreases n,
{
    if n < 10 {
        seq![digit_char(n)]
    } else {
        decimal(n / 10).push(digit_char(n % 10))
    }
}

/// `n` in decimal, with a minus sign in front where it is negative.
pub open spec fn signed_decimal(n: int) -> Seq<char> {
    if n < 0 {
        seq!['-'] + decimal((-n) as nat)
    } else {
        decimal(n as nat)
    }
}

/// Appends a number in decimal.
pub fn push_decimal(s: &mut String, n: u64)
    ensures
        final(s)@ == old(s)@ + decimal(n as nat),
    decreases n,
{
    if n >= 10 {
        push_decimal(s, n / 10);
    }
    let d: u8 = (n % 10) as u8;
    s.push((48 + d) as char);
    assert(s@ =~= old(s)@ + decimal(n as nat));
}

/// Appends a number in decimal, with a minus sign in front where it is negative.
pub fn push_signed_decimal(s: &mut String, n: i64)
    ensures
        final(s)@ == old(s)@ + signed_decimal(n as int),
{
    if n < 0 {
        s.push('-');
        push_decimal(s, (-(n + 1)) as u64 + 1);
        assert(s@ =~= old(s)@ + signed_decimal(n as int));
    } else {
        push_decimal(s, n as u64);
    }
}

pub proof fn lemma_decimal_digits(n: nat)
    ensures
        all_digits(decimal(n)),
        digits_value(decimal(n)) == n,
    decreases n,
{
    if n < 10 {
        assert(decimal(n).drop_last() =~= Seq::<char>::empty());
        assert(digits_value(Seq::<char>::empty()) == 0);
    } else {
        lemma_decimal_digits(n / 10);
        assert(decimal(n).drop_last() =~= decimal(n / 10));
        assert forall|i: int| 0 <= i < decimal(n).len() implies is_digit(#[trigger] decimal(n)[i]) by {
            if i < decimal(n / 10).len() {
                assert(decimal(n)[i] == decimal(n / 10)[i]);
            }
        }
    }
}

/// Different numbers are written differently.
pub proof fn lemma_signed_decimal_injective(a: int, b: int)
    requires
        signed_decimal(a) == signed_decimal(b),
    ensures
        a == b,
{
    let da = if a < 0 { (-a) as nat } else { a as nat };
    let db = if b < 0 { (-b) as nat } else { b as nat };
    lemma_decimal_digits(da);
    lemma_decimal_digits(db);
    assert(is_digit(decimal(da)[0]));
    assert(is_digit(decimal(db)[0]));
    assert(signed_decimal(a)[0] == signed_decimal(b)[0]);
    if a < 0 {
        assert(signed_decimal(a).skip(1) =~= decimal(da));
        assert(signed_decimal(b).skip(1) =~= decimal(db));
    }
}

} // verus!
