//! The names of the files that recordings are saved in.

use crate::text;
use crate::text::{push_decimal, push_signed_decimal};
use vstd::prelude::*;

verus! {

/// `chrono::Utc::now` and then `DateTime::timestamp_millis`: the time in milliseconds.
/// Nothing is said of the result, which is the clock's.
#[verifier::external_body]
fn utc_now_millis() -> (r: i64) {
    chrono::Utc::now().timestamp_millis()
}

/// `chrono::Utc::now` and then `DateTime::timestamp`: the time in seconds. Nothing is
/// said of the result, which is the clock's.
#[verifier::external_body]
fn utc_now_seconds() -> (r: i64) {
    chrono::Utc::now().timestamp()
}

/// Whether the clock gave a time in milliseconds when it was read.
pub closed spec fn read_millis(millis: i64) -> bool {
    call_ensures(utc_now_millis, (), millis)
}

/// Whether the clock gave a time in seconds when it was read.
pub closed spec fn read_seconds(seconds: i64) -> bool {
    call_ensures(utc_now_seconds, (), seconds)
}

/// The name of the file of a chunk, from the time and the chunk's number.
pub open spec fn flush_name(millis: int, chunk_index: nat) -> Seq<char> {
    "handy-"@ + text::signed_decimal(millis) + "-flush-"@ + text::decimal(chunk_index) + ".wav"@
}

/// Names the file of a chunk that is recorded at a time.
pub fn flush_file_name(millis: i64, chunk_index: u64) -> (r: String)
    ensures
        r@ == flush_name(millis as int, chunk_index as nat),
{
    let mut name = "handy-".to_owned();
    push_signed_decimal(&mut name, millis);
    name.append("-flush-");
    push_decimal(&mut name, chunk_index);
    name.append(".wav");
    name
}

/// Names the file of a chunk that is recorded now.
pub fn new_flush_file_name(chunk_index: u64) -> (r: String)
    ensures
        exists|millis: i64| #[trigger]
            read_millis(millis) && r@ == flush_name(millis as int, chunk_index as nat),
{
    let millis = utc_now_millis();
    assert(read_millis(millis));
    flush_file_name(millis, chunk_index)
}

/// The name of the file of a recording, from the time.
pub open spec fn recording_name(seconds: int) -> Seq<char> {
    "handy-"@ + text::signed_decimal(seconds) + ".wav"@
}

/// Names the file of a recording that ends at a time.
pub fn recording_file_name(seconds: i64) -> (r: String)
    ensures
        r@ == recording_name(seconds as int),
{
    let mut name = "handy-".to_owned();
    push_signed_decimal(&mut name, seconds);
    name.append(".wav");
    name
}

/// Names the file of a recording that ends now.
pub fn new_recording_file_name() -> (r: String)
    ensures
        exists|seconds: i64| #[trigger]
            read_seconds(seconds) && r@ == recording_name(seconds as int),
{
    let seconds = utc_now_seconds();
    assert(read_seconds(seconds));
    recording_file_name(seconds)
}

proof fn lemma_digits_then(a: Seq<char>, x: Seq<char>, b: Seq<char>, y: Seq<char>)
    requires
        text::all_digits(a),
        text::all_digits(b),
        x.len() > 0,
        y.len() > 0,
        !text::is_digit(x[0]),
        !text::is_digit(y[0]),
        a + x == b + y,
    ensures
        a == b,
        x == y,
{
    if a.len() < b.len() {
        assert((a + x)[a.len() as int] == x[0]);
        assert((b + y)[a.len() as int] == b[a.len() as int]);
    } else if b.len() < a.len() {
        assert((a + x)[b.len() as int] == a[b.len() as int]);
        assert((b + y)[b.len() as int] == y[0]);
    }
    assert(a =~= (a + x).take(a.len() as int));
    assert(b =~= (b + y).take(b.len() as int));
    assert(x =~= (a + x).skip(a.len() as int));
    assert(y =~= (b + y).skip(b.len() as int));
}

proof fn lemma_signed_then(a: int, x: Seq<char>, b: int, y: Seq<char>)
    requires
        x.len() > 0,
        y.len() > 0,
        !text::is_digit(x[0]),
        !text::is_digit(y[0]),
        text::signed_decimal(a) + x == text::signed_decimal(b) + y,
    ensures
        a == b,
        x == y,
{
    let sa = text::signed_decimal(a);
    let sb = text::signed_decimal(b);
    let na = if a < 0 {
        (-a) as nat
    } else {
        a as nat
    };
    let nb = if b < 0 {
        (-b) as nat
    } else {
        b as nat
    };
    let da = text::decimal(na);
    let db = text::decimal(nb);
    text::lemma_decimal_digits(na);
    text::lemma_decimal_digits(nb);
    assert(text::is_digit(da[0]));
    assert(text::is_digit(db[0]));
    assert((sa + x)[0] == sa[0]);
    assert((sb + y)[0] == sb[0]);
    if a < 0 {
        assert(da + x =~= (sa + x).skip(1));
        assert(db + y =~= (sb + y).skip(1));
    }
    lemma_digits_then(da, x, db, y);
    text::lemma_signed_decimal_injective(a, b);
}

/// Different chunks, and chunks at different times, are saved under different names.
pub proof fn lemma_flush_names_differ(
    millis: int,
    chunk_index: nat,
    other_millis: int,
    other_index: nat,
)
    requires
        flush_name(millis, chunk_index) == flush_name(other_millis, other_index),
    ensures
        millis == other_millis,
        chunk_index == other_index,
{
    reveal_strlit("handy-");
    reveal_strlit("-flush-");
    reveal_strlit(".wav");
    let head = "handy-"@;
    let mid = "-flush-"@;
    let end = ".wav"@;
    let a = text::signed_decimal(millis);
    let b = text::signed_decimal(other_millis);
    let x = mid + text::decimal(chunk_index) + end;
    let y = mid + text::decimal(other_index) + end;
    assert(flush_name(millis, chunk_index).skip(head.len() as int) =~= a + x);
    assert(flush_name(other_millis, other_index).skip(head.len() as int) =~= b + y);
    lemma_signed_then(millis, x, other_millis, y);
    text::lemma_decimal_digits(chunk_index);
    text::lemma_decimal_digits(other_index);
    assert(text::decimal(chunk_index) + end =~= x.skip(mid.len() as int));
    assert(text::decimal(other_index) + end =~= y.skip(mid.len() as int));
    lemma_digits_then(text::decimal(chunk_index), end, text::decimal(other_index), end);
}

/// Recordings that end at different times are saved under different names, and under
/// none that a chunk is saved under.
pub proof fn lemma_recording_names_differ(
    seconds: int,
    other_seconds: int,
    millis: int,
    chunk_index: nat,
)
    ensures
        recording_name(seconds) == recording_name(other_seconds) ==> seconds == other_seconds,
        recording_name(seconds) != flush_name(millis, chunk_index),
{
    reveal_strlit("handy-");
    reveal_strlit("-flush-");
    reveal_strlit(".wav");
    let head = "handy-"@;
    let end = ".wav"@;
    let a = text::signed_decimal(seconds);
    let b = text::signed_decimal(other_seconds);
    let c = text::signed_decimal(millis);
    let y = "-flush-"@ + text::decimal(chunk_index) + end;
    assert(recording_name(seconds).skip(head.len() as int) =~= a + end);
    assert(recording_name(other_seconds).skip(head.len() as int) =~= b + end);
    assert(flush_name(millis, chunk_index).skip(head.len() as int) =~= c + y);
    if recording_name(seconds) == recording_name(other_seconds) {
        lemma_signed_then(seconds, end, other_seconds, end);
    }
    if recording_name(seconds) == flush_name(millis, chunk_index) {
        lemma_signed_then(seconds, end, millis, y);
    }
}

} // verus!
