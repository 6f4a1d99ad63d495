//! Archive file names.
//!
//! A rotation renames the active file `<stem>.<ext>` to
//! `<stem>.<yymmdd>.<HHMMSS>.<mmm>.<ext>` and schedules compression into
//! `<that name>.gz`. All timestamp fields are rendered fixed-width, so
//! lexicographic order of archive names agrees with chronological order.
//! Startup reconciliation recognizes exactly these compressed names and
//! recovers their stamps.

use vstd::prelude::*;

use crate::timestamp::Timestamp;

verus! {

/// ASCII full stop.
pub const DOT: u8 = 46;

/// ASCII zero digit.
pub const ZERO: u8 = 48;

/// ASCII letter g.
pub const LETTER_G: u8 = 103;

/// ASCII letter z.
pub const LETTER_Z: u8 = 122;

/// Whether a byte is an ASCII decimal digit.
pub open spec fn is_digit_byte(b: u8) -> bool {
    ZERO <= b <= 57
}

/// The numeric value of an ASCII digit byte.
pub open spec fn digit_val(b: u8) -> int {
    b - ZERO
}

/// The ASCII digit byte for a value below ten.
pub open spec fn digit_byte(n: int) -> u8 {
    (ZERO + n) as u8
}

/// A value below 100, rendered as exactly two ASCII digits.
pub open spec fn two_digit_bytes(n: int) -> Seq<u8> {
    seq![digit_byte(n / 10), digit_byte(n % 10)]
}

/// A value below 1000, rendered as exactly three ASCII digits.
pub open spec fn three_digit_bytes(n: int) -> Seq<u8> {
    seq![digit_byte(n / 100), digit_byte((n / 10) % 10), digit_byte(n % 10)]
}

/// The value of a big-endian sequence of ASCII digit bytes.
pub open spec fn digits_val(s: Seq<u8>) -> int
    decreases s.len(),
{
    if s.len() == 0 {
        0
    } else {
        digits_val(s.drop_last()) * 10 + digit_val(s.last())
    }
}

/// Ten to the `n`.
pub open spec fn pow10(n: nat) -> int
    decreases n,
{
    if n == 0 {
        1
    } else {
        10 * pow10((n - 1) as nat)
    }
}

/// The fixed-width timestamp portion of an archive name:
/// `yymmdd.HHMMSS.mmm`.
pub open spec fn timestamp_bytes(t: Timestamp) -> Seq<u8> {
    two_digit_bytes(t.year2 as int) + two_digit_bytes(t.month as int) + two_digit_bytes(
        t.day as int,
    ) + seq![DOT] + two_digit_bytes(t.hour as int) + two_digit_bytes(t.minute as int)
        + two_digit_bytes(t.second as int) + seq![DOT] + three_digit_bytes(t.milli as int)
}

/// The name the active file is renamed to at rotation:
/// `<stem>.<yymmdd>.<HHMMSS>.<mmm>.<ext>`.
pub open spec fn renamed_name_bytes(stem: Seq<u8>, ext: Seq<u8>, t: Timestamp) -> Seq<u8> {
    stem + seq![DOT] + timestamp_bytes(t) + seq![DOT] + ext
}

/// The `.gz` suffix the compressor appends.
pub open spec fn gz_suffix() -> Seq<u8> {
    seq![DOT, LETTER_G, LETTER_Z]
}

/// The compressed archive name a rotation finally produces:
/// the renamed name followed by `.gz`.
pub open spec fn archive_name_bytes(stem: Seq<u8>, ext: Seq<u8>, t: Timestamp) -> Seq<u8> {
    renamed_name_bytes(stem, ext, t) + gz_suffix()
}

/// Whether `name` has the shape of a compressed archive of a log file with
/// the given stem and extension: `<stem>.` then six digits, `.`, six digits,
/// `.`, three digits, then `.<ext>.gz`.
pub open spec fn is_archive_name(name: Seq<u8>, stem: Seq<u8>, ext: Seq<u8>) -> bool {
    let p = stem.len() as int;
    let e = ext.len() as int;
    &&& name.len() == p + 22 + e
    &&& name.subrange(0, p) == stem
    &&& name[p] == DOT
    &&& (forall|i: int| p + 1 <= i < p + 7 ==> is_digit_byte(#[trigger] name[i]))
    &&& name[p + 7] == DOT
    &&& (forall|i: int| p + 8 <= i < p + 14 ==> is_digit_byte(#[trigger] name[i]))
    &&& name[p + 14] == DOT
    &&& (forall|i: int| p + 15 <= i < p + 18 ==> is_digit_byte(#[trigger] name[i]))
    &&& name[p + 18] == DOT
    &&& name.subrange(p + 19, p + 19 + e) == ext
    &&& name.subrange(p + 19 + e, p + 22 + e) == gz_suffix()
}

/// The fifteen digit bytes of an archive name's timestamp, in order.
pub open spec fn stamp_digit_bytes(name: Seq<u8>, stem_len: int) -> Seq<u8> {
    name.subrange(stem_len + 1, stem_len + 7) + name.subrange(stem_len + 8, stem_len + 14)
        + name.subrange(stem_len + 15, stem_len + 18)
}

/// The stamp encoded in an archive name: the value of its fifteen timestamp
/// digits. On names produced by rotation it equals the timestamp's stamp.
pub open spec fn archive_stamp(name: Seq<u8>, stem_len: int) -> int {
    digits_val(stamp_digit_bytes(name, stem_len))
}

/// Appending one digit multiplies the value by ten.
proof fn lemma_digits_val_push(s: Seq<u8>, b: u8)
    ensures
        digits_val(s.push(b)) == digits_val(s) * 10 + digit_val(b),
{
    assert(s.push(b).drop_last() =~= s);
    assert(s.push(b).last() == b);
}

/// Appending two rendered digits multiplies the value by one hundred.
proof fn lemma_digits_val_append2(s: Seq<u8>, n: int)
    requires
        0 <= n < 100,
    ensures
        digits_val(s + two_digit_bytes(n)) == digits_val(s) * 100 + n,
{
    let t = s.push(digit_byte(n / 10));
    assert(s + two_digit_bytes(n) =~= t.push(digit_byte(n % 10)));
    lemma_digits_val_push(s, digit_byte(n / 10));
    lemma_digits_val_push(t, digit_byte(n % 10));
}

/// Appending three rendered digits multiplies the value by one thousand.
proof fn lemma_digits_val_append3(s: Seq<u8>, n: int)
    requires
        0 <= n < 1000,
    ensures
        digits_val(s + three_digit_bytes(n)) == digits_val(s) * 1000 + n,
{
    let t1 = s.push(digit_byte(n / 100));
    let t2 = t1.push(digit_byte((n / 10) % 10));
    assert(s + three_digit_bytes(n) =~= t2.push(digit_byte(n % 10)));
    lemma_digits_val_push(s, digit_byte(n / 100));
    lemma_digits_val_push(t1, digit_byte((n / 10) % 10));
    lemma_digits_val_push(t2, digit_byte(n % 10));
}

/// A rotation's archive name matches the archive shape, and the stamp read
/// back out of it is exactly the stamp of the timestamp it was rendered from.
#[verifier::rlimit(60)]
pub proof fn lemma_archive_name_round_trip(stem: Seq<u8>, ext: Seq<u8>, t: Timestamp)
    requires
        t.wf(),
    ensures
        is_archive_name(archive_name_bytes(stem, ext, t), stem, ext),
        archive_stamp(archive_name_bytes(stem, ext, t), stem.len() as int) == t.stamp(),
{
    let p = stem.len() as int;
    let e = ext.len() as int;
    let name = archive_name_bytes(stem, ext, t);
    assert(name.len() == p + 22 + e);
    assert(name.subrange(0, p) =~= stem);
    assert(name.subrange(p + 19, p + 19 + e) =~= ext);
    assert(name.subrange(p + 19 + e, p + 22 + e) =~= gz_suffix());

    let d1 = two_digit_bytes(t.year2 as int);
    let d2 = d1 + two_digit_bytes(t.month as int);
    let d3 = d2 + two_digit_bytes(t.day as int);
    let d4 = d3 + two_digit_bytes(t.hour as int);
    let d5 = d4 + two_digit_bytes(t.minute as int);
    let d6 = d5 + two_digit_bytes(t.second as int);
    let d7 = d6 + three_digit_bytes(t.milli as int);

    assert(stamp_digit_bytes(name, p) =~= d7);

    lemma_digits_val_append2(Seq::<u8>::empty(), t.year2 as int);
    assert(Seq::<u8>::empty() + two_digit_bytes(t.year2 as int) =~= d1);
    lemma_digits_val_append2(d1, t.month as int);
    lemma_digits_val_append2(d2, t.day as int);
    lemma_digits_val_append2(d3, t.hour as int);
    lemma_digits_val_append2(d4, t.minute as int);
    lemma_digits_val_append2(d5, t.second as int);
    lemma_digits_val_append3(d6, t.milli as int);
}

/// The value of a run of digits stays below ten to its length.
proof fn lemma_digits_val_bound(s: Seq<u8>)
    requires
        forall|i: int| 0 <= i < s.len() ==> is_digit_byte(#[trigger] s[i]),
    ensures
        0 <= digits_val(s) < pow10(s.len()),
    decreases s.len(),
{
    if s.len() > 0 {
        lemma_digits_val_bound(s.drop_last());
    }
}

/// Pushes the two fixed-width digits of `n` onto `out`.
fn push_two_digits(out: &mut Vec<u8>, n: u8)
    requires
        n < 100,
    ensures
        final(out)@ == old(out)@ + two_digit_bytes(n as int),
{
    out.push(ZERO + n / 10);
    out.push(ZERO + n % 10);
    assert(out@ =~= old(out)@ + two_digit_bytes(n as int));
}

/// Pushes the three fixed-width digits of `n` onto `out`.
fn push_three_digits(out: &mut Vec<u8>, n: u16)
    requires
        n < 1000,
    ensures
        final(out)@ == old(out)@ + three_digit_bytes(n as int),
{
    out.push(ZERO + (n / 100) as u8);
    out.push(ZERO + ((n / 10) % 10) as u8);
    out.push(ZERO + (n % 10) as u8);
    assert(out@ =~= old(out)@ + three_digit_bytes(n as int));
}

/// The sequence of byte-sequences a vector of names stands for.
pub open spec fn names_seq(v: Vec<Vec<u8>>) -> Seq<Seq<u8>> {
    Seq::new(v@.len(), |i: int| v@[i]@)
}

/// Appends every byte of `src` to `out`.
pub fn push_all(out: &mut Vec<u8>, src: &Vec<u8>)
    ensures
        final(out)@ == old(out)@ + src@,
{
    let mut i: usize = 0;
    while i < src.len()
        invariant
            i <= src@.len(),
            out@ == old(out)@ + src@.subrange(0, i as int),
        decreases src@.len() - i,
    {
        out.push(src[i]);
        assert(out@ =~= old(out)@ + src@.subrange(0, i as int + 1));
        i = i + 1;
    }
    assert(out@ =~= old(out)@ + src@);
}

/// Renders the name the active file is renamed to at rotation.
pub fn renamed_file_name(stem: &Vec<u8>, ext: &Vec<u8>, t: &Timestamp) -> (r: Vec<u8>)
    requires
        t.wf(),
    ensures
        r@ == renamed_name_bytes(stem@, ext@, *t),
{
    let mut out: Vec<u8> = Vec::new();
    push_all(&mut out, stem);
    out.push(DOT);
    push_two_digits(&mut out, t.year2);
    push_two_digits(&mut out, t.month);
    push_two_digits(&mut out, t.day);
    out.push(DOT);
    push_two_digits(&mut out, t.hour);
    push_two_digits(&mut out, t.minute);
    push_two_digits(&mut out, t.second);
    out.push(DOT);
    push_three_digits(&mut out, t.milli);
    out.push(DOT);
    push_all(&mut out, ext);
    assert(out@ =~= renamed_name_bytes(stem@, ext@, *t));
    out
}

/// Renders the compressed archive name a rotation finally produces.
pub fn archive_file_name(stem: &Vec<u8>, ext: &Vec<u8>, t: &Timestamp) -> (r: Vec<u8>)
    requires
        t.wf(),
    ensures
        r@ == archive_name_bytes(stem@, ext@, *t),
{
    let mut out = renamed_file_name(stem, ext, t);
    out.push(DOT);
    out.push(LETTER_G);
    out.push(LETTER_Z);
    assert(out@ =~= archive_name_bytes(stem@, ext@, *t));
    out
}

/// Whether the byte at `i` is an ASCII digit.
fn check_digit(name: &Vec<u8>, i: usize) -> (r: bool)
    requires
        i < name@.len(),
    ensures
        r == is_digit_byte(name@[i as int]),
{
    let b: u8 = name[i];
    ZERO <= b && b <= 57
}

/// Whether `name@.subrange(at, at + part.len()) == part@`, checked byte by
/// byte.
fn matches_at(name: &Vec<u8>, at: usize, part: &Vec<u8>) -> (r: bool)
    requires
        at + part@.len() <= name@.len(),
    ensures
        r == (name@.subrange(at as int, at as int + part@.len() as int) == part@),
{
    let n: usize = name.len();
    let mut i: usize = 0;
    while i < part.len()
        invariant
            i <= part@.len(),
            at + part@.len() <= name@.len(),
            n == name@.len(),
            forall|j: int| 0 <= j < i ==> name@[at + j] == part@[j],
        decreases part@.len() - i,
    {
        if name[at + i] != part[i] {
            assert(name@.subrange(at as int, at as int + part@.len() as int)[i as int]
                != part@[i as int]);
            return false;
        }
        i = i + 1;
    }
    assert(name@.subrange(at as int, at as int + part@.len() as int) =~= part@);
    true
}

/// Decides whether `name` is a compressed archive name for the given stem and
/// extension.
pub fn is_archive_file_name(name: &Vec<u8>, stem: &Vec<u8>, ext: &Vec<u8>) -> (r: bool)
    ensures
        r == is_archive_name(name@, stem@, ext@),
{
    let n: usize = name.len();
    if n < 22 || n - 22 < stem.len() || n - 22 - stem.len() != ext.len() {
        return false;
    }
    let p: usize = stem.len();
    if !matches_at(name, 0, stem) {
        return false;
    }
    if name[p] != DOT || name[p + 7] != DOT || name[p + 14] != DOT || name[p + 18] != DOT {
        return false;
    }
    let mut i: usize = p + 1;
    while i < p + 7
        invariant
            p + 7 <= n,
            n == name@.len(),
            p == stem@.len(),
            p + 1 <= i <= p + 7,
            forall|j: int| p + 1 <= j < i ==> is_digit_byte(#[trigger] name@[j]),
        decreases p + 7 - i,
    {
        if !check_digit(name, i) {
            return false;
        }
        i = i + 1;
    }
    let mut i: usize = p + 8;
    while i < p + 14
        invariant
            p + 14 <= n,
            n == name@.len(),
            p == stem@.len(),
            p + 8 <= i <= p + 14,
            forall|j: int| p + 8 <= j < i ==> is_digit_byte(#[trigger] name@[j]),
        decreases p + 14 - i,
    {
        if !check_digit(name, i) {
            return false;
        }
        i = i + 1;
    }
    let mut i: usize = p + 15;
    while i < p + 18
        invariant
            p + 18 <= n,
            n == name@.len(),
            p == stem@.len(),
            p + 15 <= i <= p + 18,
            forall|j: int| p + 15 <= j < i ==> is_digit_byte(#[trigger] name@[j]),
        decreases p + 18 - i,
    {
        if !check_digit(name, i) {
            return false;
        }
        i = i + 1;
    }
    if !matches_at(name, p + 19, ext) {
        return false;
    }
    if name[p + 19 + ext.len()] != DOT || name[p + 20 + ext.len()] != LETTER_G || name[p + 21
        + ext.len()] != LETTER_Z {
        return false;
    }
    assert(name@.subrange(p + 19 + ext@.len() as int, p + 22 + ext@.len() as int)
        =~= gz_suffix());
    true
}

/// Reads the fifteen timestamp digits of an archive name as one integer key.
/// Keys order archives chronologically: the rendering is fixed-width.
pub fn archive_stamp_key(name: &Vec<u8>, stem_len: usize) -> (k: u64)
    requires
        stem_len + 18 <= name@.len(),
        forall|i: int| stem_len + 1 <= i < stem_len + 7 ==> is_digit_byte(#[trigger] name@[i]),
        forall|i: int| stem_len + 8 <= i < stem_len + 14 ==> is_digit_byte(#[trigger] name@[i]),
        forall|i: int| stem_len + 15 <= i < stem_len + 18 ==> is_digit_byte(#[trigger] name@[i]),
    ensures
        k as int == archive_stamp(name@, stem_len as int),
{
    let n: usize = name.len();
    let ghost digits = stamp_digit_bytes(name@, stem_len as int);
    let mut k: u64 = 0;
    let mut j: usize = 0;
    while j < 15
        invariant
            stem_len + 18 <= n,
            n == name@.len(),
            digits == stamp_digit_bytes(name@, stem_len as int),
            digits.len() == 15,
            forall|i: int| 0 <= i < 15 ==> is_digit_byte(#[trigger] digits[i]),
            j <= 15,
            k as int == digits_val(digits.subrange(0, j as int)),
            (k as int) < pow10(j as nat),
        decreases 15 - j,
    {
        let idx = if j < 6 {
            stem_len + 1 + j
        } else if j < 12 {
            stem_len + 2 + j
        } else {
            stem_len + 3 + j
        };
        let b: u8 = name[idx];
        proof {
            if j < 6 {
                assert(digits[j as int] == name@[stem_len + 1 + j]);
            } else if j < 12 {
                assert(digits[j as int] == name@[stem_len + 2 + j]);
            } else {
                assert(digits[j as int] == name@[stem_len + 3 + j]);
            }
            assert(b == digits[j as int]);
            assert(digits.subrange(0, j as int + 1).drop_last() =~= digits.subrange(0, j as int));
            assert(digits.subrange(0, j as int + 1).last() == digits[j as int]);
            assert(pow10(15) == 1_000_000_000_000_000) by {
                reveal_with_fuel(pow10, 16);
            }
            lemma_pow10_monotone(j as nat + 1, 15);
        }
        k = k * 10 + (b - ZERO) as u64;
        j = j + 1;
    }
    proof {
        assert(digits.subrange(0, 15) =~= digits);
    }
    k
}

/// `pow10` grows with its exponent.
proof fn lemma_pow10_monotone(a: nat, b: nat)
    requires
        a <= b,
    ensures
        pow10(a) <= pow10(b),
        pow10(a) >= 1,
    decreases b,
{
    if a < b {
        lemma_pow10_monotone(a, (b - 1) as nat);
    } else if b > 0 {
        lemma_pow10_monotone((a - 1) as nat, (b - 1) as nat);
    }
}

} // verus!
