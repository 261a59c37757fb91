//! Facts about splitting and joining text, and about the texts of numbers.
use vstd::prelude::*;

use crate::ip;
use crate::text;

verus! {

/// Text without `sep` behind `a` only makes the last piece longer.
pub proof fn lemma_split_extended(a: Seq<char>, b: Seq<char>, sep: char)
    requires
        !b.contains(sep),
    ensures
        text::split_on(a + b, sep) == text::split_on(a, sep).drop_last().push(
            text::split_on(a, sep).last() + b,
        ),
    decreases b.len(),
{
    ip::lemma_split_has_parts(a, sep);
    let parts = text::split_on(a, sep);
    if b.len() == 0 {
        assert(a + b =~= a);
        assert(parts.last() + b =~= parts.last());
        assert(parts.drop_last().push(parts.last()) =~= parts);
    } else {
        let front = b.drop_last();
        assert forall|i: int| 0 <= i < front.len() implies front[i] != sep by {
            assert(b.contains(b[i]));
        }
        lemma_split_extended(a, front, sep);
        assert((a + b).drop_last() =~= a + front);
        assert((a + b).last() == b.last());
        assert(b.contains(b.last()));
        let before = parts.drop_last().push(parts.last() + front);
        assert(before.drop_last() =~= parts.drop_last());
        assert((parts.last() + front).push(b.last()) =~= parts.last() + b);
    }
}

/// Splitting takes apart what joining put together.
pub proof fn lemma_split_joined(parts: Seq<Seq<char>>, sep: char)
    requires
        parts.len() > 0,
        forall|i: int| 0 <= i < parts.len() ==> !(#[trigger] parts[i]).contains(sep),
    ensures
        text::split_on(text::joined(parts, seq![sep]), sep) == parts,
    decreases parts.len(),
{
    let none = Seq::<char>::empty();
    assert(!parts.last().contains(sep));
    if parts.len() == 1 {
        lemma_split_extended(none, parts[0], sep);
        assert(none + parts[0] =~= parts[0]);
        assert(text::split_on(none, sep) =~= seq![none]);
        assert(text::split_on(parts[0], sep) =~= parts);
    } else {
        let front = parts.drop_last();
        assert forall|i: int| 0 <= i < front.len() implies !(#[trigger] front[i]).contains(
            sep,
        ) by {
            assert(!parts[i].contains(sep));
        }
        lemma_split_joined(front, sep);
        let head = text::joined(front, seq![sep]) + seq![sep];
        assert(head.drop_last() =~= text::joined(front, seq![sep]));
        assert(head.last() == sep);
        assert(text::split_on(head, sep) =~= front.push(none));
        lemma_split_extended(head, parts.last(), sep);
        assert(front.push(none).drop_last() =~= front);
        assert(none + parts.last() =~= parts.last());
        assert(front.push(parts.last()) =~= parts);
    }
}

/// Text without `sep` is a single piece.
pub proof fn lemma_split_single(s: Seq<char>, sep: char)
    requires
        !s.contains(sep),
    ensures
        text::split_on(s, sep) == seq![s],
{
    let parts = seq![s];
    assert(text::joined(parts, seq![sep]) == s);
    lemma_split_joined(parts, sep);
}

/// The text of a number has only digits, denotes the number, and starts with a zero only where
/// it is a single digit.
pub proof fn lemma_digits(n: nat, base: nat)
    requires
        base == 10 || base == 16,
    ensures
        text::digits(n, base).len() >= 1,
        ip::all_digits(text::digits(n, base), base),
        ip::digits_value(text::digits(n, base), base) == n,
        n > 0 ==> text::digits(n, base)[0] != '0',
        n == 0 ==> text::digits(n, base).len() == 1,
    decreases n,
{
    let s = text::digits(n, base);
    if n < base {
        assert(s.drop_last() =~= Seq::<char>::empty());
        assert(ip::digits_value(s.drop_last(), base) == 0);
        assert(s.last() == text::digit_char(n));
    } else {
        let front = text::digits(n / base, base);
        if base == 10 {
            assert(n / 10 < n && 0 < n / 10);
        } else {
            assert(n / 16 < n && 0 < n / 16);
        }
        lemma_digits(n / base, base);
        let d = n % base;
        assert(s == front.push(text::digit_char(d)));
        assert(s.drop_last() =~= front);
        assert(ip::digit_value(text::digit_char(d)) == d);
        if base == 10 {
            assert((n / 10) * 10 + n % 10 == n);
        } else {
            assert((n / 16) * 16 + n % 16 == n);
        }
        assert forall|i: int| 0 <= i < s.len() implies ip::digit_value(#[trigger] s[i]) < base by {
            if i < front.len() {
                assert(s[i] == front[i]);
            }
        }
    }
}

/// The text of an octet has at most three digits.
pub proof fn lemma_octet_length(n: nat)
    requires
        n <= 255,
    ensures
        text::decimal(n).len() <= 3,
{
    reveal_with_fuel(text::digits, 3);
}

/// The text of a segment has at most four digits.
pub proof fn lemma_segment_length(n: nat)
    requires
        n <= 0xffff,
    ensures
        text::hexadecimal(n).len() <= 4,
{
    reveal_with_fuel(text::digits, 4);
}

/// Text of digits contains no character that is not a digit.
pub proof fn lemma_digits_exclude(s: Seq<char>, base: nat, c: char)
    requires
        base <= 16,
        ip::all_digits(s, base),
        ip::digit_value(c) == 16,
    ensures
        !s.contains(c),
{
    if s.contains(c) {
        let i = choose|i: int| 0 <= i < s.len() && s[i] == c;
        assert(ip::digit_value(s[i]) < base);
    }
}

/// What is left of `s` after trimming its start.
pub proof fn lemma_trim_start(s: Seq<char>, p: spec_fn(char) -> bool)
    ensures
        text::trim_start_by(s, p).len() <= s.len(),
        text::trim_start_by(s, p) == s.skip(s.len() - text::trim_start_by(s, p).len()),
        text::trim_start_by(s, p).len() > 0 ==> !p(text::trim_start_by(s, p)[0]),
    decreases s.len(),
{
    if s.len() > 0 && p(s.first()) {
        let rest = s.drop_first();
        lemma_trim_start(rest, p);
        let n = text::trim_start_by(s, p).len();
        assert(rest.skip(rest.len() - n) =~= s.skip(s.len() - n));
    } else {
        assert(s.skip(0) =~= s);
    }
}

/// What is left of `s` after trimming its end.
pub proof fn lemma_trim_end(s: Seq<char>, p: spec_fn(char) -> bool)
    ensures
        text::trim_end_by(s, p).len() <= s.len(),
        text::trim_end_by(s, p) == s.take(text::trim_end_by(s, p).len() as int),
        text::trim_end_by(s, p).len() > 0 ==> !p(text::trim_end_by(s, p).last()),
    decreases s.len(),
{
    if s.len() > 0 && p(s.last()) {
        let rest = s.drop_last();
        lemma_trim_end(rest, p);
        let n = text::trim_end_by(s, p).len();
        assert(rest.take(n as int) =~= s.take(n as int));
    } else {
        assert(s.take(s.len() as int) =~= s);
    }
}

/// Trimmed text begins and ends with characters that stay, so trimming again changes nothing.
pub proof fn lemma_trim_both(s: Seq<char>, p: spec_fn(char) -> bool)
    ensures
        ({
            let t = text::trim_end_by(text::trim_start_by(s, p), p);
            &&& t.len() > 0 ==> !p(t[0]) && !p(t.last())
            &&& text::trim_end_by(text::trim_start_by(t, p), p) == t
        }),
{
    let a = text::trim_start_by(s, p);
    lemma_trim_start(s, p);
    lemma_trim_end(a, p);
}

} // verus!
