//! Text as a sequence of characters: trimming, splitting, searching and number formatting.
use vstd::prelude::*;
use vstd::string::*;

verus! {

/// The characters of the Unicode property `White_Space`.
pub open spec fn white_space(c: char) -> bool {
    ||| '\u{9}' <= c <= '\u{d}'
    ||| c == '\u{20}'
    ||| c == '\u{85}'
    ||| c == '\u{a0}'
    ||| c == '\u{1680}'
    ||| '\u{2000}' <= c <= '\u{200a}'
    ||| c == '\u{2028}'
    ||| c == '\u{2029}'
    ||| c == '\u{202f}'
    ||| c == '\u{205f}'
    ||| c == '\u{3000}'
}

/// `s` without its longest prefix of characters that satisfy `p`.
pub open spec fn trim_start_by(s: Seq<char>, p: spec_fn(char) -> bool) -> Seq<char>
    decreases s.len(),
{
    if s.len() > 0 && p(s.first()) {
        trim_start_by(s.drop_first(), p)
    } else {
        s
    }
}

/// `s` without its longest suffix of characters that satisfy `p`.
pub open spec fn trim_end_by(s: Seq<char>, p: spec_fn(char) -> bool) -> Seq<char>
    decreases s.len(),
{
    if s.len() > 0 && p(s.last()) {
        trim_end_by(s.drop_last(), p)
    } else {
        s
    }
}

/// The predicate that holds of white space.
pub open spec fn a_space() -> spec_fn(char) -> bool {
    |c: char| white_space(c)
}

/// The predicate that holds of `c` alone.
pub open spec fn the_char(c: char) -> spec_fn(char) -> bool {
    |x: char| x == c
}

/// `s` without leading and trailing white space.
pub open spec fn trimmed(s: Seq<char>) -> Seq<char> {
    trim_end_by(trim_start_by(s, a_space()), a_space())
}

/// `s` without trailing occurrences of `c`.
pub open spec fn trimmed_end_of(s: Seq<char>, c: char) -> Seq<char> {
    trim_end_by(s, the_char(c))
}

/// `s` without leading and trailing occurrences of `c`.
pub open spec fn trimmed_of(s: Seq<char>, c: char) -> Seq<char> {
    trim_end_by(trim_start_by(s, the_char(c)), the_char(c))
}

/// The pieces of `s` between the occurrences of `sep`: one more than there are occurrences.
pub open spec fn split_on(s: Seq<char>, sep: char) -> Seq<Seq<char>>
    decreases s.len(),
{
    if s.len() == 0 {
        seq![Seq::<char>::empty()]
    } else {
        let before = split_on(s.drop_last(), sep);
        if s.last() == sep {
            before.push(Seq::<char>::empty())
        } else {
            before.drop_last().push(before.last().push(s.last()))
        }
    }
}

/// The pieces of `parts`, in order, with `sep` between neighbours.
pub open spec fn joined(parts: Seq<Seq<char>>, sep: Seq<char>) -> Seq<char>
    decreases parts.len(),
{
    if parts.len() == 0 {
        Seq::empty()
    } else if parts.len() == 1 {
        parts[0]
    } else {
        joined(parts.drop_last(), sep) + sep + parts.last()
    }
}

/// The maximal runs of characters of `s` that are not white space, in order.
pub open spec fn words(s: Seq<char>) -> Seq<Seq<char>>
    decreases s.len(),
{
    if s.len() == 0 {
        Seq::empty()
    } else {
        let rest = s.drop_last();
        let before = words(rest);
        if white_space(s.last()) {
            before
        } else if rest.len() == 0 || white_space(rest.last()) {
            before.push(seq![s.last()])
        } else {
            before.drop_last().push(before.last().push(s.last()))
        }
    }
}

/// `s` with each occurrence of `from`, found from left to right, replaced by `to`.
pub open spec fn replaced(s: Seq<char>, from: Seq<char>, to: Seq<char>) -> Seq<char>
    decreases s.len(),
{
    if from.len() == 0 || s.len() == 0 {
        s
    } else if from.is_prefix_of(s) {
        to + replaced(s.skip(from.len() as int), from, to)
    } else {
        seq![s.first()] + replaced(s.drop_first(), from, to)
    }
}

/// Whether `part` occurs in `s`, at some position.
pub open spec fn occurs(part: Seq<char>, s: Seq<char>) -> bool {
    exists|i: int| occurs_at(part, s, i)
}

/// Whether `part` occurs in `s` at position `i`.
pub open spec fn occurs_at(part: Seq<char>, s: Seq<char>, i: int) -> bool {
    0 <= i && i + part.len() <= s.len() && s.subrange(i, i + part.len()) == part
}

/// The character for a digit below sixteen.
pub open spec fn digit_char(d: nat) -> char {
    if d < 10 {
        ('0' as int + d) as char
    } else {
        ('a' as int + (d - 10)) as char
    }
}

/// The shortest text of `n` in the given base, most significant digit first.
pub open spec fn digits(n: nat, base: nat) -> Seq<char>
    decreases n,
    when 2 <= base
    via digits_decreases
{
    if n < base {
        seq![digit_char(n)]
    } else {
        digits(n / base, base).push(digit_char(n % base))
    }
}

#[via_fn]
proof fn digits_decreases(n: nat, base: nat) {
    if n >= base {
        lemma_quotient_is_smaller(n, base);
    }
}

proof fn lemma_quotient_is_smaller(n: nat, base: nat)
    by (nonlinear_arith)
    requires
        2 <= base <= n,
    ensures
        n / base < n,
{
}

pub open spec fn decimal(n: nat) -> Seq<char> {
    digits(n, 10)
}

pub open spec fn hexadecimal(n: nat) -> Seq<char> {
    digits(n, 16)
}

/// `c` with an upper-case ASCII letter made lower case.
pub open spec fn ascii_lower(c: char) -> char {
    if 'A' <= c <= 'Z' {
        (c as int + 32) as char
    } else {
        c
    }
}

pub open spec fn ascii_lowered(s: Seq<char>) -> Seq<char> {
    s.map_values(|c: char| ascii_lower(c))
}

pub open spec fn ascii_alphanumeric(c: char) -> bool {
    'a' <= c <= 'z' || 'A' <= c <= 'Z' || '0' <= c <= '9'
}

/// The views of a sequence of strings.
pub open spec fn views(texts: Seq<String>) -> Seq<Seq<char>> {
    texts.map_values(|t: String| t@)
}

/// The first of the texts that there is.
pub open spec fn or_else(first: Option<Seq<char>>, second: Option<Seq<char>>) -> Option<Seq<char>> {
    if first is Some {
        first
    } else {
        second
    }
}

/// The view of an optional string.
pub open spec fn optional_view(text: Option<String>) -> Option<Seq<char>> {
    match text {
        Some(t) => Some(t@),
        None => None,
    }
}

/// The view of an optional string slice.
pub open spec fn optional_str_view(text: Option<&str>) -> Option<Seq<char>> {
    match text {
        Some(t) => Some(t@),
        None => None,
    }
}

/// `String::push` of the standard library appends the character to the text.
pub assume_specification[ std::string::String::push ](s: &mut std::string::String, c: char)
    ensures
        final(s)@ == old(s)@.push(c),
;

pub proof fn lemma_trim_start_at(s: Seq<char>, p: spec_fn(char) -> bool, i: int)
    requires
        0 <= i <= s.len(),
        forall|j: int| 0 <= j < i ==> p(#[trigger] s[j]),
        i < s.len() ==> !p(s[i]),
    ensures
        trim_start_by(s, p) == s.skip(i),
    decreases s.len(),
{
    if i == 0 {
        assert(s.skip(0) =~= s);
    } else {
        let rest = s.drop_first();
        assert forall|j: int| 0 <= j < i - 1 implies p(#[trigger] rest[j]) by {
            assert(p(s[j + 1]));
        }
        assert(p(s[0]));
        lemma_trim_start_at(rest, p, i - 1);
        assert(rest.skip(i - 1) =~= s.skip(i));
    }
}

pub proof fn lemma_trim_end_at(s: Seq<char>, p: spec_fn(char) -> bool, i: int)
    requires
        0 <= i <= s.len(),
        forall|j: int| i <= j < s.len() ==> p(#[trigger] s[j]),
        0 < i ==> !p(s[i - 1]),
    ensures
        trim_end_by(s, p) == s.take(i),
    decreases s.len(),
{
    if i == s.len() {
        assert(s.take(i) =~= s);
    } else {
        assert(p(s[s.len() - 1]));
        lemma_trim_end_at(s.drop_last(), p, i);
        assert(s.drop_last().take(i) =~= s.take(i));
    }
}

/// Whether `c` is white space.
pub fn is_white_space(c: char) -> (r: bool)
    ensures
        r == white_space(c),
{
    ('\u{9}' <= c && c <= '\u{d}') || c == '\u{20}' || c == '\u{85}' || c == '\u{a0}' || c
        == '\u{1680}' || ('\u{2000}' <= c && c <= '\u{200a}') || c == '\u{2028}' || c == '\u{2029}'
        || c == '\u{202f}' || c == '\u{205f}' || c == '\u{3000}'
}

/// The characters of `s`.
pub fn chars_of(s: &str) -> (v: Vec<char>)
    ensures
        v@ == s@,
{
    let mut out: Vec<char> = Vec::new();
    for c in it: s.chars()
        invariant
            out@ == it.seq().take(it.index() as int),
            it.seq() == s@,
    {
        out.push(c);
    }
    out
}

/// Whether `a` and `b` hold the same text.
pub fn same_text(a: &str, b: &str) -> (r: bool)
    ensures
        r == (a@ == b@),
{
    a.to_owned() == b.to_owned()
}

/// `s` without leading and trailing white space.
pub fn trim(s: &str) -> (r: &str)
    ensures
        r@ == trimmed(s@),
{
    let chars = chars_of(s);
    let ghost p = a_space();
    let mut start: usize = 0;
    while start < chars.len() && is_white_space(chars[start])
        invariant
            start <= chars@.len(),
            p == a_space(),
            forall|j: int| 0 <= j < start ==> p(#[trigger] chars@[j]),
        decreases chars@.len() - start,
    {
        start += 1;
    }
    let mut end: usize = chars.len();
    while start < end && is_white_space(chars[end - 1])
        invariant
            start <= end <= chars@.len(),
            p == a_space(),
            forall|j: int| end <= j < chars@.len() ==> p(#[trigger] chars@[j]),
        decreases end,
    {
        end -= 1;
    }
    proof {
        lemma_trim_start_at(chars@, p, start as int);
        let rest = chars@.skip(start as int);
        assert forall|j: int| end - start <= j < rest.len() implies p(#[trigger] rest[j]) by {
            assert(p(chars@[j + start]));
        }
        lemma_trim_end_at(rest, p, end - start);
        assert(rest.take(end - start) =~= chars@.subrange(start as int, end as int));
    }
    s.substring_char(start, end)
}

/// `s` without trailing occurrences of `c`.
pub fn trim_end_matches(s: &str, c: char) -> (r: &str)
    ensures
        r@ == trimmed_end_of(s@, c),
{
    let chars = chars_of(s);
    let ghost p = the_char(c);
    let mut end: usize = chars.len();
    while 0 < end && chars[end - 1] == c
        invariant
            end <= chars@.len(),
            p == the_char(c),
            forall|j: int| end <= j < chars@.len() ==> p(#[trigger] chars@[j]),
        decreases end,
    {
        end -= 1;
    }
    proof {
        lemma_trim_end_at(chars@, p, end as int);
        assert(chars@.take(end as int) =~= chars@.subrange(0, end as int));
    }
    s.substring_char(0, end)
}

/// `s` without leading and trailing occurrences of `c`.
pub fn trim_matches(s: &str, c: char) -> (r: &str)
    ensures
        r@ == trimmed_of(s@, c),
{
    let chars = chars_of(s);
    let ghost p = the_char(c);
    let mut start: usize = 0;
    while start < chars.len() && chars[start] == c
        invariant
            start <= chars@.len(),
            p == the_char(c),
            forall|j: int| 0 <= j < start ==> p(#[trigger] chars@[j]),
        decreases chars@.len() - start,
    {
        start += 1;
    }
    let rest = s.substring_char(start, chars.len());
    proof {
        lemma_trim_start_at(chars@, p, start as int);
        assert(rest@ =~= chars@.skip(start as int));
    }
    trim_end_matches(rest, c)
}

/// Whether `s` begins with `prefix`.
pub fn starts_with(s: &str, prefix: &str) -> (r: bool)
    ensures
        r == prefix@.is_prefix_of(s@),
{
    let n = prefix.unicode_len();
    if n <= s.unicode_len() {
        let head = s.substring_char(0, n);
        same_text(head, prefix)
    } else {
        false
    }
}

/// What follows `prefix` in `s`, where `s` begins with it.
pub fn strip_prefix<'a>(s: &'a str, prefix: &str) -> (r: Option<&'a str>)
    ensures
        prefix@.is_prefix_of(s@) ==> (r matches Some(rest) && rest@ == s@.skip(
            prefix@.len() as int,
        )),
        !prefix@.is_prefix_of(s@) ==> r is None,
{
    if starts_with(s, prefix) {
        let n = prefix.unicode_len();
        let rest = s.substring_char(n, s.unicode_len());
        proof {
            assert(rest@ =~= s@.skip(n as int));
        }
        Some(rest)
    } else {
        None
    }
}

/// The pieces of `s` between the occurrences of `sep`.
pub fn split(s: &str, sep: char) -> (r: Vec<String>)
    ensures
        views(r@) == split_on(s@, sep),
{
    let chars = chars_of(s);
    let mut done: Vec<String> = Vec::new();
    let mut piece = String::new();
    let mut i: usize = 0;
    proof {
        assert(split_on(chars@.take(0), sep) =~= views(done@).push(piece@));
    }
    while i < chars.len()
        invariant
            i <= chars@.len(),
            split_on(chars@.take(i as int), sep) == views(done@).push(piece@),
        decreases chars@.len() - i,
    {
        let ghost before = views(done@).push(piece@);
        let c = chars[i];
        proof {
            let next = chars@.take(i + 1);
            assert(next.drop_last() =~= chars@.take(i as int));
            assert(before.drop_last() =~= views(done@));
        }
        if c == sep {
            done.push(piece);
            piece = String::new();
            proof {
                assert(views(done@) =~= before);
            }
        } else {
            piece.push(c);
        }
        i += 1;
    }
    proof {
        assert(chars@.take(i as int) =~= s@);
    }
    let ghost before = views(done@).push(piece@);
    done.push(piece);
    proof {
        assert(views(done@) =~= before);
    }
    done
}

/// The maximal runs of characters of `s` that are not white space.
pub fn split_whitespace(s: &str) -> (r: Vec<String>)
    ensures
        views(r@) == words(s@),
{
    let chars = chars_of(s);
    let mut done: Vec<String> = Vec::new();
    let mut word = String::new();
    let mut i: usize = 0;
    let mut inside = false;
    proof {
        assert(views(done@) =~= words(chars@.take(0)));
    }
    while i < chars.len()
        invariant
            i <= chars@.len(),
            inside ==> 0 < i && !white_space(chars@[i - 1]),
            !inside ==> i == 0 || white_space(chars@[i - 1]),
            inside ==> words(chars@.take(i as int)) == views(done@).push(word@),
            !inside ==> word@.len() == 0 && words(chars@.take(i as int)) == views(done@),
        decreases chars@.len() - i,
    {
        let c = chars[i];
        let ghost before = views(done@);
        proof {
            let next = chars@.take(i + 1);
            assert(next.drop_last() =~= chars@.take(i as int));
            assert(before.push(word@).drop_last() =~= before);
        }
        if is_white_space(c) {
            if inside {
                let ghost all = before.push(word@);
                done.push(word);
                word = String::new();
                inside = false;
                proof {
                    assert(views(done@) =~= all);
                }
            }
        } else {
            let ghost last = word@;
            word.push(c);
            proof {
                if !inside {
                    assert(word@ =~= seq![c]);
                }
            }
            inside = true;
        }
        i += 1;
    }
    proof {
        assert(chars@.take(i as int) =~= s@);
    }
    if inside {
        let ghost all = views(done@).push(word@);
        done.push(word);
        proof {
            assert(views(done@) =~= all);
        }
    }
    done
}

/// The texts of `parts`, in order, with `sep` between neighbours.
pub fn join(parts: &Vec<String>, sep: &str) -> (r: String)
    ensures
        r@ == joined(views(parts@), sep@),
{
    let mut out = String::new();
    let mut i: usize = 0;
    let ghost all = views(parts@);
    while i < parts.len()
        invariant
            i <= parts@.len(),
            all == views(parts@),
            out@ == joined(all.take(i as int), sep@),
        decreases parts@.len() - i,
    {
        proof {
            assert(all.take(i + 1).drop_last() =~= all.take(i as int));
        }
        if i > 0 {
            out.append(sep);
        }
        out.append(parts[i].as_str());
        i += 1;
        proof {
            if i == 1 {
                assert(out@ =~= all[0]);
            }
        }
    }
    proof {
        assert(all.take(i as int) =~= all);
    }
    out
}

/// `s` with upper-case ASCII letters made lower case.
pub fn to_ascii_lowercase(s: &str) -> (r: String)
    ensures
        r@ == ascii_lowered(s@),
{
    let mut out = String::new();
    for c in it: s.chars()
        invariant
            it.seq() == s@,
            out@ == ascii_lowered(it.seq().take(it.index() as int)),
    {
        proof {
            let k = it.index() as int;
            assert(it.seq().take(k + 1) =~= it.seq().take(k).push(c));
            assert(ascii_lowered(it.seq().take(k + 1)) =~= ascii_lowered(it.seq().take(k)).push(
                ascii_lower(c),
            ));
        }
        out.push(lower_char(c));
    }
    proof {
        assert(s@.take(s@.len() as int) =~= s@);
    }
    out
}

/// `c` with an upper-case ASCII letter made lower case.
pub fn lower_char(c: char) -> (r: char)
    ensures
        r == ascii_lower(c),
{
    if 'A' <= c && c <= 'Z' {
        ((c as u8) + 32) as char
    } else {
        c
    }
}

/// Whether `c` is an ASCII letter or digit.
pub fn is_ascii_alphanumeric(c: char) -> (r: bool)
    ensures
        r == ascii_alphanumeric(c),
{
    ('a' <= c && c <= 'z') || ('A' <= c && c <= 'Z') || ('0' <= c && c <= '9')
}

/// `s` with each occurrence of `from` replaced by `to`.
pub fn replace(s: &str, from: &str, to: &str) -> (r: String)
    requires
        from@.len() > 0,
    ensures
        r@ == replaced(s@, from@, to@),
{
    let chars = chars_of(s);
    let needle = chars_of(from);
    let mut out = String::new();
    let mut i: usize = 0;
    proof {
        assert(chars@.skip(0) =~= chars@);
    }
    while i < chars.len()
        invariant
            i <= chars@.len(),
            needle@ == from@,
            needle@.len() > 0,
            out@ + replaced(chars@.skip(i as int), from@, to@) == replaced(chars@, from@, to@),
        decreases chars@.len() - i,
    {
        let ghost rest = chars@.skip(i as int);
        if matches_at(&chars, i, &needle) {
            proof {
                assert(rest.skip(from@.len() as int) =~= chars@.skip(i + from@.len()));
                assert(out@ + (to@ + replaced(chars@.skip(i + from@.len()), from@, to@)) =~= (out@
                    + to@) + replaced(chars@.skip(i + from@.len()), from@, to@));
            }
            out.append(to);
            i += needle.len();
        } else {
            proof {
                assert(rest.drop_first() =~= chars@.skip(i + 1));
                assert(out@ + (seq![chars@[i as int]] + replaced(chars@.skip(i + 1), from@, to@))
                    =~= out@.push(chars@[i as int]) + replaced(chars@.skip(i + 1), from@, to@));
            }
            out.push(chars[i]);
            i += 1;
        }
    }
    proof {
        assert(chars@.skip(i as int) =~= Seq::<char>::empty());
        assert(out@ + Seq::<char>::empty() =~= out@);
    }
    out
}

/// Whether `needle` stands in `chars` at position `i`.
fn matches_at(chars: &Vec<char>, i: usize, needle: &Vec<char>) -> (r: bool)
    requires
        i <= chars@.len(),
    ensures
        r == needle@.is_prefix_of(chars@.skip(i as int)),
{
    if chars.len() - i < needle.len() {
        return false;
    }
    let mut k: usize = 0;
    while k < needle.len()
        invariant
            k <= needle@.len(),
            i + needle@.len() <= chars@.len() <= usize::MAX,
            forall|j: int| 0 <= j < k ==> needle@[j] == chars@[i + j],
        decreases needle@.len() - k,
    {
        if chars[i + k] != needle[k] {
            proof {
                let rest = chars@.skip(i as int);
                assert(rest.subrange(0, needle@.len() as int)[k as int] != needle@[k as int]);
            }
            return false;
        }
        k += 1;
    }
    proof {
        assert(needle@ =~= chars@.skip(i as int).subrange(0, needle@.len() as int));
    }
    true
}

/// Appends the shortest text of `n` in the given base.
fn push_digits(out: &mut String, n: u128, base: u128)
    requires
        2 <= base <= 16,
    ensures
        final(out)@ == old(out)@ + digits(n as nat, base as nat),
    decreases n,
{
    if n < base {
        out.push(digit(n));
    } else {
        proof {
            lemma_quotient_is_smaller(n as nat, base as nat);
        }
        push_digits(out, n / base, base);
        proof {
            assert(0 <= n % base < base) by (nonlinear_arith)
                requires
                    base > 0,
            ;
        }
        out.push(digit(n % base));
    }
    proof {
        assert(out@ =~= old(out)@ + digits(n as nat, base as nat));
    }
}

/// The character for a digit below sixteen.
fn digit(d: u128) -> (c: char)
    requires
        d < 16,
    ensures
        c == digit_char(d as nat),
{
    if d < 10 {
        (48u8 + d as u8) as char
    } else {
        (97u8 + (d as u8 - 10u8)) as char
    }
}

/// The decimal text of `n`.
pub fn decimal_text(n: u128) -> (r: String)
    ensures
        r@ == decimal(n as nat),
{
    let mut out = String::new();
    push_digits(&mut out, n, 10);
    proof {
        assert(out@ =~= decimal(n as nat));
    }
    out
}

/// The lower-case hexadecimal text of `n`.
pub fn hexadecimal_text(n: u128) -> (r: String)
    ensures
        r@ == hexadecimal(n as nat),
{
    let mut out = String::new();
    push_digits(&mut out, n, 16);
    proof {
        assert(out@ =~= hexadecimal(n as nat));
    }
    out
}

} // verus!
