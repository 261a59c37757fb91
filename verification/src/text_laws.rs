//! What holds of every text.
use vstd::prelude::*;
use vstd::string::*;

use crate::text;
use crate::text_lemmas;

verus! {

/// Whether `s` is nothing but white space.
pub open spec fn is_blank(s: Seq<char>) -> bool {
    forall|i: int| 0 <= i < s.len() ==> text::white_space(#[trigger] s[i])
}

/// Whether `s` has no white space around it.
pub open spec fn is_tight(s: Seq<char>) -> bool {
    s.len() > 0 ==> !text::white_space(s[0]) && !text::white_space(s[s.len() - 1])
}

/// Whether `s` is not empty and has no white space in it.
pub open spec fn is_word(s: Seq<char>) -> bool {
    s.len() > 0 && forall|i: int| 0 <= i < s.len() ==> !text::white_space(#[trigger] s[i])
}

/// `n` times the character `c`.
pub open spec fn repeated(c: char, n: nat) -> Seq<char> {
    Seq::new(n, |i: int| c)
}

/// White space is the control characters from tab to carriage return, the next line, the spaces of
/// all widths, and the separators of lines and paragraphs, and nothing else.
pub proof fn law_white_space(c: char)
    ensures
        9 <= c as int <= 13 ==> text::white_space(c),
        c as int == 32 || c as int == 133 || c as int == 160 ==> text::white_space(c),
        c as int == 5760 || 8192 <= c as int <= 8202 ==> text::white_space(c),
        c as int == 8232 || c as int == 8233 || c as int == 8239 ==> text::white_space(c),
        c as int == 8287 || c as int == 12288 ==> text::white_space(c),
        c as int <= 8 || 14 <= c as int <= 31 || 33 <= c as int <= 132 ==> !text::white_space(c),
        134 <= c as int <= 159 || 161 <= c as int <= 5759 ==> !text::white_space(c),
        5761 <= c as int <= 8191 || 8203 <= c as int <= 8231 ==> !text::white_space(c),
        8234 <= c as int <= 8238 || 8240 <= c as int <= 8286 ==> !text::white_space(c),
        8288 <= c as int <= 12287 || 12289 <= c as int ==> !text::white_space(c),
{
}

/// Trimming takes away the white space around a text, all of it and nothing else.
pub proof fn law_trimming(a: Seq<char>, core: Seq<char>, b: Seq<char>)
    requires
        is_blank(a),
        is_blank(b),
        is_tight(core),
    ensures
        text::trimmed(a + core + b) == core,
{
    let s = a + core + b;
    let space = text::a_space();
    let n = if core.len() > 0 {
        a.len()
    } else {
        s.len()
    };
    assert forall|j: int| 0 <= j < n implies space(#[trigger] s[j]) by {
        if j < a.len() {
            assert(s[j] == a[j]);
        } else {
            assert(s[j] == b[j - a.len()]);
        }
    }
    if core.len() > 0 {
        assert(s[n as int] == core[0]);
    }
    text::lemma_trim_start_at(s, space, n as int);
    let t = s.skip(n as int);
    assert forall|j: int| core.len() <= j < t.len() implies space(#[trigger] t[j]) by {
        assert(t[j] == b[j - core.len()]);
    }
    if core.len() > 0 {
        assert(t[core.len() - 1] == core[core.len() - 1]);
    }
    text::lemma_trim_end_at(t, space, core.len() as int);
    assert(t.take(core.len() as int) =~= core);
}

/// A text with no white space around it stays as it is.
pub proof fn law_tight_text_stays(s: Seq<char>)
    requires
        is_tight(s),
    ensures
        text::trimmed(s) == s,
{
    let none = Seq::<char>::empty();
    law_trimming(none, s, none);
    assert(none + s + none =~= s);
}

/// Nothing is left of a blank text.
pub proof fn law_blank_text_is_trimmed_away(s: Seq<char>)
    requires
        is_blank(s),
    ensures
        text::trimmed(s).len() == 0,
{
    let none = Seq::<char>::empty();
    law_trimming(s, none, none);
    assert(s + none + none =~= s);
}

/// Every text is a tight one with blanks around it.
pub proof fn lemma_tight_core(s: Seq<char>)
    ensures
        exists|a: Seq<char>, b: Seq<char>|
            is_blank(a) && is_blank(b) && s == #[trigger] (a + text::trimmed(s) + b),
        is_tight(text::trimmed(s)),
{
    let space = text::a_space();
    let t = text::trim_start_by(s, space);
    let core = text::trimmed(s);
    text_lemmas::lemma_trim_start(s, space);
    text_lemmas::lemma_trim_end(t, space);
    text_lemmas::lemma_trim_both(s, space);
    lemma_trimmed_off_start(s, space);
    lemma_trimmed_off_end(t, space);
    let a = s.take(s.len() - t.len());
    let b = t.skip(core.len() as int);
    assert forall|i: int| 0 <= i < b.len() implies text::white_space(#[trigger] b[i]) by {
        assert(space(t[i + core.len()]));
    }
    assert forall|i: int| 0 <= i < a.len() implies text::white_space(#[trigger] a[i]) by {
        assert(space(s[i]));
    }
    assert(s =~= a + core + b);
}

pub(crate) proof fn lemma_trimmed_off_start(s: Seq<char>, p: spec_fn(char) -> bool)
    ensures
        forall|j: int| 0 <= j < s.len() - text::trim_start_by(s, p).len() ==> p(#[trigger] s[j]),
    decreases s.len(),
{
    if s.len() > 0 && p(s.first()) {
        let rest = s.drop_first();
        lemma_trimmed_off_start(rest, p);
        assert forall|j: int| 0 <= j < s.len() - text::trim_start_by(s, p).len() implies p(
            #[trigger] s[j],
        ) by {
            if j > 0 {
                assert(p(rest[j - 1]));
            }
        }
    }
}

pub(crate) proof fn lemma_trimmed_off_end(s: Seq<char>, p: spec_fn(char) -> bool)
    ensures
        forall|j: int| text::trim_end_by(s, p).len() <= j < s.len() ==> p(#[trigger] s[j]),
    decreases s.len(),
{
    if s.len() > 0 && p(s.last()) {
        let rest = s.drop_last();
        lemma_trimmed_off_end(rest, p);
        assert forall|j: int| text::trim_end_by(s, p).len() <= j < s.len() implies p(
            #[trigger] s[j],
        ) by {
            if j < rest.len() {
                assert(p(rest[j]));
            }
        }
    }
}

/// Trimming the end of a character takes away all of them there, and nothing else.
pub proof fn law_trimming_at_the_end(core: Seq<char>, c: char, n: nat)
    requires
        core.len() > 0 ==> core.last() != c,
    ensures
        text::trimmed_end_of(core + repeated(c, n), c) == core,
{
    let s = core + repeated(c, n);
    text::lemma_trim_end_at(s, text::the_char(c), core.len() as int);
    assert(s.take(core.len() as int) =~= core);
}

/// Trimming a character takes away all of them around a text, and nothing else.
pub proof fn law_trimming_a_character(c: char, m: nat, core: Seq<char>, n: nat)
    requires
        core.len() > 0 ==> core[0] != c && core.last() != c,
    ensures
        text::trimmed_of(repeated(c, m) + core + repeated(c, n), c) == core,
{
    let s = repeated(c, m) + core + repeated(c, n);
    let p = text::the_char(c);
    let k = if core.len() > 0 {
        m
    } else {
        m + n
    };
    if core.len() > 0 {
        assert(s[k as int] == core[0]);
    }
    text::lemma_trim_start_at(s, p, k as int);
    let t = s.skip(k as int);
    if core.len() > 0 {
        assert(t[core.len() - 1] == core.last());
    }
    text::lemma_trim_end_at(t, p, core.len() as int);
    assert(t.take(core.len() as int) =~= core);
}

/// Joining puts the separator between neighbours, and nothing else anywhere.
pub proof fn law_joining(a: Seq<Seq<char>>, b: Seq<Seq<char>>, sep: Seq<char>)
    requires
        a.len() > 0,
        b.len() > 0,
    ensures
        text::joined(a + b, sep) == text::joined(a, sep) + sep + text::joined(b, sep),
    decreases b.len(),
{
    let all = a + b;
    if b.len() == 1 {
        assert(all.drop_last() =~= a);
        assert(all.last() == b[0]);
    } else {
        law_joining(a, b.drop_last(), sep);
        assert(all.drop_last() =~= a + b.drop_last());
        assert(all.last() == b.last());
        assert(text::joined(all, sep) =~= text::joined(a, sep) + sep + text::joined(b, sep));
    }
}

/// A single part is joined to itself, and no parts to nothing.
pub proof fn law_joining_few(part: Seq<char>, sep: Seq<char>)
    ensures
        text::joined(seq![part], sep) == part,
        text::joined(Seq::<Seq<char>>::empty(), sep) == Seq::<char>::empty(),
{
}

/// Splitting undoes joining.
pub proof fn law_splitting_undoes_joining(parts: Seq<Seq<char>>, sep: char)
    requires
        parts.len() > 0,
        forall|i: int| 0 <= i < parts.len() ==> !(#[trigger] parts[i]).contains(sep),
    ensures
        text::split_on(text::joined(parts, seq![sep]), sep) == parts,
{
    text_lemmas::lemma_split_joined(parts, sep);
}

/// What stands before the first separator is the first part.
pub proof fn law_first_part(first: Seq<char>, rest: Seq<char>, sep: char)
    requires
        !first.contains(sep),
    ensures
        text::split_on(first, sep)[0] == first,
        text::split_on(first + seq![sep] + rest, sep)[0] == first,
    decreases rest.len(),
{
    text_lemmas::lemma_split_single(first, sep);
    let s = first + seq![sep] + rest;
    if rest.len() == 0 {
        assert(s.drop_last() =~= first);
    } else {
        law_first_part(first, rest.drop_last(), sep);
        assert(s.drop_last() =~= first + seq![sep] + rest.drop_last());
        lemma_separator_makes_two(first, rest.drop_last(), sep);
    }
}

proof fn lemma_separator_makes_two(first: Seq<char>, rest: Seq<char>, sep: char)
    requires
        !first.contains(sep),
    ensures
        text::split_on(first + seq![sep] + rest, sep).len() >= 2,
    decreases rest.len(),
{
    let s = first + seq![sep] + rest;
    if rest.len() == 0 {
        text_lemmas::lemma_split_single(first, sep);
        assert(s.drop_last() =~= first);
    } else {
        lemma_separator_makes_two(first, rest.drop_last(), sep);
        assert(s.drop_last() =~= first + seq![sep] + rest.drop_last());
    }
}

proof fn lemma_last_word(s: Seq<char>)
    requires
        s.len() > 0,
        !text::white_space(s.last()),
    ensures
        text::words(s).len() > 0,
{
}

/// A text without white space is a single word.
pub proof fn law_word_of_itself(w: Seq<char>)
    requires
        is_word(w),
    ensures
        text::words(w) == seq![w],
    decreases w.len(),
{
    let rest = w.drop_last();
    if rest.len() > 0 {
        assert forall|i: int| 0 <= i < rest.len() implies !text::white_space(#[trigger] rest[i]) by {
            assert(!text::white_space(w[i]));
        }
        law_word_of_itself(rest);
        assert(!text::white_space(rest[rest.len() - 1]));
        assert(!text::white_space(w[w.len() - 1]));
        assert(rest.push(w.last()) =~= w);
        assert(text::words(w) =~= seq![w]);
    } else {
        assert(!text::white_space(w[0]));
        assert(seq![w.last()] =~= w);
        assert(text::words(rest) =~= Seq::empty());
        assert(text::words(w) =~= seq![w]);
    }
}

/// White space separates the words on either side of it, and is part of none.
pub proof fn law_white_space_separates_words(a: Seq<char>, c: char, b: Seq<char>)
    requires
        text::white_space(c),
    ensures
        text::words(a + seq![c] + b) == text::words(a) + text::words(b),
    decreases b.len(),
{
    let s = a + seq![c] + b;
    if b.len() == 0 {
        assert(s.drop_last() =~= a);
        assert(text::words(a) + text::words(b) =~= text::words(a));
    } else {
        let b0 = b.drop_last();
        law_white_space_separates_words(a, c, b0);
        assert(s.drop_last() =~= a + seq![c] + b0);
        assert(s.last() == b.last());
        if !text::white_space(b.last()) {
            if b0.len() == 0 {
                assert(s.drop_last().last() == c);
                assert(text::words(b0) =~= Seq::empty());
                assert(text::words(s) =~= text::words(a) + text::words(b));
            } else {
                assert(s.drop_last().last() == b0.last());
                if !text::white_space(b0.last()) {
                    lemma_last_word(b0);
                    let x = text::words(a);
                    let y = text::words(b0);
                    assert((x + y).drop_last() =~= x + y.drop_last());
                    assert((x + y).last() == y.last());
                }
                assert(text::words(s) =~= text::words(a) + text::words(b));
            }
        }
    }
}

/// Each run of characters that white space, or an end of the text, surrounds is one word, between
/// those before it and those behind it.
pub proof fn law_each_run_is_a_word(a: Seq<char>, w: Seq<char>, b: Seq<char>)
    requires
        is_word(w),
        a.len() > 0 ==> text::white_space(a.last()),
        b.len() > 0 ==> text::white_space(b[0]),
    ensures
        text::words(a + w + b) == text::words(a) + seq![w] + text::words(b),
        text::words(Seq::<char>::empty()).len() == 0,
{
    law_word_of_itself(w);
    let none = Seq::<char>::empty();
    let tail = w + b;
    if b.len() > 0 {
        law_white_space_separates_words(w, b[0], b.drop_first());
        assert(w + seq![b[0]] + b.drop_first() =~= tail);
        law_white_space_separates_words(none, b[0], b.drop_first());
        assert(none + seq![b[0]] + b.drop_first() =~= b);
        assert(text::words(none) + text::words(b.drop_first()) =~= text::words(b.drop_first()));
    } else {
        assert(tail =~= w);
        assert(seq![w] + text::words(b) =~= seq![w]);
    }
    assert(text::words(tail) =~= seq![w] + text::words(b));
    if a.len() > 0 {
        law_white_space_separates_words(a.drop_last(), a.last(), tail);
        assert(a.drop_last() + seq![a.last()] + tail =~= a + w + b);
        law_white_space_separates_words(a.drop_last(), a.last(), none);
        assert(a.drop_last() + seq![a.last()] + none =~= a);
        assert(text::words(a.drop_last()) + text::words(none) =~= text::words(a.drop_last()));
    } else {
        assert(a + w + b =~= tail);
    }
    assert(text::words(a + w + b) =~= text::words(a) + seq![w] + text::words(b));
}

/// A text in which the pattern does not occur stays as it is.
pub proof fn law_replacing_nothing(s: Seq<char>, from: Seq<char>, to: Seq<char>)
    requires
        from.len() > 0,
        !text::occurs(from, s),
    ensures
        text::replaced(s, from, to) == s,
    decreases s.len(),
{
    if s.len() > 0 {
        if from.is_prefix_of(s) {
            assert(s.subrange(0, from.len() as int) =~= from);
            assert(text::occurs_at(from, s, 0));
        }
        let rest = s.drop_first();
        if text::occurs(from, rest) {
            let i = choose|i: int| text::occurs_at(from, rest, i);
            assert(s.subrange(i + 1, i + 1 + from.len()) =~= rest.subrange(i, i + from.len()));
            assert(text::occurs_at(from, s, i + 1));
        }
        law_replacing_nothing(rest, from, to);
        assert(seq![s.first()] + rest =~= s);
    }
}

/// The first occurrence of the pattern is replaced, what stands before it stays, and what follows
/// is replaced in its turn.
pub proof fn law_replacing_the_first(a: Seq<char>, b: Seq<char>, from: Seq<char>, to: Seq<char>)
    requires
        from.len() > 0,
        forall|i: int| 0 <= i < a.len() ==> !#[trigger] text::occurs_at(from, a + from + b, i),
    ensures
        text::replaced(a + from + b, from, to) == a + to + text::replaced(b, from, to),
    decreases a.len(),
{
    let s = a + from + b;
    if a.len() == 0 {
        assert(s.take(from.len() as int) =~= from);
        assert(s.skip(from.len() as int) =~= b);
        assert(a + to + text::replaced(b, from, to) =~= to + text::replaced(b, from, to));
    } else {
        if from.is_prefix_of(s) {
            assert(s.subrange(0, from.len() as int) =~= from);
            assert(text::occurs_at(from, s, 0));
        }
        let rest = a.drop_first();
        assert(s.drop_first() =~= rest + from + b);
        assert forall|i: int| 0 <= i < rest.len() implies !#[trigger] text::occurs_at(
            from,
            rest + from + b,
            i,
        ) by {
            assert((rest + from + b).subrange(i, i + from.len()) =~= s.subrange(
                i + 1,
                i + 1 + from.len(),
            ));
            assert(!text::occurs_at(from, s, i + 1));
        }
        law_replacing_the_first(rest, b, from, to);
        assert(seq![s.first()] + (rest + to + text::replaced(b, from, to)) =~= a + to
            + text::replaced(b, from, to));
    }
}

/// Decimal text is written digit by digit, the most significant first.
pub proof fn law_decimal_digits(n: nat, d: nat)
    requires
        d < 10,
    ensures
        text::decimal(d) == seq![(0x30 + d) as char],
        n > 0 ==> text::decimal(10 * n + d) == text::decimal(n).push((0x30 + d) as char),
{
    if n > 0 {
        assert((10 * n + d) / 10 == n);
        assert((10 * n + d) % 10 == d);
    }
}

/// Hexadecimal text is written digit by digit, the most significant first, in lower case.
pub proof fn law_hexadecimal_digits(n: nat, d: nat)
    requires
        d < 16,
    ensures
        ({
            let c = if d < 10 {
                (0x30 + d) as char
            } else {
                (0x61 + d - 10) as char
            };
            &&& text::hexadecimal(d) == seq![c]
            &&& n > 0 ==> text::hexadecimal(16 * n + d) == text::hexadecimal(n).push(c)
        }),
{
    if n > 0 {
        assert((16 * n + d) / 16 == n);
        assert((16 * n + d) % 16 == d);
    }
}

/// Lowering changes the case of ASCII letters, character by character, and nothing else.
pub proof fn law_lowering(s: Seq<char>, i: int)
    requires
        0 <= i < s.len(),
    ensures
        text::ascii_lowered(s).len() == s.len(),
        text::ascii_lowered(s)[i] == (if 0x41 <= s[i] as int && s[i] as int <= 0x5a {
            (s[i] as int + 0x20) as char
        } else {
            s[i]
        }),
        text::ascii_alphanumeric(s[i]) <==> (0x30 <= s[i] as int <= 0x39 || 0x41 <= s[i] as int
            <= 0x5a || 0x61 <= s[i] as int <= 0x7a),
{
}

/// Of two texts the first that there is.
pub proof fn law_or_else(t: Seq<char>, other: Option<Seq<char>>)
    ensures
        text::or_else(Some(t), other) == Some(t),
        text::or_else(None, other) == other,
{
}

/// The model of texts is what each of them holds, one for one.
pub proof fn law_views(texts: Seq<String>, i: int, t: String, s: &str)
    requires
        0 <= i < texts.len(),
    ensures
        text::views(texts).len() == texts.len(),
        text::views(texts)[i] == texts[i]@,
        text::optional_view(Some(t)) == Some(t@),
        text::optional_view(None) == None::<Seq<char>>,
        text::optional_str_view(Some(s)) == Some(s@),
        text::optional_str_view(None) == None::<Seq<char>>,
{
}

} // verus!
