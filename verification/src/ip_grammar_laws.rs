//! Which texts denote which address, and how an address is written.
use vstd::prelude::*;
use vstd::string::*;

use crate::ip;
use crate::ip::IpModel;
use crate::ip_laws;
use crate::text;
use crate::text_lemmas;

verus! {

/// Digits are read from left to right, in either case.
pub proof fn law_number_of_digits(s: Seq<char>, c: char, base: nat)
    ensures
        ip::digits_value(Seq::empty(), base) == 0,
        ip::digits_value(s.push(c), base) == ip::digits_value(s, base) * base + ip::digit_value(c),
        0x30 <= c as int <= 0x39 ==> ip::digit_value(c) == c as int - 0x30,
        0x41 <= c as int <= 0x46 ==> ip::digit_value(c) == c as int - 0x41 + 10,
        0x61 <= c as int <= 0x66 ==> ip::digit_value(c) == c as int - 0x61 + 10,
        !(0x30 <= c as int <= 0x39 || 0x41 <= c as int <= 0x46 || 0x61 <= c as int <= 0x66)
            ==> ip::digit_value(c) >= 16,
{
    assert(s.push(c).drop_last() =~= s);
}

/// An IPv4 address is written as four decimal numbers with dots between them.
pub proof fn law_ipv4_text(octets: Seq<u8>)
    requires
        octets.len() == 4,
    ensures
        ip::ip_text(IpModel::V4(octets)) == text::decimal(octets[0] as nat) + seq!['.']
            + text::decimal(octets[1] as nat) + seq!['.'] + text::decimal(octets[2] as nat)
            + seq!['.'] + text::decimal(octets[3] as nat),
{
    let parts = ip::decimals(octets);
    let dot = seq!['.'];
    reveal_with_fuel(text::joined, 5);
    assert(parts.drop_last().drop_last().drop_last() =~= seq![parts[0]]);
    assert(parts.drop_last().drop_last().last() == parts[1]);
    assert(parts.drop_last().last() == parts[2]);
    assert(parts.last() == parts[3]);
}

/// Of an IPv4 address the first three numbers become public.
pub proof fn law_ipv4_mask(octets: Seq<u8>)
    requires
        octets.len() == 4,
    ensures
        ip::mask_of(IpModel::V4(octets)) == text::decimal(octets[0] as nat) + seq!['.']
            + text::decimal(octets[1] as nat) + seq!['.'] + text::decimal(octets[2] as nat)
            + seq!['.', '*'],
{
    let parts = ip::decimals(octets.take(3));
    reveal_with_fuel(text::joined, 4);
    assert(parts.drop_last().drop_last() =~= seq![parts[0]]);
    assert(parts.drop_last().last() == parts[1]);
    assert(parts.last() == parts[2]);
    reveal_strlit(".*");
    assert(".*"@ =~= seq!['.', '*']);
}

/// Whether the segments map an IPv4 address, that of the octets.
pub open spec fn maps(segments: Seq<u16>, octets: Seq<u8>) -> bool {
    &&& segments.len() == 8
    &&& octets.len() == 4
    &&& segments[0] == 0 && segments[1] == 0 && segments[2] == 0 && segments[3] == 0
    &&& segments[4] == 0 && segments[5] == 0xffff
    &&& segments[6] == octets[0] * 256 + octets[1]
    &&& segments[7] == octets[2] * 256 + octets[3]
}

/// Whether the segments map no IPv4 address.
pub open spec fn maps_none(segments: Seq<u16>) -> bool {
    segments.len() == 8 && (segments[0] != 0 || segments[1] != 0 || segments[2] != 0 || segments[3]
        != 0 || segments[4] != 0 || segments[5] != 0xffff)
}

/// Of an IPv6 address the first three numbers become public, in hexadecimal; of one that maps an IPv4
/// address what becomes public of that.
pub proof fn law_ipv6_mask(segments: Seq<u16>, octets: Seq<u8>)
    ensures
        maps(segments, octets) ==> ip::mask_of(IpModel::V6(segments)) == ip::mask_of(
            IpModel::V4(octets),
        ),
        maps_none(segments) ==> ip::mask_of(IpModel::V6(segments)) == text::hexadecimal(
            segments[0] as nat,
        ) + seq![':'] + text::hexadecimal(segments[1] as nat) + seq![':'] + text::hexadecimal(
            segments[2] as nat,
        ) + seq![':', ':', '*'],
{
    if maps(segments, octets) {
        assert(ip::mapped_octets(segments) =~= octets);
        assert(ip::is_mapped(segments));
    }
    if maps_none(segments) {
        assert(!ip::is_mapped(segments));
        let parts = ip::hexes(segments.take(3));
        reveal_with_fuel(text::joined, 4);
        assert(parts.drop_last().drop_last() =~= seq![parts[0]]);
        assert(parts.drop_last().last() == parts[1]);
        assert(parts.last() == parts[2]);
        reveal_strlit("::*");
        assert("::*"@ =~= seq![':', ':', '*']);
    }
}

proof fn lemma_joined_split(s: Seq<char>, sep: char)
    ensures
        text::joined(text::split_on(s, sep), seq![sep]) == s,
        text::split_on(s, sep).len() > 0,
    decreases s.len(),
{
    let parts = text::split_on(s, sep);
    if s.len() == 0 {
        assert(text::joined(parts, seq![sep]) =~= s);
    } else {
        let rest = s.drop_last();
        let before = text::split_on(rest, sep);
        lemma_joined_split(rest, sep);
        if s.last() == sep {
            assert(parts.drop_last() =~= before);
            assert(text::joined(parts, seq![sep]) =~= rest + seq![sep] + Seq::<char>::empty());
            assert(rest + seq![sep] + Seq::<char>::empty() =~= s);
        } else {
            let last = before.last().push(s.last());
            assert(parts.drop_last() =~= before.drop_last());
            assert(parts.last() == last);
            if before.len() == 1 {
                assert(text::joined(parts, seq![sep]) == last);
                assert(before[0] == rest);
                assert(last =~= s);
            } else {
                let front = text::joined(before.drop_last(), seq![sep]);
                assert(front + seq![sep] + last =~= (front + seq![sep] + before.last()).push(
                    s.last(),
                ));
                assert(rest.push(s.last()) =~= s);
            }
        }
    }
}

proof fn lemma_value_of_more(s: Seq<char>)
    requires
        s.len() > 0,
        ip::all_digits(s, 10),
        s[0] != '0',
    ensures
        ip::digits_value(s, 10) > 0,
    decreases s.len(),
{
    if s.len() > 1 {
        let rest = s.drop_last();
        assert(ip::all_digits(rest, 10)) by {
            assert forall|i: int| 0 <= i < rest.len() implies ip::digit_value(#[trigger] rest[i])
                < 10 by {
                assert(ip::digit_value(s[i]) < 10);
            }
        }
        lemma_value_of_more(rest);
    } else {
        assert(s.drop_last() =~= Seq::<char>::empty());
        assert(ip::digit_value(s[0]) < 10);
    }
}

proof fn lemma_decimal_of_value(s: Seq<char>)
    requires
        s.len() > 0,
        ip::all_digits(s, 10),
        s.len() == 1 || s[0] != '0',
    ensures
        text::decimal(ip::digits_value(s, 10)) == s,
    decreases s.len(),
{
    let rest = s.drop_last();
    let d = ip::digit_value(s.last());
    assert(ip::digit_value(s[s.len() - 1]) < 10);
    assert(text::digit_char(d) == s.last());
    if s.len() > 1 {
        assert(ip::all_digits(rest, 10)) by {
            assert forall|i: int| 0 <= i < rest.len() implies ip::digit_value(#[trigger] rest[i])
                < 10 by {
                assert(ip::digit_value(s[i]) < 10);
            }
        }
        assert(rest[0] == s[0]);
        lemma_decimal_of_value(rest);
        lemma_value_of_more(rest);
        let v = ip::digits_value(rest, 10);
        let n: nat = v * 10 + d;
        assert(ip::digits_value(s, 10) == n);
        assert(n / 10 == v);
        assert(n % 10 == d);
        assert(text::digits(n, 10) == text::digits(v, 10).push(text::digit_char(d)));
        assert(rest.push(s.last()) =~= s);
    } else {
        assert(rest =~= Seq::<char>::empty());
        assert(ip::digits_value(rest, 10) == 0);
        assert(ip::digits_value(s, 10) == d);
        assert(text::digits(d, 10) == seq![text::digit_char(d)]);
        assert(seq![s.last()] =~= s);
    }
}

/// A dotted text denotes an IPv4 address only where it is written as that address is.
pub proof fn law_ipv4_has_one_text(s: Seq<char>, octets: Seq<u8>)
    requires
        octets.len() == 4,
    ensures
        ip::ip_of(s) == Some(IpModel::V4(octets)) <==> s == ip::ip_text(IpModel::V4(octets)),
        ip::ipv4_of(s) == Some(octets) <==> s == ip::dotted(octets),
{
    ip_laws::law_text_reads_back(IpModel::V4(octets));
    if ip::ipv4_of(s) == Some(octets) {
        let parts = text::split_on(s, '.');
        lemma_joined_split(s, '.');
        assert(parts =~= ip::decimals(octets)) by {
            assert forall|i: int| 0 <= i < 4 implies parts[i] == ip::decimals(octets)[i] by {
                assert(ip::octet_of(parts[i]) is Some);
                lemma_decimal_of_value(parts[i]);
                assert(octets[i] == ip::octet_of(parts[i])->0);
            }
        }
    }
    ip_laws::lemma_dotted_reads_back(octets);
}

/// Whether `s` is a group of an IPv6 address: one to four hexadecimal digits.
pub open spec fn is_group(s: Seq<char>) -> bool {
    &&& 1 <= s.len() <= 4
    &&& forall|i: int| 0 <= i < s.len() ==> ip::digit_value(#[trigger] s[i]) < 16
}

/// A group denotes a number that fits a segment.
pub proof fn law_group_fits(s: Seq<char>)
    requires
        is_group(s),
    ensures
        ip::digits_value(s, 16) < 0x10000,
{
    lemma_group_fits(s);
}

proof fn lemma_group_fits(s: Seq<char>)
    requires
        is_group(s),
    ensures
        s.len() == 1 ==> ip::digits_value(s, 16) < 0x10,
        s.len() == 2 ==> ip::digits_value(s, 16) < 0x100,
        s.len() == 3 ==> ip::digits_value(s, 16) < 0x1000,
        s.len() == 4 ==> ip::digits_value(s, 16) < 0x10000,
    decreases s.len(),
{
    let rest = s.drop_last();
    assert(ip::digit_value(s[s.len() - 1]) < 16);
    if s.len() > 1 {
        assert forall|i: int| 0 <= i < rest.len() implies ip::digit_value(#[trigger] rest[i])
            < 16 by {
            assert(ip::digit_value(s[i]) < 16);
        }
        lemma_group_fits(rest);
    } else {
        assert(ip::digits_value(rest, 16) == 0);
    }
}

/// Whether groups, and at the end the octets of an IPv4 address where there are any, make a run.
pub open spec fn is_run(groups: Seq<Seq<char>>, octets: Option<Seq<u8>>) -> bool {
    &&& forall|i: int| 0 <= i < groups.len() ==> is_group(#[trigger] groups[i])
    &&& octets matches Some(given) ==> given.len() == 4
}

/// The text of a run: its parts with colons between them.
pub open spec fn run_text(groups: Seq<Seq<char>>, octets: Option<Seq<u8>>) -> Seq<char> {
    match octets {
        Some(given) => text::joined(
            groups.push(ip::ip_text(IpModel::V4(given))),
            seq![':'],
        ),
        None => text::joined(groups, seq![':']),
    }
}

/// The segments of a run: the number of each group, and two for the octets.
pub open spec fn run_values(groups: Seq<Seq<char>>, octets: Option<Seq<u8>>) -> Seq<u16> {
    let front = Seq::new(groups.len(), |i: int| ip::digits_value(groups[i], 16) as u16);
    match octets {
        Some(given) => front + seq![
            (given[0] * 256 + given[1]) as u16,
            (given[2] * 256 + given[3]) as u16,
        ],
        None => front,
    }
}

proof fn lemma_group(s: Seq<char>)
    requires
        is_group(s),
    ensures
        ip::segment_of(s) == Some(ip::digits_value(s, 16) as u16),
        !s.contains(':'),
        !s.contains('.'),
        s.len() > 0,
{
    assert(ip::all_digits(s, 16));
    text_lemmas::lemma_digits_exclude(s, 16, ':');
    text_lemmas::lemma_digits_exclude(s, 16, '.');
}

/// The parts of a run.
spec fn run_parts(groups: Seq<Seq<char>>, octets: Option<Seq<u8>>) -> Seq<Seq<char>> {
    match octets {
        Some(given) => groups.push(ip::dotted(given)),
        None => groups,
    }
}

proof fn lemma_run_parts(groups: Seq<Seq<char>>, octets: Option<Seq<u8>>)
    requires
        is_run(groups, octets),
    ensures
        run_text(groups, octets) == text::joined(run_parts(groups, octets), seq![':']),
        forall|i: int|
            0 <= i < run_parts(groups, octets).len() ==> (#[trigger] run_parts(
                groups,
                octets,
            )[i]).len() > 0 && !run_parts(groups, octets)[i].contains(':'),
{
    let parts = run_parts(groups, octets);
    assert forall|i: int| 0 <= i < parts.len() implies (#[trigger] parts[i]).len() > 0
        && !parts[i].contains(':') by {
        if i < groups.len() {
            assert(parts[i] == groups[i]);
            assert(is_group(groups[i]));
            lemma_group(groups[i]);
        } else {
            ip_laws::lemma_dotted_reads_back(octets->0);
        }
    }
}

proof fn lemma_run_reads(groups: Seq<Seq<char>>, octets: Option<Seq<u8>>, dotted: bool)
    requires
        is_run(groups, octets),
        octets is Some ==> dotted,
    ensures
        ip::run_of(run_text(groups, octets), dotted) == Some(run_values(groups, octets)),
{
    let parts = run_parts(groups, octets);
    let s = run_text(groups, octets);
    lemma_run_parts(groups, octets);
    assert forall|i: int| 0 <= i < groups.len() implies ip::segment_of(#[trigger] groups[i])
        == Some(ip::digits_value(groups[i], 16) as u16) by {
        assert(is_group(groups[i]));
        lemma_group(groups[i]);
    }
    let front = Seq::new(groups.len(), |i: int| ip::digits_value(groups[i], 16) as u16);
    assert(groups.map_values(|part: Seq<char>| ip::segment_of(part)->0) =~= front);
    if parts.len() == 0 {
        assert(s =~= Seq::<char>::empty());
        assert(run_values(groups, octets) =~= Seq::<u16>::empty());
    } else {
        text_lemmas::lemma_split_joined(parts, ':');
        ip_laws::lemma_joined_has_no_gap(parts);
        match octets {
            Some(given) => {
                ip_laws::lemma_dotted_reads_back(given);
                assert(parts.drop_last() =~= groups);
                assert(parts.last() == ip::dotted(given));
                assert(front + ip::embedded(given) =~= run_values(groups, octets));
            },
            None => {
                assert(is_group(groups[groups.len() - 1]));
                lemma_group(groups.last());
                ip_laws::lemma_dotless_is_not_ipv4(groups.last());
            },
        }
    }
}

proof fn lemma_has_colon(parts: Seq<Seq<char>>)
    requires
        parts.len() > 1,
    ensures
        text::joined(parts, seq![':']).contains(':'),
{
    let all = text::joined(parts, seq![':']);
    let head = text::joined(parts.drop_last(), seq![':']);
    assert(all == head + seq![':'] + parts.last());
    assert(all[head.len() as int] == ':');
}

/// Eight groups with colons between them denote their numbers; a dotted address at the end may stand
/// for the last two.
pub proof fn law_ipv6_in_full(groups: Seq<Seq<char>>, octets: Option<Seq<u8>>)
    requires
        is_run(groups, octets),
        run_values(groups, octets).len() == 8,
    ensures
        ip::ip_of(run_text(groups, octets)) == Some(IpModel::V6(run_values(groups, octets))),
{
    let parts = run_parts(groups, octets);
    let s = run_text(groups, octets);
    lemma_run_reads(groups, octets, true);
    lemma_run_parts(groups, octets);
    ip_laws::lemma_joined_has_no_gap(parts);
    ip::lemma_no_gap(s);
    lemma_has_colon(parts);
    if ip::ipv4_of(s) is Some {
        ip_laws::lemma_ipv4_excludes(s, ':');
    }
}

/// A pair of colons between two runs stands for the zeros that are missing between them, of which
/// there is one at least.
pub proof fn law_ipv6_with_a_gap(
    head: Seq<Seq<char>>,
    groups: Seq<Seq<char>>,
    octets: Option<Seq<u8>>,
)
    requires
        is_run(head, None),
        is_run(groups, octets),
        head.len() + run_values(groups, octets).len() <= 7,
    ensures
        ip::ip_of(run_text(head, None) + seq![':', ':'] + run_text(groups, octets)) == Some(
            IpModel::V6(
                run_values(head, None) + Seq::new(
                    (8 - head.len() - run_values(groups, octets).len()) as nat,
                    |i: int| 0u16,
                ) + run_values(groups, octets),
            ),
        ),
{
    let first = run_text(head, None);
    let tail = run_text(groups, octets);
    let s = first + seq![':', ':'] + tail;
    let n = first.len() as int;
    lemma_run_reads(head, None, false);
    lemma_run_reads(groups, octets, true);
    lemma_run_parts(head, None);
    assert(s.take(n) =~= first);
    assert(s.skip(n + 2) =~= tail);
    if head.len() > 0 {
        ip_laws::lemma_joined_has_no_gap(run_parts(head, None));
    }
    assert forall|j: int| #![trigger s[j]] 0 <= j < n implies !(s[j] == ':' && s[j + 1]
        == ':') by {
        assert(s[j] == first[j]);
        if j < n - 1 {
            assert(s[j + 1] == first[j + 1]);
        }
    }
    ip::lemma_gap_at(s, n);
    assert(s[n] == ':');
    assert(s.contains(':'));
    if ip::ipv4_of(s) is Some {
        ip_laws::lemma_ipv4_excludes(s, ':');
    }
    let missing = 8 - head.len() - run_values(groups, octets).len();
    assert(ip::zeros(missing) =~= Seq::new(missing as nat, |i: int| 0u16));
}

proof fn lemma_run_only(s: Seq<char>, dotted: bool)
    requires
        ip::run_of(s, dotted) is Some,
    ensures
        exists|groups: Seq<Seq<char>>, octets: Option<Seq<u8>>| #[trigger]
            is_run(groups, octets) && (octets is Some ==> dotted) && s == run_text(groups, octets)
                && ip::run_of(s, dotted) == Some(run_values(groups, octets)),
{
    let parts = text::split_on(s, ':');
    lemma_joined_split(s, ':');
    if s.len() == 0 {
        let groups = Seq::<Seq<char>>::empty();
        assert(s =~= run_text(groups, None));
        assert(is_run(groups, None));
        lemma_run_reads(groups, None, dotted);
    } else if dotted && ip::ipv4_of(parts.last()) is Some {
        let given = ip::ipv4_of(parts.last())->0;
        let groups = parts.drop_last();
        law_ipv4_has_one_text(parts.last(), given);
        assert forall|i: int| 0 <= i < groups.len() implies is_group(#[trigger] groups[i]) by {
            assert(ip::segment_of(groups[i]) is Some);
        }
        assert(groups.push(ip::dotted(given)) =~= parts);
        assert(is_run(groups, Some(given)));
        lemma_run_reads(groups, Some(given), dotted);
    } else {
        assert forall|i: int| 0 <= i < parts.len() implies is_group(#[trigger] parts[i]) by {
            assert(ip::segment_of(parts[i]) is Some);
        }
        assert(is_run(parts, None));
        lemma_run_reads(parts, None, dotted);
    }
}

/// No other text denotes an IPv6 address.
pub proof fn law_no_other_ipv6(s: Seq<char>)
    ensures
        ip::ip_of(s) is Some && (ip::ip_of(s)->0) is V6 ==> {
            ||| exists|groups: Seq<Seq<char>>, octets: Option<Seq<u8>>| #[trigger]
                is_run(groups, octets) && s == run_text(groups, octets) && run_values(
                    groups,
                    octets,
                ).len() == 8
            ||| exists|head: Seq<Seq<char>>, groups: Seq<Seq<char>>, octets: Option<Seq<u8>>|
                #![trigger is_run(head, None), is_run(groups, octets)]
                is_run(head, None) && is_run(groups, octets) && s == run_text(head, None) + seq![
                    ':',
                    ':',
                ] + run_text(groups, octets) && head.len() + run_values(groups, octets).len() <= 7
        },
{
    if ip::ip_of(s) is Some && (ip::ip_of(s)->0) is V6 {
        match ip::gap_of(s) {
            None => {
                lemma_run_only(s, true);
            },
            Some(i) => {
                ip_laws::lemma_gap_is_inside(s);
                lemma_run_only(s.take(i), false);
                lemma_run_only(s.skip(i + 2), true);
                let (head, none) = choose|groups: Seq<Seq<char>>, octets: Option<Seq<u8>>|
                    #[trigger] is_run(groups, octets) && (octets is Some ==> false) && s.take(i)
                        == run_text(groups, octets) && ip::run_of(s.take(i), false) == Some(
                        run_values(groups, octets),
                    );
                let (groups, octets) = choose|groups: Seq<Seq<char>>, octets: Option<Seq<u8>>|
                    #[trigger] is_run(groups, octets) && (octets is Some ==> true) && s.skip(i + 2)
                        == run_text(groups, octets) && ip::run_of(s.skip(i + 2), true) == Some(
                        run_values(groups, octets),
                    );
                assert(none is None);
                assert(s =~= s.take(i) + seq![':', ':'] + s.skip(i + 2));
                assert(is_run(head, None) && is_run(groups, octets));
                assert(run_values(head, None).len() == head.len());
            },
        }
    }
}

/// Whether `n` zeros follow one another from position `i` on.
pub open spec fn is_zero_run(segments: Seq<u16>, i: int, n: int) -> bool {
    &&& 0 <= i && 0 <= n && i + n <= segments.len()
    &&& forall|j: int| i <= j < i + n ==> #[trigger] segments[j] == 0
}

proof fn lemma_zero_run_is_longest(segments: Seq<u16>, i: int, n: int)
    requires
        is_zero_run(segments, i, n),
    ensures
        ip::zero_run(segments, i) >= n,
        i < segments.len() ==> is_zero_run(segments, i, ip::zero_run(segments, i) as int),
    decreases segments.len() - i,
{
    if i < segments.len() {
        if segments[i] == 0 {
            if n > 0 {
                lemma_zero_run_is_longest(segments, i + 1, n - 1);
            } else {
                lemma_zero_run_is_longest(segments, i + 1, 0);
            }
            let m = ip::zero_run(segments, i) as int;
            assert forall|j: int| i <= j < i + m implies #[trigger] segments[j] == 0 by {}
            assert(i + m <= segments.len());
        } else {
            assert(n == 0) by {
                if n > 0 {
                    assert(segments[i] == 0);
                }
            }
        }
    }
}

proof fn lemma_first_longest(segments: Seq<u16>, n: nat, i: int)
    requires
        0 <= i < n,
    ensures
        0 <= ip::longest_run_start(segments, n) < n,
        ip::zero_run(segments, i) <= ip::zero_run(segments, ip::longest_run_start(segments, n)),
        i < ip::longest_run_start(segments, n) ==> ip::zero_run(segments, i) < ip::zero_run(
            segments,
            ip::longest_run_start(segments, n),
        ),
    decreases n,
{
    if n > 1 {
        let before = ip::longest_run_start(segments, (n - 1) as nat);
        if i < n - 1 {
            lemma_first_longest(segments, (n - 1) as nat, i);
        } else {
            lemma_first_longest(segments, (n - 1) as nat, 0);
        }
    }
}

/// Numbers in hexadecimal with colons between them.
pub open spec fn colons_between(segments: Seq<u16>) -> Seq<char> {
    text::joined(
        Seq::new(segments.len(), |i: int| text::hexadecimal(segments[i] as nat)),
        seq![':'],
    )
}

/// An IPv6 address is written as its numbers in hexadecimal with colons between them. The first of the
/// longest runs of zeros becomes a pair of colons, where it has two at least. One that maps an IPv4
/// address ends in that.
pub proof fn law_ipv6_text(segments: Seq<u16>, start: int, len: int, octets: Seq<u8>)
    requires
        segments.len() == 8,
        is_zero_run(segments, start, len),
        forall|i: int, n: int| #[trigger]
            is_zero_run(segments, i, n) ==> n <= len && (n == len ==> start <= i),
    ensures
        maps(segments, octets) ==> ip::ip_text(IpModel::V6(segments)) == "::ffff:"@ + ip::ip_text(
            IpModel::V4(octets),
        ),
        maps_none(segments) && len < 2 ==> ip::ip_text(IpModel::V6(segments)) == colons_between(
            segments,
        ),
        maps_none(segments) && len >= 2 ==> ip::ip_text(IpModel::V6(segments)) == colons_between(
            segments.take(start),
        ) + "::"@ + colons_between(segments.skip(start + len)),
{
    if maps(segments, octets) {
        assert(ip::mapped_octets(segments) =~= octets);
        assert(ip::is_mapped(segments));
    }
    if maps_none(segments) {
        assert(!ip::is_mapped(segments));
        let first = ip::longest_run_start(segments, 8);
        let most = ip::zero_run(segments, first) as int;
        lemma_first_longest(segments, 8, 0);
        assert(is_zero_run(segments, first, 0));
        lemma_zero_run_is_longest(segments, first, 0);
        assert(is_zero_run(segments, first, most));
        assert(most <= len);
        lemma_colons_between(segments);
        if len > 0 {
            lemma_zero_run_is_longest(segments, start, len);
            lemma_first_longest(segments, 8, start);
            assert(most == len);
            assert(start == first);
            lemma_colons_between(segments.take(start));
            lemma_colons_between(segments.skip(start + len));
        }
    }
}

proof fn lemma_colons_between(segments: Seq<u16>)
    ensures
        colons_between(segments) == ip::coloned(segments),
{
    assert(Seq::new(segments.len(), |i: int| text::hexadecimal(segments[i] as nat)) =~= ip::hexes(
        segments,
    ));
}

/// The model of an address is its numbers, in order.
pub proof fn law_model_of_an_address(octets: [u8; 4], segments: [u16; 8])
    ensures
        ip::IpAddr::V4(octets)@ == IpModel::V4(octets@),
        ip::IpAddr::V6(segments)@ == IpModel::V6(segments@),
{
}

} // verus!
