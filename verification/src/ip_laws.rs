//! What holds of addresses and their texts.
use vstd::prelude::*;
use vstd::string::*;

use crate::ip;
use crate::ip::IpModel;
use crate::text;
use crate::text_lemmas;

verus! {

proof fn lemma_decimal_part(octet: u8)
    ensures
        ip::octet_of(text::decimal(octet as nat)) == Some(octet),
        !text::decimal(octet as nat).contains('.'),
        !text::decimal(octet as nat).contains(':'),
        text::decimal(octet as nat).len() >= 1,
{
    let s = text::decimal(octet as nat);
    text_lemmas::lemma_digits(octet as nat, 10);
    text_lemmas::lemma_octet_length(octet as nat);
    text_lemmas::lemma_digits_exclude(s, 10, '.');
    text_lemmas::lemma_digits_exclude(s, 10, ':');
}

proof fn lemma_hexadecimal_part(segment: u16)
    ensures
        ip::segment_of(text::hexadecimal(segment as nat)) == Some(segment),
        !text::hexadecimal(segment as nat).contains('.'),
        !text::hexadecimal(segment as nat).contains(':'),
        text::hexadecimal(segment as nat).len() >= 1,
{
    let s = text::hexadecimal(segment as nat);
    text_lemmas::lemma_digits(segment as nat, 16);
    text_lemmas::lemma_segment_length(segment as nat);
    text_lemmas::lemma_digits_exclude(s, 16, '.');
    text_lemmas::lemma_digits_exclude(s, 16, ':');
}

proof fn lemma_joined_excludes(parts: Seq<Seq<char>>, sep: char, c: char)
    requires
        c != sep,
        forall|i: int| 0 <= i < parts.len() ==> !(#[trigger] parts[i]).contains(c),
    ensures
        !text::joined(parts, seq![sep]).contains(c),
    decreases parts.len(),
{
    let all = text::joined(parts, seq![sep]);
    if parts.len() == 1 {
        assert(!parts[0].contains(c));
    } else if parts.len() > 1 {
        let front = parts.drop_last();
        assert forall|i: int| 0 <= i < front.len() implies !(#[trigger] front[i]).contains(c) by {
            assert(!parts[i].contains(c));
        }
        lemma_joined_excludes(front, sep, c);
        assert(!parts.last().contains(c));
        let head = text::joined(front, seq![sep]);
        if all.contains(c) {
            let i = choose|i: int| 0 <= i < all.len() && all[i] == c;
            if i < head.len() {
                assert(head.contains(head[i]));
            } else if i > head.len() {
                assert(parts.last().contains(parts.last()[i - head.len() - 1]));
            }
        }
    }
}

/// Non-empty parts without colons, joined by single colons, have no pair of colons and no colon
/// at either end.
pub(crate) proof fn lemma_joined_has_no_gap(parts: Seq<Seq<char>>)
    requires
        parts.len() > 0,
        forall|i: int|
            0 <= i < parts.len() ==> (#[trigger] parts[i]).len() > 0 && !parts[i].contains(':'),
    ensures
        text::joined(parts, seq![':']).len() > 0,
        text::joined(parts, seq![':'])[0] != ':',
        text::joined(parts, seq![':']).last() != ':',
        forall|j: int| #![trigger text::joined(parts, seq![':'])[j]]
            0 <= j < text::joined(parts, seq![':']).len() - 1 ==> !(text::joined(
                parts,
                seq![':'],
            )[j] == ':' && text::joined(parts, seq![':'])[j + 1] == ':'),
    decreases parts.len(),
{
    let all = text::joined(parts, seq![':']);
    let last = parts.last();
    assert(last.len() > 0 && !last.contains(':'));
    assert forall|j: int| 0 <= j < last.len() implies last[j] != ':' by {
        assert(last.contains(last[j]));
    }
    if parts.len() > 1 {
        let front = parts.drop_last();
        assert forall|i: int| 0 <= i < front.len() implies (#[trigger] front[i]).len() > 0
            && !front[i].contains(':') by {
            assert(parts[i].len() > 0 && !parts[i].contains(':'));
        }
        lemma_joined_has_no_gap(front);
        let head = text::joined(front, seq![':']);
        assert(all == head + seq![':'] + last);
        assert forall|j: int| #![trigger all[j]] 0 <= j < all.len() - 1 implies !(all[j] == ':'
            && all[j + 1] == ':') by {
            if j < head.len() - 1 {
                assert(all[j] == head[j] && all[j + 1] == head[j + 1]);
            } else if j == head.len() - 1 {
                assert(all[j] == head.last());
            } else {
                assert(all[j + 1] == last[j - head.len()]);
            }
        }
        assert(all[0] == head[0]);
        assert(all.last() == last.last());
    } else {
        assert(all == last);
    }
}

/// A dotted text reads back as its octets.
pub(crate) proof fn lemma_dotted_reads_back(octets: Seq<u8>)
    requires
        octets.len() == 4,
    ensures
        ip::ipv4_of(ip::dotted(octets)) == Some(octets),
        !ip::dotted(octets).contains(':'),
        ip::dotted(octets).len() > 0,
{
    let parts = ip::decimals(octets);
    assert forall|i: int| 0 <= i < parts.len() implies !(#[trigger] parts[i]).contains('.')
        && !parts[i].contains(':') && ip::octet_of(parts[i]) == Some(octets[i]) by {
        lemma_decimal_part(octets[i]);
    }
    text_lemmas::lemma_split_joined(parts, '.');
    lemma_joined_excludes(parts, '.', ':');
    assert(parts.map_values(|part: Seq<char>| ip::octet_of(part)->0) =~= octets);
    if ip::dotted(octets).len() == 0 {
        assert(ip::dotted(octets) =~= Seq::<char>::empty());
        assert(text::split_on(Seq::<char>::empty(), '.').len() == 1);
    }
}

/// A run of hexadecimal parts reads back as its segments.
proof fn lemma_coloned_reads_back(segments: Seq<u16>, dotted: bool)
    ensures
        ip::run_of(ip::coloned(segments), dotted) == Some(segments),
        !ip::coloned(segments).contains('.'),
{
    let parts = ip::hexes(segments);
    let s = ip::coloned(segments);
    assert forall|i: int| 0 <= i < parts.len() implies !(#[trigger] parts[i]).contains('.')
        && !parts[i].contains(':') && parts[i].len() > 0 && ip::segment_of(parts[i]) == Some(
        segments[i],
    ) by {
        lemma_hexadecimal_part(segments[i]);
    }
    lemma_joined_excludes(parts, ':', '.');
    if segments.len() == 0 {
        assert(segments =~= Seq::<u16>::empty());
    } else {
        text_lemmas::lemma_split_joined(parts, ':');
        lemma_joined_has_no_gap(parts);
        assert(!parts.last().contains('.'));
        text_lemmas::lemma_split_single(parts.last(), '.');
        assert(parts.map_values(|part: Seq<char>| ip::segment_of(part)->0) =~= segments);
    }
}

proof fn lemma_zero_run(segments: Seq<u16>, i: int)
    requires
        0 <= i,
    ensures
        zero_run_within(segments, i),
        forall|j: int|
            i <= j < i + ip::zero_run(segments, i) ==> j < segments.len() && segments[j] == 0,
    decreases segments.len() - i,
{
    if i < segments.len() && segments[i] == 0 {
        lemma_zero_run(segments, i + 1);
    }
}

spec fn zero_run_within(segments: Seq<u16>, i: int) -> bool {
    i <= segments.len() ==> i + ip::zero_run(segments, i) <= segments.len()
}

proof fn lemma_longest_run_start(segments: Seq<u16>, n: nat)
    ensures
        0 <= ip::longest_run_start(segments, n),
        n > 0 ==> ip::longest_run_start(segments, n) < n,
    decreases n,
{
    if n > 1 {
        lemma_longest_run_start(segments, (n - 1) as nat);
    }
}

/// Text without a dot is no dotted address.
pub(crate) proof fn lemma_dotless_is_not_ipv4(s: Seq<char>)
    requires
        !s.contains('.'),
    ensures
        ip::ipv4_of(s) is None,
{
    text_lemmas::lemma_split_single(s, '.');
}

/// Text in front of joined parts is text in front of the first of them.
proof fn lemma_prefix_of_joined(prefix: Seq<char>, parts: Seq<Seq<char>>, sep: Seq<char>)
    requires
        parts.len() > 0,
    ensures
        text::joined(parts.update(0, prefix + parts[0]), sep) == prefix + text::joined(parts, sep),
    decreases parts.len(),
{
    let longer = parts.update(0, prefix + parts[0]);
    if parts.len() > 1 {
        let front = parts.drop_last();
        lemma_prefix_of_joined(prefix, front, sep);
        assert(longer.drop_last() =~= front.update(0, prefix + front[0]));
        assert(longer.last() == parts.last());
        assert(prefix + text::joined(front, sep) + sep + parts.last() =~= prefix + (text::joined(
            front,
            sep,
        ) + sep + parts.last()));
    }
}

/// A dotted address behind colons is no dotted address.
proof fn lemma_prefixed_is_not_ipv4(prefix: Seq<char>, octets: Seq<u8>)
    requires
        octets.len() == 4,
        prefix.len() > 0,
        prefix[0] == ':',
        !prefix.contains('.'),
    ensures
        ip::ipv4_of(prefix + ip::dotted(octets)) is None,
{
    let decimals = ip::decimals(octets);
    let first = prefix + decimals[0];
    let pieces = decimals.update(0, first);
    assert forall|i: int| 0 <= i < pieces.len() implies !(#[trigger] pieces[i]).contains('.') by {
        lemma_decimal_part(octets[i]);
        if i == 0 && first.contains('.') {
            let k = choose|k: int| 0 <= k < first.len() && first[k] == '.';
            if k < prefix.len() {
                assert(prefix.contains(prefix[k]));
            } else {
                assert(decimals[0].contains(decimals[0][k - prefix.len()]));
            }
        }
    }
    lemma_prefix_of_joined(prefix, decimals, seq!['.']);
    text_lemmas::lemma_split_joined(pieces, '.');
    assert(first[0] == ':');
    assert(!ip::all_digits(first, 10));
    assert(ip::octet_of(pieces[0]) is None);
}

proof fn lemma_ffff()
    ensures
        ip::segment_of(seq!['f', 'f', 'f', 'f']) == Some(0xffffu16),
        !seq!['f', 'f', 'f', 'f'].contains(':'),
{
    let ffff = seq!['f', 'f', 'f', 'f'];
    reveal_with_fuel(ip::digits_value, 5);
    assert(ffff.drop_last() =~= seq!['f', 'f', 'f']);
    assert(ffff.drop_last().drop_last() =~= seq!['f', 'f']);
    assert(ffff.drop_last().drop_last().drop_last() =~= seq!['f']);
    assert(ffff.drop_last().drop_last().drop_last().drop_last() =~= Seq::<char>::empty());
    assert(ip::digits_value(ffff, 16) == 0xffff);
}

/// What stands behind the pair of colons in the text of an IPv4-mapped address.
proof fn lemma_mapped_tail(octets: Seq<u8>)
    requires
        octets.len() == 4,
    ensures
        ip::run_of(seq!['f', 'f', 'f', 'f', ':'] + ip::dotted(octets), true) == Some(
            seq![0xffffu16] + ip::embedded(octets),
        ),
{
    let ffff = seq!['f', 'f', 'f', 'f'];
    let address = ip::dotted(octets);
    let parts = seq![ffff, address];
    let tail = seq!['f', 'f', 'f', 'f', ':'] + address;
    lemma_dotted_reads_back(octets);
    lemma_ffff();
    assert(parts.drop_last() =~= seq![ffff]);
    assert(text::joined(seq![ffff], seq![':']) == ffff);
    assert(tail =~= ffff + seq![':'] + address);
    assert(tail == text::joined(parts, seq![':']));
    text_lemmas::lemma_split_joined(parts, ':');
    let front = parts.drop_last();
    assert forall|i: int| 0 <= i < front.len() implies ip::segment_of(
        #[trigger] front[i],
    ) is Some by {}
    assert(front.map_values(|part: Seq<char>| ip::segment_of(part)->0) =~= seq![0xffffu16]);
}

proof fn lemma_mapped_reads_back(segments: Seq<u16>)
    requires
        segments.len() == 8,
        ip::is_mapped(segments),
    ensures
        ip::ip_of(ip::ipv6_text(segments)) == Some(IpModel::V6(segments)),
{
    let octets = ip::mapped_octets(segments);
    let address = ip::dotted(octets);
    let prefix = "::ffff:"@;
    let s = prefix + address;
    reveal_strlit("::ffff:");
    assert(prefix =~= seq![':', ':', 'f', 'f', 'f', 'f', ':']);
    assert(!prefix.contains('.'));
    lemma_prefixed_is_not_ipv4(prefix, octets);
    ip::lemma_gap_at(s, 0);
    assert(s.take(0) =~= Seq::<char>::empty());
    assert(s.skip(2) =~= seq!['f', 'f', 'f', 'f', ':'] + address);
    lemma_mapped_tail(octets);
    assert(ip::embedded(octets) =~= seq![segments[6], segments[7]]);
    let back = seq![0xffffu16] + ip::embedded(octets);
    assert(Seq::<u16>::empty() + ip::zeros(5) + back =~= segments);
}

/// Two runs around a pair of colons read back with zeros between them.
proof fn lemma_gapped_reads_back(front: Seq<u16>, back: Seq<u16>)
    requires
        front.len() + back.len() <= 7,
    ensures
        ip::ip_of(ip::coloned(front) + "::"@ + ip::coloned(back)) == Some(
            IpModel::V6(front + ip::zeros(8 - front.len() - back.len()) + back),
        ),
{
    let head = ip::coloned(front);
    let tail = ip::coloned(back);
    let s = head + "::"@ + tail;
    let n = head.len() as int;
    lemma_coloned_reads_back(front, false);
    lemma_coloned_reads_back(back, true);
    reveal_strlit("::");
    assert("::"@ =~= seq![':', ':']);
    assert(s.take(n) =~= head);
    assert(s.skip(n + 2) =~= tail);
    if front.len() > 0 {
        lemma_hexes(front);
        lemma_joined_has_no_gap(ip::hexes(front));
    }
    assert forall|j: int| #![trigger s[j]] 0 <= j < n implies !(s[j] == ':' && s[j + 1]
        == ':') by {
        assert(s[j] == head[j]);
        if j < n - 1 {
            assert(s[j + 1] == head[j + 1]);
        }
    }
    ip::lemma_gap_at(s, n);
    assert(!s.contains('.')) by {
        if s.contains('.') {
            let i = choose|i: int| 0 <= i < s.len() && s[i] == '.';
            if i < n {
                assert(head.contains(head[i]));
            } else if i >= n + 2 {
                assert(tail.contains(tail[i - n - 2]));
            }
        }
    }
    lemma_dotless_is_not_ipv4(s);
}

/// Every address reads back from its canonical text.
pub proof fn law_text_reads_back(address: IpModel)
    requires
        address.wf(),
    ensures
        ip::ip_of(ip::ip_text(address)) == Some(address),
{
    match address {
        IpModel::V4(octets) => {
            lemma_dotted_reads_back(octets);
        },
        IpModel::V6(segments) => {
            let start = ip::longest_run_start(segments, 8);
            let len = ip::zero_run(segments, start);
            lemma_longest_run_start(segments, 8);
            lemma_zero_run(segments, start);
            if ip::is_mapped(segments) {
                lemma_mapped_reads_back(segments);
            } else if len > 1 {
                let front = segments.take(start);
                let back = segments.skip(start + len);
                lemma_gapped_reads_back(front, back);
                assert(front + ip::zeros(8 - front.len() - back.len()) + back =~= segments);
            } else {
                let s = ip::coloned(segments);
                lemma_coloned_reads_back(segments, true);
                lemma_hexes(segments);
                lemma_joined_has_no_gap(ip::hexes(segments));
                ip::lemma_no_gap(s);
                lemma_dotless_is_not_ipv4(s);
            }
        },
    }
}

proof fn lemma_hexes(segments: Seq<u16>)
    ensures
        forall|i: int|
            0 <= i < ip::hexes(segments).len() ==> (#[trigger] ip::hexes(segments)[i]).len() > 0
                && !ip::hexes(segments)[i].contains(':'),
{
    let parts = ip::hexes(segments);
    assert forall|i: int| 0 <= i < parts.len() implies (#[trigger] parts[i]).len() > 0
        && !parts[i].contains(':') by {
        lemma_hexadecimal_part(segments[i]);
    }
}

/// Reading an address and writing it again gives a text that denotes the same address: the
/// canonical text is a fixed point.
pub proof fn law_canonical_text_is_stable(s: Seq<char>)
    requires
        ip::ip_of(s) is Some,
    ensures
        ip::ip_of(ip::ip_text(ip::ip_of(s)->0)) == ip::ip_of(s),
{
    lemma_read_address_is_whole(s);
    law_text_reads_back(ip::ip_of(s)->0);
}

/// Every address that is read has all its parts.
pub proof fn lemma_read_address_is_whole(s: Seq<char>)
    requires
        ip::ip_of(s) is Some,
    ensures
        (ip::ip_of(s)->0).wf(),
{
}

proof fn lemma_dotted_excludes(octets: Seq<u8>, c: char)
    requires
        ip::digit_value(c) == 16,
        c != '.',
    ensures
        !ip::dotted(octets).contains(c),
{
    let parts = ip::decimals(octets);
    assert forall|i: int| 0 <= i < parts.len() implies !(#[trigger] parts[i]).contains(c) by {
        text_lemmas::lemma_digits(octets[i] as nat, 10);
        text_lemmas::lemma_digits_exclude(parts[i], 10, c);
    }
    lemma_joined_excludes(parts, '.', c);
}

proof fn lemma_coloned_excludes(segments: Seq<u16>, c: char)
    requires
        ip::digit_value(c) == 16,
        c != ':',
    ensures
        !ip::coloned(segments).contains(c),
{
    let parts = ip::hexes(segments);
    assert forall|i: int| 0 <= i < parts.len() implies !(#[trigger] parts[i]).contains(c) by {
        text_lemmas::lemma_digits(segments[i] as nat, 16);
        text_lemmas::lemma_digits_exclude(parts[i], 16, c);
    }
    lemma_joined_excludes(parts, ':', c);
}

proof fn lemma_sum_excludes(a: Seq<char>, b: Seq<char>, c: char)
    requires
        !a.contains(c),
        !b.contains(c),
    ensures
        !(a + b).contains(c),
{
    if (a + b).contains(c) {
        let i = choose|i: int| 0 <= i < (a + b).len() && (a + b)[i] == c;
        if i < a.len() {
            assert(a.contains(a[i]));
        } else {
            assert(b.contains(b[i - a.len()]));
        }
    }
}

/// The canonical text of an address has only digits, dots and colons.
pub proof fn law_text_is_plain(address: IpModel, c: char)
    requires
        ip::digit_value(c) == 16,
        c != '.',
        c != ':',
    ensures
        !ip::ip_text(address).contains(c),
{
    match address {
        IpModel::V4(octets) => {
            lemma_dotted_excludes(octets, c);
        },
        IpModel::V6(segments) => {
            let start = ip::longest_run_start(segments, 8);
            let len = ip::zero_run(segments, start);
            reveal_strlit("::ffff:");
            reveal_strlit("::");
            if ip::is_mapped(segments) {
                lemma_dotted_excludes(ip::mapped_octets(segments), c);
                lemma_sum_excludes("::ffff:"@, ip::dotted(ip::mapped_octets(segments)), c);
            } else if len > 1 {
                let front = ip::coloned(segments.take(start));
                let back = ip::coloned(segments.skip(start + len));
                lemma_coloned_excludes(segments.take(start), c);
                lemma_coloned_excludes(segments.skip(start + len), c);
                lemma_sum_excludes(front, "::"@, c);
                lemma_sum_excludes(front + "::"@, back, c);
            } else {
                lemma_coloned_excludes(segments, c);
            }
        },
    }
}

/// The canonical text of an address has no white space around it.
pub proof fn law_text_needs_no_trimming(address: IpModel)
    ensures
        text::trimmed(ip::ip_text(address)) == ip::ip_text(address),
{
    let s = ip::ip_text(address);
    if s.len() > 0 {
        if text::white_space(s.first()) {
            law_text_is_plain(address, s.first());
            assert(s.contains(s[0]));
        }
        if text::white_space(s.last()) {
            law_text_is_plain(address, s.last());
            assert(s.contains(s[s.len() - 1]));
        }
    }
}

/// The public text of an IPv4 address does not depend on its last octet.
pub proof fn law_mask_hides_last_octet(a: Seq<u8>, b: Seq<u8>)
    requires
        a.len() == 4,
        b.len() == 4,
        a.take(3) == b.take(3),
    ensures
        ip::mask_of(IpModel::V4(a)) == ip::mask_of(IpModel::V4(b)),
{
}

/// The public text of an IPv6 address that maps no IPv4 address depends on its first three
/// segments alone.
pub proof fn law_mask_hides_last_segments(a: Seq<u16>, b: Seq<u16>)
    requires
        a.len() == 8,
        b.len() == 8,
        !ip::is_mapped(a),
        !ip::is_mapped(b),
        a.take(3) == b.take(3),
    ensures
        ip::mask_of(IpModel::V6(a)) == ip::mask_of(IpModel::V6(b)),
{
}

/// An IPv4 address and its mapping into IPv6 have the same public text.
pub proof fn law_mask_of_mapped_address(segments: Seq<u16>)
    requires
        segments.len() == 8,
        ip::is_mapped(segments),
    ensures
        ip::mask_of(IpModel::V6(segments)) == ip::mask_of(
            IpModel::V4(ip::mapped_octets(segments)),
        ),
{
}

proof fn lemma_split_keeps_chars(s: Seq<char>, sep: char, c: char)
    requires
        s.contains(c),
        c != sep,
    ensures
        exists|i: int|
            0 <= i < text::split_on(s, sep).len() && (#[trigger] text::split_on(s, sep)[i]).contains(
                c,
            ),
    decreases s.len(),
{
    let parts = text::split_on(s, sep);
    let rest = s.drop_last();
    let before = text::split_on(rest, sep);
    ip::lemma_split_has_parts(rest, sep);
    if s.last() == c {
        let last = parts.last();
        assert(last == before.last().push(c));
        assert(last[last.len() - 1] == c);
        assert(parts[parts.len() - 1].contains(c));
    } else {
        let k = choose|k: int| 0 <= k < s.len() && s[k] == c;
        assert(rest[k] == c);
        assert(rest.contains(c));
        lemma_split_keeps_chars(rest, sep, c);
        let i = choose|i: int| 0 <= i < before.len() && (#[trigger] before[i]).contains(c);
        if i == before.len() - 1 && s.last() != sep {
            let old_last = before.last();
            let j = choose|j: int| 0 <= j < old_last.len() && old_last[j] == c;
            assert(parts[i] == old_last.push(s.last()));
            assert(parts[i][j] == c);
        }
        assert(parts[i].contains(c));
    }
}

pub(crate) proof fn lemma_ipv4_excludes(s: Seq<char>, c: char)
    requires
        ip::ipv4_of(s) is Some,
        ip::digit_value(c) == 16,
        c != '.',
    ensures
        !s.contains(c),
{
    if s.contains(c) {
        lemma_split_keeps_chars(s, '.', c);
        let parts = text::split_on(s, '.');
        let i = choose|i: int| 0 <= i < parts.len() && (#[trigger] parts[i]).contains(c);
        assert(ip::octet_of(parts[i]) is Some);
        text_lemmas::lemma_digits_exclude(parts[i], 10, c);
    }
}

proof fn lemma_run_excludes(s: Seq<char>, dotted: bool, c: char)
    requires
        ip::run_of(s, dotted) is Some,
        ip::digit_value(c) == 16,
        c != '.',
        c != ':',
    ensures
        !s.contains(c),
{
    if s.contains(c) {
        lemma_split_keeps_chars(s, ':', c);
        let parts = text::split_on(s, ':');
        let i = choose|i: int| 0 <= i < parts.len() && (#[trigger] parts[i]).contains(c);
        if dotted && ip::ipv4_of(parts.last()) is Some {
            if i == parts.len() - 1 {
                lemma_ipv4_excludes(parts[i], c);
            } else {
                assert(ip::segment_of(parts.drop_last()[i]) is Some);
                text_lemmas::lemma_digits_exclude(parts[i], 16, c);
            }
        } else {
            assert(ip::segment_of(parts[i]) is Some);
            text_lemmas::lemma_digits_exclude(parts[i], 16, c);
        }
    }
}

pub(crate) proof fn lemma_gap_is_inside(s: Seq<char>)
    ensures
        ip::gap_of(s) matches Some(i) ==> {
            &&& 0 <= i
            &&& i + 2 <= s.len()
            &&& s[i] == ':'
            &&& s[i + 1] == ':'
        },
    decreases s.len(),
{
    if s.len() >= 2 && !(s[0] == ':' && s[1] == ':') {
        lemma_gap_is_inside(s.drop_first());
    }
}

/// A text that denotes an address has only digits, dots and colons.
pub proof fn law_address_is_plain(s: Seq<char>, c: char)
    requires
        ip::ip_of(s) is Some,
        ip::digit_value(c) == 16,
        c != '.',
        c != ':',
    ensures
        !s.contains(c),
{
    if ip::ipv4_of(s) is Some {
        lemma_ipv4_excludes(s, c);
    } else {
        match ip::gap_of(s) {
            None => {
                lemma_run_excludes(s, true, c);
            },
            Some(i) => {
                lemma_gap_is_inside(s);
                lemma_run_excludes(s.take(i), false, c);
                lemma_run_excludes(s.skip(i + 2), true, c);
                if s.contains(c) {
                    let k = choose|k: int| 0 <= k < s.len() && s[k] == c;
                    if k < i {
                        assert(s.take(i).contains(s.take(i)[k]));
                    } else if k >= i + 2 {
                        assert(s.skip(i + 2).contains(s.skip(i + 2)[k - i - 2]));
                    }
                }
            },
        }
    }
}

/// What the public sees of an address denotes none itself.
pub proof fn law_mask_is_no_address(address: IpModel)
    ensures
        ip::ip_of(ip::mask_of(address)) is None,
{
    let mask = ip::mask_of(address);
    reveal_strlit(".*");
    reveal_strlit("::*");
    assert(mask[mask.len() - 1] == '*');
    if ip::ip_of(mask) is Some {
        law_address_is_plain(mask, '*');
        assert(mask.contains('*'));
    }
}

} // verus!
