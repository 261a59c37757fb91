//! IP addresses as text: reading, writing and masking for public display.
use vstd::prelude::*;
use vstd::string::*;

use crate::text;

verus! {

/// An IP address: the octets of an IPv4 address or the segments of an IPv6 address.
#[derive(Debug, Clone, Copy)]
pub enum IpAddr {
    V4([u8; 4]),
    V6([u16; 8]),
}

/// The mathematical model of an address.
#[verifier::ext_equal]
pub ghost enum IpModel {
    V4(Seq<u8>),
    V6(Seq<u16>),
}

impl View for IpAddr {
    type V = IpModel;

    open spec fn view(&self) -> IpModel {
        match self {
            IpAddr::V4(octets) => IpModel::V4(octets@),
            IpAddr::V6(segments) => IpModel::V6(segments@),
        }
    }
}

impl IpModel {
    /// Whether the parts are as many as the kind of address has.
    pub open spec fn wf(self) -> bool {
        match self {
            IpModel::V4(octets) => octets.len() == 4,
            IpModel::V6(segments) => segments.len() == 8,
        }
    }
}

/// The value of a hexadecimal digit; sixteen for any other character.
pub open spec fn digit_value(c: char) -> nat {
    if '0' <= c <= '9' {
        (c as int - '0' as int) as nat
    } else if 'a' <= c <= 'f' {
        (c as int - 'a' as int + 10) as nat
    } else if 'A' <= c <= 'F' {
        (c as int - 'A' as int + 10) as nat
    } else {
        16
    }
}

/// Whether `s` consists of digits of the given base.
pub open spec fn all_digits(s: Seq<char>, base: nat) -> bool {
    forall|i: int| 0 <= i < s.len() ==> digit_value(#[trigger] s[i]) < base
}

/// The number that the digits `s` denote in the given base.
pub open spec fn digits_value(s: Seq<char>, base: nat) -> nat
    decreases s.len(),
{
    if s.len() == 0 {
        0
    } else {
        digits_value(s.drop_last(), base) * base + digit_value(s.last())
    }
}

/// One decimal part of a dotted address: one to three digits, no superfluous zero in front, at
/// most 255.
pub open spec fn octet_of(s: Seq<char>) -> Option<u8> {
    if 1 <= s.len() <= 3 && all_digits(s, 10) && (s.len() == 1 || s[0] != '0') && digits_value(
        s,
        10,
    ) <= 255 {
        Some(digits_value(s, 10) as u8)
    } else {
        None
    }
}

/// One hexadecimal part of an IPv6 address: one to four digits.
pub open spec fn segment_of(s: Seq<char>) -> Option<u16> {
    if 1 <= s.len() <= 4 && all_digits(s, 16) {
        Some(digits_value(s, 16) as u16)
    } else {
        None
    }
}

/// The octets of a dotted IPv4 address: four decimal parts.
pub open spec fn ipv4_of(s: Seq<char>) -> Option<Seq<u8>> {
    let parts = text::split_on(s, '.');
    if parts.len() == 4 && forall|i: int|
        0 <= i < parts.len() ==> octet_of(#[trigger] parts[i]) is Some {
        Some(parts.map_values(|part: Seq<char>| octet_of(part)->0))
    } else {
        None
    }
}

/// The segments that `parts` denote, where each of them denotes one.
pub open spec fn segments_of(parts: Seq<Seq<char>>) -> Option<Seq<u16>> {
    if forall|i: int| 0 <= i < parts.len() ==> segment_of(#[trigger] parts[i]) is Some {
        Some(parts.map_values(|part: Seq<char>| segment_of(part)->0))
    } else {
        None
    }
}

/// The two segments that hold the octets of an IPv4 address.
pub open spec fn embedded(octets: Seq<u8>) -> Seq<u16> {
    seq![(octets[0] * 256 + octets[1]) as u16, (octets[2] * 256 + octets[3]) as u16]
}

/// The segments of a run of parts separated by single colons. The last part may be a dotted
/// IPv4 address, which stands for two segments, where `dotted` allows it.
pub open spec fn run_of(s: Seq<char>, dotted: bool) -> Option<Seq<u16>> {
    let parts = text::split_on(s, ':');
    if s.len() == 0 {
        Some(Seq::empty())
    } else if dotted && ipv4_of(parts.last()) is Some {
        match segments_of(parts.drop_last()) {
            Some(front) => Some(front + embedded(ipv4_of(parts.last())->0)),
            None => None,
        }
    } else {
        segments_of(parts)
    }
}

/// The position of the first pair of neighbouring colons.
pub open spec fn gap_of(s: Seq<char>) -> Option<int>
    decreases s.len(),
{
    if s.len() < 2 {
        None
    } else if s[0] == ':' && s[1] == ':' {
        Some(0)
    } else {
        match gap_of(s.drop_first()) {
            Some(i) => Some(i + 1),
            None => None,
        }
    }
}

pub open spec fn zeros(n: int) -> Seq<u16> {
    Seq::new(n as nat, |i: int| 0u16)
}

/// The segments of an IPv6 address: eight of them, or fewer around a pair of colons that stands
/// for at least one segment of zeros.
pub open spec fn ipv6_of(s: Seq<char>) -> Option<Seq<u16>> {
    match gap_of(s) {
        None => match run_of(s, true) {
            Some(all) => if all.len() == 8 {
                Some(all)
            } else {
                None
            },
            None => None,
        },
        Some(i) => match (run_of(s.take(i), false), run_of(s.skip(i + 2), true)) {
            (Some(head), Some(tail)) => if head.len() + tail.len() <= 7 {
                Some(head + zeros(8 - head.len() - tail.len()) + tail)
            } else {
                None
            },
            _ => None,
        },
    }
}

/// The address that the text denotes, if it denotes one.
pub open spec fn ip_of(s: Seq<char>) -> Option<IpModel> {
    match ipv4_of(s) {
        Some(octets) => Some(IpModel::V4(octets)),
        None => match ipv6_of(s) {
            Some(segments) => Some(IpModel::V6(segments)),
            None => None,
        },
    }
}

/// The value of a hexadecimal digit; sixteen for any other character.
fn digit_value_of(c: char) -> (r: u32)
    ensures
        r == digit_value(c),
        r <= 16,
{
    if '0' <= c && c <= '9' {
        c as u32 - 48
    } else if 'a' <= c && c <= 'f' {
        c as u32 - 97 + 10
    } else if 'A' <= c && c <= 'F' {
        c as u32 - 65 + 10
    } else {
        16
    }
}

/// The number that `s` denotes in the given base, where it has one to `most` digits.
fn read_number(s: &Vec<char>, base: u32, most: usize) -> (r: Option<u32>)
    requires
        base == 10 || base == 16,
        most <= 4,
    ensures
        r is Some <==> 1 <= s@.len() <= most && all_digits(s@, base as nat),
        r is Some ==> r->0 == digits_value(s@, base as nat) && r->0 < 65536,
{
    if s.len() == 0 || s.len() > most {
        return None;
    }
    let mut value: u32 = 0;
    let mut i: usize = 0;
    while i < s.len()
        invariant
            i <= s@.len() <= 4,
            base == 10 || base == 16,
            value == digits_value(s@.take(i as int), base as nat),
            i == 0 ==> value < 1,
            i == 1 ==> value < 16,
            i == 2 ==> value < 256,
            i == 3 ==> value < 4096,
            i == 4 ==> value < 65536,
            forall|j: int| 0 <= j < i ==> digit_value(#[trigger] s@[j]) < base,
        decreases s@.len() - i,
    {
        let d = digit_value_of(s[i]);
        if d >= base {
            return None;
        }
        proof {
            assert(s@.take(i + 1).drop_last() =~= s@.take(i as int));
        }
        value = value * base + d;
        i += 1;
    }
    proof {
        assert(s@.take(i as int) =~= s@);
    }
    Some(value)
}

/// Reads one decimal part of a dotted address.
fn read_octet(s: &str) -> (r: Option<u8>)
    ensures
        r == octet_of(s@),
{
    let chars = text::chars_of(s);
    match read_number(&chars, 10, 3) {
        Some(value) => if value <= 255 && (chars.len() == 1 || chars[0] != '0') {
            Some(value as u8)
        } else {
            None
        },
        None => None,
    }
}

/// Reads one hexadecimal part of an IPv6 address.
fn read_segment(s: &str) -> (r: Option<u16>)
    ensures
        r == segment_of(s@),
{
    let chars = text::chars_of(s);
    match read_number(&chars, 16, 4) {
        Some(value) => Some(value as u16),
        None => None,
    }
}

/// Reads a dotted IPv4 address.
fn read_ipv4(s: &str) -> (r: Option<[u8; 4]>)
    ensures
        r is Some <==> ipv4_of(s@) is Some,
        r is Some ==> (r->0)@ == ipv4_of(s@)->0,
{
    let parts = text::split(s, '.');
    let ghost model = text::split_on(s@, '.');
    proof {
        assert(text::views(parts@) == model);
    }
    if parts.len() != 4 {
        return None;
    }
    proof {
        assert(forall|i: int| 0 <= i < 4 ==> model[i] == #[trigger] parts@[i]@);
    }
    match (
        read_octet(parts[0].as_str()),
        read_octet(parts[1].as_str()),
        read_octet(parts[2].as_str()),
        read_octet(parts[3].as_str()),
    ) {
        (Some(a), Some(b), Some(c), Some(d)) => {
            let octets = [a, b, c, d];
            proof {
                assert forall|i: int| 0 <= i < model.len() implies octet_of(
                    #[trigger] model[i],
                ) is Some by {
                    assert(i == 0 || i == 1 || i == 2 || i == 3);
                }
                assert(octets@ =~= model.map_values(|part: Seq<char>| octet_of(part)->0));
            }
            Some(octets)
        },
        _ => {
            proof {
                assert(octet_of(model[0]) is None || octet_of(model[1]) is None || octet_of(
                    model[2],
                ) is None || octet_of(model[3]) is None);
            }
            None
        },
    }
}

/// Reads the first `n` of `parts` as segments.
fn read_segments(parts: &Vec<String>, n: usize) -> (r: Option<Vec<u16>>)
    requires
        n <= parts@.len(),
    ensures
        r is Some <==> segments_of(text::views(parts@).take(n as int)) is Some,
        r is Some ==> (r->0)@ == segments_of(text::views(parts@).take(n as int))->0,
{
    let ghost model = text::views(parts@).take(n as int);
    let mut out: Vec<u16> = Vec::new();
    let mut i: usize = 0;
    while i < n
        invariant
            i <= n <= parts@.len(),
            model == text::views(parts@).take(n as int),
            out@.len() == i,
            forall|j: int|
                0 <= j < i ==> #[trigger] segment_of(model[j]) is Some && out@[j] == segment_of(
                    model[j],
                )->0,
        decreases n - i,
    {
        match read_segment(parts[i].as_str()) {
            Some(segment) => {
                out.push(segment);
            },
            None => {
                proof {
                    assert(segment_of(model[i as int]) is None);
                }
                return None;
            },
        }
        i += 1;
    }
    proof {
        assert forall|j: int| 0 <= j < model.len() implies segment_of(
            #[trigger] model[j],
        ) is Some by {}
        assert(out@ =~= model.map_values(|part: Seq<char>| segment_of(part)->0));
    }
    Some(out)
}

/// Reads a run of parts separated by single colons.
fn read_run(s: &str, dotted: bool) -> (r: Option<Vec<u16>>)
    ensures
        r is Some <==> run_of(s@, dotted) is Some,
        r is Some ==> (r->0)@ == run_of(s@, dotted)->0,
{
    if s.is_empty() {
        let none: Vec<u16> = Vec::new();
        proof {
            assert(none@ =~= Seq::<u16>::empty());
        }
        return Some(none);
    }
    let parts = text::split(s, ':');
    let ghost model = text::split_on(s@, ':');
    proof {
        lemma_split_has_parts(s@, ':');
        assert(parts@.len() == model.len());
    }
    let n = parts.len();
    if dotted {
        proof {
            assert(model.last() == parts@[n - 1]@);
        }
        if let Some(octets) = read_ipv4(parts[n - 1].as_str()) {
            proof {
                assert(text::views(parts@).take(n - 1) =~= model.drop_last());
            }
            match read_segments(&parts, n - 1) {
                Some(front) => {
                    let mut out = front;
                    out.push(octets[0] as u16 * 256 + octets[1] as u16);
                    out.push(octets[2] as u16 * 256 + octets[3] as u16);
                    proof {
                        assert(out@ =~= front@ + embedded(octets@));
                    }
                    return Some(out);
                },
                None => {
                    return None;
                },
            }
        }
    }
    proof {
        assert(text::views(parts@).take(n as int) =~= model);
    }
    read_segments(&parts, n)
}

pub(crate) proof fn lemma_split_has_parts(s: Seq<char>, sep: char)
    ensures
        text::split_on(s, sep).len() > 0,
    decreases s.len(),
{
    if s.len() > 0 {
        lemma_split_has_parts(s.drop_last(), sep);
    }
}

/// Where the first pair of neighbouring colons is.
pub(crate) proof fn lemma_gap_at(s: Seq<char>, i: int)
    requires
        0 <= i < s.len() - 1,
        s[i] == ':' && s[i + 1] == ':',
        forall|j: int| #![trigger s[j]] 0 <= j < i ==> !(s[j] == ':' && s[j + 1] == ':'),
    ensures
        gap_of(s) == Some(i),
    decreases s.len(),
{
    if i > 0 {
        let rest = s.drop_first();
        assert forall|j: int| #![trigger rest[j]] 0 <= j < i - 1 implies !(rest[j] == ':' && rest[j
            + 1] == ':') by {
            assert(rest[j] == s[j + 1]);
        }
        assert(!(s[0] == ':' && s[1] == ':'));
        lemma_gap_at(rest, i - 1);
    }
}

pub(crate) proof fn lemma_no_gap(s: Seq<char>)
    requires
        forall|j: int| #![trigger s[j]] 0 <= j < s.len() - 1 ==> !(s[j] == ':' && s[j + 1] == ':'),
    ensures
        gap_of(s) is None,
    decreases s.len(),
{
    if s.len() >= 2 {
        let rest = s.drop_first();
        assert forall|j: int| #![trigger rest[j]] 0 <= j < rest.len() - 1 implies !(rest[j] == ':'
            && rest[j + 1] == ':') by {
            assert(rest[j] == s[j + 1]);
        }
        assert(!(s[0] == ':' && s[1] == ':'));
        lemma_no_gap(rest);
    }
}

/// Finds the first pair of neighbouring colons.
fn find_gap(chars: &Vec<char>) -> (r: Option<usize>)
    ensures
        r is Some <==> gap_of(chars@) is Some,
        r is Some ==> gap_of(chars@) == Some(r->0 as int) && r->0 + 2 <= chars@.len(),
{
    if chars.len() < 2 {
        return None;
    }
    let mut i: usize = 0;
    while i < chars.len() - 1
        invariant
            2 <= chars@.len(),
            i <= chars@.len() - 1,
            forall|j: int| #![trigger chars@[j]]
                0 <= j < i ==> !(chars@[j] == ':' && chars@[j + 1] == ':'),
        decreases chars@.len() - i,
    {
        if chars[i] == ':' && chars[i + 1] == ':' {
            proof {
                lemma_gap_at(chars@, i as int);
            }
            return Some(i);
        }
        i += 1;
    }
    proof {
        lemma_no_gap(chars@);
    }
    None
}

/// The eight segments of `head`, zeros and `tail`.
fn filled(head: &Vec<u16>, tail: &Vec<u16>) -> (r: [u16; 8])
    requires
        head@.len() + tail@.len() <= 8,
    ensures
        r@ == head@ + zeros(8 - head@.len() - tail@.len()) + tail@,
{
    let mut all: [u16; 8] = [0, 0, 0, 0, 0, 0, 0, 0];
    let mut i: usize = 0;
    while i < head.len()
        invariant
            i <= head@.len() <= 8,
            forall|j: int| 0 <= j < i ==> all@[j] == head@[j],
            forall|j: int| i <= j < 8 ==> all@[j] == 0,
        decreases head@.len() - i,
    {
        all[i] = head[i];
        i += 1;
    }
    let start = 8 - tail.len();
    let mut k: usize = 0;
    while k < tail.len()
        invariant
            head@.len() + tail@.len() <= 8,
            start == 8 - tail@.len(),
            k <= tail@.len(),
            forall|j: int| 0 <= j < head@.len() ==> all@[j] == head@[j],
            forall|j: int| head@.len() <= j < start ==> all@[j] == 0,
            forall|j: int| 0 <= j < k ==> all@[start + j] == tail@[j],
        decreases tail@.len() - k,
    {
        all[start + k] = tail[k];
        k += 1;
    }
    proof {
        let whole = head@ + zeros(8 - head@.len() - tail@.len()) + tail@;
        assert forall|j: int| 0 <= j < 8 implies all@[j] == whole[j] by {
            if j >= start {
                assert(all@[start + (j - start)] == tail@[j - start]);
            }
        }
        assert(all@ =~= whole);
    }
    all
}

/// Reads an IPv6 address.
fn read_ipv6(s: &str) -> (r: Option<[u16; 8]>)
    ensures
        r is Some <==> ipv6_of(s@) is Some,
        r is Some ==> (r->0)@ == ipv6_of(s@)->0,
{
    let chars = text::chars_of(s);
    let none: Vec<u16> = Vec::new();
    match find_gap(&chars) {
        None => match read_run(s, true) {
            Some(all) => if all.len() == 8 {
                let r = filled(&all, &none);
                proof {
                    assert(r@ =~= all@);
                }
                Some(r)
            } else {
                None
            },
            None => None,
        },
        Some(i) => {
            let front = s.substring_char(0, i);
            let back = s.substring_char(i + 2, chars.len());
            proof {
                assert(front@ =~= s@.take(i as int));
                assert(back@ =~= s@.skip(i + 2));
            }
            match (read_run(front, false), read_run(back, true)) {
                (Some(head), Some(tail)) => if head.len() <= 7 && tail.len() <= 7 - head.len() {
                    Some(filled(&head, &tail))
                } else {
                    None
                },
                _ => None,
            }
        },
    }
}

impl IpAddr {
    /// Reads an address from its whole text.
    pub fn parse(s: &str) -> (r: Option<IpAddr>)
        ensures
            r is Some <==> ip_of(s@) is Some,
            r is Some ==> (r->0)@ == ip_of(s@)->0,
    {
        match read_ipv4(s) {
            Some(octets) => Some(IpAddr::V4(octets)),
            None => match read_ipv6(s) {
                Some(segments) => Some(IpAddr::V6(segments)),
                None => None,
            },
        }
    }
}

/// The decimal texts of `octets`.
pub open spec fn decimals(octets: Seq<u8>) -> Seq<Seq<char>> {
    octets.map_values(|octet: u8| text::decimal(octet as nat))
}

/// The hexadecimal texts of `segments`.
pub open spec fn hexes(segments: Seq<u16>) -> Seq<Seq<char>> {
    segments.map_values(|segment: u16| text::hexadecimal(segment as nat))
}

/// Decimal parts with dots between them.
pub open spec fn dotted(octets: Seq<u8>) -> Seq<char> {
    text::joined(decimals(octets), seq!['.'])
}

/// Hexadecimal parts with colons between them.
pub open spec fn coloned(segments: Seq<u16>) -> Seq<char> {
    text::joined(hexes(segments), seq![':'])
}

/// How many zeros follow one another in `segments` from position `i` on.
pub open spec fn zero_run(segments: Seq<u16>, i: int) -> nat
    decreases segments.len() - i,
{
    if 0 <= i < segments.len() && segments[i] == 0 {
        1 + zero_run(segments, i + 1)
    } else {
        0
    }
}

/// The first of the positions below `n` with the longest run of zeros.
pub open spec fn longest_run_start(segments: Seq<u16>, n: nat) -> int
    decreases n,
{
    if n <= 1 {
        0
    } else {
        let before = longest_run_start(segments, (n - 1) as nat);
        if zero_run(segments, n - 1) > zero_run(segments, before) {
            n - 1
        } else {
            before
        }
    }
}

/// Whether the segments are those of an IPv4-mapped address, `::ffff:a.b.c.d`.
pub open spec fn is_mapped(segments: Seq<u16>) -> bool {
    &&& forall|i: int| 0 <= i < 5 ==> segments[i] == 0
    &&& segments[5] == 0xffff
}

/// The IPv4 address inside an IPv4-mapped address.
pub open spec fn mapped_octets(segments: Seq<u16>) -> Seq<u8> {
    seq![
        (segments[6] / 256) as u8,
        (segments[6] % 256) as u8,
        (segments[7] / 256) as u8,
        (segments[7] % 256) as u8,
    ]
}

/// The canonical text of an IPv6 address: an IPv4-mapped address ends in its dotted form; in any
/// other the first longest run of at least two zeros is written as a pair of colons.
pub open spec fn ipv6_text(segments: Seq<u16>) -> Seq<char> {
    let start = longest_run_start(segments, 8);
    let len = zero_run(segments, start);
    if is_mapped(segments) {
        "::ffff:"@ + dotted(mapped_octets(segments))
    } else if len > 1 {
        coloned(segments.take(start)) + "::"@ + coloned(segments.skip(start + len))
    } else {
        coloned(segments)
    }
}

/// The canonical text of an address.
pub open spec fn ip_text(ip: IpModel) -> Seq<char> {
    match ip {
        IpModel::V4(octets) => dotted(octets),
        IpModel::V6(segments) => ipv6_text(segments),
    }
}

/// What the public may see of an address: the first 24 bits of an IPv4 address, also of one
/// that is mapped into IPv6, and the first 48 bits of any other IPv6 address.
pub open spec fn mask_of(ip: IpModel) -> Seq<char> {
    match ip {
        IpModel::V4(octets) => dotted(octets.take(3)) + ".*"@,
        IpModel::V6(segments) => if is_mapped(segments) {
            dotted(mapped_octets(segments).take(3)) + ".*"@
        } else {
            coloned(segments.take(3)) + "::*"@
        },
    }
}

/// Writes the first `n` of `octets` with dots between them.
fn write_dotted(octets: &[u8; 4], n: usize) -> (r: String)
    requires
        n <= 4,
    ensures
        r@ == dotted(octets@.take(n as int)),
{
    let mut parts: Vec<String> = Vec::new();
    let mut i: usize = 0;
    while i < n
        invariant
            i <= n <= 4,
            text::views(parts@) == decimals(octets@.take(i as int)),
        decreases n - i,
    {
        let part = text::decimal_text(octets[i] as u128);
        let ghost before = text::views(parts@);
        parts.push(part);
        proof {
            assert(text::views(parts@) =~= before.push(part@));
            assert(decimals(octets@.take(i + 1)) =~= decimals(octets@.take(i as int)).push(part@));
        }
        i += 1;
    }
    let sep = ".";
    proof {
        reveal_strlit(".");
        assert(sep@ =~= seq!['.']);
    }
    text::join(&parts, sep)
}

/// Writes the segments from `from` up to `to` with colons between them.
fn write_coloned(segments: &[u16; 8], from: usize, to: usize) -> (r: String)
    requires
        from <= to <= 8,
    ensures
        r@ == coloned(segments@.subrange(from as int, to as int)),
{
    let mut parts: Vec<String> = Vec::new();
    let mut i: usize = from;
    proof {
        assert(text::views(parts@) =~= hexes(segments@.subrange(from as int, from as int)));
    }
    while i < to
        invariant
            from <= i <= to <= 8,
            text::views(parts@) == hexes(segments@.subrange(from as int, i as int)),
        decreases to - i,
    {
        let part = text::hexadecimal_text(segments[i] as u128);
        let ghost before = text::views(parts@);
        parts.push(part);
        proof {
            assert(text::views(parts@) =~= before.push(part@));
            assert(hexes(segments@.subrange(from as int, i + 1)) =~= hexes(
                segments@.subrange(from as int, i as int),
            ).push(part@));
        }
        i += 1;
    }
    let sep = ":";
    proof {
        reveal_strlit(":");
        assert(sep@ =~= seq![':']);
    }
    text::join(&parts, sep)
}

/// How many zeros follow one another from position `i` on.
fn count_zeros(segments: &[u16; 8], i: usize) -> (r: usize)
    requires
        i <= 8,
    ensures
        r == zero_run(segments@, i as int),
        i + r <= 8,
    decreases 8 - i,
{
    if i < 8 && segments[i] == 0 {
        1 + count_zeros(segments, i + 1)
    } else {
        0
    }
}

/// The first position with the longest run of zeros.
fn find_longest_run(segments: &[u16; 8]) -> (r: usize)
    ensures
        r == longest_run_start(segments@, 8),
        r < 8,
{
    let mut best: usize = 0;
    let mut i: usize = 1;
    while i < 8
        invariant
            1 <= i <= 8,
            best < 8,
            best == longest_run_start(segments@, i as nat),
        decreases 8 - i,
    {
        if count_zeros(segments, i) > count_zeros(segments, best) {
            best = i;
        }
        i += 1;
    }
    best
}

/// The IPv4 address inside an IPv4-mapped address.
fn ipv4_mapped(segments: &[u16; 8]) -> (r: Option<[u8; 4]>)
    ensures
        r is Some <==> is_mapped(segments@),
        r is Some ==> (r->0)@ == mapped_octets(segments@),
{
    if segments[0] == 0 && segments[1] == 0 && segments[2] == 0 && segments[3] == 0 && segments[4]
        == 0 && segments[5] == 0xffff {
        let octets = [
            (segments[6] / 256) as u8,
            (segments[6] % 256) as u8,
            (segments[7] / 256) as u8,
            (segments[7] % 256) as u8,
        ];
        proof {
            assert(octets@ =~= mapped_octets(segments@));
        }
        Some(octets)
    } else {
        None
    }
}

/// The text `a` followed by `b`.
fn concat(a: String, b: &str) -> (r: String)
    ensures
        r@ == a@ + b@,
{
    let mut out = a;
    out.append(b);
    out
}

impl IpAddr {
    /// Writes the canonical text of the address.
    pub fn to_text(&self) -> (r: String)
        ensures
            r@ == ip_text(self@),
    {
        match self {
            IpAddr::V4(octets) => {
                proof {
                    assert(octets@.take(4) =~= octets@);
                }
                write_dotted(octets, 4)
            },
            IpAddr::V6(segments) => {
                if let Some(octets) = ipv4_mapped(segments) {
                    proof {
                        assert(octets@.take(4) =~= octets@);
                    }
                    return concat("::ffff:".to_owned(), write_dotted(&octets, 4).as_str());
                }
                let start = find_longest_run(segments);
                let len = count_zeros(segments, start);
                if len > 1 {
                    proof {
                        assert(segments@.subrange(0, start as int) =~= segments@.take(
                            start as int,
                        ));
                        assert(segments@.subrange(start + len, 8) =~= segments@.skip(start + len));
                    }
                    concat(
                        concat(write_coloned(segments, 0, start), "::"),
                        write_coloned(segments, start + len, 8).as_str(),
                    )
                } else {
                    proof {
                        assert(segments@.subrange(0, 8) =~= segments@);
                    }
                    write_coloned(segments, 0, 8)
                }
            },
        }
    }

    /// What the public may see of the address.
    pub fn masked(&self) -> (r: String)
        ensures
            r@ == mask_of(self@),
    {
        match self {
            IpAddr::V4(octets) => concat(write_dotted(octets, 3), ".*"),
            IpAddr::V6(segments) => match ipv4_mapped(segments) {
                Some(octets) => concat(write_dotted(&octets, 3), ".*"),
                None => {
                    proof {
                        assert(segments@.subrange(0, 3) =~= segments@.take(3));
                    }
                    concat(write_coloned(segments, 0, 3), "::*")
                },
            },
        }
    }
}

/// The text under which an address may be shown to the public; `None` where the input, apart
/// from surrounding white space, is no address.
pub fn mask_ip_for_public(input: &str) -> (r: Option<String>)
    ensures
        match ip_of(text::trimmed(input@)) {
            Some(ip) => r is Some && (r->0)@ == mask_of(ip),
            None => r is None,
        },
{
    match IpAddr::parse(text::trim(input)) {
        Some(ip) => Some(ip.masked()),
        None => None,
    }
}

} // verus!
