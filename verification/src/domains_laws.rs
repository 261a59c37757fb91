//! What holds of every line and every target.
use vstd::prelude::*;
use vstd::string::*;

use crate::config;
use crate::config_laws;
use crate::domains;
use crate::text;
use crate::text_laws;
use crate::text_lemmas;

verus! {

/// Whether `url` begins with the scheme of a web address.
pub open spec fn has_scheme(url: Seq<char>) -> bool {
    "https://"@.is_prefix_of(url) || "http://"@.is_prefix_of(url)
}

/// The address of a line is what is left without the white space and the slashes around it.
pub proof fn law_address_of_a_line(a: Seq<char>, url: Seq<char>, slashes: nat, b: Seq<char>)
    requires
        text_laws::is_blank(a),
        text_laws::is_blank(b),
        has_scheme(url),
        url.last() != '/',
        slashes > 0 || !text::white_space(url.last()),
    ensures
        domains::base_url_of(a + (url + text_laws::repeated('/', slashes)) + b) == Some(url),
{
    reveal_strlit("https://");
    reveal_strlit("http://");
    let core = url + text_laws::repeated('/', slashes);
    if "https://"@.is_prefix_of(url) {
        assert(url[0] == "https://"@[0]);
    } else {
        assert(url[0] == "http://"@[0]);
    }
    assert(core[0] == url[0]);
    if slashes > 0 {
        assert(core[core.len() - 1] == '/');
    } else {
        assert(core[core.len() - 1] == url.last());
    }
    text_laws::law_trimming(a, core, b);
    text_laws::law_trimming_at_the_end(url, '/', slashes);
}

/// Nothing but an address with its scheme, with white space and slashes around it, is the address
/// of a line.
pub proof fn law_no_other_address(input: Seq<char>)
    ensures
        domains::base_url_of(input) matches Some(url) ==> {
            &&& has_scheme(url)
            &&& url.last() != '/'
            &&& exists|a: Seq<char>, n: nat, b: Seq<char>|
                text_laws::is_blank(a) && text_laws::is_blank(b) && input == #[trigger] (a + (url
                    + text_laws::repeated('/', n)) + b)
        },
{
    let t = text::trimmed(input);
    let slash = text::the_char('/');
    text_laws::lemma_tight_core(input);
    text_lemmas::lemma_trim_end(t, slash);
    text_laws::lemma_trimmed_off_end(t, slash);
    config_laws::law_base_url_shape(input);
    if let Some(url) = domains::base_url_of(input) {
        let n = (t.len() - url.len()) as nat;
        assert forall|i: int| url.len() <= i < t.len() implies t[i] == '/' by {
            assert(slash(t[i]));
        }
        assert(t =~= url + text_laws::repeated('/', n));
        let (a, b) = choose|a: Seq<char>, b: Seq<char>|
            text_laws::is_blank(a) && text_laws::is_blank(b) && input == #[trigger] (a
                + text::trimmed(input) + b);
        assert(input == a + (url + text_laws::repeated('/', n)) + b);
    }
}

/// The host is what follows the scheme.
pub proof fn law_host_follows_scheme(host: Seq<char>)
    ensures
        domains::without_scheme("https://"@ + host) == host,
        domains::without_scheme("http://"@ + host) == host,
        !has_scheme(host) ==> domains::without_scheme(host) == host,
{
    reveal_strlit("https://");
    reveal_strlit("http://");
    let secure = "https://"@ + host;
    let plain = "http://"@ + host;
    assert(secure.take(8) =~= "https://"@);
    assert(secure.skip(8) =~= host);
    assert(plain[4] == ':');
    if "https://"@.is_prefix_of(plain) {
        assert(plain[4] == "https://"@[4]);
    }
    assert(plain.take(7) =~= "http://"@);
    assert(plain.skip(7) =~= host);
}

/// A given text counts without the white space around it, and only where anything is left.
pub proof fn law_cleaning(a: Seq<char>, t: Seq<char>, b: Seq<char>)
    requires
        text_laws::is_blank(a),
        text_laws::is_blank(b),
        text_laws::is_tight(t),
    ensures
        t.len() > 0 ==> domains::non_empty_of(Some(a + t + b)) == Some(t),
        t.len() == 0 ==> domains::non_empty_of(Some(a + t + b)) is None,
        domains::non_empty_of(None) is None,
{
    text_laws::law_trimming(a, t, b);
}

/// A tight text that is not empty counts as it is.
pub proof fn law_tight_text_counts(t: Seq<char>)
    requires
        text_laws::is_tight(t),
        t.len() > 0,
    ensures
        domains::non_empty_of(Some(t)) == Some(t),
{
    text_laws::law_tight_text_stays(t);
}

/// A blank text counts for nothing.
pub proof fn law_blank_text_counts_for_nothing(t: Seq<char>)
    requires
        text_laws::is_blank(t),
    ensures
        domains::non_empty_of(Some(t)) is None,
{
    text_laws::law_blank_text_is_trimmed_away(t);
}

/// A canonical name is shown without white space, scheme and trailing slashes; without one a dash
/// is shown.
pub proof fn law_canonical_name(
    a: Seq<char>,
    scheme: Seq<char>,
    inner: Seq<char>,
    name: Seq<char>,
    gap: Seq<char>,
    slashes: nat,
    b: Seq<char>,
)
    requires
        text_laws::is_blank(a),
        text_laws::is_blank(inner),
        text_laws::is_blank(gap),
        text_laws::is_blank(b),
        text_laws::is_tight(name),
        scheme == "https://"@ || scheme == "http://"@ || (scheme.len() == 0 && inner.len() == 0
            && !has_scheme(name + gap + text_laws::repeated('/', slashes))),
        name.len() > 0,
        gap.len() > 0 || name.last() != '/',
        slashes > 0 || gap.len() == 0,
    ensures
        domains::cname_of(
            Some(a + (scheme + (inner + name + gap + text_laws::repeated('/', slashes))) + b),
        ) == name,
{
    reveal_strlit("https://");
    reveal_strlit("http://");
    let shown = inner + name + gap;
    let rest = shown + text_laws::repeated('/', slashes);
    let given = scheme + rest;
    assert(given[0] == (if scheme.len() > 0 {
        'h'
    } else {
        name[0]
    }));
    if slashes > 0 {
        assert(given[given.len() - 1] == '/');
    } else {
        assert(given[given.len() - 1] == name[name.len() - 1]);
    }
    law_cleaning(a, given, b);
    law_host_follows_scheme(rest);
    if scheme.len() == 0 {
        assert(given =~= rest);
        assert(rest =~= name + gap + text_laws::repeated('/', slashes));
    }
    assert(domains::without_scheme(given) == rest);
    if gap.len() > 0 {
        assert(shown.last() == gap[gap.len() - 1]);
    } else {
        assert(shown.last() == name.last());
    }
    text_laws::law_trimming_at_the_end(shown, '/', slashes);
    text_laws::law_trimming(inner, name, gap);
}

/// Where no canonical name is given, or nothing of it is left, a dash is shown.
pub proof fn law_no_canonical_name(
    a: Seq<char>,
    scheme: Seq<char>,
    inner: Seq<char>,
    slashes: nat,
    b: Seq<char>,
)
    requires
        text_laws::is_blank(a),
        text_laws::is_blank(inner),
        text_laws::is_blank(b),
        scheme == "https://"@ || scheme == "http://"@ || (scheme.len() == 0 && inner.len() == 0),
        slashes > 0 || inner.len() == 0,
    ensures
        domains::cname_of(None) == "-"@,
        domains::cname_of(
            Some(a + (scheme + (inner + text_laws::repeated('/', slashes))) + b),
        ) == "-"@,
{
    reveal_strlit("https://");
    reveal_strlit("http://");
    let rest = inner + text_laws::repeated('/', slashes);
    let given = scheme + rest;
    if given.len() > 0 {
        assert(given[0] == 'h' || given[0] == '/');
        assert(given[given.len() - 1] == '/');
    }
    law_cleaning(a, given, b);
    law_host_follows_scheme(rest);
    if scheme.len() == 0 {
        assert(given =~= rest);
        if has_scheme(rest) {
            if "https://"@.is_prefix_of(rest) {
                assert(rest[0] == "https://"@[0]);
            } else {
                assert(rest[0] == "http://"@[0]);
            }
        }
    }
    if inner.len() > 0 {
        assert(text::white_space(inner[inner.len() - 1]));
    }
    text_laws::law_trimming_at_the_end(inner, '/', slashes);
    text_laws::law_blank_text_is_trimmed_away(inner);
}

/// A key holds nothing of other characters than letters and digits.
pub proof fn law_slug_of_other_characters(s: Seq<char>)
    requires
        forall|i: int| 0 <= i < s.len() ==> !text::ascii_alphanumeric(#[trigger] s[i]),
    ensures
        domains::slug_of(s).len() == 0,
{
    lemma_dashed_others(s);
    let p = text::the_char('-');
    let d = domains::dashed(s);
    text::lemma_trim_start_at(d, p, d.len() as int);
}

proof fn lemma_dashed_others(s: Seq<char>)
    requires
        forall|i: int| 0 <= i < s.len() ==> !text::ascii_alphanumeric(#[trigger] s[i]),
    ensures
        domains::dashed(s).len() <= 1,
        domains::dashed(s).len() == 1 ==> domains::dashed(s)[0] == '-',
    decreases s.len(),
{
    if s.len() > 0 {
        assert forall|i: int| 0 <= i < s.drop_last().len() implies !text::ascii_alphanumeric(
            #[trigger] s.drop_last()[i],
        ) by {
            assert(!text::ascii_alphanumeric(s[i]));
        }
        assert(!text::ascii_alphanumeric(s[s.len() - 1]));
        lemma_dashed_others(s.drop_last());
    }
}

/// Letters and digits become a key in lower case.
pub proof fn law_slug_of_letters_and_digits(s: Seq<char>)
    requires
        forall|i: int| 0 <= i < s.len() ==> text::ascii_alphanumeric(#[trigger] s[i]),
    ensures
        domains::slug_of(s) == text::ascii_lowered(s),
{
    lemma_dashed_word(s);
    let low = text::ascii_lowered(s);
    assert(low.len() > 0 ==> low[0] != '-' && low.last() != '-') by {
        if s.len() > 0 {
            assert(text::ascii_alphanumeric(s[0]));
            assert(text::ascii_alphanumeric(s[s.len() - 1]));
        }
    }
}

proof fn lemma_dashed_word(s: Seq<char>)
    requires
        forall|i: int| 0 <= i < s.len() ==> text::ascii_alphanumeric(#[trigger] s[i]),
    ensures
        domains::dashed(s) == text::ascii_lowered(s),
    decreases s.len(),
{
    if s.len() > 0 {
        let rest = s.drop_last();
        assert forall|i: int| 0 <= i < rest.len() implies text::ascii_alphanumeric(
            #[trigger] rest[i],
        ) by {
            assert(text::ascii_alphanumeric(s[i]));
        }
        lemma_dashed_word(rest);
        assert(text::ascii_alphanumeric(s[s.len() - 1]));
        assert(text::ascii_lowered(s) =~= text::ascii_lowered(rest).push(
            text::ascii_lower(s.last()),
        ));
    } else {
        assert(domains::dashed(s) =~= text::ascii_lowered(s));
    }
}

/// What is left of `d` without a dash at its start.
spec fn undashed(d: Seq<char>) -> Seq<char> {
    if d.len() > 0 && d[0] == '-' {
        d.drop_first()
    } else {
        d
    }
}

/// `d` with a dash at its end.
spec fn ends_dashed(d: Seq<char>) -> Seq<char> {
    if d.len() > 0 && d.last() == '-' {
        d
    } else {
        d.push('-')
    }
}

proof fn lemma_dashed_split(a: Seq<char>, c: char, b: Seq<char>)
    requires
        !text::ascii_alphanumeric(c),
    ensures
        domains::dashed(a + seq![c] + b) == ends_dashed(domains::dashed(a)) + undashed(
            domains::dashed(b),
        ),
    decreases b.len(),
{
    let s = a + seq![c] + b;
    let front = ends_dashed(domains::dashed(a));
    if b.len() == 0 {
        assert(s.drop_last() =~= a);
        assert(domains::dashed(s) =~= front + undashed(domains::dashed(b)));
    } else {
        let b0 = b.drop_last();
        lemma_dashed_split(a, c, b0);
        assert(s.drop_last() =~= a + seq![c] + b0);
        assert(s.last() == b.last());
        let d0 = domains::dashed(b0);
        let before = front + undashed(d0);
        config_laws::lemma_dashed(b0);
        if text::ascii_alphanumeric(b.last()) {
            assert(domains::dashed(s) =~= front + undashed(domains::dashed(b)));
        } else {
            if undashed(d0).len() > 0 {
                assert(before.last() == undashed(d0).last());
                assert(undashed(d0).last() == d0.last());
            } else {
                assert(before =~= front);
            }
            assert(domains::dashed(s) =~= front + undashed(domains::dashed(b)));
        }
    }
}

/// A dashed text is its slug with at most a dash at either end.
proof fn lemma_dashed_ends(s: Seq<char>) -> (ends: (Seq<char>, Seq<char>))
    ensures
        domains::dashed(s) == ends.0 + domains::slug_of(s) + ends.1,
        ends.0.len() == 0 || ends.0 == seq!['-'],
        ends.1.len() == 0 || ends.1 == seq!['-'],
        domains::slug_of(s).len() == 0 ==> ends.1.len() == 0,
        config_laws::is_slug(domains::slug_of(s)),
{
    let d = domains::dashed(s);
    let p = text::the_char('-');
    config_laws::lemma_dashed(s);
    config_laws::law_slug_shape(s);
    let t = text::trim_start_by(d, p);
    let slug = domains::slug_of(s);
    text_lemmas::lemma_trim_start(d, p);
    text_lemmas::lemma_trim_end(t, p);
    text_laws::lemma_trimmed_off_start(d, p);
    text_laws::lemma_trimmed_off_end(t, p);
    let n = d.len() - t.len();
    let first = d.take(n as int);
    let last = t.skip(slug.len() as int);
    if n >= 2 {
        assert(p(d[0]) && p(d[1]));
    }
    if n == 1 {
        assert(p(d[0]));
        assert(first =~= seq!['-']);
    }
    if last.len() >= 2 {
        let k = slug.len() as int;
        assert(p(t[k]) && p(t[k + 1]));
        assert(t[k] == d[k + n] && t[k + 1] == d[k + 1 + n]);
    }
    if last.len() == 1 {
        assert(p(t[slug.len() as int]));
        assert(last =~= seq!['-']);
    }
    if slug.len() == 0 && last.len() > 0 {
        assert(p(t[0]));
    }
    assert(d =~= first + slug + last);
    (first, last)
}

proof fn lemma_dashed_front(a: Seq<char>) -> (m: nat)
    ensures
        ends_dashed(domains::dashed(a)) == (if domains::slug_of(a).len() == 0 {
            seq!['-']
        } else {
            text_laws::repeated('-', m) + domains::slug_of(a) + seq!['-']
        }),
        config_laws::is_slug(domains::slug_of(a)),
{
    let x = domains::slug_of(a);
    let (a0, a1) = lemma_dashed_ends(a);
    let da = domains::dashed(a);
    if x.len() > 0 {
        if a1.len() == 0 {
            assert(da.last() == x.last());
        } else {
            assert(da.last() == '-');
        }
        assert(a0 =~= text_laws::repeated('-', a0.len()));
        assert(ends_dashed(da) =~= text_laws::repeated('-', a0.len()) + x + seq!['-']);
    } else {
        assert(da =~= a0);
        assert(ends_dashed(da) =~= seq!['-']);
    }
    a0.len()
}

proof fn lemma_dashed_back(b: Seq<char>) -> (n: nat)
    ensures
        undashed(domains::dashed(b)) == domains::slug_of(b) + text_laws::repeated('-', n),
        config_laws::is_slug(domains::slug_of(b)),
{
    let y = domains::slug_of(b);
    let (b0, b1) = lemma_dashed_ends(b);
    let db = domains::dashed(b);
    if b0.len() > 0 {
        assert(db[0] == '-');
    } else if y.len() > 0 {
        assert(db[0] == y[0]);
    } else {
        assert(db =~= b1);
    }
    assert(b1 =~= text_laws::repeated('-', b1.len()));
    assert(undashed(db) =~= y + text_laws::repeated('-', b1.len()));
    b1.len()
}

/// Any other character stands for a dash between what it separates, where there is something on
/// either side.
pub proof fn law_slug_of_parts(a: Seq<char>, c: char, b: Seq<char>)
    requires
        !text::ascii_alphanumeric(c),
    ensures
        domains::slug_of(a + seq![c] + b) == (if domains::slug_of(a).len() == 0 {
            domains::slug_of(b)
        } else if domains::slug_of(b).len() == 0 {
            domains::slug_of(a)
        } else {
            domains::slug_of(a) + seq!['-'] + domains::slug_of(b)
        }),
{
    let x = domains::slug_of(a);
    let y = domains::slug_of(b);
    lemma_dashed_split(a, c, b);
    let m = lemma_dashed_front(a);
    let n = lemma_dashed_back(b);
    let d = domains::dashed(a + seq![c] + b);
    if x.len() == 0 {
        assert(d =~= text_laws::repeated('-', 1) + y + text_laws::repeated('-', n));
        text_laws::law_trimming_a_character('-', 1, y, n);
    } else if y.len() == 0 {
        assert(d =~= text_laws::repeated('-', m) + x + text_laws::repeated('-', n + 1));
        text_laws::law_trimming_a_character('-', m, x, n + 1);
    } else {
        let core = x + seq!['-'] + y;
        assert(d =~= text_laws::repeated('-', m) + core + text_laws::repeated('-', n));
        assert(core[0] == x[0] && core.last() == y.last());
        text_laws::law_trimming_a_character('-', m, core, n);
    }
}

proof fn lemma_targets_prefix(items: Seq<config::ItemModel>, path: Seq<char>, n: int)
    requires
        0 <= n <= items.len(),
        domains::targets_of(items, path) is Ok,
    ensures
        domains::targets_of(items.take(n), path) matches Ok(front) && front
            == (domains::targets_of(items, path)->Ok_0).take(n),
    decreases items.len() - n,
{
    config_laws::law_targets_are_distinct(items, path);
    let all = domains::targets_of(items, path)->Ok_0;
    if n == items.len() {
        assert(items.take(n) =~= items);
        assert(all.take(n) =~= all);
    } else {
        lemma_targets_prefix(items, path, n + 1);
        assert(items.take(n + 1).drop_last() =~= items.take(n));
        config_laws::law_targets_are_distinct(items.take(n), path);
        let front = domains::targets_of(items.take(n), path)->Ok_0;
        let target = domains::next_target(front, items.take(n + 1).last(), path)->Ok_0;
        assert(all.take(n + 1) == front.push(target));
        assert(front =~= all.take(n)) by {
            assert forall|j: int| 0 <= j < n implies front[j] == all[j] by {
                assert(front.push(target)[j] == all.take(n + 1)[j]);
            }
        }
    }
}

proof fn lemma_target_at(items: Seq<config::ItemModel>, path: Seq<char>, i: int)
    requires
        0 <= i < items.len(),
        domains::targets_of(items, path) is Ok,
    ensures
        domains::targets_of(items, path) matches Ok(targets) && targets.len() == items.len()
            && domains::next_target(targets.take(i), items[i], path) == Ok::<
            config::TargetModel,
            config::ConfigErrorModel,
        >(targets[i]),
{
    config_laws::law_targets_are_distinct(items, path);
    let targets = domains::targets_of(items, path)->Ok_0;
    lemma_targets_prefix(items, path, i);
    lemma_targets_prefix(items, path, i + 1);
    assert(items.take(i + 1).drop_last() =~= items.take(i));
    assert(items.take(i + 1).last() == items[i]);
    assert(targets.take(i + 1).last() == targets[i]);
    let made = domains::next_target(targets.take(i), items[i], path)->Ok_0;
    assert(targets.take(i + 1) == targets.take(i).push(made));
    assert(targets.take(i).push(made)[i] == made);
}

/// A target is labelled with the configured name, whole, without the white space around it; where
/// that is absent or blank, with its host.
pub proof fn law_target_label(
    items: Seq<config::ItemModel>,
    path: Seq<char>,
    i: int,
    a: Seq<char>,
    name: Seq<char>,
    b: Seq<char>,
)
    requires
        0 <= i < items.len(),
        text_laws::is_blank(a),
        text_laws::is_blank(b),
        text_laws::is_tight(name),
    ensures
        domains::targets_of(items, path) matches Ok(targets) ==> {
            &&& items[i].name == Some(a + name + b) && name.len() > 0 ==> targets[i].label == name
            &&& items[i].name == Some(a + name + b) && name.len() == 0 ==> targets[i].label
                == targets[i].host
            &&& items[i].name is None ==> targets[i].label == targets[i].host
        },
{
    if domains::targets_of(items, path) is Ok {
        lemma_target_at(items, path, i);
        law_cleaning(a, name, b);
    }
}

/// A configured name without white space around it is the label of its target, and a blank one is
/// as good as none.
pub proof fn law_tight_name_is_the_label(items: Seq<config::ItemModel>, path: Seq<char>, i: int)
    requires
        0 <= i < items.len(),
    ensures
        domains::targets_of(items, path) matches Ok(targets) ==> (match items[i].name {
            Some(name) => {
                &&& name.len() > 0 && text_laws::is_tight(name) ==> targets[i].label == name
                &&& text_laws::is_blank(name) ==> targets[i].label == targets[i].host
            },
            None => targets[i].label == targets[i].host,
        }),
{
    if domains::targets_of(items, path) is Ok {
        lemma_target_at(items, path, i);
        if let Some(name) = items[i].name {
            if text_laws::is_blank(name) {
                law_blank_text_counts_for_nothing(name);
            } else if name.len() > 0 && text_laws::is_tight(name) {
                law_tight_text_counts(name);
            }
        }
    }
}

/// The addresses of a target are that of its line, followed by the path of the trace and by that
/// of the file; its host is what follows the scheme.
pub proof fn law_target_addresses(
    items: Seq<config::ItemModel>,
    path: Seq<char>,
    i: int,
    scheme: Seq<char>,
    host: Seq<char>,
    slashes: nat,
    a: Seq<char>,
    b: Seq<char>,
)
    requires
        0 <= i < items.len(),
        text_laws::is_blank(a),
        text_laws::is_blank(b),
        scheme == "https://"@ || scheme == "http://"@,
        host.len() > 0,
        host.last() != '/',
        slashes > 0 || !text::white_space(host.last()),
        items[i].url == a + (scheme + host + text_laws::repeated('/', slashes)) + b,
    ensures
        domains::targets_of(items, path) matches Ok(targets) ==> {
            &&& targets[i].host == host
            &&& targets[i].trace_url == scheme + host + "/cdn-cgi/trace"@
            &&& targets[i].download_url == scheme + host + path
        },
{
    let url = scheme + host;
    reveal_strlit("https://");
    reveal_strlit("http://");
    assert(url.take(scheme.len() as int) =~= scheme);
    assert(scheme.is_prefix_of(url));
    assert(url.last() == host.last());
    law_address_of_a_line(a, url, slashes, b);
    law_host_follows_scheme(host);
    if domains::targets_of(items, path) is Ok {
        lemma_target_at(items, path, i);
    }
}

/// A target shows the canonical name of its line as any canonical name is shown.
pub proof fn law_target_canonical_name(
    items: Seq<config::ItemModel>,
    path: Seq<char>,
    i: int,
    name: Seq<char>,
)
    requires
        0 <= i < items.len(),
        name.len() > 0,
        text_laws::is_tight(name),
        name.last() != '/',
        !has_scheme(name),
    ensures
        domains::targets_of(items, path) matches Ok(targets) ==> {
            &&& items[i].cname == Some(name) ==> targets[i].cname == name
            &&& items[i].cname == Some("https://"@ + name) ==> targets[i].cname == name
            &&& items[i].cname == Some(name + seq!['/']) && !has_scheme(name + seq!['/'])
                ==> targets[i].cname == name
            &&& items[i].cname is None ==> targets[i].cname == "-"@
            &&& targets[i].cname == domains::cname_of(items[i].cname)
        },
{
    if domains::targets_of(items, path) is Ok {
        lemma_target_at(items, path, i);
        let none = Seq::<char>::empty();
        let s0 = text_laws::repeated('/', 0);
        let s1 = text_laws::repeated('/', 1);
        assert(s1 =~= seq!['/']);
        assert(name + none + s0 =~= name);
        assert(name + none + s1 =~= name + seq!['/']);
        law_canonical_name(none, none, none, name, none, 0, none);
        law_canonical_name(none, "https://"@, none, name, none, 0, none);
        assert(none + (none + (none + name + none + s0)) + none =~= name);
        assert(none + ("https://"@ + (none + name + none + s0)) + none =~= "https://"@ + name);
        if !has_scheme(name + seq!['/']) {
            law_canonical_name(none, none, none, name, none, 1, none);
            assert(none + (none + (none + name + none + s1)) + none =~= name + seq!['/']);
        }
        law_no_canonical_name(none, none, none, 0, none);
    }
}

/// A key that is not in use stays as it is; any other gets the smallest number behind it, from two
/// on, that makes it one.
pub proof fn law_unique_key(base: Seq<char>, used: Seq<Seq<char>>)
    ensures
        !used.contains(base) ==> domains::unique_key_of(base, used) == base,
        used.contains(base) ==> exists|n: nat|
            2 <= n && domains::unique_key_of(base, used) == #[trigger] with_number(base, n)
                && !used.contains(with_number(base, n)) && (forall|m: nat|
                2 <= m < n ==> used.contains(#[trigger] with_number(base, m))),
{
    if used.contains(base) {
        config_laws::lemma_free_number_exists(base, used, 2);
        let n = choose|n: nat| domains::first_free(base, used, n);
        reveal_strlit("-");
        assert("-"@ =~= seq!['-']);
        assert(domains::unique_key_of(base, used) == with_number(base, n));
        assert forall|m: nat| 2 <= m < n implies used.contains(#[trigger] with_number(base, m)) by {
            assert(used.contains(domains::numbered(base, m)));
        }
    }
}

/// The slug of a target: of its host, or else of its label.
pub open spec fn slug_of_target(target: config::TargetModel) -> Seq<char> {
    if domains::slug_of(target.host).len() > 0 {
        domains::slug_of(target.host)
    } else {
        domains::slug_of(target.label)
    }
}

/// Whether one of the first `n` targets has the key.
pub open spec fn is_taken(targets: Seq<config::TargetModel>, n: int, key: Seq<char>) -> bool {
    exists|j: int| 0 <= j < n && (#[trigger] targets[j]).key == key
}

/// `slug` with a dash and a number behind it.
pub open spec fn with_number(slug: Seq<char>, n: nat) -> Seq<char> {
    slug + seq!['-'] + text::decimal(n)
}

/// The key of a target is its slug; where a target before it has that key, it gets the smallest
/// number behind it, from two on, that makes it a new one.
pub proof fn law_target_key(items: Seq<config::ItemModel>, path: Seq<char>, i: int)
    requires
        0 <= i < items.len(),
    ensures
        domains::targets_of(items, path) matches Ok(targets) ==> {
            let slug = slug_of_target(targets[i]);
            &&& !is_taken(targets, i, slug) ==> targets[i].key == slug
            &&& is_taken(targets, i, slug) ==> exists|n: nat|
                2 <= n && targets[i].key == #[trigger] with_number(slug, n) && (forall|m: nat|
                    2 <= m < n ==> is_taken(targets, i, #[trigger] with_number(slug, m)))
        },
{
    if domains::targets_of(items, path) is Ok {
        lemma_target_at(items, path, i);
        let targets = domains::targets_of(items, path)->Ok_0;
        let slug = slug_of_target(targets[i]);
        let used = domains::keys_of(targets.take(i));
        assert forall|key: Seq<char>| used.contains(key) <==> #[trigger] is_taken(
            targets,
            i,
            key,
        ) by {
            if used.contains(key) {
                let j = used.index_of(key);
                assert(used[j] == targets[j].key);
            }
            if is_taken(targets, i, key) {
                let j = choose|j: int| 0 <= j < i && (#[trigger] targets[j]).key == key;
                assert(used[j] == key);
            }
        }
        law_unique_key(slug, used);
        assert(is_taken(targets, i, slug) == used.contains(slug));
        if used.contains(slug) {
            let n = choose|n: nat|
                2 <= n && domains::unique_key_of(slug, used) == #[trigger] with_number(slug, n)
                    && !used.contains(with_number(slug, n)) && (forall|m: nat|
                    2 <= m < n ==> used.contains(#[trigger] with_number(slug, m)));
            assert forall|m: nat| 2 <= m < n implies is_taken(
                targets,
                i,
                #[trigger] with_number(slug, m),
            ) by {
                assert(used.contains(with_number(slug, m)));
            }
            assert(targets[i].key == with_number(slug, n));
        }
    }
}

/// Whether two lines have the same host, but for the case of its letters.
pub open spec fn same_host(a: config::ItemModel, b: config::ItemModel) -> bool {
    match (domains::base_url_of(a.url), domains::base_url_of(b.url)) {
        (Some(x), Some(y)) => text::ascii_lowered(domains::without_scheme(x))
            == text::ascii_lowered(domains::without_scheme(y)),
        _ => false,
    }
}

proof fn lemma_hosts(items: Seq<config::ItemModel>, path: Seq<char>)
    requires
        domains::targets_of(items, path) is Ok,
    ensures
        domains::targets_of(items, path) matches Ok(targets) && targets.len() == items.len() && (
        forall|i: int|
            0 <= i < items.len() ==> (domains::base_url_of(#[trigger] items[i].url) matches Some(url)
                && targets[i].host == domains::without_scheme(url))),
{
    config_laws::law_targets_are_distinct(items, path);
    assert forall|i: int| 0 <= i < items.len() implies (domains::base_url_of(
        #[trigger] items[i].url,
    ) matches Some(url) && (domains::targets_of(items, path)->Ok_0)[i].host
        == domains::without_scheme(url)) by {
        lemma_target_at(items, path, i);
    }
}

/// Lines become targets as long as each has an address and no two have the same host.
pub proof fn law_targets_are_owed(items: Seq<config::ItemModel>, path: Seq<char>)
    ensures
        domains::targets_of(items, path) is Ok <==> {
            &&& forall|i: int|
                0 <= i < items.len() ==> domains::base_url_of(#[trigger] items[i].url) is Some
            &&& forall|i: int, j: int|
                0 <= i < j < items.len() ==> !same_host(#[trigger] items[i], #[trigger] items[j])
        },
    decreases items.len(),
{
    if items.len() > 0 {
        let rest = items.drop_last();
        law_targets_are_owed(rest, path);
        let n = rest.len() as int;
        if domains::targets_of(rest, path) is Ok {
            lemma_hosts(rest, path);
            let done = domains::targets_of(rest, path)->Ok_0;
            let hosts = domains::hosts_of(done);
            if let Some(url) = domains::base_url_of(items[n].url) {
                let low = text::ascii_lowered(domains::without_scheme(url));
                if hosts.contains(low) {
                    let j = hosts.index_of(low);
                    assert(hosts[j] == text::ascii_lowered(done[j].host));
                    assert(domains::base_url_of(rest[j].url) is Some);
                    assert(same_host(items[j], items[n]));
                } else {
                    assert forall|i: int| 0 <= i < n implies !same_host(
                        #[trigger] items[i],
                        items[n],
                    ) by {
                        assert(domains::base_url_of(rest[i].url) is Some);
                        assert(hosts[i] == text::ascii_lowered(done[i].host));
                        if same_host(items[i], items[n]) {
                            assert(hosts.contains(hosts[i]));
                        }
                    }
                    assert forall|i: int| 0 <= i < items.len() implies domains::base_url_of(
                        #[trigger] items[i].url,
                    ) is Some by {
                        if i < n {
                            assert(domains::base_url_of(rest[i].url) is Some);
                        }
                    }
                    assert forall|i: int, j: int| 0 <= i < j < items.len() implies !same_host(
                        #[trigger] items[i],
                        #[trigger] items[j],
                    ) by {
                        if j < n {
                            assert(!same_host(rest[i], rest[j]));
                        }
                    }
                }
            }
        } else {
            if (forall|i: int|
                0 <= i < items.len() ==> domains::base_url_of(#[trigger] items[i].url) is Some) && (
            forall|i: int, j: int|
                0 <= i < j < items.len() ==> !same_host(#[trigger] items[i], #[trigger] items[j])) {
                assert forall|i: int| 0 <= i < rest.len() implies domains::base_url_of(
                    #[trigger] rest[i].url,
                ) is Some by {
                    assert(domains::base_url_of(items[i].url) is Some);
                }
                assert forall|i: int, j: int| 0 <= i < j < rest.len() implies !same_host(
                    #[trigger] rest[i],
                    #[trigger] rest[j],
                ) by {
                    assert(!same_host(items[i], items[j]));
                }
            }
        }
    }
}

/// The first line without an address, or with the host of one before it, is the error.
pub proof fn law_first_bad_line_is_the_error(
    items: Seq<config::ItemModel>,
    path: Seq<char>,
    i: int,
)
    requires
        0 <= i < items.len(),
        domains::targets_of(items.take(i), path) is Ok,
    ensures
        domains::base_url_of(items[i].url) is None ==> domains::targets_of(items, path) == Err::<
            Seq<config::TargetModel>,
            config::ConfigErrorModel,
        >(config::ConfigErrorModel::InvalidDomainUrl(items[i].url)),
        (exists|j: int| 0 <= j < i && same_host(#[trigger] items[j], items[i]))
            ==> domains::targets_of(items, path) == Err::<
            Seq<config::TargetModel>,
            config::ConfigErrorModel,
        >(
            config::ConfigErrorModel::DuplicateDomain(
                text::ascii_lowered(
                    domains::without_scheme(domains::base_url_of(items[i].url)->0),
                ),
            ),
        ),
{
    let front = items.take(i);
    lemma_hosts(front, path);
    let done = domains::targets_of(front, path)->Ok_0;
    let hosts = domains::hosts_of(done);
    assert(items.take(i + 1).drop_last() =~= front);
    assert(items.take(i + 1).last() == items[i]);
    if exists|j: int| 0 <= j < i && same_host(#[trigger] items[j], items[i]) {
        let j = choose|j: int| 0 <= j < i && same_host(#[trigger] items[j], items[i]);
        assert(domains::base_url_of(front[j].url) is Some);
        assert(hosts[j] == text::ascii_lowered(done[j].host));
        assert(hosts.contains(hosts[j]));
    }
    if domains::targets_of(items.take(i + 1), path) is Err {
        domains::lemma_first_error(items, path, i + 1);
    }
}

/// Whether each of `items` has an address.
pub open spec fn all_addressed(items: Seq<config::ItemModel>) -> bool {
    forall|i: int| 0 <= i < items.len() ==> domains::base_url_of(#[trigger] items[i].url) is Some
}

proof fn lemma_first_invalid_of(urls: Seq<Seq<char>>, i: int)
    requires
        0 <= i < urls.len(),
        domains::base_url_of(urls[i]) is None,
        forall|j: int| 0 <= j < i ==> domains::base_url_of(#[trigger] urls[j]) is Some,
    ensures
        domains::first_invalid(urls) == Some(urls[i]),
    decreases urls.len(),
{
    let rest = urls.drop_last();
    if i < rest.len() {
        assert forall|j: int| 0 <= j < i implies domains::base_url_of(#[trigger] rest[j]) is Some by {
            assert(domains::base_url_of(urls[j]) is Some);
        }
        lemma_first_invalid_of(rest, i);
    } else {
        assert forall|j: int| 0 <= j < rest.len() implies domains::base_url_of(
            #[trigger] rest[j],
        ) is Some by {
            assert(domains::base_url_of(urls[j]) is Some);
        }
        lemma_all_valid(rest);
    }
}

proof fn lemma_all_valid(urls: Seq<Seq<char>>)
    ensures
        domains::first_invalid(urls) is None <==> (forall|j: int|
            0 <= j < urls.len() ==> domains::base_url_of(#[trigger] urls[j]) is Some),
    decreases urls.len(),
{
    if urls.len() > 0 {
        let rest = urls.drop_last();
        lemma_all_valid(rest);
        if domains::first_invalid(urls) is None {
            assert forall|j: int| 0 <= j < urls.len() implies domains::base_url_of(
                #[trigger] urls[j],
            ) is Some by {
                if j < rest.len() {
                    assert(domains::base_url_of(rest[j]) is Some);
                }
            }
        } else if forall|j: int|
            0 <= j < urls.len() ==> domains::base_url_of(#[trigger] urls[j]) is Some {
            assert forall|j: int| 0 <= j < rest.len() implies domains::base_url_of(
                #[trigger] rest[j],
            ) is Some by {
                assert(domains::base_url_of(urls[j]) is Some);
            }
            assert(domains::base_url_of(urls[urls.len() - 1]) is Some);
        }
    }
}

proof fn lemma_all_addressed(items: Seq<config::ItemModel>)
    ensures
        all_addressed(items) <==> domains::first_invalid(domains::urls_of(items)) is None,
{
    let urls = domains::urls_of(items);
    lemma_all_valid(urls);
    if domains::first_invalid(urls) is None {
        assert forall|i: int| 0 <= i < items.len() implies domains::base_url_of(
            #[trigger] items[i].url,
        ) is Some by {
            assert(domains::base_url_of(urls[i]) is Some);
        }
    }
    if all_addressed(items) {
        assert forall|i: int| 0 <= i < urls.len() implies domains::base_url_of(
            #[trigger] urls[i],
        ) is Some by {
            assert(domains::base_url_of(items[i].url) is Some);
        }
    }
}

/// Lines can be merged with overrides as long as all of them have an address; the first that has
/// none is the error, those of the file before the overrides.
pub proof fn law_merging_is_owed(
    items: Seq<config::ItemModel>,
    overrides: Seq<config::ItemModel>,
    i: int,
)
    ensures
        domains::merged_of(items, overrides) is Ok <==> all_addressed(items) && all_addressed(
            overrides,
        ),
        0 <= i < items.len() && domains::base_url_of(items[i].url) is None && all_addressed(
            items.take(i),
        ) ==> domains::merged_of(items, overrides) == Err::<
            Seq<config::ItemModel>,
            config::ConfigErrorModel,
        >(config::ConfigErrorModel::InvalidDomainUrl(items[i].url)),
        0 <= i < overrides.len() && domains::base_url_of(overrides[i].url) is None
            && all_addressed(items) && all_addressed(overrides.take(i)) ==> domains::merged_of(
            items,
            overrides,
        ) == Err::<Seq<config::ItemModel>, config::ConfigErrorModel>(
            config::ConfigErrorModel::InvalidDomainUrl(overrides[i].url),
        ),
{
    lemma_all_addressed(items);
    lemma_all_addressed(overrides);
    lemma_first_unaddressed(items, i);
    lemma_first_unaddressed(overrides, i);
}

proof fn lemma_first_unaddressed(items: Seq<config::ItemModel>, i: int)
    ensures
        0 <= i < items.len() && domains::base_url_of(items[i].url) is None && all_addressed(
            items.take(i),
        ) ==> domains::first_invalid(domains::urls_of(items)) == Some(items[i].url),
{
    if 0 <= i < items.len() && domains::base_url_of(items[i].url) is None && all_addressed(
        items.take(i),
    ) {
        let urls = domains::urls_of(items);
        assert forall|j: int| 0 <= j < i implies domains::base_url_of(#[trigger] urls[j]) is Some by {
            assert(domains::base_url_of(items.take(i)[j].url) is Some);
        }
        lemma_first_invalid_of(urls, i);
    }
}

/// What a field holds after an override gives `given` for it: that, without the white space around
/// it, or what it held where nothing is left of it.
pub open spec fn is_overridden(
    before: Option<Seq<char>>,
    given: Option<Seq<char>>,
    after: Option<Seq<char>>,
) -> bool {
    match given {
        Some(t) => {
            &&& text_laws::is_blank(t) ==> after == before
            &&& !text_laws::is_blank(t) ==> (exists|a: Seq<char>, core: Seq<char>, b: Seq<char>|
                text_laws::is_blank(a) && text_laws::is_blank(b) && text_laws::is_tight(core) && t
                    == #[trigger] (a + core + b) && after == Some(core))
            &&& t.len() > 0 && text_laws::is_tight(t) ==> after == Some(t)
        },
        None => after == before,
    }
}

pub(crate) proof fn lemma_overridden(before: Option<Seq<char>>, given: Option<Seq<char>>)
    ensures
        is_overridden(
            before,
            given,
            (match domains::non_empty_of(given) {
                Some(t) => Some(t),
                None => before,
            }),
        ),
{
    if let Some(t) = given {
        if text_laws::is_blank(t) {
            law_blank_text_counts_for_nothing(t);
            if t.len() > 0 {
                assert(text::white_space(t[0]));
            }
        } else {
            text_laws::lemma_tight_core(t);
            let core = text::trimmed(t);
            let (a, b) = choose|a: Seq<char>, b: Seq<char>|
                text_laws::is_blank(a) && text_laws::is_blank(b) && t == #[trigger] (a
                    + text::trimmed(t) + b);
            if core.len() == 0 {
                assert forall|i: int| 0 <= i < t.len() implies text::white_space(#[trigger] t[i]) by {
                    if i < a.len() {
                        assert(t[i] == a[i]);
                    } else {
                        assert(t[i] == b[i - a.len()]);
                    }
                }
            }
            assert(t == a + core + b);
            if t.len() > 0 && text_laws::is_tight(t) {
                law_tight_text_counts(t);
            }
        }
    }
}

/// One more override changes the last line with its address, in the name and the canonical name
/// that it gives, whatever the line held, and in nothing else; where no line has its address, it
/// becomes the last line. Without overrides the lines stay as they are.
pub proof fn law_one_more_override(
    items: Seq<config::ItemModel>,
    overrides: Seq<config::ItemModel>,
    change: config::ItemModel,
    j: int,
)
    requires
        all_addressed(items),
        all_addressed(overrides),
        domains::base_url_of(change.url) is Some,
    ensures
        domains::merged_of(items, Seq::empty()) == Ok::<
            Seq<config::ItemModel>,
            config::ConfigErrorModel,
        >(items),
        domains::merged_of(items, overrides) matches Ok(before) && (domains::merged_of(
            items,
            overrides.push(change),
        ) matches Ok(after) && {
            let same = |item: config::ItemModel|
                domains::base_url_of(item.url) == domains::base_url_of(change.url);
            &&& (forall|k: int| 0 <= k < before.len() ==> !same(#[trigger] before[k])) ==> after
                == before.push(change)
            &&& 0 <= j < before.len() && same(before[j]) && (forall|k: int|
                j < k < before.len() ==> !same(#[trigger] before[k])) ==> {
                &&& after.len() == before.len()
                &&& forall|k: int|
                    0 <= k < before.len() && k != j ==> #[trigger] after[k] == before[k]
                &&& after[j].url == before[j].url
                &&& is_overridden(before[j].name, change.name, after[j].name)
                &&& is_overridden(before[j].cname, change.cname, after[j].cname)
            }
        }),
{
    let more = overrides.push(change);
    lemma_all_addressed(items);
    lemma_all_addressed(overrides);
    lemma_all_addressed(Seq::<config::ItemModel>::empty());
    assert(all_addressed(more)) by {
        assert forall|i: int| 0 <= i < more.len() implies domains::base_url_of(
            #[trigger] more[i].url,
        ) is Some by {
            if i < overrides.len() {
                assert(domains::base_url_of(overrides[i].url) is Some);
            }
        }
    }
    lemma_all_addressed(more);
    assert(more.drop_last() =~= overrides);
    let before = domains::with_overrides(items, overrides);
    let base_url = domains::base_url_of(change.url)->0;
    config_laws::lemma_last_with_url_is_inside(before, base_url);
    if forall|k: int|
        0 <= k < before.len() ==> domains::base_url_of((#[trigger] before[k]).url)
            != domains::base_url_of(change.url) {
    } else if 0 <= j < before.len() {
        lemma_overridden(before[j].name, change.name);
        lemma_overridden(before[j].cname, change.cname);
        lemma_last_is(before, base_url, j);
    }
}

proof fn lemma_last_is(items: Seq<config::ItemModel>, base_url: Seq<char>, j: int)
    requires
        0 <= j < items.len(),
    ensures
        domains::base_url_of(items[j].url) == Some(base_url) && (forall|k: int|
            j < k < items.len() ==> domains::base_url_of((#[trigger] items[k]).url) != Some(
                base_url,
            )) ==> domains::last_with_url(items, base_url) == Some(j),
    decreases items.len(),
{
    if domains::base_url_of(items[j].url) == Some(base_url) && (forall|k: int|
        j < k < items.len() ==> domains::base_url_of((#[trigger] items[k]).url) != Some(base_url)) {
        if j < items.len() - 1 {
            assert(domains::base_url_of(items[items.len() - 1].url) != Some(base_url));
            let rest = items.drop_last();
            assert forall|k: int| j < k < rest.len() implies domains::base_url_of(
                (#[trigger] rest[k]).url,
            ) != Some(base_url) by {
                assert(domains::base_url_of(items[k].url) != Some(base_url));
            }
            lemma_last_is(rest, base_url, j);
        }
    }
}

/// Without a blacklist all lines stay, looked at or not. With one, all of it and all lines need an
/// address; the first without one is the error, those of the blacklist before the lines.
pub proof fn law_filtering_is_owed(
    items: Seq<config::ItemModel>,
    blacklist: Seq<Seq<char>>,
    i: int,
)
    ensures
        domains::filtered_of(items, Seq::empty()) == Ok::<
            Seq<config::ItemModel>,
            config::ConfigErrorModel,
        >(items),
        blacklist.len() > 0 ==> (domains::filtered_of(items, blacklist) is Ok <==> all_addressed(
            items,
        ) && forall|k: int|
            0 <= k < blacklist.len() ==> domains::base_url_of(#[trigger] blacklist[k]) is Some),
        0 <= i < blacklist.len() && domains::base_url_of(blacklist[i]) is None && (forall|k: int|
            0 <= k < i ==> domains::base_url_of(#[trigger] blacklist[k]) is Some)
            ==> domains::filtered_of(items, blacklist) == Err::<
            Seq<config::ItemModel>,
            config::ConfigErrorModel,
        >(config::ConfigErrorModel::InvalidDomainUrl(blacklist[i])),
        blacklist.len() > 0 && (forall|k: int|
            0 <= k < blacklist.len() ==> domains::base_url_of(#[trigger] blacklist[k]) is Some) && 0
            <= i < items.len() && domains::base_url_of(items[i].url) is None && all_addressed(
            items.take(i),
        ) ==> domains::filtered_of(items, blacklist) == Err::<
            Seq<config::ItemModel>,
            config::ConfigErrorModel,
        >(config::ConfigErrorModel::InvalidDomainUrl(items[i].url)),
{
    lemma_all_addressed(items);
    lemma_all_valid(blacklist);
    lemma_first_unaddressed(items, i);
    if 0 <= i < blacklist.len() && domains::base_url_of(blacklist[i]) is None && (forall|k: int|
        0 <= k < i ==> domains::base_url_of(#[trigger] blacklist[k]) is Some) {
        lemma_first_invalid_of(blacklist, i);
    }
}

/// One more line stays behind the others unless the blacklist has its address; of no lines none
/// stay.
pub proof fn law_filtering_one_more_line(
    items: Seq<config::ItemModel>,
    item: config::ItemModel,
    blacklist: Seq<Seq<char>>,
)
    requires
        blacklist.len() > 0,
        domains::filtered_of(items.push(item), blacklist) is Ok,
    ensures
        domains::filtered_of(Seq::empty(), blacklist) == Ok::<
            Seq<config::ItemModel>,
            config::ConfigErrorModel,
        >(Seq::empty()),
        domains::filtered_of(items, blacklist) matches Ok(before) && domains::filtered_of(
            items.push(item),
            blacklist,
        ) == Ok::<Seq<config::ItemModel>, config::ConfigErrorModel>(
            if exists|k: int|
                0 <= k < blacklist.len() && domains::base_url_of(#[trigger] blacklist[k])
                    == domains::base_url_of(item.url) {
                before
            } else {
                before.push(item)
            },
        ),
{
    let more = items.push(item);
    let none = Seq::<config::ItemModel>::empty();
    lemma_all_addressed(more);
    lemma_all_addressed(items);
    lemma_all_addressed(none);
    assert(all_addressed(items)) by {
        assert forall|i: int| 0 <= i < items.len() implies domains::base_url_of(
            #[trigger] items[i].url,
        ) is Some by {
            assert(domains::base_url_of(more[i].url) is Some);
        }
    }
    assert(more.drop_last() =~= items);
    assert(more.last() == item);
}

/// A name with white space around it is shown without that, whole; where there is nothing else in it,
/// or no name, the host is shown as it is.
pub proof fn law_shown_name(a: Seq<char>, t: Seq<char>, b: Seq<char>, host: Seq<char>)
    requires
        text_laws::is_blank(a),
        text_laws::is_blank(b),
        text_laws::is_tight(t),
    ensures
        t.len() > 0 ==> domains::label_of(Some(a + t + b), host) == t,
        t.len() == 0 ==> domains::label_of(Some(a + t + b), host) == host,
        domains::label_of(None, host) == host,
{
    law_cleaning(a, t, b);
}

/// The model of an outcome is that of what came out.
pub proof fn law_model_of_outcomes(
    targets: Vec<config::TestTarget>,
    items: Vec<config::DomainItem>,
    t: String,
    e: config::ConfigError,
)
    ensures
        domains::built_view(Ok(targets)) == Ok::<Seq<config::TargetModel>, config::ConfigErrorModel>(
            config::targets_view(targets@),
        ),
        domains::built_view(Err(e)) == Err::<Seq<config::TargetModel>, config::ConfigErrorModel>(
            e@,
        ),
        domains::items_result_view(Ok(items)) == Ok::<
            Seq<config::ItemModel>,
            config::ConfigErrorModel,
        >(config::items_view(items@)),
        domains::items_result_view(Err(e)) == Err::<
            Seq<config::ItemModel>,
            config::ConfigErrorModel,
        >(e@),
        domains::text_result_view(Ok(t)) == Ok::<Seq<char>, config::ConfigErrorModel>(t@),
        domains::text_result_view(Err(e)) == Err::<Seq<char>, config::ConfigErrorModel>(e@),
{
}

} // verus!
