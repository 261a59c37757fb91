//! What holds of every configuration.
use vstd::prelude::*;
use vstd::string::*;

use crate::config;
use crate::domains;
use crate::text;
use crate::text_laws;
use crate::text_lemmas;

verus! {

/// Whether `s` consists of lower-case letters and digits with single dashes between them.
pub open spec fn is_slug(s: Seq<char>) -> bool {
    &&& dashed_well(s)
    &&& s.len() > 0 ==> s[0] != '-' && s.last() != '-'
}

/// Whether `s` consists of lower-case letters, digits and single dashes.
pub open spec fn dashed_well(s: Seq<char>) -> bool {
    &&& forall|i: int| 0 <= i < s.len() ==> #[trigger] slug_char(s[i])
    &&& forall|i: int, j: int|
        0 <= i && j == i + 1 && j < s.len() && #[trigger] s[i] == '-' ==> #[trigger] s[j] != '-'
}

/// A lower-case ASCII letter, a digit or a dash.
pub open spec fn slug_char(c: char) -> bool {
    'a' <= c <= 'z' || '0' <= c <= '9' || c == '-'
}

pub(crate) proof fn lemma_dashed(input: Seq<char>)
    ensures
        dashed_well(domains::dashed(input)),
    decreases input.len(),
{
    if input.len() > 0 {
        lemma_dashed(input.drop_last());
    }
}

proof fn lemma_dashed_is_stable(s: Seq<char>)
    requires
        dashed_well(s),
    ensures
        domains::dashed(s) == s,
    decreases s.len(),
{
    if s.len() > 0 {
        let rest = s.drop_last();
        assert forall|i: int| 0 <= i < rest.len() implies #[trigger] slug_char(rest[i]) by {
            assert(slug_char(s[i]));
        }
        lemma_dashed_is_stable(rest);
        assert(slug_char(s[s.len() - 1]));
        assert(rest.push(s.last()) =~= s);
        if rest.len() > 0 {
            assert(s[rest.len() - 1] == rest.last());
        }
    } else {
        assert(s =~= Seq::empty());
    }
}

/// The key of a line is a slug: lower-case letters and digits with single dashes between them.
pub proof fn law_slug_shape(input: Seq<char>)
    ensures
        is_slug(domains::slug_of(input)),
{
    let d = domains::dashed(input);
    let p = text::the_char('-');
    lemma_dashed(input);
    text_lemmas::lemma_trim_both(d, p);
    let a = text::trim_start_by(d, p);
    text_lemmas::lemma_trim_start(d, p);
    text_lemmas::lemma_trim_end(a, p);
    let slug = domains::slug_of(input);
    let n = d.len() - a.len();
    assert forall|i: int| 0 <= i < slug.len() implies #[trigger] slug_char(slug[i]) by {
        assert(slug_char(d[i + n]));
    }
    assert forall|i: int, j: int|
        0 <= i && j == i + 1 && j < slug.len() && #[trigger] slug[i] == '-' implies #[trigger] slug[j]
        != '-' by {
        assert(slug[i] == d[i + n] && slug[j] == d[j + n]);
    }
}

/// A slug is its own slug.
pub proof fn law_slug_is_stable(input: Seq<char>)
    ensures
        domains::slug_of(domains::slug_of(input)) == domains::slug_of(input),
{
    law_slug_shape(input);
    lemma_dashed_is_stable(domains::slug_of(input));
    text_lemmas::lemma_trim_both(domains::dashed(input), text::the_char('-'));
}

/// The address of a line starts with its scheme, goes on behind it and ends in no slash.
pub proof fn law_base_url_shape(input: Seq<char>)
    ensures
        domains::base_url_of(input) matches Some(url) ==> {
            &&& "https://"@.is_prefix_of(url) || "http://"@.is_prefix_of(url)
            &&& url.last() != '/'
            &&& domains::without_scheme(url).len() > 0
        },
{
    let url = text::trimmed_end_of(text::trimmed(input), '/');
    text_lemmas::lemma_trim_end(text::trimmed(input), text::the_char('/'));
    reveal_strlit("https://");
    reveal_strlit("http://");
    if "https://"@.is_prefix_of(url) {
        assert(url[7] == url.take(8)[7]);
    } else if "http://"@.is_prefix_of(url) {
        assert(url[6] == url.take(7)[6]);
    }
}

/// A slash behind the address of a line makes no difference, unless it follows white space.
pub proof fn law_trailing_slash_is_ignored(input: Seq<char>)
    requires
        input.len() > 0 ==> !text::white_space(input.last()),
    ensures
        domains::base_url_of(input.push('/')) == domains::base_url_of(input),
{
    let slashed = input.push('/');
    let space = text::a_space();
    let slash = text::the_char('/');
    if input.len() == 0 {
        assert(slashed.drop_last() =~= input);
        assert(text::trimmed(slashed) == slashed);
        assert(text::trim_end_by(slashed, slash) == text::trim_end_by(slashed.drop_last(), slash));
    } else {
        let a = text::trim_start_by(input, space);
        text_lemmas::lemma_trim_start(input, space);
        let n = input.len() - a.len();
        lemma_trimmed_prefix_is_space(input);
        if a.len() == 0 {
            assert(space(input[input.len() - 1]));
        }
        assert forall|j: int| 0 <= j < n implies space(#[trigger] slashed[j]) by {
            assert(space(input[j]));
        }
        text::lemma_trim_start_at(slashed, space, n as int);
        assert(slashed.skip(n as int) =~= a.push('/'));
        assert(a.last() == input.last());
        assert(text::trimmed(input) == a);
        assert(text::trimmed(slashed) == a.push('/'));
        assert(a.push('/').drop_last() =~= a);
    }
}

proof fn lemma_trimmed_prefix_is_space(s: Seq<char>)
    ensures
        forall|j: int|
            0 <= j < s.len() - text::trim_start_by(s, text::a_space()).len()
                ==> text::white_space(#[trigger] s[j]),
    decreases s.len(),
{
    if s.len() > 0 && text::white_space(s.first()) {
        let rest = s.drop_first();
        lemma_trimmed_prefix_is_space(rest);
        assert forall|j: int|
            0 <= j < s.len() - text::trim_start_by(s, text::a_space()).len() implies text::white_space(
            #[trigger] s[j],
        ) by {
            if j > 0 {
                assert(text::white_space(rest[j - 1]));
            }
        }
    }
}

/// However many keys are in use, a number makes a free one.
pub(crate) proof fn lemma_free_number_exists(base: Seq<char>, used: Seq<Seq<char>>, n: nat)
    requires
        2 <= n,
        forall|m: nat| 2 <= m < n ==> used.contains(#[trigger] domains::numbered(base, m)),
    ensures
        exists|k: nat| domains::first_free(base, used, k),
    decreases used.len() + 2 - n,
{
    domains::lemma_numbers_in_use(base, used, n);
    if used.contains(domains::numbered(base, n)) {
        domains::lemma_numbers_in_use(base, used, n + 1);
        lemma_free_number_exists(base, used, n + 1);
    } else {
        assert(domains::first_free(base, used, n));
    }
}

/// A unique key is none of those in use.
pub proof fn law_unique_key_is_new(base: Seq<char>, used: Seq<Seq<char>>)
    ensures
        !used.contains(domains::unique_key_of(base, used)),
{
    if used.contains(base) {
        lemma_free_number_exists(base, used, 2);
    }
}

/// Targets stand for the lines one for one, and no two share a key or, but for case, a host.
pub proof fn law_targets_are_distinct(items: Seq<config::ItemModel>, file_path: Seq<char>)
    ensures
        domains::targets_of(items, file_path) matches Ok(targets) ==> {
            &&& targets.len() == items.len()
            &&& domains::keys_of(targets).no_duplicates()
            &&& domains::hosts_of(targets).no_duplicates()
        },
    decreases items.len(),
{
    if items.len() > 0 {
        law_targets_are_distinct(items.drop_last(), file_path);
        if let Ok(done) = domains::targets_of(items.drop_last(), file_path) {
            if let Ok(target) = domains::next_target(done, items.last(), file_path) {
                let host = domains::without_scheme(
                    domains::base_url_of(items.last().url)->0,
                );
                law_unique_key_is_new(
                    domains::plain_key_of(items.last().name, host),
                    domains::keys_of(done),
                );
                let keys = domains::keys_of(done);
                let hosts = domains::hosts_of(done);
                assert(domains::keys_of(done.push(target)) =~= keys.push(target.key));
                assert(domains::hosts_of(done.push(target)) =~= hosts.push(
                    text::ascii_lowered(target.host),
                ));
            }
        }
    }
}

/// The addresses that a target is tested at stand below the address of its line.
pub proof fn law_targets_keep_to_their_lines(
    items: Seq<config::ItemModel>,
    file_path: Seq<char>,
    i: int,
)
    requires
        0 <= i < items.len(),
    ensures
        domains::targets_of(items, file_path) matches Ok(targets) ==> {
            &&& i < targets.len()
            &&& domains::base_url_of(items[i].url) matches Some(base_url)
            &&& targets[i].host == domains::without_scheme(base_url)
            &&& targets[i].trace_url == base_url + "/cdn-cgi/trace"@
            &&& targets[i].download_url == base_url + file_path
        },
    decreases items.len(),
{
    law_targets_are_distinct(items, file_path);
    law_targets_are_distinct(items.drop_last(), file_path);
    if i < items.len() - 1 {
        law_targets_keep_to_their_lines(items.drop_last(), file_path, i);
    }
}

proof fn lemma_not_blacklisted(items: Seq<config::ItemModel>, blacklist: Seq<Seq<char>>)
    ensures
        ({
            let kept = domains::not_blacklisted(items, blacklist);
            &&& kept.len() <= items.len()
            &&& forall|i: int|
                0 <= i < kept.len() ==> !domains::blacklisted(#[trigger] kept[i].url, blacklist)
            &&& forall|i: int| 0 <= i < kept.len() ==> items.contains(#[trigger] kept[i])
            &&& forall|i: int|
                0 <= i < items.len() && !domains::blacklisted(items[i].url, blacklist)
                    ==> kept.contains(#[trigger] items[i])
        }),
    decreases items.len(),
{
    if items.len() > 0 {
        let rest = items.drop_last();
        lemma_not_blacklisted(rest, blacklist);
        let before = domains::not_blacklisted(rest, blacklist);
        let kept = domains::not_blacklisted(items, blacklist);
        assert forall|i: int| 0 <= i < kept.len() implies items.contains(#[trigger] kept[i]) by {
            if i < before.len() {
                let j = rest.index_of(before[i]);
                assert(items[j] == before[i]);
            } else {
                assert(items[items.len() - 1] == kept[i]);
            }
        }
        assert forall|i: int|
            0 <= i < items.len() && !domains::blacklisted(
                items[i].url,
                blacklist,
            ) implies kept.contains(#[trigger] items[i]) by {
            if i < rest.len() {
                assert(rest[i] == items[i]);
                let j = before.index_of(rest[i]);
                assert(kept[j] == items[i]);
            } else {
                assert(kept[kept.len() - 1] == items[i]);
            }
        }
    }
}

/// The blacklist takes out the lines that it names, and no others.
pub proof fn law_blacklist_is_exact(
    items: Seq<config::ItemModel>,
    blacklist: Seq<Seq<char>>,
    item: config::ItemModel,
)
    ensures
        domains::filtered_of(items, blacklist) matches Ok(kept) ==> (kept.contains(item) <==> (
        items.contains(item) && !domains::blacklisted(item.url, blacklist))),
{
    lemma_not_blacklisted(items, blacklist);
    if let Ok(kept) = domains::filtered_of(items, blacklist) {
        if kept.contains(item) {
            let i = kept.index_of(item);
            assert(kept[i] == item);
        }
        if items.contains(item) {
            let i = items.index_of(item);
            assert(items[i] == item);
        }
    }
}

/// The lines that the blacklist leaves keep their order.
pub proof fn law_blacklist_keeps_order(
    items: Seq<config::ItemModel>,
    blacklist: Seq<Seq<char>>,
    i: int,
    j: int,
)
    requires
        0 <= i < j < domains::not_blacklisted(items, blacklist).len(),
    ensures
        exists|a: int, b: int|
            0 <= a < b < items.len() && #[trigger] items[a] == domains::not_blacklisted(
                items,
                blacklist,
            )[i] && #[trigger] items[b] == domains::not_blacklisted(items, blacklist)[j],
    decreases items.len(),
{
    let rest = items.drop_last();
    let before = domains::not_blacklisted(rest, blacklist);
    let kept = domains::not_blacklisted(items, blacklist);
    if j < before.len() {
        law_blacklist_keeps_order(rest, blacklist, i, j);
        let (a, b) = choose|a: int, b: int|
            0 <= a < b < rest.len() && #[trigger] rest[a] == before[i] && #[trigger] rest[b]
                == before[j];
        assert(items[a] == kept[i] && items[b] == kept[j]);
    } else {
        lemma_not_blacklisted(rest, blacklist);
        assert(rest.contains(before[i]));
        let a = rest.index_of(before[i]);
        assert(items[a] == kept[i] && items[items.len() - 1] == kept[j]);
    }
}

/// Overrides take no line out and change no address.
pub proof fn law_overrides_keep_lines(
    items: Seq<config::ItemModel>,
    overrides: Seq<config::ItemModel>,
)
    ensures
        ({
            let merged = domains::with_overrides(items, overrides);
            &&& items.len() <= merged.len() <= items.len() + overrides.len()
            &&& forall|i: int| 0 <= i < items.len() ==> (#[trigger] merged[i]).url == items[i].url
        }),
    decreases overrides.len(),
{
    if overrides.len() > 0 {
        law_overrides_keep_lines(items, overrides.drop_last());
        let before = domains::with_overrides(items, overrides.drop_last());
        if let Some(base_url) = domains::base_url_of(overrides.last().url) {
            lemma_last_with_url_is_inside(before, base_url);
        }
    }
}

pub(crate) proof fn lemma_last_with_url_is_inside(items: Seq<config::ItemModel>, base_url: Seq<char>)
    ensures
        domains::last_with_url(items, base_url) matches Some(i) ==> {
            &&& 0 <= i < items.len()
            &&& domains::base_url_of(items[i].url) == Some(base_url)
        },
    decreases items.len(),
{
    if items.len() > 0 {
        lemma_last_with_url_is_inside(items.drop_last(), base_url);
    }
}

/// After the overrides, each address that they name is one of a line.
pub proof fn law_overridden_lines_exist(
    items: Seq<config::ItemModel>,
    overrides: Seq<config::ItemModel>,
    k: int,
)
    requires
        0 <= k < overrides.len(),
    ensures
        domains::base_url_of(overrides[k].url) is Some ==> exists|i: int|
            0 <= i < domains::with_overrides(items, overrides).len() && domains::base_url_of(
                #[trigger] domains::with_overrides(items, overrides)[i].url,
            ) == domains::base_url_of(overrides[k].url),
    decreases overrides.len(),
{
    let rest = overrides.drop_last();
    let before = domains::with_overrides(items, rest);
    let merged = domains::with_overrides(items, overrides);
    let wanted = domains::base_url_of(overrides[k].url);
    if let Some(base_url) = domains::base_url_of(overrides.last().url) {
        lemma_last_with_url_is_inside(before, base_url);
    }
    if wanted is Some {
        if k < overrides.len() - 1 {
            law_overridden_lines_exist(items, rest, k);
            assert(rest[k] == overrides[k]);
            let i = choose|i: int|
                0 <= i < before.len() && domains::base_url_of(#[trigger] before[i].url) == wanted;
            assert(domains::base_url_of(merged[i].url) == wanted);
        } else {
            match domains::last_with_url(before, wanted->0) {
                Some(i) => {
                    assert(domains::base_url_of(merged[i].url) == wanted);
                },
                None => {
                    assert(domains::base_url_of(merged[merged.len() - 1].url) == wanted);
                },
            }
        }
    }
}

/// A line whose address no override names stays as it is.
pub proof fn law_other_lines_stay(
    items: Seq<config::ItemModel>,
    overrides: Seq<config::ItemModel>,
    i: int,
)
    requires
        0 <= i < items.len(),
        forall|k: int|
            0 <= k < overrides.len() ==> domains::base_url_of(#[trigger] overrides[k].url)
                != domains::base_url_of(items[i].url),
    ensures
        domains::with_overrides(items, overrides)[i] == items[i],
    decreases overrides.len(),
{
    if overrides.len() > 0 {
        let rest = overrides.drop_last();
        assert forall|k: int| 0 <= k < rest.len() implies domains::base_url_of(
            #[trigger] rest[k].url,
        ) != domains::base_url_of(items[i].url) by {
            assert(rest[k] == overrides[k]);
        }
        law_other_lines_stay(items, rest, i);
        law_overrides_keep_lines(items, rest);
        let before = domains::with_overrides(items, rest);
        assert(domains::base_url_of(overrides[overrides.len() - 1].url) != domains::base_url_of(
            items[i].url,
        ));
        if let Some(base_url) = domains::base_url_of(overrides.last().url) {
            lemma_last_with_url_is_inside(before, base_url);
        }
    }
}

/// Normalized test settings are within their ranges, and normalizing them changes nothing.
pub proof fn law_settings_are_within_ranges<N>(given: config::SettingsModel<N>)
    ensures
        config::settings_of(given) matches Ok(settings) ==> {
            &&& 1 <= settings.latency_rounds <= 20
            &&& 300 <= settings.latency_timeout_ms <= 30_000
            &&& 1_000 <= settings.download_test_ms <= 120_000
            &&& settings.download_file_path.len() > 1
            &&& settings.download_file_path[0] == '/'
            &&& config::settings_of(settings) == config::settings_of(given)
        },
{
    text_lemmas::lemma_trim_both(given.download_file_path, text::a_space());
}

/// A configuration that the service runs with has a target, no two targets with the same key or
/// host, and settings within their ranges.
pub proof fn law_running_configuration<N>(
    file: config::FileConfig<N>,
    external: config::DomainFile,
)
    ensures
        config::runtime_of(file, external) matches Ok(running) ==> {
            &&& running.targets.len() > 0
            &&& domains::keys_of(running.targets).no_duplicates()
            &&& domains::hosts_of(running.targets).no_duplicates()
            &&& running.history.wf()
            &&& 1 <= running.test.latency_rounds <= 20
            &&& 300 <= running.test.latency_timeout_ms <= 30_000
            &&& 1_000 <= running.test.download_test_ms <= 120_000
        },
{
    if let Ok(items) = config::lines_of(file.domains, external) {
        if let Ok(given) = config::chosen_settings(file.speedtest, file.test) {
            law_settings_are_within_ranges(given);
            if let Ok(settings) = config::settings_of(given) {
                law_targets_are_distinct(items, settings.download_file_path);
            }
        }
    }
}

/// No target of a running configuration is tested at an address on the blacklist.
pub proof fn law_blacklisted_lines_are_not_tested<N>(
    file: config::FileConfig<N>,
    external: config::DomainFile,
    blocked: int,
    i: int,
)
    requires
        0 <= blocked < file.domains.blacklist@.len(),
    ensures
        config::runtime_of(file, external) matches Ok(running) ==> (
        domains::base_url_of(file.domains.blacklist@[blocked]@) matches Some(base_url) ==> (0 <= i
            < running.targets.len() ==> running.targets[i].trace_url != base_url
            + "/cdn-cgi/trace"@)),
{
    let blacklist = text::views(file.domains.blacklist@);
    if let Ok(running) = config::runtime_of(file, external) {
        if let config::DomainFile::Loaded(loaded) = external {
            let items = config::lines_of(file.domains, external)->Ok_0;
            let path = running.test.download_file_path;
            let merged = domains::merged_of(
                config::items_view(loaded@),
                config::items_view(file.domains.overrides@),
            )->Ok_0;
            if 0 <= i < running.targets.len() {
                law_targets_are_distinct(items, path);
                law_targets_keep_to_their_lines(items, path, i);
                law_blacklist_is_exact(merged, blacklist, items[i]);
                assert(items.contains(items[i]));
                let own = domains::base_url_of(items[i].url)->0;
                if let Some(base_url) = domains::base_url_of(blacklist[blocked]) {
                    let suffix = "/cdn-cgi/trace"@;
                    if own + suffix == base_url + suffix {
                        assert(own =~= (own + suffix).take((own + suffix).len() - suffix.len()));
                        assert(base_url =~= (base_url + suffix).take(
                            (base_url + suffix).len() - suffix.len(),
                        ));
                        assert(domains::blacklisted(items[i].url, blacklist));
                    }
                }
            }
        }
    }
}

/// The path of the file is taken without the white space around it, whole, if it starts with a
/// slash and goes on behind it; anything else is refused with what it is.
pub proof fn law_file_path(a: Seq<char>, path: Seq<char>, b: Seq<char>)
    requires
        text_laws::is_blank(a),
        text_laws::is_blank(b),
        text_laws::is_tight(path),
    ensures
        path.len() > 1 && path[0] == '/' ==> config::file_path_of(a + path + b) == Ok::<
            Seq<char>,
            config::ConfigErrorModel,
        >(path),
        path.len() <= 1 || path[0] != '/' ==> config::file_path_of(a + path + b) == Err::<
            Seq<char>,
            config::ConfigErrorModel,
        >(config::ConfigErrorModel::InvalidDownloadFilePath(path)),
{
    text_laws::law_trimming(a, path, b);
}

/// Whether `n` was brought into the range from `low` to `high`: it stays where it is inside, and
/// becomes the nearer end where it is not.
pub open spec fn is_brought_into(before: int, low: int, high: int, after: int) -> bool {
    &&& low <= before <= high ==> after == before
    &&& before < low ==> after == low
    &&& before > high ==> after == high
}

/// Each number of the test settings is brought into its range, the path is taken as a path is, the
/// ratio stays, and nothing but the path can be refused.
pub proof fn law_test_settings<N>(given: config::SettingsModel<N>)
    ensures
        match config::file_path_of(given.download_file_path) {
            Ok(path) => config::settings_of(given) matches Ok(settings) && {
                &&& is_brought_into(
                    given.latency_rounds as int,
                    1,
                    20,
                    settings.latency_rounds as int,
                )
                &&& is_brought_into(
                    given.latency_timeout_ms as int,
                    300,
                    30_000,
                    settings.latency_timeout_ms as int,
                )
                &&& is_brought_into(
                    given.download_test_ms as int,
                    1_000,
                    120_000,
                    settings.download_test_ms as int,
                )
                &&& settings.download_file_path == path
                &&& settings.progress_save_ratio == given.progress_save_ratio
            },
            Err(e) => config::settings_of(given) == Err::<
                config::SettingsModel<N>,
                config::ConfigErrorModel,
            >(e),
        },
{
}

/// The history settings are brought into their range, and refused only where the default is then
/// above the limit.
pub proof fn law_history_settings(
    given: config::HistorySettings,
    default_limit: usize,
    max_limit: usize,
)
    requires
        is_brought_into(given.default_limit as int, 1, 1000, default_limit as int),
        is_brought_into(given.max_limit as int, 1, 1000, max_limit as int),
    ensures
        default_limit <= max_limit ==> config::history_of(given) == Ok::<
            config::HistorySettings,
            config::ConfigErrorModel,
        >(config::HistorySettings { default_limit, max_limit }),
        default_limit > max_limit ==> config::history_of(given) == Err::<
            config::HistorySettings,
            config::ConfigErrorModel,
        >(config::ConfigErrorModel::InvalidHistoryLimit),
{
}

/// A query returns what is asked for, or the default, brought into the range that the limit sets.
pub proof fn law_history_limit(settings: config::HistorySettings, n: usize)
    requires
        settings.max_limit >= 1,
    ensures
        is_brought_into(n as int, 1, settings.max_limit as int, settings.limit_of(Some(n))),
        is_brought_into(
            settings.default_limit as int,
            1,
            settings.max_limit as int,
            settings.limit_of(None),
        ),
{
}

/// The section `speedtest` is taken where there is one, whatever else there is; the section `test`
/// only where there is none; without both the configuration is refused.
pub proof fn law_test_section<N>(
    first: config::FileTestSettings<N>,
    second: config::FileTestSettings<N>,
    other: Option<config::FileTestSettings<N>>,
)
    ensures
        config::chosen_settings(Some(first), other) == Ok::<
            config::SettingsModel<N>,
            config::ConfigErrorModel,
        >(
            config::SettingsModel {
                latency_rounds: first.latency_rounds,
                latency_timeout_ms: first.latency_timeout_ms,
                download_test_ms: first.download_test_ms,
                download_file_path: first.download_file_path@,
                progress_save_ratio: first.progress_save_ratio,
            },
        ),
        config::chosen_settings(None, Some(second)) == config::chosen_settings(
            Some(second),
            None::<config::FileTestSettings<N>>,
        ),
        config::chosen_settings(None::<config::FileTestSettings<N>>, None) == Err::<
            config::SettingsModel<N>,
            config::ConfigErrorModel,
        >(config::ConfigErrorModel::MissingSpeedtestSettings),
{
}

/// The lines come from the file of lines: merged with the overrides of the configuration, then
/// filtered by its blacklist. A file that is missing, unreadable, malformed or empty is the error.
pub proof fn law_lines(
    domains_config: config::DomainConfig,
    reason: String,
    items: Vec<config::DomainItem>,
)
    ensures
        config::lines_of(domains_config, config::DomainFile::Missing) == Err::<
            Seq<config::ItemModel>,
            config::ConfigErrorModel,
        >(config::ConfigErrorModel::MissingDomainFile(domains_config.path@)),
        config::lines_of(domains_config, config::DomainFile::Unreadable(reason)) == Err::<
            Seq<config::ItemModel>,
            config::ConfigErrorModel,
        >(config::ConfigErrorModel::Io(reason@)),
        config::lines_of(domains_config, config::DomainFile::Malformed(reason)) == Err::<
            Seq<config::ItemModel>,
            config::ConfigErrorModel,
        >(config::ConfigErrorModel::Yaml(reason@)),
        items@.len() == 0 ==> config::lines_of(domains_config, config::DomainFile::Loaded(items))
            == Err::<Seq<config::ItemModel>, config::ConfigErrorModel>(
            config::ConfigErrorModel::NoDomains,
        ),
        items@.len() > 0 ==> (match domains::merged_of(
            config::items_view(items@),
            config::items_view(domains_config.overrides@),
        ) {
            Ok(merged) => config::lines_of(domains_config, config::DomainFile::Loaded(items))
                == domains::filtered_of(merged, text::views(domains_config.blacklist@)),
            Err(e) => config::lines_of(domains_config, config::DomainFile::Loaded(items)) == Err::<
                Seq<config::ItemModel>,
                config::ConfigErrorModel,
            >(e),
        }),
{
}

/// The model of lines is what each of them holds, one for one, and so is that of targets.
pub proof fn law_models_of_lines_and_targets(
    items: Seq<config::DomainItem>,
    targets: Seq<config::TestTarget>,
    i: int,
)
    ensures
        config::items_view(items).len() == items.len(),
        config::targets_view(targets).len() == targets.len(),
        0 <= i < items.len() ==> {
            &&& config::items_view(items)[i].url == items[i].url@
            &&& config::items_view(items)[i].name == text::optional_view(items[i].name)
            &&& config::items_view(items)[i].cname == text::optional_view(items[i].cname)
        },
        0 <= i < targets.len() ==> {
            &&& config::targets_view(targets)[i].key == targets[i].key@
            &&& config::targets_view(targets)[i].label == targets[i].label@
            &&& config::targets_view(targets)[i].host == targets[i].host@
            &&& config::targets_view(targets)[i].cname == targets[i].cname@
            &&& config::targets_view(targets)[i].trace_url == targets[i].trace_url@
            &&& config::targets_view(targets)[i].download_url == targets[i].download_url@
        },
{
}

/// What a configuration file says of the server, the database and the display is taken over as it
/// is; the test settings, the history settings and the lines are taken as each of them is.
pub proof fn law_configuration_is_taken_over<N>(
    file: config::FileConfig<N>,
    external: config::DomainFile,
)
    ensures
        config::runtime_of(file, external) matches Ok(running) ==> {
            &&& running.host == file.server.host@
            &&& running.port == file.server.port
            &&& running.database == file.database.path@
            &&& running.display.show_domains == file.display.show_domains
            &&& config::history_of(file.history) == Ok::<
                config::HistorySettings,
                config::ConfigErrorModel,
            >(running.history)
            &&& config::chosen_settings(file.speedtest, file.test) matches Ok(given)
            &&& config::settings_of(given) == Ok::<
                config::SettingsModel<N>,
                config::ConfigErrorModel,
            >(running.test)
            &&& config::lines_of(file.domains, external) matches Ok(lines)
            &&& domains::targets_of(lines, running.test.download_file_path) == Ok::<
                Seq<config::TargetModel>,
                config::ConfigErrorModel,
            >(running.targets)
        },
{
}

/// A configuration is owed where its lines, its test settings, its targets and its history settings
/// are all right and there is a target; the first of them that is not is the error.
pub proof fn law_configuration_is_owed<N>(
    file: config::FileConfig<N>,
    external: config::DomainFile,
    e: config::ConfigErrorModel,
)
    ensures
        config::runtime_of(file, external) == Err::<
            config::RuntimeModel<N>,
            config::ConfigErrorModel,
        >(e) <==> (match config::lines_of(file.domains, external) {
            Err(first) => e == first,
            Ok(lines) => match config::chosen_settings(file.speedtest, file.test) {
                Err(first) => e == first,
                Ok(given) => match config::settings_of(given) {
                    Err(first) => e == first,
                    Ok(test) => match domains::targets_of(lines, test.download_file_path) {
                        Err(first) => e == first,
                        Ok(targets) => {
                            ||| targets.len() == 0 && e == config::ConfigErrorModel::NoDomains
                            ||| targets.len() > 0 && config::history_of(file.history) == Err::<
                                config::HistorySettings,
                                config::ConfigErrorModel,
                            >(e)
                        },
                    },
                },
            },
        }),
{
}

/// A message says what is wrong and with what, whole.
pub proof fn law_configuration_messages(t: Seq<char>)
    ensures
        config::ConfigErrorModel::Io(t).message() == "读取配置失败: "@ + t,
        config::ConfigErrorModel::MissingConfig(t).message() == "配置文件不存在: "@ + t,
        config::ConfigErrorModel::MissingDomainFile(t).message() == "外部线路文件不存在: "@ + t,
        config::ConfigErrorModel::Toml(t).message() == "TOML 配置解析失败: "@ + t,
        config::ConfigErrorModel::Yaml(t).message() == "YAML 线路配置解析失败: "@ + t,
        config::ConfigErrorModel::InvalidDomainUrl(t).message() == "线路 URL 无效: "@ + t,
        config::ConfigErrorModel::DuplicateDomain(t).message() == "重复线路域名: "@ + t,
        config::ConfigErrorModel::InvalidDownloadFilePath(t).message()
            == "speedtest.download_file_path 必须以 / 开头且不能只写 /: "@ + t,
        config::ConfigErrorModel::NoDomains.message() == "配置中没有可用线路"@,
        config::ConfigErrorModel::MissingSpeedtestSettings.message()
            == "缺少 [speedtest] 配置段"@,
        config::ConfigErrorModel::InvalidHistoryLimit.message()
            == "历史记录默认查询数量不能大于最大查询数量"@,
{
}

/// The model of a running configuration is what it holds, and so is that of test settings.
pub proof fn law_model_of_configuration<N>(
    running: config::RuntimeConfig<N>,
    settings: config::TestSettings<N>,
    given: config::FileTestSettings<N>,
)
    ensures
        running@.host == running.server.host@,
        running@.port == running.server.port,
        running@.database == running.database.path@,
        running@.test == running.test@,
        running@.history == running.history,
        running@.display == running.display,
        running@.targets == config::targets_view(running.targets@),
        settings@.latency_rounds == settings.latency_rounds,
        settings@.latency_timeout_ms == settings.latency_timeout_ms,
        settings@.download_test_ms == settings.download_test_ms,
        settings@.download_file_path == settings.download_file_path@,
        settings@.progress_save_ratio == settings.progress_save_ratio,
        given@.latency_rounds == given.latency_rounds,
        given@.latency_timeout_ms == given.latency_timeout_ms,
        given@.download_test_ms == given.download_test_ms,
        given@.download_file_path == given.download_file_path@,
        given@.progress_save_ratio == given.progress_save_ratio,
{
}

/// The model of an outcome is that of what came out.
pub proof fn law_model_of_outcomes<N>(
    running: config::RuntimeConfig<N>,
    settings: config::TestSettings<N>,
    given: config::FileTestSettings<N>,
    history: config::HistorySettings,
    e: config::ConfigError,
)
    ensures
        config::runtime_view(Ok(running)) == Ok::<
            config::RuntimeModel<N>,
            config::ConfigErrorModel,
        >(running@),
        config::runtime_view::<N>(Err(e)) == Err::<
            config::RuntimeModel<N>,
            config::ConfigErrorModel,
        >(e@),
        config::settings_view(Ok(settings)) == Ok::<
            config::SettingsModel<N>,
            config::ConfigErrorModel,
        >(settings@),
        config::settings_view::<N>(Err(e)) == Err::<
            config::SettingsModel<N>,
            config::ConfigErrorModel,
        >(e@),
        config::file_settings_view(Ok(given)) == Ok::<
            config::SettingsModel<N>,
            config::ConfigErrorModel,
        >(given@),
        config::file_settings_view::<N>(Err(e)) == Err::<
            config::SettingsModel<N>,
            config::ConfigErrorModel,
        >(e@),
        config::history_view(Ok(history)) == Ok::<
            config::HistorySettings,
            config::ConfigErrorModel,
        >(history),
        config::history_view(Err(e)) == Err::<config::HistorySettings, config::ConfigErrorModel>(
            e@,
        ),
{
}

/// The model of an error is of its kind and holds the same text.
pub proof fn law_model_of_configuration_errors(t: String)
    ensures
        config::ConfigError::Io(t)@ == config::ConfigErrorModel::Io(t@),
        config::ConfigError::MissingConfig(t)@ == config::ConfigErrorModel::MissingConfig(t@),
        config::ConfigError::MissingDomainFile(t)@ == config::ConfigErrorModel::MissingDomainFile(
            t@,
        ),
        config::ConfigError::Toml(t)@ == config::ConfigErrorModel::Toml(t@),
        config::ConfigError::Yaml(t)@ == config::ConfigErrorModel::Yaml(t@),
        config::ConfigError::NoDomains@ == config::ConfigErrorModel::NoDomains,
        config::ConfigError::InvalidDomainUrl(t)@ == config::ConfigErrorModel::InvalidDomainUrl(
            t@,
        ),
        config::ConfigError::DuplicateDomain(t)@ == config::ConfigErrorModel::DuplicateDomain(t@),
        config::ConfigError::MissingSpeedtestSettings@
            == config::ConfigErrorModel::MissingSpeedtestSettings,
        config::ConfigError::InvalidDownloadFilePath(t)@
            == config::ConfigErrorModel::InvalidDownloadFilePath(t@),
        config::ConfigError::InvalidHistoryLimit@ == config::ConfigErrorModel::InvalidHistoryLimit,
{
}

} // verus!
