//! The lines of a configuration: merging, filtering and turning them into targets.
use vstd::prelude::*;
use vstd::string::*;

use crate::config;
use crate::config::{ConfigError, DomainItem, TestTarget};
use crate::text;
use crate::text_lemmas;

verus! {

/// The address of a line without surrounding white space and trailing slashes; `None` where it
/// is no `http` or `https` address.
pub open spec fn base_url_of(input: Seq<char>) -> Option<Seq<char>> {
    let url = text::trimmed_end_of(text::trimmed(input), '/');
    if "https://"@.is_prefix_of(url) || "http://"@.is_prefix_of(url) {
        Some(url)
    } else {
        None
    }
}

/// `url` without its scheme.
pub open spec fn without_scheme(url: Seq<char>) -> Seq<char> {
    if "https://"@.is_prefix_of(url) {
        url.skip("https://"@.len() as int)
    } else if "http://"@.is_prefix_of(url) {
        url.skip("http://"@.len() as int)
    } else {
        url
    }
}

/// The text without surrounding white space, where anything is left.
pub open spec fn non_empty_of(value: Option<Seq<char>>) -> Option<Seq<char>> {
    match value {
        Some(t) => if text::trimmed(t).len() > 0 {
            Some(text::trimmed(t))
        } else {
            None
        },
        None => None,
    }
}

/// The name under which a line is shown: the configured one, else its host.
pub open spec fn label_of(name: Option<Seq<char>>, host: Seq<char>) -> Seq<char> {
    match non_empty_of(name) {
        Some(label) => label,
        None => host,
    }
}

/// The canonical name under which a line is shown, without scheme and trailing slashes; a dash
/// where nothing is left.
pub open spec fn cname_of(cname: Option<Seq<char>>) -> Seq<char> {
    match non_empty_of(cname) {
        Some(given) => {
            let shown = text::trimmed(text::trimmed_end_of(without_scheme(given), '/'));
            if shown.len() > 0 {
                shown
            } else {
                "-"@
            }
        },
        None => "-"@,
    }
}

/// `input` in lower case with a single dash for each run of other characters.
pub open spec fn dashed(input: Seq<char>) -> Seq<char>
    decreases input.len(),
{
    if input.len() == 0 {
        Seq::empty()
    } else {
        let before = dashed(input.drop_last());
        if text::ascii_alphanumeric(input.last()) {
            before.push(text::ascii_lower(input.last()))
        } else if before.len() > 0 && before.last() == '-' {
            before
        } else {
            before.push('-')
        }
    }
}

/// `input` as a key: lower-case letters and digits with single dashes between them.
pub open spec fn slug_of(input: Seq<char>) -> Seq<char> {
    text::trimmed_of(dashed(input), '-')
}

/// `base` with a number behind it.
pub open spec fn numbered(base: Seq<char>, n: nat) -> Seq<char> {
    base + "-"@ + text::decimal(n)
}

/// Whether `n` is the smallest number, from two on, that makes a key not yet in use.
pub open spec fn first_free(base: Seq<char>, used: Seq<Seq<char>>, n: nat) -> bool {
    &&& 2 <= n
    &&& !used.contains(numbered(base, n))
    &&& forall|m: nat| 2 <= m < n ==> used.contains(#[trigger] numbered(base, m))
}

/// `base`, with the smallest free number behind it where it is in use already.
pub open spec fn unique_key_of(base: Seq<char>, used: Seq<Seq<char>>) -> Seq<char> {
    if used.contains(base) {
        numbered(base, choose|n: nat| first_free(base, used, n))
    } else {
        base
    }
}

/// The keys of `targets`.
pub open spec fn keys_of(targets: Seq<config::TargetModel>) -> Seq<Seq<char>> {
    targets.map_values(|target: config::TargetModel| target.key)
}

/// The hosts of `targets` in lower case.
pub open spec fn hosts_of(targets: Seq<config::TargetModel>) -> Seq<Seq<char>> {
    targets.map_values(|target: config::TargetModel| text::ascii_lowered(target.host))
}

/// The key of a line before it is made unique: from its host, else from its label.
pub open spec fn plain_key_of(name: Option<Seq<char>>, host: Seq<char>) -> Seq<char> {
    if slug_of(host).len() > 0 {
        slug_of(host)
    } else {
        slug_of(label_of(name, host))
    }
}

/// The target that `item` becomes behind the targets `done`.
pub open spec fn next_target(
    done: Seq<config::TargetModel>,
    item: config::ItemModel,
    file_path: Seq<char>,
) -> Result<config::TargetModel, config::ConfigErrorModel> {
    match base_url_of(item.url) {
        None => Err(config::ConfigErrorModel::InvalidDomainUrl(item.url)),
        Some(base_url) => {
            let host = without_scheme(base_url);
            if hosts_of(done).contains(text::ascii_lowered(host)) {
                Err(config::ConfigErrorModel::DuplicateDomain(text::ascii_lowered(host)))
            } else {
                Ok(
                    config::TargetModel {
                        key: unique_key_of(plain_key_of(item.name, host), keys_of(done)),
                        label: label_of(item.name, host),
                        host,
                        cname: cname_of(item.cname),
                        trace_url: base_url + "/cdn-cgi/trace"@,
                        download_url: base_url + file_path,
                    },
                )
            }
        },
    }
}

/// The targets of `items`, in order, or the error of the first item that makes none.
pub open spec fn targets_of(items: Seq<config::ItemModel>, file_path: Seq<char>) -> Result<
    Seq<config::TargetModel>,
    config::ConfigErrorModel,
>
    decreases items.len(),
{
    if items.len() == 0 {
        Ok(Seq::empty())
    } else {
        match targets_of(items.drop_last(), file_path) {
            Err(e) => Err(e),
            Ok(done) => match next_target(done, items.last(), file_path) {
                Err(e) => Err(e),
                Ok(target) => Ok(done.push(target)),
            },
        }
    }
}

/// The outcome of building targets, as a model.
pub open spec fn built_view(r: Result<Vec<TestTarget>, ConfigError>) -> Result<
    Seq<config::TargetModel>,
    config::ConfigErrorModel,
> {
    match r {
        Ok(targets) => Ok(config::targets_view(targets@)),
        Err(e) => Err(e@),
    }
}

/// The outcome of an operation on lines, as a model.
pub open spec fn items_result_view(r: Result<Vec<DomainItem>, ConfigError>) -> Result<
    Seq<config::ItemModel>,
    config::ConfigErrorModel,
> {
    match r {
        Ok(items) => Ok(config::items_view(items@)),
        Err(e) => Err(e@),
    }
}

/// The outcome of an operation on text, as a model.
pub open spec fn text_result_view(r: Result<String, ConfigError>) -> Result<
    Seq<char>,
    config::ConfigErrorModel,
> {
    match r {
        Ok(t) => Ok(t@),
        Err(e) => Err(e@),
    }
}

/// The text without surrounding white space, where anything is left.
pub fn non_empty_string(value: Option<&str>) -> (r: Option<&str>)
    ensures
        text::optional_str_view(r) == non_empty_of(text::optional_str_view(value)),
{
    match value {
        Some(t) => {
            let shown = text::trim(t);
            if shown.is_empty() {
                None
            } else {
                Some(shown)
            }
        },
        None => None,
    }
}

/// The name under which a line is shown.
pub fn display_label(name: Option<&str>, host: &str) -> (r: String)
    ensures
        r@ == label_of(text::optional_str_view(name), host@),
{
    match non_empty_string(name) {
        Some(label) => label.to_owned(),
        None => host.to_owned(),
    }
}

/// `url` without its scheme.
fn strip_scheme(url: &str) -> (r: &str)
    ensures
        r@ == without_scheme(url@),
{
    match text::strip_prefix(url, "https://") {
        Some(rest) => rest,
        None => match text::strip_prefix(url, "http://") {
            Some(rest) => rest,
            None => url,
        },
    }
}

/// The canonical name under which a line is shown.
pub fn display_cname(cname: Option<&str>) -> (r: String)
    ensures
        r@ == cname_of(text::optional_str_view(cname)),
{
    match non_empty_string(cname) {
        None => "-".to_owned(),
        Some(given) => {
            let shown = text::trim(text::trim_end_matches(strip_scheme(given), '/'));
            if shown.is_empty() {
                "-".to_owned()
            } else {
                shown.to_owned()
            }
        },
    }
}

/// The address of a line without surrounding white space and trailing slashes.
pub fn normalize_base_url(input: &str) -> (r: Result<String, ConfigError>)
    ensures
        text_result_view(r) == (match base_url_of(input@) {
            Some(url) => Ok::<Seq<char>, config::ConfigErrorModel>(url),
            None => Err(config::ConfigErrorModel::InvalidDomainUrl(input@)),
        }),
{
    let url = text::trim_end_matches(text::trim(input), '/');
    if text::starts_with(url, "https://") || text::starts_with(url, "http://") {
        Ok(url.to_owned())
    } else {
        Err(ConfigError::InvalidDomainUrl(input.to_owned()))
    }
}

/// `input` as a key: lower-case letters and digits with single dashes between them.
pub fn slugify(input: &str) -> (r: String)
    ensures
        r@ == slug_of(input@),
{
    let mut out = String::new();
    let mut last_dash = false;
    for c in it: input.chars()
        invariant
            it.seq() == input@,
            out@ == dashed(it.seq().take(it.index() as int)),
            last_dash == (out@.len() > 0 && out@.last() == '-'),
    {
        proof {
            let k = it.index() as int;
            assert(it.seq().take(k + 1).drop_last() =~= it.seq().take(k));
        }
        if text::is_ascii_alphanumeric(c) {
            out.push(text::lower_char(c));
            last_dash = false;
        } else if !last_dash {
            out.push('-');
            last_dash = true;
        }
    }
    proof {
        assert(input@.take(input@.len() as int) =~= input@);
    }
    text::trim_matches(out.as_str(), '-').to_owned()
}

/// Whether `list` holds the text `t`.
fn holds(list: &Vec<String>, t: &str) -> (r: bool)
    ensures
        r == text::views(list@).contains(t@),
{
    let ghost all = text::views(list@);
    let mut i: usize = 0;
    while i < list.len()
        invariant
            i <= list@.len(),
            all == text::views(list@),
            forall|j: int| 0 <= j < i ==> all[j] != t@,
        decreases list@.len() - i,
    {
        if text::same_text(list[i].as_str(), t) {
            proof {
                assert(all[i as int] == t@);
            }
            return true;
        }
        i += 1;
    }
    false
}

/// Different numbers behind a base make different keys.
pub proof fn lemma_numbered_is_injective(base: Seq<char>, m: nat, n: nat)
    requires
        numbered(base, m) == numbered(base, n),
    ensures
        m == n,
{
    let front = base + "-"@;
    let a = text::decimal(m);
    let b = text::decimal(n);
    assert(a =~= numbered(base, m).skip(front.len() as int));
    assert(b =~= numbered(base, n).skip(front.len() as int));
    text_lemmas::lemma_digits(m, 10);
    text_lemmas::lemma_digits(n, 10);
}

/// Where all numbers from two up to `n` are in use, `n` is not far off.
pub(crate) proof fn lemma_numbers_in_use(base: Seq<char>, used: Seq<Seq<char>>, n: nat)
    requires
        2 <= n,
        forall|m: nat| 2 <= m < n ==> used.contains(#[trigger] numbered(base, m)),
    ensures
        n <= used.len() + 2,
{
    let numbers = vstd::set_lib::set_int_range(2, n as int);
    let key = |m: int| numbered(base, m as nat);
    let taken = numbers.map(key);
    vstd::set_lib::lemma_int_range(2, n as int);
    assert forall|a: int, b: int|
        numbers.contains(a) && numbers.contains(b) && #[trigger] key(a) == #[trigger] key(
            b,
        ) implies a == b by {
        lemma_numbered_is_injective(base, a as nat, b as nat);
    }
    vstd::set_lib::lemma_map_size(numbers, taken, key);
    assert forall|k: Seq<char>| taken.contains(k) implies used.to_set().contains(k) by {
        let m = choose|m: int| numbers.contains(m) && key(m) == k;
        assert(used.contains(numbered(base, m as nat)));
    }
    vstd::seq_lib::seq_to_set_is_finite(used);
    vstd::set_lib::lemma_len_subset(taken, used.to_set());
    used.lemma_cardinality_of_set();
}

proof fn lemma_first_free(base: Seq<char>, used: Seq<Seq<char>>, n: nat)
    requires
        used.contains(base),
        first_free(base, used, n),
    ensures
        unique_key_of(base, used) == numbered(base, n),
{
    let m = choose|m: nat| first_free(base, used, m);
    assert(first_free(base, used, m));
    if m < n {
        assert(used.contains(numbered(base, m)));
    } else if n < m {
        assert(used.contains(numbered(base, n)));
    }
}

/// Makes `base` a key that is not yet in use, and notes it as used.
pub fn unique_key(base: String, used_keys: &mut Vec<String>) -> (r: String)
    ensures
        r@ == unique_key_of(base@, text::views(old(used_keys)@)),
        text::views(final(used_keys)@) == text::views(old(used_keys)@).push(r@),
        !text::views(old(used_keys)@).contains(r@),
{
    let ghost used = text::views(used_keys@);
    if !holds(used_keys, base.as_str()) {
        used_keys.push(base.clone());
        proof {
            assert(text::views(used_keys@) =~= used.push(base@));
        }
        return base;
    }
    let count = used_keys.len();
    let mut index: u128 = 2;
    loop
        invariant
            used == text::views(old(used_keys)@),
            used_keys@ == old(used_keys)@,
            used.len() == count,
            used.contains(base@),
            2 <= index,
            forall|m: nat| 2 <= m < index ==> used.contains(#[trigger] numbered(base@, m)),
        decreases used.len() + 3 - index,
    {
        proof {
            lemma_numbers_in_use(base@, used, index as nat);
        }
        let mut candidate = base.clone();
        candidate.append("-");
        candidate.append(text::decimal_text(index).as_str());
        if !holds(used_keys, candidate.as_str()) {
            proof {
                assert(first_free(base@, used, index as nat));
                lemma_first_free(base@, used, index as nat);
            }
            used_keys.push(candidate.clone());
            proof {
                assert(text::views(used_keys@) =~= used.push(candidate@));
            }
            return candidate;
        }
        proof {
            assert forall|m: nat| 2 <= m < index + 1 implies used.contains(
                #[trigger] numbered(base@, m),
            ) by {
                if m == index {
                    assert(candidate@ == numbered(base@, m));
                }
            }
            lemma_numbers_in_use(base@, used, index as nat + 1);
        }
        index += 1;
    }
}

/// An item that makes no target decides the outcome.
pub(crate) proof fn lemma_first_error(items: Seq<config::ItemModel>, file_path: Seq<char>, n: int)
    requires
        0 <= n <= items.len(),
        targets_of(items.take(n), file_path) is Err,
    ensures
        targets_of(items, file_path) == targets_of(items.take(n), file_path),
    decreases items.len(),
{
    if n == items.len() {
        assert(items.take(n) =~= items);
    } else {
        assert(items.drop_last().take(n) =~= items.take(n));
        lemma_first_error(items.drop_last(), file_path, n);
    }
}

/// The target of one line whose host is not yet in use.
fn make_target(
    item: &DomainItem,
    base_url: &String,
    host: String,
    download_file_path: &str,
    used_keys: &mut Vec<String>,
) -> (r: TestTarget)
    ensures
        r@ == (config::TargetModel {
            key: unique_key_of(
                plain_key_of(item@.name, host@),
                text::views(old(used_keys)@),
            ),
            label: label_of(item@.name, host@),
            host: host@,
            cname: cname_of(item@.cname),
            trace_url: base_url@ + "/cdn-cgi/trace"@,
            download_url: base_url@ + download_file_path@,
        }),
        text::views(final(used_keys)@) == text::views(old(used_keys)@).push(r@.key),
{
    let name = match &item.name {
        Some(t) => Some(t.as_str()),
        None => None,
    };
    let cname = match &item.cname {
        Some(t) => Some(t.as_str()),
        None => None,
    };
    let label = display_label(name, host.as_str());
    let mut key = slugify(host.as_str());
    if key.as_str().is_empty() {
        key = slugify(label.as_str());
    }
    let key = unique_key(key, used_keys);
    let mut trace_url = base_url.clone();
    trace_url.append("/cdn-cgi/trace");
    let mut download_url = base_url.clone();
    download_url.append(download_file_path);
    TestTarget { key, label, host, cname: display_cname(cname), trace_url, download_url }
}

/// Turns configured lines into targets with unique keys and hosts.
pub fn build_targets(items: &Vec<DomainItem>, download_file_path: &str) -> (r: Result<
    Vec<TestTarget>,
    ConfigError,
>)
    ensures
        built_view(r) == targets_of(config::items_view(items@), download_file_path@),
{
    let ghost model = config::items_view(items@);
    let ghost path = download_file_path@;
    let mut targets: Vec<TestTarget> = Vec::new();
    let mut used_keys: Vec<String> = Vec::new();
    let mut used_hosts: Vec<String> = Vec::new();
    let mut i: usize = 0;
    proof {
        assert(config::targets_view(targets@) =~= Seq::empty());
        assert(text::views(used_keys@) =~= keys_of(Seq::empty()));
        assert(text::views(used_hosts@) =~= hosts_of(Seq::empty()));
    }
    while i < items.len()
        invariant
            i <= items@.len(),
            model == config::items_view(items@),
            path == download_file_path@,
            targets_of(model.take(i as int), path) == Ok::<
                Seq<config::TargetModel>,
                config::ConfigErrorModel,
            >(config::targets_view(targets@)),
            text::views(used_keys@) == keys_of(config::targets_view(targets@)),
            text::views(used_hosts@) == hosts_of(config::targets_view(targets@)),
        decreases items@.len() - i,
    {
        let ghost done = config::targets_view(targets@);
        proof {
            assert(model.take(i + 1).drop_last() =~= model.take(i as int));
            assert(model.take(i + 1).last() == items@[i as int]@);
        }
        let base_url = match normalize_base_url(items[i].url.as_str()) {
            Ok(url) => url,
            Err(e) => {
                proof {
                    lemma_first_error(model, path, i + 1);
                }
                return Err(e);
            },
        };
        let host = strip_scheme(base_url.as_str()).to_owned();
        let host_key = text::to_ascii_lowercase(host.as_str());
        if holds(&used_hosts, host_key.as_str()) {
            proof {
                lemma_first_error(model, path, i + 1);
            }
            return Err(ConfigError::DuplicateDomain(host_key));
        }
        let ghost hosts = text::views(used_hosts@);
        used_hosts.push(host_key);
        let target = make_target(&items[i], &base_url, host, download_file_path, &mut used_keys);
        let ghost made = target@;
        targets.push(target);
        proof {
            assert(text::views(used_hosts@) =~= hosts.push(host_key@));
            assert(config::targets_view(targets@) =~= done.push(made));
            assert(keys_of(done.push(made)) =~= keys_of(done).push(made.key));
            assert(hosts_of(done.push(made)) =~= hosts_of(done).push(host_key@));
        }
        i += 1;
    }
    proof {
        assert(model.take(i as int) =~= model);
    }
    Ok(targets)
}

/// The first of `urls` that is no address of a line.
pub open spec fn first_invalid(urls: Seq<Seq<char>>) -> Option<Seq<char>>
    decreases urls.len(),
{
    if urls.len() == 0 {
        None
    } else {
        match first_invalid(urls.drop_last()) {
            Some(url) => Some(url),
            None => if base_url_of(urls.last()) is None {
                Some(urls.last())
            } else {
                None
            },
        }
    }
}

/// The addresses of `items`, as configured.
pub open spec fn urls_of(items: Seq<config::ItemModel>) -> Seq<Seq<char>> {
    items.map_values(|item: config::ItemModel| item.url)
}

/// The position of the last of `items` with the given address.
pub open spec fn last_with_url(items: Seq<config::ItemModel>, base_url: Seq<char>) -> Option<int>
    decreases items.len(),
{
    if items.len() == 0 {
        None
    } else if base_url_of(items.last().url) == Some(base_url) {
        Some(items.len() - 1)
    } else {
        last_with_url(items.drop_last(), base_url)
    }
}

/// `item` with the name and the canonical name that `change` gives.
pub open spec fn patched(item: config::ItemModel, change: config::ItemModel) -> config::ItemModel {
    config::ItemModel {
        name: match non_empty_of(change.name) {
            Some(name) => Some(name),
            None => item.name,
        },
        url: item.url,
        cname: match non_empty_of(change.cname) {
            Some(cname) => Some(cname),
            None => item.cname,
        },
    }
}

/// `items` with the line of the same address patched, or with `change` added at the end.
pub open spec fn with_override(
    items: Seq<config::ItemModel>,
    change: config::ItemModel,
) -> Seq<config::ItemModel> {
    match base_url_of(change.url) {
        Some(base_url) => match last_with_url(items, base_url) {
            Some(i) => items.update(i, patched(items[i], change)),
            None => items.push(change),
        },
        None => items,
    }
}

/// `items` with each of `overrides` applied, in order.
pub open spec fn with_overrides(
    items: Seq<config::ItemModel>,
    overrides: Seq<config::ItemModel>,
) -> Seq<config::ItemModel>
    decreases overrides.len(),
{
    if overrides.len() == 0 {
        items
    } else {
        with_override(with_overrides(items, overrides.drop_last()), overrides.last())
    }
}

/// The lines after the overrides, or the error of the first address that is none.
pub open spec fn merged_of(
    items: Seq<config::ItemModel>,
    overrides: Seq<config::ItemModel>,
) -> Result<Seq<config::ItemModel>, config::ConfigErrorModel> {
    match first_invalid(urls_of(items)) {
        Some(url) => Err(config::ConfigErrorModel::InvalidDomainUrl(url)),
        None => match first_invalid(urls_of(overrides)) {
            Some(url) => Err(config::ConfigErrorModel::InvalidDomainUrl(url)),
            None => Ok(with_overrides(items, overrides)),
        },
    }
}

/// Whether `blacklist` names the address `url`, whatever slashes end either of them.
pub open spec fn blacklisted(url: Seq<char>, blacklist: Seq<Seq<char>>) -> bool {
    exists|i: int|
        0 <= i < blacklist.len() && base_url_of(#[trigger] blacklist[i]) == base_url_of(url)
}

/// The lines that `blacklist` does not name.
pub open spec fn not_blacklisted(
    items: Seq<config::ItemModel>,
    blacklist: Seq<Seq<char>>,
) -> Seq<config::ItemModel>
    decreases items.len(),
{
    if items.len() == 0 {
        items
    } else {
        let before = not_blacklisted(items.drop_last(), blacklist);
        if blacklisted(items.last().url, blacklist) {
            before
        } else {
            before.push(items.last())
        }
    }
}

/// The lines that are left of `items`, or the error of the first address that is none. Without
/// a blacklist nothing is looked at.
pub open spec fn filtered_of(
    items: Seq<config::ItemModel>,
    blacklist: Seq<Seq<char>>,
) -> Result<Seq<config::ItemModel>, config::ConfigErrorModel> {
    if blacklist.len() == 0 {
        Ok(items)
    } else {
        match first_invalid(blacklist) {
            Some(url) => Err(config::ConfigErrorModel::InvalidDomainUrl(url)),
            None => match first_invalid(urls_of(items)) {
                Some(url) => Err(config::ConfigErrorModel::InvalidDomainUrl(url)),
                None => Ok(not_blacklisted(items, blacklist)),
            },
        }
    }
}

proof fn lemma_first_invalid(urls: Seq<Seq<char>>, n: int)
    requires
        0 <= n <= urls.len(),
        first_invalid(urls.take(n)) is Some,
    ensures
        first_invalid(urls) == first_invalid(urls.take(n)),
    decreases urls.len(),
{
    if n == urls.len() {
        assert(urls.take(n) =~= urls);
    } else {
        assert(urls.drop_last().take(n) =~= urls.take(n));
        lemma_first_invalid(urls.drop_last(), n);
    }
}

/// Whether `base_urls` holds the addresses of `items`, one for one.
spec fn indexes(base_urls: Seq<Seq<char>>, items: Seq<config::ItemModel>) -> bool {
    &&& base_urls.len() == items.len()
    &&& forall|i: int|
        0 <= i < items.len() ==> base_url_of(#[trigger] items[i].url) == Some(base_urls[i])
}

proof fn lemma_last_with_url(
    items: Seq<config::ItemModel>,
    base_urls: Seq<Seq<char>>,
    base_url: Seq<char>,
    n: int,
)
    requires
        indexes(base_urls, items),
        0 <= n <= items.len(),
        forall|j: int| n <= j < items.len() ==> base_urls[j] != base_url,
        0 < n ==> base_urls[n - 1] == base_url,
    ensures
        last_with_url(items, base_url) == (if n > 0 {
            Some(n - 1)
        } else {
            None
        }),
    decreases items.len(),
{
    if items.len() > 0 {
        assert(base_url_of(items[items.len() - 1].url) == Some(base_urls[items.len() - 1]));
        if n < items.len() {
            let shorter = items.drop_last();
            assert forall|i: int| 0 <= i < shorter.len() implies base_url_of(
                #[trigger] shorter[i].url,
            ) == Some(base_urls.drop_last()[i]) by {
                assert(shorter[i] == items[i]);
            }
            lemma_last_with_url(shorter, base_urls.drop_last(), base_url, n);
        }
    }
}

/// Applies the non-empty names of `change` to `item`.
fn patch(item: DomainItem, change: &DomainItem) -> (r: DomainItem)
    ensures
        r@ == patched(item@, change@),
{
    let mut out = item;
    if let Some(given) = &change.name {
        if let Some(name) = non_empty_string(Some(given.as_str())) {
            out.name = Some(name.to_owned());
        }
    }
    if let Some(given) = &change.cname {
        if let Some(cname) = non_empty_string(Some(given.as_str())) {
            out.cname = Some(cname.to_owned());
        }
    }
    out
}

/// How many of `base_urls` are left up to and with the last that is `base_url`.
fn find_last(base_urls: &Vec<String>, base_url: &str) -> (n: usize)
    ensures
        n <= base_urls@.len(),
        forall|j: int| n <= j < base_urls@.len() ==> text::views(base_urls@)[j] != base_url@,
        0 < n ==> text::views(base_urls@)[n - 1] == base_url@,
{
    let mut n: usize = base_urls.len();
    while n > 0
        invariant
            n <= base_urls@.len(),
            forall|j: int| n <= j < base_urls@.len() ==> text::views(base_urls@)[j] != base_url@,
        decreases n,
    {
        if text::same_text(base_urls[n - 1].as_str(), base_url) {
            return n;
        }
        n -= 1;
    }
    0
}

/// Applies `overrides` to `domains`: a line of the same address is patched, any other is added.
pub fn merge_domain_overrides(domains: Vec<DomainItem>, overrides: &Vec<DomainItem>) -> (r: Result<
    Vec<DomainItem>,
    ConfigError,
>)
    ensures
        items_result_view(r) == merged_of(
            config::items_view(domains@),
            config::items_view(overrides@),
        ),
{
    let ghost given = config::items_view(domains@);
    let ghost changes = config::items_view(overrides@);
    let mut base_urls: Vec<String> = Vec::new();
    let mut i: usize = 0;
    while i < domains.len()
        invariant
            i <= domains@.len(),
            given == config::items_view(domains@),
            base_urls@.len() == i,
            first_invalid(urls_of(given).take(i as int)) is None,
            forall|j: int|
                0 <= j < i ==> base_url_of(#[trigger] given[j].url) == Some(
                    text::views(base_urls@)[j],
                ),
        decreases domains@.len() - i,
    {
        proof {
            let urls = urls_of(given);
            assert(urls.take(i + 1).drop_last() =~= urls.take(i as int));
            assert(urls.take(i + 1).last() == domains@[i as int]@.url);
        }
        match normalize_base_url(domains[i].url.as_str()) {
            Ok(url) => {
                base_urls.push(url);
            },
            Err(e) => {
                proof {
                    lemma_first_invalid(urls_of(given), i + 1);
                }
                return Err(e);
            },
        }
        i += 1;
    }
    proof {
        assert(urls_of(given).take(i as int) =~= urls_of(given));
    }
    let mut merged = domains;
    let mut k: usize = 0;
    proof {
        assert(changes.take(0) =~= Seq::empty());
    }
    while k < overrides.len()
        invariant
            k <= overrides@.len(),
            given == config::items_view(domains@),
            changes == config::items_view(overrides@),
            first_invalid(urls_of(given)) is None,
            first_invalid(urls_of(changes).take(k as int)) is None,
            config::items_view(merged@) == with_overrides(given, changes.take(k as int)),
            indexes(text::views(base_urls@), config::items_view(merged@)),
        decreases overrides@.len() - k,
    {
        let ghost before = config::items_view(merged@);
        let ghost keys = text::views(base_urls@);
        let change = &overrides[k];
        proof {
            let urls = urls_of(changes);
            assert(urls.take(k + 1).drop_last() =~= urls.take(k as int));
            assert(urls.take(k + 1).last() == change@.url);
            assert(changes.take(k + 1).drop_last() =~= changes.take(k as int));
            assert(changes.take(k + 1).last() == change@);
        }
        let base_url = match normalize_base_url(change.url.as_str()) {
            Ok(url) => url,
            Err(e) => {
                proof {
                    lemma_first_invalid(urls_of(changes), k + 1);
                }
                return Err(e);
            },
        };
        let n = find_last(&base_urls, base_url.as_str());
        proof {
            lemma_last_with_url(before, keys, base_url@, n as int);
        }
        if n > 0 {
            let item = patch(merged[n - 1].clone(), change);
            let ghost new = item@;
            merged.set(n - 1, item);
            proof {
                assert(config::items_view(merged@) =~= before.update(n - 1, new));
                assert forall|j: int| 0 <= j < before.len() implies base_url_of(
                    #[trigger] config::items_view(merged@)[j].url,
                ) == Some(keys[j]) by {
                    assert(base_url_of(before[j].url) == Some(keys[j]));
                }
            }
        } else {
            let ghost url = base_url@;
            base_urls.push(base_url);
            merged.push(change.clone());
            proof {
                assert(config::items_view(merged@) =~= before.push(change@));
                assert(text::views(base_urls@) =~= keys.push(url));
                assert forall|j: int| 0 <= j < before.len() + 1 implies base_url_of(
                    #[trigger] config::items_view(merged@)[j].url,
                ) == Some(keys.push(url)[j]) by {
                    if j < before.len() {
                        assert(base_url_of(before[j].url) == Some(keys[j]));
                    }
                }
            }
        }
        k += 1;
    }
    proof {
        assert(changes.take(k as int) =~= changes);
        assert(urls_of(changes).take(k as int) =~= urls_of(changes));
    }
    Ok(merged)
}

/// Removes the lines that `blacklist` names.
pub fn filter_blacklisted_domains(domains: Vec<DomainItem>, blacklist: &Vec<String>) -> (r: Result<
    Vec<DomainItem>,
    ConfigError,
>)
    ensures
        items_result_view(r) == filtered_of(
            config::items_view(domains@),
            text::views(blacklist@),
        ),
{
    if blacklist.len() == 0 {
        return Ok(domains);
    }
    let ghost named = text::views(blacklist@);
    let ghost given = config::items_view(domains@);
    let mut blocked: Vec<String> = Vec::new();
    let mut i: usize = 0;
    while i < blacklist.len()
        invariant
            i <= blacklist@.len(),
            named == text::views(blacklist@),
            blocked@.len() == i,
            first_invalid(named.take(i as int)) is None,
            forall|j: int|
                0 <= j < i ==> base_url_of(#[trigger] named[j]) == Some(text::views(blocked@)[j]),
        decreases blacklist@.len() - i,
    {
        proof {
            assert(named.take(i + 1).drop_last() =~= named.take(i as int));
        }
        match normalize_base_url(blacklist[i].as_str()) {
            Ok(url) => {
                blocked.push(url);
            },
            Err(e) => {
                proof {
                    lemma_first_invalid(named, i + 1);
                }
                return Err(e);
            },
        }
        i += 1;
    }
    proof {
        assert(named.take(i as int) =~= named);
    }
    let mut filtered: Vec<DomainItem> = Vec::new();
    let mut k: usize = 0;
    proof {
        assert(config::items_view(filtered@) =~= given.take(0));
    }
    while k < domains.len()
        invariant
            k <= domains@.len(),
            given == config::items_view(domains@),
            named == text::views(blacklist@),
            named.len() > 0,
            first_invalid(named) is None,
            first_invalid(urls_of(given).take(k as int)) is None,
            text::views(blocked@).len() == named.len(),
            forall|j: int|
                0 <= j < named.len() ==> base_url_of(#[trigger] named[j]) == Some(
                    text::views(blocked@)[j],
                ),
            config::items_view(filtered@) == not_blacklisted(given.take(k as int), named),
        decreases domains@.len() - k,
    {
        let ghost before = config::items_view(filtered@);
        let ghost keys = text::views(blocked@);
        proof {
            let urls = urls_of(given);
            assert(urls.take(k + 1).drop_last() =~= urls.take(k as int));
            assert(urls.take(k + 1).last() == domains@[k as int]@.url);
            assert(given.take(k + 1).drop_last() =~= given.take(k as int));
            assert(given.take(k + 1).last() == domains@[k as int]@);
        }
        let base_url = match normalize_base_url(domains[k].url.as_str()) {
            Ok(url) => url,
            Err(e) => {
                proof {
                    lemma_first_invalid(urls_of(given), k + 1);
                }
                return Err(e);
            },
        };
        if holds(&blocked, base_url.as_str()) {
            proof {
                let j = choose|j: int| 0 <= j < keys.len() && keys[j] == base_url@;
                assert(base_url_of(named[j]) == Some(keys[j]));
                assert(blacklisted(given[k as int].url, named));
            }
        } else {
            proof {
                if blacklisted(given[k as int].url, named) {
                    let j = choose|j: int|
                        0 <= j < named.len() && base_url_of(#[trigger] named[j]) == base_url_of(
                            given[k as int].url,
                        );
                    assert(keys[j] == base_url@);
                    assert(keys.contains(base_url@));
                }
            }
            filtered.push(domains[k].clone());
            proof {
                assert(config::items_view(filtered@) =~= before.push(given[k as int]));
            }
        }
        k += 1;
    }
    proof {
        assert(given.take(k as int) =~= given);
        assert(urls_of(given).take(k as int) =~= urls_of(given));
    }
    Ok(filtered)
}

} // verus!
