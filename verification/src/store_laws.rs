//! What holds of every statement and every public record.
use vstd::prelude::*;
use vstd::string::*;

use crate::ip;
use crate::ip_laws;
use crate::models;
use crate::store;
use crate::text;
use crate::text_laws;

verus! {

/// How often `c` occurs among the first `n` characters of `s`.
pub open spec fn count_among(s: Seq<char>, c: char, n: nat) -> nat
    decreases n,
{
    if n == 0 {
        0
    } else if s[n - 1] == c {
        count_among(s, c, (n - 1) as nat) + 1
    } else {
        count_among(s, c, (n - 1) as nat)
    }
}

/// How often `c` occurs in `s`.
pub open spec fn count(s: Seq<char>, c: char) -> nat {
    count_among(s, c, s.len())
}

proof fn lemma_count_among_front(a: Seq<char>, b: Seq<char>, c: char, n: nat)
    requires
        n <= a.len(),
    ensures
        count_among(a + b, c, n) == count_among(a, c, n),
    decreases n,
{
    if n > 0 {
        lemma_count_among_front(a, b, c, (n - 1) as nat);
    }
}

proof fn lemma_count_among_back(a: Seq<char>, b: Seq<char>, c: char, n: nat)
    requires
        n <= b.len(),
    ensures
        count_among(a + b, c, a.len() + n) == count(a, c) + count_among(b, c, n),
    decreases n,
{
    if n == 0 {
        lemma_count_among_front(a, b, c, a.len());
    } else {
        lemma_count_among_back(a, b, c, (n - 1) as nat);
    }
}

proof fn lemma_count_sum(a: Seq<char>, b: Seq<char>, c: char)
    ensures
        count(a + b, c) == count(a, c) + count(b, c),
{
    lemma_count_among_back(a, b, c, b.len());
}

proof fn lemma_no_placeholders()
    ensures
        count(store::SELECT@, '?') == 0,
        count(store::FROM_TABLE@, '?') == 0,
        count(" WHERE "@, '?') == 0,
        count(" AND "@, '?') == 0,
{
    reveal_strlit("SELECT id, ");
    reveal_strlit(" FROM speed_results");
    reveal_strlit(" WHERE ");
    reveal_strlit(" AND ");
    reveal_with_fuel(count_among, 25);
}

proof fn lemma_no_placeholders_in_columns()
    ensures
        count(store::COLUMNS@, '?') == 0,
{
    reveal_strlit("domain, https_latency_ms, https_jitter_ms, download_mbps, client_ip, ip_country, ip_region, ip_city, ip_isp, colo, created_at");
    reveal_with_fuel(count_among, 25);
    let columns = store::COLUMNS@;
    assert(count_among(columns, '?', 20) == 0);
    assert(count_among(columns, '?', 40) == 0);
    assert(count_among(columns, '?', 60) == 0);
    assert(count_among(columns, '?', 80) == 0);
    assert(count_among(columns, '?', 100) == 0);
    assert(count_among(columns, '?', 120) == 0);
}

proof fn lemma_clause_placeholders()
    ensures
        count(store::DOMAIN_CLAUSE@, '?') == 1,
        count(store::KEYWORD_CLAUSE@, '?') == store::KEYWORD_COLUMNS,
        count(store::ORDER@, '?') == 1,
{
    reveal_strlit("domain = ?");
    reveal_strlit("(domain LIKE ? OR client_ip LIKE ? OR ip_country LIKE ? OR ip_region LIKE ? OR ip_city LIKE ? OR ip_isp LIKE ? OR colo LIKE ?)");
    reveal_strlit(" ORDER BY datetime(created_at) DESC, id DESC LIMIT ?");
    reveal_with_fuel(count_among, 25);
    let clause = store::KEYWORD_CLAUSE@;
    assert(count_among(clause, '?', 20) == 1);
    assert(count_among(clause, '?', 40) == 2);
    assert(count_among(clause, '?', 60) == 3);
    assert(count_among(clause, '?', 80) == 4);
    assert(count_among(clause, '?', 100) == 5);
    assert(count_among(clause, '?', 120) == 6);
    let order = store::ORDER@;
    assert(count_among(order, '?', 20) == 0);
    assert(count_among(order, '?', 40) == 0);
}

proof fn lemma_joined_placeholders(domain: Option<Seq<char>>, keywords: nat)
    ensures
        count(text::joined(store::clauses_of(domain, keywords), " AND "@), '?') == keywords
            * store::KEYWORD_COLUMNS + (if domain is Some {
            1int
        } else {
            0
        }),
    decreases keywords,
{
    lemma_no_placeholders();
    lemma_clause_placeholders();
    let clauses = store::clauses_of(domain, keywords);
    if keywords > 0 {
        let before = store::clauses_of(domain, (keywords - 1) as nat);
        lemma_joined_placeholders(domain, (keywords - 1) as nat);
        assert(clauses.drop_last() =~= before);
        if before.len() > 0 {
            let front = text::joined(before, " AND "@);
            lemma_count_sum(front, " AND "@, '?');
            lemma_count_sum(front + " AND "@, store::KEYWORD_CLAUSE@, '?');
        } else {
            lemma_clauses(domain, (keywords - 1) as nat);
        }
    } else if domain is Some {
        assert(text::joined(clauses, " AND "@) == store::DOMAIN_CLAUSE@);
    }
}

proof fn lemma_clauses(domain: Option<Seq<char>>, keywords: nat)
    ensures
        store::clauses_of(domain, keywords).len() == keywords + (if domain is Some {
            1int
        } else {
            0
        }),
    decreases keywords,
{
    if keywords > 0 {
        lemma_clauses(domain, (keywords - 1) as nat);
    }
}

proof fn lemma_clause_values<N>(domain: Option<Seq<char>>, keywords: Seq<Seq<char>>)
    ensures
        store::clause_values::<N>(domain, keywords).len() == keywords.len() * store::KEYWORD_COLUMNS
            + (if domain is Some {
            1int
        } else {
            0
        }),
    decreases keywords.len(),
{
    if keywords.len() > 0 {
        lemma_clause_values::<N>(domain, keywords.drop_last());
    }
}

/// A query has exactly one value for each of its placeholders.
pub proof fn law_query_values_match_placeholders<N>(
    domain: Option<Seq<char>>,
    q: Option<Seq<char>>,
    limit: usize,
)
    ensures
        count(store::query_of::<N>(domain, q, limit).sql, '?') == store::query_of::<N>(
            domain,
            q,
            limit,
        ).values.len(),
{
    let keywords = store::keywords_of(q);
    let clauses = store::clauses_of(domain, keywords.len());
    lemma_no_placeholders();
    lemma_no_placeholders_in_columns();
    lemma_clause_placeholders();
    lemma_clauses(domain, keywords.len());
    lemma_joined_placeholders(domain, keywords.len());
    lemma_clause_values::<N>(domain, keywords);
    let head = store::SELECT@ + store::COLUMNS@ + store::FROM_TABLE@;
    let middle = store::where_of(clauses);
    lemma_count_sum(store::SELECT@, store::COLUMNS@, '?');
    lemma_count_sum(store::SELECT@ + store::COLUMNS@, store::FROM_TABLE@, '?');
    lemma_count_sum(head, middle, '?');
    lemma_count_sum(head + middle, store::ORDER@, '?');
    if clauses.len() > 0 {
        lemma_count_sum(" WHERE "@, text::joined(clauses, " AND "@), '?');
    }
}

/// What a visitor searches for never becomes part of the statement: that depends only on whether
/// a domain is asked for and on how many keywords there are.
pub proof fn law_query_text_holds_no_values<N>(
    domain: Option<Seq<char>>,
    q: Option<Seq<char>>,
    limit: usize,
    other_domain: Option<Seq<char>>,
    other_q: Option<Seq<char>>,
    other_limit: usize,
)
    requires
        domain is Some == other_domain is Some,
        store::keywords_of(q).len() == store::keywords_of(other_q).len(),
    ensures
        store::query_of::<N>(domain, q, limit).sql == store::query_of::<N>(
            other_domain,
            other_q,
            other_limit,
        ).sql,
{
    lemma_clauses_by_shape(domain, other_domain, store::keywords_of(q).len());
}

proof fn lemma_clauses_by_shape(a: Option<Seq<char>>, b: Option<Seq<char>>, keywords: nat)
    requires
        a is Some == b is Some,
    ensures
        store::clauses_of(a, keywords) == store::clauses_of(b, keywords),
    decreases keywords,
{
    if keywords > 0 {
        lemma_clauses_by_shape(a, b, (keywords - 1) as nat);
    }
}

/// A number, or nothing, as a value.
pub open spec fn optional_number<N>(value: Option<N>) -> store::ValueModel<N> {
    match value {
        Some(x) => store::ValueModel::Real(x),
        None => store::ValueModel::Null,
    }
}

/// The values of a row, in the order of the columns.
pub open spec fn column_values<N>(row: store::RowModel<N>) -> Seq<store::ValueModel<N>> {
    seq![
        store::ValueModel::Text(row.domain),
        optional_number(row.https_latency_ms),
        optional_number(row.https_jitter_ms),
        optional_number(row.download_mbps),
        store::optional_value(row.client_ip),
        store::optional_value(row.ip_country),
        store::optional_value(row.ip_region),
        store::optional_value(row.ip_city),
        store::optional_value(row.ip_isp),
        store::optional_value(row.colo),
        store::ValueModel::Text(row.created_at),
    ]
}

/// A row that holds the values of an insertion is shown with what was given, but for the
/// address, of which only the mask is shown.
pub proof fn law_kept_result_is_shown<N>(
    input: store::InputModel<N>,
    created_at: Seq<char>,
    row: store::RowModel<N>,
)
    requires
        column_values(row) == store::insertion_of(input, created_at).values,
    ensures
        store::public_of(row) == (models::PublicModel {
            id: row.id,
            domain: input.domain,
            https_latency_ms: Some(input.https_latency_ms),
            https_jitter_ms: Some(input.https_jitter_ms),
            download_mbps: Some(input.download_mbps),
            client_ip: store::public_ip_of(input.client_ip),
            ip_country: input.ip_country,
            ip_region: input.ip_region,
            ip_city: input.ip_city,
            ip_isp: input.ip_isp,
            colo: input.colo,
            created_at,
        }),
{
    let shown = column_values(row);
    let kept = store::insertion_of(input, created_at).values;
    assert(shown[0] == kept[0]);
    assert(shown[1] == kept[1]);
    assert(shown[2] == kept[2]);
    assert(shown[3] == kept[3]);
    assert(shown[4] == kept[4]);
    assert(shown[5] == kept[5]);
    assert(shown[6] == kept[6]);
    assert(shown[7] == kept[7]);
    assert(shown[8] == kept[8]);
    assert(shown[9] == kept[9]);
    assert(shown[10] == kept[10]);
}

/// What a column holds after an update that gives `given` for it and keeps what it held where
/// that is nothing.
pub open spec fn coalesced<N>(
    given: store::ValueModel<N>,
    before: store::ValueModel<N>,
) -> store::ValueModel<N> {
    if given is Null {
        before
    } else {
        given
    }
}

/// The values of the row `before`, in the order of the columns, after an update with `values`,
/// the first of which is the number of the row.
pub open spec fn updated_values<N>(
    before: store::RowModel<N>,
    values: Seq<store::ValueModel<N>>,
) -> Seq<store::ValueModel<N>> {
    let held = column_values(before);
    seq![
        values[1],
        values[2],
        values[3],
        values[4],
        coalesced(values[5], held[4]),
        coalesced(values[6], held[5]),
        coalesced(values[7], held[6]),
        coalesced(values[8], held[7]),
        coalesced(values[9], held[8]),
        coalesced(values[10], held[9]),
        held[10],
    ]
}

/// A row that an update brought up to date is shown with what was given; where nothing was given
/// about the visitor, with what it held. It keeps its number and its time.
pub proof fn law_updated_result_is_shown<N>(
    id: i64,
    input: store::InputModel<N>,
    before: store::RowModel<N>,
    after: store::RowModel<N>,
)
    requires
        before.id == id,
        after.id == id,
        column_values(after) == updated_values(before, store::update_of(id, input).values),
    ensures
        store::public_of(after) == (models::PublicModel {
            id,
            domain: input.domain,
            https_latency_ms: Some(input.https_latency_ms),
            https_jitter_ms: Some(input.https_jitter_ms),
            download_mbps: Some(input.download_mbps),
            client_ip: store::public_ip_of(text::or_else(input.client_ip, before.client_ip)),
            ip_country: text::or_else(input.ip_country, before.ip_country),
            ip_region: text::or_else(input.ip_region, before.ip_region),
            ip_city: text::or_else(input.ip_city, before.ip_city),
            ip_isp: text::or_else(input.ip_isp, before.ip_isp),
            colo: text::or_else(input.colo, before.colo),
            created_at: before.created_at,
        }),
{
    let shown = column_values(after);
    let kept = updated_values(before, store::update_of(id, input).values);
    assert(shown[0] == kept[0]);
    assert(shown[1] == kept[1]);
    assert(shown[2] == kept[2]);
    assert(shown[3] == kept[3]);
    assert(shown[4] == kept[4]);
    assert(shown[5] == kept[5]);
    assert(shown[6] == kept[6]);
    assert(shown[7] == kept[7]);
    assert(shown[8] == kept[8]);
    assert(shown[9] == kept[9]);
    assert(shown[10] == kept[10]);
}

/// An address that is kept in its canonical text is always shown by its mask.
pub proof fn law_kept_address_is_masked(address: ip::IpModel)
    requires
        address.wf(),
    ensures
        store::public_ip_of(Some(ip::ip_text(address))) == ip::mask_of(address),
{
    ip_laws::law_text_reads_back(address);
    ip_laws::law_text_needs_no_trimming(address);
}

/// The first three octets of an IPv4 address, also of one that is mapped into IPv6.
pub open spec fn front_octets(address: ip::IpModel) -> Option<Seq<u8>> {
    match address {
        ip::IpModel::V4(octets) => Some(octets.take(3)),
        ip::IpModel::V6(segments) => if ip::is_mapped(segments) {
            Some(ip::mapped_octets(segments).take(3))
        } else {
            None
        },
    }
}

/// Whether two addresses begin alike: in the first three octets, where both are or map IPv4
/// addresses, or in the first three segments, where neither does.
pub open spec fn begin_alike(a: ip::IpModel, b: ip::IpModel) -> bool {
    match (front_octets(a), front_octets(b)) {
        (Some(x), Some(y)) => x == y,
        (None, None) => a->V6_0.take(3) == b->V6_0.take(3),
        _ => false,
    }
}

/// Of the address of a visitor no more becomes public than how it begins.
pub proof fn law_public_record_hides_address<N>(
    a: store::RowModel<N>,
    b: store::RowModel<N>,
    first: ip::IpModel,
    second: ip::IpModel,
)
    requires
        a == (store::RowModel { client_ip: a.client_ip, ..b }),
        a.client_ip == Some(ip::ip_text(first)),
        b.client_ip == Some(ip::ip_text(second)),
        first.wf(),
        second.wf(),
        begin_alike(first, second),
    ensures
        store::public_of(a) == store::public_of(b),
{
    law_kept_address_is_masked(first);
    law_kept_address_is_masked(second);
}

/// What is shown as an address never denotes one.
pub proof fn law_public_address_denotes_none(client_ip: Option<Seq<char>>)
    ensures
        ip::ip_of(store::public_ip_of(client_ip)) is None,
{
    if let Some(given) = client_ip {
        if let Some(address) = ip::ip_of(text::trimmed(given)) {
            ip_laws::law_mask_is_no_address(address);
        }
    }
    reveal_strlit("未知");
    if ip::ip_of("未知"@) is Some {
        ip_laws::law_address_is_plain("未知"@, '未');
        assert("未知"@[0] == '未');
    }
}

/// The conditions of a query: one on the domain where one is asked for, and one for each keyword.
pub open spec fn conditions(with_domain: bool, keywords: nat) -> Seq<Seq<char>> {
    let first: nat = if with_domain {
        1
    } else {
        0
    };
    Seq::new(
        first + keywords,
        |i: int|
            if with_domain && i == 0 {
                "domain = ?"@
            } else {
                "(domain LIKE ? OR client_ip LIKE ? OR ip_country LIKE ? OR ip_region LIKE ? OR ip_city LIKE ? OR ip_isp LIKE ? OR colo LIKE ?)"@
            },
    )
}

proof fn lemma_conditions(domain: Option<Seq<char>>, keywords: nat)
    ensures
        store::clauses_of(domain, keywords) == conditions(domain is Some, keywords),
    decreases keywords,
{
    if keywords > 0 {
        lemma_conditions(domain, (keywords - 1) as nat);
        assert(store::clauses_of(domain, keywords) =~= conditions(domain is Some, keywords));
    } else {
        assert(store::clauses_of(domain, keywords) =~= conditions(domain is Some, keywords));
    }
}

/// How many words a search has.
pub open spec fn word_count(q: Option<Seq<char>>) -> nat {
    match q {
        Some(t) => text::words(t).len(),
        None => 0,
    }
}

/// A query reads all columns of the results that meet all of its conditions, of which each word of
/// the search is one, the latest first.
pub proof fn law_query_text<N>(domain: Option<Seq<char>>, q: Option<Seq<char>>, limit: usize)
    ensures
        ({
            let all = conditions(domain is Some, word_count(q));
            let head = "SELECT id, "@
                + "domain, https_latency_ms, https_jitter_ms, download_mbps, client_ip, ip_country, ip_region, ip_city, ip_isp, colo, created_at"@
                + " FROM speed_results"@;
            let order = " ORDER BY datetime(created_at) DESC, id DESC LIMIT ?"@;
            store::query_of::<N>(domain, q, limit).sql == (if all.len() == 0 {
                head + order
            } else {
                head + (" WHERE "@ + text::joined(all, " AND "@)) + order
            })
        }),
{
    let all = conditions(domain is Some, word_count(q));
    lemma_conditions(domain, word_count(q));
    assert(store::keywords_of(q).len() == word_count(q));
    let head = store::SELECT@ + store::COLUMNS@ + store::FROM_TABLE@;
    if all.len() == 0 {
        assert(head + Seq::<char>::empty() + store::ORDER@ =~= head + store::ORDER@);
    }
}

proof fn lemma_clause_values_at<N>(
    domain: Option<Seq<char>>,
    before: Seq<Seq<char>>,
    word: Seq<char>,
    behind: Seq<Seq<char>>,
    k: int,
)
    requires
        0 <= k < 7,
    ensures
        ({
            let first: int = if domain is Some {
                1
            } else {
                0
            };
            let values = store::clause_values::<N>(domain, before + seq![word] + behind);
            &&& values.len() == first + 7 * (before.len() + 1 + behind.len())
            &&& values[first + 7 * before.len() + k] == store::ValueModel::<N>::Text(
                seq!['%'] + word + seq!['%'],
            )
        }),
    decreases behind.len(),
{
    let words = before + seq![word] + behind;
    reveal_strlit("%");
    assert("%"@ =~= seq!['%']);
    lemma_clause_values::<N>(domain, words);
    lemma_clause_values::<N>(domain, words.drop_last());
    if behind.len() == 0 {
        assert(words.drop_last() =~= before);
        assert(words.last() == word);
    } else {
        assert(words.drop_last() =~= before + seq![word] + behind.drop_last());
        lemma_clause_values_at::<N>(domain, before, word, behind.drop_last(), k);
    }
}

proof fn lemma_domain_value<N>(domain: Seq<char>, words: Seq<Seq<char>>)
    ensures
        store::clause_values::<N>(Some(domain), words).len() > 0,
        store::clause_values::<N>(Some(domain), words)[0] == store::ValueModel::<N>::Text(domain),
    decreases words.len(),
{
    if words.len() > 0 {
        lemma_domain_value::<N>(domain, words.drop_last());
    }
}

/// Each run of characters of a search that white space, or an end of it, surrounds is looked for in
/// the seven columns, anywhere in them: its pattern stands seven times in a row, behind those of the
/// runs before it. There are no other values but the domain, in front, and the limit, at the end.
pub proof fn law_each_keyword_is_looked_for<N>(
    domain: Option<Seq<char>>,
    a: Seq<char>,
    word: Seq<char>,
    b: Seq<char>,
    limit: usize,
    k: int,
)
    requires
        text_laws::is_word(word),
        a.len() > 0 ==> text::white_space(a.last()),
        b.len() > 0 ==> text::white_space(b[0]),
        0 <= k < 7,
    ensures
        ({
            let first: int = if domain is Some {
                1
            } else {
                0
            };
            let values = store::query_of::<N>(domain, Some(a + word + b), limit).values;
            &&& values.len() == first + 7 * text::words(a + word + b).len() + 1
            &&& text::words(a + word + b).len() == text::words(a).len() + 1 + text::words(b).len()
            &&& values[first + 7 * text::words(a).len() + k] == store::ValueModel::<N>::Text(
                seq!['%'] + word + seq!['%'],
            )
        }),
{
    text_laws::law_each_run_is_a_word(a, word, b);
    lemma_clause_values_at::<N>(domain, text::words(a), word, text::words(b), k);
}

/// The values of a query begin with its domain, where there is one, and end with its limit, which
/// is at least one, and wraps round where a database integer does not hold it. Without a search there
/// are no others.
pub proof fn law_query_domain_and_limit<N>(
    domain: Option<Seq<char>>,
    q: Option<Seq<char>>,
    limit: usize,
)
    ensures
        ({
            let values = store::query_of::<N>(domain, q, limit).values;
            let first: int = if domain is Some {
                1
            } else {
                0
            };
            &&& values.len() == first + 7 * word_count(q) + 1
            &&& domain matches Some(d) ==> values[0] == store::ValueModel::<N>::Text(d)
            &&& limit == 0 ==> values.last() == store::ValueModel::<N>::Integer(1)
            &&& 0 < limit <= i64::MAX ==> values.last() == store::ValueModel::<N>::Integer(
                limit as int,
            )
            &&& limit > i64::MAX ==> (values.last() matches store::ValueModel::<N>::Integer(n)
                && n + 0x1_0000_0000_0000_0000 == limit)
        }),
{
    lemma_clause_values::<N>(domain, store::keywords_of(q));
    if let Some(d) = domain {
        lemma_domain_value::<N>(d, store::keywords_of(q));
    }
}

/// A new result is written column by column, each value in the column of its name, with its time in
/// the last.
pub proof fn law_insertion<N>(input: store::InputModel<N>, created_at: Seq<char>)
    ensures
        ({
            let statement = store::insertion_of(input, created_at);
            let values = statement.values;
            let text_or_null = |t: Option<Seq<char>>| match t {
                Some(given) => store::ValueModel::<N>::Text(given),
                None => store::ValueModel::<N>::Null,
            };
            &&& statement.sql == "INSERT INTO speed_results ("@
                + "domain, https_latency_ms, https_jitter_ms, download_mbps, client_ip, ip_country, ip_region, ip_city, ip_isp, colo, created_at"@
                + ") VALUES (?1, ?2, ?3, ?4, ?5, ?6, ?7, ?8, ?9, ?10, ?11)"@
            &&& values.len() == 11
            &&& values[0] == store::ValueModel::<N>::Text(input.domain)
            &&& values[1] == store::ValueModel::Real(input.https_latency_ms)
            &&& values[2] == store::ValueModel::Real(input.https_jitter_ms)
            &&& values[3] == store::ValueModel::Real(input.download_mbps)
            &&& values[4] == text_or_null(input.client_ip)
            &&& values[5] == text_or_null(input.ip_country)
            &&& values[6] == text_or_null(input.ip_region)
            &&& values[7] == text_or_null(input.ip_city)
            &&& values[8] == text_or_null(input.ip_isp)
            &&& values[9] == text_or_null(input.colo)
            &&& values[10] == store::ValueModel::<N>::Text(created_at)
        }),
{
}

/// A result is brought up to date by its number: domain and measurements anew, and of what is known
/// of the visitor what is given.
pub proof fn law_update<N>(id: i64, input: store::InputModel<N>)
    ensures
        ({
            let statement = store::update_of(id, input);
            let values = statement.values;
            let text_or_null = |t: Option<Seq<char>>| match t {
                Some(given) => store::ValueModel::<N>::Text(given),
                None => store::ValueModel::<N>::Null,
            };
            &&& statement.sql
                == "UPDATE speed_results SET domain = ?2, https_latency_ms = ?3, https_jitter_ms = ?4, download_mbps = ?5, client_ip = COALESCE(?6, client_ip), ip_country = COALESCE(?7, ip_country), ip_region = COALESCE(?8, ip_region), ip_city = COALESCE(?9, ip_city), ip_isp = COALESCE(?10, ip_isp), colo = COALESCE(?11, colo) WHERE id = ?1"@
            &&& values.len() == 11
            &&& values[0] == store::ValueModel::<N>::Integer(id as int)
            &&& values[1] == store::ValueModel::<N>::Text(input.domain)
            &&& values[2] == store::ValueModel::Real(input.https_latency_ms)
            &&& values[3] == store::ValueModel::Real(input.https_jitter_ms)
            &&& values[4] == store::ValueModel::Real(input.download_mbps)
            &&& values[5] == text_or_null(input.client_ip)
            &&& values[6] == text_or_null(input.ip_country)
            &&& values[7] == text_or_null(input.ip_region)
            &&& values[8] == text_or_null(input.ip_city)
            &&& values[9] == text_or_null(input.ip_isp)
            &&& values[10] == text_or_null(input.colo)
        }),
{
}

/// A result with a number is brought up to date under that number; one without is inserted with the
/// time at which it is kept.
pub proof fn law_saving<N>(input: store::InputModel<N>, id: i64, now: crate::clock::UtcTime)
    ensures
        input.id == Some(id) ==> store::saving_of(input, now) == store::update_of(id, input),
        input.id is None ==> store::saving_of(input, now) == store::insertion_of(
            input,
            crate::clock::rfc3339_text(now.secs, now.nanos),
        ),
{
}

/// A row is shown as it is, but for the address: what denotes none is shown as unknown.
pub proof fn law_row_is_shown<N>(row: store::RowModel<N>)
    ensures
        ({
            let shown = store::public_of(row);
            &&& shown.id == row.id
            &&& shown.domain == row.domain
            &&& shown.https_latency_ms == row.https_latency_ms
            &&& shown.https_jitter_ms == row.https_jitter_ms
            &&& shown.download_mbps == row.download_mbps
            &&& shown.ip_country == row.ip_country
            &&& shown.ip_region == row.ip_region
            &&& shown.ip_city == row.ip_city
            &&& shown.ip_isp == row.ip_isp
            &&& shown.colo == row.colo
            &&& shown.created_at == row.created_at
            &&& row.client_ip is None ==> shown.client_ip == "未知"@
            &&& row.client_ip matches Some(given) ==> (match ip::ip_of(text::trimmed(given)) {
                Some(address) => shown.client_ip == ip::mask_of(address),
                None => shown.client_ip == "未知"@,
            })
        }),
{
}

/// A message says what is wrong and with what, whole.
pub proof fn law_store_messages(t: Seq<char>)
    ensures
        store::StoreErrorModel::Database(t).message() == "数据库错误: "@ + t,
        store::StoreErrorModel::InvalidUpdateToken.message() == "更新令牌无效"@,
        store::StoreErrorModel::LockPoisoned.message() == "数据库连接锁已损坏"@,
{
}

pub(crate) proof fn lemma_update_begins()
    ensures
        "UPDATE speed_results SET "@.is_prefix_of(store::UPDATE@),
{
    reveal_strlit("UPDATE speed_results SET ");
    reveal_strlit("UPDATE speed_results SET domain = ?2, https_latency_ms = ?3, https_jitter_ms = ?4, download_mbps = ?5, client_ip = COALESCE(?6, client_ip), ip_country = COALESCE(?7, ip_country), ip_region = COALESCE(?8, ip_region), ip_city = COALESCE(?9, ip_city), ip_isp = COALESCE(?10, ip_isp), colo = COALESCE(?11, colo) WHERE id = ?1");
    assert(store::UPDATE@.take(25) =~= "UPDATE speed_results SET "@);
}

/// The model of a result is what it holds, column by column, whether it is to be kept, was kept or is
/// shown.
pub proof fn law_models_of_results<N>(
    input: store::SaveResultInput<N>,
    row: store::StoredRecord<N>,
    shown: models::PublicSpeedRecord<N>,
)
    ensures
        input@.id == input.id,
        input@.https_latency_ms == input.https_latency_ms,
        input@.https_jitter_ms == input.https_jitter_ms,
        input@.download_mbps == input.download_mbps,
        input@.domain == input.domain@,
        input@.client_ip == text::optional_view(input.client_ip),
        input@.ip_country == text::optional_view(input.ip_country),
        input@.ip_region == text::optional_view(input.ip_region),
        input@.ip_city == text::optional_view(input.ip_city),
        input@.ip_isp == text::optional_view(input.ip_isp),
        input@.colo == text::optional_view(input.colo),
        row@.id == row.id,
        row@.https_latency_ms == row.https_latency_ms,
        row@.https_jitter_ms == row.https_jitter_ms,
        row@.download_mbps == row.download_mbps,
        row@.domain == row.domain@,
        row@.client_ip == text::optional_view(row.client_ip),
        row@.ip_country == text::optional_view(row.ip_country),
        row@.ip_region == text::optional_view(row.ip_region),
        row@.ip_city == text::optional_view(row.ip_city),
        row@.ip_isp == text::optional_view(row.ip_isp),
        row@.colo == text::optional_view(row.colo),
        row@.created_at == row.created_at@,
        shown@.id == shown.id,
        shown@.https_latency_ms == shown.https_latency_ms,
        shown@.https_jitter_ms == shown.https_jitter_ms,
        shown@.download_mbps == shown.download_mbps,
        shown@.domain == shown.domain@,
        shown@.ip_country == text::optional_view(shown.ip_country),
        shown@.ip_region == text::optional_view(shown.ip_region),
        shown@.ip_city == text::optional_view(shown.ip_city),
        shown@.ip_isp == text::optional_view(shown.ip_isp),
        shown@.colo == text::optional_view(shown.colo),
        shown@.client_ip == shown.client_ip@,
        shown@.created_at == shown.created_at@,
{
}

/// The model of a statement is its text and its values, one for one.
pub proof fn law_model_of_a_statement<N>(
    statement: store::Statement<N>,
    i: int,
    n: i64,
    x: N,
    t: String,
)
    ensures
        statement@.sql == statement.sql@,
        statement@.values.len() == statement.values@.len(),
        0 <= i < statement.values@.len() ==> statement@.values[i] == statement.values@[i]@,
        store::SqlValue::<N>::Null@ == store::ValueModel::<N>::Null,
        store::SqlValue::<N>::Integer(n)@ == store::ValueModel::<N>::Integer(n as int),
        store::SqlValue::<N>::Real(x)@ == store::ValueModel::<N>::Real(x),
        store::SqlValue::<N>::Text(t)@ == store::ValueModel::<N>::Text(t@),
{
}

/// The model of an outcome is that of what came out.
pub proof fn law_model_of_store_outcomes(id: i64, e: store::StoreError, t: String)
    ensures
        store::saved_view(Ok(id)) == Ok::<i64, store::StoreErrorModel>(id),
        store::saved_view(Err(e)) == Err::<i64, store::StoreErrorModel>(e@),
        store::StoreError::Database(t)@ == store::StoreErrorModel::Database(t@),
        store::StoreError::InvalidUpdateToken@ == store::StoreErrorModel::InvalidUpdateToken,
        store::StoreError::LockPoisoned@ == store::StoreErrorModel::LockPoisoned,
{
}

} // verus!
