//! What holds of every request.
use vstd::prelude::*;
use vstd::string::*;

use crate::app;
use crate::clock::UtcTime;
use crate::config;
use crate::domains_laws;
use crate::ip;
use crate::ip_laws;
use crate::models;
use crate::store;
use crate::store_laws;
use crate::text;
use crate::text_laws;
use crate::text_lemmas;
use crate::tokens;

verus! {

/// An address that is taken over is written in its canonical text: taken over again, it stays
/// the same, and it is shown by its mask.
pub proof fn law_candidate_is_canonical(value: Seq<char>)
    ensures
        app::candidate_of(value) matches Some(address) ==> {
            &&& app::candidate_of(address) == Some(address)
            &&& ip::ip_of(address) is Some
            &&& store::public_ip_of(Some(address)) == ip::mask_of(ip::ip_of(address)->0)
        },
{
    let first = text::trimmed(text::split_on(value, ',')[0]);
    if let Some(read) = ip::ip_of(first) {
        let address = ip::ip_text(read);
        ip_laws::lemma_read_address_is_whole(first);
        ip_laws::law_text_reads_back(read);
        ip_laws::law_text_needs_no_trimming(read);
        ip_laws::law_text_is_plain(read, ',');
        text_lemmas::lemma_split_single(address, ',');
        store_laws::law_kept_address_is_masked(read);
    }
}

/// The address of a visitor is an address, whatever was reported or noted.
pub proof fn law_client_ip_is_an_address(
    fields: Map<Seq<char>, Seq<u8>>,
    socket: ip::IpModel,
    reported: Option<Seq<char>>,
)
    requires
        socket.wf(),
    ensures
        ip::ip_of(app::client_ip_of(fields, socket, reported)) is Some,
{
    ip_laws::law_text_reads_back(socket);
    if let Some(given) = reported {
        law_candidate_is_canonical(given);
    }
    lemma_header_candidate(fields, "cf-connecting-ip"@);
    lemma_header_candidate(fields, "x-real-ip"@);
    lemma_header_candidate(fields, "x-forwarded-for"@);
}

/// With every result an address is kept, and it is shown by its mask.
pub proof fn law_kept_client_ip_is_an_address<N>(
    request: app::SaveResultRequest<N>,
    fields: Map<Seq<char>, Seq<u8>>,
    socket: ip::IpModel,
)
    requires
        socket.wf(),
    ensures
        app::input_of(request, fields, socket).client_ip matches Some(address) && {
            &&& ip::ip_of(address) is Some
            &&& store::public_ip_of(Some(address)) == ip::mask_of(ip::ip_of(address)->0)
        },
{
    ip_laws::law_text_reads_back(socket);
    store_laws::law_kept_address_is_masked(socket);
    lemma_header_candidate(fields, "cf-connecting-ip"@);
    lemma_header_candidate(fields, "x-real-ip"@);
    lemma_header_candidate(fields, "x-forwarded-for"@);
}

/// What a visitor reports as an address decides nothing: requests that differ in it alone are
/// kept alike, or refused alike.
pub proof fn law_reported_address_is_never_kept<N>(
    a: app::SaveResultRequest<N>,
    b: app::SaveResultRequest<N>,
    targets: Seq<config::TargetModel>,
    fields: Map<Seq<char>, Seq<u8>>,
    socket: ip::IpModel,
    given: tokens::TokensModel,
    usable: bool,
    now: UtcTime,
)
    requires
        a == (app::SaveResultRequest { client_ip: a.client_ip, ..b }),
    ensures
        app::input_of(a, fields, socket) == app::input_of(b, fields, socket),
        app::taken_of(targets, a, fields, socket, given, usable, now) == app::taken_of(
            targets,
            b,
            fields,
            socket,
            given,
            usable,
            now,
        ),
{
}

/// A statement is handed out for a new result of a target, and for a later state of one with its
/// token; for nothing else.
pub proof fn law_only_authorized_results_are_kept<N>(
    targets: Seq<config::TargetModel>,
    request: app::SaveResultRequest<N>,
    fields: Map<Seq<char>, Seq<u8>>,
    socket: ip::IpModel,
    given: tokens::TokensModel,
    usable: bool,
    now: UtcTime,
)
    ensures
        app::taken_of(targets, request, fields, socket, given, usable, now) is Ok <==> {
            &&& app::is_known(targets, request.domain@)
            &&& request.id matches Some(id) ==> usable && given.accepts(
                id,
                app::token_given(request),
                now,
            )
        },
{
}

proof fn lemma_header_candidate(fields: Map<Seq<char>, Seq<u8>>, name: Seq<char>)
    ensures
        app::header_candidate(fields, name) matches Some(address) ==> {
            &&& ip::ip_of(address) is Some
            &&& store::public_ip_of(Some(address)) == ip::mask_of(ip::ip_of(address)->0)
        },
{
    if fields.contains_key(name) {
        if let Some(value) = app::visible_text_of(fields[name]) {
            law_candidate_is_canonical(value);
        }
    }
}

/// Where a reported address is asked for at all, it comes before all that a proxy noted.
pub proof fn law_reported_address_is_preferred(
    fields: Map<Seq<char>, Seq<u8>>,
    socket: ip::IpModel,
    address: ip::IpModel,
)
    requires
        address.wf(),
    ensures
        app::client_ip_of(fields, socket, Some(ip::ip_text(address))) == ip::ip_text(address),
{
    ip_laws::law_text_reads_back(address);
    ip_laws::law_text_needs_no_trimming(address);
    ip_laws::law_text_is_plain(address, ',');
    text_lemmas::lemma_split_single(ip::ip_text(address), ',');
}

/// The answer to a new result lets its visitor bring it up to date once, before the token runs
/// out.
pub proof fn law_new_result_can_be_updated_once<N>(
    targets: Seq<config::TargetModel>,
    fields: Map<Seq<char>, Seq<u8>>,
    socket: ip::IpModel,
    given: tokens::TokensModel,
    new_id: i64,
    now: UtcTime,
    update: app::SaveResultRequest<N>,
    later: UtcTime,
    again: UtcTime,
)
    requires
        now.wf(),
        later.timestamp_nanos() < now.timestamp_nanos() + tokens::UPDATE_TOKEN_TTL_SECS
            * 1_000_000_000,
        app::is_known(targets, update.domain@),
        update.id == Some(new_id),
        app::answer_of(given, None, Seq::empty(), Ok(new_id), now) matches Ok(response)
            && app::token_given(update) == response.update_token,
    ensures
        ({
            let after = app::tokens_after_answer(given, None, Ok(new_id), now);
            let used = app::tokens_after_taking(targets, update, after, true, later);
            &&& app::taken_of(targets, update, fields, socket, after, true, later) is Ok
            &&& app::taken_of(targets, update, fields, socket, used, true, again) is Err
        }),
{
    let after = given.after_create(new_id, now);
    let handed_out = tokens::token_of(now, given.sequence);
    tokens::law_new_token_is_accepted(given, new_id, now, later);
    tokens::law_token_is_accepted_once(after, new_id, handed_out, later, handed_out, again);
}

/// As long as the tokens can be relied on, a result is refused only through the fault of the
/// request.
pub proof fn law_refused_result_is_a_bad_request<N>(
    targets: Seq<config::TargetModel>,
    request: app::SaveResultRequest<N>,
    fields: Map<Seq<char>, Seq<u8>>,
    socket: ip::IpModel,
    given: tokens::TokensModel,
    now: UtcTime,
)
    ensures
        app::taken_of(targets, request, fields, socket, given, true, now) matches Err(e)
            ==> e.is_bad_request(),
{
}

/// Of several values that commas separate the first counts, without the white space around it: its
/// canonical text where it denotes an address, and nothing where it does not.
pub proof fn law_first_value_counts(a: Seq<char>, value: Seq<char>, b: Seq<char>, rest: Seq<char>)
    requires
        text_laws::is_blank(a),
        text_laws::is_blank(b),
        text_laws::is_tight(value),
        !value.contains(','),
    ensures
        ({
            let wanted = match ip::ip_of(value) {
                Some(address) => Some(ip::ip_text(address)),
                None => None,
            };
            &&& app::candidate_of(a + value + b) == wanted
            &&& app::candidate_of(a + value + b + seq![','] + rest) == wanted
            &&& app::optional_candidate(Some(a + value + b)) == wanted
            &&& app::optional_candidate(None) is None
        }),
{
    let first = a + value + b;
    if first.contains(',') {
        let i = choose|i: int| 0 <= i < first.len() && first[i] == ',';
        if i < a.len() {
            assert(text::white_space(a[i]));
        } else if i < a.len() + value.len() {
            assert(value.contains(value[i - a.len()]));
        } else {
            assert(text::white_space(b[i - a.len() - value.len()]));
        }
    }
    text_laws::law_first_part(first, rest, ',');
    text_laws::law_trimming(a, value, b);
}

/// Bytes are text, character by character, where each is visible, a space or a tab.
pub proof fn law_visible_text(bytes: Seq<u8>, i: int)
    requires
        0 <= i < bytes.len(),
    ensures
        !(32 <= bytes[i] <= 126 || bytes[i] == 9) ==> app::visible_text_of(bytes) is None,
        (forall|j: int|
            0 <= j < bytes.len() ==> 32 <= #[trigger] bytes[j] <= 126 || bytes[j] == 9) ==> (
        app::visible_text_of(bytes) matches Some(t) && t.len() == bytes.len() && t[i]
            == bytes[i] as char),
{
    if forall|j: int| 0 <= j < bytes.len() ==> 32 <= #[trigger] bytes[j] <= 126 || bytes[j] == 9 {
        assert forall|j: int| 0 <= j < bytes.len() implies app::is_visible(#[trigger] bytes[j]) by {}
    }
}

/// The address in a field is that in its text, where it is a text.
pub proof fn law_address_in_a_field(fields: Map<Seq<char>, Seq<u8>>, name: Seq<char>)
    ensures
        !fields.contains_key(name) ==> app::header_candidate(fields, name) is None,
        fields.contains_key(name) ==> (match app::visible_text_of(fields[name]) {
            Some(t) => app::header_candidate(fields, name) == app::candidate_of(t),
            None => app::header_candidate(fields, name) is None,
        }),
{
}

/// The address of a visitor is the first that there is of: the reported one, that in
/// `cf-connecting-ip`, that in `x-real-ip`, that in `x-forwarded-for`, that of the connection.
pub proof fn law_order_of_addresses(
    fields: Map<Seq<char>, Seq<u8>>,
    socket: ip::IpModel,
    reported: Option<Seq<char>>,
)
    ensures
        ({
            let found = app::client_ip_of(fields, socket, reported);
            let cloud = app::header_candidate(fields, "cf-connecting-ip"@);
            let noted = app::header_candidate(fields, "x-real-ip"@);
            let forwarded = app::header_candidate(fields, "x-forwarded-for"@);
            match reported {
                Some(given) => match app::candidate_of(given) {
                    Some(address) => found == address,
                    None => found == app::client_ip_of(fields, socket, None),
                },
                None => if cloud is Some {
                    Some(found) == cloud
                } else if noted is Some {
                    Some(found) == noted
                } else if forwarded is Some {
                    Some(found) == forwarded
                } else {
                    found == ip::ip_text(socket)
                },
            }
        }),
{
}

/// A target is known by its host, letter for letter.
pub proof fn law_known_targets(targets: Seq<config::TargetModel>, domain: Seq<char>, i: int)
    ensures
        0 <= i < targets.len() && targets[i].host == domain ==> app::is_known(targets, domain),
        (forall|j: int| 0 <= j < targets.len() ==> (#[trigger] targets[j]).host != domain)
            ==> !app::is_known(targets, domain),
{
}

/// Whether a value that is written is what counts of a given text.
pub open spec fn is_written<N>(given: Option<String>, value: store::ValueModel<N>) -> bool {
    match value {
        store::ValueModel::Text(t) => domains_laws::is_overridden(
            None,
            text::optional_view(given),
            Some(t),
        ),
        store::ValueModel::Null => domains_laws::is_overridden(
            None,
            text::optional_view(given),
            None,
        ),
        _ => false,
    }
}

/// Whether the values from `from` on are, in the order of the columns, what is kept of a request
/// that came from `address`.
pub open spec fn holds_request<N>(
    values: Seq<store::ValueModel<N>>,
    from: int,
    request: app::SaveResultRequest<N>,
    address: Seq<char>,
) -> bool {
    &&& values[from] == store::ValueModel::<N>::Text(request.domain@)
    &&& values[from + 1] == store::ValueModel::Real(request.https_latency_ms)
    &&& values[from + 2] == store::ValueModel::Real(request.https_jitter_ms)
    &&& values[from + 3] == store::ValueModel::Real(request.download_mbps)
    &&& values[from + 4] == store::ValueModel::<N>::Text(address)
    &&& is_written(request.ip_country, values[from + 5])
    &&& is_written(request.ip_region, values[from + 6])
    &&& is_written(request.ip_city, values[from + 7])
    &&& is_written(request.ip_isp, values[from + 8])
    &&& values[from + 9] == (match request.colo {
        Some(colo) => store::ValueModel::<N>::Text(colo@),
        None => store::ValueModel::Null,
    })
}

/// What is written of a reported result is what it reports, field by field, with the texts about the
/// visitor cleaned and with the address that it came from: as a new row with its time, or into the
/// row of its number.
pub proof fn law_taken_result_is_written<N>(
    targets: Seq<config::TargetModel>,
    request: app::SaveResultRequest<N>,
    fields: Map<Seq<char>, Seq<u8>>,
    socket: ip::IpModel,
    given: tokens::TokensModel,
    usable: bool,
    now: UtcTime,
)
    ensures
        app::taken_of(targets, request, fields, socket, given, usable, now) matches Ok(pending) ==> {
            let values = pending.statement.values;
            let address = app::client_ip_of(fields, socket, None);
            &&& pending.id == request.id
            &&& request.update_token matches Some(token) ==> pending.update_token == token@
            &&& request.update_token is None ==> pending.update_token.len() == 0
            &&& values.len() == 11
            &&& request.id is None ==> {
                &&& "INSERT INTO speed_results ("@.is_prefix_of(pending.statement.sql)
                &&& holds_request(values, 0, request, address)
                &&& values[10] == store::ValueModel::<N>::Text(
                    crate::clock::rfc3339_text(now.secs, now.nanos),
                )
            }
            &&& request.id matches Some(id) ==> {
                &&& "UPDATE speed_results SET "@.is_prefix_of(pending.statement.sql)
                &&& values[0] == store::ValueModel::<N>::Integer(id as int)
                &&& holds_request(values, 1, request, address)
            }
        },
{
    domains_laws::lemma_overridden(None, text::optional_view(request.ip_country));
    domains_laws::lemma_overridden(None, text::optional_view(request.ip_region));
    domains_laws::lemma_overridden(None, text::optional_view(request.ip_city));
    domains_laws::lemma_overridden(None, text::optional_view(request.ip_isp));
    let input = app::input_of(request, fields, socket);
    store_laws::law_insertion(input, crate::clock::rfc3339_text(now.secs, now.nanos));
    if let Some(id) = request.id {
        store_laws::law_update(id, input);
        store_laws::lemma_update_begins();
    } else {
        let sql = store::insertion_of(
            input,
            crate::clock::rfc3339_text(now.secs, now.nanos),
        ).sql;
        let head = "INSERT INTO speed_results ("@;
        assert(sql.take(head.len() as int) =~= head);
    }
}

/// A later state of a result may be kept with the token of that result as long as it has not run out,
/// and with nothing else; a new result always.
pub proof fn law_authorization<N>(
    given: tokens::TokensModel,
    input: store::InputModel<N>,
    token: Seq<char>,
    now: UtcTime,
)
    ensures
        input.id is None ==> app::authorization(given, input, token, now) is Ok,
        input.id matches Some(id) ==> {
            &&& given.pending.contains_key(id) && given.pending[id].token == token
                && given.pending[id].expires_at.timestamp_nanos() > now.timestamp_nanos()
                ==> app::authorization(given, input, token, now) is Ok
            &&& !given.pending.contains_key(id) || given.pending[id].token != token
                || given.pending[id].expires_at.timestamp_nanos() <= now.timestamp_nanos()
                ==> app::authorization(given, input, token, now) == Err::<(), app::AppErrorModel>(
                app::AppErrorModel::Store(store::StoreErrorModel::InvalidUpdateToken),
            )
        },
{
}

/// A kept result is answered with its number: a later state with the token that came with it, a new
/// one with the token that is handed out for it. What could not be kept is answered with the reason.
pub proof fn law_answers(
    given: tokens::TokensModel,
    id: i64,
    new_id: i64,
    token: Seq<char>,
    e: store::StoreErrorModel,
    now: UtcTime,
    other: Option<i64>,
)
    ensures
        app::answer_of(given, Some(id), token, Ok(new_id), now) matches Ok(response) && response.id
            == id && response.update_token == token,
        app::tokens_after_answer(given, Some(id), Ok(new_id), now) == given,
        app::answer_of(given, None, token, Ok(new_id), now) matches Ok(response) && {
            let after = app::tokens_after_answer(given, None, Ok(new_id), now);
            &&& response.id == new_id
            &&& after.pending.contains_key(new_id)
            &&& after.pending[new_id].token == response.update_token
            &&& after == given.after_create(new_id, now)
        },
        app::answer_of(given, other, token, Err(e), now) == Err::<
            models::ResponseModel,
            app::AppErrorModel,
        >(app::AppErrorModel::Store(e)),
        app::tokens_after_answer(given, other, Err(e), now) == given,
{
}

/// A result is refused as unknown where no target has its domain, whatever else it says; a later
/// state is refused where the tokens cannot be relied on.
pub proof fn law_refusals<N>(
    targets: Seq<config::TargetModel>,
    request: app::SaveResultRequest<N>,
    fields: Map<Seq<char>, Seq<u8>>,
    socket: ip::IpModel,
    given: tokens::TokensModel,
    usable: bool,
    now: UtcTime,
)
    ensures
        ({
            let taken = app::taken_of(targets, request, fields, socket, given, usable, now);
            let after = app::tokens_after_taking(targets, request, given, usable, now);
            let known = exists|i: int|
                0 <= i < targets.len() && (#[trigger] targets[i]).host == request.domain@;
            &&& !known ==> after == given && taken == Err::<
                app::PendingSaveModel<N>,
                app::AppErrorModel,
            >(app::AppErrorModel::UnknownTarget(request.domain@))
            &&& known && request.id is Some && !usable ==> after == given && taken == Err::<
                app::PendingSaveModel<N>,
                app::AppErrorModel,
            >(app::AppErrorModel::Store(store::StoreErrorModel::LockPoisoned))
            &&& known && request.id is None ==> after == given && taken is Ok
            &&& known && usable ==> (request.id matches Some(id) ==> after
                == given.after_validate(id, app::token_given(request), now))
        }),
{
}

/// A message says what is wrong and with what, whole; the request is at fault only where its token or
/// its domain is.
pub proof fn law_messages(
    t: Seq<char>,
    from_store: store::StoreErrorModel,
    from_config: config::ConfigErrorModel,
)
    ensures
        app::AppErrorModel::UnknownTarget(t).message() == "未知测速线路: "@ + t,
        app::AppErrorModel::Io(t).message() == "服务启动失败: "@ + t,
        app::AppErrorModel::Store(from_store).message() == from_store.message(),
        app::AppErrorModel::Config(from_config).message() == from_config.message(),
        app::AppErrorModel::UnknownTarget(t).is_bad_request(),
        !app::AppErrorModel::Io(t).is_bad_request(),
        !app::AppErrorModel::Config(from_config).is_bad_request(),
        app::AppErrorModel::Store(from_store).is_bad_request() <==> from_store
            is InvalidUpdateToken,
{
}

/// A token that a later state of a result comes with is forgotten where it is accepted; no other one
/// is, unless it has run out. A new result leaves the tokens as they are, and so does one of no target.
pub proof fn law_presented_tokens<N>(
    targets: Seq<config::TargetModel>,
    request: app::SaveResultRequest<N>,
    input: store::InputModel<N>,
    token: Seq<char>,
    given: tokens::TokensModel,
    usable: bool,
    now: UtcTime,
    key: i64,
)
    ensures
        ({
            let after = app::tokens_after_authorization(given, input, token, now);
            let taken = app::tokens_after_taking(targets, request, given, usable, now);
            let runs_on = given.pending.contains_key(key)
                && given.pending[key].expires_at.timestamp_nanos() > now.timestamp_nanos();
            &&& after.sequence == given.sequence
            &&& taken.sequence == given.sequence
            &&& input.id is None ==> after == given
            &&& input.id matches Some(id) ==> {
                &&& after.pending.contains_key(key) <==> runs_on && !(key == id
                    && given.pending[key].token == token)
                &&& after.pending.contains_key(key) ==> after.pending[key] == given.pending[key]
            }
            &&& request.id is None || !usable ==> taken == given
            &&& (forall|i: int|
                0 <= i < targets.len() ==> (#[trigger] targets[i]).host != request.domain@)
                ==> taken == given
            &&& forall|i: int|
                0 <= i < targets.len() && (#[trigger] targets[i]).host == request.domain@ && usable
                    ==> (request.id matches Some(id) ==> {
                    let presented = match request.update_token {
                        Some(t) => t@,
                        None => Seq::empty(),
                    };
                    &&& taken.pending.contains_key(key) <==> runs_on && !(key == id
                        && given.pending[key].token == presented)
                    &&& taken.pending.contains_key(key) ==> taken.pending[key]
                        == given.pending[key]
                })
        }),
{
    if let Some(id) = input.id {
        tokens::law_after_presenting(given, id, token, now, key);
    }
    if let Some(id) = request.id {
        tokens::law_after_presenting(given, id, app::token_given(request), now, key);
    }
}

/// The model of an outcome is that of what came out.
pub proof fn law_model_of_outcomes<N>(
    pending: app::PendingSave<N>,
    response: models::SaveResultResponse,
    e: app::AppError,
)
    ensures
        pending@.id == pending.id,
        pending@.update_token == pending.update_token@,
        pending@.statement == pending.statement@,
        response@.id == response.id,
        response@.update_token == response.update_token@,
        app::pending_view(Ok(pending)) == Ok::<app::PendingSaveModel<N>, app::AppErrorModel>(
            pending@,
        ),
        app::pending_view::<N>(Err(e)) == Err::<app::PendingSaveModel<N>, app::AppErrorModel>(e@),
        app::answer_view(Ok(response)) == Ok::<models::ResponseModel, app::AppErrorModel>(
            response@,
        ),
        app::answer_view(Err(e)) == Err::<models::ResponseModel, app::AppErrorModel>(e@),
        app::authorized_view(Ok(())) == Ok::<(), app::AppErrorModel>(()),
        app::authorized_view(Err(e)) == Err::<(), app::AppErrorModel>(e@),
{
}

/// The model of an error is of its kind and holds the same text or error.
pub proof fn law_model_of_errors(
    from_store: store::StoreError,
    from_config: config::ConfigError,
    t: String,
)
    ensures
        app::AppError::Store(from_store)@ == app::AppErrorModel::Store(from_store@),
        app::AppError::Config(from_config)@ == app::AppErrorModel::Config(from_config@),
        app::AppError::UnknownTarget(t)@ == app::AppErrorModel::UnknownTarget(t@),
        app::AppError::Io(t)@ == app::AppErrorModel::Io(t@),
{
}

} // verus!
