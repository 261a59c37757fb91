//! The tokens with which the results of a running test are brought up to date.
use std::collections::HashMap;

use vstd::prelude::*;
use vstd::std_specs::hash::*;
use vstd::string::*;

use crate::clock;
use crate::clock::UtcTime;
use crate::store;
use crate::store::StoreError;
use crate::text;
use crate::text_lemmas;

verus! {

broadcast use vstd::std_specs::hash::group_hash_axioms;

/// How long a token is accepted, in seconds.
pub const UPDATE_TOKEN_TTL_SECS: i64 = 30;

/// A token that was handed out.
#[derive(Debug)]
pub struct PendingUpdateToken {
    token: String,
    expires_at: UtcTime,
}

/// The mathematical model of a token that was handed out.
#[verifier::ext_equal]
pub ghost struct PendingModel {
    pub token: Seq<char>,
    pub expires_at: UtcTime,
}

impl View for PendingUpdateToken {
    type V = PendingModel;

    closed spec fn view(&self) -> PendingModel {
        PendingModel { token: self.token@, expires_at: self.expires_at }
    }
}

/// The tokens that were handed out, by the number of the result, and a count of them.
#[derive(Debug)]
pub struct UpdateTokenStore {
    tokens: HashMap<i64, PendingUpdateToken>,
    sequence: u64,
}

/// The mathematical model of the tokens that were handed out.
#[verifier::ext_equal]
pub ghost struct TokensModel {
    pub pending: Map<i64, PendingModel>,
    pub sequence: u64,
}

impl View for UpdateTokenStore {
    type V = TokensModel;

    closed spec fn view(&self) -> TokensModel {
        TokensModel { pending: pending_view(self.tokens@), sequence: self.sequence }
    }
}

spec fn pending_view(tokens: Map<i64, PendingUpdateToken>) -> Map<i64, PendingModel> {
    tokens.map_values(|pending: PendingUpdateToken| pending@)
}

/// Whether a token has not run out.
pub open spec fn is_live(pending: PendingModel, now: UtcTime) -> bool {
    pending.expires_at.timestamp_nanos() > now.timestamp_nanos()
}

/// The tokens that have not run out.
pub open spec fn live(pending: Map<i64, PendingModel>, now: UtcTime) -> Map<i64, PendingModel> {
    pending.restrict(Set::new(|id: i64| pending.contains_key(id) && is_live(pending[id], now)))
}

/// The number of a time in a token: nanoseconds, or microseconds where those are too many.
pub open spec fn token_time(now: UtcTime) -> int {
    if i64::MIN <= now.timestamp_nanos() <= i64::MAX {
        now.timestamp_nanos()
    } else {
        now.timestamp_micros()
    }
}

/// A number in two's complement, without its sign.
pub open spec fn unsigned(n: int) -> nat {
    if n < 0 {
        (n + 0x1_0000_0000_0000_0000) as nat
    } else {
        n as nat
    }
}

/// The token that is handed out at a time, after `sequence` others.
pub open spec fn token_of(now: UtcTime, sequence: u64) -> Seq<char> {
    text::hexadecimal(unsigned(token_time(now))) + text::hexadecimal(sequence as nat)
}

impl TokensModel {
    /// Whether all times at which tokens run out are times.
    pub open spec fn wf(self) -> bool {
        forall|id: i64| #[trigger]
            self.pending.contains_key(id) ==> self.pending[id].expires_at.nanos < 1_000_000_000
    }

    /// The tokens after one is handed out for the result `id`.
    pub open spec fn after_create(self, id: i64, now: UtcTime) -> TokensModel {
        TokensModel {
            pending: live(self.pending, now).insert(
                id,
                PendingModel {
                    token: token_of(now, self.sequence),
                    expires_at: now.plus(UPDATE_TOKEN_TTL_SECS as int),
                },
            ),
            sequence: self.sequence.wrapping_add(1),
        }
    }

    /// Whether `token` is the one of the result `id`, and has not run out.
    pub open spec fn accepts(self, id: i64, token: Seq<char>, now: UtcTime) -> bool {
        live(self.pending, now).contains_key(id) && self.pending[id].token == token
    }

    /// The tokens after `token` is presented for the result `id`.
    pub open spec fn after_validate(self, id: i64, token: Seq<char>, now: UtcTime) -> TokensModel {
        TokensModel {
            pending: if self.accepts(id, token, now) {
                live(self.pending, now).remove(id)
            } else {
                live(self.pending, now)
            },
            sequence: self.sequence,
        }
    }
}

/// The model of the outcome of presenting a token.
pub open spec fn validated_view(r: Result<(), StoreError>) -> Result<(), store::StoreErrorModel> {
    match r {
        Ok(u) => Ok(u),
        Err(e) => Err(e@),
    }
}

/// The token for a time and a count.
fn next_token(now: UtcTime, sequence: u64) -> (r: String)
    requires
        now.wf(),
    ensures
        r@ == token_of(now, sequence),
{
    let nanos: i128 = now.secs as i128 * 1_000_000_000 + now.nanos as i128;
    let time: i128 = if i64::MIN as i128 <= nanos && nanos <= i64::MAX as i128 {
        nanos
    } else {
        now.secs as i128 * 1_000_000 + (now.nanos / 1_000) as i128
    };
    let bits: i128 = if time < 0 {
        time + 0x1_0000_0000_0000_0000
    } else {
        time
    };
    let mut token = text::hexadecimal_text(bits as u128);
    token.append(text::hexadecimal_text(sequence as u128).as_str());
    token
}

impl Default for UpdateTokenStore {
    fn default() -> (r: UpdateTokenStore)
        ensures
            r@ == (TokensModel { pending: Map::empty(), sequence: 0 }),
            r@.wf(),
    {
        let r = UpdateTokenStore { tokens: HashMap::new(), sequence: 0 };
        proof {
            assert(pending_view(r.tokens@) =~= Map::empty());
        }
        r
    }
}

impl UpdateTokenStore {
    /// Forgets the tokens that have run out.
    fn cleanup_expired(&mut self, now: UtcTime)
        requires
            old(self)@.wf(),
            now.wf(),
        ensures
            final(self)@.pending == live(old(self)@.pending, now),
            final(self)@.sequence == old(self)@.sequence,
            final(self)@.wf(),
    {
        let ghost before = self.tokens@;
        let mut expired: Vec<i64> = Vec::new();
        for (id, pending) in it: self.tokens.iter()
            invariant
                before == self.tokens@,
                self@.wf(),
                now.wf(),
                forall|key: i64| #[trigger]
                    before.contains_key(key) ==> exists|j: int|
                        0 <= j < it.seq().len() && *(#[trigger] it.seq()[j]).0 == key
                            && *it.seq()[j].1 == before[key],
                forall|j: int|
                    0 <= j < it.index() ==> (#[trigger] it.seq()[j]).1@.expires_at.timestamp_nanos()
                        > now.timestamp_nanos() || expired@.contains(*it.seq()[j].0),
                forall|k: int|
                    0 <= k < expired@.len() ==> before.contains_key(#[trigger] expired@[k])
                        && before[expired@[k]]@.expires_at.timestamp_nanos()
                        <= now.timestamp_nanos(),
        {
            proof {
                assert(before.contains_key(*id) && before[*id] == *pending);
                assert(self@.pending.contains_key(*id));
            }
            let ghost found = expired@;
            if !pending.expires_at.is_after(&now) {
                expired.push(*id);
                proof {
                    assert forall|x: i64| found.contains(x) implies expired@.contains(x) by {
                        let k = found.index_of(x);
                        assert(expired@[k] == x);
                    }
                    assert(expired@[found.len() as int] == *id);
                }
            }
        }
        proof {
            assert forall|key: i64| #[trigger] before.contains_key(key) implies is_live(
                before[key]@,
                now,
            ) || expired@.contains(key) by {}
        }
        let mut i: usize = 0;
        while i < expired.len()
            invariant
                i <= expired@.len(),
                self@.sequence == old(self)@.sequence,
                before == old(self).tokens@,
                forall|key: i64| #[trigger]
                    self.tokens@.contains_key(key) <==> before.contains_key(key)
                        && !expired@.take(i as int).contains(key),
                forall|key: i64| #[trigger]
                    self.tokens@.contains_key(key) ==> self.tokens@[key] == before[key],
            decreases expired@.len() - i,
        {
            let ghost gone = expired@.take(i as int);
            self.tokens.remove(&expired[i]);
            proof {
                let more = expired@.take(i + 1);
                assert(more =~= gone.push(expired@[i as int]));
                assert forall|key: i64| more.contains(key) <==> (gone.contains(key) || key
                    == expired@[i as int]) by {
                    if gone.contains(key) {
                        assert(more[gone.index_of(key)] == key);
                    }
                    if key == expired@[i as int] {
                        assert(more[i as int] == key);
                    }
                }
            }
            i += 1;
        }
        proof {
            assert(expired@.take(i as int) =~= expired@);
            let kept = live(old(self)@.pending, now);
            assert forall|key: i64| self@.pending.contains_key(key) <==> kept.contains_key(
                key,
            ) by {
                if expired@.contains(key) {
                    assert(expired@[expired@.index_of(key)] == key);
                }
            }
            assert(self@.pending =~= kept);
            assert forall|key: i64| #[trigger] self@.pending.contains_key(key) implies
                self@.pending[key].expires_at.nanos < 1_000_000_000 by {
                assert(old(self)@.pending.contains_key(key));
            }
        }
    }

    /// Hands out a token for the result `id` at the time `now`.
    pub fn create_at(&mut self, id: i64, now: UtcTime) -> (r: String)
        requires
            old(self)@.wf(),
            now.wf(),
        ensures
            r@ == token_of(now, old(self)@.sequence),
            final(self)@ == old(self)@.after_create(id, now),
            final(self)@.wf(),
    {
        self.cleanup_expired(now);
        let token = next_token(now, self.sequence);
        self.sequence = self.sequence.wrapping_add(1);
        let ghost kept = self@.pending;
        let expires_at = UtcTime { secs: now.secs + UPDATE_TOKEN_TTL_SECS, nanos: now.nanos };
        let pending = PendingUpdateToken { token: token.clone(), expires_at };
        self.tokens.insert(id, pending);
        proof {
            assert(self@.pending =~= kept.insert(id, pending@));
            assert forall|key: i64| #[trigger] self@.pending.contains_key(key) implies
                self@.pending[key].expires_at.nanos < 1_000_000_000 by {
                if key != id {
                    assert(kept.contains_key(key));
                }
            }
        }
        token
    }

    /// Hands out a token for the result `id`.
    pub fn create(&mut self, id: i64) -> (r: String)
        requires
            old(self)@.wf(),
        ensures
            exists|now: UtcTime|
                now.wf() && now.secs >= 0 && r@ == #[trigger] token_of(now, old(self)@.sequence)
                    && final(self)@ == old(self)@.after_create(id, now),
            final(self)@.wf(),
    {
        let now = clock::utc_now();
        self.create_at(id, now)
    }

    /// Accepts the token of the result `id` once, if it has not run out at the time `now`.
    pub fn validate_and_remove_at(&mut self, id: i64, token: &str, now: UtcTime) -> (r: Result<
        (),
        StoreError,
    >)
        requires
            old(self)@.wf(),
            now.wf(),
        ensures
            validated_view(r) == (if old(self)@.accepts(id, token@, now) {
                Ok::<(), store::StoreErrorModel>(())
            } else {
                Err(store::StoreErrorModel::InvalidUpdateToken)
            }),
            final(self)@ == old(self)@.after_validate(id, token@, now),
            final(self)@.wf(),
    {
        self.cleanup_expired(now);
        let ghost kept = self@.pending;
        match self.tokens.get(&id) {
            None => {
                proof {
                    assert(!kept.contains_key(id));
                }
                return Err(StoreError::InvalidUpdateToken);
            },
            Some(current) => {
                proof {
                    assert(kept.contains_key(id));
                }
                if !text::same_text(current.token.as_str(), token) {
                    return Err(StoreError::InvalidUpdateToken);
                }
            },
        }
        self.tokens.remove(&id);
        proof {
            assert(self@.pending =~= kept.remove(id));
            assert forall|key: i64| #[trigger] self@.pending.contains_key(key) implies
                self@.pending[key].expires_at.nanos < 1_000_000_000 by {
                assert(kept.contains_key(key));
            }
        }
        Ok(())
    }

    /// Accepts the token of the result `id` once, if it has not run out.
    pub fn validate_and_remove(&mut self, id: i64, token: &str) -> (r: Result<(), StoreError>)
        requires
            old(self)@.wf(),
        ensures
            exists|now: UtcTime| #[trigger]
                now.wf() && now.secs >= 0 && validated_view(r) == (if old(self)@.accepts(id, token@, now) {
                    Ok::<(), store::StoreErrorModel>(())
                } else {
                    Err(store::StoreErrorModel::InvalidUpdateToken)
                }) && final(self)@ == old(self)@.after_validate(id, token@, now),
            r is Ok ==> old(self)@.pending.contains_key(id) && old(self)@.pending[id].token
                == token@,
            final(self)@.wf(),
    {
        let now = clock::utc_now();
        let r = self.validate_and_remove_at(id, token, now);
        assert(now.wf());
        r
    }
}

/// A token is accepted until it runs out.
pub proof fn law_new_token_is_accepted(before: TokensModel, id: i64, now: UtcTime, later: UtcTime)
    requires
        now.wf(),
        later.timestamp_nanos() < now.timestamp_nanos() + UPDATE_TOKEN_TTL_SECS * 1_000_000_000,
    ensures
        before.after_create(id, now).accepts(id, token_of(now, before.sequence), later),
{
}

/// Once it has run out, a token is refused.
pub proof fn law_expired_token_is_refused(
    before: TokensModel,
    id: i64,
    token: Seq<char>,
    now: UtcTime,
    later: UtcTime,
)
    requires
        now.wf(),
        later.timestamp_nanos() >= now.timestamp_nanos() + UPDATE_TOKEN_TTL_SECS * 1_000_000_000,
    ensures
        !before.after_create(id, now).accepts(id, token, later),
{
}

/// A token that was accepted is accepted no more, at whatever time, nor is any other for that
/// result.
pub proof fn law_token_is_accepted_once(
    before: TokensModel,
    id: i64,
    token: Seq<char>,
    now: UtcTime,
    other: Seq<char>,
    later: UtcTime,
)
    requires
        before.accepts(id, token, now),
    ensures
        !before.after_validate(id, token, now).accepts(id, other, later),
{
}

/// A token that is refused leaves the one of the result to be accepted later.
pub proof fn law_refused_token_changes_nothing(
    before: TokensModel,
    id: i64,
    token: Seq<char>,
    now: UtcTime,
    right: Seq<char>,
    later: UtcTime,
)
    requires
        !before.accepts(id, token, now),
        now.timestamp_nanos() <= later.timestamp_nanos(),
    ensures
        before.after_validate(id, token, now).accepts(id, right, later) == before.accepts(
            id,
            right,
            later,
        ),
{
}

/// A token for one result says nothing about those of others.
pub proof fn law_tokens_are_independent(
    before: TokensModel,
    id: i64,
    token: Seq<char>,
    now: UtcTime,
    other: i64,
    presented: Seq<char>,
    later: UtcTime,
)
    requires
        id != other,
        now.timestamp_nanos() <= later.timestamp_nanos(),
    ensures
        before.after_create(id, now).accepts(other, presented, later) == before.accepts(
            other,
            presented,
            later,
        ),
        before.after_validate(id, token, now).accepts(other, presented, later) == before.accepts(
            other,
            presented,
            later,
        ),
{
}

/// Tokens that are handed out at the same time differ, as long as their counts do.
pub proof fn law_tokens_differ(now: UtcTime, first: u64, second: u64)
    requires
        first != second,
    ensures
        token_of(now, first) != token_of(now, second),
{
    let front = text::hexadecimal(unsigned(token_time(now)));
    let a = text::hexadecimal(first as nat);
    let b = text::hexadecimal(second as nat);
    assert(a =~= token_of(now, first).skip(front.len() as int));
    assert(b =~= token_of(now, second).skip(front.len() as int));
    text_lemmas::lemma_digits(first as nat, 16);
    text_lemmas::lemma_digits(second as nat, 16);
}

/// A token is the time in nanoseconds since the start of 1970, followed by the count of tokens
/// before it, both in hexadecimal; microseconds stand for nanoseconds that sixty-four bits do not
/// hold.
pub proof fn law_token_text(now: UtcTime, sequence: u64)
    ensures
        ({
            let nanos = now.secs * 1_000_000_000 + now.nanos;
            let micros = now.secs * 1_000_000 + now.nanos / 1_000;
            let time = if -0x8000_0000_0000_0000 <= nanos && nanos <= 0x7fff_ffff_ffff_ffff {
                nanos
            } else {
                micros
            };
            &&& time >= 0 ==> token_of(now, sequence) == text::hexadecimal(time as nat)
                + text::hexadecimal(sequence as nat)
            &&& time < 0 ==> token_of(now, sequence) == text::hexadecimal(
                (time + 0x1_0000_0000_0000_0000) as nat,
            ) + text::hexadecimal(sequence as nat)
        }),
{
}

/// After a token is handed out, it is the one of its result for thirty seconds; the others stay as
/// they are, but for those that have run out, and the count is one more.
pub proof fn law_after_handing_out(before: TokensModel, id: i64, now: UtcTime, other: i64)
    requires
        now.wf(),
    ensures
        ({
            let after = before.after_create(id, now);
            let runs_on = before.pending.contains_key(other)
                && before.pending[other].expires_at.timestamp_nanos() > now.timestamp_nanos();
            &&& after.pending.contains_key(id)
            &&& after.pending[id].token == token_of(now, before.sequence)
            &&& after.pending[id].expires_at.timestamp_nanos() == now.timestamp_nanos()
                + 30_000_000_000
            &&& other != id ==> (after.pending.contains_key(other) <==> runs_on)
            &&& other != id && runs_on ==> after.pending[other] == before.pending[other]
            &&& before.sequence < u64::MAX ==> after.sequence == before.sequence + 1
            &&& before.sequence == u64::MAX ==> after.sequence == 0
        }),
{
}

/// A token is accepted where it is the one of its result and has not run out. That one is then
/// forgotten; the others stay as they are, but for those that have run out, and so does the count.
pub proof fn law_after_presenting(
    before: TokensModel,
    id: i64,
    token: Seq<char>,
    now: UtcTime,
    other: i64,
)
    ensures
        ({
            let after = before.after_validate(id, token, now);
            let runs_on = |key: i64|
                before.pending.contains_key(key) && before.pending[key].expires_at.timestamp_nanos()
                    > now.timestamp_nanos();
            let accepted = runs_on(id) && before.pending[id].token == token;
            &&& before.accepts(id, token, now) == accepted
            &&& after.pending.contains_key(other) <==> runs_on(other) && !(accepted && other == id)
            &&& after.pending.contains_key(other) ==> after.pending[other] == before.pending[other]
            &&& after.sequence == before.sequence
        }),
{
}

/// Times are counted in nanoseconds and microseconds since the start of 1970.
pub proof fn law_time_stamps(at: UtcTime, seconds: int)
    requires
        i64::MIN <= at.secs + seconds <= i64::MAX,
    ensures
        at.timestamp_nanos() == at.secs * 1_000_000_000 + at.nanos,
        at.timestamp_micros() == at.secs * 1_000_000 + at.nanos / 1_000,
        at.plus(seconds).timestamp_nanos() == at.timestamp_nanos() + seconds * 1_000_000_000,
{
    assert((at.secs + seconds) * 1_000_000_000 == at.secs * 1_000_000_000 + seconds
        * 1_000_000_000) by (nonlinear_arith);
}

/// The model of an outcome is that of what came out.
pub proof fn law_model_of_presenting(e: StoreError)
    ensures
        validated_view(Ok(())) == Ok::<(), store::StoreErrorModel>(()),
        validated_view(Err(e)) == Err::<(), store::StoreErrorModel>(e@),
{
}

} // verus!
