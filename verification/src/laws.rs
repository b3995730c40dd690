//! The cross-cutting laws of the runtime, stated once over the spec
//! functions the operation contracts use.

use vstd::prelude::*;
use crate::auth::{password_digest, prepared_username, spec_valid_password, valid_normalized_username, LATEST_HASH_SCHEME};
use crate::handler::matches_credentials;
use crate::store::tokens::{live_tokens, swept_pairs, token_expired};
use crate::store::users::{redisplayed_user, renamed_user};
use crate::store::{Database, Token, UserRecord};

verus! {

broadcast use vstd::seq_lib::group_filter_ensures;

/// Token round trip, first half: an account that registration just
/// created matches its own credentials and carries none of the marks
/// that block a login, so token issuance on the same credentials is
/// promised to succeed.
pub proof fn lemma_registered_account_logs_in(
    db: Database,
    username: Seq<char>,
    password: Seq<char>,
)
    requires
        db.users@.len() > 0,
        valid_normalized_username(prepared_username(username)),
        spec_valid_password(password),
        db.users@.last().username@ == prepared_username(username),
        db.users@.last().password_hash == password_digest(password, LATEST_HASH_SCHEME),
        db.users@.last().hash_scheme_version == LATEST_HASH_SCHEME,
        !db.users@.last().locked,
        !db.users@.last().banned,
        !db.users@.last().compromised,
    ensures
        exists|i: int|
            0 <= i < db.users@.len() && matches_credentials(
                #[trigger] db.users@[i],
                username,
                password,
            ) && !db.users@[i].locked && !db.users@[i].banned && !db.users@[i].compromised,
{
    let w = db.users@.len() - 1;
    assert(matches_credentials(db.users@[w], username, password));
}

/// Token round trip, second half: a token that issuance just stored
/// authenticates as long as it is neither revoked nor expired and its
/// account exists unlocked — exactly the premise under which the
/// authentication contract promises success.
pub proof fn lemma_issued_token_authenticates(
    db: Database,
    i: int,
    k: int,
    token: u128,
    now: u64,
    expiry_days: u16,
)
    requires
        0 <= i < db.tokens@.len(),
        db.tokens@[i].token_hash == crate::auth::token_digest(
            token,
            db.tokens@[i].hash_scheme_version,
        ),
        !token_expired(db.tokens@[i], now, expiry_days),
        0 <= k < db.users@.len(),
        db.users@[k].id == db.tokens@[i].user,
        !db.users@[k].locked,
    ensures
        exists|i2: int, k2: int|
            {
                &&& 0 <= i2 < db.tokens@.len()
                &&& (#[trigger] db.tokens@[i2]).device == db.tokens@[i].device
                &&& db.tokens@[i2].token_hash == crate::auth::token_digest(
                    token,
                    db.tokens@[i2].hash_scheme_version,
                )
                &&& !token_expired(db.tokens@[i2], now, expiry_days)
                &&& 0 <= k2 < db.users@.len()
                &&& (#[trigger] db.users@[k2]).id == db.tokens@[i2].user
                &&& !db.users@[k2].locked
            },
{
}

/// Message ordering: within one well-formed store, of two persisted
/// messages of the same community, the earlier-handled one carries the
/// smaller id — in both directions, so every observer reading messages
/// in id order sees them in handling order.
pub proof fn lemma_message_order(db: Database, i: int, j: int)
    requires
        db.wf(),
        0 <= i < db.messages@.len(),
        0 <= j < db.messages@.len(),
        db.messages@[i].community == db.messages@[j].community,
    ensures
        i < j <==> db.messages@[i].id.0 < db.messages@[j].id.0,
{
    if i < j {
        assert(db.messages@[i].id.0 < db.messages@[j].id.0);
    } else if j < i {
        assert(db.messages@[j].id.0 < db.messages@[i].id.0);
    }
}

/// Sweep safety: after a sweep at time `now`, no surviving token is
/// expired at `now`, and the `(user, device)` pair of every expired
/// token is on the sweep's teardown list.
pub proof fn lemma_sweep_removes_expired(s: Seq<Token>, now: u64, expiry_days: u16)
    ensures
        forall|i: int|
            0 <= i < live_tokens(s, now, expiry_days).len() ==> !token_expired(
                #[trigger] live_tokens(s, now, expiry_days)[i],
                now,
                expiry_days,
            ),
        forall|j: int|
            0 <= j < s.len() && token_expired(#[trigger] s[j], now, expiry_days) ==> swept_pairs(
                s,
                now,
                expiry_days,
            ).contains((s[j].user, s[j].device)),
    decreases s.len(),
{
    reveal(Seq::filter);
    if s.len() == 0 {
    } else {
        lemma_sweep_removes_expired(s.drop_last(), now, expiry_days);
        let keep = |t: Token| !token_expired(t, now, expiry_days);
        let expired = |t: Token| token_expired(t, now, expiry_days);
        assert(s.drop_last().filter(keep) == live_tokens(s.drop_last(), now, expiry_days));
        assert forall|i: int|
            0 <= i < live_tokens(s, now, expiry_days).len() implies !token_expired(
            #[trigger] live_tokens(s, now, expiry_days)[i],
            now,
            expiry_days,
        ) by {
            let f = live_tokens(s, now, expiry_days);
            let rest = live_tokens(s.drop_last(), now, expiry_days);
            if i < rest.len() {
                assert(f[i] == rest[i]);
            }
        }
        assert forall|j: int|
            0 <= j < s.len() && token_expired(#[trigger] s[j], now, expiry_days) implies
            swept_pairs(s, now, expiry_days).contains((s[j].user, s[j].device)) by {
            let sp = swept_pairs(s, now, expiry_days);
            let restf = s.drop_last().filter(expired);
            let restp = swept_pairs(s.drop_last(), now, expiry_days);
            if j < s.len() - 1 {
                assert(s.drop_last()[j] == s[j]);
                assert(restp.contains((s[j].user, s[j].device)));
                let w = choose|w: int|
                    0 <= w < restp.len() && restp[w] == (s[j].user, s[j].device);
                assert(sp[w] == (s[j].user, s[j].device));
            } else {
                assert(s.filter(expired) == restf.push(s.last()));
                assert(sp[sp.len() - 1] == (s[j].user, s[j].device));
            }
        }
    }
}

/// Profile version monotonicity: a username change advances the profile
/// version by exactly one.
pub proof fn lemma_rename_bumps_version(a: UserRecord, b: UserRecord, username: Seq<u8>)
    requires
        renamed_user(a, b, username),
        a.profile_version.0 < u32::MAX,
    ensures
        b.profile_version.0 == a.profile_version.0 + 1,
{
}

/// Profile version monotonicity: a display-name change advances the
/// profile version by exactly one.
pub proof fn lemma_redisplay_bumps_version(a: UserRecord, b: UserRecord, display_name: Seq<char>)
    requires
        redisplayed_user(a, b, display_name),
        a.profile_version.0 < u32::MAX,
    ensures
        b.profile_version.0 == a.profile_version.0 + 1,
{
}

} // verus!
