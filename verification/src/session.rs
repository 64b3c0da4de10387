use vstd::prelude::*;
use vstd::hash_map::StringHashMap;
use crate::error::ApiError;
use crate::time::{Timestamp, nanos_between, session_expired, spec_session_expired, utc_now};

verus! {

/// The session tokens handed out at login, each with the moment it was minted.
pub struct SessionTokens {
    tokens: StringHashMap<Timestamp>,
}

impl View for SessionTokens {
    type V = Map<Seq<char>, Timestamp>;

    closed spec fn view(&self) -> Map<Seq<char>, Timestamp> {
        self.tokens@
    }
}

/// A token is accepted at `now` when it was handed out and has not expired.
pub open spec fn session_token_valid(tokens: Map<Seq<char>, Timestamp>, token: Seq<char>, now: Timestamp) -> bool {
    tokens.contains_key(token) && !spec_session_expired(tokens[token], now)
}

/// The tokens that remain after checking `token` at `now`: an expired token is
/// forgotten, everything else stays.
pub open spec fn tokens_after_check(tokens: Map<Seq<char>, Timestamp>, token: Seq<char>, now: Timestamp) -> Map<Seq<char>, Timestamp> {
    if tokens.contains_key(token) && spec_session_expired(tokens[token], now) {
        tokens.remove(token)
    } else {
        tokens
    }
}

impl SessionTokens {
    /// No tokens at all.
    pub fn new() -> (tokens: Self)
        ensures
            tokens@ == Map::<Seq<char>, Timestamp>::empty(),
    {
        SessionTokens { tokens: StringHashMap::new() }
    }

    /// Records `token` as minted at `minted`, replacing an earlier entry.
    pub fn insert(&mut self, token: String, minted: Timestamp)
        ensures
            final(self)@ == old(self)@.insert(token@, minted),
    {
        self.tokens.insert(token, minted);
    }

    /// When `token` was minted, if it is known.
    pub fn minted_at(&self, token: &str) -> (minted: Option<Timestamp>)
        ensures
            match minted {
                Some(t) => self@.contains_key(token@) && self@[token@] == t,
                None => !self@.contains_key(token@),
            },
    {
        match self.tokens.get(token) {
            Some(t) => Some(*t),
            None => None,
        }
    }

    /// Forgets `token`.
    pub fn remove(&mut self, token: &str)
        ensures
            final(self)@ == old(self)@.remove(token@),
    {
        self.tokens.remove(token);
    }

    /// How many tokens are known.
    pub fn len(&self) -> (n: usize)
        ensures
            n == self@.len(),
    {
        self.tokens.len()
    }
}

/// Checks `token` at the moment `now`: it is accepted when it was handed out
/// and at most seven days have passed since; an expired token is forgotten.
pub fn check_session_token_at(session_tokens: &mut SessionTokens, session_token: &str, now: Timestamp) -> (result: Result<(), ApiError>)
    ensures
        result is Ok <==> session_token_valid(old(session_tokens)@, session_token@, now),
        result is Err ==> result == Err::<(), ApiError>(ApiError::InvalidSessionToken),
        final(session_tokens)@ == tokens_after_check(old(session_tokens)@, session_token@, now),
{
    match session_tokens.minted_at(session_token) {
        Some(minted) => {
            if session_expired(minted, now) {
                session_tokens.remove(session_token);
                Err(ApiError::InvalidSessionToken)
            } else {
                Ok(())
            }
        },
        None => Err(ApiError::InvalidSessionToken),
    }
}

/// Checks `token` against the current wall-clock time, as
/// [`check_session_token_at`] does for the moment that the clock gave.
pub fn check_session_token(session_tokens: &mut SessionTokens, session_token: &str) -> (result: Result<(), ApiError>)
    ensures
        exists|now: Timestamp|
            {
                &&& (result is Ok <==> session_token_valid(old(session_tokens)@, session_token@, now))
                &&& final(session_tokens)@ == tokens_after_check(old(session_tokens)@, session_token@, now)
            },
        result is Err ==> result == Err::<(), ApiError>(ApiError::InvalidSessionToken),
        !old(session_tokens)@.contains_key(session_token@) ==> result is Err && final(session_tokens)@ == old(session_tokens)@,
        result is Ok ==> final(session_tokens)@ == old(session_tokens)@,
        result is Err ==> final(session_tokens)@ == old(session_tokens)@.remove(session_token@),
{
    let now = utc_now();
    let result = check_session_token_at(session_tokens, session_token, now);
    proof {
        if !old(session_tokens)@.contains_key(session_token@) {
            assert(old(session_tokens)@.remove(session_token@) =~= old(session_tokens)@);
        }
    }
    result
}

/// A token is accepted as long as its lifetime lasts: right after it was
/// recorded as minted at `minted`, a check at any `now` at most seven days
/// later accepts it and keeps every token.
pub proof fn lemma_fresh_token_accepted(tokens: Map<Seq<char>, Timestamp>, token: Seq<char>, minted: Timestamp, now: Timestamp)
    requires
        nanos_between(now, minted) <= crate::time::SESSION_LIFETIME_NANOS,
    ensures
        session_token_valid(tokens.insert(token, minted), token, now),
        tokens_after_check(tokens.insert(token, minted), token, now) == tokens.insert(token, minted),
{
}

/// Expiry is final: a token refused as expired at `now` is forgotten, so it
/// is refused at every later check, and it would have been expired at any
/// later moment too.
pub proof fn lemma_expired_token_refused_for_good(tokens: Map<Seq<char>, Timestamp>, token: Seq<char>, now: Timestamp, later: Timestamp)
    requires
        tokens.contains_key(token),
        spec_session_expired(tokens[token], now),
        nanos_between(later, now) >= 0,
    ensures
        !session_token_valid(tokens, token, now),
        !tokens_after_check(tokens, token, now).contains_key(token),
        !session_token_valid(tokens_after_check(tokens, token, now), token, later),
        spec_session_expired(tokens[token], later),
{
}

/// A token that was never handed out is refused, and the check changes
/// nothing.
pub proof fn lemma_unknown_token_refused(tokens: Map<Seq<char>, Timestamp>, token: Seq<char>, now: Timestamp)
    requires
        !tokens.contains_key(token),
    ensures
        !session_token_valid(tokens, token, now),
        tokens_after_check(tokens, token, now) == tokens,
{
}

/// Checking one token never touches another.
pub proof fn lemma_check_keeps_other_tokens(tokens: Map<Seq<char>, Timestamp>, token: Seq<char>, other: Seq<char>, now: Timestamp)
    requires
        other != token,
    ensures
        tokens_after_check(tokens, token, now).contains_key(other) == tokens.contains_key(other),
        tokens.contains_key(other) ==> tokens_after_check(tokens, token, now)[other] == tokens[other],
{
}

} // verus!
