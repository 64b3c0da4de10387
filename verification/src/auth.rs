use vstd::prelude::*;
use crate::decimal::{decimal_digits, u64_to_decimal};
use crate::error::ApiError;
use crate::session::{SessionTokens, session_token_valid, tokens_after_check};
use crate::time::{Timestamp, RATE_LIMIT_WINDOW_NANOS, SESSION_LIFETIME_NANOS, nanos_between, utc_now};

verus! {

/// The bcrypt hash of the one password that grants a session.
#[derive(Clone, Debug)]
pub struct PasswordHashString(pub String);

/// When the last login attempt was refused for a wrong password, on the
/// server's monotonic clock (nanoseconds since an origin that the server
/// picks once).
#[derive(Clone, Copy, Debug, Default)]
pub struct RateLimiting {
    pub last_request_time: Option<u64>,
}

impl RateLimiting {
    /// No refused attempt so far.
    pub fn new() -> (rate_limiting: Self)
        ensures
            rate_limiting.last_request_time is None,
    {
        RateLimiting { last_request_time: None }
    }

    /// An attempt at `now` is refused outright when less than the window has
    /// passed since the last refused attempt. A clock reading earlier than
    /// that attempt counts as no time passed.
    pub open spec fn spec_is_rate_limited(self, now: u64) -> bool {
        match self.last_request_time {
            Some(last) => now < last + RATE_LIMIT_WINDOW_NANOS,
            None => false,
        }
    }

    /// Whether an attempt at `now` is refused outright.
    pub fn is_rate_limited(&self, now: u64) -> (limited: bool)
        ensures
            limited == self.spec_is_rate_limited(now),
    {
        match self.last_request_time {
            Some(last) => now < last || now - last < RATE_LIMIT_WINDOW_NANOS,
            None => false,
        }
    }
}

/// The outcome of `bcrypt::verify` on a password (by its characters, whose
/// UTF-8 bytes are hashed) and a stored hash: whether they match, or the text
/// of the error that bcrypt reports.
pub uninterp spec fn bcrypt_verify_outcome(password: Seq<char>, hash: Seq<char>) -> Result<bool, Seq<char>>;

/// Calls `bcrypt::verify` with the UTF-8 bytes of `password` and the stored
/// `hash`; an error is handed back as its `Display` text. The contract only
/// names the result: it is whatever bcrypt computes from these two arguments
/// (bcrypt's source computes it from them alone).
#[verifier::external_body]
fn bcrypt_verify(password: &str, hash: &str) -> (outcome: Result<bool, String>)
    ensures
        match outcome {
            Ok(matches) => bcrypt_verify_outcome(password@, hash@) == Ok::<bool, Seq<char>>(matches),
            Err(text) => bcrypt_verify_outcome(password@, hash@) == Err::<bool, Seq<char>>(text@),
        },
{
    bcrypt::verify(password.as_bytes(), hash).map_err(|e| e.to_string())
}

/// What a password check yields, stated over the bcrypt outcome: the match
/// itself, or a server error carrying bcrypt's error text.
pub open spec fn password_check_result(outcome: Result<bool, Seq<char>>, result: Result<bool, ApiError>) -> bool {
    match outcome {
        Ok(matches) => result == Ok::<bool, ApiError>(matches),
        Err(text) => match result {
            Err(ApiError::Server(description)) => description@ == text,
            _ => false,
        },
    }
}

/// Refuses a login attempt at `now` that comes too soon after a refused one.
pub fn check_rate_limit(rate_limiting: &RateLimiting, now: u64) -> (result: Result<(), ApiError>)
    ensures
        result is Ok <==> !rate_limiting.spec_is_rate_limited(now),
        result is Err ==> result == Err::<(), ApiError>(ApiError::RateLimited),
{
    if rate_limiting.is_rate_limited(now) {
        Err(ApiError::RateLimited)
    } else {
        Ok(())
    }
}

/// Checks `password` against the stored bcrypt hash.
pub fn verify_password(password_hash: &PasswordHashString, password: &str) -> (result: Result<bool, ApiError>)
    ensures
        password_check_result(bcrypt_verify_outcome(password@, password_hash.0@), result),
{
    match bcrypt_verify(password, password_hash.0.as_str()) {
        Ok(matches) => Ok(matches),
        Err(text) => Err(ApiError::Server(text)),
    }
}

/// Draws a random `u64` with `rand::random`. Nothing is stated of the value.
#[verifier::external_body]
fn random_u64() -> u64 {
    rand::random::<u64>()
}

/// Completes a login attempt once the password has been checked, with the
/// token drawn as `token_value` and the wall clock reading `minted`. A server
/// error passes through and changes nothing; a wrong password records `now`
/// as the last refused attempt; a right one mints the token (the decimal text
/// of `token_value`), records it with `minted` and hands it out.
pub fn finish_login_with(
    rate_limiting: &mut RateLimiting,
    session_tokens: &mut SessionTokens,
    password_check: Result<bool, ApiError>,
    now: u64,
    token_value: u64,
    minted: Timestamp,
) -> (result: Result<String, ApiError>)
    ensures
        match password_check {
            Err(e) => {
                &&& result == Err::<String, ApiError>(e)
                &&& *final(rate_limiting) == *old(rate_limiting)
                &&& final(session_tokens)@ == old(session_tokens)@
            },
            Ok(false) => {
                &&& result == Err::<String, ApiError>(ApiError::InvalidPassword)
                &&& final(rate_limiting).last_request_time == Some(now)
                &&& final(session_tokens)@ == old(session_tokens)@
            },
            Ok(true) => {
                &&& result is Ok
                &&& result->Ok_0@ == decimal_digits(token_value as nat)
                &&& *final(rate_limiting) == *old(rate_limiting)
                &&& final(session_tokens)@ == old(session_tokens)@.insert(decimal_digits(token_value as nat), minted)
            },
        },
{
    match password_check {
        Err(e) => Err(e),
        Ok(false) => {
            rate_limiting.last_request_time = Some(now);
            Err(ApiError::InvalidPassword)
        },
        Ok(true) => {
            let token = u64_to_decimal(token_value);
            session_tokens.insert(token.clone(), minted);
            Ok(token)
        },
    }
}

/// Completes a login attempt as [`finish_login_with`] does, drawing the token
/// value at random and reading the wall clock for its minting time.
pub fn finish_login(
    rate_limiting: &mut RateLimiting,
    session_tokens: &mut SessionTokens,
    password_check: Result<bool, ApiError>,
    now: u64,
) -> (result: Result<String, ApiError>)
    ensures
        match password_check {
            Err(e) => {
                &&& result == Err::<String, ApiError>(e)
                &&& *final(rate_limiting) == *old(rate_limiting)
                &&& final(session_tokens)@ == old(session_tokens)@
            },
            Ok(false) => {
                &&& result == Err::<String, ApiError>(ApiError::InvalidPassword)
                &&& final(rate_limiting).last_request_time == Some(now)
                &&& final(session_tokens)@ == old(session_tokens)@
            },
            Ok(true) => {
                &&& result is Ok
                &&& *final(rate_limiting) == *old(rate_limiting)
                &&& exists|token_value: u64, minted: Timestamp|
                    {
                        &&& result->Ok_0@ == decimal_digits(token_value as nat)
                        &&& minted.nanos < 1_000_000_000
                        &&& final(session_tokens)@ == old(session_tokens)@.insert(decimal_digits(token_value as nat), minted)
                    }
            },
        },
{
    match password_check {
        Ok(true) => {
            let token_value = random_u64();
            let minted = utc_now();
            finish_login_with(rate_limiting, session_tokens, password_check, now, token_value, minted)
        },
        _ => finish_login_with(rate_limiting, session_tokens, password_check, now, 0, Timestamp { secs: 0, nanos: 0 }),
    }
}

/// A refused attempt at `refused_at` shuts the door for exactly the window:
/// every attempt before `refused_at` plus the window is refused outright,
/// every later one is considered.
pub proof fn lemma_rate_limit_window(refused_at: u64, now: u64)
    ensures
        (RateLimiting { last_request_time: Some(refused_at) }).spec_is_rate_limited(now)
            <==> (now as int) < refused_at + RATE_LIMIT_WINDOW_NANOS,
{
}

/// Before any refused attempt, no attempt is refused outright.
pub proof fn lemma_fresh_limiter_admits(now: u64)
    ensures
        !(RateLimiting { last_request_time: None }).spec_is_rate_limited(now),
{
}

/// A login with the right password opens a session of seven days: the
/// tokens after [`finish_login_with`] (which records the token it hands out
/// with the reading `minted`) make that token pass every check from
/// `minted` up to seven days later, with nothing forgotten, and fail every
/// check more than seven days later, the token then being forgotten. Other
/// tokens keep what they had.
pub proof fn lemma_login_opens_seven_day_session(
    tokens: Map<Seq<char>, Timestamp>,
    token_value: u64,
    minted: Timestamp,
    now: Timestamp,
    other: Seq<char>,
)
    ensures
        ({
            let token = decimal_digits(token_value as nat);
            let after_login = tokens.insert(token, minted);
            &&& 0 <= nanos_between(now, minted) <= SESSION_LIFETIME_NANOS ==> {
                &&& session_token_valid(after_login, token, now)
                &&& tokens_after_check(after_login, token, now) == after_login
            }
            &&& nanos_between(now, minted) > SESSION_LIFETIME_NANOS ==> {
                &&& !session_token_valid(after_login, token, now)
                &&& !tokens_after_check(after_login, token, now).contains_key(token)
            }
            &&& other != token ==> (after_login.contains_key(other) == tokens.contains_key(other))
            &&& other != token && tokens.contains_key(other) ==> after_login[other] == tokens[other]
        }),
{
}

} // verus!
