//! The data that the outside services exchange: tag suggestion, email,
//! authentication and rate limiting.

use vstd::prelude::*;
use std::sync::Arc;
use crate::config::ConfigService;

verus! {

/// A post to suggest tags for.
#[derive(Debug, Clone)]
pub struct PostToSuggestTagsFor {
    pub title: String,
    pub description: String,
}

/// The message of a suggestion choice.
#[derive(Debug, Clone)]
pub struct AIResponseChoiceMessage {
    pub content: String,
}

/// One suggestion choice.
#[derive(Debug, Clone)]
pub struct AIResponseChoice {
    pub message: AIResponseChoiceMessage,
}

/// The answer of the suggestion service.
#[derive(Debug, Clone)]
pub struct AIResponse {
    pub choices: Vec<AIResponseChoice>,
}

/// The tag suggestion service.
pub struct AIService {
    pub config_service: Arc<ConfigService>,
}

impl AIService {
    /// A suggestion service reading the given configuration.
    pub fn new(config_service: Arc<ConfigService>) -> (r: AIService)
        ensures
            r.config_service == config_service,
    {
        AIService { config_service }
    }
}

/// The email service.
pub struct EmailService {
    pub config_service: Arc<ConfigService>,
}

impl EmailService {
    /// An email service reading the given configuration.
    pub fn new(config_service: Arc<ConfigService>) -> (r: EmailService)
        ensures
            r.config_service == config_service,
    {
        EmailService { config_service }
    }
}

/// What a token allows.
#[derive(Debug, Clone, Copy, PartialEq, Eq, Structural)]
pub enum TokenScope {
    CreatePost,
    Login,
}

/// The claims of a scoped token.
#[derive(Debug, Clone, Copy, PartialEq, Eq, Structural)]
pub struct ScopedToken {
    pub exp: usize,
    pub scope: TokenScope,
    pub id: u32,
}

/// A pending confirmation: its identifier and the code sent by email.
#[derive(Debug, Clone)]
pub struct ConfirmationObject {
    pub id: String,
    pub code: String,
}

/// At most `max_requests` requests under `id` per `duration_ms`.
#[derive(Debug, Clone)]
pub struct RateLimitConstraint {
    pub id: String,
    pub max_requests: u32,
    pub duration_ms: u32,
}


/// What the rate limiter stores per key: when the window was last touched,
/// in milliseconds, and how many requests it has counted.
#[derive(Debug, Clone, Copy, PartialEq, Eq, Structural)]
pub struct RateLimitEntry {
    pub last_time_ms: i64,
    pub count: u32,
}

/// Whether a request under `constraint` is allowed at `now_ms`, given the
/// stored entry: always with no entry or once more than `duration_ms` has
/// passed since it was touched, else while fewer than `max_requests` were
/// counted.
pub open spec fn rate_allows(entry: Option<RateLimitEntry>, now_ms: i64, duration_ms: u32, max_requests: u32) -> bool {
    match entry {
        None => true,
        Some(e) => now_ms - e.last_time_ms > duration_ms || e.count < max_requests,
    }
}

/// One rate-limit check: whether the request is allowed, and the entry to
/// store when it is (the count restarts at 1 once the window has passed).
pub fn rate_limit_step(entry: Option<RateLimitEntry>, now_ms: i64, constraint: &RateLimitConstraint) -> (r: (
    bool,
    Option<RateLimitEntry>,
))
    ensures
        r.0 == rate_allows(entry, now_ms, constraint.duration_ms, constraint.max_requests),
        !r.0 ==> r.1 is None,
        r.0 ==> r.1 == Some(
            RateLimitEntry {
                last_time_ms: now_ms,
                count: match entry {
                    Some(e) => if now_ms - e.last_time_ms > constraint.duration_ms {
                        1u32
                    } else {
                        (e.count + 1) as u32
                    },
                    None => 1u32,
                },
            },
        ),
{
    match entry {
        None => (true, Some(RateLimitEntry { last_time_ms: now_ms, count: 1 })),
        Some(e) => {
            let elapsed: i128 = now_ms as i128 - e.last_time_ms as i128;
            if elapsed > constraint.duration_ms as i128 {
                (true, Some(RateLimitEntry { last_time_ms: now_ms, count: 1 }))
            } else if e.count >= constraint.max_requests {
                (false, None)
            } else {
                (true, Some(RateLimitEntry { last_time_ms: now_ms, count: e.count + 1 }))
            }
        },
    }
}

} // verus!
