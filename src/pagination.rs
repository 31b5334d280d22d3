//! Result windows for listings: their defaults, validation and clamping.

use vstd::prelude::*;

verus! {

/// Smallest page size a listing accepts.
pub const MIN_LIMIT: i64 = 1;

/// Largest page size a listing accepts.
pub const MAX_LIMIT: i64 = 100;

/// A page of results, with the window that produced it.
#[derive(Debug)]
pub struct PaginatedResponse<T> {
    pub data: Vec<T>,
    pub total: i64,
    pub limit: i64,
    pub offset: i64,
    pub has_more: bool,
}

/// Window requested by a listing: at most `limit` items, skipping `offset`.
#[derive(Debug, Clone, Copy, PartialEq, Eq)]
pub struct PaginationParams {
    pub limit: i64,
    pub offset: i64,
}

/// Why a pagination window is refused.
#[derive(Debug, Clone, Copy, PartialEq, Eq)]
pub enum PaginationError {
    LimitTooSmall,
    LimitTooLarge,
    NegativeOffset,
}

/// Page size used when a listing request names none.
pub fn default_limit() -> (r: i64)
    ensures
        r == 50,
{
    50
}

pub open spec fn clamp_spec(x: i64, lo: i64, hi: i64) -> i64 {
    if x < lo {
        lo
    } else if x > hi {
        hi
    } else {
        x
    }
}

impl PaginationError {
    pub open spec fn message_spec(self) -> Seq<char> {
        match self {
            PaginationError::LimitTooSmall => "Limit must be at least 1"@,
            PaginationError::LimitTooLarge => "Limit cannot exceed 100"@,
            PaginationError::NegativeOffset => "Offset cannot be negative"@,
        }
    }

    /// The text shown to a client for this refusal.
    pub fn message(&self) -> (r: String)
        ensures
            r@ == self.message_spec(),
    {
        match self {
            PaginationError::LimitTooSmall => "Limit must be at least 1".to_string(),
            PaginationError::LimitTooLarge => "Limit cannot exceed 100".to_string(),
            PaginationError::NegativeOffset => "Offset cannot be negative".to_string(),
        }
    }
}

impl PaginationParams {
    /// The first rule that the window breaks, checked in order: limit too
    /// small, limit too large, negative offset.
    pub open spec fn first_violation(self) -> Option<PaginationError> {
        if self.limit < MIN_LIMIT {
            Some(PaginationError::LimitTooSmall)
        } else if self.limit > MAX_LIMIT {
            Some(PaginationError::LimitTooLarge)
        } else if self.offset < 0 {
            Some(PaginationError::NegativeOffset)
        } else {
            None
        }
    }

    /// A window with the default page size and no offset.
    pub fn new() -> (r: Self)
        ensures
            r.limit == 50,
            r.offset == 0,
    {
        PaginationParams { limit: default_limit(), offset: 0 }
    }

    /// Accepts the window when `1 <= limit <= 100` and `offset >= 0`;
    /// otherwise names the first rule broken.
    pub fn check(&self) -> (r: Result<(), PaginationError>)
        ensures
            r is Ok <==> self.first_violation() is None,
            r is Err ==> self.first_violation() == Some(r->Err_0),
    {
        if self.limit < MIN_LIMIT {
            return Err(PaginationError::LimitTooSmall);
        }
        if self.limit > MAX_LIMIT {
            return Err(PaginationError::LimitTooLarge);
        }
        if self.offset < 0 {
            return Err(PaginationError::NegativeOffset);
        }
        Ok(())
    }

    /// Same decision as `check`, with the refusal as the client-facing text.
    pub fn validate(&self) -> (r: Result<(), String>)
        ensures
            r is Ok <==> self.first_violation() is None,
            r is Err ==> r->Err_0@ == self.first_violation()->Some_0.message_spec(),
    {
        match self.check() {
            Ok(()) => Ok(()),
            Err(e) => Err(e.message()),
        }
    }

    /// The nearest valid window: limit clamped into `1..=100`, offset
    /// raised to at least zero.
    pub fn sanitize(&self) -> (r: Self)
        ensures
            r.limit == clamp_spec(self.limit, MIN_LIMIT, MAX_LIMIT),
            r.offset == if self.offset < 0 { 0 } else { self.offset },
            r.first_violation() is None,
    {
        let limit = if self.limit < MIN_LIMIT {
            MIN_LIMIT
        } else if self.limit > MAX_LIMIT {
            MAX_LIMIT
        } else {
            self.limit
        };
        let offset = if self.offset < 0 { 0 } else { self.offset };
        PaginationParams { limit, offset }
    }
}

} // verus!
