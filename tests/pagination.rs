use chat_fanout::friends::{default_limit as search_default_limit, SearchUsersQuery};
use chat_fanout::pagination::{default_limit, PaginationError, PaginationParams};

#[test]
fn default_window_is_fifty_from_the_start() {
    assert_eq!(default_limit(), 50);
    let p = PaginationParams::new();
    assert_eq!(p, PaginationParams { limit: 50, offset: 0 });
    assert_eq!(p.validate(), Ok(()));
}

#[test]
fn search_defaults_to_twenty() {
    assert_eq!(search_default_limit(), 20);
    let q = SearchUsersQuery::new(Some("ann".to_string()));
    assert_eq!(q.limit, 20);
    assert_eq!(q.offset, 0);
    assert_eq!(q.username.as_deref(), Some("ann"));
}

#[test]
fn validate_names_each_broken_rule() {
    let small = PaginationParams { limit: 0, offset: 0 };
    assert_eq!(small.validate(), Err("Limit must be at least 1".to_string()));
    assert_eq!(small.check(), Err(PaginationError::LimitTooSmall));
    let large = PaginationParams { limit: 101, offset: 0 };
    assert_eq!(large.validate(), Err("Limit cannot exceed 100".to_string()));
    assert_eq!(large.check(), Err(PaginationError::LimitTooLarge));
    let negative = PaginationParams { limit: 10, offset: -1 };
    assert_eq!(negative.validate(), Err("Offset cannot be negative".to_string()));
    assert_eq!(negative.check(), Err(PaginationError::NegativeOffset));
    let both = PaginationParams { limit: 0, offset: -5 };
    assert_eq!(both.check(), Err(PaginationError::LimitTooSmall));
}

#[test]
fn validate_accepts_the_bounds() {
    assert_eq!(PaginationParams { limit: 1, offset: 0 }.validate(), Ok(()));
    assert_eq!(PaginationParams { limit: 100, offset: 1_000 }.validate(), Ok(()));
}

#[test]
fn sanitize_clamps_into_range() {
    let p = PaginationParams { limit: -3, offset: -9 }.sanitize();
    assert_eq!(p, PaginationParams { limit: 1, offset: 0 });
    let p = PaginationParams { limit: 500, offset: 12 }.sanitize();
    assert_eq!(p, PaginationParams { limit: 100, offset: 12 });
    let p = PaginationParams { limit: 37, offset: 4 }.sanitize();
    assert_eq!(p, PaginationParams { limit: 37, offset: 4 });
    assert_eq!(PaginationParams { limit: i64::MIN, offset: i64::MIN }.sanitize().validate(), Ok(()));
}

#[test]
fn error_messages_match_their_rules() {
    assert_eq!(PaginationError::LimitTooSmall.message(), "Limit must be at least 1");
    assert_eq!(PaginationError::LimitTooLarge.message(), "Limit cannot exceed 100");
    assert_eq!(PaginationError::NegativeOffset.message(), "Offset cannot be negative");
}
