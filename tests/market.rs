use coupon_market::config::Config;
use coupon_market::error::{AppError, EngineError};
use coupon_market::market::Market;
use coupon_market::model::{Coupon, CouponPublic};
use coupon_market::ranking::DEFAULT_LIMIT;

fn policy(initial: i32) -> Config {
    Config {
        min_coupon_create_reputation: 10,
        create_coupon_cost: 5,
        vote_coupon_cost: 1,
        initial_reputation: initial,
    }
}

fn publish(m: &mut Market, user: u128, id: u128, now: i64, domain: &str, expiry: Option<i64>) -> Result<CouponPublic, EngineError> {
    m.publish_coupon_with(
        user,
        id,
        now,
        format!("CODE{}", id),
        format!("coupon {}", id),
        domain.to_string(),
        expiry,
    )
}

fn balance(m: &Market, user: u128) -> i32 {
    m.get_user(user).unwrap().reputation
}

fn ids(list: &[CouponPublic]) -> Vec<u128> {
    list.iter().map(|c| c.id).collect()
}

#[test]
fn default_policy() {
    let c = Config::default();
    assert_eq!(c.min_coupon_create_reputation, 10);
    assert_eq!(c.create_coupon_cost, 5);
    assert_eq!(c.vote_coupon_cost, 1);
    assert_eq!(c.initial_reputation, 5);
}

#[test]
fn publish_vote_and_refuse_scenario() {
    let mut m = Market::new(policy(10));
    m.add_user(1, 0).unwrap();
    m.add_user(2, 0).unwrap();
    let c = publish(&mut m, 1, 100, 1000, "food", None).unwrap();
    assert_eq!(c.score, 0);
    assert_eq!(c.id, 100);
    assert_eq!(c.code, "CODE100");
    assert_eq!(balance(&m, 1), 5);
    let c = m.cast_vote_with(2, 200, 100, true).unwrap();
    assert_eq!(c.score, 1);
    assert_eq!(balance(&m, 2), 9);
    assert_eq!(
        publish(&mut m, 1, 101, 1001, "food", None).unwrap_err(),
        EngineError::InsufficientReputation
    );
    assert_eq!(balance(&m, 1), 5);
    assert_eq!(m.coupons().len(), 1);
}

#[test]
fn balance_never_negative_and_matches_paid() {
    let mut m = Market::new(policy(12));
    m.add_user(1, 0).unwrap();
    publish(&mut m, 1, 100, 1, "food", None).unwrap();
    let committed = 1;
    let mut votes = 0;
    for k in 0..20u128 {
        match m.cast_vote_with(1, 500 + k, 100, k % 2 == 0) {
            Ok(_) => votes += 1,
            Err(e) => assert_eq!(e, EngineError::InsufficientReputation),
        }
        assert!(balance(&m, 1) >= 0);
    }
    assert_eq!(votes, 7);
    assert_eq!(balance(&m, 1), 12 - 5 * committed - votes);
    assert_eq!(balance(&m, 1), 0);
}

#[test]
fn score_is_up_minus_down() {
    let mut m = Market::new(policy(100));
    m.add_user(1, 0).unwrap();
    m.add_user(2, 0).unwrap();
    publish(&mut m, 1, 100, 1, "food", None).unwrap();
    for k in 0..3u128 {
        m.cast_vote_with(2, 300 + k, 100, true).unwrap();
    }
    let c = m.cast_vote_with(1, 400, 100, false).unwrap();
    assert_eq!(c.score, 2);
    assert_eq!(m.votes().len(), 4);
}

#[test]
fn failed_publish_leaves_no_trace() {
    let mut m = Market::new(policy(100));
    m.add_user(1, 0).unwrap();
    publish(&mut m, 1, 100, 1, "food", None).unwrap();
    let before = balance(&m, 1);
    assert_eq!(publish(&mut m, 1, 100, 2, "food", None).unwrap_err(), EngineError::Aborted);
    assert_eq!(balance(&m, 1), before);
    assert_eq!(m.coupons().len(), 1);
}

#[test]
fn failed_vote_leaves_no_trace() {
    let mut m = Market::new(policy(100));
    m.add_user(1, 0).unwrap();
    m.add_user(2, 0).unwrap();
    publish(&mut m, 1, 100, 1, "food", None).unwrap();
    m.cast_vote_with(2, 300, 100, true).unwrap();
    let before = balance(&m, 2);
    assert_eq!(m.cast_vote_with(2, 300, 100, true).unwrap_err(), EngineError::Aborted);
    assert_eq!(balance(&m, 2), before);
    assert_eq!(m.coupons()[0].score, 1);
    assert_eq!(m.votes().len(), 1);
}

#[test]
fn score_moves_by_one_vote() {
    let mut m = Market::new(policy(100));
    m.add_user(1, 0).unwrap();
    publish(&mut m, 1, 100, 1, "food", None).unwrap();
    assert_eq!(m.adjusted_score(0, true), Ok(1));
    assert_eq!(m.adjusted_score(0, false), Ok(-1));
    assert_eq!(m.coupons()[0].score, 0);
}

#[test]
fn unknown_account_and_coupon() {
    let mut m = Market::new(policy(100));
    m.add_user(1, 0).unwrap();
    assert_eq!(m.get_user(9).unwrap_err(), EngineError::UnknownAccount);
    assert_eq!(publish(&mut m, 9, 100, 1, "food", None).unwrap_err(), EngineError::UnknownAccount);
    assert_eq!(m.cast_vote_with(9, 1, 100, true).unwrap_err(), EngineError::UnknownAccount);
    assert_eq!(m.cast_vote_with(1, 1, 100, true).unwrap_err(), EngineError::UnknownCoupon);
    assert_eq!(balance(&m, 1), 100);
}

#[test]
fn vote_needs_reputation() {
    let mut poor = Market::new(policy(0));
    poor.add_user(2, 0).unwrap();
    assert_eq!(
        poor.cast_vote_with(2, 1, 100, true).unwrap_err(),
        EngineError::InsufficientReputation
    );
}

#[test]
fn account_twice_is_refused() {
    let mut m = Market::new(policy(10));
    let u = m.add_user(7, 42).unwrap();
    assert_eq!(u.reputation, 10);
    assert_eq!(u.created_at, 42);
    assert_eq!(m.add_user(7, 43).unwrap_err(), EngineError::AlreadyExists);
    assert_eq!(m.users().len(), 1);
}

#[test]
fn minted_account_and_coupon() {
    let defaults = Market::new(Config::default()).create_user().unwrap();
    assert_eq!(defaults.reputation, 5);
    let mut m = Market::new(policy(10));
    let u = m.create_user().unwrap();
    assert_eq!(u.reputation, 10);
    assert_eq!(m.get_user(u.id).unwrap(), u);
    let v = m.create_user().unwrap();
    assert_ne!(u.id, v.id);
    let c = m
        .publish_coupon(u.id, "X".to_string(), "d".to_string(), "food".to_string(), None)
        .unwrap();
    assert!(c.id != 0 && c.created_at > 0);
    let c = m.cast_vote(v.id, c.id, false).unwrap();
    assert_eq!(c.score, -1);
    let listed = m.list_coupons(&"food".to_string(), DEFAULT_LIMIT);
    assert_eq!(ids(&listed), vec![c.id]);
}

fn ranked_store() -> Market {
    let mut m = Market::new(policy(100));
    m.add_user(1, 0).unwrap();
    m.add_user(2, 0).unwrap();
    // A and B reach score 5, C score 3; A is the newer of the two tied.
    publish(&mut m, 1, 10, 200, "food", None).unwrap(); // A
    publish(&mut m, 1, 11, 100, "food", Some(10_000)).unwrap(); // B
    publish(&mut m, 1, 12, 300, "food", None).unwrap(); // C
    publish(&mut m, 1, 13, 400, "toys", None).unwrap();
    let mut vote_id = 1000u128;
    for (coupon, n) in [(10u128, 5), (11, 5), (12, 3), (13, 9)] {
        for _ in 0..n {
            m.cast_vote_with(2, vote_id, coupon, true).unwrap();
            vote_id += 1;
        }
    }
    m
}

#[test]
fn ranked_listing_is_deterministic() {
    let m = ranked_store();
    let first = m.list_coupons_at(&"food".to_string(), 500, 20);
    assert_eq!(ids(&first), vec![10, 11, 12]);
    assert_eq!(first[0].score, 5);
    assert_eq!(first[2].score, 3);
    let again = m.list_coupons_at(&"food".to_string(), 500, 20);
    assert_eq!(ids(&again), ids(&first));
}

#[test]
fn listing_respects_limit_and_domain() {
    let m = ranked_store();
    assert_eq!(ids(&m.list_coupons_at(&"food".to_string(), 500, 2)), vec![10, 11]);
    assert_eq!(ids(&m.list_coupons_at(&"food".to_string(), 500, 0)), Vec::<u128>::new());
    assert_eq!(ids(&m.list_coupons_at(&"toys".to_string(), 500, 20)), vec![13]);
    assert!(m.list_coupons_at(&"none".to_string(), 500, 20).is_empty());
}

#[test]
fn expired_coupon_is_not_listed() {
    let mut m = ranked_store();
    publish(&mut m, 1, 14, 600, "food", Some(700)).unwrap();
    for k in 0..20u128 {
        m.cast_vote_with(2, 5000 + k, 14, true).unwrap();
    }
    assert_eq!(ids(&m.list_coupons_at(&"food".to_string(), 650, 20)), vec![14, 10, 11, 12]);
    assert_eq!(ids(&m.list_coupons_at(&"food".to_string(), 700, 20)), vec![10, 11, 12]);
    assert_eq!(ids(&m.list_coupons_at(&"food".to_string(), 10_000, 20)), vec![10, 12]);
}

#[test]
fn public_projection_drops_owner() {
    let c = Coupon {
        id: 3,
        creator_id: 9,
        code: "C".to_string(),
        description: "D".to_string(),
        expiry: Some(5),
        domain: "food".to_string(),
        score: 4,
        created_at: 1,
    };
    let p = c.to_public();
    assert_eq!((p.id, p.code.as_str(), p.description.as_str()), (3, "C", "D"));
    assert_eq!((p.expiry, p.domain.as_str(), p.score, p.created_at), (Some(5), "food", 4, 1));
    let q = CouponPublic::from(c);
    assert_eq!(q.code, p.code);
    assert_eq!(q.score, 4);
}

#[test]
fn error_messages() {
    assert_eq!(EngineError::UnknownAccount.message(), "Unknown user");
    assert_eq!(EngineError::UnknownCoupon.message(), "Unknown coupon");
    assert_eq!(
        AppError::from_error(EngineError::InsufficientReputation).message,
        "User does not have enough reputation"
    );
    assert_eq!(EngineError::Aborted.message(), "Internal error: transaction aborted");
    assert_eq!(EngineError::AlreadyExists.message(), "User already exists");
    assert_eq!(
        EngineError::InsufficientReputation.vote_message(),
        "User does not have enough reputation to vote"
    );
    assert_eq!(EngineError::UnknownCoupon.vote_message(), "Unknown coupon");
}

#[test]
fn getters_show_the_store() {
    let mut m = Market::new(policy(100));
    m.add_user(1, 0).unwrap();
    publish(&mut m, 1, 100, 1, "food", None).unwrap();
    m.cast_vote_with(1, 300, 100, false).unwrap();
    assert_eq!(m.config().initial_reputation, 100);
    assert_eq!(m.users()[0].reputation, 94);
    assert_eq!(m.coupons()[0].creator_id, 1);
    assert_eq!(m.votes()[0].coupon_id, 100);
    assert!(!m.votes()[0].vote_type);
}
