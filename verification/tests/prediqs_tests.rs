use prediqs::contract::PrediqsContract;
use prediqs::errors::Error;
use prediqs::market::{MarketStatus, OpContext};

fn admin_at(current_time: u64) -> OpContext {
    OpContext { caller: 0, caller_is_admin: true, current_time }
}

fn user_at(caller: u64, current_time: u64) -> OpContext {
    OpContext { caller, caller_is_admin: false, current_time }
}

/// A contract with one active category and one open two-outcome market
/// (deadline 100, created at time 10).
fn setup_two_outcome_market() -> PrediqsContract {
    let mut c = PrediqsContract::init();
    assert_eq!(c.add_category(admin_at(10), String::from("sports")), Ok(1));
    let r = c
        .create_market(
            admin_at(10),
            String::from("Who wins?"),
            100,
            1,
            vec![String::from("A"), String::from("B")],
        )
        .unwrap();
    assert_eq!(r.0, 1);
    c
}

#[test]
fn winnings_scenario_proportional_payouts() {
    let mut c = setup_two_outcome_market();
    assert_eq!(c.place_bet(user_at(1, 50), 1, 0, 100), Ok(()));
    assert_eq!(c.place_bet(user_at(2, 50), 1, 1, 100), Ok(()));
    assert_eq!(c.place_bet(user_at(3, 50), 1, 0, 300), Ok(()));
    assert_eq!(c.get_market(1).unwrap().total_egld_pool, 500);
    assert_eq!(c.resolve_market(admin_at(60), 1, 0), Ok(()));

    let x = c.claim_winnings(user_at(1, 70), 1).unwrap();
    assert_eq!(x.fee, 10);
    assert_eq!(x.distributable, 490);
    assert_eq!(x.payout, 122);

    // the fee is levied anew on every claim
    let z = c.claim_winnings(user_at(3, 70), 1).unwrap();
    assert_eq!(z.fee, 10);
    assert_eq!(z.distributable, 490);
    assert_eq!(z.payout, 367);

    // the loser cannot claim
    assert_eq!(c.claim_winnings(user_at(2, 70), 1).unwrap_err(), Error::NoStake);
}

#[test]
fn winnings_claim_is_idempotent() {
    let mut c = setup_two_outcome_market();
    assert_eq!(c.place_bet(user_at(1, 50), 1, 0, 100), Ok(()));
    assert_eq!(c.place_bet(user_at(2, 50), 1, 1, 100), Ok(()));
    assert_eq!(c.resolve_market(admin_at(60), 1, 0), Ok(()));
    assert!(c.claim_winnings(user_at(1, 70), 1).is_ok());
    assert_eq!(c.claim_winnings(user_at(1, 71), 1).unwrap_err(), Error::AlreadyClaimed);
    assert!(c.claimed_winnings(1, 1));
}

#[test]
fn refund_scenario_full_amount_back() {
    let mut c = setup_two_outcome_market();
    assert_eq!(c.place_bet(user_at(7, 50), 1, 0, 50), Ok(()));
    assert_eq!(c.place_bet(user_at(7, 55), 1, 1, 70), Ok(()));
    assert_eq!(c.bets_in_market_by_user(7, 1), 120);
    assert_eq!(c.cancel_market(admin_at(60), 1), Ok(()));
    assert_eq!(c.claim_refund(user_at(7, 70), 1), Ok(120));
    assert_eq!(c.claim_refund(user_at(7, 71), 1).unwrap_err(), Error::AlreadyClaimed);
    assert!(c.claimed_refund(1, 7));
}

#[test]
fn refunds_cover_pool_without_fee() {
    let mut c = setup_two_outcome_market();
    assert_eq!(c.place_bet(user_at(1, 50), 1, 0, 33), Ok(()));
    assert_eq!(c.place_bet(user_at(2, 50), 1, 1, 67), Ok(()));
    assert_eq!(c.cancel_market(admin_at(60), 1), Ok(()));
    let pool = c.get_market(1).unwrap().total_egld_pool;
    let r1 = c.claim_refund(user_at(1, 70), 1).unwrap();
    let r2 = c.claim_refund(user_at(2, 70), 1).unwrap();
    assert_eq!(r1 + r2, pool);
    assert_eq!(r1 + r2, 100);
}

#[test]
fn zero_payout_share_cannot_be_claimed() {
    let mut c = setup_two_outcome_market();
    // losing side is under two percent of the pool, so a one-unit winning
    // stake truncates to nothing
    assert_eq!(c.place_bet(user_at(1, 50), 1, 0, 1), Ok(()));
    assert_eq!(c.place_bet(user_at(2, 50), 1, 0, 99), Ok(()));
    assert_eq!(c.place_bet(user_at(3, 50), 1, 1, 1), Ok(()));
    assert_eq!(c.resolve_market(admin_at(60), 1, 0), Ok(()));
    assert_eq!(c.claim_winnings(user_at(1, 70), 1).unwrap_err(), Error::ZeroPayout);
    // a zero-payout claim is not marked claimed and also cannot retry
    // productively
    assert!(!c.claimed_winnings(1, 1));
    assert_eq!(c.claim_winnings(user_at(1, 71), 1).unwrap_err(), Error::ZeroPayout);
    // the larger winner still collects
    let w = c.claim_winnings(user_at(2, 70), 1).unwrap();
    assert_eq!(w.fee, 2);
    assert_eq!(w.distributable, 99);
    assert_eq!(w.payout, 98);
}

#[test]
fn bet_at_deadline_fails_just_before_succeeds() {
    let mut c = setup_two_outcome_market();
    assert_eq!(c.place_bet(user_at(1, 100), 1, 0, 10).unwrap_err(), Error::DeadlinePassed);
    assert_eq!(c.place_bet(user_at(1, 101), 1, 0, 10).unwrap_err(), Error::DeadlinePassed);
    assert_eq!(c.place_bet(user_at(1, 99), 1, 0, 10), Ok(()));
}

#[test]
fn resolve_index_boundary() {
    let mut c = setup_two_outcome_market();
    assert_eq!(c.resolve_market(admin_at(60), 1, 2).unwrap_err(), Error::InvalidArgument);
    assert_eq!(c.resolve_market(admin_at(60), 1, 1), Ok(()));
    let m = c.get_market(1).unwrap();
    assert_eq!(m.status, MarketStatus::Resolved);
    assert_eq!(m.winning_outcome_index, Some(1));
}

#[test]
fn pool_equals_sum_of_outcome_aggregates() {
    let mut c = setup_two_outcome_market();
    assert_eq!(c.place_bet(user_at(1, 50), 1, 0, 11), Ok(()));
    assert_eq!(c.place_bet(user_at(2, 50), 1, 1, 22), Ok(()));
    assert_eq!(c.place_bet(user_at(1, 51), 1, 1, 44), Ok(()));
    let pool = c.get_market(1).unwrap().total_egld_pool;
    assert_eq!(c.total_bet_per_outcome(1, 0) + c.total_bet_per_outcome(1, 1), pool);
    assert_eq!(pool, 77);
}

#[test]
fn bets_accumulate_per_outcome_and_per_user() {
    let mut c = setup_two_outcome_market();
    assert_eq!(c.place_bet(user_at(5, 50), 1, 0, 10), Ok(()));
    assert_eq!(c.place_bet(user_at(5, 51), 1, 0, 15), Ok(()));
    assert_eq!(c.bets(1, 0, 5), 25);
    assert_eq!(c.bets(1, 1, 5), 0);
    assert_eq!(c.bets_in_market_by_user(5, 1), 25);
    assert_eq!(c.total_bet_per_outcome(1, 0), 25);
}

#[test]
fn admin_only_operations_reject_others() {
    let mut c = PrediqsContract::init();
    assert_eq!(
        c.add_category(user_at(9, 10), String::from("x")).unwrap_err(),
        Error::Authorization
    );
    let mut c = setup_two_outcome_market();
    assert_eq!(
        c.toggle_category_status(user_at(9, 10), 1, false).unwrap_err(),
        Error::Authorization
    );
    assert_eq!(
        c.create_market(
            user_at(9, 10),
            String::from("q"),
            100,
            1,
            vec![String::from("A"), String::from("B")],
        )
        .unwrap_err(),
        Error::Authorization
    );
    assert_eq!(c.cancel_market(user_at(9, 10), 1).unwrap_err(), Error::Authorization);
    assert_eq!(c.resolve_market(user_at(9, 10), 1, 0).unwrap_err(), Error::Authorization);
}

#[test]
fn unknown_ids_are_not_found() {
    let mut c = setup_two_outcome_market();
    assert!(c.get_market(0).is_err());
    assert_eq!(c.get_market(2).unwrap_err(), Error::NotFound);
    assert_eq!(c.place_bet(user_at(1, 50), 2, 0, 10).unwrap_err(), Error::NotFound);
    assert_eq!(c.cancel_market(admin_at(50), 2).unwrap_err(), Error::NotFound);
    assert_eq!(c.resolve_market(admin_at(50), 2, 0).unwrap_err(), Error::NotFound);
    assert_eq!(c.claim_winnings(user_at(1, 50), 2).unwrap_err(), Error::NotFound);
    assert_eq!(c.claim_refund(user_at(1, 50), 2).unwrap_err(), Error::NotFound);
    assert_eq!(c.toggle_category_status(admin_at(50), 5, true).unwrap_err(), Error::NotFound);
    assert_eq!(
        c.create_market(
            admin_at(10),
            String::from("q"),
            100,
            9,
            vec![String::from("A"), String::from("B")],
        )
        .unwrap_err(),
        Error::NotFound
    );
}

#[test]
fn lifecycle_state_is_enforced() {
    let mut c = setup_two_outcome_market();
    assert_eq!(c.resolve_market(admin_at(60), 1, 0), Ok(()));
    // a resolved market is terminal
    assert_eq!(c.cancel_market(admin_at(61), 1).unwrap_err(), Error::InvalidState);
    assert_eq!(c.resolve_market(admin_at(61), 1, 1).unwrap_err(), Error::InvalidState);
    assert_eq!(c.place_bet(user_at(1, 61), 1, 0, 10).unwrap_err(), Error::InvalidState);
    assert_eq!(c.claim_refund(user_at(1, 61), 1).unwrap_err(), Error::InvalidState);

    let mut c = setup_two_outcome_market();
    assert_eq!(c.cancel_market(admin_at(60), 1), Ok(()));
    // a canceled market is terminal
    assert_eq!(c.cancel_market(admin_at(61), 1).unwrap_err(), Error::InvalidState);
    assert_eq!(c.resolve_market(admin_at(61), 1, 0).unwrap_err(), Error::InvalidState);
    assert_eq!(c.place_bet(user_at(1, 61), 1, 0, 10).unwrap_err(), Error::InvalidState);
    assert_eq!(c.claim_winnings(user_at(1, 61), 1).unwrap_err(), Error::InvalidState);
}

#[test]
fn invalid_arguments_are_rejected() {
    let mut c = setup_two_outcome_market();
    // zero payment
    assert_eq!(c.place_bet(user_at(1, 50), 1, 0, 0).unwrap_err(), Error::InvalidArgument);
    // outcome index out of range
    assert_eq!(c.place_bet(user_at(1, 50), 1, 2, 10).unwrap_err(), Error::InvalidArgument);
    // deadline not in the future
    assert_eq!(
        c.create_market(
            admin_at(100),
            String::from("q"),
            100,
            1,
            vec![String::from("A"), String::from("B")],
        )
        .unwrap_err(),
        Error::InvalidArgument
    );
    // fewer than two outcomes
    assert_eq!(
        c.create_market(admin_at(10), String::from("q"), 100, 1, vec![String::from("A")])
            .unwrap_err(),
        Error::InvalidArgument
    );
    assert_eq!(
        c.create_market(admin_at(10), String::from("q"), 100, 1, Vec::new()).unwrap_err(),
        Error::InvalidArgument
    );
    // inactive category
    assert_eq!(c.toggle_category_status(admin_at(10), 1, false), Ok(()));
    assert_eq!(
        c.create_market(
            admin_at(10),
            String::from("q"),
            100,
            1,
            vec![String::from("A"), String::from("B")],
        )
        .unwrap_err(),
        Error::InvalidArgument
    );
}

#[test]
fn refund_requires_a_stake() {
    let mut c = setup_two_outcome_market();
    assert_eq!(c.place_bet(user_at(1, 50), 1, 0, 10), Ok(()));
    assert_eq!(c.cancel_market(admin_at(60), 1), Ok(()));
    assert_eq!(c.claim_refund(user_at(2, 70), 1).unwrap_err(), Error::NoStake);
    assert_eq!(c.claim_refund(user_at(1, 70), 1), Ok(10));
}

#[test]
fn categories_are_sequential_and_toggle() {
    let mut c = PrediqsContract::init();
    assert_eq!(c.add_category(admin_at(1), String::from("politics")), Ok(1));
    assert_eq!(c.add_category(admin_at(2), String::from("sports")), Ok(2));
    let cats = c.get_all_categories();
    assert_eq!(cats.len(), 2);
    assert_eq!(cats[0].id, 1);
    assert_eq!(cats[0].name, "politics");
    assert!(cats[0].active);
    assert_eq!(cats[1].id, 2);
    assert_eq!(cats[1].name, "sports");
    assert_eq!(c.toggle_category_status(admin_at(3), 2, false), Ok(()));
    let cats = c.get_all_categories();
    assert!(cats[0].active);
    assert!(!cats[1].active);
    assert_eq!(c.toggle_category_status(admin_at(4), 2, true), Ok(()));
    assert!(c.get_all_categories()[1].active);
}

#[test]
fn get_market_returns_the_stored_record() {
    let c = setup_two_outcome_market();
    let m = c.get_market(1).unwrap();
    assert_eq!(m.id, 1);
    assert_eq!(m.question, "Who wins?");
    assert_eq!(m.category_id, 1);
    assert_eq!(m.outcomes, vec![String::from("A"), String::from("B")]);
    assert_eq!(m.creation_timestamp, 10);
    assert_eq!(m.resolve_timestamp, 0);
    assert_eq!(m.betting_deadline, 100);
    assert_eq!(m.status, MarketStatus::Open);
    assert_eq!(m.winning_outcome_index, None);
    assert_eq!(m.total_egld_pool, 0);
}

#[test]
fn market_ids_are_sequential() {
    let mut c = setup_two_outcome_market();
    let r = c
        .create_market(
            admin_at(10),
            String::from("Second?"),
            200,
            1,
            vec![String::from("Yes"), String::from("No"), String::from("Draw")],
        )
        .unwrap();
    assert_eq!(r.0, 2);
    assert_eq!((r.1).question, "Second?");
    assert_eq!((r.1).outcomes.len(), 3);
    assert_eq!(c.get_market(2).unwrap().id, 2);
}

#[test]
fn resolution_is_not_gated_on_the_deadline() {
    let mut c = setup_two_outcome_market();
    // resolving before the betting deadline is allowed and closes betting
    assert_eq!(c.resolve_market(admin_at(20), 1, 0), Ok(()));
    assert_eq!(c.place_bet(user_at(1, 21), 1, 0, 10).unwrap_err(), Error::InvalidState);
}

#[test]
fn error_messages_are_human_readable() {
    assert_eq!(Error::DeadlinePassed.message(), "Betting deadline has passed");
    assert_eq!(Error::ZeroPayout.message(), "Payout amount is zero");
    assert!(!Error::NotFound.message().is_empty());
}

#[test]
fn large_stakes_settle_exactly() {
    let mut c = setup_two_outcome_market();
    let a: u64 = 1 << 60;
    let b: u64 = 3 * (1 << 60);
    assert_eq!(c.place_bet(user_at(1, 50), 1, 0, a), Ok(()));
    assert_eq!(c.place_bet(user_at(2, 50), 1, 1, b), Ok(()));
    assert_eq!(c.resolve_market(admin_at(60), 1, 0), Ok(()));
    let pool = a + b;
    let expected_fee = (pool as u128 * 2 / 100) as u64;
    let w = c.claim_winnings(user_at(1, 70), 1).unwrap();
    assert_eq!(w.fee, expected_fee);
    assert_eq!(w.distributable, pool - expected_fee);
    // the sole winner takes the whole distributable pool
    assert_eq!(w.payout, pool - expected_fee);
}

#[test]
fn markets_are_settled_independently() {
    let mut c = setup_two_outcome_market();
    let r = c
        .create_market(
            admin_at(10),
            String::from("Second?"),
            100,
            1,
            vec![String::from("Yes"), String::from("No")],
        )
        .unwrap();
    assert_eq!(r.0, 2);
    assert_eq!(c.place_bet(user_at(1, 50), 1, 0, 10), Ok(()));
    assert_eq!(c.place_bet(user_at(1, 50), 2, 1, 20), Ok(()));
    assert_eq!(c.get_market(1).unwrap().total_egld_pool, 10);
    assert_eq!(c.get_market(2).unwrap().total_egld_pool, 20);
    assert_eq!(c.cancel_market(admin_at(60), 2), Ok(()));
    // the first market is untouched by the second one's cancellation
    assert_eq!(c.get_market(1).unwrap().status, MarketStatus::Open);
    assert_eq!(c.claim_refund(user_at(1, 70), 2), Ok(20));
    assert_eq!(c.bets_in_market_by_user(1, 1), 10);
}

#[test]
fn upgrade_keeps_state() {
    let mut c = setup_two_outcome_market();
    assert_eq!(c.place_bet(user_at(1, 50), 1, 0, 10), Ok(()));
    c.upgrade();
    assert_eq!(c.get_market(1).unwrap().total_egld_pool, 10);
}
