use launchpad::access::Fault;
use launchpad::pool::{payout, Investment, LendingPool, PoolInfo};

fn who(name: &str) -> String {
    name.to_string()
}

fn signed_by(name: &str) -> Vec<String> {
    vec![name.to_string()]
}

/// A pool of project 7 by "creator", initialized at time 100.
fn open_pool(goal: i128, rate: u32, term: u64) -> LendingPool {
    let mut pool = LendingPool::new();
    let made = pool.initialize(&signed_by("creator"), 7, &who("creator"), goal, rate, term, 100);
    assert_eq!(made, Ok(()));
    pool
}

#[test]
fn initialize_fixes_terms_and_maturity() {
    let pool = open_pool(1000, 500, 50);
    assert_eq!(
        pool.get_pool_info(),
        Ok(PoolInfo {
            project_id: 7,
            creator: who("creator"),
            funding_goal: 1000,
            interest_rate: 500,
            loan_term: 50,
            total_invested: 0,
            is_funded: false,
            maturity_date: 150,
        })
    );
    assert_eq!(pool.get_apy(), Ok(500));
    assert_eq!(pool.investor_count, 0);
}

#[test]
fn initialize_needs_the_creators_proof() {
    let mut pool = LendingPool::new();
    let made = pool.initialize(&signed_by("someone"), 7, &who("creator"), 1000, 500, 50, 100);
    assert_eq!(made, Err(Fault::Unauthorized));
    assert_eq!(pool.get_pool_info(), Err(Fault::NotInitialized));
    let made = pool.initialize(&Vec::new(), 7, &who("creator"), 1000, 500, 50, 100);
    assert_eq!(made, Err(Fault::Unauthorized));
}

#[test]
fn initialize_rejects_a_maturity_out_of_range() {
    let mut pool = LendingPool::new();
    let made = pool.initialize(&signed_by("creator"), 7, &who("creator"), 1000, 500, 1, u64::MAX);
    assert_eq!(made, Err(Fault::Overflow));
    assert_eq!(pool.get_pool_info(), Err(Fault::NotInitialized));
    let made = pool.initialize(&signed_by("creator"), 7, &who("creator"), 1000, 500, 0, u64::MAX);
    assert_eq!(made, Ok(()));
    assert_eq!(pool.get_pool_info().unwrap().maturity_date, u64::MAX);
}

#[test]
fn uninitialized_pool_aborts() {
    let mut pool = LendingPool::new();
    assert_eq!(pool.invest(&signed_by("ann"), &who("ann"), 10, 5), Err(Fault::NotInitialized));
    assert_eq!(pool.calculate_returns(&who("ann"), 5), Err(Fault::NotInitialized));
    assert_eq!(pool.withdraw(&signed_by("ann"), &who("ann"), 5), Err(Fault::NotInitialized));
    assert_eq!(pool.get_apy(), Err(Fault::NotInitialized));
    assert_eq!(pool.get_investment(&who("ann")), Err(Fault::NotInitialized));
    assert_eq!(pool.investments.len(), 0);
}

#[test]
fn full_cycle_pays_principal_and_interest_once() {
    let mut pool = open_pool(1000, 500, 50);
    assert_eq!(pool.invest(&signed_by("ann"), &who("ann"), 1000, 100), Ok(true));
    assert!(pool.get_pool_info().unwrap().is_funded);
    assert_eq!(pool.calculate_returns(&who("ann"), 149), Ok(0));
    assert_eq!(pool.calculate_returns(&who("ann"), 150), Ok(1050));
    assert_eq!(pool.withdraw(&signed_by("ann"), &who("ann"), 150), Ok(1050));
    assert_eq!(
        pool.get_investment(&who("ann")),
        Ok(Some(Investment {
            investor: who("ann"),
            amount: 1000,
            timestamp: 100,
            interest_earned: 50,
            is_withdrawn: true,
        }))
    );
    assert_eq!(pool.withdraw(&signed_by("ann"), &who("ann"), 150), Ok(0));
    assert_eq!(pool.withdraw(&signed_by("ann"), &who("ann"), 9000), Ok(0));
    assert_eq!(pool.get_investment(&who("ann")).unwrap().unwrap().interest_earned, 50);
}

#[test]
fn returns_are_recomputed_after_withdrawal() {
    let mut pool = open_pool(1000, 500, 50);
    assert_eq!(pool.invest(&signed_by("ann"), &who("ann"), 400, 100), Ok(true));
    assert_eq!(pool.withdraw(&signed_by("ann"), &who("ann"), 200), Ok(420));
    assert_eq!(pool.calculate_returns(&who("ann"), 200), Ok(420));
}

#[test]
fn investments_of_one_investor_accumulate() {
    let mut pool = open_pool(1000, 500, 50);
    assert_eq!(pool.invest(&signed_by("ann"), &who("ann"), 300, 110), Ok(true));
    assert!(!pool.get_pool_info().unwrap().is_funded);
    assert_eq!(pool.invest(&signed_by("ann"), &who("ann"), 200, 120), Ok(true));
    assert!(!pool.get_pool_info().unwrap().is_funded);
    assert_eq!(pool.investments.len(), 1);
    assert_eq!(pool.investor_count, 1);
    assert_eq!(
        pool.get_investment(&who("ann")),
        Ok(Some(Investment {
            investor: who("ann"),
            amount: 500,
            timestamp: 110,
            interest_earned: 0,
            is_withdrawn: false,
        }))
    );
    assert_eq!(pool.get_pool_info().unwrap().total_invested, 500);
    assert_eq!(pool.invest(&signed_by("ann"), &who("ann"), 500, 130), Ok(true));
    assert!(pool.get_pool_info().unwrap().is_funded);
    assert_eq!(pool.get_investment(&who("ann")).unwrap().unwrap().amount, 1000);
    assert_eq!(pool.get_pool_info().unwrap().total_invested, 1000);
}

#[test]
fn each_investor_gets_a_record() {
    let mut pool = open_pool(1000, 500, 50);
    assert_eq!(pool.invest(&signed_by("ann"), &who("ann"), 300, 110), Ok(true));
    assert_eq!(pool.invest(&signed_by("bob"), &who("bob"), 200, 120), Ok(true));
    assert_eq!(pool.invest(&signed_by("ann"), &who("ann"), 10, 125), Ok(true));
    assert_eq!(pool.investor_count, 2);
    assert_eq!(pool.investments.len(), 2);
    assert_eq!(pool.get_investment(&who("ann")).unwrap().unwrap().amount, 310);
    assert_eq!(pool.get_investment(&who("bob")).unwrap().unwrap().amount, 200);
    assert_eq!(pool.get_investment(&who("bob")).unwrap().unwrap().timestamp, 120);
    assert_eq!(pool.get_investment(&who("cy")), Ok(None));
    assert_eq!(pool.get_pool_info().unwrap().total_invested, 510);
}

#[test]
fn investment_over_the_goal_changes_nothing() {
    let mut pool = open_pool(1000, 500, 50);
    assert_eq!(pool.invest(&signed_by("ann"), &who("ann"), 600, 110), Ok(true));
    assert_eq!(pool.invest(&signed_by("ann"), &who("ann"), 401, 120), Ok(false));
    assert_eq!(pool.invest(&signed_by("bob"), &who("bob"), 401, 120), Ok(false));
    assert_eq!(pool.get_investment(&who("ann")).unwrap().unwrap().amount, 600);
    assert_eq!(pool.get_investment(&who("bob")), Ok(None));
    assert_eq!(pool.investor_count, 1);
    let info = pool.get_pool_info().unwrap();
    assert_eq!(info.total_invested, 600);
    assert!(!info.is_funded);
    assert_eq!(pool.invest(&signed_by("bob"), &who("bob"), 400, 120), Ok(true));
    assert!(pool.get_pool_info().unwrap().is_funded);
}

#[test]
fn funded_pool_rejects_every_investment() {
    let mut pool = open_pool(1000, 500, 50);
    assert_eq!(pool.invest(&signed_by("ann"), &who("ann"), 1000, 110), Ok(true));
    assert_eq!(pool.invest(&signed_by("ann"), &who("ann"), 1, 120), Ok(false));
    assert_eq!(pool.invest(&signed_by("bob"), &who("bob"), 0, 120), Ok(false));
    assert_eq!(pool.invest(&signed_by("bob"), &who("bob"), -5, 120), Ok(false));
    assert_eq!(pool.invest(&signed_by("bob"), &who("bob"), i128::MAX, 120), Ok(false));
    assert_eq!(pool.investments.len(), 1);
    assert_eq!(pool.get_pool_info().unwrap().total_invested, 1000);
}

#[test]
fn invest_needs_the_investors_proof() {
    let mut pool = open_pool(1000, 500, 50);
    assert_eq!(pool.invest(&signed_by("bob"), &who("ann"), 10, 110), Err(Fault::Unauthorized));
    assert_eq!(pool.invest(&signed_by("creator"), &who("ann"), 10, 110), Err(Fault::Unauthorized));
    assert_eq!(pool.investments.len(), 0);
    assert_eq!(pool.get_pool_info().unwrap().total_invested, 0);
    let both = vec![who("bob"), who("ann")];
    assert_eq!(pool.invest(&both, &who("ann"), 10, 110), Ok(true));
}

#[test]
fn invest_over_every_goal_is_rejected() {
    let mut pool = open_pool(1000, 500, 50);
    assert_eq!(pool.invest(&signed_by("ann"), &who("ann"), 1, 110), Ok(true));
    assert_eq!(pool.invest(&signed_by("ann"), &who("ann"), i128::MAX, 110), Ok(false));
    assert_eq!(pool.invest(&signed_by("bob"), &who("bob"), i128::MAX, 110), Ok(false));
    let info = pool.get_pool_info().unwrap();
    assert_eq!(info.total_invested, 1);
    assert!(!info.is_funded);
    assert_eq!(pool.get_investment(&who("ann")).unwrap().unwrap().amount, 1);
    assert_eq!(pool.get_investment(&who("bob")), Ok(None));
    assert_eq!(pool.investor_count, 1);
}

#[test]
fn invest_aborts_where_the_total_falls_out_of_range() {
    let mut pool = open_pool(1000, 500, 50);
    assert_eq!(pool.invest(&signed_by("ann"), &who("ann"), -1, 110), Ok(true));
    assert_eq!(pool.invest(&signed_by("ann"), &who("ann"), i128::MIN, 110), Err(Fault::Overflow));
    assert_eq!(pool.get_pool_info().unwrap().total_invested, -1);
    assert_eq!(pool.get_investment(&who("ann")).unwrap().unwrap().amount, -1);
}

#[test]
fn invest_up_to_the_largest_goal() {
    let mut pool = open_pool(i128::MAX, 500, 50);
    assert_eq!(pool.invest(&signed_by("ann"), &who("ann"), 1, 110), Ok(true));
    assert_eq!(pool.invest(&signed_by("ann"), &who("ann"), i128::MAX, 110), Ok(false));
    assert_eq!(pool.get_investment(&who("ann")).unwrap().unwrap().amount, 1);
    assert_eq!(pool.get_pool_info().unwrap().total_invested, 1);
    assert_eq!(pool.invest(&signed_by("ann"), &who("ann"), i128::MAX - 1, 110), Ok(true));
    assert!(pool.get_pool_info().unwrap().is_funded);
}

#[test]
fn negative_amounts_are_booked_as_given() {
    let mut pool = open_pool(1000, 500, 50);
    assert_eq!(pool.invest(&signed_by("ann"), &who("ann"), 300, 110), Ok(true));
    assert_eq!(pool.invest(&signed_by("ann"), &who("ann"), -100, 110), Ok(true));
    assert_eq!(pool.get_investment(&who("ann")).unwrap().unwrap().amount, 200);
    assert_eq!(pool.get_pool_info().unwrap().total_invested, 200);
}

#[test]
fn withdraw_before_maturity_pays_nothing() {
    let mut pool = open_pool(1000, 500, 50);
    assert_eq!(pool.invest(&signed_by("ann"), &who("ann"), 1000, 110), Ok(true));
    assert_eq!(pool.withdraw(&signed_by("ann"), &who("ann"), 149), Ok(0));
    let record = pool.get_investment(&who("ann")).unwrap().unwrap();
    assert!(!record.is_withdrawn);
    assert_eq!(record.interest_earned, 0);
    assert_eq!(pool.withdraw(&signed_by("ann"), &who("ann"), 150), Ok(1050));
}

#[test]
fn withdraw_without_a_record_pays_nothing() {
    let mut pool = open_pool(1000, 500, 50);
    assert_eq!(pool.invest(&signed_by("ann"), &who("ann"), 1000, 110), Ok(true));
    assert_eq!(pool.withdraw(&signed_by("bob"), &who("bob"), 200), Ok(0));
    assert_eq!(pool.calculate_returns(&who("bob"), 200), Ok(0));
    assert!(!pool.get_investment(&who("ann")).unwrap().unwrap().is_withdrawn);
}

#[test]
fn withdraw_needs_the_investors_proof() {
    let mut pool = open_pool(1000, 500, 50);
    assert_eq!(pool.invest(&signed_by("ann"), &who("ann"), 1000, 110), Ok(true));
    assert_eq!(pool.withdraw(&signed_by("bob"), &who("ann"), 200), Err(Fault::Unauthorized));
    assert!(!pool.get_investment(&who("ann")).unwrap().unwrap().is_withdrawn);
}

#[test]
fn withdraw_aborts_where_the_payout_leaves_the_range() {
    let mut pool = open_pool(i128::MAX, 20000, 50);
    assert_eq!(pool.invest(&signed_by("ann"), &who("ann"), i128::MAX / 2, 110), Ok(true));
    assert_eq!(pool.calculate_returns(&who("ann"), 150), Err(Fault::Overflow));
    assert_eq!(pool.withdraw(&signed_by("ann"), &who("ann"), 150), Err(Fault::Overflow));
    assert!(!pool.get_investment(&who("ann")).unwrap().unwrap().is_withdrawn);
}

#[test]
fn payout_truncates_the_interest() {
    assert_eq!(payout(1000, 500), Some(1050));
    assert_eq!(payout(999, 333), Some(1032));
    assert_eq!(payout(1, 9999), Some(1));
    assert_eq!(payout(1, 10000), Some(2));
    assert_eq!(payout(0, 500), Some(0));
    assert_eq!(payout(1000, 0), Some(1000));
    assert_eq!(payout(-999, 333), Some(-1032));
    assert_eq!(payout(-1, 9999), Some(-1));
}

#[test]
fn payout_does_not_need_the_wide_product() {
    let large = 10i128.pow(36);
    assert_eq!(payout(large, 1000), Some(11 * 10i128.pow(35)));
    assert_eq!(payout(-large, 1000), Some(-11 * 10i128.pow(35)));
    assert_eq!(payout(i128::MAX / 2, 10000), Some(i128::MAX - 1));
    assert_eq!(payout(i128::MAX / 2 + 1, 10000), None);
    assert_eq!(payout(i128::MIN / 2, 10000), Some(i128::MIN));
    assert_eq!(payout(123_456_789_012_345_678_901_234_567_890_123_456, 333), Some(
        123_456_789_012_345_678_901_234_567_890_123_456 + 4_111_111_074_111_111_107_411_111_110_741_111,
    ));
}

#[test]
fn returns_of_a_large_principal_are_exact() {
    let large = 10i128.pow(36);
    let mut pool = LendingPool::new();
    let made = pool.initialize(&signed_by("creator"), 1, &who("creator"), large, 1000, 100, 0);
    assert_eq!(made, Ok(()));
    assert_eq!(pool.invest(&signed_by("ann"), &who("ann"), large, 0), Ok(true));
    assert_eq!(pool.calculate_returns(&who("ann"), 100), Ok(11 * 10i128.pow(35)));
    assert_eq!(pool.withdraw(&signed_by("ann"), &who("ann"), 100), Ok(11 * 10i128.pow(35)));
    assert_eq!(pool.get_investment(&who("ann")).unwrap().unwrap().interest_earned, 10i128.pow(35));
}

#[test]
fn payout_is_none_out_of_range() {
    assert_eq!(payout(i128::MAX, 0), Some(i128::MAX));
    assert_eq!(payout(i128::MAX, 1), None);
    assert_eq!(payout(i128::MAX, 2), None);
    assert_eq!(payout(i128::MIN, 1), None);
    assert_eq!(payout(i128::MIN, 0), Some(i128::MIN));
}

#[test]
fn second_initialize_resets_totals_and_keeps_records() {
    let mut pool = open_pool(1000, 500, 50);
    assert_eq!(pool.invest(&signed_by("ann"), &who("ann"), 1000, 110), Ok(true));
    let made = pool.initialize(&signed_by("dave"), 8, &who("dave"), 50, 100, 10, 500);
    assert_eq!(made, Ok(()));
    let info = pool.get_pool_info().unwrap();
    assert_eq!(info.total_invested, 0);
    assert!(!info.is_funded);
    assert_eq!(info.maturity_date, 510);
    assert_eq!(pool.investor_count, 0);
    assert_eq!(pool.get_investment(&who("ann")).unwrap().unwrap().amount, 1000);
}

#[test]
fn initialize_refuses_a_negative_goal() {
    let mut pool = LendingPool::new();
    let made = pool.initialize(&signed_by("creator"), 7, &who("creator"), -5, 500, 50, 100);
    assert_eq!(made, Err(Fault::InvalidGoal));
    assert_eq!(pool.get_pool_info(), Err(Fault::NotInitialized));
    let made = pool.initialize(&signed_by("creator"), 7, &who("creator"), i128::MIN, 500, 50, 100);
    assert_eq!(made, Err(Fault::InvalidGoal));
    let made = pool.initialize(&signed_by("eve"), 7, &who("creator"), -5, 500, 50, 100);
    assert_eq!(made, Err(Fault::Unauthorized));
    let made = pool.initialize(&signed_by("creator"), 7, &who("creator"), -1, 500, 1, u64::MAX);
    assert_eq!(made, Err(Fault::InvalidGoal));
}

#[test]
fn refused_goal_leaves_an_initialized_pool_as_it_was() {
    let mut pool = open_pool(1000, 500, 50);
    assert_eq!(pool.invest(&signed_by("ann"), &who("ann"), 300, 110), Ok(true));
    let before = pool.get_pool_info().unwrap();
    let made = pool.initialize(&signed_by("creator"), 9, &who("creator"), -1, 100, 10, 500);
    assert_eq!(made, Err(Fault::InvalidGoal));
    assert_eq!(pool.get_pool_info(), Ok(before));
    assert_eq!(pool.investor_count, 1);
    assert_eq!(pool.get_investment(&who("ann")).unwrap().unwrap().amount, 300);
}

#[test]
fn pool_with_a_goal_of_zero_starts_funded() {
    let mut pool = open_pool(0, 500, 50);
    let info = pool.get_pool_info().unwrap();
    assert_eq!(info.funding_goal, 0);
    assert_eq!(info.total_invested, 0);
    assert!(info.is_funded);
    assert_eq!(pool.invest(&signed_by("ann"), &who("ann"), 0, 110), Ok(false));
    assert_eq!(pool.invest(&signed_by("ann"), &who("ann"), 1, 110), Ok(false));
    assert_eq!(pool.invest(&signed_by("ann"), &who("ann"), -1, 110), Ok(false));
    assert_eq!(pool.investments.len(), 0);
    assert_eq!(pool.investor_count, 0);
    assert_eq!(pool.get_pool_info().unwrap().total_invested, 0);
    assert_eq!(pool.withdraw(&signed_by("ann"), &who("ann"), 200), Ok(0));
}

#[test]
fn pool_with_a_goal_of_one_starts_open() {
    let mut pool = open_pool(1, 500, 50);
    assert!(!pool.get_pool_info().unwrap().is_funded);
    assert_eq!(pool.invest(&signed_by("ann"), &who("ann"), 0, 110), Ok(true));
    assert!(!pool.get_pool_info().unwrap().is_funded);
    assert_eq!(pool.invest(&signed_by("ann"), &who("ann"), 1, 110), Ok(true));
    assert!(pool.get_pool_info().unwrap().is_funded);
}
