use head_to_head::{check_price_fluctuation, Error, Game, Market};

const ADMIN: u64 = 1;
const MINT: u64 = 7;
const HOST: u64 = 10;
const OTHER_HOST: u64 = 11;
const OPPONENT: u64 = 20;

/// A market with a 5% win threshold, a 1% join band, whole-percent
/// thresholds, a 100-unit stake, and a seed price of 100.000.
fn market() -> Market {
    Market::new(ADMIN, MINT, 100, 5, 1, 0, 100_000, 3)
}

#[test]
fn test_market_new_state() {
    let m = market();
    assert_eq!(m.config.admin, ADMIN);
    assert_eq!(m.config.bet_size, 100);
    assert_eq!(m.prices.prices, vec![100_000]);
    assert_eq!(m.prices.decimals, 3);
    assert_eq!(m.games.games.len(), 0);
    assert_eq!(m.vault, 0);
}

#[test]
fn test_market_add_price_admin_only() {
    let mut m = market();
    assert_eq!(m.add_price(HOST, 101_000), Err(Error::AdminOnly));
    assert_eq!(m.prices.prices.len(), 1);
    assert_eq!(m.add_price(ADMIN, 101_000), Ok(()));
    assert_eq!(m.prices.prices, vec![100_000, 101_000]);
}

#[test]
fn test_market_add_price_rejects_zero() {
    let mut m = market();
    assert_eq!(m.add_price(ADMIN, 0), Err(Error::InvalidPrice));
    assert_eq!(m.prices.prices.len(), 1);
}

#[test]
fn test_market_create_escrows_stake() {
    let mut m = market();
    assert_eq!(m.create_game(HOST, true), Ok(()));
    assert_eq!(m.vault, 100);
    let g = m.games.games[0];
    assert_eq!(g.host, HOST);
    assert_eq!(g.opponent, None);
    assert_eq!(g.amount, 100);
    assert_eq!(g.price_index, 0);
    assert_eq!(g.result, None);
    assert!(!g.is_closed);
}

#[test]
fn test_market_create_overflow() {
    let mut m = Market::new(ADMIN, MINT, u64::MAX, 5, 1, 0, 100_000, 3);
    assert_eq!(m.create_game(HOST, true), Ok(()));
    assert_eq!(m.vault, u64::MAX);
    assert_eq!(m.create_game(OTHER_HOST, true), Err(Error::ArithmeticOverflow));
    assert_eq!(m.games.games.len(), 1);
}

#[test]
fn test_market_withdraw_refunds_and_closes() {
    let mut m = market();
    m.create_game(HOST, true).unwrap();
    assert_eq!(m.withdraw_from_game(HOST, 0), Ok(()));
    assert_eq!(m.vault, 0);
    let g = m.games.games[0];
    assert!(g.is_closed);
    assert_eq!(g.result, None);
    assert_eq!(g.opponent, None);
    // the closed game stays in the registry for good
    assert_eq!(m.games.games.len(), 1);
    assert_eq!(m.withdraw_from_game(HOST, 0), Err(Error::GameAlreadyClosed));
}

#[test]
fn test_market_withdraw_host_only() {
    let mut m = market();
    m.create_game(HOST, true).unwrap();
    assert_eq!(m.withdraw_from_game(OPPONENT, 0), Err(Error::UnauthorizedWithdrawal));
    assert_eq!(m.vault, 100);
}

#[test]
fn test_market_withdraw_blocked_after_join() {
    let mut m = market();
    m.create_game(HOST, true).unwrap();
    m.join_game(OPPONENT, 0).unwrap();
    assert_eq!(m.withdraw_from_game(HOST, 0), Err(Error::WithdrawalNotAllowed));
    assert_eq!(m.vault, 200);
}

#[test]
fn test_market_join_matches_stake() {
    let mut m = market();
    m.create_game(HOST, true).unwrap();
    assert_eq!(m.join_game(OPPONENT, 0), Ok(()));
    assert_eq!(m.vault, 200);
    assert_eq!(m.games.games[0].opponent, Some(OPPONENT));
}

#[test]
fn test_market_join_missing_game() {
    let mut m = market();
    assert_eq!(m.join_game(OPPONENT, 0), Err(Error::GameNotFound));
}

#[test]
fn test_market_join_own_game() {
    let mut m = market();
    m.create_game(HOST, true).unwrap();
    assert_eq!(m.join_game(HOST, 0), Err(Error::CannotJoinOwnGame));
}

#[test]
fn test_market_join_twice() {
    let mut m = market();
    m.create_game(HOST, true).unwrap();
    m.join_game(OPPONENT, 0).unwrap();
    assert_eq!(m.join_game(21, 0), Err(Error::GameAlreadyJoined));
    assert_eq!(m.vault, 200);
}

#[test]
fn test_market_join_blocked_once_price_drifted() {
    let mut m = market();
    m.create_game(HOST, true).unwrap();
    // a 1% move crosses the join band exactly
    m.add_price(ADMIN, 101_000).unwrap();
    assert_eq!(m.join_game(OPPONENT, 0), Err(Error::PriceMovedTooMuch));
    assert_eq!(m.vault, 100);
    // further prices never lift the bar, whatever they are
    m.add_price(ADMIN, 100_000).unwrap();
    assert_eq!(m.join_game(OPPONENT, 0), Err(Error::PriceMovedTooMuch));
}

#[test]
fn test_market_join_allowed_inside_band() {
    let mut m = market();
    m.create_game(HOST, true).unwrap();
    // 0.9% up: inside the 1% join band
    m.add_price(ADMIN, 100_900).unwrap();
    assert_eq!(m.join_game(OPPONENT, 0), Ok(()));
}

#[test]
fn test_market_claim_before_join() {
    let mut m = market();
    m.create_game(HOST, true).unwrap();
    assert_eq!(m.claim_winnings(HOST, 0), Err(Error::GameNotStarted));
}

#[test]
fn test_market_claim_before_crossing() {
    let mut m = market();
    m.create_game(HOST, true).unwrap();
    m.join_game(OPPONENT, 0).unwrap();
    // 0.5% up: inside the 5% win band
    m.add_price(ADMIN, 100_500).unwrap();
    assert_eq!(m.claim_winnings(HOST, 0), Err(Error::GameNotFinished));
    assert_eq!(m.vault, 200);
}

#[test]
fn test_market_claim_up_host_wins() {
    let mut m = market();
    m.create_game(HOST, true).unwrap();
    m.join_game(OPPONENT, 0).unwrap();
    m.add_price(ADMIN, 105_000).unwrap();
    // the host predicted the rise, so the opponent cannot claim
    assert_eq!(m.claim_winnings(OPPONENT, 0), Err(Error::SignerNotWinner));
    assert_eq!(m.claim_winnings(HOST, 0), Ok(()));
    assert_eq!(m.vault, 0);
    let g = m.games.games[0];
    assert!(g.is_closed);
    assert_eq!(g.result, Some(true));
    // resolution happens exactly once
    assert_eq!(m.claim_winnings(HOST, 0), Err(Error::GameAlreadyClosed));
}

#[test]
fn test_market_claim_down_opponent_wins() {
    let mut m = market();
    m.create_game(HOST, true).unwrap();
    m.join_game(OPPONENT, 0).unwrap();
    m.add_price(ADMIN, 95_000).unwrap();
    assert_eq!(m.claim_winnings(HOST, 0), Err(Error::SignerNotWinner));
    assert_eq!(m.claim_winnings(OPPONENT, 0), Ok(()));
    assert_eq!(m.vault, 0);
    assert_eq!(m.games.games[0].result, Some(false));
}

#[test]
fn test_market_claim_missing_game() {
    let mut m = market();
    assert_eq!(m.claim_winnings(HOST, 3), Err(Error::GameNotFound));
}

#[test]
fn test_market_escrow_tracks_live_games() {
    let mut m = market();
    m.create_game(HOST, true).unwrap();
    assert_eq!(m.vault, 100);
    m.create_game(OTHER_HOST, false).unwrap();
    assert_eq!(m.vault, 200);
    m.join_game(OPPONENT, 0).unwrap();
    assert_eq!(m.vault, 300);
    m.withdraw_from_game(OTHER_HOST, 1).unwrap();
    assert_eq!(m.vault, 200);
    m.add_price(ADMIN, 105_000).unwrap();
    m.claim_winnings(HOST, 0).unwrap();
    assert_eq!(m.vault, 0);
}

#[test]
fn test_market_failed_calls_leave_state_unchanged() {
    let mut m = market();
    m.create_game(HOST, true).unwrap();
    let vault_before = m.vault;
    let games_before = m.games.games.len();
    let prices_before = m.prices.prices.clone();
    assert!(m.join_game(HOST, 0).is_err());
    assert!(m.claim_winnings(HOST, 0).is_err());
    assert!(m.withdraw_from_game(OPPONENT, 0).is_err());
    assert!(m.add_price(HOST, 1).is_err());
    assert_eq!(m.vault, vault_before);
    assert_eq!(m.games.games.len(), games_before);
    assert_eq!(m.prices.prices, prices_before);
}

#[test]
fn test_crossing_stable_under_extension() {
    // the detector's verdict on a prefix never changes as prices keep coming
    let mut prices = vec![100_000, 105_000];
    let first = check_price_fluctuation(&prices, 0, 5, 3, 0);
    assert_eq!(first, Some(true));
    prices.push(90_000);
    prices.push(110_000);
    prices.push(1);
    assert_eq!(check_price_fluctuation(&prices, 0, 5, 3, 0), first);
}

#[test]
fn test_zero_threshold_equal_price_counts_up() {
    // with a zero band, a price exactly equal to the reference is an
    // upward crossing, never a downward one
    let prices = vec![100_000, 100_000];
    assert_eq!(check_price_fluctuation(&prices, 0, 0, 3, 0), Some(true));
    let falling = vec![100_000, 99_999];
    assert_eq!(check_price_fluctuation(&falling, 0, 0, 3, 0), Some(false));
}

#[test]
fn test_game_accessors() {
    let mut g = Game::new(HOST, true, 100, 0);
    assert_eq!(g.host, HOST);
    assert_eq!(g.opponent, None);
    assert!(!g.is_closed);
    g.join(OPPONENT);
    assert_eq!(g.opponent, Some(OPPONENT));
    g.set_result(true);
    g.close();
    assert_eq!(g.result, Some(true));
    assert!(g.is_closed);
    let prices = vec![100_000, 105_000];
    assert_eq!(g.check_price_fluctuation(&prices, 5, 3, 0), Some(true));
}
