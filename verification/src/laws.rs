//! Guarantees that span several operations of the settlement engine,
//! stated over the transition functions and proved once and for all.

use crate::error::Error;
use crate::fluctuation::{lemma_crossing_prefix_stable, spec_check_price_fluctuation};
use crate::market::{
    add_price_outcome, claim_winnings_outcome, create_game_outcome, join_outcome, win_crossing,
    winner_of, withdraw_outcome, MarketView,
};
use crate::state::{escrowed_total, Game};
use vstd::prelude::*;

verus! {

/// Joining succeeds exactly when the game exists, is still open and
/// unmatched, belongs to someone else, the price has not left the join
/// band since the game was created, and the added stake fits the escrow
/// balance.
pub proof fn lemma_join_iff(s: MarketView, player: u64, game_index: u32)
    ensures
        join_outcome(s, player, game_index).1 is Ok <==> ({
            let i = game_index as int;
            &&& i < s.games.len()
            &&& !s.games[i].is_closed
            &&& s.games[i].host != player
            &&& s.games[i].opponent is None
            &&& spec_check_price_fluctuation(
                s.prices,
                s.games[i].price_index as int,
                s.config.join_threshold_percent,
                s.config.threshold_decimals as nat,
            ) is None
            &&& s.vault + s.config.bet_size <= u64::MAX
        }),
{
}

/// Once the price has drifted past the join band relative to a game's
/// reference point, that game can no longer be joined, and the attempt
/// leaves the state untouched.
pub proof fn lemma_join_blocked_after_drift(s: MarketView, player: u64, game_index: u32)
    requires
        game_index < s.games.len(),
        spec_check_price_fluctuation(
            s.prices,
            s.games[game_index as int].price_index as int,
            s.config.join_threshold_percent,
            s.config.threshold_decimals as nat,
        ) is Some,
    ensures
        join_outcome(s, player, game_index).1 is Err,
        join_outcome(s, player, game_index).0 == s,
{
}

/// Drift is permanent: appending further prices never reopens a game that
/// the join band already excludes, because a detected crossing is stable
/// under extension of the series.
pub proof fn lemma_join_stays_blocked(
    s: MarketView,
    player: u64,
    game_index: u32,
    caller: u64,
    price: u64,
)
    requires
        game_index < s.games.len(),
        spec_check_price_fluctuation(
            s.prices,
            s.games[game_index as int].price_index as int,
            s.config.join_threshold_percent,
            s.config.threshold_decimals as nat,
        ) is Some,
    ensures
        join_outcome(add_price_outcome(s, caller, price).0, player, game_index).1 is Err,
{
    let s2 = add_price_outcome(s, caller, price).0;
    if caller == s.config.admin && price != 0 {
        assert(s2.prices =~= s.prices + seq![price]);
        lemma_crossing_prefix_stable(
            s.prices,
            seq![price],
            s.games[game_index as int].price_index as int,
            s.config.join_threshold_percent,
            s.config.threshold_decimals as nat,
        );
    }
    lemma_join_blocked_after_drift(s2, player, game_index);
}

/// A claim succeeds exactly when the game exists, is matched and still
/// open, the win threshold has been crossed, and the claimant is the
/// winner that the crossing's direction determines.
pub proof fn lemma_claim_iff(s: MarketView, claimant: u64, game_index: u32)
    ensures
        claim_winnings_outcome(s, claimant, game_index).1 is Ok <==> ({
            let i = game_index as int;
            &&& i < s.games.len()
            &&& !s.games[i].is_closed
            &&& s.games[i].opponent is Some
            &&& win_crossing(s, s.games[i]) is Some
            &&& claimant == winner_of(s.games[i], win_crossing(s, s.games[i]).unwrap())
        }),
{
}

/// Resolution happens exactly once: a successful claim closes the game,
/// and every further claim on it fails with `GameAlreadyClosed`.
pub proof fn lemma_claim_exactly_once(s: MarketView, claimant: u64, second: u64, game_index: u32)
    requires
        claim_winnings_outcome(s, claimant, game_index).1 is Ok,
    ensures
        claim_winnings_outcome(
            claim_winnings_outcome(s, claimant, game_index).0,
            second,
            game_index,
        ).1 == Err::<(), Error>(Error::GameAlreadyClosed),
{
    let s2 = claim_winnings_outcome(s, claimant, game_index).0;
    assert(s2.games[game_index as int].is_closed);
}

/// Withdrawal succeeds exactly when the caller hosts an existing game that
/// is still open and unmatched; afterwards the game is permanently closed
/// with no result recorded.
pub proof fn lemma_withdraw_iff(s: MarketView, caller: u64, game_index: u32)
    requires
        s.inv(),
    ensures
        withdraw_outcome(s, caller, game_index).1 is Ok <==> ({
            let i = game_index as int;
            &&& i < s.games.len()
            &&& s.games[i].host == caller
            &&& !s.games[i].is_closed
            &&& s.games[i].opponent is None
        }),
        withdraw_outcome(s, caller, game_index).1 is Ok ==> ({
            let g = withdraw_outcome(s, caller, game_index).0.games[game_index as int];
            &&& g.is_closed
            &&& g.result is None
            &&& g.opponent is None
        }),
{
    if withdraw_outcome(s, caller, game_index).1 is Ok {
        let i = game_index as int;
        assert(s.games[i].wf());
        let g2 = Game { is_closed: true, ..s.games[i] };
        assert(withdraw_outcome(s, caller, game_index).0.games[i] == s.games.update(i, g2)[i]);
    }
}

/// A closed game is final: no transition of the engine ever changes it
/// again, whichever operation runs and whoever calls it.
pub proof fn lemma_closed_game_is_final(
    s: MarketView,
    j: int,
    caller: u64,
    price: u64,
    prediction: bool,
    game_index: u32,
)
    requires
        0 <= j < s.games.len(),
        s.games[j].is_closed,
    ensures
        add_price_outcome(s, caller, price).0.games[j] == s.games[j],
        create_game_outcome(s, caller, prediction).0.games[j] == s.games[j],
        join_outcome(s, caller, game_index).0.games[j] == s.games[j],
        claim_winnings_outcome(s, caller, game_index).0.games[j] == s.games[j],
        withdraw_outcome(s, caller, game_index).0.games[j] == s.games[j],
{
}

/// The per-game lifecycle order: the identity fields never change, the
/// opponent and the result are set at most once and never cleared, and a
/// closed game never reopens.
pub open spec fn game_evolves(g1: Game, g2: Game) -> bool {
    &&& g2.host == g1.host
    &&& g2.host_prediction == g1.host_prediction
    &&& g2.amount == g1.amount
    &&& g2.price_index == g1.price_index
    &&& g1.opponent is Some ==> g2.opponent == g1.opponent
    &&& g2.opponent is None ==> g1.opponent is None
    &&& g1.result is Some ==> g2.result == g1.result
    &&& g2.result is None ==> g1.result is None
    &&& g1.is_closed ==> g2.is_closed
}

/// Every operation of the engine moves every game forward along the
/// lifecycle order, and never removes one from the registry.
pub proof fn lemma_games_only_evolve(
    s: MarketView,
    j: int,
    caller: u64,
    price: u64,
    prediction: bool,
    game_index: u32,
)
    requires
        s.inv(),
        0 <= j < s.games.len(),
    ensures
        add_price_outcome(s, caller, price).0.games.len() >= s.games.len(),
        create_game_outcome(s, caller, prediction).0.games.len() >= s.games.len(),
        join_outcome(s, caller, game_index).0.games.len() >= s.games.len(),
        claim_winnings_outcome(s, caller, game_index).0.games.len() >= s.games.len(),
        withdraw_outcome(s, caller, game_index).0.games.len() >= s.games.len(),
        game_evolves(s.games[j], add_price_outcome(s, caller, price).0.games[j]),
        game_evolves(s.games[j], create_game_outcome(s, caller, prediction).0.games[j]),
        game_evolves(s.games[j], join_outcome(s, caller, game_index).0.games[j]),
        game_evolves(s.games[j], claim_winnings_outcome(s, caller, game_index).0.games[j]),
        game_evolves(s.games[j], withdraw_outcome(s, caller, game_index).0.games[j]),
{
    assert(s.games[j].wf());
    if game_index < s.games.len() {
        assert(s.games[game_index as int].wf());
    }
}

/// The price ledger is append-only: every operation leaves the existing
/// price points in place, at their indices, and only ever adds to the end.
pub proof fn lemma_ledger_append_only(
    s: MarketView,
    caller: u64,
    price: u64,
    prediction: bool,
    game_index: u32,
)
    ensures
        s.prices.is_prefix_of(add_price_outcome(s, caller, price).0.prices),
        s.prices.is_prefix_of(create_game_outcome(s, caller, prediction).0.prices),
        s.prices.is_prefix_of(join_outcome(s, caller, game_index).0.prices),
        s.prices.is_prefix_of(claim_winnings_outcome(s, caller, game_index).0.prices),
        s.prices.is_prefix_of(withdraw_outcome(s, caller, game_index).0.prices),
{
}

/// The escrowed balance always covers the live games exactly: the host's
/// stake for every open game, doubled once an opponent has matched it.
/// Every operation of the engine preserves this, so it holds after any
/// sequence of operations started from a fresh market.
pub proof fn lemma_escrow_covers_live_games(s: MarketView)
    requires
        s.inv(),
    ensures
        s.vault == escrowed_total(s.games),
{
}

} // verus!
