//! Data model: configuration, price ledger, game registry, and the escrow
//! accounting function that ties stakes to live games.

use crate::fluctuation::{check_price_fluctuation, spec_check_price_fluctuation};
use vstd::prelude::*;

verus! {

/// Admin-owned singleton configuration. Identities are carried as plain
/// integers; the hosting environment is responsible for authenticating the
/// caller behind each one.
#[derive(Clone, Copy)]
pub struct Config {
    /// Identity allowed to append to the price ledger.
    pub admin: u64,
    /// Identity of the accepted currency.
    pub mint: u64,
    /// Stake per player, in the currency's smallest unit. Positive.
    pub bet_size: u64,
    /// Percentage move that resolves a game, scaled by `threshold_decimals`.
    pub win_threshold_percent: u16,
    /// Tolerance band for joining, scaled by `threshold_decimals`.
    pub join_threshold_percent: u16,
    /// Fractional digits carried by both threshold percentages.
    pub threshold_decimals: u8,
}

impl Config {
    /// The stake is positive, and the threshold scale is small enough that
    /// the detector's exact comparisons fit machine integers.
    pub open spec fn wf(self) -> bool {
        &&& self.bet_size >= 1
        &&& self.threshold_decimals <= 17
    }
}

/// Append-only ledger of price points with a fixed decimal scale. Insertion
/// order is chronological order; an index is permanent once assigned.
pub struct Prices {
    /// Price points, each scaled by `decimals` fractional digits.
    pub prices: Vec<u64>,
    /// Fractional digits carried by every price point.
    pub decimals: u8,
}

/// Append-only registry of games. A game's identity is its index, permanent
/// once assigned; closed games remain as historical records.
pub struct Games {
    pub games: Vec<Game>,
}

/// One wager between a host and an optional opponent, referencing the price
/// point that was current when the game was created.
#[derive(Clone, Copy)]
pub struct Game {
    /// The player who opened the game.
    pub host: u64,
    /// The matched opponent, set at most once and never cleared.
    pub opponent: Option<u64>,
    /// The host's prediction: `true` means the price will rise.
    pub host_prediction: bool,
    /// The host's stake; the opponent matches it on joining.
    pub amount: u64,
    /// Index into the price ledger: the reference point of the wager.
    pub price_index: u32,
    /// Direction of the crossing that resolved the game, set exactly once.
    pub result: Option<bool>,
    /// Terminal flag: set once, never reverted.
    pub is_closed: bool,
}

impl Game {
    /// The stake is positive, and a result exists only for a game that was
    /// matched and then closed by resolution.
    pub open spec fn wf(self) -> bool {
        &&& self.amount >= 1
        &&& self.result is Some ==> self.opponent is Some && self.is_closed
    }

    /// A fresh, open game.
    pub fn new(host: u64, host_prediction: bool, amount: u64, price_index: u32) -> (g: Game)
        ensures
            g == (Game {
                host,
                opponent: None,
                host_prediction,
                amount,
                price_index,
                result: None,
                is_closed: false,
            }),
    {
        Game {
            host,
            opponent: None,
            host_prediction,
            amount,
            price_index,
            result: None,
            is_closed: false,
        }
    }

    /// Records the direction of the resolving crossing.
    pub fn set_result(&mut self, result: bool)
        ensures
            *final(self) == (Game { result: Some(result), ..*old(self) }),
    {
        self.result = Some(result);
    }

    /// Moves the game to its terminal state.
    pub fn close(&mut self)
        ensures
            *final(self) == (Game { is_closed: true, ..*old(self) }),
    {
        self.is_closed = true;
    }

    /// Records the matched opponent.
    pub fn join(&mut self, opponent: u64)
        ensures
            *final(self) == (Game { opponent: Some(opponent), ..*old(self) }),
    {
        self.opponent = Some(opponent);
    }

    /// Runs the threshold detector against this game's reference point.
    pub fn check_price_fluctuation(
        &self,
        prices: &Vec<u64>,
        max_percentage: u16,
        price_decimals: u8,
        percentage_decimals: u8,
    ) -> (r: Option<bool>)
        requires
            percentage_decimals <= 17,
        ensures
            r == spec_check_price_fluctuation(
                prices@,
                self.price_index as int,
                max_percentage,
                percentage_decimals as nat,
            ),
    {
        check_price_fluctuation(
            prices,
            self.price_index as usize,
            max_percentage,
            price_decimals,
            percentage_decimals,
        )
    }
}

/// The escrow owed for one game: nothing once it is closed, both players'
/// stakes while it is matched, the host's stake alone while it is open.
pub open spec fn stake(g: Game) -> nat {
    if g.is_closed {
        0
    } else if g.opponent is Some {
        2 * (g.amount as nat)
    } else {
        g.amount as nat
    }
}

/// Sum of the escrow owed over a whole registry.
pub open spec fn escrowed_total(games: Seq<Game>) -> nat
    decreases games.len(),
{
    if games.len() == 0 {
        0
    } else {
        escrowed_total(games.drop_last()) + stake(games.last())
    }
}

pub proof fn lemma_escrowed_total_push(games: Seq<Game>, g: Game)
    ensures
        escrowed_total(games.push(g)) == escrowed_total(games) + stake(g),
{
    assert(games.push(g).drop_last() =~= games);
    assert(games.push(g).last() == g);
}

pub proof fn lemma_escrowed_total_update(games: Seq<Game>, i: int, g: Game)
    requires
        0 <= i < games.len(),
    ensures
        escrowed_total(games.update(i, g))
            == escrowed_total(games) - stake(games[i]) + stake(g),
    decreases games.len(),
{
    let t = games.update(i, g);
    if i == games.len() - 1 {
        assert(t.drop_last() =~= games.drop_last());
        assert(t.last() == g);
    } else {
        assert(t.drop_last() =~= games.drop_last().update(i, g));
        assert(t.last() == games.last());
        lemma_escrowed_total_update(games.drop_last(), i, g);
    }
}

pub proof fn lemma_stake_le_total(games: Seq<Game>, i: int)
    requires
        0 <= i < games.len(),
    ensures
        stake(games[i]) <= escrowed_total(games),
    decreases games.len(),
{
    if i < games.len() - 1 {
        lemma_stake_le_total(games.drop_last(), i);
    }
}

} // verus!
