//! The settlement engine: game lifecycle transitions driven by the
//! threshold detector, with escrow accounting carried alongside.
//!
//! Every transition is specified as a function from the current state to
//! the next state and a result; the executable methods are proved to follow
//! those transition functions exactly, and to preserve the state invariant,
//! including that the escrowed balance always equals the stakes committed
//! to live games.

use crate::error::Error;
use crate::fluctuation::spec_check_price_fluctuation;
use crate::state::{
    escrowed_total, lemma_escrowed_total_push, lemma_escrowed_total_update, lemma_stake_le_total,
    Config, Game, Games, Prices,
};
use vstd::prelude::*;

verus! {

/// The engine's whole state: configuration, price ledger, game registry,
/// and the balance currently held in escrow for live games.
pub struct Market {
    pub config: Config,
    pub prices: Prices,
    pub games: Games,
    /// Balance held by the escrow collaborator on the engine's behalf.
    pub vault: u64,
}

/// Mathematical image of a `Market`, used by the contracts.
#[verifier::ext_equal]
pub struct MarketView {
    pub config: Config,
    pub price_decimals: u8,
    pub prices: Seq<u64>,
    pub games: Seq<Game>,
    pub vault: u64,
}

impl View for Market {
    type V = MarketView;

    open spec fn view(&self) -> MarketView {
        MarketView {
            config: self.config,
            price_decimals: self.prices.decimals,
            prices: self.prices.prices@,
            games: self.games.games@,
            vault: self.vault,
        }
    }
}

impl MarketView {
    /// Invariant of every reachable state: the configuration is well
    /// formed, the ledger keeps its seed price, every game is well formed
    /// and references a price point that exists, and the escrowed balance
    /// equals the stakes of the live games.
    pub open spec fn inv(self) -> bool {
        &&& self.config.wf()
        &&& self.prices.len() >= 1
        &&& forall|i: int| 0 <= i < self.games.len() ==> (#[trigger] self.games[i]).wf()
        &&& forall|i: int|
            0 <= i < self.games.len() ==> (#[trigger] self.games[i]).price_index < self.prices.len()
        &&& forall|i: int|
            0 <= i < self.games.len() ==> (#[trigger] self.games[i]).amount == self.config.bet_size
        &&& self.vault == escrowed_total(self.games)
    }
}

/// What appending a price does: admin only, positive prices only.
pub open spec fn add_price_outcome(s: MarketView, caller: u64, price: u64) -> (MarketView, Result<
    (),
    Error,
>) {
    if caller != s.config.admin {
        (s, Err(Error::AdminOnly))
    } else if price == 0 {
        (s, Err(Error::InvalidPrice))
    } else {
        (MarketView { prices: s.prices.push(price), ..s }, Ok(()))
    }
}

/// What creating a game does: a fresh open game referencing the ledger's
/// current last price, with the host's stake moved into escrow.
pub open spec fn create_game_outcome(s: MarketView, host: u64, prediction: bool) -> (MarketView, Result<
    (),
    Error,
>) {
    if s.vault + s.config.bet_size > u64::MAX {
        (s, Err(Error::ArithmeticOverflow))
    } else {
        let g = Game {
            host: host,
            opponent: None,
            host_prediction: prediction,
            amount: s.config.bet_size,
            price_index: (s.prices.len() - 1) as u32,
            result: None,
            is_closed: false,
        };
        (
            MarketView {
                games: s.games.push(g),
                vault: (s.vault + s.config.bet_size) as u64,
                ..s
            },
            Ok(()),
        )
    }
}

/// What joining does: allowed only for an existing, open, unmatched game
/// of another player whose price has not yet drifted past the join band;
/// the opponent's matching stake moves into escrow.
pub open spec fn join_outcome(s: MarketView, player: u64, game_index: u32) -> (MarketView, Result<
    (),
    Error,
>) {
    let i = game_index as int;
    if i >= s.games.len() {
        (s, Err(Error::GameNotFound))
    } else {
        let g = s.games[i];
        if g.is_closed {
            (s, Err(Error::GameAlreadyClosed))
        } else if g.host == player {
            (s, Err(Error::CannotJoinOwnGame))
        } else if g.opponent is Some {
            (s, Err(Error::GameAlreadyJoined))
        } else if spec_check_price_fluctuation(
            s.prices,
            g.price_index as int,
            s.config.join_threshold_percent,
            s.config.threshold_decimals as nat,
        ) is Some {
            (s, Err(Error::PriceMovedTooMuch))
        } else if s.vault + s.config.bet_size > u64::MAX {
            (s, Err(Error::ArithmeticOverflow))
        } else {
            (
                MarketView {
                    games: s.games.update(i, Game { opponent: Some(player), ..g }),
                    vault: (s.vault + s.config.bet_size) as u64,
                    ..s
                },
                Ok(()),
            )
        }
    }
}

/// The player owed both stakes once the crossing `up` has resolved a game:
/// the host when the prediction matched the direction, else the opponent.
pub open spec fn winner_of(g: Game, up: bool) -> u64 {
    if g.host_prediction == up {
        g.host
    } else {
        g.opponent.unwrap()
    }
}

/// The win-threshold crossing for a game, against the current ledger.
pub open spec fn win_crossing(s: MarketView, g: Game) -> Option<bool> {
    spec_check_price_fluctuation(
        s.prices,
        g.price_index as int,
        s.config.win_threshold_percent,
        s.config.threshold_decimals as nat,
    )
}

/// What claiming does: only a matched, open game whose win threshold has
/// been crossed can be resolved, only by the winner; both stakes leave
/// escrow, the result is recorded, and the game closes.
pub open spec fn claim_winnings_outcome(s: MarketView, claimant: u64, game_index: u32) -> (MarketView, Result<
    (),
    Error,
>) {
    let i = game_index as int;
    if i >= s.games.len() {
        (s, Err(Error::GameNotFound))
    } else {
        let g = s.games[i];
        if g.is_closed {
            (s, Err(Error::GameAlreadyClosed))
        } else if g.opponent is None {
            (s, Err(Error::GameNotStarted))
        } else {
            match win_crossing(s, g) {
                None => (s, Err(Error::GameNotFinished)),
                Some(up) => {
                    if claimant != winner_of(g, up) {
                        (s, Err(Error::SignerNotWinner))
                    } else {
                        (
                            MarketView {
                                games: s.games.update(
                                    i,
                                    Game { result: Some(up), is_closed: true, ..g },
                                ),
                                vault: (s.vault - 2 * g.amount) as u64,
                                ..s
                            },
                            Ok(()),
                        )
                    }
                },
            }
        }
    }
}

/// What withdrawing does: only the host of an existing, still-open,
/// unmatched game can take the stake back; the game closes with no result.
pub open spec fn withdraw_outcome(s: MarketView, caller: u64, game_index: u32) -> (MarketView, Result<
    (),
    Error,
>) {
    let i = game_index as int;
    if i >= s.games.len() {
        (s, Err(Error::GameNotFound))
    } else {
        let g = s.games[i];
        if g.host != caller {
            (s, Err(Error::UnauthorizedWithdrawal))
        } else if g.is_closed {
            (s, Err(Error::GameAlreadyClosed))
        } else if g.opponent is Some {
            (s, Err(Error::WithdrawalNotAllowed))
        } else {
            (
                MarketView {
                    games: s.games.update(i, Game { is_closed: true, ..g }),
                    vault: (s.vault - g.amount) as u64,
                    ..s
                },
                Ok(()),
            )
        }
    }
}

impl Market {
    /// One-time setup: configuration, the price ledger seeded with its
    /// first point, an empty registry, and an empty escrow.
    pub fn new(
        admin: u64,
        mint: u64,
        bet_size: u64,
        win_threshold_percent: u16,
        join_threshold_percent: u16,
        threshold_decimals: u8,
        initial_price: u64,
        price_decimals: u8,
    ) -> (m: Market)
        requires
            bet_size >= 1,
            threshold_decimals <= 17,
        ensures
            m@.config == (Config {
                admin,
                mint,
                bet_size,
                win_threshold_percent,
                join_threshold_percent,
                threshold_decimals,
            }),
            m@.price_decimals == price_decimals,
            m@.prices == seq![initial_price],
            m@.games == Seq::<Game>::empty(),
            m@.vault == 0,
            m@.inv(),
    {
        let mut seeded: Vec<u64> = Vec::new();
        seeded.push(initial_price);
        let m = Market {
            config: Config {
                admin,
                mint,
                bet_size,
                win_threshold_percent,
                join_threshold_percent,
                threshold_decimals,
            },
            prices: Prices { prices: seeded, decimals: price_decimals },
            games: Games { games: Vec::new() },
            vault: 0,
        };
        proof {
            assert(m@.prices =~= seq![initial_price]);
            assert(m@.games =~= Seq::<Game>::empty());
        }
        m
    }

    /// Appends a price point to the ledger. Only the admin may do so, and
    /// only positive values are accepted.
    pub fn add_price(&mut self, caller: u64, price: u64) -> (r: Result<(), Error>)
        requires
            old(self)@.inv(),
        ensures
            final(self)@ == add_price_outcome(old(self)@, caller, price).0,
            r == add_price_outcome(old(self)@, caller, price).1,
            final(self)@.inv(),
    {
        if caller != self.config.admin {
            return Err(Error::AdminOnly);
        }
        if price == 0 {
            return Err(Error::InvalidPrice);
        }
        self.prices.prices.push(price);
        proof {
            assert(self@ =~= add_price_outcome(old(self)@, caller, price).0);
        }
        Ok(())
    }

    /// Opens a new game for `host`, staking the configured bet size on the
    /// prediction, with the ledger's current last price as reference point.
    pub fn create_game(&mut self, host: u64, prediction: bool) -> (r: Result<(), Error>)
        requires
            old(self)@.inv(),
            old(self)@.prices.len() - 1 <= u32::MAX,
        ensures
            final(self)@ == create_game_outcome(old(self)@, host, prediction).0,
            r == create_game_outcome(old(self)@, host, prediction).1,
            final(self)@.inv(),
    {
        let new_vault = match self.vault.checked_add(self.config.bet_size) {
            Some(v) => v,
            None => {
                return Err(Error::ArithmeticOverflow);
            },
        };
        let price_index = (self.prices.prices.len() - 1) as u32;
        let g = Game::new(host, prediction, self.config.bet_size, price_index);
        self.games.games.push(g);
        self.vault = new_vault;
        proof {
            lemma_escrowed_total_push(old(self)@.games, g);
            assert(self@ =~= create_game_outcome(old(self)@, host, prediction).0);
        }
        Ok(())
    }

    /// Joins `player` as the opponent of an open game, staking the
    /// matching bet, provided the price has not yet left the join band.
    pub fn join_game(&mut self, player: u64, game_index: u32) -> (r: Result<(), Error>)
        requires
            old(self)@.inv(),
        ensures
            final(self)@ == join_outcome(old(self)@, player, game_index).0,
            r == join_outcome(old(self)@, player, game_index).1,
            final(self)@.inv(),
    {
        let idx = game_index as usize;
        if idx >= self.games.games.len() {
            return Err(Error::GameNotFound);
        }
        let g = self.games.games[idx];
        if g.is_closed {
            return Err(Error::GameAlreadyClosed);
        }
        if g.host == player {
            return Err(Error::CannotJoinOwnGame);
        }
        if g.opponent.is_some() {
            return Err(Error::GameAlreadyJoined);
        }
        let drift = g.check_price_fluctuation(
            &self.prices.prices,
            self.config.join_threshold_percent,
            self.prices.decimals,
            self.config.threshold_decimals,
        );
        if drift.is_some() {
            return Err(Error::PriceMovedTooMuch);
        }
        let new_vault = match self.vault.checked_add(self.config.bet_size) {
            Some(v) => v,
            None => {
                return Err(Error::ArithmeticOverflow);
            },
        };
        let mut g2 = g;
        g2.join(player);
        self.games.games[idx] = g2;
        self.vault = new_vault;
        proof {
            lemma_escrowed_total_update(old(self)@.games, game_index as int, g2);
            assert(self@ =~= join_outcome(old(self)@, player, game_index).0);
        }
        Ok(())
    }

    /// Resolves a matched game whose win threshold has been crossed,
    /// paying both stakes to the winner and closing the game.
    pub fn claim_winnings(&mut self, claimant: u64, game_index: u32) -> (r: Result<(), Error>)
        requires
            old(self)@.inv(),
        ensures
            final(self)@ == claim_winnings_outcome(old(self)@, claimant, game_index).0,
            r == claim_winnings_outcome(old(self)@, claimant, game_index).1,
            final(self)@.inv(),
    {
        let idx = game_index as usize;
        if idx >= self.games.games.len() {
            return Err(Error::GameNotFound);
        }
        let g = self.games.games[idx];
        if g.is_closed {
            return Err(Error::GameAlreadyClosed);
        }
        let opponent = match g.opponent {
            Some(o) => o,
            None => {
                return Err(Error::GameNotStarted);
            },
        };
        let crossing = g.check_price_fluctuation(
            &self.prices.prices,
            self.config.win_threshold_percent,
            self.prices.decimals,
            self.config.threshold_decimals,
        );
        let up = match crossing {
            Some(u) => u,
            None => {
                return Err(Error::GameNotFinished);
            },
        };
        let winner = if g.host_prediction == up {
            g.host
        } else {
            opponent
        };
        if claimant != winner {
            return Err(Error::SignerNotWinner);
        }
        proof {
            lemma_stake_le_total(old(self)@.games, game_index as int);
        }
        let payout = g.amount * 2;
        let mut g2 = g;
        g2.set_result(up);
        g2.close();
        self.games.games[idx] = g2;
        self.vault = self.vault - payout;
        proof {
            lemma_escrowed_total_update(old(self)@.games, game_index as int, g2);
            assert(self@ =~= claim_winnings_outcome(old(self)@, claimant, game_index).0);
        }
        Ok(())
    }

    /// Returns the host's stake for a game nobody has joined, and closes
    /// the game permanently with no result.
    pub fn withdraw_from_game(&mut self, caller: u64, game_index: u32) -> (r: Result<(), Error>)
        requires
            old(self)@.inv(),
        ensures
            final(self)@ == withdraw_outcome(old(self)@, caller, game_index).0,
            r == withdraw_outcome(old(self)@, caller, game_index).1,
            final(self)@.inv(),
    {
        let idx = game_index as usize;
        if idx >= self.games.games.len() {
            return Err(Error::GameNotFound);
        }
        let g = self.games.games[idx];
        if g.host != caller {
            return Err(Error::UnauthorizedWithdrawal);
        }
        if g.is_closed {
            return Err(Error::GameAlreadyClosed);
        }
        if g.opponent.is_some() {
            return Err(Error::WithdrawalNotAllowed);
        }
        proof {
            lemma_stake_le_total(old(self)@.games, game_index as int);
        }
        let mut g2 = g;
        g2.close();
        self.games.games[idx] = g2;
        self.vault = self.vault - g.amount;
        proof {
            lemma_escrowed_total_update(old(self)@.games, game_index as int, g2);
            assert(self@ =~= withdraw_outcome(old(self)@, caller, game_index).0);
        }
        Ok(())
    }
}

} // verus!
