//! Persisted records: global configuration, per-game info and per-game state.
use crate::deck::{init_x1, values, Deck, SELECTOR0_BASE, SELECTOR1_BASE};
use crate::types::{num_cards_of, BaseState, DeckConfig};
use crate::uint::U256;
use vstd::prelude::*;

verus! {

/// Player index meaning "none".
pub const INVALID_INDEX: u32 = 999999;

/// Global configuration: the verifier addresses and the last game id handed out.
#[derive(Clone, Debug)]
pub struct Config {
    pub decrypt_verifier: String,
    pub deck5_verifier: String,
    pub deck30_verifier: String,
    pub deck52_verifier: String,
    pub next_game_id: u64,
}

/// The encrypt verifier of a deck kind.
pub open spec fn deck_verifier_of(config: Config, deck: DeckConfig) -> String {
    match deck {
        DeckConfig::Deck5Card => config.deck5_verifier,
        DeckConfig::Deck30Card => config.deck30_verifier,
        DeckConfig::Deck52Card => config.deck52_verifier,
    }
}

impl Config {
    /// The encrypt verifier for decks of the given kind.
    pub fn deck_verifier(&self, deck: DeckConfig) -> (r: String)
        ensures
            r == deck_verifier_of(*self, deck),
    {
        match deck {
            DeckConfig::Deck5Card => self.deck5_verifier.clone(),
            DeckConfig::Deck30Card => self.deck30_verifier.clone(),
            DeckConfig::Deck52Card => self.deck52_verifier.clone(),
        }
    }
}

/// What is fixed when a game is created.
#[derive(Clone, Debug)]
pub struct GameInfo {
    pub deck_config: DeckConfig,
    pub num_cards: u8,
    pub num_players: u8,
    pub encrypt_verifier: String,
}

/// The mutable record of one game.
#[derive(Clone, Debug)]
pub struct ShuffleGameState {
    pub state: BaseState,
    pub opening: u8,
    pub cur_player_index: u32,
    pub aggregate_pk_x: U256,
    pub aggregate_pk_y: U256,
    pub nonce: U256,
    pub player_hand: Vec<u32>,
    pub player_addrs: Vec<String>,
    pub signing_addrs: Vec<String>,
    pub player_pk_x: Vec<U256>,
    pub player_pk_y: Vec<U256>,
    pub deck: Deck,
}

impl ShuffleGameState {
    /// A game just created: phase Created, no players, empty hands, zero
    /// aggregate key and nonce, a fresh deck.
    pub fn new(config: DeckConfig, num_players: u8) -> (r: ShuffleGameState)
        ensures
            r.state == BaseState::Created,
            r.opening == 0,
            r.cur_player_index == 0,
            r.aggregate_pk_x@ == 0,
            r.aggregate_pk_y@ == 0,
            r.nonce@ == 0,
            r.player_hand@ == Seq::new(num_players as nat, |i: int| 0u32),
            r.player_addrs@.len() == 0,
            r.signing_addrs@.len() == 0,
            r.player_pk_x@.len() == 0,
            r.player_pk_y@.len() == 0,
            r.deck.wf(),
            r.deck.config == config,
            r.deck.cards_to_deal.data@ == 0,
            r.deck.player_to_deal == 0,
            r.deck.selector0.data@ == SELECTOR0_BASE >> ((52 - num_cards_of(config)) as u128),
            r.deck.selector1.data@ == SELECTOR1_BASE >> ((52 - num_cards_of(config)) as u128),
            values(r.deck.x0@) == Seq::new(num_cards_of(config), |i: int| 0nat),
            values(r.deck.y0@) == Seq::new(num_cards_of(config), |i: int| 0nat),
            values(r.deck.y1@) == Seq::new(num_cards_of(config), |i: int| 0nat),
            values(r.deck.x1@) == init_x1().subrange(0, num_cards_of(config) as int),
            forall|i: int|
                0 <= i < num_cards_of(config) ==> (#[trigger] r.deck.decrypt_record@[i]).data@
                    == 0,
    {
        let mut player_hand: Vec<u32> = Vec::new();
        let mut i: u8 = 0;
        while i < num_players
            invariant
                i <= num_players,
                player_hand@ == Seq::new(i as nat, |k: int| 0u32),
            decreases num_players - i,
        {
            player_hand.push(0);
            i = i + 1;
            proof {
                assert(player_hand@ =~= Seq::new(i as nat, |k: int| 0u32));
            }
        }
        let deck = Deck::new(config);
        proof {
            assert forall|i: int|
                0 <= i < num_cards_of(config) implies (#[trigger] deck.decrypt_record@[i]).data@
                == 0 by {
                assert(crate::deck::bitmap_values(deck.decrypt_record@)[i] == 0);
            }
        }
        ShuffleGameState {
            state: BaseState::Created,
            opening: 0,
            cur_player_index: 0,
            aggregate_pk_x: U256::zero(),
            aggregate_pk_y: U256::zero(),
            nonce: U256::zero(),
            player_hand,
            player_addrs: Vec::new(),
            signing_addrs: Vec::new(),
            player_pk_x: Vec::new(),
            player_pk_y: Vec::new(),
            deck,
        }
    }

    /// Number of players registered so far.
    pub fn num_registered(&self) -> (r: usize)
        ensures
            r == self.player_addrs@.len(),
    {
        self.player_addrs.len()
    }
}

} // verus!
