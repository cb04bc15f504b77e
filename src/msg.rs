//! Commands, queries and query answers of the coordinator.
use crate::bitmaps::BitMap256;
use crate::types::{BaseState, Card, CardDelta, CompressedDeck, DeckConfig, Groth16Proof};
use crate::uint::U256;
use vstd::prelude::*;

verus! {

/// The verifier addresses the coordinator is set up with.
#[derive(Clone, Debug)]
pub struct InstantiateMsg {
    pub decrypt_verifier: String,
    pub deck5_verifier: String,
    pub deck30_verifier: String,
    pub deck52_verifier: String,
}

/// The commands; callbacks are opaque bytes handed back to the game's owner.
#[derive(Clone, Debug)]
pub enum ExecuteMsg {
    CreateGame { num_players: u8, deck_config: DeckConfig },
    Register { game_id: u64, callback: Option<Vec<u8>> },
    PlayerRegister { game_id: u64, signing_addr: String, pk_x: U256, pk_y: U256 },
    Shuffle { game_id: u64, callback: Option<Vec<u8>> },
    PlayerShuffle { game_id: u64, proof: Groth16Proof, deck: CompressedDeck },
    DealCardsTo { game_id: u64, cards: BitMap256, player_id: u32, callback: Option<Vec<u8>> },
    PlayerDealCards {
        game_id: u64,
        proofs: Vec<Groth16Proof>,
        decrypted_cards: Vec<Card>,
        init_deltas: Vec<CardDelta>,
    },
    OpenCards { game_id: u64, player_id: u32, opening: u8, callback: Option<Vec<u8>> },
    PlayerOpenCards {
        game_id: u64,
        cards: BitMap256,
        proofs: Vec<Groth16Proof>,
        decrypted_cards: Vec<Card>,
    },
    EndGame { game_id: u64 },
    Error { game_id: u64, callback: Option<Vec<u8>> },
}

/// The read-only projections.
#[derive(Clone, Debug)]
pub enum QueryMsg {
    GameInfo { game_id: u64 },
    GameState { game_id: u64 },
    NumCards { game_id: u64 },
    CurPlayerIndex { game_id: u64 },
    DecryptRecord { game_id: u64, card_index: u32 },
    AggregatedPk { game_id: u64 },
    Deck { game_id: u64 },
    PlayerIndex { game_id: u64, address: String },
    CardValue { game_id: u64, card_index: u32 },
}

/// The game's fixed information.
#[derive(Clone, Debug)]
pub struct GameInfoResponse {
    pub num_cards: u8,
    pub num_players: u8,
    pub encrypt_verifier: String,
    pub deck_config: DeckConfig,
}

/// The game's state and hand counts.
#[derive(Clone, Debug)]
pub struct GameStateResponse {
    pub state: BaseState,
    pub opening: u8,
    pub cur_player_index: u32,
    pub aggregate_pk_x: U256,
    pub aggregate_pk_y: U256,
    pub nonce: U256,
    pub player_addrs: Vec<String>,
    pub signing_addrs: Vec<String>,
    pub deck_config: DeckConfig,
    pub player_hand: Vec<u32>,
}

/// The size of the game's deck.
#[derive(Clone, Copy, Debug)]
pub struct NumCardsResponse {
    pub count: u32,
}

/// A player index, if there is one.
#[derive(Clone, Copy, Debug)]
pub struct PlayerIndexResponse {
    pub index: Option<u32>,
}

/// The players who decrypted a card.
#[derive(Clone, Copy, Debug)]
pub struct DecryptRecordResponse {
    pub bitmap: BitMap256,
}

/// The aggregate public key.
#[derive(Clone, Copy, Debug)]
pub struct AggregatedPkResponse {
    pub px: U256,
    pub py: U256,
}

/// The whole deck.
#[derive(Clone, Debug)]
pub struct DeckResponse {
    pub x0: Vec<U256>,
    pub x1: Vec<U256>,
    pub y0: Vec<U256>,
    pub y1: Vec<U256>,
    pub selector0: BitMap256,
    pub selector1: BitMap256,
    pub cards_to_deal: BitMap256,
    pub player_to_deal: u32,
}

/// A card's face value once it is fully decrypted.
#[derive(Clone, Copy, Debug)]
pub struct CardValueResponse {
    pub value: Option<u32>,
}

/// The answer to a query, one variant per projection.
#[derive(Clone, Debug)]
pub enum QueryResponse {
    GameInfo(GameInfoResponse),
    GameState(GameStateResponse),
    NumCards(NumCardsResponse),
    CurPlayerIndex(PlayerIndexResponse),
    DecryptRecord(DecryptRecordResponse),
    AggregatedPk(AggregatedPkResponse),
    Deck(DeckResponse),
    PlayerIndex(PlayerIndexResponse),
    CardValue(CardValueResponse),
}

} // verus!
