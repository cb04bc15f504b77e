//! Plain data carried by commands: deck kinds, phases, cards and proofs.
use crate::bitmaps::BitMap256;
use crate::uint::U256;
use vstd::prelude::*;

verus! {

/// The three deck sizes.
#[derive(Clone, Copy, Debug, PartialEq, Eq, Structural)]
pub enum DeckConfig {
    Deck5Card,
    Deck30Card,
    Deck52Card,
}

/// Number of cards of a deck kind.
pub open spec fn num_cards_of(config: DeckConfig) -> nat {
    match config {
        DeckConfig::Deck5Card => 5,
        DeckConfig::Deck30Card => 30,
        DeckConfig::Deck52Card => 52,
    }
}

impl DeckConfig {
    /// Number of cards of this kind.
    pub fn num_cards(&self) -> (r: u32)
        ensures
            r == num_cards_of(*self),
    {
        match self {
            DeckConfig::Deck5Card => 5,
            DeckConfig::Deck30Card => 30,
            DeckConfig::Deck52Card => 52,
        }
    }
}

/// Phase of a game.
#[derive(Clone, Copy, Debug, PartialEq, Eq, Structural)]
pub enum BaseState {
    Uncreated,
    Created,
    Registration,
    Shuffle,
    Deal,
    Open,
    GameError,
    Complete,
}

/// A curve point.
#[derive(Clone, Copy, Debug)]
pub struct Card {
    pub x: U256,
    pub y: U256,
}

/// The two compressed y-coordinates sent with a card's first decryption.
#[derive(Clone, Copy, Debug)]
pub struct CardDelta {
    pub delta0: U256,
    pub delta1: U256,
}

/// A Groth16 proof; carried through, never read here.
#[derive(Clone, Copy, Debug)]
pub struct Groth16Proof {
    pub a: [U256; 2],
    pub b: [[U256; 2]; 2],
    pub c: [U256; 2],
}

/// A deck without its y-coordinates.
#[derive(Clone, Debug)]
pub struct CompressedDeck {
    pub config: DeckConfig,
    pub x0: Vec<U256>,
    pub x1: Vec<U256>,
    pub selector0: BitMap256,
    pub selector1: BitMap256,
}

impl CompressedDeck {
    /// Both coordinate arrays have the kind's length.
    pub open spec fn len_matches_spec(&self) -> bool {
        self.x0@.len() == num_cards_of(self.config) && self.x1@.len() == num_cards_of(self.config)
    }

    /// Whether both coordinate arrays have the kind's length.
    pub fn len_matches(&self) -> (r: bool)
        ensures
            r == self.len_matches_spec(),
    {
        let len = self.config.num_cards() as usize;
        self.x0.len() == len && self.x1.len() == len
    }
}

} // verus!
