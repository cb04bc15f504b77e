use cosmwasm_std::Uint256;
use std::str::FromStr;
use zk_shuffle::bitmaps::BitMap256;
use zk_shuffle::deck::{
    card_index_from_x1, initial_x1_values, selector_for, shuffle_public_input, Deck,
    SELECTOR0_BASE, SELECTOR1_BASE,
};
use zk_shuffle::error::DeckError;
use zk_shuffle::types::{CompressedDeck, DeckConfig};
use zk_shuffle::uint::U256;

fn big(s: &str) -> U256 {
    U256::from_le_bytes(Uint256::from_str(s).unwrap().to_le_bytes())
}

fn mock_compressed_deck(config: DeckConfig, fill_val: u128) -> CompressedDeck {
    let size = config.num_cards() as usize;
    CompressedDeck {
        config,
        x0: vec![U256::from_u128(fill_val); size],
        x1: vec![U256::from_u128(fill_val + 1); size],
        selector0: BitMap256::from_u128(12345),
        selector1: BitMap256::from_u128(67890),
    }
}

#[test]
fn test_deck_initialization() {
    let config = DeckConfig::Deck5Card;
    let deck = Deck::new(config);

    assert_eq!(deck.x0.len(), 5);
    assert_eq!(deck.x1.len(), 5);

    let expected_first_x1 =
        big("5299619240641551281634865583518297030282874472190772894086521144482721001553");
    assert_eq!(deck.x1[0], expected_first_x1);

    let base_sel0 = 4_503_599_627_370_495u128;
    let expected_sel0 = base_sel0 >> (52 - 5);
    assert_eq!(deck.selector0.data, U256::from_u128(expected_sel0));
}

#[test]
fn test_shuffle_public_input_layout() {
    let config = DeckConfig::Deck5Card;
    let deck_size = 5;

    let old_deck = mock_compressed_deck(config, 100);
    let enc_deck = mock_compressed_deck(config, 200);

    let nonce = U256::from_u128(999u128);
    let agg_pk_x = U256::from_u128(888u128);
    let agg_pk_y = U256::from_u128(777u128);

    let input = shuffle_public_input(&enc_deck, &old_deck, &nonce, &agg_pk_x, &agg_pk_y).unwrap();

    assert_eq!(input.len(), 27);

    assert_eq!(input[0], nonce);
    assert_eq!(input[1], agg_pk_x);
    assert_eq!(input[2], agg_pk_y);

    for i in 0..deck_size {
        assert_eq!(input[3 + i], U256::from_u128(100u128));
    }
    for i in 0..deck_size {
        assert_eq!(input[3 + deck_size + i], U256::from_u128(101u128));
    }
    for i in 0..deck_size {
        assert_eq!(input[3 + 2 * deck_size + i], U256::from_u128(200u128));
    }
    for i in 0..deck_size {
        assert_eq!(input[3 + 3 * deck_size + i], U256::from_u128(201u128));
    }

    let offset = 3 + 4 * deck_size;
    assert_eq!(input[offset], old_deck.selector0.data);
    assert_eq!(input[offset + 1], old_deck.selector1.data);
    assert_eq!(input[offset + 2], enc_deck.selector0.data);
    assert_eq!(input[offset + 3], enc_deck.selector1.data);
}

#[test]
fn public_input_length_for_every_kind() {
    for (config, n) in [
        (DeckConfig::Deck5Card, 5usize),
        (DeckConfig::Deck30Card, 30),
        (DeckConfig::Deck52Card, 52),
    ] {
        let a = mock_compressed_deck(config, 1);
        let b = mock_compressed_deck(config, 2);
        let input =
            shuffle_public_input(&a, &b, &U256::zero(), &U256::zero(), &U256::one()).unwrap();
        assert_eq!(input.len(), 7 + 4 * n);
    }
}

#[test]
fn public_input_refuses_mismatched_decks() {
    let a = mock_compressed_deck(DeckConfig::Deck5Card, 1);
    let b = mock_compressed_deck(DeckConfig::Deck30Card, 2);
    let z = U256::zero();
    assert_eq!(shuffle_public_input(&a, &b, &z, &z, &z).unwrap_err(), DeckError::ConfigMismatch);

    let mut short = mock_compressed_deck(DeckConfig::Deck5Card, 3);
    short.x1.pop();
    assert_eq!(
        shuffle_public_input(&short, &a, &z, &z, &z).unwrap_err(),
        DeckError::LengthMismatch
    );
    assert_eq!(
        shuffle_public_input(&a, &short, &z, &z, &z).unwrap_err(),
        DeckError::LengthMismatch
    );
}

#[test]
fn selectors_for_each_deck_size() {
    for n in [5u32, 30, 52] {
        assert_eq!(
            selector_for(n, SELECTOR0_BASE).data,
            U256::from_u128(4503599627370495u128 >> (52 - n))
        );
        assert_eq!(
            selector_for(n, SELECTOR1_BASE).data,
            U256::from_u128(3075935501959818u128 >> (52 - n))
        );
    }
    assert_eq!(selector_for(5, SELECTOR0_BASE).data, U256::from_u128(31));
    assert_eq!(selector_for(52, SELECTOR1_BASE).data, U256::from_u128(3075935501959818));
    let d30 = Deck::new(DeckConfig::Deck30Card);
    assert_eq!(d30.selector0.data, U256::from_u128((1u128 << 30) - 1));
    assert_eq!(d30.selector1.data, U256::from_u128(3075935501959818u128 >> 22));
}

#[test]
fn fresh_deck_is_zero_but_for_x1() {
    let deck = Deck::new(DeckConfig::Deck52Card);
    let table = initial_x1_values();
    assert_eq!(table.len(), 52);
    assert_eq!(deck.size(), 52);
    for i in 0..52 {
        assert!(deck.x0[i].is_zero() && deck.y0[i].is_zero() && deck.y1[i].is_zero());
        assert_eq!(deck.x1[i], table[i]);
        assert!(deck.decrypt_record[i].is_zero());
    }
    assert!(deck.cards_to_deal.is_zero());
    assert_eq!(deck.player_to_deal, 0);
    assert_eq!(
        table[51],
        big("3673082978401597800140653084819666873666278094336864183112751111018951461681")
    );
}

#[test]
fn card_index_lookup_is_limited_to_the_deck() {
    let table = initial_x1_values();
    assert_eq!(card_index_from_x1(&table[0], DeckConfig::Deck5Card), Some(0));
    assert_eq!(card_index_from_x1(&table[4], DeckConfig::Deck5Card), Some(4));
    assert_eq!(card_index_from_x1(&table[5], DeckConfig::Deck5Card), None);
    assert_eq!(card_index_from_x1(&table[5], DeckConfig::Deck30Card), Some(5));
    assert_eq!(card_index_from_x1(&table[51], DeckConfig::Deck52Card), Some(51));
    assert_eq!(card_index_from_x1(&U256::from_u128(7), DeckConfig::Deck52Card), None);
}

#[test]
fn compress_and_restore() {
    let mut deck = Deck::new(DeckConfig::Deck5Card);
    let c = deck.compressed();
    assert!(c.len_matches());
    assert_eq!(c.x1, deck.x1);
    let other = mock_compressed_deck(DeckConfig::Deck5Card, 9);
    deck.set_from_compressed(other).unwrap();
    assert_eq!(deck.x0[3], U256::from_u128(9));
    assert_eq!(deck.x1[3], U256::from_u128(10));
    assert_eq!(deck.selector1.data, U256::from_u128(67890));
    assert_eq!(deck.y0.len(), 5);

    let mut wrong = mock_compressed_deck(DeckConfig::Deck30Card, 1);
    wrong.x0.pop();
    assert!(!wrong.len_matches());
    assert_eq!(deck.set_from_compressed(wrong), Err(DeckError::LengthMismatch));
    assert_eq!(deck.x0[3], U256::from_u128(9));

    let bigger = mock_compressed_deck(DeckConfig::Deck30Card, 4);
    deck.set_from_compressed(bigger).unwrap();
    assert_eq!(deck.y0.len(), 30);
    assert_eq!(deck.decrypt_record.len(), 30);
    assert_eq!(deck.size(), 30);
}
