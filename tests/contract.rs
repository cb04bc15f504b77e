use zk_shuffle::bitmaps::BitMap256;
use zk_shuffle::contract::{execute, instantiate, query, Store};
use zk_shuffle::curve::{curve_q, mod_sub};
use zk_shuffle::error::{ContractError, DeckError, FieldError};
use zk_shuffle::msg::{ExecuteMsg, InstantiateMsg, QueryMsg, QueryResponse};
use zk_shuffle::types::{BaseState, Card, CardDelta, CompressedDeck, DeckConfig, Groth16Proof};
use zk_shuffle::uint::U256;

fn instantiate_contract() -> Store {
    instantiate(InstantiateMsg {
        decrypt_verifier: "decrypt".to_string(),
        deck5_verifier: "deck5".to_string(),
        deck30_verifier: "deck30".to_string(),
        deck52_verifier: "deck52".to_string(),
    })
}

fn zero_compressed_deck(config: DeckConfig) -> CompressedDeck {
    let size = config.num_cards() as usize;
    CompressedDeck {
        config,
        x0: vec![U256::zero(); size],
        x1: vec![U256::zero(); size],
        selector0: BitMap256::zero(),
        selector1: BitMap256::zero(),
    }
}

fn dummy_proof() -> Groth16Proof {
    let z = U256::zero();
    Groth16Proof { a: [z, z], b: [[z, z], [z, z]], c: [z, z] }
}

fn dummy_card(x: u64, y: u64) -> Card {
    Card { x: U256::from_u128(x as u128), y: U256::from_u128(y as u128) }
}

fn unit_delta() -> CardDelta {
    CardDelta { delta0: U256::one(), delta1: U256::one() }
}

fn run(store: &mut Store, sender: &str, msg: ExecuteMsg) -> Result<usize, ContractError> {
    execute(store, &sender.to_string(), msg).map(|r| r.messages.len())
}

/// Two players registered with (0, 1) keys, both shuffles done.
fn shuffled_game(callback: Option<Vec<u8>>) -> Store {
    let mut store = instantiate_contract();
    let deck_config = DeckConfig::Deck5Card;
    run(&mut store, "owner", ExecuteMsg::CreateGame { num_players: 2, deck_config }).unwrap();
    run(&mut store, "owner", ExecuteMsg::Register { game_id: 1, callback: None }).unwrap();
    for (p, s) in [("player0", "player0-sign"), ("player1", "player1-sign")] {
        run(
            &mut store,
            p,
            ExecuteMsg::PlayerRegister {
                game_id: 1,
                signing_addr: s.to_string(),
                pk_x: U256::zero(),
                pk_y: U256::one(),
            },
        )
        .unwrap();
    }
    run(&mut store, "owner", ExecuteMsg::Shuffle { game_id: 1, callback }).unwrap();
    for p in ["player0", "player1"] {
        run(
            &mut store,
            p,
            ExecuteMsg::PlayerShuffle {
                game_id: 1,
                proof: dummy_proof(),
                deck: zero_compressed_deck(deck_config),
            },
        )
        .unwrap();
    }
    store
}

#[test]
fn test_basic_game_flow_shuffle_and_deal() {
    let mut store = instantiate_contract();
    let owner = "owner";
    let player0 = "player0";
    let player1 = "player1";
    let deck_config = DeckConfig::Deck5Card;

    run(&mut store, owner, ExecuteMsg::CreateGame { num_players: 2, deck_config }).unwrap();
    run(&mut store, owner, ExecuteMsg::Register { game_id: 1, callback: None }).unwrap();

    let pk_x = U256::zero();
    let pk_y = U256::one();
    run(
        &mut store,
        player0,
        ExecuteMsg::PlayerRegister {
            game_id: 1,
            signing_addr: "player0-sign".to_string(),
            pk_x,
            pk_y,
        },
    )
    .unwrap();
    run(
        &mut store,
        player1,
        ExecuteMsg::PlayerRegister {
            game_id: 1,
            signing_addr: "player1-sign".to_string(),
            pk_x,
            pk_y,
        },
    )
    .unwrap();

    run(&mut store, owner, ExecuteMsg::Shuffle { game_id: 1, callback: None }).unwrap();

    let compressed = zero_compressed_deck(deck_config);
    run(
        &mut store,
        player0,
        ExecuteMsg::PlayerShuffle { game_id: 1, proof: dummy_proof(), deck: compressed.clone() },
    )
    .unwrap();
    assert_eq!(store.games[0].state.cur_player_index, 1);

    run(
        &mut store,
        player1,
        ExecuteMsg::PlayerShuffle { game_id: 1, proof: dummy_proof(), deck: compressed.clone() },
    )
    .unwrap();
    assert_eq!(store.games[0].state.cur_player_index, 0);
    assert_eq!(store.games[0].state.state, BaseState::Shuffle);
    assert!(store.games[0].state.deck.x1.iter().all(|v| v.is_zero()));

    let mut cards = BitMap256::zero();
    cards.set(0);
    cards.set(1);
    run(
        &mut store,
        owner,
        ExecuteMsg::DealCardsTo { game_id: 1, cards, player_id: 0, callback: None },
    )
    .unwrap();

    assert_eq!(store.games[0].state.state, BaseState::Deal);
    assert_eq!(store.games[0].state.cur_player_index, 1);
    assert_eq!(store.games[0].state.deck.cards_to_deal.member_count_up_to(5), 2);

    let proofs = vec![dummy_proof(), dummy_proof()];
    let decrypted_cards = vec![dummy_card(10, 20), dummy_card(11, 21)];
    let deltas = vec![unit_delta(); 2];
    run(
        &mut store,
        player1,
        ExecuteMsg::PlayerDealCards { game_id: 1, proofs, decrypted_cards, init_deltas: deltas },
    )
    .unwrap();

    let state = &store.games[0].state;
    assert_eq!(state.cur_player_index, 0);
    assert_eq!(state.player_hand[0], 2);
    assert!(state.deck.decrypt_record[0].get(1));
}

#[test]
fn test_open_cards_flow() {
    let mut store = shuffled_game(None);
    let mut cards = BitMap256::zero();
    cards.set(0);
    run(
        &mut store,
        "owner",
        ExecuteMsg::DealCardsTo { game_id: 1, cards, player_id: 0, callback: None },
    )
    .unwrap();
    run(
        &mut store,
        "player1",
        ExecuteMsg::PlayerDealCards {
            game_id: 1,
            proofs: vec![dummy_proof()],
            decrypted_cards: vec![dummy_card(42, 24)],
            init_deltas: vec![unit_delta()],
        },
    )
    .unwrap();
    run(
        &mut store,
        "owner",
        ExecuteMsg::OpenCards { game_id: 1, player_id: 0, opening: 1, callback: None },
    )
    .unwrap();
    run(
        &mut store,
        "player0",
        ExecuteMsg::PlayerOpenCards {
            game_id: 1,
            cards,
            proofs: vec![dummy_proof()],
            decrypted_cards: vec![dummy_card(99, 100)],
        },
    )
    .unwrap();

    let state = &store.games[0].state;
    assert_eq!(state.state, BaseState::Open);
    assert_eq!(state.cur_player_index, 0);
    assert_eq!(state.opening, 0);
    assert_eq!(state.player_hand[0], 0);
}

#[test]
fn shuffle_round_wraps_once_and_sends_callback_once() {
    let mut store = instantiate_contract();
    run(&mut store, "owner", ExecuteMsg::CreateGame { num_players: 3, deck_config: DeckConfig::Deck5Card })
        .unwrap();
    run(&mut store, "owner", ExecuteMsg::Register { game_id: 1, callback: Some(vec![7]) }).unwrap();
    let mut sent = Vec::new();
    for p in ["a", "b", "c"] {
        sent.push(
            run(
                &mut store,
                p,
                ExecuteMsg::PlayerRegister {
                    game_id: 1,
                    signing_addr: format!("{}-sign", p),
                    pk_x: U256::zero(),
                    pk_y: U256::one(),
                },
            )
            .unwrap(),
        );
    }
    assert_eq!(sent, vec![0, 0, 1]);
    assert_eq!(store.games[0].state.nonce, U256::zero());
    run(&mut store, "owner", ExecuteMsg::Shuffle { game_id: 1, callback: Some(vec![1, 2]) })
        .unwrap();
    let mut turns = Vec::new();
    let mut messages = Vec::new();
    for p in ["a", "b-sign", "c"] {
        let r = execute(
            &mut store,
            &p.to_string(),
            ExecuteMsg::PlayerShuffle {
                game_id: 1,
                proof: dummy_proof(),
                deck: zero_compressed_deck(DeckConfig::Deck5Card),
            },
        )
        .unwrap();
        turns.push(store.games[0].state.cur_player_index);
        messages.push(r.messages.len());
        if let Some(m) = r.messages.first() {
            assert_eq!(m.contract_addr, "owner");
            assert_eq!(m.msg, vec![1, 2]);
        }
    }
    assert_eq!(turns, vec![1, 2, 0]);
    assert_eq!(messages, vec![0, 0, 1]);
    assert!(store.games[0].callback.is_none());
}

#[test]
fn deal_grows_the_hand_and_the_records() {
    let mut store = shuffled_game(None);
    let mut cards = BitMap256::zero();
    cards.set(2);
    cards.set(4);
    run(&mut store, "owner", ExecuteMsg::DealCardsTo { game_id: 1, cards, player_id: 1, callback: Some(vec![5]) })
        .unwrap();
    assert_eq!(store.games[0].state.cur_player_index, 0);
    let before: u32 = store.games[0].state.player_hand.iter().sum();
    let sent = run(
        &mut store,
        "player0-sign",
        ExecuteMsg::PlayerDealCards {
            game_id: 1,
            proofs: vec![dummy_proof(), dummy_proof()],
            decrypted_cards: vec![dummy_card(1, 2), dummy_card(3, 4)],
            init_deltas: vec![unit_delta(), unit_delta()],
        },
    )
    .unwrap();
    let st = &store.games[0].state;
    let after: u32 = st.player_hand.iter().sum();
    assert_eq!(after, before + 2);
    assert_eq!(st.player_hand[1], 2);
    assert_eq!(sent, 1);
    assert_eq!(st.deck.decrypt_record[2].member_count_up_to(256), 1);
    assert!(st.deck.decrypt_record[4].get(0));
    assert!(st.deck.decrypt_record[3].is_zero());
    assert_eq!(st.deck.x1[2], U256::from_u128(1));
    assert_eq!(st.deck.y1[4], U256::from_u128(4));
    let q = curve_q();
    assert_eq!(st.deck.y0[2], mod_sub(&q, &U256::one(), &q));
}

#[test]
fn repeated_share_is_refused_and_changes_nothing() {
    let mut store = shuffled_game(None);
    let mut cards = BitMap256::zero();
    cards.set(0);
    run(&mut store, "owner", ExecuteMsg::DealCardsTo { game_id: 1, cards, player_id: 1, callback: None })
        .unwrap();
    run(
        &mut store,
        "player0",
        ExecuteMsg::PlayerDealCards {
            game_id: 1,
            proofs: vec![dummy_proof()],
            decrypted_cards: vec![dummy_card(1, 2)],
            init_deltas: vec![unit_delta()],
        },
    )
    .unwrap();
    run(&mut store, "owner", ExecuteMsg::DealCardsTo { game_id: 1, cards, player_id: 1, callback: None })
        .unwrap();
    let err = run(
        &mut store,
        "player0",
        ExecuteMsg::PlayerDealCards {
            game_id: 1,
            proofs: vec![dummy_proof()],
            decrypted_cards: vec![dummy_card(5, 6)],
            init_deltas: vec![unit_delta()],
        },
    )
    .unwrap_err();
    assert_eq!(err, ContractError::AlreadyDecrypted);
    assert_eq!(store.games[0].state.deck.x1[0], U256::from_u128(1));
    assert_eq!(store.games[0].state.cur_player_index, 0);
}

#[test]
fn bad_delta_on_first_decryption_is_a_field_error() {
    let mut store = shuffled_game(None);
    let mut cards = BitMap256::zero();
    cards.set(1);
    run(&mut store, "owner", ExecuteMsg::DealCardsTo { game_id: 1, cards, player_id: 0, callback: None })
        .unwrap();
    let err = run(
        &mut store,
        "player1",
        ExecuteMsg::PlayerDealCards {
            game_id: 1,
            proofs: vec![dummy_proof()],
            decrypted_cards: vec![dummy_card(1, 2)],
            init_deltas: vec![CardDelta { delta0: U256::from_u128(2), delta1: U256::one() }],
        },
    )
    .unwrap_err();
    assert_eq!(err, ContractError::Field(FieldError::PointNotOnCurve));
    assert!(store.games[0].state.deck.decrypt_record[1].is_zero());
}

#[test]
fn authorization_and_lookup_errors() {
    let mut store = shuffled_game(None);
    assert_eq!(
        run(&mut store, "mallory", ExecuteMsg::Shuffle { game_id: 1, callback: None }),
        Err(ContractError::Unauthorized)
    );
    assert_eq!(
        run(&mut store, "owner", ExecuteMsg::Shuffle { game_id: 9, callback: None }),
        Err(ContractError::GameNotFound { game_id: 9 })
    );
    assert_eq!(
        run(&mut store, "owner", ExecuteMsg::Register { game_id: 1, callback: None }),
        Err(ContractError::InvalidState {
            game_id: 1,
            expected: BaseState::Created,
            actual: BaseState::Shuffle
        })
    );
    assert_eq!(
        run(
            &mut store,
            "player0",
            ExecuteMsg::PlayerShuffle {
                game_id: 1,
                proof: dummy_proof(),
                deck: zero_compressed_deck(DeckConfig::Deck5Card)
            }
        ),
        Ok(0)
    );
    assert_eq!(
        run(
            &mut store,
            "player0",
            ExecuteMsg::PlayerShuffle {
                game_id: 1,
                proof: dummy_proof(),
                deck: zero_compressed_deck(DeckConfig::Deck5Card)
            }
        ),
        Err(ContractError::NotPlayersTurn { game_id: 1 })
    );
    assert_eq!(
        run(
            &mut store,
            "player1",
            ExecuteMsg::PlayerShuffle {
                game_id: 1,
                proof: dummy_proof(),
                deck: zero_compressed_deck(DeckConfig::Deck30Card)
            }
        ),
        Err(ContractError::Deck(DeckError::ConfigMismatch))
    );
    assert_eq!(
        run(&mut store, "owner", ExecuteMsg::DealCardsTo {
            game_id: 1,
            cards: BitMap256::zero(),
            player_id: 0,
            callback: None
        }),
        Err(ContractError::NotPlayersTurn { game_id: 1 })
    );
}

#[test]
fn player_and_selection_errors() {
    let mut store = instantiate_contract();
    assert_eq!(
        run(&mut store, "owner", ExecuteMsg::CreateGame { num_players: 0, deck_config: DeckConfig::Deck5Card }),
        Err(ContractError::InvalidPlayer)
    );
    assert_eq!(store.config.next_game_id, 0);
    let mut store = shuffled_game(None);
    assert_eq!(
        run(&mut store, "owner", ExecuteMsg::DealCardsTo {
            game_id: 1,
            cards: BitMap256::zero(),
            player_id: 2,
            callback: None
        }),
        Err(ContractError::InvalidPlayer)
    );
    assert_eq!(
        run(&mut store, "owner", ExecuteMsg::OpenCards { game_id: 1, player_id: 0, opening: 1, callback: None }),
        Err(ContractError::InvalidCardSelection)
    );
    let mut cards = BitMap256::zero();
    cards.set(0);
    run(&mut store, "owner", ExecuteMsg::DealCardsTo { game_id: 1, cards, player_id: 0, callback: None })
        .unwrap();
    assert_eq!(
        run(
            &mut store,
            "player1",
            ExecuteMsg::PlayerDealCards {
                game_id: 1,
                proofs: vec![],
                decrypted_cards: vec![],
                init_deltas: vec![],
            }
        ),
        Err(ContractError::InvalidCardSelection)
    );
}

#[test]
fn registration_checks() {
    let mut store = instantiate_contract();
    run(&mut store, "owner", ExecuteMsg::CreateGame { num_players: 1, deck_config: DeckConfig::Deck30Card })
        .unwrap();
    let reg = |x: u128, y: u128| ExecuteMsg::PlayerRegister {
        game_id: 1,
        signing_addr: "s".to_string(),
        pk_x: U256::from_u128(x),
        pk_y: U256::from_u128(y),
    };
    assert_eq!(
        run(&mut store, "p", reg(0, 1)),
        Err(ContractError::InvalidState {
            game_id: 1,
            expected: BaseState::Registration,
            actual: BaseState::Created
        })
    );
    run(&mut store, "owner", ExecuteMsg::Register { game_id: 1, callback: None }).unwrap();
    assert_eq!(run(&mut store, "p", reg(123, 456)), Err(ContractError::InvalidPlayer));
    assert_eq!(run(&mut store, "p", reg(0, 1)), Ok(0));
    assert_eq!(run(&mut store, "q", reg(0, 1)), Err(ContractError::GameFull { game_id: 1 }));
    assert_eq!(store.games[0].state.aggregate_pk_y, U256::one());
    assert_eq!(store.games[0].info.encrypt_verifier, "deck30");
}

#[test]
fn end_game_and_error_commands() {
    let mut store = shuffled_game(None);
    assert_eq!(run(&mut store, "owner", ExecuteMsg::Error { game_id: 1, callback: Some(vec![9]) }), Ok(1));
    assert_eq!(store.games[0].state.state, BaseState::GameError);
    assert!(store.games[0].callback.is_none());
    assert_eq!(run(&mut store, "owner", ExecuteMsg::EndGame { game_id: 1 }), Ok(0));
    assert_eq!(store.games[0].state.state, BaseState::Complete);
    assert!(store.games[0].owner.is_none());
    assert_eq!(
        run(&mut store, "owner", ExecuteMsg::EndGame { game_id: 1 }),
        Err(ContractError::GameNotFound { game_id: 1 })
    );
}

#[test]
fn queries_project_the_state() {
    let mut store = shuffled_game(None);
    match query(&store, QueryMsg::NumCards { game_id: 1 }).unwrap() {
        QueryResponse::NumCards(r) => assert_eq!(r.count, 5),
        _ => panic!("wrong answer"),
    }
    match query(&store, QueryMsg::PlayerIndex { game_id: 1, address: "player1-sign".to_string() }).unwrap() {
        QueryResponse::PlayerIndex(r) => assert_eq!(r.index, Some(1)),
        _ => panic!("wrong answer"),
    }
    match query(&store, QueryMsg::PlayerIndex { game_id: 1, address: "nobody".to_string() }).unwrap() {
        QueryResponse::PlayerIndex(r) => assert_eq!(r.index, None),
        _ => panic!("wrong answer"),
    }
    assert!(query(&store, QueryMsg::GameInfo { game_id: 2 }).is_err());
    assert_eq!(
        query(&store, QueryMsg::DecryptRecord { game_id: 1, card_index: 5 }).unwrap_err(),
        ContractError::InvalidCardIndex
    );
    let mut cards = BitMap256::zero();
    cards.set(3);
    run(&mut store, "owner", ExecuteMsg::DealCardsTo { game_id: 1, cards, player_id: 0, callback: None })
        .unwrap();
    let table = zk_shuffle::deck::initial_x1_values();
    run(
        &mut store,
        "player1",
        ExecuteMsg::PlayerDealCards {
            game_id: 1,
            proofs: vec![dummy_proof()],
            decrypted_cards: vec![Card { x: table[2], y: U256::one() }],
            init_deltas: vec![unit_delta()],
        },
    )
    .unwrap();
    match query(&store, QueryMsg::CardValue { game_id: 1, card_index: 3 }).unwrap() {
        QueryResponse::CardValue(r) => assert_eq!(r.value, None),
        _ => panic!("wrong answer"),
    }
    run(&mut store, "owner", ExecuteMsg::OpenCards { game_id: 1, player_id: 0, opening: 1, callback: None })
        .unwrap();
    run(
        &mut store,
        "player0",
        ExecuteMsg::PlayerOpenCards {
            game_id: 1,
            cards,
            proofs: vec![dummy_proof()],
            decrypted_cards: vec![Card { x: table[2], y: U256::one() }],
        },
    )
    .unwrap();
    match query(&store, QueryMsg::CardValue { game_id: 1, card_index: 3 }).unwrap() {
        QueryResponse::CardValue(r) => assert_eq!(r.value, Some(2)),
        _ => panic!("wrong answer"),
    }
    match query(&store, QueryMsg::DecryptRecord { game_id: 1, card_index: 3 }).unwrap() {
        QueryResponse::DecryptRecord(r) => assert_eq!(r.bitmap.data, U256::from_u128(3)),
        _ => panic!("wrong answer"),
    }
}

#[test]
fn created_game_starts_fresh() {
    let mut store = instantiate_contract();
    run(&mut store, "owner", ExecuteMsg::CreateGame { num_players: 3, deck_config: DeckConfig::Deck30Card })
        .unwrap();
    assert_eq!(store.config.next_game_id, 1);
    let rec = &store.games[0];
    assert_eq!(rec.owner.as_deref(), Some("owner"));
    assert!(rec.callback.is_none());
    assert_eq!(rec.info.num_cards, 30);
    assert_eq!(rec.info.num_players, 3);
    let st = &rec.state;
    assert_eq!(st.state, BaseState::Created);
    assert!(st.nonce.is_zero() && st.aggregate_pk_x.is_zero() && st.aggregate_pk_y.is_zero());
    assert_eq!(st.player_hand, vec![0, 0, 0]);
    assert!(st.player_addrs.is_empty() && st.player_pk_x.is_empty());
    let table = zk_shuffle::deck::initial_x1_values();
    for i in 0..30 {
        assert!(st.deck.x0[i].is_zero() && st.deck.y0[i].is_zero() && st.deck.y1[i].is_zero());
        assert_eq!(st.deck.x1[i], table[i]);
    }
    assert_eq!(st.deck.selector0.data, U256::from_u128(4503599627370495u128 >> 22));
    assert_eq!(st.deck.player_to_deal, 0);
}
