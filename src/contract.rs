//! The coordinator: the persisted games and the commands that move them
//! through their phases. Every command either succeeds or leaves the store
//! as it was.
use crate::bitmaps::{bits_below, lemma_bits_below_counts, members_below, with_bit, BitMap256};
use crate::deck::{
    bitmap_values, card_index_from_x1, copy_values, init_x1, resized, shuffle_public_input,
    values, Deck, SELECTOR0_BASE, SELECTOR1_BASE,
};
use crate::error::{ContractError, DeckError, FieldError};
use crate::msg::{
    AggregatedPkResponse, CardValueResponse, DecryptRecordResponse, DeckResponse, ExecuteMsg,
    GameInfoResponse, GameStateResponse, InstantiateMsg, NumCardsResponse, PlayerIndexResponse,
    QueryMsg, QueryResponse,
};
use crate::state::{Config, GameInfo, ShuffleGameState, deck_verifier_of};
use crate::curve::{
    baby_jub_q, is_on_curve, mul_mod_q, on_curve, point_add, point_add_spec, recover_y,
    recover_y_spec,
};
use crate::types::{
    num_cards_of, BaseState, Card, CardDelta, CompressedDeck, DeckConfig, Groth16Proof,
};
use crate::uint::{bit_of, U256};
use vstd::prelude::*;

verus! {

/// An outbound message: the stored callback, sent to the game's owner.
#[derive(Clone, Debug)]
pub struct CallbackMsg {
    pub contract_addr: String,
    pub msg: Vec<u8>,
}

/// What a successful command sends out.
#[derive(Clone, Debug)]
pub struct Response {
    pub messages: Vec<CallbackMsg>,
}

/// The four records kept per game: static info, state, the owner while the
/// game is active, and the callback waiting for the next phase's end.
#[derive(Clone, Debug)]
pub struct GameRecord {
    pub info: GameInfo,
    pub state: ShuffleGameState,
    pub owner: Option<String>,
    pub callback: Option<Vec<u8>>,
}

/// Everything the coordinator persists; game `id` is `games[id - 1]`.
#[derive(Clone, Debug)]
pub struct Store {
    pub config: Config,
    pub games: Vec<GameRecord>,
}

impl GameRecord {
    /// The shape every game keeps: arrays sized by the game's kind and
    /// player count, and a turn index that fits a bitmap.
    pub open spec fn wf(&self) -> bool {
        let st = self.state;
        let n = st.player_addrs@.len();
        &&& self.info.num_cards == num_cards_of(self.info.deck_config)
        &&& st.deck.wf()
        &&& st.deck.config == self.info.deck_config
        &&& st.player_hand@.len() == self.info.num_players
        &&& st.signing_addrs@.len() == n
        &&& st.player_pk_x@.len() == n
        &&& st.player_pk_y@.len() == n
        &&& n <= self.info.num_players
        &&& st.cur_player_index < 256
        &&& forall|i: int| 0 <= i < n ==> on_curve((#[trigger] st.player_pk_x@[i])@, st.player_pk_y@[i]@)
        &&& (st.aggregate_pk_x@, st.aggregate_pk_y@) == aggregate_of(st.player_pk_x@, st.player_pk_y@)
        &&& (self.owner is None) == (st.state == BaseState::Complete)
        &&& self.owner is None ==> self.callback is None
    }
}

/// The sum of the registered keys, from the empty accumulator (0, 0).
pub open spec fn aggregate_of(xs: Seq<U256>, ys: Seq<U256>) -> (nat, nat)
    decreases xs.len(),
{
    if xs.len() == 0 || ys.len() == 0 {
        (0, 0)
    } else {
        let prev = aggregate_of(xs.drop_last(), ys.drop_last());
        match point_add_spec(prev.0, prev.1, xs.last()@, ys.last()@) {
            Ok(p) => p,
            Err(_) => prev,
        }
    }
}

impl Store {
    /// Game ids are handed out in order, and every game is well formed.
    pub open spec fn wf(&self) -> bool {
        &&& self.config.next_game_id == self.games@.len()
        &&& forall|i: int| 0 <= i < self.games@.len() ==> (#[trigger] self.games@[i]).wf()
    }
}

/// Whether a game with this id was created.
pub open spec fn has_game(s: Store, id: u64) -> bool {
    1 <= id <= s.games@.len()
}

/// The records of game `id`.
pub open spec fn game(s: Store, id: u64) -> GameRecord {
    s.games@[id - 1]
}

/// The store `o` with game `id` replaced by `rec`.
pub open spec fn with_game(o: Store, n: Store, id: u64, rec: GameRecord) -> bool {
    n.config == o.config && n.games@ == o.games@.update(id - 1, rec)
}

/// The error of an owner command's authorization, if any.
pub open spec fn owner_error(s: Store, id: u64, sender: String) -> Option<ContractError> {
    if !has_game(s, id) {
        Some(ContractError::GameNotFound { game_id: id })
    } else {
        match game(s, id).owner {
            None => Some(ContractError::GameNotFound { game_id: id }),
            Some(o) => if o@ == sender@ {
                None
            } else {
                Some(ContractError::Unauthorized)
            },
        }
    }
}

/// A result with no outbound message.
pub open spec fn silent(r: Result<Response, ContractError>) -> bool {
    r is Ok && r->Ok_0.messages@.len() == 0
}

/// Sets up an empty store with the given verifiers.
pub fn instantiate(msg: InstantiateMsg) -> (r: Store)
    ensures
        r.wf(),
        r.games@.len() == 0,
        r.config.decrypt_verifier == msg.decrypt_verifier,
        r.config.deck5_verifier == msg.deck5_verifier,
        r.config.deck30_verifier == msg.deck30_verifier,
        r.config.deck52_verifier == msg.deck52_verifier,
{
    Store {
        config: Config {
            decrypt_verifier: msg.decrypt_verifier,
            deck5_verifier: msg.deck5_verifier,
            deck30_verifier: msg.deck30_verifier,
            deck52_verifier: msg.deck52_verifier,
            next_game_id: 0,
        },
        games: Vec::new(),
    }
}

/// Index of a game's records, after the owner check.
fn ensure_game_owner(store: &Store, game_id: u64, sender: &String) -> (r: Result<
    usize,
    ContractError,
>)
    ensures
        match owner_error(*store, game_id, *sender) {
            Some(e) => r == Err::<usize, ContractError>(e),
            None => r is Ok && r->Ok_0 as int == game_id - 1 && has_game(*store, game_id),
        },
{
    if game_id == 0 || game_id > store.games.len() as u64 {
        return Err(ContractError::GameNotFound { game_id });
    }
    let idx = (game_id - 1) as usize;
    match &store.games[idx].owner {
        None => Err(ContractError::GameNotFound { game_id }),
        Some(o) => {
            if *o == *sender {
                Ok(idx)
            } else {
                Err(ContractError::Unauthorized)
            }
        },
    }
}

/// Index of a game's records.
fn load_game(store: &Store, game_id: u64) -> (r: Result<usize, ContractError>)
    ensures
        has_game(*store, game_id) ==> r is Ok && r->Ok_0 as int == game_id - 1,
        !has_game(*store, game_id) ==> r == Err::<usize, ContractError>(
            ContractError::GameNotFound { game_id },
        ),
{
    if game_id == 0 || game_id > store.games.len() as u64 {
        return Err(ContractError::GameNotFound { game_id });
    }
    Ok((game_id - 1) as usize)
}

/// Replaces the records at `idx`.
fn put_game(store: &mut Store, idx: usize, rec: GameRecord)
    requires
        idx < old(store).games@.len(),
    ensures
        final(store).config == old(store).config,
        final(store).games@ == old(store).games@.update(idx as int, rec),
{
    let _ = store.games.remove(idx);
    store.games.insert(idx, rec);
    proof {
        assert(store.games@ =~= old(store).games@.update(idx as int, rec));
    }
}

/// Takes the records at `idx` out, leaving the rest in place.
fn take_game(store: &mut Store, idx: usize) -> (rec: GameRecord)
    requires
        idx < old(store).games@.len(),
    ensures
        rec == old(store).games@[idx as int],
        final(store).config == old(store).config,
        final(store).games@ == old(store).games@.remove(idx as int),
{
    store.games.remove(idx)
}

/// Puts records taken by `take_game` back at `idx`.
fn restore_game(store: &mut Store, idx: usize, rec: GameRecord)
    requires
        idx <= old(store).games@.len(),
    ensures
        final(store).config == old(store).config,
        final(store).games@ == old(store).games@.insert(idx as int, rec),
{
    store.games.insert(idx, rec);
}

/// What `execute_create_game` does: its result and the store after it.
pub open spec fn create_game_outcome(
    pre: Store,
    post: Store,
    sender: String,
    num_players: u8,
    deck_config: DeckConfig,
    r: Result<Response, ContractError>,
) -> bool {
    &&& (num_players == 0 ==> r == Err::<Response, ContractError>(ContractError::InvalidPlayer)
        && post == pre)
    &&& (num_players != 0 ==> {
        let id = (pre.config.next_game_id + 1) as u64;
        let rec = post.games@.last();
        &&& silent(r)
        &&& post.config.next_game_id == id
        &&& post.games@ == pre.games@.push(rec)
        &&& game(post, id) == rec
        &&& rec.info.deck_config == deck_config
        &&& rec.info.num_cards == num_cards_of(deck_config)
        &&& rec.info.num_players == num_players
        &&& rec.info.encrypt_verifier == deck_verifier_of(pre.config, deck_config)
        &&& rec.owner == Some(sender)
        &&& rec.callback.is_none()
        &&& rec.state.state == BaseState::Created
        &&& rec.state.cur_player_index == 0
        &&& rec.state.opening == 0
        &&& rec.state.aggregate_pk_x@ == 0
        &&& rec.state.aggregate_pk_y@ == 0
        &&& rec.state.nonce@ == 0
        &&& rec.state.player_addrs@.len() == 0
        &&& rec.state.signing_addrs@.len() == 0
        &&& rec.state.player_pk_x@.len() == 0
        &&& rec.state.player_pk_y@.len() == 0
        &&& rec.state.player_hand@ == Seq::new(num_players as nat, |i: int| 0u32)
        &&& rec.state.deck.config == deck_config
        &&& values(rec.state.deck.x0@) == Seq::new(num_cards_of(deck_config), |i: int| 0nat)
        &&& values(rec.state.deck.y0@) == Seq::new(num_cards_of(deck_config), |i: int| 0nat)
        &&& values(rec.state.deck.y1@) == Seq::new(num_cards_of(deck_config), |i: int| 0nat)
        &&& values(rec.state.deck.x1@) == init_x1().subrange(0, num_cards_of(deck_config) as int)
        &&& rec.state.deck.selector0.data@ == SELECTOR0_BASE >> ((52 - num_cards_of(deck_config))
            as u128)
        &&& rec.state.deck.selector1.data@ == SELECTOR1_BASE >> ((52 - num_cards_of(deck_config))
            as u128)
        &&& rec.state.deck.cards_to_deal.data@ == 0
        &&& rec.state.deck.player_to_deal == 0
        &&& forall|i: int|
            0 <= i < num_cards_of(deck_config) ==> (
            #[trigger] rec.state.deck.decrypt_record@[i]).data@ == 0
        &&& post.config.decrypt_verifier == pre.config.decrypt_verifier
        &&& post.config.deck5_verifier == pre.config.deck5_verifier
        &&& post.config.deck30_verifier == pre.config.deck30_verifier
        &&& post.config.deck52_verifier == pre.config.deck52_verifier
    })
}

/// Creates a game of `num_players` players and the given deck kind, owned
/// by `sender`; its id is the next one.
pub fn execute_create_game(
    store: &mut Store,
    sender: &String,
    num_players: u8,
    deck_config: DeckConfig,
) -> (r: Result<Response, ContractError>)
    requires
        old(store).wf(),
        old(store).games@.len() < u64::MAX,
    ensures
        final(store).wf(),
        create_game_outcome(
            *old(store),
            *final(store),
            *sender,
            num_players,
            deck_config,
            r,
        ),
{
    if num_players == 0 {
        return Err(ContractError::InvalidPlayer);
    }
    let game_id = store.config.next_game_id + 1;
    let encrypt_verifier = store.config.deck_verifier(deck_config);
    let num_cards = deck_config.num_cards() as u8;
    let info = GameInfo { deck_config, num_cards, num_players, encrypt_verifier };
    let state = ShuffleGameState::new(deck_config, num_players);
    let rec = GameRecord { info, state, owner: Some(sender.clone()), callback: None };
    store.config.next_game_id = game_id;
    store.games.push(rec);
    proof {
        assert forall|i: int| 0 <= i < store.games@.len() implies (
        #[trigger] store.games@[i]).wf() by {
            if i < old(store).games@.len() {
                assert(store.games@[i] == old(store).games@[i]);
            }
        }
    }
    Ok(Response { messages: Vec::new() })
}

/// What `execute_register` does: its result and the store after it.
pub open spec fn register_outcome(
    pre: Store,
    post: Store,
    sender: String,
    game_id: u64,
    callback: Option<Vec<u8>>,
    r: Result<Response, ContractError>,
) -> bool {
    match owner_error(pre, game_id, sender) {
        Some(e) => r == Err::<Response, ContractError>(e) && post == pre,
        None => {
            let rec = game(pre, game_id);
            if rec.state.state != BaseState::Created {
                &&& r == Err::<Response, ContractError>(
                    ContractError::InvalidState {
                        game_id,
                        expected: BaseState::Created,
                        actual: rec.state.state,
                    },
                )
                &&& post == pre
            } else {
                &&& silent(r)
                &&& with_game(
                    pre,
                    post,
                    game_id,
                    GameRecord {
                        state: ShuffleGameState { state: BaseState::Registration, ..rec.state },
                        callback,
                        ..rec
                    },
                )
            }
        },
    }
}

/// Opens registration: phase Created → Registration, storing the callback.
pub fn execute_register(
    store: &mut Store,
    sender: &String,
    game_id: u64,
    callback: Option<Vec<u8>>,
) -> (r: Result<Response, ContractError>)
    requires
        old(store).wf(),
    ensures
        final(store).wf(),
        register_outcome(
            *old(store),
            *final(store),
            *sender,
            game_id,
            callback,
            r,
        ),
{
    let idx = match ensure_game_owner(store, game_id, sender) {
        Ok(i) => i,
        Err(e) => {
            return Err(e);
        },
    };
    let actual = store.games[idx].state.state;
    if actual != BaseState::Created {
        return Err(ContractError::InvalidState { game_id, expected: BaseState::Created, actual });
    }
    let mut rec = take_game(store, idx);
    rec.state.state = BaseState::Registration;
    rec.callback = callback;
    restore_game(store, idx, rec);
    proof {
        assert(store.games@ =~= old(store).games@.update(idx as int, rec));
        assert(store.games@[idx as int].wf());
    }
    Ok(Response { messages: Vec::new() })
}

/// The message a phase's end sends: the stored callback, to the owner.
pub open spec fn callback_messages(owner: Option<String>, callback: Option<Vec<u8>>) -> Seq<
    CallbackMsg,
> {
    match (callback, owner) {
        (Some(cb), Some(o)) => seq![CallbackMsg { contract_addr: o, msg: cb }],
        _ => seq![],
    }
}

/// Whether dispatching the callback fails: one is stored but the game has no owner.
pub open spec fn dispatch_fails(rec: GameRecord) -> bool {
    rec.callback is Some && rec.owner is None
}

/// Clears the stored callback and returns the message that carries it.
fn take_callback_msg(rec: &mut GameRecord, game_id: u64) -> (r: Result<
    Vec<CallbackMsg>,
    ContractError,
>)
    ensures
        dispatch_fails(*old(rec)) ==> r == Err::<Vec<CallbackMsg>, ContractError>(
            ContractError::GameNotFound { game_id },
        ) && *final(rec) == *old(rec),
        !dispatch_fails(*old(rec)) ==> r is Ok && r->Ok_0@ == callback_messages(
            old(rec).owner,
            old(rec).callback,
        ) && *final(rec) == (GameRecord { callback: None, ..*old(rec) }),
{
    if rec.callback.is_none() {
        return Ok(Vec::new());
    }
    let target = match &rec.owner {
        None => {
            return Err(ContractError::GameNotFound { game_id });
        },
        Some(o) => o.clone(),
    };
    let mut messages: Vec<CallbackMsg> = Vec::new();
    match rec.callback.take() {
        Some(msg) => {
            messages.push(CallbackMsg { contract_addr: target, msg });
        },
        None => {},
    }
    proof {
        assert(messages@ =~= callback_messages(old(rec).owner, old(rec).callback));
    }
    Ok(messages)
}

/// What `execute_shuffle` does: its result and the store after it.
pub open spec fn shuffle_outcome(
    pre: Store,
    post: Store,
    sender: String,
    game_id: u64,
    callback: Option<Vec<u8>>,
    r: Result<Response, ContractError>,
) -> bool {
    match owner_error(pre, game_id, sender) {
        Some(e) => r == Err::<Response, ContractError>(e) && post == pre,
        None => {
            let rec = game(pre, game_id);
            if rec.state.cur_player_index != 0 {
                &&& r == Err::<Response, ContractError>(
                    ContractError::NotPlayersTurn { game_id },
                )
                &&& post == pre
            } else {
                &&& silent(r)
                &&& with_game(
                    pre,
                    post,
                    game_id,
                    GameRecord {
                        state: ShuffleGameState { state: BaseState::Shuffle, ..rec.state },
                        callback,
                        ..rec
                    },
                )
            }
        },
    }
}

/// Opens the shuffle phase; the turn must be back at player 0.
pub fn execute_shuffle(
    store: &mut Store,
    sender: &String,
    game_id: u64,
    callback: Option<Vec<u8>>,
) -> (r: Result<Response, ContractError>)
    requires
        old(store).wf(),
    ensures
        final(store).wf(),
        shuffle_outcome(
            *old(store),
            *final(store),
            *sender,
            game_id,
            callback,
            r,
        ),
{
    let idx = match ensure_game_owner(store, game_id, sender) {
        Ok(i) => i,
        Err(e) => {
            return Err(e);
        },
    };
    if store.games[idx].state.cur_player_index != 0 {
        return Err(ContractError::NotPlayersTurn { game_id });
    }
    let mut rec = take_game(store, idx);
    rec.state.state = BaseState::Shuffle;
    rec.callback = callback;
    restore_game(store, idx, rec);
    proof {
        assert(store.games@ =~= old(store).games@.update(idx as int, rec));
        assert(store.games@[idx as int].wf());
    }
    Ok(Response { messages: Vec::new() })
}

/// What `execute_deal_cards_to` does: its result and the store after it.
pub open spec fn deal_cards_to_outcome(
    pre: Store,
    post: Store,
    sender: String,
    game_id: u64,
    cards: BitMap256,
    player_id: u32,
    callback: Option<Vec<u8>>,
    r: Result<Response, ContractError>,
) -> bool {
    match owner_error(pre, game_id, sender) {
        Some(e) => r == Err::<Response, ContractError>(e) && post == pre,
        None => {
            let rec = game(pre, game_id);
            if rec.state.cur_player_index != 0 {
                &&& r == Err::<Response, ContractError>(
                    ContractError::NotPlayersTurn { game_id },
                )
                &&& post == pre
            } else if player_id >= rec.info.num_players {
                &&& r == Err::<Response, ContractError>(ContractError::InvalidPlayer)
                &&& post == pre
            } else {
                &&& silent(r)
                &&& with_game(
                    pre,
                    post,
                    game_id,
                    GameRecord {
                        state: ShuffleGameState {
                            state: BaseState::Deal,
                            cur_player_index: if player_id == 0 && rec.info.num_players > 1 {
                                1
                            } else {
                                0
                            },
                            deck: Deck {
                                cards_to_deal: cards,
                                player_to_deal: player_id,
                                ..rec.state.deck
                            },
                            ..rec.state
                        },
                        callback,
                        ..rec
                    },
                )
            }
        },
    }
}

/// Starts dealing the cards of `cards` to player `player_id`; the turn must
/// be at player 0, and the first to decrypt is player 1 when the target is
/// player 0 and there are others.
pub fn execute_deal_cards_to(
    store: &mut Store,
    sender: &String,
    game_id: u64,
    cards: BitMap256,
    player_id: u32,
    callback: Option<Vec<u8>>,
) -> (r: Result<Response, ContractError>)
    requires
        old(store).wf(),
    ensures
        final(store).wf(),
        deal_cards_to_outcome(
            *old(store),
            *final(store),
            *sender,
            game_id,
            cards,
            player_id,
            callback,
            r,
        ),
{
    let idx = match ensure_game_owner(store, game_id, sender) {
        Ok(i) => i,
        Err(e) => {
            return Err(e);
        },
    };
    if store.games[idx].state.cur_player_index != 0 {
        return Err(ContractError::NotPlayersTurn { game_id });
    }
    let num_players = store.games[idx].info.num_players;
    if player_id >= num_players as u32 {
        return Err(ContractError::InvalidPlayer);
    }
    let mut rec = take_game(store, idx);
    rec.state.state = BaseState::Deal;
    rec.state.deck.cards_to_deal = cards;
    rec.state.deck.player_to_deal = player_id;
    if player_id == 0 && num_players > 1 {
        rec.state.cur_player_index = 1;
    } else {
        rec.state.cur_player_index = 0;
    }
    rec.callback = callback;
    restore_game(store, idx, rec);
    proof {
        assert(store.games@ =~= old(store).games@.update(idx as int, rec));
        assert(store.games@[idx as int].wf());
    }
    Ok(Response { messages: Vec::new() })
}

/// What `execute_open_cards` does: its result and the store after it.
pub open spec fn open_cards_outcome(
    pre: Store,
    post: Store,
    sender: String,
    game_id: u64,
    player_id: u32,
    opening: u8,
    callback: Option<Vec<u8>>,
    r: Result<Response, ContractError>,
) -> bool {
    match owner_error(pre, game_id, sender) {
        Some(e) => r == Err::<Response, ContractError>(e) && post == pre,
        None => {
            let rec = game(pre, game_id);
            if player_id >= rec.info.num_players {
                &&& r == Err::<Response, ContractError>(ContractError::InvalidPlayer)
                &&& post == pre
            } else if opening > rec.state.player_hand@[player_id as int] {
                &&& r == Err::<Response, ContractError>(ContractError::InvalidCardSelection)
                &&& post == pre
            } else {
                &&& silent(r)
                &&& with_game(
                    pre,
                    post,
                    game_id,
                    GameRecord {
                        state: ShuffleGameState {
                            state: BaseState::Open,
                            opening,
                            cur_player_index: player_id,
                            ..rec.state
                        },
                        callback,
                        ..rec
                    },
                )
            }
        },
    }
}

/// Asks player `player_id` to open `opening` of the cards in their hand.
pub fn execute_open_cards(
    store: &mut Store,
    sender: &String,
    game_id: u64,
    player_id: u32,
    opening: u8,
    callback: Option<Vec<u8>>,
) -> (r: Result<Response, ContractError>)
    requires
        old(store).wf(),
    ensures
        final(store).wf(),
        open_cards_outcome(
            *old(store),
            *final(store),
            *sender,
            game_id,
            player_id,
            opening,
            callback,
            r,
        ),
{
    let idx = match ensure_game_owner(store, game_id, sender) {
        Ok(i) => i,
        Err(e) => {
            return Err(e);
        },
    };
    if player_id >= store.games[idx].info.num_players as u32 {
        return Err(ContractError::InvalidPlayer);
    }
    proof {
        assert(store.games@[idx as int].wf());
    }
    if opening as u32 > store.games[idx].state.player_hand[player_id as usize] {
        return Err(ContractError::InvalidCardSelection);
    }
    let mut rec = take_game(store, idx);
    rec.state.state = BaseState::Open;
    rec.state.opening = opening;
    rec.state.cur_player_index = player_id;
    rec.callback = callback;
    restore_game(store, idx, rec);
    proof {
        assert(store.games@ =~= old(store).games@.update(idx as int, rec));
        assert(store.games@[idx as int].wf());
    }
    Ok(Response { messages: Vec::new() })
}

/// What `execute_end_game` does: its result and the store after it.
pub open spec fn end_game_outcome(
    pre: Store,
    post: Store,
    sender: String,
    game_id: u64,
    r: Result<Response, ContractError>,
) -> bool {
    match owner_error(pre, game_id, sender) {
        Some(e) => r == Err::<Response, ContractError>(e) && post == pre,
        None => {
            let rec = game(pre, game_id);
            &&& silent(r)
            &&& with_game(
                pre,
                post,
                game_id,
                GameRecord {
                    state: ShuffleGameState { state: BaseState::Complete, ..rec.state },
                    owner: None,
                    callback: None,
                    ..rec
                },
            )
        },
    }
}

/// Ends the game: phase Complete; the owner and the stored callback are dropped.
pub fn execute_end_game(store: &mut Store, sender: &String, game_id: u64) -> (r: Result<
    Response,
    ContractError,
>)
    requires
        old(store).wf(),
    ensures
        final(store).wf(),
        end_game_outcome(
            *old(store),
            *final(store),
            *sender,
            game_id,
            r,
        ),
{
    let idx = match ensure_game_owner(store, game_id, sender) {
        Ok(i) => i,
        Err(e) => {
            return Err(e);
        },
    };
    let mut rec = take_game(store, idx);
    rec.state.state = BaseState::Complete;
    rec.owner = None;
    rec.callback = None;
    restore_game(store, idx, rec);
    proof {
        assert(store.games@ =~= old(store).games@.update(idx as int, rec));
        assert(store.games@[idx as int].wf());
    }
    Ok(Response { messages: Vec::new() })
}

/// What `execute_error` does: its result and the store after it.
pub open spec fn error_outcome(
    pre: Store,
    post: Store,
    sender: String,
    game_id: u64,
    callback: Option<Vec<u8>>,
    r: Result<Response, ContractError>,
) -> bool {
    match owner_error(pre, game_id, sender) {
        Some(e) => r == Err::<Response, ContractError>(e) && post == pre,
        None => {
            let rec = game(pre, game_id);
            &&& r is Ok
            &&& r->Ok_0.messages@ == callback_messages(rec.owner, callback)
            &&& with_game(
                pre,
                post,
                game_id,
                GameRecord {
                    state: ShuffleGameState { state: BaseState::GameError, ..rec.state },
                    callback: None,
                    ..rec
                },
            )
        },
    }
}

/// Marks the game failed and sends `callback` to the owner at once.
pub fn execute_error(
    store: &mut Store,
    sender: &String,
    game_id: u64,
    callback: Option<Vec<u8>>,
) -> (r: Result<Response, ContractError>)
    requires
        old(store).wf(),
    ensures
        final(store).wf(),
        error_outcome(
            *old(store),
            *final(store),
            *sender,
            game_id,
            callback,
            r,
        ),
{
    let idx = match ensure_game_owner(store, game_id, sender) {
        Ok(i) => i,
        Err(e) => {
            return Err(e);
        },
    };
    let mut rec = take_game(store, idx);
    rec.state.state = BaseState::GameError;
    rec.callback = callback;
    let messages = match take_callback_msg(&mut rec, game_id) {
        Ok(m) => m,
        Err(e) => {
            proof {
                assert(false);
            }
            Vec::new()
        },
    };
    restore_game(store, idx, rec);
    proof {
        assert(store.games@ =~= old(store).games@.update(idx as int, rec));
        assert(store.games@[idx as int].wf());
    }
    Ok(Response { messages })
}

/// Whether slot `i` is among those `mask` selects in a deck of `n` cards.
pub open spec fn selected(mask: BitMap256, n: nat, i: int) -> bool {
    0 <= i < n && bit_of(mask.data@, i as nat)
}

/// Position of slot `i`'s entry in the arrays sent with a decryption.
pub open spec fn entry_of(mask: BitMap256, i: int) -> int {
    bits_below(mask.data@, i as nat) as int
}

/// Why player `cur` cannot decrypt slot `i`, if they cannot: they already
/// did, or the slot's first decryption cannot recover its y-coordinates.
pub open spec fn slot_error(deck: Deck, i: int, cur: nat, delta: (nat, nat)) -> Option<
    ContractError,
> {
    let record = deck.decrypt_record@[i].data@;
    if bit_of(record, cur) {
        Some(ContractError::AlreadyDecrypted)
    } else if record == 0 {
        match recover_y_spec(deck.x0@[i]@, delta.0, bit_of(deck.selector0.data@, i as nat)) {
            Err(e) => Some(ContractError::Field(e)),
            Ok(_) => match recover_y_spec(
                deck.x1@[i]@,
                delta.1,
                bit_of(deck.selector1.data@, i as nat),
            ) {
                Err(e) => Some(ContractError::Field(e)),
                Ok(_) => None,
            },
        }
    } else {
        None
    }
}

/// The first error among the selected slots from `i` on, in slot order.
pub open spec fn first_slot_error(
    deck: Deck,
    mask: BitMap256,
    n: nat,
    cur: nat,
    deltas: Seq<(nat, nat)>,
    i: int,
) -> Option<ContractError>
    decreases n - i,
{
    if i >= n || i < 0 {
        None
    } else if selected(mask, n, i) && slot_error(deck, i, cur, deltas[entry_of(mask, i)]) is Some {
        slot_error(deck, i, cur, deltas[entry_of(mask, i)])
    } else {
        first_slot_error(deck, mask, n, cur, deltas, i + 1)
    }
}

/// Slot `i` of `new` is slot `i` of `old` after player `cur` decrypted it to
/// `card`: on the first decryption y0 is recovered from `delta`; x1 and y1
/// become the card; the player joins the slot's record.
pub open spec fn slot_decrypted(
    old: Deck,
    new: Deck,
    i: int,
    cur: nat,
    card: Card,
    delta: (nat, nat),
) -> bool {
    let record = old.decrypt_record@[i].data@;
    &&& new.x0@[i] == old.x0@[i]
    &&& new.x1@[i]@ == card.x@
    &&& new.y1@[i]@ == card.y@
    &&& new.y0@[i]@ == if record == 0 {
        recover_y_spec(old.x0@[i]@, delta.0, bit_of(old.selector0.data@, i as nat))->Ok_0
    } else {
        old.y0@[i]@
    }
    &&& new.decrypt_record@[i].data@ == with_bit(record, cur)
    &&& forall|k: nat|
        k < 256 ==> #[trigger] bit_of(new.decrypt_record@[i].data@, k) == (k == cur || bit_of(
            record,
            k,
        ))
}

/// Slot `i` is the same in both decks.
pub open spec fn slot_kept(old: Deck, new: Deck, i: int) -> bool {
    &&& new.x0@[i] == old.x0@[i]
    &&& new.x1@[i] == old.x1@[i]
    &&& new.y0@[i] == old.y0@[i]
    &&& new.y1@[i] == old.y1@[i]
    &&& new.decrypt_record@[i] == old.decrypt_record@[i]
}

/// `new` is `old` with every selected slot decrypted by player `cur`, the
/// j-th selected slot taking the j-th card and delta.
pub open spec fn slots_decrypted(
    old: Deck,
    new: Deck,
    mask: BitMap256,
    n: nat,
    cur: nat,
    cards: Seq<Card>,
    deltas: Seq<(nat, nat)>,
) -> bool {
    &&& new.wf()
    &&& new.config == old.config
    &&& new.selector0 == old.selector0
    &&& new.selector1 == old.selector1
    &&& new.cards_to_deal == old.cards_to_deal
    &&& new.player_to_deal == old.player_to_deal
    &&& forall|i: int|
        0 <= i < n ==> if selected(mask, n, i) {
            slot_decrypted(old, new, i, cur, cards[entry_of(mask, i)], deltas[entry_of(mask, i)])
        } else {
            slot_kept(old, new, i)
        }
}

/// The compressed coordinates carried by each delta.
pub open spec fn delta_values(deltas: Seq<CardDelta>) -> Seq<(nat, nat)> {
    deltas.map_values(|d: CardDelta| (d.delta0@, d.delta1@))
}

/// Counting members is monotone, and a member adds one.
proof fn lemma_bits_below_step(v: nat, i: nat, n: nat)
    requires
        i < n,
    ensures
        bits_below(v, i) + (if bit_of(v, i) {
            1nat
        } else {
            0nat
        }) <= bits_below(v, n),
    decreases n - i,
{
    if i + 1 < n {
        lemma_bits_below_step(v, i + 1, n);
    }
}

/// There are no more members below n than n.
proof fn lemma_bits_below_le(v: nat, n: nat)
    ensures
        bits_below(v, n) <= n,
    decreases n,
{
    if n > 0 {
        lemma_bits_below_le(v, (n - 1) as nat);
    }
}

/// Why player `cur` cannot decrypt slot `i`, if they cannot.
fn check_slot(deck: &Deck, i: usize, cur: u32, delta: &CardDelta) -> (r: Option<ContractError>)
    requires
        deck.wf(),
        i < num_cards_of(deck.config),
        cur < 256,
    ensures
        r == slot_error(*deck, i as int, cur as nat, (delta.delta0@, delta.delta1@)),
{
    let record = deck.decrypt_record[i];
    if record.get(cur) {
        return Some(ContractError::AlreadyDecrypted);
    }
    if record.is_zero() {
        if let Err(e) = recover_y(&deck.x0[i], &delta.delta0, deck.selector0.get(i as u32)) {
            return Some(ContractError::Field(e));
        }
        if let Err(e) = recover_y(&deck.x1[i], &delta.delta1, deck.selector1.get(i as u32)) {
            return Some(ContractError::Field(e));
        }
    }
    None
}

/// Player `cur` decrypts slot `i` to `card`; the slot was checked.
fn update_decrypted_card(deck: &mut Deck, i: usize, cur: u32, card: &Card, delta: &CardDelta)
    requires
        old(deck).wf(),
        i < num_cards_of(old(deck).config),
        cur < 256,
        slot_error(*old(deck), i as int, cur as nat, (delta.delta0@, delta.delta1@)) is None,
    ensures
        final(deck).wf(),
        final(deck).config == old(deck).config,
        final(deck).selector0 == old(deck).selector0,
        final(deck).selector1 == old(deck).selector1,
        final(deck).cards_to_deal == old(deck).cards_to_deal,
        final(deck).player_to_deal == old(deck).player_to_deal,
        slot_decrypted(
            *old(deck),
            *final(deck),
            i as int,
            cur as nat,
            *card,
            (delta.delta0@, delta.delta1@),
        ),
        forall|j: int| 0 <= j < num_cards_of(old(deck).config) && j != i ==> slot_kept(*old(deck), *final(deck), j),
{
    let mut record = deck.decrypt_record[i];
    if record.is_zero() {
        let y0 = recover_y(&deck.x0[i], &delta.delta0, deck.selector0.get(i as u32));
        if let Ok(v) = y0 {
            deck.y0.set(i, v);
        }
    }
    deck.x1.set(i, card.x);
    deck.y1.set(i, card.y);
    record.set(cur);
    deck.decrypt_record.set(i, record);
}

/// The first slot selected by `mask` among the first `n` that player `cur`
/// cannot decrypt with the matching delta, as its error.
fn find_slot_error(
    deck: &Deck,
    mask: &BitMap256,
    n: u32,
    cur: u32,
    deltas: &Vec<CardDelta>,
) -> (r: Option<ContractError>)
    requires
        deck.wf(),
        n == num_cards_of(deck.config),
        cur < 256,
        deltas@.len() == bits_below(mask.data@, n as nat),
    ensures
        r == first_slot_error(*deck, *mask, n as nat, cur as nat, delta_values(deltas@), 0),
{
    let mut i: u32 = 0;
    let mut counter: usize = 0;
    while i < n
        invariant
            deck.wf(),
            n == num_cards_of(deck.config) <= 52,
            cur < 256,
            i <= n,
            counter == bits_below(mask.data@, i as nat),
            counter <= i,
            deltas@.len() == bits_below(mask.data@, n as nat),
            first_slot_error(*deck, *mask, n as nat, cur as nat, delta_values(deltas@), 0)
                == first_slot_error(
                *deck,
                *mask,
                n as nat,
                cur as nat,
                delta_values(deltas@),
                i as int,
            ),
        decreases n - i,
    {
        proof {
            lemma_bits_below_step(mask.data@, i as nat, n as nat);
        }
        if mask.get(i) {
            if let Some(e) = check_slot(deck, i as usize, cur, &deltas[counter]) {
                return Some(e);
            }
            counter = counter + 1;
        }
        i = i + 1;
    }
    None
}

/// Every slot selected by `mask` among the first `n` is decrypted by player
/// `cur`, the j-th selected slot taking the j-th card and delta; none of
/// them fails.
fn decrypt_cards(
    deck: &mut Deck,
    mask: &BitMap256,
    n: u32,
    cur: u32,
    cards: &Vec<Card>,
    deltas: &Vec<CardDelta>,
)
    requires
        old(deck).wf(),
        n == num_cards_of(old(deck).config),
        cur < 256,
        cards@.len() == bits_below(mask.data@, n as nat),
        deltas@.len() == bits_below(mask.data@, n as nat),
        first_slot_error(*old(deck), *mask, n as nat, cur as nat, delta_values(deltas@), 0) is None,
    ensures
        slots_decrypted(
            *old(deck),
            *final(deck),
            *mask,
            n as nat,
            cur as nat,
            cards@,
            delta_values(deltas@),
        ),
{
    let ghost start = *deck;
    let mut i: u32 = 0;
    let mut counter: usize = 0;
    while i < n
        invariant
            deck.wf(),
            start.wf(),
            start == *old(deck),
            n == num_cards_of(deck.config) <= 52,
            deck.config == start.config,
            deck.selector0 == start.selector0,
            deck.selector1 == start.selector1,
            deck.cards_to_deal == start.cards_to_deal,
            deck.player_to_deal == start.player_to_deal,
            cur < 256,
            i <= n,
            counter == bits_below(mask.data@, i as nat),
            counter <= i,
            cards@.len() == bits_below(mask.data@, n as nat),
            deltas@.len() == bits_below(mask.data@, n as nat),
            first_slot_error(start, *mask, n as nat, cur as nat, delta_values(deltas@), i as int) is None,
            forall|j: int|
                0 <= j < i ==> if selected(*mask, n as nat, j) {
                    slot_decrypted(
                        start,
                        *deck,
                        j,
                        cur as nat,
                        cards@[entry_of(*mask, j)],
                        delta_values(deltas@)[entry_of(*mask, j)],
                    )
                } else {
                    slot_kept(start, *deck, j)
                },
            forall|j: int| i <= j < n ==> slot_kept(start, *deck, j),
        decreases n - i,
    {
        proof {
            lemma_bits_below_step(mask.data@, i as nat, n as nat);
        }
        if mask.get(i) {
            proof {
                assert(slot_kept(start, *deck, i as int));
                assert(slot_error(
                    *deck,
                    i as int,
                    cur as nat,
                    delta_values(deltas@)[counter as int],
                ) == slot_error(start, i as int, cur as nat, delta_values(deltas@)[counter as int]));
            }
            let ghost before = *deck;
            update_decrypted_card(deck, i as usize, cur, &cards[counter], &deltas[counter]);
            proof {
                assert forall|j: int| i < j < n implies slot_kept(start, *deck, j) by {
                    assert(slot_kept(start, before, j));
                    assert(slot_kept(before, *deck, j));
                }
                assert forall|j: int| 0 <= j < i implies if selected(*mask, n as nat, j) {
                    slot_decrypted(
                        start,
                        *deck,
                        j,
                        cur as nat,
                        cards@[entry_of(*mask, j)],
                        delta_values(deltas@)[entry_of(*mask, j)],
                    )
                } else {
                    slot_kept(start, *deck, j)
                } by {
                    assert(slot_kept(before, *deck, j));
                }
            }
            counter = counter + 1;
        }
        i = i + 1;
    }
}

/// Whether `sender` holds the turn: the current player's address or signing address.
pub open spec fn is_turn_holder(st: ShuffleGameState, sender: String) -> bool {
    let i = st.cur_player_index as int;
    (i < st.player_addrs@.len() && st.player_addrs@[i]@ == sender@) || (i
        < st.signing_addrs@.len() && st.signing_addrs@[i]@ == sender@)
}

/// The error of a player command's game, phase or turn check, if any.
pub open spec fn player_error(s: Store, id: u64, sender: String, phase: BaseState) -> Option<
    ContractError,
> {
    if !has_game(s, id) {
        Some(ContractError::GameNotFound { game_id: id })
    } else {
        let st = game(s, id).state;
        if st.state != phase {
            Some(ContractError::InvalidState { game_id: id, expected: phase, actual: st.state })
        } else if !is_turn_holder(st, sender) {
            Some(ContractError::NotPlayersTurn { game_id: id })
        } else {
            None
        }
    }
}

/// The turn after a shuffle: the next player, wrapping to 0.
pub open spec fn next_shuffle_turn(cur: nat, players: nat) -> nat {
    if cur + 1 >= players {
        0
    } else {
        cur + 1
    }
}

/// The turn after a decryption share in a deal: the next player other
/// than the recipient, wrapping to 0.
pub open spec fn next_deal_turn(cur: nat, target: nat, players: nat) -> nat {
    let a = cur + 1;
    let b = if a == target {
        a + 1
    } else {
        a
    };
    if b >= players {
        0
    } else {
        b
    }
}

/// The messages of a phase boundary reached (`done`) or not.
pub open spec fn boundary_messages(rec: GameRecord, done: bool) -> Seq<CallbackMsg> {
    if done {
        callback_messages(rec.owner, rec.callback)
    } else {
        seq![]
    }
}

/// The stored callback after a boundary reached (`done`) or not.
pub open spec fn callback_after(rec: GameRecord, done: bool) -> Option<Vec<u8>> {
    if done {
        None
    } else {
        rec.callback
    }
}

/// The aggregate key after player number `n` registers `(x, y)`.
pub open spec fn aggregate_after(st: ShuffleGameState, n: nat, x: nat, y: nat) -> Result<
    (nat, nat),
    FieldError,
> {
    if n == 0 {
        Ok((x, y))
    } else {
        point_add_spec(st.aggregate_pk_x@, st.aggregate_pk_y@, x, y)
    }
}

/// Whether `sender` holds the turn.
fn ensure_player_turn(st: &ShuffleGameState, sender: &String) -> (r: bool)
    ensures
        r == is_turn_holder(*st, *sender),
{
    let idx = st.cur_player_index as usize;
    let is_player = idx < st.player_addrs.len() && st.player_addrs[idx] == *sender;
    let is_signer = idx < st.signing_addrs.len() && st.signing_addrs[idx] == *sender;
    is_player || is_signer
}

/// Index of a game's records after its phase and turn checks.
fn ensure_player_command(store: &Store, game_id: u64, sender: &String, phase: BaseState) -> (r:
    Result<usize, ContractError>)
    ensures
        match player_error(*store, game_id, *sender, phase) {
            Some(e) => r == Err::<usize, ContractError>(e),
            None => r is Ok && r->Ok_0 as int == game_id - 1 && has_game(*store, game_id),
        },
{
    let idx = match load_game(store, game_id) {
        Ok(i) => i,
        Err(e) => {
            return Err(e);
        },
    };
    let actual = store.games[idx].state.state;
    if actual != phase {
        return Err(ContractError::InvalidState { game_id, expected: phase, actual });
    }
    if !ensure_player_turn(&store.games[idx].state, sender) {
        return Err(ContractError::NotPlayersTurn { game_id });
    }
    Ok(idx)
}

/// What `execute_player_register` does: its result and the store after it.
pub open spec fn player_register_outcome(
    pre: Store,
    post: Store,
    sender: String,
    game_id: u64,
    signing_addr: String,
    pk_x: U256,
    pk_y: U256,
    r: Result<Response, ContractError>,
) -> bool {
    &&& (!has_game(pre, game_id) ==> r == Err::<Response, ContractError>(
        ContractError::GameNotFound { game_id },
    ) && post == pre)
    &&& (has_game(pre, game_id) ==> {
        let rec = game(pre, game_id);
        let st = rec.state;
        let n = st.player_addrs@.len();
        let agg = aggregate_after(st, n, pk_x@, pk_y@);
        let full = n + 1 == rec.info.num_players;
        let nr = game(post, game_id);
        if st.state != BaseState::Registration {
            &&& r == Err::<Response, ContractError>(
                ContractError::InvalidState {
                    game_id,
                    expected: BaseState::Registration,
                    actual: st.state,
                },
            )
            &&& post == pre
        } else if n >= rec.info.num_players {
            &&& r == Err::<Response, ContractError>(ContractError::GameFull { game_id })
            &&& post == pre
        } else if !on_curve(pk_x@, pk_y@) {
            &&& r == Err::<Response, ContractError>(ContractError::InvalidPlayer)
            &&& post == pre
        } else if agg is Err {
            &&& r == Err::<Response, ContractError>(ContractError::Field(agg->Err_0))
            &&& post == pre
        } else if full && dispatch_fails(rec) {
            &&& r == Err::<Response, ContractError>(ContractError::GameNotFound { game_id })
            &&& post == pre
        } else {
            &&& r is Ok
            &&& r->Ok_0.messages@ == boundary_messages(rec, full)
            &&& with_game(pre, post, game_id, nr)
            &&& nr == GameRecord {
                state: ShuffleGameState {
                    aggregate_pk_x: nr.state.aggregate_pk_x,
                    aggregate_pk_y: nr.state.aggregate_pk_y,
                    nonce: nr.state.nonce,
                    player_addrs: nr.state.player_addrs,
                    signing_addrs: nr.state.signing_addrs,
                    player_pk_x: nr.state.player_pk_x,
                    player_pk_y: nr.state.player_pk_y,
                    ..st
                },
                callback: callback_after(rec, full),
                ..rec
            }
            &&& nr.state.player_addrs@ == st.player_addrs@.push(sender)
            &&& nr.state.signing_addrs@ == st.signing_addrs@.push(signing_addr)
            &&& nr.state.player_pk_x@ == st.player_pk_x@.push(pk_x)
            &&& nr.state.player_pk_y@ == st.player_pk_y@.push(pk_y)
            &&& (nr.state.aggregate_pk_x@, nr.state.aggregate_pk_y@) == agg->Ok_0
            &&& nr.state.nonce@ == if full {
                (nr.state.aggregate_pk_x@ * nr.state.aggregate_pk_y@) % baby_jub_q()
            } else {
                st.nonce@
            }
        }
    })
}

/// Registers `sender` with a signing address and a public key; the key
/// joins the aggregate; the last player fixes the nonce and ends the phase.
pub fn execute_player_register(
    store: &mut Store,
    sender: &String,
    game_id: u64,
    signing_addr: String,
    pk_x: U256,
    pk_y: U256,
) -> (r: Result<Response, ContractError>)
    requires
        old(store).wf(),
    ensures
        final(store).wf(),
        player_register_outcome(
            *old(store),
            *final(store),
            *sender,
            game_id,
            signing_addr,
            pk_x,
            pk_y,
            r,
        ),
{
    let idx = match load_game(store, game_id) {
        Ok(i) => i,
        Err(e) => {
            return Err(e);
        },
    };
    proof {
        assert(store.games@[idx as int].wf());
    }
    let actual = store.games[idx].state.state;
    if actual != BaseState::Registration {
        return Err(
            ContractError::InvalidState { game_id, expected: BaseState::Registration, actual },
        );
    }
    let n = store.games[idx].state.player_addrs.len();
    let num_players = store.games[idx].info.num_players;
    if n >= num_players as usize {
        return Err(ContractError::GameFull { game_id });
    }
    if !is_on_curve(&pk_x, &pk_y) {
        return Err(ContractError::InvalidPlayer);
    }
    let (agg_x, agg_y) = if n == 0 {
        (pk_x, pk_y)
    } else {
        match point_add(
            &store.games[idx].state.aggregate_pk_x,
            &store.games[idx].state.aggregate_pk_y,
            &pk_x,
            &pk_y,
        ) {
            Ok(p) => p,
            Err(e) => {
                return Err(ContractError::Field(e));
            },
        }
    };
    let full = n + 1 == num_players as usize;
    if full && store.games[idx].callback.is_some() && store.games[idx].owner.is_none() {
        return Err(ContractError::GameNotFound { game_id });
    }
    let mut rec = take_game(store, idx);
    let ghost before = rec;
    rec.state.player_addrs.push(sender.clone());
    rec.state.signing_addrs.push(signing_addr);
    rec.state.player_pk_x.push(pk_x);
    rec.state.player_pk_y.push(pk_y);
    rec.state.aggregate_pk_x = agg_x;
    rec.state.aggregate_pk_y = agg_y;
    proof {
        assert(before.wf());
        assert(rec.state.player_pk_x@.drop_last() =~= before.state.player_pk_x@);
        assert(rec.state.player_pk_y@.drop_last() =~= before.state.player_pk_y@);
        assert forall|i: int| 0 <= i < rec.state.player_addrs@.len() implies on_curve(
            (#[trigger] rec.state.player_pk_x@[i])@,
            rec.state.player_pk_y@[i]@,
        ) by {
            if i < n {
                assert(rec.state.player_pk_x@[i] == before.state.player_pk_x@[i]);
                assert(rec.state.player_pk_y@[i] == before.state.player_pk_y@[i]);
            }
        }
    }
    let mut messages: Vec<CallbackMsg> = Vec::new();
    if full {
        rec.state.nonce = mul_mod_q(&agg_x, &agg_y);
        messages = match take_callback_msg(&mut rec, game_id) {
            Ok(m) => m,
            Err(_) => {
                proof {
                    assert(false);
                }
                Vec::new()
            },
        };
    }
    restore_game(store, idx, rec);
    proof {
        assert(store.games@ =~= old(store).games@.update(idx as int, rec));
        assert(store.games@[idx as int].wf());
    }
    Ok(Response { messages })
}

/// What `execute_player_shuffle` does: its result and the store after it.
pub open spec fn player_shuffle_outcome(
    pre: Store,
    post: Store,
    sender: String,
    game_id: u64,
    proof: Groth16Proof,
    deck: CompressedDeck,
    r: Result<Response, ContractError>,
) -> bool {
    match player_error(pre, game_id, sender, BaseState::Shuffle) {
        Some(e) => r == Err::<Response, ContractError>(e) && post == pre,
        None => {
            let rec = game(pre, game_id);
            let st = rec.state;
            let next = next_shuffle_turn(
                st.cur_player_index as nat,
                st.player_addrs@.len(),
            );
            let nr = game(post, game_id);
            if deck.config != st.deck.config {
                &&& r == Err::<Response, ContractError>(
                    ContractError::Deck(DeckError::ConfigMismatch),
                )
                &&& post == pre
            } else if !deck.len_matches_spec() {
                &&& r == Err::<Response, ContractError>(
                    ContractError::Deck(DeckError::LengthMismatch),
                )
                &&& post == pre
            } else if next == 0 && dispatch_fails(rec) {
                &&& r == Err::<Response, ContractError>(
                    ContractError::GameNotFound { game_id },
                )
                &&& post == pre
            } else {
                &&& r is Ok
                &&& r->Ok_0.messages@ == boundary_messages(rec, next == 0)
                &&& with_game(pre, post, game_id, nr)
                &&& nr == GameRecord {
                    state: ShuffleGameState {
                        cur_player_index: next as u32,
                        deck: nr.state.deck,
                        ..st
                    },
                    callback: callback_after(rec, next == 0),
                    ..rec
                }
                &&& nr.state.deck.config == st.deck.config
                &&& nr.state.deck.x0@ == deck.x0@
                &&& nr.state.deck.x1@ == deck.x1@
                &&& nr.state.deck.selector0 == deck.selector0
                &&& nr.state.deck.selector1 == deck.selector1
                &&& values(nr.state.deck.y0@) == values(st.deck.y0@)
                &&& values(nr.state.deck.y1@) == values(st.deck.y1@)
                &&& bitmap_values(nr.state.deck.decrypt_record@) == bitmap_values(
                    st.deck.decrypt_record@,
                )
                &&& nr.state.deck.cards_to_deal == st.deck.cards_to_deal
                &&& nr.state.deck.player_to_deal == st.deck.player_to_deal
            }
        },
    }
}

/// Adopts the new compressed deck of the player holding the turn and passes
/// the turn on; when it wraps to 0 the phase ends.
pub fn execute_player_shuffle(
    store: &mut Store,
    sender: &String,
    game_id: u64,
    proof: Groth16Proof,
    deck: CompressedDeck,
) -> (r: Result<Response, ContractError>)
    requires
        old(store).wf(),
    ensures
        final(store).wf(),
        player_shuffle_outcome(
            *old(store),
            *final(store),
            *sender,
            game_id,
            proof,
            deck,
            r,
        ),
{
    let idx = match ensure_player_command(store, game_id, sender, BaseState::Shuffle) {
        Ok(i) => i,
        Err(e) => {
            return Err(e);
        },
    };
    proof {
        assert(store.games@[idx as int].wf());
    }
    let old_compressed = store.games[idx].state.deck.compressed();
    match shuffle_public_input(
        &deck,
        &old_compressed,
        &store.games[idx].state.nonce,
        &store.games[idx].state.aggregate_pk_x,
        &store.games[idx].state.aggregate_pk_y,
    ) {
        Ok(_) => {},
        Err(e) => {
            return Err(ContractError::Deck(e));
        },
    }
    let num_players = store.games[idx].state.player_addrs.len();
    let cur = store.games[idx].state.cur_player_index;
    let next: u32 = if cur as usize + 1 >= num_players {
        0
    } else {
        cur + 1
    };
    if next == 0 && store.games[idx].callback.is_some() && store.games[idx].owner.is_none() {
        return Err(ContractError::GameNotFound { game_id });
    }
    let mut rec = take_game(store, idx);
    let ghost old_deck = rec.state.deck;
    match rec.state.deck.set_from_compressed(deck) {
        Ok(()) => {},
        Err(_) => {
            proof {
                assert(false);
            }
        },
    }
    proof {
        assert(resized(values(old_deck.y0@), num_cards_of(old_deck.config)) =~= values(
            old_deck.y0@,
        ));
        assert(resized(values(old_deck.y1@), num_cards_of(old_deck.config)) =~= values(
            old_deck.y1@,
        ));
        assert(resized(
            bitmap_values(old_deck.decrypt_record@),
            num_cards_of(old_deck.config),
        ) =~= bitmap_values(old_deck.decrypt_record@));
    }
    rec.state.cur_player_index = next;
    let mut messages: Vec<CallbackMsg> = Vec::new();
    if next == 0 {
        messages = match take_callback_msg(&mut rec, game_id) {
            Ok(m) => m,
            Err(_) => {
                proof {
                    assert(false);
                }
                Vec::new()
            },
        };
    }
    restore_game(store, idx, rec);
    proof {
        assert(store.games@ =~= old(store).games@.update(idx as int, rec));
        assert(store.games@[idx as int].wf());
    }
    Ok(Response { messages })
}

/// Room left in every hand for another deal.
pub open spec fn hands_have_room(s: Store, id: u64) -> bool {
    has_game(s, id) ==> forall|k: int|
        0 <= k < game(s, id).state.player_hand@.len() ==> #[trigger] game(s, id).state.player_hand@[k]
            <= u32::MAX - 256
}

/// The hands after `m` more cards reach player `target`, if that player exists.
pub open spec fn hands_dealt(hand: Seq<u32>, target: int, m: nat) -> Seq<u32> {
    if 0 <= target < hand.len() {
        hand.update(target, (hand[target] + m) as u32)
    } else {
        hand
    }
}

/// The hands after player `who` opened `m` cards, if that player exists.
pub open spec fn hands_opened(hand: Seq<u32>, who: int, m: nat) -> Seq<u32> {
    if 0 <= who < hand.len() {
        hand.update(who, (hand[who] - m) as u32)
    } else {
        hand
    }
}

/// What `execute_player_deal_cards` does: its result and the store after it.
pub open spec fn player_deal_cards_outcome(
    pre: Store,
    post: Store,
    sender: String,
    game_id: u64,
    proofs: Vec<Groth16Proof>,
    decrypted_cards: Vec<Card>,
    init_deltas: Vec<CardDelta>,
    r: Result<Response, ContractError>,
) -> bool {
    match player_error(pre, game_id, sender, BaseState::Deal) {
        Some(e) => r == Err::<Response, ContractError>(e) && post == pre,
        None => {
            let rec = game(pre, game_id);
            let st = rec.state;
            let n = num_cards_of(st.deck.config);
            let mask = st.deck.cards_to_deal;
            let m = bits_below(mask.data@, n);
            let cur = st.cur_player_index as nat;
            let next = next_deal_turn(
                cur,
                st.deck.player_to_deal as nat,
                st.player_addrs@.len(),
            );
            let failure = first_slot_error(st.deck, mask, n, cur, delta_values(init_deltas@), 0);
            let nr = game(post, game_id);
            if proofs@.len() != m || decrypted_cards@.len() != m || init_deltas@.len() != m {
                &&& r == Err::<Response, ContractError>(ContractError::InvalidCardSelection)
                &&& post == pre
            } else if failure is Some {
                &&& r == Err::<Response, ContractError>(failure->Some_0)
                &&& post == pre
            } else if next == 0 && dispatch_fails(rec) {
                &&& r == Err::<Response, ContractError>(
                    ContractError::GameNotFound { game_id },
                )
                &&& post == pre
            } else {
                &&& r is Ok
                &&& r->Ok_0.messages@ == boundary_messages(rec, next == 0)
                &&& with_game(pre, post, game_id, nr)
                &&& nr == GameRecord {
                    state: ShuffleGameState {
                        cur_player_index: next as u32,
                        deck: nr.state.deck,
                        player_hand: nr.state.player_hand,
                        ..st
                    },
                    callback: callback_after(rec, next == 0),
                    ..rec
                }
                &&& slots_decrypted(
                    st.deck,
                    nr.state.deck,
                    mask,
                    n,
                    cur,
                    decrypted_cards@,
                    delta_values(init_deltas@),
                )
                &&& nr.state.player_hand@ == if next == 0 {
                    hands_dealt(st.player_hand@, st.deck.player_to_deal as int, m)
                } else {
                    st.player_hand@
                }
            }
        },
    }
}

/// The player holding the turn adds their decryption share to every card
/// being dealt; when the turn wraps to 0 the recipient's hand grows by the
/// number of cards and the phase ends.
pub fn execute_player_deal_cards(
    store: &mut Store,
    sender: &String,
    game_id: u64,
    proofs: Vec<Groth16Proof>,
    decrypted_cards: Vec<Card>,
    init_deltas: Vec<CardDelta>,
) -> (r: Result<Response, ContractError>)
    requires
        old(store).wf(),
        hands_have_room(*old(store), game_id),
    ensures
        final(store).wf(),
        player_deal_cards_outcome(
            *old(store),
            *final(store),
            *sender,
            game_id,
            proofs,
            decrypted_cards,
            init_deltas,
            r,
        ),
{
    let idx = match ensure_player_command(store, game_id, sender, BaseState::Deal) {
        Ok(i) => i,
        Err(e) => {
            return Err(e);
        },
    };
    proof {
        assert(store.games@[idx as int].wf());
    }
    let num_cards = store.games[idx].info.num_cards as u32;
    let num_to_deal = store.games[idx].state.deck.cards_to_deal.member_count_up_to(num_cards);
    if proofs.len() != num_to_deal as usize || decrypted_cards.len() != num_to_deal as usize
        || init_deltas.len() != num_to_deal as usize {
        return Err(ContractError::InvalidCardSelection);
    }
    let num_players = store.games[idx].state.player_addrs.len();
    let cur = store.games[idx].state.cur_player_index;
    let target = store.games[idx].state.deck.player_to_deal;
    let mut next: u64 = cur as u64 + 1;
    if next == target as u64 {
        next = next + 1;
    }
    if next >= num_players as u64 {
        next = 0;
    }
    let mask = store.games[idx].state.deck.cards_to_deal;
    if let Some(e) = find_slot_error(
        &store.games[idx].state.deck,
        &mask,
        num_cards,
        cur,
        &init_deltas,
    ) {
        return Err(e);
    }
    if next == 0 && store.games[idx].callback.is_some() && store.games[idx].owner.is_none() {
        return Err(ContractError::GameNotFound { game_id });
    }
    let mut rec = take_game(store, idx);
    decrypt_cards(&mut rec.state.deck, &mask, num_cards, cur, &decrypted_cards, &init_deltas);
    rec.state.cur_player_index = next as u32;
    let mut messages: Vec<CallbackMsg> = Vec::new();
    if next == 0 {
        let t = target as usize;
        if t < rec.state.player_hand.len() {
            proof {
                lemma_bits_below_le(mask.data@, num_cards as nat);
                assert(old(store).games@[idx as int].state.player_hand@[t as int] <= u32::MAX - 256);
            }
            let h = rec.state.player_hand[t] + num_to_deal;
            rec.state.player_hand.set(t, h);
        }
        messages = match take_callback_msg(&mut rec, game_id) {
            Ok(m) => m,
            Err(_) => {
                proof {
                    assert(false);
                }
                Vec::new()
            },
        };
    }
    restore_game(store, idx, rec);
    proof {
        assert(store.games@ =~= old(store).games@.update(idx as int, rec));
        assert(store.games@[idx as int].wf());
    }
    Ok(Response { messages })
}

/// `n` zero deltas: opened cards were decrypted before, so nothing is recovered.
fn zero_deltas(n: usize) -> (r: Vec<CardDelta>)
    ensures
        r@.len() == n,
        delta_values(r@) == Seq::new(n as nat, |i: int| (0nat, 0nat)),
{
    let mut r: Vec<CardDelta> = Vec::new();
    let mut i: usize = 0;
    while i < n
        invariant
            i <= n,
            r@.len() == i,
            forall|k: int| 0 <= k < i ==> (#[trigger] r@[k]).delta0@ == 0 && r@[k].delta1@ == 0,
        decreases n - i,
    {
        r.push(CardDelta { delta0: U256::zero(), delta1: U256::zero() });
        i = i + 1;
    }
    proof {
        assert(delta_values(r@) =~= Seq::new(n as nat, |i: int| (0nat, 0nat)));
    }
    r
}

/// What `execute_player_open_cards` does: its result and the store after it.
pub open spec fn player_open_cards_outcome(
    pre: Store,
    post: Store,
    sender: String,
    game_id: u64,
    cards: BitMap256,
    proofs: Vec<Groth16Proof>,
    decrypted_cards: Vec<Card>,
    r: Result<Response, ContractError>,
) -> bool {
    match player_error(pre, game_id, sender, BaseState::Open) {
        Some(e) => r == Err::<Response, ContractError>(e) && post == pre,
        None => {
            let rec = game(pre, game_id);
            let st = rec.state;
            let n = num_cards_of(st.deck.config);
            let m = bits_below(cards.data@, n);
            let cur = st.cur_player_index as nat;
            let zeros = Seq::new(m, |i: int| (0nat, 0nat));
            let failure = first_slot_error(st.deck, cards, n, cur, zeros, 0);
            let nr = game(post, game_id);
            if m != st.opening || proofs@.len() != m || decrypted_cards@.len() != m {
                &&& r == Err::<Response, ContractError>(ContractError::InvalidCardSelection)
                &&& post == pre
            } else if cur < st.player_hand@.len() && st.player_hand@[cur as int] < m {
                &&& r == Err::<Response, ContractError>(ContractError::InvalidCardSelection)
                &&& post == pre
            } else if failure is Some {
                &&& r == Err::<Response, ContractError>(failure->Some_0)
                &&& post == pre
            } else if dispatch_fails(rec) {
                &&& r == Err::<Response, ContractError>(
                    ContractError::GameNotFound { game_id },
                )
                &&& post == pre
            } else {
                &&& r is Ok
                &&& r->Ok_0.messages@ == boundary_messages(rec, true)
                &&& with_game(pre, post, game_id, nr)
                &&& nr == GameRecord {
                    state: ShuffleGameState {
                        opening: 0,
                        cur_player_index: 0,
                        deck: nr.state.deck,
                        player_hand: nr.state.player_hand,
                        ..st
                    },
                    callback: None,
                    ..rec
                }
                &&& slots_decrypted(st.deck, nr.state.deck, cards, n, cur, decrypted_cards@, zeros)
                &&& nr.state.player_hand@ == hands_opened(st.player_hand@, cur as int, m)
            }
        },
    }
}

/// The player holding the turn opens the cards of `cards`, as many as asked;
/// they leave the hand, the turn returns to 0 and the phase ends.
pub fn execute_player_open_cards(
    store: &mut Store,
    sender: &String,
    game_id: u64,
    cards: BitMap256,
    proofs: Vec<Groth16Proof>,
    decrypted_cards: Vec<Card>,
) -> (r: Result<Response, ContractError>)
    requires
        old(store).wf(),
    ensures
        final(store).wf(),
        player_open_cards_outcome(
            *old(store),
            *final(store),
            *sender,
            game_id,
            cards,
            proofs,
            decrypted_cards,
            r,
        ),
{
    let idx = match ensure_player_command(store, game_id, sender, BaseState::Open) {
        Ok(i) => i,
        Err(e) => {
            return Err(e);
        },
    };
    proof {
        assert(store.games@[idx as int].wf());
    }
    let num_cards = store.games[idx].info.num_cards as u32;
    let number_to_open = cards.member_count_up_to(num_cards);
    if number_to_open != store.games[idx].state.opening as u32 {
        return Err(ContractError::InvalidCardSelection);
    }
    if proofs.len() != number_to_open as usize || decrypted_cards.len() != number_to_open as usize {
        return Err(ContractError::InvalidCardSelection);
    }
    let cur = store.games[idx].state.cur_player_index;
    let c = cur as usize;
    if c < store.games[idx].state.player_hand.len() && store.games[idx].state.player_hand[c]
        < number_to_open {
        return Err(ContractError::InvalidCardSelection);
    }
    let deltas = zero_deltas(number_to_open as usize);
    if let Some(e) = find_slot_error(&store.games[idx].state.deck, &cards, num_cards, cur, &deltas) {
        return Err(e);
    }
    if store.games[idx].callback.is_some() && store.games[idx].owner.is_none() {
        return Err(ContractError::GameNotFound { game_id });
    }
    let mut rec = take_game(store, idx);
    decrypt_cards(&mut rec.state.deck, &cards, num_cards, cur, &decrypted_cards, &deltas);
    if c < rec.state.player_hand.len() {
        let h = rec.state.player_hand[c] - number_to_open;
        rec.state.player_hand.set(c, h);
    }
    rec.state.opening = 0;
    rec.state.cur_player_index = 0;
    let messages = match take_callback_msg(&mut rec, game_id) {
        Ok(m) => m,
        Err(_) => {
            proof {
                assert(false);
            }
            Vec::new()
        },
    };
    restore_game(store, idx, rec);
    proof {
        assert(store.games@ =~= old(store).games@.update(idx as int, rec));
        assert(store.games@[idx as int].wf());
    }
    Ok(Response { messages })
}

/// Runs one command from `sender`.
pub fn execute(store: &mut Store, sender: &String, msg: ExecuteMsg) -> (r: Result<
    Response,
    ContractError,
>)
    requires
        old(store).wf(),
        old(store).games@.len() < u64::MAX,
        match msg {
            ExecuteMsg::PlayerDealCards { game_id, .. } => hands_have_room(*old(store), game_id),
            _ => true,
        },
    ensures
        final(store).wf(),
        match msg {
            ExecuteMsg::CreateGame { num_players, deck_config } => create_game_outcome(
                *old(store),
                *final(store),
                *sender,
                num_players,
                deck_config,
                r,
            ),
            ExecuteMsg::Register { game_id, callback } => register_outcome(
                *old(store),
                *final(store),
                *sender,
                game_id,
                callback,
                r,
            ),
            ExecuteMsg::PlayerRegister { game_id, signing_addr, pk_x, pk_y } => player_register_outcome(
                *old(store),
                *final(store),
                *sender,
                game_id,
                signing_addr,
                pk_x,
                pk_y,
                r,
            ),
            ExecuteMsg::Shuffle { game_id, callback } => shuffle_outcome(
                *old(store),
                *final(store),
                *sender,
                game_id,
                callback,
                r,
            ),
            ExecuteMsg::PlayerShuffle { game_id, proof, deck } => player_shuffle_outcome(
                *old(store),
                *final(store),
                *sender,
                game_id,
                proof,
                deck,
                r,
            ),
            ExecuteMsg::DealCardsTo { game_id, cards, player_id, callback } => deal_cards_to_outcome(
                *old(store),
                *final(store),
                *sender,
                game_id,
                cards,
                player_id,
                callback,
                r,
            ),
            ExecuteMsg::PlayerDealCards { game_id, proofs, decrypted_cards, init_deltas } =>
                player_deal_cards_outcome(
                *old(store),
                *final(store),
                *sender,
                game_id,
                proofs,
                decrypted_cards,
                init_deltas,
                r,
            ),
            ExecuteMsg::OpenCards { game_id, player_id, opening, callback } => open_cards_outcome(
                *old(store),
                *final(store),
                *sender,
                game_id,
                player_id,
                opening,
                callback,
                r,
            ),
            ExecuteMsg::PlayerOpenCards { game_id, cards, proofs, decrypted_cards } =>
                player_open_cards_outcome(
                *old(store),
                *final(store),
                *sender,
                game_id,
                cards,
                proofs,
                decrypted_cards,
                r,
            ),
            ExecuteMsg::EndGame { game_id } => end_game_outcome(
                *old(store),
                *final(store),
                *sender,
                game_id,
                r,
            ),
            ExecuteMsg::Error { game_id, callback } => error_outcome(
                *old(store),
                *final(store),
                *sender,
                game_id,
                callback,
                r,
            ),
        },
{
    match msg {
        ExecuteMsg::CreateGame { num_players, deck_config } => execute_create_game(
            store,
            sender,
            num_players,
            deck_config,
        ),
        ExecuteMsg::Register { game_id, callback } => execute_register(
            store,
            sender,
            game_id,
            callback,
        ),
        ExecuteMsg::PlayerRegister { game_id, signing_addr, pk_x, pk_y } => execute_player_register(
            store,
            sender,
            game_id,
            signing_addr,
            pk_x,
            pk_y,
        ),
        ExecuteMsg::Shuffle { game_id, callback } => execute_shuffle(
            store,
            sender,
            game_id,
            callback,
        ),
        ExecuteMsg::PlayerShuffle { game_id, proof, deck } => execute_player_shuffle(
            store,
            sender,
            game_id,
            proof,
            deck,
        ),
        ExecuteMsg::DealCardsTo { game_id, cards, player_id, callback } => execute_deal_cards_to(
            store,
            sender,
            game_id,
            cards,
            player_id,
            callback,
        ),
        ExecuteMsg::PlayerDealCards { game_id, proofs, decrypted_cards, init_deltas } =>
            execute_player_deal_cards(
            store,
            sender,
            game_id,
            proofs,
            decrypted_cards,
            init_deltas,
        ),
        ExecuteMsg::OpenCards { game_id, player_id, opening, callback } => execute_open_cards(
            store,
            sender,
            game_id,
            player_id,
            opening,
            callback,
        ),
        ExecuteMsg::PlayerOpenCards { game_id, cards, proofs, decrypted_cards } =>
            execute_player_open_cards(
            store,
            sender,
            game_id,
            cards,
            proofs,
            decrypted_cards,
        ),
        ExecuteMsg::EndGame { game_id } => execute_end_game(store, sender, game_id),
        ExecuteMsg::Error { game_id, callback } => execute_error(
            store,
            sender,
            game_id,
            callback,
        ),
    }
}

/// The turn index after k shuffles of a round that starts at player 0.
pub open spec fn shuffle_turn_after(k: nat, players: nat) -> nat
    decreases k,
{
    if k == 0 {
        0
    } else {
        next_shuffle_turn(shuffle_turn_after((k - 1) as nat, players), players)
    }
}

/// How many of the first k shuffles of a round end the phase.
pub open spec fn phase_ends_after(k: nat, players: nat) -> nat
    decreases k,
{
    if k == 0 {
        0
    } else {
        phase_ends_after((k - 1) as nat, players) + if shuffle_turn_after(k, players) == 0 {
            1nat
        } else {
            0nat
        }
    }
}

/// In a round of P shuffles from player 0 the turn visits 1, 2, …, P − 1 and
/// comes back to 0 only at the last one, so the phase ends, and the stored
/// callback is sent, exactly once.
pub proof fn law_shuffle_round(players: nat, k: nat)
    requires
        players >= 1,
        k <= players,
    ensures
        shuffle_turn_after(k, players) == k % players,
        (shuffle_turn_after(k, players) == 0) == (k == 0 || k == players),
        phase_ends_after(k, players) == if k == players {
            1nat
        } else {
            0nat
        },
    decreases k,
{
    if k == 0 {
        assert(0nat % players == 0) by (nonlinear_arith)
            requires
                players >= 1,
        ;
    } else {
        law_shuffle_round(players, (k - 1) as nat);
        if k < players {
            assert((k - 1) as nat % players == k - 1) by (nonlinear_arith)
                requires
                    k < players,
                    k >= 1,
            ;
            assert(k % players == k) by (nonlinear_arith)
                requires
                    k < players,
            ;
        } else {
            assert((k - 1) as nat % players == k - 1) by (nonlinear_arith)
                requires
                    k == players,
                    k >= 1,
            ;
            assert(k % players == 0) by (nonlinear_arith)
                requires
                    k == players,
                    k >= 1,
            ;
        }
    }
}

/// Sum of the hand sizes.
pub open spec fn hand_total(hand: Seq<u32>) -> int
    decreases hand.len(),
{
    if hand.len() == 0 {
        0
    } else {
        hand_total(hand.drop_last()) + hand.last()
    }
}

/// Changing one hand moves the total by the difference.
proof fn lemma_hand_total_update(hand: Seq<u32>, t: int, v: u32)
    requires
        0 <= t < hand.len(),
    ensures
        hand_total(hand.update(t, v)) == hand_total(hand) - hand[t] + v,
    decreases hand.len(),
{
    let u = hand.update(t, v);
    if t == hand.len() - 1 {
        assert(u.drop_last() =~= hand.drop_last());
    } else {
        assert(u.drop_last() =~= hand.drop_last().update(t, v));
        lemma_hand_total_update(hand.drop_last(), t, v);
    }
}

/// A completed deal of m cards to an existing player grows the total of
/// the hands by exactly m.
pub proof fn law_deal_grows_hands(hand: Seq<u32>, target: int, m: nat)
    requires
        0 <= target < hand.len(),
        hand[target] + m <= u32::MAX,
    ensures
        hand_total(hands_dealt(hand, target, m)) == hand_total(hand) + m,
{
    lemma_hand_total_update(hand, target, (hand[target] + m) as u32);
}

/// A decryption never removes a player from a slot's record: the number of
/// players recorded on each slot does not go down.
pub proof fn law_decrypt_record_grows(
    pre: Deck,
    post: Deck,
    mask: BitMap256,
    n: nat,
    cur: nat,
    cards: Seq<Card>,
    deltas: Seq<(nat, nat)>,
    i: int,
)
    requires
        slots_decrypted(pre, post, mask, n, cur, cards, deltas),
        0 <= i < n,
    ensures
        bits_below(pre.decrypt_record@[i].data@, 256) <= bits_below(
            post.decrypt_record@[i].data@,
            256,
        ),
{
    let a = pre.decrypt_record@[i].data@;
    let b = post.decrypt_record@[i].data@;
    lemma_bits_below_counts(a, 256);
    lemma_bits_below_counts(b, 256);
    if selected(mask, n, i) {
        assert(slot_decrypted(pre, post, i, cur, cards[entry_of(mask, i)], deltas[entry_of(mask, i)]));
        assert(members_below(a, 256).subset_of(members_below(b, 256)));
        vstd::set_lib::lemma_len_subset(members_below(a, 256), members_below(b, 256));
    } else {
        assert(slot_kept(pre, post, i));
    }
}

/// A copy of a vector of strings.
fn copy_strings(v: &Vec<String>) -> (r: Vec<String>)
    ensures
        r@ == v@,
{
    let mut r: Vec<String> = Vec::new();
    let mut i: usize = 0;
    while i < v.len()
        invariant
            i <= v@.len(),
            r@ == v@.subrange(0, i as int),
        decreases v@.len() - i,
    {
        r.push(v[i].clone());
        i = i + 1;
        proof {
            assert(r@ =~= v@.subrange(0, i as int));
        }
    }
    proof {
        assert(r@ =~= v@);
    }
    r
}

/// A copy of a vector of counts.
fn copy_counts(v: &Vec<u32>) -> (r: Vec<u32>)
    ensures
        r@ == v@,
{
    let mut r: Vec<u32> = Vec::new();
    let mut i: usize = 0;
    while i < v.len()
        invariant
            i <= v@.len(),
            r@ == v@.subrange(0, i as int),
        decreases v@.len() - i,
    {
        r.push(v[i]);
        i = i + 1;
        proof {
            assert(r@ =~= v@.subrange(0, i as int));
        }
    }
    proof {
        assert(r@ =~= v@);
    }
    r
}

/// What `query_game_info` answers.
pub open spec fn game_info_answer(
    store: Store,
    game_id: u64,
    r: Result<GameInfoResponse, ContractError>,
) -> bool {
    &&& (!has_game(store, game_id) ==> r == Err::<GameInfoResponse, ContractError>(
        ContractError::GameNotFound { game_id },
    ))
    &&& (has_game(store, game_id) ==> {
        let info = game(store, game_id).info;
        &&& r is Ok
        &&& r->Ok_0.num_cards == info.num_cards
        &&& r->Ok_0.num_players == info.num_players
        &&& r->Ok_0.encrypt_verifier == info.encrypt_verifier
        &&& r->Ok_0.deck_config == info.deck_config
    })
}

/// The `GameInfo` answer inside a query result.
pub open spec fn game_info_in(r: Result<QueryResponse, ContractError>) -> Result<GameInfoResponse, ContractError> {
    match r {
        Ok(QueryResponse::GameInfo(v)) => Ok(v),
        Ok(_) => Err(ContractError::NotSupported),
        Err(e) => Err(e),
    }
}

/// The game's fixed information.
pub fn query_game_info(store: &Store, game_id: u64) -> (r: Result<GameInfoResponse, ContractError>)
    ensures
        game_info_answer(*store, game_id, r),
{
    let idx = match load_game(store, game_id) {
        Ok(i) => i,
        Err(e) => {
            return Err(e);
        },
    };
    let info = &store.games[idx].info;
    Ok(
        GameInfoResponse {
            num_cards: info.num_cards,
            num_players: info.num_players,
            encrypt_verifier: info.encrypt_verifier.clone(),
            deck_config: info.deck_config,
        },
    )
}

/// What `query_game_state` answers.
pub open spec fn game_state_answer(
    store: Store,
    game_id: u64,
    r: Result<GameStateResponse, ContractError>,
) -> bool {
    &&& (!has_game(store, game_id) ==> r == Err::<GameStateResponse, ContractError>(
        ContractError::GameNotFound { game_id },
    ))
    &&& (has_game(store, game_id) ==> {
        let rec = game(store, game_id);
        let st = rec.state;
        &&& r is Ok
        &&& r->Ok_0.state == st.state
        &&& r->Ok_0.opening == st.opening
        &&& r->Ok_0.cur_player_index == st.cur_player_index
        &&& r->Ok_0.aggregate_pk_x == st.aggregate_pk_x
        &&& r->Ok_0.aggregate_pk_y == st.aggregate_pk_y
        &&& r->Ok_0.nonce == st.nonce
        &&& r->Ok_0.player_addrs@ == st.player_addrs@
        &&& r->Ok_0.signing_addrs@ == st.signing_addrs@
        &&& r->Ok_0.deck_config == rec.info.deck_config
        &&& r->Ok_0.player_hand@ == st.player_hand@
    })
}

/// The `GameState` answer inside a query result.
pub open spec fn game_state_in(r: Result<QueryResponse, ContractError>) -> Result<GameStateResponse, ContractError> {
    match r {
        Ok(QueryResponse::GameState(v)) => Ok(v),
        Ok(_) => Err(ContractError::NotSupported),
        Err(e) => Err(e),
    }
}

/// The game's state, with its hand counts.
pub fn query_game_state(store: &Store, game_id: u64) -> (r: Result<
    GameStateResponse,
    ContractError,
>)
    ensures
        game_state_answer(*store, game_id, r),
{
    let idx = match load_game(store, game_id) {
        Ok(i) => i,
        Err(e) => {
            return Err(e);
        },
    };
    let rec = &store.games[idx];
    Ok(
        GameStateResponse {
            state: rec.state.state,
            opening: rec.state.opening,
            cur_player_index: rec.state.cur_player_index,
            aggregate_pk_x: rec.state.aggregate_pk_x,
            aggregate_pk_y: rec.state.aggregate_pk_y,
            nonce: rec.state.nonce,
            player_addrs: copy_strings(&rec.state.player_addrs),
            signing_addrs: copy_strings(&rec.state.signing_addrs),
            deck_config: rec.info.deck_config,
            player_hand: copy_counts(&rec.state.player_hand),
        },
    )
}

/// What `query_num_cards` answers.
pub open spec fn num_cards_answer(
    store: Store,
    game_id: u64,
    r: Result<NumCardsResponse, ContractError>,
) -> bool {
    &&& (!has_game(store, game_id) ==> r == Err::<NumCardsResponse, ContractError>(
        ContractError::GameNotFound { game_id },
    ))
    &&& (has_game(store, game_id) ==> r is Ok && r->Ok_0.count == game(
        store,
        game_id,
    ).info.num_cards)
}

/// The `NumCards` answer inside a query result.
pub open spec fn num_cards_in(r: Result<QueryResponse, ContractError>) -> Result<NumCardsResponse, ContractError> {
    match r {
        Ok(QueryResponse::NumCards(v)) => Ok(v),
        Ok(_) => Err(ContractError::NotSupported),
        Err(e) => Err(e),
    }
}

/// The number of cards of the game's deck.
pub fn query_num_cards(store: &Store, game_id: u64) -> (r: Result<NumCardsResponse, ContractError>)
    ensures
        num_cards_answer(*store, game_id, r),
{
    let idx = match load_game(store, game_id) {
        Ok(i) => i,
        Err(e) => {
            return Err(e);
        },
    };
    Ok(NumCardsResponse { count: store.games[idx].info.num_cards as u32 })
}

/// What `query_cur_player_index` answers.
pub open spec fn cur_player_index_answer(
    store: Store,
    game_id: u64,
    r: Result<PlayerIndexResponse, ContractError>,
) -> bool {
    &&& (!has_game(store, game_id) ==> r == Err::<PlayerIndexResponse, ContractError>(
        ContractError::GameNotFound { game_id },
    ))
    &&& (has_game(store, game_id) ==> r is Ok && r->Ok_0.index == Some(
        game(store, game_id).state.cur_player_index,
    ))
}

/// The `CurPlayerIndex` answer inside a query result.
pub open spec fn cur_player_index_in(r: Result<QueryResponse, ContractError>) -> Result<PlayerIndexResponse, ContractError> {
    match r {
        Ok(QueryResponse::CurPlayerIndex(v)) => Ok(v),
        Ok(_) => Err(ContractError::NotSupported),
        Err(e) => Err(e),
    }
}

/// The index of the player holding the turn.
pub fn query_cur_player_index(store: &Store, game_id: u64) -> (r: Result<
    PlayerIndexResponse,
    ContractError,
>)
    ensures
        cur_player_index_answer(*store, game_id, r),
{
    let idx = match load_game(store, game_id) {
        Ok(i) => i,
        Err(e) => {
            return Err(e);
        },
    };
    Ok(PlayerIndexResponse { index: Some(store.games[idx].state.cur_player_index) })
}

/// What `query_decrypt_record` answers.
pub open spec fn decrypt_record_answer(
    store: Store,
    game_id: u64,
    card_index: u32,
    r: Result<DecryptRecordResponse, ContractError>,
) -> bool {
    &&& (!has_game(store, game_id) ==> r == Err::<DecryptRecordResponse, ContractError>(
        ContractError::GameNotFound { game_id },
    ))
    &&& (has_game(store, game_id) ==> {
        let records = game(store, game_id).state.deck.decrypt_record@;
        &&& card_index >= records.len() ==> r == Err::<DecryptRecordResponse, ContractError>(
            ContractError::InvalidCardIndex,
        )
        &&& card_index < records.len() ==> r is Ok && r->Ok_0.bitmap == records[card_index as int]
    })
}

/// The `DecryptRecord` answer inside a query result.
pub open spec fn decrypt_record_in(r: Result<QueryResponse, ContractError>) -> Result<DecryptRecordResponse, ContractError> {
    match r {
        Ok(QueryResponse::DecryptRecord(v)) => Ok(v),
        Ok(_) => Err(ContractError::NotSupported),
        Err(e) => Err(e),
    }
}

/// Which players have decrypted slot `card_index`.
pub fn query_decrypt_record(store: &Store, game_id: u64, card_index: u32) -> (r: Result<
    DecryptRecordResponse,
    ContractError,
>)
    ensures
        decrypt_record_answer(*store, game_id, card_index, r),
{
    let idx = match load_game(store, game_id) {
        Ok(i) => i,
        Err(e) => {
            return Err(e);
        },
    };
    let i = card_index as usize;
    if i >= store.games[idx].state.deck.decrypt_record.len() {
        return Err(ContractError::InvalidCardIndex);
    }
    Ok(DecryptRecordResponse { bitmap: store.games[idx].state.deck.decrypt_record[i] })
}

/// What `query_aggregated_pk` answers.
pub open spec fn aggregated_pk_answer(
    store: Store,
    game_id: u64,
    r: Result<AggregatedPkResponse, ContractError>,
) -> bool {
    &&& (!has_game(store, game_id) ==> r == Err::<AggregatedPkResponse, ContractError>(
        ContractError::GameNotFound { game_id },
    ))
    &&& (has_game(store, game_id) ==> r is Ok && r->Ok_0.px == game(
        store,
        game_id,
    ).state.aggregate_pk_x && r->Ok_0.py == game(store, game_id).state.aggregate_pk_y)
}

/// The `AggregatedPk` answer inside a query result.
pub open spec fn aggregated_pk_in(r: Result<QueryResponse, ContractError>) -> Result<AggregatedPkResponse, ContractError> {
    match r {
        Ok(QueryResponse::AggregatedPk(v)) => Ok(v),
        Ok(_) => Err(ContractError::NotSupported),
        Err(e) => Err(e),
    }
}

/// The aggregate public key.
pub fn query_aggregated_pk(store: &Store, game_id: u64) -> (r: Result<
    AggregatedPkResponse,
    ContractError,
>)
    ensures
        aggregated_pk_answer(*store, game_id, r),
{
    let idx = match load_game(store, game_id) {
        Ok(i) => i,
        Err(e) => {
            return Err(e);
        },
    };
    Ok(
        AggregatedPkResponse {
            px: store.games[idx].state.aggregate_pk_x,
            py: store.games[idx].state.aggregate_pk_y,
        },
    )
}

/// What `query_deck` answers.
pub open spec fn deck_answer(
    store: Store,
    game_id: u64,
    r: Result<DeckResponse, ContractError>,
) -> bool {
    &&& (!has_game(store, game_id) ==> r == Err::<DeckResponse, ContractError>(
        ContractError::GameNotFound { game_id },
    ))
    &&& (has_game(store, game_id) ==> {
        let deck = game(store, game_id).state.deck;
        &&& r is Ok
        &&& r->Ok_0.x0@ == deck.x0@
        &&& r->Ok_0.x1@ == deck.x1@
        &&& r->Ok_0.y0@ == deck.y0@
        &&& r->Ok_0.y1@ == deck.y1@
        &&& r->Ok_0.selector0 == deck.selector0
        &&& r->Ok_0.selector1 == deck.selector1
        &&& r->Ok_0.cards_to_deal == deck.cards_to_deal
        &&& r->Ok_0.player_to_deal == deck.player_to_deal
    })
}

/// The `Deck` answer inside a query result.
pub open spec fn deck_in(r: Result<QueryResponse, ContractError>) -> Result<DeckResponse, ContractError> {
    match r {
        Ok(QueryResponse::Deck(v)) => Ok(v),
        Ok(_) => Err(ContractError::NotSupported),
        Err(e) => Err(e),
    }
}

/// The whole deck.
pub fn query_deck(store: &Store, game_id: u64) -> (r: Result<DeckResponse, ContractError>)
    ensures
        deck_answer(*store, game_id, r),
{
    let idx = match load_game(store, game_id) {
        Ok(i) => i,
        Err(e) => {
            return Err(e);
        },
    };
    let deck = &store.games[idx].state.deck;
    Ok(
        DeckResponse {
            x0: copy_values(&deck.x0),
            x1: copy_values(&deck.x1),
            y0: copy_values(&deck.y0),
            y1: copy_values(&deck.y1),
            selector0: deck.selector0,
            selector1: deck.selector1,
            cards_to_deal: deck.cards_to_deal,
            player_to_deal: deck.player_to_deal,
        },
    )
}

/// The first index at which `addrs` holds `address`.
pub open spec fn first_index_of(addrs: Seq<String>, address: String, i: nat) -> bool {
    &&& i < addrs.len()
    &&& addrs[i as int]@ == address@
    &&& forall|j: int| 0 <= j < i ==> (#[trigger] addrs[j])@ != address@
}

/// Whether `addrs` holds `address` anywhere.
pub open spec fn holds_address(addrs: Seq<String>, address: String) -> bool {
    exists|j: int| 0 <= j < addrs.len() && (#[trigger] addrs[j])@ == address@
}

/// Searches `addrs` for `address`.
fn find_address(addrs: &Vec<String>, address: &String) -> (r: Option<u32>)
    requires
        addrs@.len() <= 256,
    ensures
        match r {
            Some(i) => first_index_of(addrs@, *address, i as nat),
            None => !holds_address(addrs@, *address),
        },
{
    let mut i: usize = 0;
    while i < addrs.len()
        invariant
            i <= addrs@.len() <= 256,
            forall|j: int| 0 <= j < i ==> (#[trigger] addrs@[j])@ != address@,
        decreases addrs@.len() - i,
    {
        if addrs[i] == *address {
            return Some(i as u32);
        }
        i = i + 1;
    }
    None
}

/// What `query_player_index` answers.
pub open spec fn player_index_answer(
    store: Store,
    game_id: u64,
    address: String,
    r: Result<PlayerIndexResponse, ContractError>,
) -> bool {
    &&& (!has_game(store, game_id) ==> r == Err::<PlayerIndexResponse, ContractError>(
        ContractError::GameNotFound { game_id },
    ))
    &&& (has_game(store, game_id) ==> {
        let st = game(store, game_id).state;
        &&& r is Ok
        &&& match r->Ok_0.index {
            Some(i) => first_index_of(st.player_addrs@, address, i as nat) || (
            !holds_address(st.player_addrs@, address) && first_index_of(
                st.signing_addrs@,
                address,
                i as nat,
            )),
            None => !holds_address(st.player_addrs@, address) && !holds_address(
                st.signing_addrs@,
                address,
            ),
        }
    })
}

/// The `PlayerIndex` answer inside a query result.
pub open spec fn player_index_in(r: Result<QueryResponse, ContractError>) -> Result<PlayerIndexResponse, ContractError> {
    match r {
        Ok(QueryResponse::PlayerIndex(v)) => Ok(v),
        Ok(_) => Err(ContractError::NotSupported),
        Err(e) => Err(e),
    }
}

/// The index of the player whose address, or else whose signing address, is `address`.
pub fn query_player_index(store: &Store, game_id: u64, address: String) -> (r: Result<
    PlayerIndexResponse,
    ContractError,
>)
    requires
        store.wf(),
    ensures
        player_index_answer(*store, game_id, address, r),
{
    let idx = match load_game(store, game_id) {
        Ok(i) => i,
        Err(e) => {
            return Err(e);
        },
    };
    proof {
        assert(store.games@[idx as int].wf());
    }
    let st = &store.games[idx].state;
    let mut index = find_address(&st.player_addrs, &address);
    if index.is_none() {
        index = find_address(&st.signing_addrs, &address);
    }
    Ok(PlayerIndexResponse { index })
}

/// What `query_card_value` answers.
pub open spec fn card_value_answer(
    store: Store,
    game_id: u64,
    card_index: u32,
    r: Result<CardValueResponse, ContractError>,
) -> bool {
    &&& (!has_game(store, game_id) ==> r == Err::<CardValueResponse, ContractError>(
        ContractError::GameNotFound { game_id },
    ))
    &&& (has_game(store, game_id) ==> {
        let rec = game(store, game_id);
        let deck = rec.state.deck;
        let p = rec.info.num_players as nat;
        &&& r is Ok
        &&& (card_index >= deck.x1@.len() || bits_below(
            deck.decrypt_record@[card_index as int].data@,
            p,
        ) != p) ==> r->Ok_0.value is None
        &&& (card_index < deck.x1@.len() && bits_below(
            deck.decrypt_record@[card_index as int].data@,
            p,
        ) == p) ==> match r->Ok_0.value {
            Some(k) => k < num_cards_of(rec.info.deck_config) && init_x1()[k as int]
                == deck.x1@[card_index as int]@ && forall|j: int|
                0 <= j < k ==> init_x1()[j] != deck.x1@[card_index as int]@,
            None => forall|j: int|
                0 <= j < num_cards_of(rec.info.deck_config) ==> init_x1()[j]
                    != deck.x1@[card_index as int]@,
        }
    })
}

/// The `CardValue` answer inside a query result.
pub open spec fn card_value_in(r: Result<QueryResponse, ContractError>) -> Result<CardValueResponse, ContractError> {
    match r {
        Ok(QueryResponse::CardValue(v)) => Ok(v),
        Ok(_) => Err(ContractError::NotSupported),
        Err(e) => Err(e),
    }
}

/// The face value of slot `card_index` once every player has decrypted it:
/// its position in the unshuffled table; none before, or if it is not there.
pub fn query_card_value(store: &Store, game_id: u64, card_index: u32) -> (r: Result<
    CardValueResponse,
    ContractError,
>)
    requires
        store.wf(),
    ensures
        card_value_answer(*store, game_id, card_index, r),
{
    let idx = match load_game(store, game_id) {
        Ok(i) => i,
        Err(e) => {
            return Err(e);
        },
    };
    proof {
        assert(store.games@[idx as int].wf());
    }
    let rec = &store.games[idx];
    let i = card_index as usize;
    if i >= rec.state.deck.x1.len() {
        return Ok(CardValueResponse { value: None });
    }
    let num_players = rec.info.num_players as u32;
    if rec.state.deck.decrypt_record[i].member_count_up_to(num_players) != num_players {
        return Ok(CardValueResponse { value: None });
    }
    let value = card_index_from_x1(&rec.state.deck.x1[i], rec.info.deck_config);
    Ok(CardValueResponse { value })
}

/// Answers one query.
pub fn query(store: &Store, msg: QueryMsg) -> (r: Result<QueryResponse, ContractError>)
    requires
        store.wf(),
    ensures
        match msg {
            QueryMsg::GameInfo { game_id } => game_info_answer(*store, game_id, game_info_in(r)),
            QueryMsg::GameState { game_id } => game_state_answer(*store, game_id, game_state_in(r)),
            QueryMsg::NumCards { game_id } => num_cards_answer(*store, game_id, num_cards_in(r)),
            QueryMsg::CurPlayerIndex { game_id } => cur_player_index_answer(
                *store,
                game_id,
                cur_player_index_in(r),
            ),
            QueryMsg::DecryptRecord { game_id, card_index } => decrypt_record_answer(
                *store,
                game_id,
                card_index,
                decrypt_record_in(r),
            ),
            QueryMsg::AggregatedPk { game_id } => aggregated_pk_answer(
                *store,
                game_id,
                aggregated_pk_in(r),
            ),
            QueryMsg::Deck { game_id } => deck_answer(*store, game_id, deck_in(r)),
            QueryMsg::PlayerIndex { game_id, address } => player_index_answer(
                *store,
                game_id,
                address,
                player_index_in(r),
            ),
            QueryMsg::CardValue { game_id, card_index } => card_value_answer(
                *store,
                game_id,
                card_index,
                card_value_in(r),
            ),
        },
{
    match msg {
        QueryMsg::GameInfo { game_id } => match query_game_info(store, game_id) {
            Ok(v) => Ok(QueryResponse::GameInfo(v)),
            Err(e) => Err(e),
        },
        QueryMsg::GameState { game_id } => match query_game_state(store, game_id) {
            Ok(v) => Ok(QueryResponse::GameState(v)),
            Err(e) => Err(e),
        },
        QueryMsg::NumCards { game_id } => match query_num_cards(store, game_id) {
            Ok(v) => Ok(QueryResponse::NumCards(v)),
            Err(e) => Err(e),
        },
        QueryMsg::CurPlayerIndex { game_id } => match query_cur_player_index(store, game_id) {
            Ok(v) => Ok(QueryResponse::CurPlayerIndex(v)),
            Err(e) => Err(e),
        },
        QueryMsg::DecryptRecord { game_id, card_index } => match query_decrypt_record(
            store,
            game_id,
            card_index,
        ) {
            Ok(v) => Ok(QueryResponse::DecryptRecord(v)),
            Err(e) => Err(e),
        },
        QueryMsg::AggregatedPk { game_id } => match query_aggregated_pk(store, game_id) {
            Ok(v) => Ok(QueryResponse::AggregatedPk(v)),
            Err(e) => Err(e),
        },
        QueryMsg::Deck { game_id } => match query_deck(store, game_id) {
            Ok(v) => Ok(QueryResponse::Deck(v)),
            Err(e) => Err(e),
        },
        QueryMsg::PlayerIndex { game_id, address } => match query_player_index(
            store,
            game_id,
            address,
        ) {
            Ok(v) => Ok(QueryResponse::PlayerIndex(v)),
            Err(e) => Err(e),
        },
        QueryMsg::CardValue { game_id, card_index } => match query_card_value(
            store,
            game_id,
            card_index,
        ) {
            Ok(v) => Ok(QueryResponse::CardValue(v)),
            Err(e) => Err(e),
        },
    }
}

} // verus!
