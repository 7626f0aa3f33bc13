//! The illustrative turn-based elimination card game.
//!
//! Each player starts holding one hidden card from a shuffled deck.
//! A turn draws one card and then plays exactly one held card, either
//! placing a protective marker on a target or attempting to eliminate
//! an unprotected target's hidden card through a two-step card swap.
//! The game ends when the draw deck is exhausted; the winner is
//! whoever holds the princess.
//!
//! `game_step` is the mathematical transition function; `action` is
//! proved to implement it exactly.

use vstd::prelude::*;
use vstd::string::StringExecFns;

use crate::errors::GameError;
use crate::search::{first_where, lemma_first_where, lemma_first_where_unique};

verus! {

/// A card of the reference game.
#[derive(Debug, Clone, Copy, PartialEq, Eq, Structural)]
pub enum TestGameCard {
    /// The designated winning card; it can never be played.
    Princess,
    /// Shields its holder from elimination attempts.
    Protect,
    /// Attempts to eliminate an unprotected target's hidden card.
    Stabby,
}

/// The game's internal state-machine position, gating which actions
/// are valid.
#[derive(Debug, Clone, Copy, PartialEq, Eq, Structural)]
pub enum TestGamePhase {
    /// The current player has yet to draw.
    BeforeTurn,
    /// The current player has drawn and must play a card.
    Turn,
    /// An elimination succeeded; the initiator picks the card to hand
    /// back to the swapped player.
    DecidingStabby,
    /// The deck ran out and a winner was determined.
    Ended,
}

/// The deck a draw action names. Only the main draw deck exists.
#[derive(Debug, Clone, Copy, PartialEq, Eq, Structural)]
pub enum TestGameDeck {
    /// The main draw deck.
    Deck,
}

/// One action of the reference game.
#[derive(Debug, Clone)]
pub enum TestGameAction {
    /// Draw one card from the named deck.
    Draw { user: String, deck: TestGameDeck },
    /// Play one held card on a target player (possibly oneself).
    Play { user: String, card: TestGameCard, target: String },
}

/// Mathematical model of a `TestGameAction`.
pub enum GameActionModel {
    /// Draw one card from the main deck.
    Draw { user: Seq<char> },
    /// Play one held card on a target player.
    Play { user: Seq<char>, card: TestGameCard, target: Seq<char> },
}

impl View for TestGameAction {
    type V = GameActionModel;

    open spec fn view(&self) -> GameActionModel {
        match self {
            TestGameAction::Draw { user, deck } => GameActionModel::Draw { user: user@ },
            TestGameAction::Play { user, card, target } => GameActionModel::Play {
                user: user@,
                card: *card,
                target: target@,
            },
        }
    }
}

/// Mathematical model of a `TestGame`: the hands are sequences of
/// cards, the log a sequence of lines, indexed in roster order.
#[verifier::ext_equal]
pub struct GameModel {
    /// Roster in (shuffled) seating order.
    pub players: Seq<String>,
    /// Index of the player whose turn it is.
    pub current: int,
    /// State-machine position.
    pub phase: TestGamePhase,
    /// Face-up cards per player (protective markers).
    pub up_hands: Seq<Seq<TestGameCard>>,
    /// Hidden cards per player.
    pub down_hands: Seq<Seq<TestGameCard>>,
    /// Remaining draw deck; cards are drawn from the end.
    pub deck: Seq<TestGameCard>,
    /// Discard pile, most recent last.
    pub discard: Seq<TestGameCard>,
    /// Human-readable event log.
    pub log: Seq<Seq<char>>,
}

/// The per-player hands as sequences.
pub open spec fn hand_views(hs: Seq<Vec<TestGameCard>>) -> Seq<Seq<TestGameCard>> {
    hs.map_values(|h: Vec<TestGameCard>| h@)
}

/// The log lines as character sequences.
pub open spec fn log_views(log: Seq<String>) -> Seq<Seq<char>> {
    log.map_values(|s: String| s@)
}

/// The predicate "this roster entry is named `user`".
pub open spec fn name_matches(user: Seq<char>) -> spec_fn(String) -> bool {
    |p: String| p@ == user
}

/// The predicate "this card is `c`".
pub open spec fn card_matches(c: TestGameCard) -> spec_fn(TestGameCard) -> bool {
    |x: TestGameCard| x == c
}

/// The predicate "this hand holds the princess".
pub open spec fn holds_princess() -> spec_fn(Seq<TestGameCard>) -> bool {
    |h: Seq<TestGameCard>| hand_has(h, TestGameCard::Princess)
}

/// Index of the first roster entry named `user`, or the roster length
/// if no entry matches.
pub open spec fn player_index(players: Seq<String>, user: Seq<char>) -> int {
    first_where(players, name_matches(user))
}

/// Whether some roster entry is named `user`.
pub open spec fn roster_has(players: Seq<String>, user: Seq<char>) -> bool {
    player_index(players, user) < players.len()
}

/// Index of the first `c` in `hand`, or the hand length if `c` is not
/// held.
pub open spec fn card_index(hand: Seq<TestGameCard>, c: TestGameCard) -> int {
    first_where(hand, card_matches(c))
}

/// Whether `hand` holds at least one `c`.
pub open spec fn hand_has(hand: Seq<TestGameCard>, c: TestGameCard) -> bool {
    exists|k: int| 0 <= k < hand.len() && hand[k] == c
}

/// Index of the first hand holding the princess, or the number of
/// hands if none does.
pub open spec fn princess_index(hands: Seq<Seq<TestGameCard>>) -> int {
    first_where(hands, holds_princess())
}

/// The log rendering of a card.
pub open spec fn card_name_spec(c: TestGameCard) -> Seq<char> {
    match c {
        TestGameCard::Princess => "Princess"@,
        TestGameCard::Protect => "Protect"@,
        TestGameCard::Stabby => "Stabby"@,
    }
}

/// Log line for a player who tried to play before drawing.
pub open spec fn needs_draw_line(name: Seq<char>) -> Seq<char> {
    name + " needs to draw.."@
}

/// Log line for an elimination blocked by a protective marker.
pub open spec fn protected_line(name: Seq<char>) -> Seq<char> {
    name + " is protected..."@
}

/// Log line for a card played on a target.
pub open spec fn played_line(user: Seq<char>, card: TestGameCard, target: Seq<char>) -> Seq<char> {
    user + " played "@ + card_name_spec(card) + " on "@ + target
}

/// Log line naming the princess holder at game end.
pub open spec fn princess_line(name: Seq<char>) -> Seq<char> {
    name + " has the Princess"@
}

/// Log line naming the winner at game end.
pub open spec fn wins_line(name: Seq<char>) -> Seq<char> {
    name + " wins!"@
}

/// `g` with one more log line.
pub open spec fn model_log(g: GameModel, line: Seq<char>) -> GameModel {
    GameModel { log: g.log.push(line), ..g }
}

/// Close the turn: with the deck exhausted, resolve the winner and
/// end the game; otherwise move to the next player's `BeforeTurn` and
/// discard that player's face-up cards.
pub open spec fn end_turn_spec(g: GameModel) -> GameModel {
    if g.deck.len() == 0 {
        let w = princess_index(g.down_hands);
        if w < g.down_hands.len() {
            GameModel {
                phase: TestGamePhase::Ended,
                log: g.log + seq![princess_line(g.players[w]@), wins_line(g.players[w]@)],
                ..g
            }
        } else {
            GameModel {
                phase: TestGamePhase::Ended,
                log: g.log + seq!["No one one??"@, "How did you pull that off?"@],
                ..g
            }
        }
    } else {
        let nxt = (g.current + 1) % (g.players.len() as int);
        GameModel {
            current: nxt,
            phase: TestGamePhase::BeforeTurn,
            discard: g.discard + g.up_hands[nxt],
            up_hands: g.up_hands.update(nxt, Seq::empty()),
            ..g
        }
    }
}

/// Draw during `BeforeTurn`: the current player takes the top deck
/// card into their hidden hand and the phase moves to `Turn`.
pub open spec fn step_draw(g: GameModel, user: Seq<char>) -> (GameModel, Result<(), GameError>) {
    let u = player_index(g.players, user);
    if u >= g.players.len() {
        (g, Err(GameError::UnknownPlayer))
    } else if u != g.current {
        (g, Err(GameError::NotYourTurn))
    } else if g.deck.len() == 0 {
        (g, Err(GameError::EmptyDeck))
    } else {
        let card = g.deck.last();
        (
            GameModel {
                deck: g.deck.drop_last(),
                down_hands: g.down_hands.update(u, g.down_hands[u].push(card)),
                phase: TestGamePhase::Turn,
                ..g
            },
            Ok(()),
        )
    }
}

/// Play during `BeforeTurn`: a reminder that the current player must
/// draw first; accepted so the reminder is broadcast.
pub open spec fn step_play_before(g: GameModel, user: Seq<char>) -> (
    GameModel,
    Result<(), GameError>,
) {
    let u = player_index(g.players, user);
    if u >= g.players.len() {
        (g, Err(GameError::UnknownPlayer))
    } else if u != g.current {
        (g, Err(GameError::NotYourTurn))
    } else {
        (model_log(g, needs_draw_line(g.players[u]@)), Ok(()))
    }
}

/// Shared tail of a play: remove the played card from the player's
/// hidden hand, log the play, and close the turn. The card's own
/// effect in `g1` has already been applied, so a missing card fails
/// with that partial mutation committed.
pub open spec fn finish_play(g1: GameModel, u: int, card: TestGameCard, t: int) -> (
    GameModel,
    Result<(), GameError>,
) {
    if hand_has(g1.down_hands[u], card) {
        let i = card_index(g1.down_hands[u], card);
        let g2 = GameModel { down_hands: g1.down_hands.update(u, g1.down_hands[u].remove(i)), ..g1 };
        let g3 = model_log(g2, played_line(g1.players[u]@, card, g1.players[t]@));
        (end_turn_spec(g3), Ok(()))
    } else {
        (g1, Err(GameError::CardNotHeld))
    }
}

/// Play during `Turn`: protect a target, discard a stab at oneself,
/// or attempt an elimination, which moves to `DecidingStabby`.
pub open spec fn step_play_turn(
    g: GameModel,
    user: Seq<char>,
    card: TestGameCard,
    target: Seq<char>,
) -> (GameModel, Result<(), GameError>) {
    let u = player_index(g.players, user);
    if u >= g.players.len() {
        (g, Err(GameError::UnknownPlayer))
    } else if u != g.current {
        (g, Err(GameError::NotYourTurn))
    } else {
        let t = player_index(g.players, target);
        if t >= g.players.len() {
            (g, Err(GameError::UnknownPlayer))
        } else {
            match card {
                TestGameCard::Princess => (g, Err(GameError::PlayedPrincess)),
                TestGameCard::Protect => finish_play(
                    GameModel { up_hands: g.up_hands.update(t, g.up_hands[t].push(card)), ..g },
                    u,
                    card,
                    t,
                ),
                TestGameCard::Stabby => {
                    if t != u {
                        step_stab(g, u, t)
                    } else {
                        finish_play(GameModel { discard: g.discard.push(card), ..g }, u, card, t)
                    }
                },
            }
        }
    }
}

/// The partial state of an elimination attempt: the target's last
/// hidden card has moved to the initiator's hand, and nothing else
/// has happened yet.
pub open spec fn step_stab_partial(g: GameModel, u: int, t: int) -> GameModel {
    let tc = g.down_hands[t].last();
    let d1 = g.down_hands.update(t, g.down_hands[t].drop_last());
    let d2 = d1.update(u, d1[u].push(tc));
    GameModel { down_hands: d2, ..g }
}

/// An elimination attempt by `u` on another player `t`: blocked by a
/// protective marker; otherwise `t`'s hidden card moves to `u`'s hand
/// and `u` surrenders a stab, leaving the swap to be resolved in
/// `DecidingStabby`.
pub open spec fn step_stab(g: GameModel, u: int, t: int) -> (GameModel, Result<(), GameError>) {
    if hand_has(g.up_hands[t], TestGameCard::Protect) {
        (model_log(g, protected_line(g.players[t]@)), Ok(()))
    } else if g.down_hands[t].len() == 0 {
        (g, Err(GameError::TargetHasNoCards))
    } else {
        let g1 = step_stab_partial(g, u, t);
        if hand_has(g1.down_hands[u], TestGameCard::Stabby) {
            let i = card_index(g1.down_hands[u], TestGameCard::Stabby);
            let g2 = GameModel {
                down_hands: g1.down_hands.update(u, g1.down_hands[u].remove(i)),
                ..g1
            };
            let g3 = model_log(
                g2,
                played_line(g.players[u]@, TestGameCard::Stabby, g.players[t]@),
            );
            (GameModel { phase: TestGamePhase::DecidingStabby, ..g3 }, Ok(()))
        } else {
            (g1, Err(GameError::CardNotHeld))
        }
    }
}

/// Resolve the swap during `DecidingStabby`: the initiator hands one
/// held card to the swapped player, recognized as the player with no
/// hidden cards, and the turn closes.
pub open spec fn step_play_deciding(
    g: GameModel,
    user: Seq<char>,
    card: TestGameCard,
    target: Seq<char>,
) -> (GameModel, Result<(), GameError>) {
    let u = player_index(g.players, user);
    if u >= g.players.len() {
        (g, Err(GameError::UnknownPlayer))
    } else if u != g.current {
        (g, Err(GameError::NotYourTurn))
    } else {
        let t = player_index(g.players, target);
        if t >= g.players.len() {
            (g, Err(GameError::UnknownPlayer))
        } else if g.down_hands[t].len() > 0 {
            (g, Err(GameError::NotSwappedPlayer))
        } else if !hand_has(g.down_hands[u], card) {
            (g, Err(GameError::CardNotHeld))
        } else {
            let i = card_index(g.down_hands[u], card);
            let d1 = g.down_hands.update(u, g.down_hands[u].remove(i));
            let d2 = d1.update(t, d1[t].push(card));
            (end_turn_spec(GameModel { down_hands: d2, ..g }), Ok(()))
        }
    }
}

/// The game's transition function: what one action does to the state
/// and whether it is accepted. A draw outside `BeforeTurn`, or any
/// action after the game ended, is out of phase.
pub open spec fn game_step(g: GameModel, a: GameActionModel) -> (GameModel, Result<(), GameError>) {
    match (a, g.phase) {
        (GameActionModel::Draw { user }, TestGamePhase::BeforeTurn) => step_draw(g, user),
        (GameActionModel::Play { user, .. }, TestGamePhase::BeforeTurn) => step_play_before(
            g,
            user,
        ),
        (GameActionModel::Play { user, card, target }, TestGamePhase::Turn) => step_play_turn(
            g,
            user,
            card,
            target,
        ),
        (
            GameActionModel::Play { user, card, target },
            TestGamePhase::DecidingStabby,
        ) => step_play_deciding(g, user, card, target),
        _ => (g, Err(GameError::WrongPhase)),
    }
}

/// Rejected actions leave the game unchanged, except the elimination
/// paths that commit a partial card move before discovering the
/// played card is not held.
pub proof fn lemma_rejected_unchanged(g: GameModel, a: GameActionModel)
    requires
        game_step(g, a).1 is Err,
        game_step(g, a).1 != Err::<(), GameError>(GameError::CardNotHeld),
    ensures
        game_step(g, a).0 == g,
{
}

/// The freshly dealt state: each player takes one card from the end
/// of `d` in roster order, no face-up cards, player 0 to act first.
pub open spec fn deal_spec(ps: Seq<String>, d: Seq<TestGameCard>) -> GameModel {
    GameModel {
        players: ps,
        current: 0,
        phase: TestGamePhase::BeforeTurn,
        down_hands: Seq::new(ps.len(), |i: int| seq![d[d.len() - 1 - i]]),
        up_hands: Seq::new(ps.len(), |i: int| Seq::empty()),
        deck: d.take(d.len() - ps.len()),
        discard: Seq::empty(),
        log: seq!["Waiting for players..."@, "Shuffling..."@, "Game started"@],
    }
}

/// The unshuffled deck for `n` players: one princess, about half a
/// protect per player, and two stabs per player and change.
pub open spec fn full_deck(n: int) -> Seq<TestGameCard> {
    seq![TestGameCard::Princess] + Seq::new(((n + 1) / 2) as nat, |i: int| TestGameCard::Protect)
        + Seq::new(((n + 1) * 2) as nat, |i: int| TestGameCard::Stabby)
}

/// What starting a game guarantees: `m` is a deal of some seating
/// order drawn from `roster` and some shuffle of the full deck.
pub open spec fn fresh_game(m: GameModel, roster: Seq<String>) -> bool {
    exists|ps: Seq<String>, d: Seq<TestGameCard>|
        {
            &&& ps.len() == roster.len()
            &&& ps.to_multiset() == roster.to_multiset()
            &&& d.len() == full_deck(ps.len() as int).len()
            &&& d.to_multiset() == full_deck(ps.len() as int).to_multiset()
            &&& m == deal_spec(ps, d)
        }
}

/// The reference game: roster, turn cursor, phase, hands, deck,
/// discard pile and event log.
#[derive(Debug)]
pub struct TestGame {
    /// Roster in seating order.
    pub players: Vec<String>,
    /// Index of the player whose turn it is.
    pub current: usize,
    /// State-machine position.
    pub phase: TestGamePhase,
    /// Face-up cards per player.
    pub up_hands: Vec<Vec<TestGameCard>>,
    /// Hidden cards per player.
    pub down_hands: Vec<Vec<TestGameCard>>,
    /// Remaining draw deck; cards are drawn from the end.
    pub deck: Vec<TestGameCard>,
    /// Discard pile, most recent last.
    pub discard: Vec<TestGameCard>,
    /// Human-readable event log.
    pub log: Vec<String>,
}

impl View for TestGame {
    type V = GameModel;

    open spec fn view(&self) -> GameModel {
        GameModel {
            players: self.players@,
            current: self.current as int,
            phase: self.phase,
            up_hands: hand_views(self.up_hands@),
            down_hands: hand_views(self.down_hands@),
            deck: self.deck@,
            discard: self.discard@,
            log: log_views(self.log@),
        }
    }
}

/// Both hand tables cover exactly the roster, and the turn cursor
/// stays inside it.
pub open spec fn model_wf(m: GameModel) -> bool {
    &&& m.up_hands.len() == m.players.len()
    &&& m.down_hands.len() == m.players.len()
    &&& (m.players.len() == 0 ==> m.current == 0)
    &&& (m.players.len() > 0 ==> m.current < m.players.len())
}

impl TestGame {
    /// The state is well formed as a model.
    pub open spec fn wf(self) -> bool {
        model_wf(self@)
    }
}

/// `player_index` is in `0..=len`, names the first matching entry
/// when in range, and is in range exactly when the roster has `user`.
pub proof fn lemma_player_index(players: Seq<String>, user: Seq<char>)
    ensures
        0 <= player_index(players, user) <= players.len(),
        player_index(players, user) < players.len() ==> players[player_index(players, user)]@
            == user,
        forall|k: int| 0 <= k < player_index(players, user) ==> players[k]@ != user,
        (exists|k: int| 0 <= k < players.len() && players[k]@ == user) <==> roster_has(
            players,
            user,
        ),
{
    lemma_first_where(players, name_matches(user));
}

/// `card_index` is in `0..=len`, names the first held `c` when in
/// range, and is in range exactly when the hand holds `c`.
pub proof fn lemma_card_index(hand: Seq<TestGameCard>, c: TestGameCard)
    ensures
        0 <= card_index(hand, c) <= hand.len(),
        card_index(hand, c) < hand.len() ==> hand[card_index(hand, c)] == c,
        forall|k: int| 0 <= k < card_index(hand, c) ==> hand[k] != c,
        hand_has(hand, c) <==> card_index(hand, c) < hand.len(),
{
    lemma_first_where(hand, card_matches(c));
}

/// `princess_index` is in `0..=len`, names the first princess-holding
/// hand when in range, and is in range exactly when one exists.
pub proof fn lemma_princess_index(hands: Seq<Seq<TestGameCard>>)
    ensures
        0 <= princess_index(hands) <= hands.len(),
        princess_index(hands) < hands.len() ==> hand_has(
            hands[princess_index(hands)],
            TestGameCard::Princess,
        ),
        forall|k: int|
            0 <= k < princess_index(hands) ==> !hand_has(hands[k], TestGameCard::Princess),
        (exists|k: int| 0 <= k < hands.len() && hand_has(hands[k], TestGameCard::Princess)) <==> (
        princess_index(hands) < hands.len()),
{
    lemma_first_where(hands, holds_princess());
}

/// Whether `hand` holds at least one `c`.
fn hand_contains(hand: &Vec<TestGameCard>, c: TestGameCard) -> (r: bool)
    ensures
        r == hand_has(hand@, c),
{
    let mut i: usize = 0;
    while i < hand.len()
        invariant
            i <= hand@.len(),
            forall|k: int| 0 <= k < i ==> hand@[k] != c,
        decreases hand@.len() - i,
    {
        if hand[i] == c {
            return true;
        }
        i += 1;
    }
    false
}

/// Index of the first `c` in `hand`, or `None` if it is not held.
fn position_of_card(hand: &Vec<TestGameCard>, c: TestGameCard) -> (r: Option<usize>)
    ensures
        match r {
            Some(i) => {
                &&& (i as int) < hand@.len()
                &&& i as int == card_index(hand@, c)
                &&& hand_has(hand@, c)
            },
            None => !hand_has(hand@, c),
        },
{
    let mut i: usize = 0;
    while i < hand.len()
        invariant
            i <= hand@.len(),
            forall|k: int| 0 <= k < i ==> hand@[k] != c,
        decreases hand@.len() - i,
    {
        if hand[i] == c {
            proof {
                lemma_first_where_unique(hand@, card_matches(c), i as int);
            }
            return Some(i);
        }
        i += 1;
    }
    proof {
        lemma_card_index(hand@, c);
    }
    None
}

/// Append `c` to the hand at `i`.
fn hand_push(hands: &mut Vec<Vec<TestGameCard>>, i: usize, c: TestGameCard)
    requires
        (i as int) < old(hands)@.len(),
    ensures
        hand_views(final(hands)@) == hand_views(old(hands)@).update(
            i as int,
            hand_views(old(hands)@)[i as int].push(c),
        ),
        final(hands)@.len() == old(hands)@.len(),
{
    hands[i].push(c);
    proof {
        assert(hand_views(hands@) =~= hand_views(old(hands)@).update(
            i as int,
            hand_views(old(hands)@)[i as int].push(c),
        ));
    }
}

/// Remove and return the last card of the hand at `i`.
fn hand_take_last(hands: &mut Vec<Vec<TestGameCard>>, i: usize) -> (c: TestGameCard)
    requires
        (i as int) < old(hands)@.len(),
        hand_views(old(hands)@)[i as int].len() > 0,
    ensures
        c == hand_views(old(hands)@)[i as int].last(),
        hand_views(final(hands)@) == hand_views(old(hands)@).update(
            i as int,
            hand_views(old(hands)@)[i as int].drop_last(),
        ),
        final(hands)@.len() == old(hands)@.len(),
{
    let c = hands[i].pop().unwrap();
    proof {
        assert(hand_views(hands@) =~= hand_views(old(hands)@).update(
            i as int,
            hand_views(old(hands)@)[i as int].drop_last(),
        ));
    }
    c
}

/// Remove the card at index `j` of the hand at `i`.
fn hand_discard_at(hands: &mut Vec<Vec<TestGameCard>>, i: usize, j: usize)
    requires
        (i as int) < old(hands)@.len(),
        (j as int) < hand_views(old(hands)@)[i as int].len(),
    ensures
        hand_views(final(hands)@) == hand_views(old(hands)@).update(
            i as int,
            hand_views(old(hands)@)[i as int].remove(j as int),
        ),
        final(hands)@.len() == old(hands)@.len(),
{
    let _ = hands[i].remove(j);
    proof {
        assert(hand_views(hands@) =~= hand_views(old(hands)@).update(
            i as int,
            hand_views(old(hands)@)[i as int].remove(j as int),
        ));
    }
}

/// Empty the hand at `i`.
fn hand_clear(hands: &mut Vec<Vec<TestGameCard>>, i: usize)
    requires
        (i as int) < old(hands)@.len(),
    ensures
        hand_views(final(hands)@) == hand_views(old(hands)@).update(
            i as int,
            Seq::<TestGameCard>::empty(),
        ),
        final(hands)@.len() == old(hands)@.len(),
{
    hands[i].clear();
    proof {
        assert(hand_views(hands@) =~= hand_views(old(hands)@).update(
            i as int,
            Seq::<TestGameCard>::empty(),
        ));
    }
}

impl TestGame {
    /// Index of the first roster entry named `user`, or
    /// `UnknownPlayer` if no entry matches.
    pub fn find_player(&self, user: &String) -> (r: Result<usize, GameError>)
        ensures
            match r {
                Ok(i) => {
                    &&& (i as int) < self@.players.len()
                    &&& i as int == player_index(self@.players, user@)
                    &&& self@.players[i as int]@ == user@
                },
                Err(e) => {
                    &&& e == GameError::UnknownPlayer
                    &&& !roster_has(self@.players, user@)
                },
            },
    {
        let mut i: usize = 0;
        while i < self.players.len()
            invariant
                i <= self.players@.len(),
                forall|k: int| 0 <= k < i ==> self.players@[k]@ != user@,
            decreases self.players@.len() - i,
        {
            if self.players[i] == *user {
                proof {
                    lemma_first_where_unique(self.players@, name_matches(user@), i as int);
                }
                return Ok(i);
            }
            i += 1;
        }
        proof {
            lemma_player_index(self.players@, user@);
        }
        Err(GameError::UnknownPlayer)
    }

    /// Close the turn: with the deck exhausted, log the winner (the
    /// princess holder, if any) and end the game; otherwise pass the
    /// turn to the next player and discard their face-up cards.
    pub fn end_turn(&mut self)
        requires
            old(self).wf(),
            old(self)@.players.len() > 0,
        ensures
            final(self).wf(),
            final(self)@ == end_turn_spec(old(self)@),
    {
        let ghost g0 = self@;
        if self.deck.len() == 0 {
            let n = self.down_hands.len();
            let mut w: usize = 0;
            let mut found = false;
            while !found && w < n
                invariant
                    w <= n,
                    n == self@.down_hands.len(),
                    self == old(self),
                    forall|k: int|
                        0 <= k < w ==> !hand_has(self@.down_hands[k], TestGameCard::Princess),
                    found ==> w < n && hand_has(self@.down_hands[w as int], TestGameCard::Princess),
                decreases n - w + (if found { 0int } else { 1int }),
            {
                if hand_contains(&self.down_hands[w], TestGameCard::Princess) {
                    found = true;
                } else {
                    w += 1;
                }
            }
            if found {
                proof {
                    assert(holds_princess()(g0.down_hands[w as int]));
                    lemma_first_where_unique(g0.down_hands, holds_princess(), w as int);
                }
                let name = self.players[w].clone();
                self.log.push(name.clone().concat(" has the Princess"));
                self.log.push(name.concat(" wins!"));
            } else {
                proof {
                    lemma_princess_index(g0.down_hands);
                }
                self.log.push("No one one??".to_owned());
                self.log.push("How did you pull that off?".to_owned());
            }
            self.phase = TestGamePhase::Ended;
            proof {
                assert(self@.log =~= end_turn_spec(g0).log);
                assert(self@ =~= end_turn_spec(g0));
            }
        } else {
            let len = self.players.len();
            assert(self.current < len);
            let nxt = (self.current + 1) % len;
            self.current = nxt;
            self.phase = TestGamePhase::BeforeTurn;
            let ghost g1 = self@;
            let m = self.up_hands[nxt].len();
            let mut j: usize = 0;
            while j < m
                invariant
                    j <= m,
                    nxt < g1.up_hands.len(),
                    m == g1.up_hands[nxt as int].len(),
                    self@ == (GameModel {
                        discard: g1.discard + g1.up_hands[nxt as int].take(j as int),
                        ..g1
                    }),
                decreases m - j,
            {
                let c = self.up_hands[nxt][j];
                self.discard.push(c);
                j += 1;
                proof {
                    assert(g1.discard + g1.up_hands[nxt as int].take(j as int) =~= (g1.discard
                        + g1.up_hands[nxt as int].take(j - 1)).push(
                        g1.up_hands[nxt as int][j - 1],
                    ));
                    assert(self@ =~= (GameModel {
                        discard: g1.discard + g1.up_hands[nxt as int].take(j as int),
                        ..g1
                    }));
                }
            }
            hand_clear(&mut self.up_hands, nxt);
            proof {
                assert(g1.up_hands[nxt as int].take(m as int) =~= g1.up_hands[nxt as int]);
                assert(self@ =~= end_turn_spec(g0));
            }
        }
    }
}

/// The log rendering of a card.
pub fn card_name(c: TestGameCard) -> (r: String)
    ensures
        r@ == card_name_spec(c),
{
    match c {
        TestGameCard::Princess => "Princess".to_owned(),
        TestGameCard::Protect => "Protect".to_owned(),
        TestGameCard::Stabby => "Stabby".to_owned(),
    }
}

/// Relies on rand's `SliceRandom::shuffle`: it permutes the slice in
/// place, so the length and the multiset of elements are unchanged.
#[verifier::external_body]
fn shuffle<T>(v: &mut Vec<T>)
    ensures
        final(v)@.len() == old(v)@.len(),
        final(v)@.to_multiset() == old(v)@.to_multiset(),
{
    rand::seq::SliceRandom::shuffle(&mut v[..], &mut rand::thread_rng())
}

/// An element-wise copy of a list of names.
pub fn clone_names(v: &Vec<String>) -> (r: Vec<String>)
    ensures
        r@ == v@,
{
    let mut r: Vec<String> = Vec::new();
    let mut i: usize = 0;
    while i < v.len()
        invariant
            i <= v@.len(),
            r@ == v@.take(i as int),
        decreases v@.len() - i,
    {
        r.push(v[i].clone());
        i += 1;
        proof {
            assert(v@.take(i as int) =~= v@.take(i - 1).push(v@[i - 1]));
        }
    }
    proof {
        assert(v@.take(v@.len() as int) =~= v@);
    }
    r
}

/// An element-wise copy of a hand.
fn clone_cards(v: &Vec<TestGameCard>) -> (r: Vec<TestGameCard>)
    ensures
        r@ == v@,
{
    let mut r: Vec<TestGameCard> = Vec::new();
    let mut i: usize = 0;
    while i < v.len()
        invariant
            i <= v@.len(),
            r@ == v@.take(i as int),
        decreases v@.len() - i,
    {
        r.push(v[i]);
        i += 1;
        proof {
            assert(v@.take(i as int) =~= v@.take(i - 1).push(v@[i - 1]));
        }
    }
    proof {
        assert(v@.take(v@.len() as int) =~= v@);
    }
    r
}

/// An element-wise copy of a hand table.
fn clone_hands(v: &Vec<Vec<TestGameCard>>) -> (r: Vec<Vec<TestGameCard>>)
    ensures
        hand_views(r@) == hand_views(v@),
{
    let mut r: Vec<Vec<TestGameCard>> = Vec::new();
    let mut i: usize = 0;
    while i < v.len()
        invariant
            i <= v@.len(),
            r@.len() == i,
            forall|j: int| 0 <= j < i ==> r@[j]@ == v@[j]@,
        decreases v@.len() - i,
    {
        r.push(clone_cards(&v[i]));
        i += 1;
    }
    proof {
        assert(hand_views(r@) =~= hand_views(v@));
    }
    r
}

/// What a game-state snapshot shows: exactly the model `m`, with the
/// deck reduced to its size and the discard pile to its top card.
pub open spec fn snapshot_matches(r: TestGameState, m: GameModel) -> bool {
    &&& r.players@ == m.players
    &&& r.current_player == (if m.players.len() > 0 {
        Some(m.players[m.current])
    } else {
        None::<String>
    })
    &&& r.phase == m.phase
    &&& hand_views(r.down_hands@) == m.down_hands
    &&& hand_views(r.up_hands@) == m.up_hands
    &&& r.deck_count == m.deck.len()
    &&& r.discard_top == (if m.discard.len() > 0 {
        Some(m.discard.last())
    } else {
        None::<TestGameCard>
    })
    &&& r.discard_count == m.discard.len()
    &&& log_views(r.log@) == m.log
}

/// The game-state snapshot a broadcast carries: everything a client
/// renders, recomputed from the current state.
#[derive(Debug)]
pub struct TestGameState {
    /// Roster in seating order.
    pub players: Vec<String>,
    /// Name of the player whose turn it is, absent for an empty
    /// roster.
    pub current_player: Option<String>,
    /// State-machine position.
    pub phase: TestGamePhase,
    /// Hidden cards per player, in roster order.
    pub down_hands: Vec<Vec<TestGameCard>>,
    /// Face-up cards per player, in roster order.
    pub up_hands: Vec<Vec<TestGameCard>>,
    /// Cards left in the draw deck.
    pub deck_count: usize,
    /// Most recently discarded card, if any.
    pub discard_top: Option<TestGameCard>,
    /// Size of the discard pile.
    pub discard_count: usize,
    /// Human-readable event log.
    pub log: Vec<String>,
}

impl TestGame {
    /// Deal a fresh game deterministically: each player takes one
    /// card from the end of `deck` in roster order, player 0 acts
    /// first, and nothing is shuffled.
    pub fn from_deck(players: Vec<String>, deck: Vec<TestGameCard>) -> (g: TestGame)
        requires
            players@.len() <= deck@.len(),
        ensures
            g.wf(),
            g@ == deal_spec(players@, deck@),
    {
        let ghost ps = players@;
        let ghost d = deck@;
        let n = players.len();
        let mut deck = deck;
        let mut down_hands: Vec<Vec<TestGameCard>> = Vec::new();
        let mut i: usize = 0;
        while i < n
            invariant
                i <= n,
                n == ps.len(),
                ps.len() <= d.len(),
                deck@ == d.take(d.len() - i),
                down_hands@.len() == i,
                forall|j: int| 0 <= j < i ==> down_hands@[j]@ == seq![d[d.len() - 1 - j]],
            decreases n - i,
        {
            let c = deck.pop().unwrap();
            proof {
                assert(c == d[d.len() - 1 - i]);
                assert(deck@ =~= d.take(d.len() - (i + 1)));
            }
            let mut h: Vec<TestGameCard> = Vec::new();
            h.push(c);
            down_hands.push(h);
            proof {
                assert(h@ =~= seq![d[d.len() - 1 - i]]);
            }
            i += 1;
        }
        let mut up_hands: Vec<Vec<TestGameCard>> = Vec::new();
        let mut k: usize = 0;
        while k < n
            invariant
                k <= n,
                up_hands@.len() == k,
                forall|j: int| 0 <= j < k ==> up_hands@[j]@ == Seq::<TestGameCard>::empty(),
            decreases n - k,
        {
            up_hands.push(Vec::new());
            k += 1;
        }
        let mut log: Vec<String> = Vec::new();
        log.push("Waiting for players...".to_owned());
        log.push("Shuffling...".to_owned());
        log.push("Game started".to_owned());
        let g = TestGame {
            players,
            current: 0,
            phase: TestGamePhase::BeforeTurn,
            up_hands,
            down_hands,
            deck,
            discard: Vec::new(),
            log,
        };
        proof {
            assert(g@.down_hands =~= deal_spec(ps, d).down_hands);
            assert(g@.up_hands =~= deal_spec(ps, d).up_hands);
            assert(g@.log =~= deal_spec(ps, d).log);
            assert(g@ =~= deal_spec(ps, d));
        }
        g
    }

    /// Start a fresh game: shuffle the seating order, shuffle a deck
    /// sized to the roster, and deal one hidden card to each player.
    pub fn new(players: Vec<String>) -> (g: TestGame)
        requires
            3 * players@.len() + 4 <= usize::MAX,
        ensures
            g.wf(),
            fresh_game(g@, players@),
    {
        let ghost ps0 = players@;
        let mut players = players;
        shuffle(&mut players);
        let n = players.len();
        let mut deck: Vec<TestGameCard> = Vec::new();
        deck.push(TestGameCard::Princess);
        let protect_n = (n + 1) / 2;
        let mut i: usize = 0;
        while i < protect_n
            invariant
                i <= protect_n,
                deck@ == seq![TestGameCard::Princess] + Seq::new(
                    i as nat,
                    |j: int| TestGameCard::Protect,
                ),
            decreases protect_n - i,
        {
            deck.push(TestGameCard::Protect);
            i += 1;
            proof {
                assert(deck@ =~= seq![TestGameCard::Princess] + Seq::new(
                    i as nat,
                    |j: int| TestGameCard::Protect,
                ));
            }
        }
        let stabby_n = (n + 1) * 2;
        let ghost after_protect = deck@;
        let mut k: usize = 0;
        while k < stabby_n
            invariant
                k <= stabby_n,
                deck@ == after_protect + Seq::new(k as nat, |j: int| TestGameCard::Stabby),
            decreases stabby_n - k,
        {
            deck.push(TestGameCard::Stabby);
            k += 1;
            proof {
                assert(deck@ =~= after_protect + Seq::new(
                    k as nat,
                    |j: int| TestGameCard::Stabby,
                ));
            }
        }
        proof {
            assert(deck@ =~= full_deck(n as int));
        }
        shuffle(&mut deck);
        let ghost ps = players@;
        let ghost d = deck@;
        let g = TestGame::from_deck(players, deck);
        proof {
            assert(ps.len() == ps0.len());
            assert(ps.to_multiset() == ps0.to_multiset());
            assert(d.len() == full_deck(ps.len() as int).len());
            assert(d.to_multiset() == full_deck(ps.len() as int).to_multiset());
            assert(g@ == deal_spec(ps, d));
        }
        g
    }

    /// Shared tail of a play whose card effect is already applied:
    /// surrender the played card, log the play, and close the turn.
    fn finish_play_exec(&mut self, u: usize, card: TestGameCard, t: usize) -> (r: Result<
        (),
        GameError,
    >)
        requires
            old(self).wf(),
            (u as int) < old(self)@.players.len(),
            (t as int) < old(self)@.players.len(),
        ensures
            final(self).wf(),
            final(self)@ == finish_play(old(self)@, u as int, card, t as int).0,
            r == finish_play(old(self)@, u as int, card, t as int).1,
    {
        let ghost g1 = self@;
        match position_of_card(&self.down_hands[u], card) {
            Some(i) => {
                hand_discard_at(&mut self.down_hands, u, i);
                let cn = card_name(card);
                let line = self.players[u].clone().concat(" played ").concat(cn.as_str()).concat(
                    " on ",
                ).concat(self.players[t].as_str());
                self.log.push(line);
                proof {
                    assert(self@ =~= model_log(
                        GameModel {
                            down_hands: g1.down_hands.update(
                                u as int,
                                g1.down_hands[u as int].remove(i as int),
                            ),
                            ..g1
                        },
                        played_line(g1.players[u as int]@, card, g1.players[t as int]@),
                    ));
                }
                self.end_turn();
                Ok(())
            },
            None => Err(GameError::CardNotHeld),
        }
    }

    /// Validate and apply one action: draws and plays as gated by the
    /// current phase. Exactly implements `game_step`; on a rejection
    /// the state is unchanged, except for the partial mutation an
    /// elimination or card effect already committed.
    pub fn action(&mut self, action: TestGameAction) -> (r: Result<(), GameError>)
        requires
            old(self).wf(),
        ensures
            final(self).wf(),
            final(self)@ == game_step(old(self)@, action@).0,
            r == game_step(old(self)@, action@).1,
    {
        let ghost g0 = self@;
        let ghost av = action@;
        let phase = self.phase;
        match (action, phase) {
            (TestGameAction::Draw { user, deck: _ }, TestGamePhase::BeforeTurn) => {
                let u = match self.find_player(&user) {
                    Ok(u) => u,
                    Err(e) => {
                        return Err(e);
                    },
                };
                if u != self.current {
                    return Err(GameError::NotYourTurn);
                }
                if self.deck.len() == 0 {
                    return Err(GameError::EmptyDeck);
                }
                let card = self.deck.pop().unwrap();
                hand_push(&mut self.down_hands, u, card);
                self.phase = TestGamePhase::Turn;
                proof {
                    assert(self@.deck =~= g0.deck.drop_last());
                    assert(self@ =~= game_step(g0, av).0);
                }
                Ok(())
            },
            (TestGameAction::Play { user, .. }, TestGamePhase::BeforeTurn) => {
                let u = match self.find_player(&user) {
                    Ok(u) => u,
                    Err(e) => {
                        return Err(e);
                    },
                };
                if u != self.current {
                    return Err(GameError::NotYourTurn);
                }
                let line = self.players[u].clone().concat(" needs to draw..");
                self.log.push(line);
                proof {
                    assert(self@ =~= game_step(g0, av).0);
                }
                Ok(())
            },
            (TestGameAction::Play { user, card, target }, TestGamePhase::Turn) => {
                let u = match self.find_player(&user) {
                    Ok(u) => u,
                    Err(e) => {
                        return Err(e);
                    },
                };
                if u != self.current {
                    return Err(GameError::NotYourTurn);
                }
                let t = match self.find_player(&target) {
                    Ok(t) => t,
                    Err(e) => {
                        return Err(e);
                    },
                };
                match card {
                    TestGameCard::Princess => Err(GameError::PlayedPrincess),
                    TestGameCard::Protect => {
                        hand_push(&mut self.up_hands, t, card);
                        let ghost gm = self@;
                        let r = self.finish_play_exec(u, card, t);
                        proof {
                            assert(gm =~= (GameModel {
                                up_hands: g0.up_hands.update(
                                    t as int,
                                    g0.up_hands[t as int].push(card),
                                ),
                                ..g0
                            }));
                        }
                        r
                    },
                    TestGameCard::Stabby => {
                        if t != u {
                            if hand_contains(&self.up_hands[t], TestGameCard::Protect) {
                                let line = self.players[t].clone().concat(" is protected...");
                                self.log.push(line);
                                proof {
                                    assert(self@ =~= game_step(g0, av).0);
                                }
                                Ok(())
                            } else if self.down_hands[t].len() == 0 {
                                Err(GameError::TargetHasNoCards)
                            } else {
                                let tc = hand_take_last(&mut self.down_hands, t);
                                hand_push(&mut self.down_hands, u, tc);
                                proof {
                                    assert(self@ =~= step_stab_partial(g0, u as int, t as int));
                                }
                                match position_of_card(
                                    &self.down_hands[u],
                                    TestGameCard::Stabby,
                                ) {
                                    Some(i) => {
                                        hand_discard_at(&mut self.down_hands, u, i);
                                        let cn = card_name(TestGameCard::Stabby);
                                        let line = self.players[u].clone().concat(
                                            " played ",
                                        ).concat(cn.as_str()).concat(" on ").concat(
                                            self.players[t].as_str(),
                                        );
                                        self.log.push(line);
                                        self.phase = TestGamePhase::DecidingStabby;
                                        proof {
                                            assert(self@ =~= game_step(g0, av).0);
                                        }
                                        Ok(())
                                    },
                                    None => {
                                        proof {
                                            assert(self@ =~= game_step(g0, av).0);
                                        }
                                        Err(GameError::CardNotHeld)
                                    },
                                }
                            }
                        } else {
                            self.discard.push(card);
                            let ghost gm = self@;
                            let r = self.finish_play_exec(u, card, t);
                            proof {
                                assert(gm =~= (GameModel { discard: g0.discard.push(card), ..g0 }));
                            }
                            r
                        }
                    },
                }
            },
            (TestGameAction::Play { user, card, target }, TestGamePhase::DecidingStabby) => {
                let u = match self.find_player(&user) {
                    Ok(u) => u,
                    Err(e) => {
                        return Err(e);
                    },
                };
                if u != self.current {
                    return Err(GameError::NotYourTurn);
                }
                let t = match self.find_player(&target) {
                    Ok(t) => t,
                    Err(e) => {
                        return Err(e);
                    },
                };
                if self.down_hands[t].len() > 0 {
                    return Err(GameError::NotSwappedPlayer);
                }
                match position_of_card(&self.down_hands[u], card) {
                    None => Err(GameError::CardNotHeld),
                    Some(i) => {
                        hand_discard_at(&mut self.down_hands, u, i);
                        hand_push(&mut self.down_hands, t, card);
                        proof {
                            let d1 = g0.down_hands.update(
                                u as int,
                                g0.down_hands[u as int].remove(i as int),
                            );
                            assert(self@ =~= (GameModel {
                                down_hands: d1.update(t as int, d1[t as int].push(card)),
                                ..g0
                            }));
                        }
                        self.end_turn();
                        Ok(())
                    },
                }
            },
            _ => Err(GameError::WrongPhase),
        }
    }

    /// Human-readable phase description.
    pub fn status(&self) -> (r: String)
        ensures
            r@ == (if self@.phase is Ended {
                "ended"@
            } else {
                "in game"@
            }),
    {
        match self.phase {
            TestGamePhase::Ended => "ended".to_owned(),
            _ => "in game".to_owned(),
        }
    }

    /// Whether the game has reached its terminal condition.
    pub fn ended(&self) -> (r: bool)
        ensures
            r == (self@.phase is Ended),
    {
        match self.phase {
            TestGamePhase::Ended => true,
            _ => false,
        }
    }

    /// The current state snapshot, safe to call at any time; used for
    /// every broadcast and for a late subscriber's initial push.
    pub fn state(&self) -> (r: TestGameState)
        requires
            self.wf(),
        ensures
            snapshot_matches(r, self@),
    {
        let current_player = if self.players.len() > 0 {
            Some(self.players[self.current].clone())
        } else {
            None
        };
        let discard_top = if self.discard.len() > 0 {
            Some(self.discard[self.discard.len() - 1])
        } else {
            None
        };
        TestGameState {
            players: clone_names(&self.players),
            current_player,
            phase: self.phase,
            down_hands: clone_hands(&self.down_hands),
            up_hands: clone_hands(&self.up_hands),
            deck_count: self.deck.len(),
            discard_top,
            discard_count: self.discard.len(),
            log: clone_names(&self.log),
        }
    }
}

} // verus!
