use vstd::prelude::*;
use vstd::multiset::Multiset;

use crate::card::{Card, Palos, TrickWinner, resolve_trick, resolves_against, beats, trick_result};
use crate::deck::{Deck, full_deck, same_cards, shuffled, points_of};
use crate::score::{Score, Side, awarded, points_of_side, WIN_THRESHOLD};

verus! {

broadcast use vstd::seq_lib::group_to_multiset_ensures, vstd::multiset::group_multiset_axioms;

/// Smallest terminal width the game is drawn in.
pub const MIN_TERMINAL_WIDTH: u16 = 35;

/// Smallest terminal height the game is drawn in.
pub const MIN_TERMINAL_HEIGHT: u16 = 140;

/// Cards dealt to each side at the start of a round.
pub const HAND_SIZE: usize = 6;

/// The screen being shown.
#[derive(Clone, Copy, Debug, PartialEq, Eq, Structural)]
pub enum Screens {
    Menu,
    Game,
    GameOver,
    Win,
    ResolutionError,
}

impl Default for Screens {
    fn default() -> (r: Screens)
        ensures
            r == Screens::Menu,
    {
        Screens::Menu
    }
}

/// A command from the input side of the game.
#[derive(Clone, Copy, Debug, PartialEq, Eq, Structural)]
pub enum Command {
    Quit,
    SelectCard(usize),
    PlaySelectedCard,
    /// The opponent plays the card at this index of its hand.
    OpponentPlay(usize),
    AdvanceScreen,
    /// The terminal now has this width and height.
    TerminalResized(u16, u16),
}

/// Everything the game holds, as plain values.
pub struct GameView {
    pub points: u16,
    pub opponent_points: u16,
    pub exit: bool,
    pub screen: Screens,
    /// The screen to go back to once the terminal is large enough again.
    pub resume_screen: Screens,
    pub player: Seq<Card>,
    pub opponent: Seq<Card>,
    pub stock: Seq<Card>,
    pub selected: Option<usize>,
    pub trump: Palos,
    pub last_player: Option<Card>,
    pub last_opponent: Option<Card>,
    /// Whether the player's card of the current trick was played first.
    pub player_led: bool,
}

/// The game: screens, both hands, the stock, the score and the cards on the table.
pub struct App {
    score: Score,
    exit: bool,
    current_screen: Screens,
    resume_screen: Screens,
    opponent_cards: Vec<Card>,
    player_cards: Vec<Card>,
    selected_card: Option<usize>,
    triunfo: Palos,
    stock: Deck,
    last_played_card: Option<Card>,
    last_played_opponent_card: Option<Card>,
    player_led: bool,
}

impl View for App {
    type V = GameView;

    closed spec fn view(&self) -> GameView {
        GameView {
            points: self.score.player,
            opponent_points: self.score.opponent,
            exit: self.exit,
            screen: self.current_screen,
            resume_screen: self.resume_screen,
            player: self.player_cards@,
            opponent: self.opponent_cards@,
            stock: self.stock@,
            selected: self.selected_card,
            trump: self.triunfo,
            last_player: self.last_played_card,
            last_opponent: self.last_played_opponent_card,
            player_led: self.player_led,
        }
    }
}

pub open spec fn slot_cards(o: Option<Card>) -> Multiset<Card> {
    match o {
        Some(c) => Multiset::singleton(c),
        None => Multiset::empty(),
    }
}

/// Every card in the game: both hands, the stock and the two cards on the table.
pub open spec fn cards_in_play(v: GameView) -> Multiset<Card> {
    v.player.to_multiset().add(v.opponent.to_multiset()).add(v.stock.to_multiset()).add(
        slot_cards(v.last_player),
    ).add(slot_cards(v.last_opponent))
}

/// Each card occurs at most once.
pub open spec fn all_distinct(m: Multiset<Card>) -> bool {
    forall|c: Card| #[trigger] m.count(c) <= 1
}

/// No card is in two places at once, and the cursor points into the player's hand.
pub open spec fn view_wf(v: GameView) -> bool {
    &&& all_distinct(cards_in_play(v))
    &&& v.stock.no_duplicates()
    &&& match v.selected {
        Some(i) => i < v.player.len(),
        None => true,
    }
}

pub open spec fn terminal_fits(width: u16, height: u16) -> bool {
    width >= MIN_TERMINAL_WIDTH && height >= MIN_TERMINAL_HEIGHT
}

/// The game after the terminal reports a new size: too small a terminal shows the
/// resolution screen; a large enough one goes back to the screen it interrupted.
pub open spec fn after_resize(v: GameView, width: u16, height: u16) -> GameView {
    if !terminal_fits(width, height) {
        if v.screen == Screens::ResolutionError {
            v
        } else {
            GameView { screen: Screens::ResolutionError, resume_screen: v.screen, ..v }
        }
    } else if v.screen == Screens::ResolutionError {
        GameView { screen: v.resume_screen, ..v }
    } else {
        v
    }
}

pub open spec fn after_select(v: GameView, i: usize) -> GameView {
    if i < v.player.len() {
        GameView { selected: Some(i), ..v }
    } else {
        v
    }
}

/// The top card of the stock goes to `side`'s hand, if the stock has one.
pub open spec fn after_draw(v: GameView, side: Side) -> GameView {
    if v.stock.len() == 0 {
        v
    } else {
        match side {
            Side::Player => GameView {
                player: v.player.push(v.stock[0]),
                stock: v.stock.skip(1),
                ..v
            },
            Side::Opponent => GameView {
                opponent: v.opponent.push(v.stock[0]),
                stock: v.stock.skip(1),
                ..v
            },
        }
    }
}

pub open spec fn other_side(s: Side) -> Side {
    match s {
        Side::Player => Side::Opponent,
        Side::Opponent => Side::Player,
    }
}

/// The side that takes the trick on the table.
pub open spec fn trick_winner_side(v: GameView) -> Side {
    let p = v.last_player.unwrap();
    let o = v.last_opponent.unwrap();
    if v.player_led {
        if trick_result(p, o, v.trump).0 == TrickWinner::Lead {
            Side::Player
        } else {
            Side::Opponent
        }
    } else {
        if trick_result(o, p, v.trump).0 == TrickWinner::Lead {
            Side::Opponent
        } else {
            Side::Player
        }
    }
}

/// The screen once `side` has just been awarded points and holds `side_points`: during a
/// game, the side that reaches the threshold ends the round, with `Win` for the player and
/// `GameOver` for the opponent; otherwise, and on any other screen, the screen stays.
pub open spec fn screen_after_award(s: Screens, side: Side, side_points: u16) -> Screens {
    if s == Screens::Game && side_points >= WIN_THRESHOLD {
        match side {
            Side::Player => Screens::Win,
            Side::Opponent => Screens::GameOver,
        }
    } else {
        s
    }
}

/// Resolves the trick on the table: the winner collects both cards' points, the winner
/// and then the loser draw from the stock, the table is cleared, and during a game a
/// winner that reaches the threshold ends the round.
pub open spec fn after_trick(v: GameView) -> GameView {
    let p = v.last_player.unwrap();
    let o = v.last_opponent.unwrap();
    let winner = trick_winner_side(v);
    let amount = trick_result(p, o, v.trump).1 as u16;
    let s = awarded(Score { player: v.points, opponent: v.opponent_points }, winner, amount);
    let cleared = GameView {
        points: s.player,
        opponent_points: s.opponent,
        last_player: None,
        last_opponent: None,
        ..v
    };
    let drawn = after_draw(after_draw(cleared, winner), other_side(winner));
    GameView {
        screen: screen_after_award(drawn.screen, winner, points_of_side(s, winner)),
        ..drawn
    }
}

/// The player's card at `i` moved from the hand to the table, with the cursor cleared.
pub open spec fn placed_player(v: GameView, i: usize) -> GameView {
    GameView {
        player: v.player.remove(i as int),
        selected: None,
        last_player: Some(v.player[i as int]),
        player_led: v.last_opponent is None,
        ..v
    }
}

/// The opponent's card at `i` moved from its hand to the table.
pub open spec fn placed_opponent(v: GameView, i: usize) -> GameView {
    GameView {
        opponent: v.opponent.remove(i as int),
        last_opponent: Some(v.opponent[i as int]),
        player_led: v.last_player is Some,
        ..v
    }
}

/// The selected card of the player goes to the table; with the opponent's card already
/// there the trick is resolved.
pub open spec fn after_player_play(v: GameView) -> GameView {
    match v.selected {
        Some(i) => if i < v.player.len() && v.last_player is None {
            let placed = placed_player(v, i);
            if placed.last_opponent is Some {
                after_trick(placed)
            } else {
                placed
            }
        } else {
            v
        },
        None => v,
    }
}

/// The opponent's card at index `i` goes to the table; with the player's card already
/// there the trick is resolved.
pub open spec fn after_opponent_play(v: GameView, i: usize) -> GameView {
    if i < v.opponent.len() && v.last_opponent is None {
        let placed = placed_opponent(v, i);
        if placed.last_player is Some {
            after_trick(placed)
        } else {
            placed
        }
    } else {
        v
    }
}

/// The game after one command. Card commands act only while a game is on screen.
pub open spec fn after_command(v: GameView, cmd: Command) -> GameView {
    match cmd {
        Command::Quit => GameView { exit: true, ..v },
        Command::SelectCard(i) => if v.screen == Screens::Game {
            after_select(v, i)
        } else {
            v
        },
        Command::PlaySelectedCard => if v.screen == Screens::Game {
            after_player_play(v)
        } else {
            v
        },
        Command::OpponentPlay(i) => if v.screen == Screens::Game {
            after_opponent_play(v, i)
        } else {
            v
        },
        Command::AdvanceScreen => if v.screen == Screens::Menu {
            GameView { screen: Screens::Game, ..v }
        } else {
            v
        },
        Command::TerminalResized(w, h) => after_resize(v, w, h),
    }
}

/// The game after the commands in turn, up to the first that quits.
pub open spec fn after_commands(v: GameView, cmds: Seq<Command>) -> GameView
    decreases cmds.len(),
{
    if cmds.len() == 0 || v.exit {
        v
    } else {
        after_commands(after_command(v, cmds[0]), cmds.skip(1))
    }
}

/// A terminal below the minimum size shows the resolution screen from any state, and a
/// large enough one then brings back the screen that was showing, with nothing else changed.
pub proof fn lemma_resize_round_trip(v: GameView, small_w: u16, small_h: u16, w: u16, h: u16)
    requires
        !terminal_fits(small_w, small_h),
        terminal_fits(w, h),
        v.screen != Screens::ResolutionError,
    ensures
        after_resize(v, small_w, small_h).screen == Screens::ResolutionError,
        after_resize(after_resize(v, small_w, small_h), w, h) == (GameView {
            resume_screen: v.screen,
            ..v
        }),
{
}

/// A new round at the menu, dealt from the deck shuffled with `seed`.
pub open spec fn initial_view(seed: u64) -> GameView {
    let d = shuffled(full_deck(), seed);
    GameView {
        points: 0,
        opponent_points: 0,
        exit: false,
        screen: Screens::Menu,
        resume_screen: Screens::Menu,
        player: d.take(HAND_SIZE as int),
        opponent: d.subrange(HAND_SIZE as int, 2 * HAND_SIZE as int),
        stock: d.skip(2 * HAND_SIZE as int),
        selected: None,
        trump: d.last().palo,
        last_player: None,
        last_opponent: None,
        player_led: false,
    }
}

proof fn lemma_skip_first_multiset(s: Seq<Card>)
    requires
        s.len() > 0,
    ensures
        s.to_multiset() =~= s.skip(1).to_multiset().insert(s[0]),
        s.no_duplicates() ==> s.skip(1).no_duplicates(),
{
    assert(s.remove(0) =~= s.skip(1));
}

proof fn lemma_draw_wf(v: GameView, side: Side)
    requires
        view_wf(v),
    ensures
        view_wf(after_draw(v, side)),
        cards_in_play(after_draw(v, side)) =~= cards_in_play(v),
{
    if v.stock.len() > 0 {
        lemma_skip_first_multiset(v.stock);
        let w = after_draw(v, side);
        match side {
            Side::Player => {
                assert(w.player.to_multiset() =~= v.player.to_multiset().insert(v.stock[0]));
            },
            Side::Opponent => {
                assert(w.opponent.to_multiset() =~= v.opponent.to_multiset().insert(v.stock[0]));
            },
        }
        assert(cards_in_play(w) =~= cards_in_play(v));
    }
}

proof fn lemma_trick_wf(v: GameView)
    requires
        view_wf(v),
        v.last_player is Some,
        v.last_opponent is Some,
    ensures
        view_wf(after_trick(v)),
{
    let p = v.last_player.unwrap();
    let o = v.last_opponent.unwrap();
    let winner = trick_winner_side(v);
    let amount = trick_result(p, o, v.trump).1 as u16;
    let s = awarded(Score { player: v.points, opponent: v.opponent_points }, winner, amount);
    let cleared = GameView {
        points: s.player,
        opponent_points: s.opponent,
        last_player: None,
        last_opponent: None,
        ..v
    };
    assert forall|c: Card| #[trigger] cards_in_play(cleared).count(c) <= 1 by {
        assert(cards_in_play(cleared).count(c) <= cards_in_play(v).count(c));
    }
    lemma_draw_wf(cleared, winner);
    lemma_draw_wf(after_draw(cleared, winner), other_side(winner));
}

proof fn lemma_player_play_wf(v: GameView)
    requires
        view_wf(v),
    ensures
        view_wf(after_player_play(v)),
        forall|i: usize|
            v.selected == Some(i) && i < v.player.len() && v.last_player is None ==> view_wf(
                #[trigger] placed_player(v, i),
            ),
{
    if let Some(i) = v.selected {
        if i < v.player.len() && v.last_player is None {
            let placed = placed_player(v, i);
            assert(cards_in_play(placed) =~= cards_in_play(v));
            if placed.last_opponent is Some {
                lemma_trick_wf(placed);
            }
        }
    }
}

proof fn lemma_opponent_play_wf(v: GameView, i: usize)
    requires
        view_wf(v),
    ensures
        view_wf(after_opponent_play(v, i)),
        i < v.opponent.len() && v.last_opponent is None ==> view_wf(placed_opponent(v, i)),
{
    if i < v.opponent.len() && v.last_opponent is None {
        let placed = placed_opponent(v, i);
        assert(cards_in_play(placed) =~= cards_in_play(v));
        if placed.last_player is Some {
            lemma_trick_wf(placed);
        }
    }
}

proof fn lemma_initial_wf(seed: u64)
    ensures
        view_wf(initial_view(seed)),
{
    let d = shuffled(full_deck(), seed);
    let v = initial_view(seed);
    assert(same_cards(full_deck(), d)) by {
        crate::deck::lemma_full_deck_distinct();
        crate::deck::lemma_shuffled_same_cards(full_deck(), seed);
    }
    assert(d =~= v.player + v.opponent + v.stock);
    vstd::seq_lib::lemma_multiset_commutative(v.player, v.opponent);
    vstd::seq_lib::lemma_multiset_commutative(v.player + v.opponent, v.stock);
    d.lemma_multiset_has_no_duplicates();
    assert forall|c: Card| #[trigger] cards_in_play(v).count(c) <= 1 by {
        assert(cards_in_play(v).count(c) == d.to_multiset().count(c));
    }
    assert(v.stock.no_duplicates());
}

impl App {
    pub open spec fn wf(&self) -> bool {
        view_wf(self@)
    }

    /// A new round at the menu: a deck shuffled with `seed`, six cards dealt to the player,
    /// six to the opponent, the rest left as the stock, whose bottom card names the trump suit.
    pub fn new(seed: u64) -> (r: App)
        ensures
            r@ == initial_view(seed),
            r.wf(),
    {
        let mut deck = Deck::new_shuffled(seed);
        let ghost d = deck@;
        let player_cards = match deck.deal(HAND_SIZE) {
            Ok(h) => h,
            Err(_) => Vec::new(),
        };
        let opponent_cards = match deck.deal(HAND_SIZE) {
            Ok(h) => h,
            Err(_) => Vec::new(),
        };
        let n = deck.len();
        let triunfo = deck.cards()[n - 1].palo;
        proof {
            lemma_initial_wf(seed);
            assert(player_cards@ =~= d.take(HAND_SIZE as int));
            assert(opponent_cards@ =~= d.subrange(HAND_SIZE as int, 2 * HAND_SIZE as int));
            assert(deck@ =~= d.skip(2 * HAND_SIZE as int));
        }
        App {
            score: Score::new(),
            exit: false,
            current_screen: Screens::Menu,
            resume_screen: Screens::Menu,
            opponent_cards,
            player_cards,
            selected_card: None,
            triunfo,
            stock: deck,
            last_played_card: None,
            last_played_opponent_card: None,
            player_led: false,
        }
    }

    /// Shows `screen`.
    pub fn set_screen(&mut self, screen: Screens)
        requires
            old(self).wf(),
        ensures
            final(self)@ == (GameView { screen, ..old(self)@ }),
            final(self).wf(),
    {
        self.current_screen = screen;
    }

    /// Asks the game to stop.
    pub fn exit(&mut self)
        requires
            old(self).wf(),
        ensures
            final(self)@ == (GameView { exit: true, ..old(self)@ }),
            final(self).wf(),
    {
        self.exit = true;
    }

    /// Adds one point to the player, up to the largest `u16`; during a game, reaching
    /// the threshold ends the round.
    pub fn increment_points(&mut self)
        requires
            old(self).wf(),
        ensures
            ({
                let points = if old(self)@.points == u16::MAX {
                    u16::MAX
                } else {
                    (old(self)@.points + 1) as u16
                };
                final(self)@ == (GameView {
                    points,
                    screen: screen_after_award(old(self)@.screen, Side::Player, points),
                    ..old(self)@
                })
            }),
            final(self).wf(),
    {
        self.score.player = self.score.player.saturating_add(1);
        self.end_round_if_won(Side::Player);
    }

    fn end_round_if_won(&mut self, side: Side)
        requires
            old(self).wf(),
        ensures
            final(self)@ == (GameView {
                screen: screen_after_award(
                    old(self)@.screen,
                    side,
                    points_of_side(old(self).score, side),
                ),
                ..old(self)@
            }),
            final(self).wf(),
    {
        if self.current_screen == Screens::Game && self.score.points(side) >= WIN_THRESHOLD {
            self.current_screen = match side {
                Side::Player => Screens::Win,
                Side::Opponent => Screens::GameOver,
            };
        }
    }

    /// Takes one point from the player, down to zero.
    pub fn decrement_points(&mut self)
        requires
            old(self).wf(),
        ensures
            final(self)@ == (GameView {
                points: if old(self)@.points == 0 {
                    0
                } else {
                    (old(self)@.points - 1) as u16
                },
                ..old(self)@
            }),
            final(self).wf(),
    {
        self.score.player = self.score.player.saturating_sub(1);
    }

    /// Moves the cursor to the player's card at `card`; an index outside the hand
    /// changes nothing.
    pub fn select_card(&mut self, card: usize)
        requires
            old(self).wf(),
        ensures
            final(self)@ == after_select(old(self)@, card),
            final(self).wf(),
    {
        if card < self.player_cards.len() {
            self.selected_card = Some(card);
        }
    }

    /// The card under the cursor, if any.
    pub fn get_selected_card(&self) -> (r: Option<&Card>)
        requires
            self.wf(),
        ensures
            match self@.selected {
                Some(i) => r == Some(&self@.player[i as int]),
                None => r is None,
            },
    {
        match self.selected_card {
            Some(i) => Some(&self.player_cards[i]),
            None => None,
        }
    }

    /// Gives the points of `cards` to the player when `target` is 0, else to the opponent.
    /// Totals stop at the largest `u16`. During a game, the side given the points ends the
    /// round if it reaches the threshold: `Win` for the player, `GameOver` for the opponent.
    pub fn add_points(&mut self, cards: Vec<Card>, target: u8)
        requires
            old(self).wf(),
        ensures
            ({
                let side = if target == 0 {
                    Side::Player
                } else {
                    Side::Opponent
                };
                let amount = if points_of(cards@) > u16::MAX {
                    u16::MAX
                } else {
                    points_of(cards@) as u16
                };
                let s = awarded(
                    Score { player: old(self)@.points, opponent: old(self)@.opponent_points },
                    side,
                    amount,
                );
                final(self)@ == (GameView {
                    points: s.player,
                    opponent_points: s.opponent,
                    screen: screen_after_award(old(self)@.screen, side, points_of_side(s, side)),
                    ..old(self)@
                })
            }),
            final(self).wf(),
    {
        let mut total: u16 = 0;
        let mut i: usize = 0;
        while i < cards.len()
            invariant
                i <= cards@.len(),
                total as nat == if points_of(cards@.take(i as int)) > u16::MAX {
                    u16::MAX as nat
                } else {
                    points_of(cards@.take(i as int))
                },
            decreases cards@.len() - i,
        {
            assert(cards@.take(i + 1).drop_last() =~= cards@.take(i as int));
            total = total.saturating_add(cards[i].value() as u16);
            i = i + 1;
        }
        assert(cards@.take(i as int) =~= cards@);
        let side = if target == 0 {
            Side::Player
        } else {
            Side::Opponent
        };
        self.score.award_points(side, total);
        self.end_round_if_won(side);
    }

    /// Whether `own` takes `opponent` under this round's trump; `own_led` says whether
    /// `own` was played first.
    pub fn do_x_defeat_y(&self, own: Card, opponent: Card, own_led: bool) -> (r: bool)
        ensures
            r == beats(own, opponent, own_led, self@.trump),
    {
        resolves_against(own, opponent, own_led, self.triunfo)
    }

    /// Reacts to a new terminal size.
    pub fn terminal_resized(&mut self, width: u16, height: u16)
        requires
            old(self).wf(),
        ensures
            final(self)@ == after_resize(old(self)@, width, height),
            final(self).wf(),
    {
        if !fits_terminal(width, height) {
            if self.current_screen != Screens::ResolutionError {
                self.resume_screen = self.current_screen;
                self.current_screen = Screens::ResolutionError;
            }
        } else if self.current_screen == Screens::ResolutionError {
            self.current_screen = self.resume_screen;
        }
    }

    fn draw_to(&mut self, side: Side)
        requires
            old(self).stock.wf(),
        ensures
            final(self)@ == after_draw(old(self)@, side),
            final(self).stock.wf(),
    {
        match self.stock.draw() {
            Ok(c) => match side {
                Side::Player => self.player_cards.push(c),
                Side::Opponent => self.opponent_cards.push(c),
            },
            Err(_) => {},
        }
    }

    fn settle_trick(&mut self)
        requires
            old(self).wf(),
            old(self)@.last_player is Some,
            old(self)@.last_opponent is Some,
        ensures
            final(self)@ == after_trick(old(self)@),
            final(self).wf(),
    {
        proof {
            lemma_trick_wf(self@);
        }
        let p = self.last_played_card.unwrap();
        let o = self.last_played_opponent_card.unwrap();
        let winner = if self.player_led {
            let r = resolve_trick(p, o, self.triunfo);
            if r.winner == TrickWinner::Lead {
                Side::Player
            } else {
                Side::Opponent
            }
        } else {
            let r = resolve_trick(o, p, self.triunfo);
            if r.winner == TrickWinner::Lead {
                Side::Opponent
            } else {
                Side::Player
            }
        };
        let amount = p.value() + o.value();
        self.score.award_points(winner, amount as u16);
        self.last_played_card = None;
        self.last_played_opponent_card = None;
        let loser = match winner {
            Side::Player => Side::Opponent,
            Side::Opponent => Side::Player,
        };
        self.draw_to(winner);
        self.draw_to(loser);
        self.end_round_if_won(winner);
    }

    /// Puts the player's selected card on the table and clears the cursor; once both
    /// sides have a card there, the trick is resolved and scored.
    pub fn play_selected_card(&mut self)
        requires
            old(self).wf(),
        ensures
            final(self)@ == after_player_play(old(self)@),
            final(self).wf(),
    {
        proof {
            lemma_player_play_wf(self@);
        }
        if let Some(i) = self.selected_card {
            if i < self.player_cards.len() && self.last_played_card.is_none() {
                let c = self.player_cards.remove(i);
                self.selected_card = None;
                self.last_played_card = Some(c);
                self.player_led = self.last_played_opponent_card.is_none();
                assert(self@ == placed_player(old(self)@, i));
                if self.last_played_opponent_card.is_some() {
                    self.settle_trick();
                }
            }
        }
    }

    /// Puts the opponent's card at `index` on the table; an index outside its hand, or a
    /// second card in one trick, changes nothing. Once both sides have a card there, the
    /// trick is resolved and scored.
    pub fn opponent_play(&mut self, index: usize)
        requires
            old(self).wf(),
        ensures
            final(self)@ == after_opponent_play(old(self)@, index),
            final(self).wf(),
    {
        proof {
            lemma_opponent_play_wf(self@, index);
        }
        if index < self.opponent_cards.len() && self.last_played_opponent_card.is_none() {
            let c = self.opponent_cards.remove(index);
            self.last_played_opponent_card = Some(c);
            self.player_led = self.last_played_card.is_some();
            assert(self@ == placed_opponent(old(self)@, index));
            if self.last_played_card.is_some() {
                self.settle_trick();
            }
        }
    }

    /// Applies one command.
    pub fn handle_command(&mut self, cmd: Command)
        requires
            old(self).wf(),
        ensures
            final(self)@ == after_command(old(self)@, cmd),
            final(self).wf(),
    {
        match cmd {
            Command::Quit => self.exit(),
            Command::SelectCard(i) => {
                if self.current_screen == Screens::Game {
                    self.select_card(i);
                }
            },
            Command::PlaySelectedCard => {
                if self.current_screen == Screens::Game {
                    self.play_selected_card();
                }
            },
            Command::OpponentPlay(i) => {
                if self.current_screen == Screens::Game {
                    self.opponent_play(i);
                }
            },
            Command::AdvanceScreen => {
                if self.current_screen == Screens::Menu {
                    self.set_screen(Screens::Game);
                }
            },
            Command::TerminalResized(w, h) => self.terminal_resized(w, h),
        }
    }

    /// Applies the commands in order, stopping at the first that quits.
    pub fn run(&mut self, commands: &Vec<Command>)
        requires
            old(self).wf(),
        ensures
            final(self)@ == after_commands(old(self)@, commands@),
            final(self).wf(),
    {
        let mut i: usize = 0;
        assert(commands@.skip(0) =~= commands@);
        while i < commands.len() && !self.exit
            invariant
                i <= commands@.len(),
                self.wf(),
                after_commands(self@, commands@.skip(i as int)) == after_commands(
                    old(self)@,
                    commands@,
                ),
            decreases commands@.len() - i,
        {
            assert(commands@.skip(i as int).skip(1) =~= commands@.skip(i + 1));
            self.handle_command(commands[i]);
            i = i + 1;
        }
        assert(commands@.skip(i as int).len() == 0 || self@.exit);
    }

    pub fn points(&self) -> (r: u16)
        ensures
            r == self@.points,
    {
        self.score.player
    }

    pub fn opponent_points(&self) -> (r: u16)
        ensures
            r == self@.opponent_points,
    {
        self.score.opponent
    }

    pub fn should_exit(&self) -> (r: bool)
        ensures
            r == self@.exit,
    {
        self.exit
    }

    pub fn current_screen(&self) -> (r: Screens)
        ensures
            r == self@.screen,
    {
        self.current_screen
    }

    pub fn player_cards(&self) -> (r: &Vec<Card>)
        ensures
            r@ == self@.player,
    {
        &self.player_cards
    }

    pub fn opponent_cards(&self) -> (r: &Vec<Card>)
        ensures
            r@ == self@.opponent,
    {
        &self.opponent_cards
    }

    /// Number of cards left in the stock.
    pub fn stock_len(&self) -> (r: usize)
        ensures
            r == self@.stock.len(),
    {
        self.stock.len()
    }

    pub fn selected_card(&self) -> (r: Option<usize>)
        ensures
            r == self@.selected,
    {
        self.selected_card
    }

    pub fn triunfo(&self) -> (r: Palos)
        ensures
            r == self@.trump,
    {
        self.triunfo
    }

    pub fn last_played_card(&self) -> (r: Option<Card>)
        ensures
            r == self@.last_player,
    {
        self.last_played_card
    }

    pub fn last_played_opponent_card(&self) -> (r: Option<Card>)
        ensures
            r == self@.last_opponent,
    {
        self.last_played_opponent_card
    }
}

/// Whether a terminal of this width and height is large enough to draw the game in.
pub fn fits_terminal(width: u16, height: u16) -> (r: bool)
    ensures
        r == terminal_fits(width, height),
{
    width >= MIN_TERMINAL_WIDTH && height >= MIN_TERMINAL_HEIGHT
}

} // verus!
