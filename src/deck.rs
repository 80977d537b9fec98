use vstd::prelude::*;

use crate::card::{Card, CardsValues, Palos, point_value};

verus! {

/// Number of cards in a full Spanish deck.
pub const DECK_SIZE: usize = 40;

/// Why a deck could not hand out cards.
#[derive(Clone, Copy, Debug, PartialEq, Eq, Structural)]
pub enum DeckError {
    /// More cards were asked for than the deck holds.
    InsufficientCards,
    /// A card was drawn from an empty deck.
    EmptyDeck,
}

pub open spec fn rank_at(i: int) -> CardsValues {
    if i == 0 {
        CardsValues::As
    } else if i == 1 {
        CardsValues::Dos
    } else if i == 2 {
        CardsValues::Tres
    } else if i == 3 {
        CardsValues::Cuatro
    } else if i == 4 {
        CardsValues::Cinco
    } else if i == 5 {
        CardsValues::Seis
    } else if i == 6 {
        CardsValues::Siete
    } else if i == 7 {
        CardsValues::Sota
    } else if i == 8 {
        CardsValues::Caballo
    } else {
        CardsValues::Rey
    }
}

pub open spec fn suit_at(i: int) -> Palos {
    if i == 0 {
        Palos::Espadas
    } else if i == 1 {
        Palos::Bastos
    } else if i == 2 {
        Palos::Copas
    } else {
        Palos::Oros
    }
}

pub open spec fn rank_index(v: CardsValues) -> int {
    match v {
        CardsValues::As => 0,
        CardsValues::Dos => 1,
        CardsValues::Tres => 2,
        CardsValues::Cuatro => 3,
        CardsValues::Cinco => 4,
        CardsValues::Seis => 5,
        CardsValues::Siete => 6,
        CardsValues::Sota => 7,
        CardsValues::Caballo => 8,
        CardsValues::Rey => 9,
    }
}

pub open spec fn suit_index(p: Palos) -> int {
    match p {
        Palos::Espadas => 0,
        Palos::Bastos => 1,
        Palos::Copas => 2,
        Palos::Oros => 3,
    }
}

/// The card at position `i` of a fresh deck: suit by suit, each suit in rank order.
pub open spec fn card_at(i: int) -> Card {
    Card { value: rank_at(i % 10), palo: suit_at(i / 10) }
}

/// The 40 cards of the deck, in the order a fresh deck holds them.
pub open spec fn full_deck() -> Seq<Card> {
    Seq::new(DECK_SIZE as nat, |i: int| card_at(i))
}

/// Position of a card in a fresh deck.
pub open spec fn card_index(c: Card) -> int {
    suit_index(c.palo) * 10 + rank_index(c.value)
}

/// Sum of the point values of a sequence of cards.
pub open spec fn points_of(s: Seq<Card>) -> nat
    decreases s.len(),
{
    if s.len() == 0 {
        0
    } else {
        points_of(s.drop_last()) + point_value(s.last().value)
    }
}

/// One step of the deck's pseudo-random generator (a 64-bit linear congruential one).
pub open spec fn lcg_next(state: u64) -> u64 {
    let m: nat = 0x1_0000_0000_0000_0000;
    (((state as nat * 6364136223846793005) % m + 1442695040888963407) % m) as u64
}

/// Index drawn from a generator state, in `0..bound`.
pub open spec fn draw_index(state: u64, bound: nat) -> int {
    ((state >> 32u64) as nat % bound) as int
}

pub open spec fn swap(s: Seq<Card>, i: int, j: int) -> Seq<Card> {
    s.update(i, s[j]).update(j, s[i])
}

/// Fisher–Yates from position `i` down to 1, with the generator at `state`.
pub open spec fn shuffle_from(s: Seq<Card>, state: u64, i: nat) -> Seq<Card>
    decreases i,
{
    if i == 0 || i >= s.len() {
        s
    } else {
        let next = lcg_next(state);
        shuffle_from(swap(s, i as int, draw_index(next, i + 1)), next, (i - 1) as nat)
    }
}

/// The order in which shuffling `s` with `seed` leaves the cards.
pub open spec fn shuffled(s: Seq<Card>, seed: u64) -> Seq<Card> {
    if s.len() == 0 {
        s
    } else {
        shuffle_from(s, seed, (s.len() - 1) as nat)
    }
}

/// `a` and `b` hold the same cards, each once.
pub open spec fn same_cards(a: Seq<Card>, b: Seq<Card>) -> bool {
    &&& a.len() == b.len()
    &&& a.no_duplicates()
    &&& b.no_duplicates()
    &&& forall|c: Card| a.contains(c) <==> b.contains(c)
}

proof fn lemma_card_index(i: int)
    requires
        0 <= i < DECK_SIZE,
    ensures
        card_index(card_at(i)) == i,
{
}

/// A fresh deck holds every card exactly once.
pub proof fn lemma_full_deck_distinct()
    ensures
        full_deck().len() == DECK_SIZE,
        full_deck().no_duplicates(),
{
    assert forall|i: int, j: int|
        0 <= i < full_deck().len() && 0 <= j < full_deck().len() && i != j implies full_deck()[i]
        != full_deck()[j] by {
        lemma_card_index(i);
        lemma_card_index(j);
    }
}

proof fn lemma_swap_same_cards(s: Seq<Card>, i: int, j: int)
    requires
        s.no_duplicates(),
        0 <= i < s.len(),
        0 <= j < s.len(),
    ensures
        same_cards(s, swap(s, i, j)),
{
    let t = swap(s, i, j);
    assert forall|a: int, b: int| 0 <= a < t.len() && 0 <= b < t.len() && a != b implies t[a]
        != t[b] by {
        let sa = if a == i {
            j
        } else if a == j {
            i
        } else {
            a
        };
        let sb = if b == i {
            j
        } else if b == j {
            i
        } else {
            b
        };
        assert(t[a] == s[sa]);
        assert(t[b] == s[sb]);
    }
    assert forall|c: Card| s.contains(c) <==> t.contains(c) by {
        if s.contains(c) {
            let k = choose|k: int| 0 <= k < s.len() && s[k] == c;
            let tk = if k == i {
                j
            } else if k == j {
                i
            } else {
                k
            };
            assert(t[tk] == c);
        }
        if t.contains(c) {
            let k = choose|k: int| 0 <= k < t.len() && t[k] == c;
            let sk = if k == i {
                j
            } else if k == j {
                i
            } else {
                k
            };
            assert(s[sk] == c);
        }
    }
}

proof fn lemma_same_cards_trans(a: Seq<Card>, b: Seq<Card>, c: Seq<Card>)
    requires
        same_cards(a, b),
        same_cards(b, c),
    ensures
        same_cards(a, c),
{
}

proof fn lemma_shuffle_from_same_cards(s: Seq<Card>, state: u64, i: nat)
    requires
        s.no_duplicates(),
    ensures
        same_cards(s, shuffle_from(s, state, i)),
    decreases i,
{
    if i == 0 || i >= s.len() {
    } else {
        let next = lcg_next(state);
        let t = swap(s, i as int, draw_index(next, i + 1));
        lemma_swap_same_cards(s, i as int, draw_index(next, i + 1));
        lemma_shuffle_from_same_cards(t, next, (i - 1) as nat);
        lemma_same_cards_trans(s, t, shuffle_from(t, next, (i - 1) as nat));
    }
}

/// An ordered pile of distinct cards, dealt and drawn from the front.
pub struct Deck {
    cards: Vec<Card>,
}

impl View for Deck {
    type V = Seq<Card>;

    closed spec fn view(&self) -> Seq<Card> {
        self.cards@
    }
}

fn rank_from_index(i: usize) -> (r: CardsValues)
    requires
        i < 10,
    ensures
        r == rank_at(i as int),
{
    match i {
        0 => CardsValues::As,
        1 => CardsValues::Dos,
        2 => CardsValues::Tres,
        3 => CardsValues::Cuatro,
        4 => CardsValues::Cinco,
        5 => CardsValues::Seis,
        6 => CardsValues::Siete,
        7 => CardsValues::Sota,
        8 => CardsValues::Caballo,
        _ => CardsValues::Rey,
    }
}

fn suit_from_index(i: usize) -> (r: Palos)
    requires
        i < 4,
    ensures
        r == suit_at(i as int),
{
    match i {
        0 => Palos::Espadas,
        1 => Palos::Bastos,
        2 => Palos::Copas,
        _ => Palos::Oros,
    }
}

/// Next state of the deck's pseudo-random generator.
pub fn lcg_step(state: u64) -> (r: u64)
    ensures
        r == lcg_next(state),
{
    state.wrapping_mul(6364136223846793005u64).wrapping_add(1442695040888963407u64)
}

impl Deck {
    /// Cards are never held twice.
    pub open spec fn wf(&self) -> bool {
        self@.no_duplicates()
    }

    /// The 40 cards of the Spanish deck, suit by suit, each suit in rank order.
    pub fn new() -> (d: Deck)
        ensures
            d@ == full_deck(),
            d.wf(),
    {
        let mut cards: Vec<Card> = Vec::new();
        let mut i: usize = 0;
        while i < DECK_SIZE
            invariant
                i <= DECK_SIZE,
                cards@ == full_deck().take(i as int),
            decreases DECK_SIZE - i,
        {
            let c = Card { value: rank_from_index(i % 10), palo: suit_from_index(i / 10) };
            cards.push(c);
            assert(cards@ =~= full_deck().take(i + 1));
            i = i + 1;
        }
        assert(cards@ =~= full_deck());
        proof {
            lemma_full_deck_distinct();
        }
        Deck { cards }
    }

    /// A fresh deck shuffled with `seed`.
    pub fn new_shuffled(seed: u64) -> (d: Deck)
        ensures
            d@ == shuffled(full_deck(), seed),
            same_cards(full_deck(), d@),
            d.wf(),
    {
        let mut d = Deck::new();
        d.shuffle(seed);
        d
    }

    /// The cards in the deck, top first.
    pub fn cards(&self) -> (r: &Vec<Card>)
        ensures
            r@ == self@,
    {
        &self.cards
    }

    pub fn len(&self) -> (r: usize)
        ensures
            r == self@.len(),
    {
        self.cards.len()
    }

    pub fn is_empty(&self) -> (r: bool)
        ensures
            r == (self@.len() == 0),
    {
        self.cards.len() == 0
    }

    /// Shuffles the deck by Fisher–Yates, drawing indices from a generator seeded with `seed`:
    /// the same seed always gives the same order.
    pub fn shuffle(&mut self, seed: u64)
        requires
            old(self).wf(),
        ensures
            final(self)@ == shuffled(old(self)@, seed),
            same_cards(old(self)@, final(self)@),
            final(self).wf(),
    {
        let n = self.cards.len();
        if n == 0 {
            return;
        }
        proof {
            lemma_shuffle_from_same_cards(self@, seed, (n - 1) as nat);
        }
        let ghost target = shuffled(self@, seed);
        let mut state = seed;
        let mut i: usize = n - 1;
        while i > 0
            invariant
                n == self.cards@.len(),
                i < n,
                shuffle_from(self@, state, i as nat) == target,
            decreases i,
        {
            let ghost before = self@;
            state = lcg_step(state);
            let j = ((state >> 32u64) % ((i + 1) as u64)) as usize;
            let a = self.cards[i];
            let b = self.cards[j];
            self.cards.set(i, b);
            self.cards.set(j, a);
            assert(self@ =~= swap(before, i as int, j as int));
            i = i - 1;
        }
    }

    /// Removes the first `n` cards and hands them out in order.
    pub fn deal(&mut self, n: usize) -> (r: Result<Vec<Card>, DeckError>)
        requires
            old(self).wf(),
        ensures
            final(self).wf(),
            n > old(self)@.len() ==> r == Err::<Vec<Card>, DeckError>(DeckError::InsufficientCards)
                && final(self)@ == old(self)@,
            n <= old(self)@.len() ==> r is Ok && r->Ok_0@ == old(self)@.take(n as int)
                && final(self)@ == old(self)@.skip(n as int) && r->Ok_0@.no_duplicates(),
    {
        if n > self.cards.len() {
            return Err(DeckError::InsufficientCards);
        }
        let mut hand = self.cards.split_off(n);
        std::mem::swap(&mut self.cards, &mut hand);
        Ok(hand)
    }

    /// Removes the top card and hands it out.
    pub fn draw(&mut self) -> (r: Result<Card, DeckError>)
        requires
            old(self).wf(),
        ensures
            final(self).wf(),
            old(self)@.len() == 0 ==> r == Err::<Card, DeckError>(DeckError::EmptyDeck)
                && final(self)@ == old(self)@,
            old(self)@.len() > 0 ==> r == Ok::<Card, DeckError>(old(self)@[0])
                && final(self)@ == old(self)@.skip(1),
    {
        if self.cards.len() == 0 {
            return Err(DeckError::EmptyDeck);
        }
        let c = self.cards.remove(0);
        assert(self@ =~= old(self)@.skip(1));
        Ok(c)
    }
}

} // verus!

verus! {

/// Points held by the first `r` ranks of one suit.
spec fn suit_prefix_points(r: int) -> nat
    decreases r,
{
    if r <= 0 {
        0
    } else {
        suit_prefix_points(r - 1) + point_value(rank_at(r - 1))
    }
}

proof fn lemma_suit_points()
    ensures
        suit_prefix_points(10) == 30,
{
    reveal_with_fuel(suit_prefix_points, 11);
}

proof fn lemma_deck_prefix_points(i: int)
    requires
        0 <= i <= DECK_SIZE,
    ensures
        points_of(full_deck().take(i)) == 30 * (i / 10) + suit_prefix_points(i % 10),
    decreases i,
{
    if i > 0 {
        let q = (i - 1) / 10;
        let r = (i - 1) % 10;
        lemma_deck_prefix_points(i - 1);
        assert(full_deck().take(i).drop_last() =~= full_deck().take(i - 1));
        assert(full_deck().take(i).last() == card_at(i - 1));
        assert(suit_prefix_points(r + 1) == suit_prefix_points(r) + point_value(rank_at(r)));
        if r < 9 {
            assert(i / 10 == q && i % 10 == r + 1);
        } else {
            lemma_suit_points();
            assert(i / 10 == q + 1 && i % 10 == 0);
        }
    }
}

/// The point values of the whole deck add up to 120: each of the four suits holds
/// 11 + 10 + 4 + 3 + 2 = 30.
pub proof fn lemma_deck_points()
    ensures
        points_of(full_deck()) == 120,
{
    lemma_deck_prefix_points(40);
    assert(full_deck().take(40) =~= full_deck());
}

/// Dealing `n` cards from a deck holding the 40 cards leaves `40 - n` behind; the cards
/// dealt are distinct, and none of them stays in the deck.
pub proof fn lemma_deal_from_full_deck(d: Seq<Card>, n: int)
    requires
        same_cards(full_deck(), d),
        0 <= n <= DECK_SIZE,
    ensures
        d.skip(n).len() == DECK_SIZE - n,
        d.take(n).no_duplicates(),
        forall|c: Card| d.take(n).contains(c) ==> !d.skip(n).contains(c),
{
    lemma_full_deck_distinct();
    assert forall|c: Card| d.take(n).contains(c) implies !d.skip(n).contains(c) by {
        let a = choose|a: int| 0 <= a < n && d.take(n)[a] == c;
        if d.skip(n).contains(c) {
            let b = choose|b: int| 0 <= b < d.len() - n && d.skip(n)[b] == c;
            assert(d[a] == d[n + b]);
        }
    }
}

/// Shuffling is a function of the cards and the seed: the same deck shuffled with the
/// same seed deals the same cards.
pub proof fn lemma_shuffle_deterministic(a: Seq<Card>, b: Seq<Card>, seed: u64, n: int)
    requires
        a == b,
    ensures
        shuffled(a, seed).take(n) == shuffled(b, seed).take(n),
{
}

/// Shuffling keeps the cards of a deck without duplicates: only their order changes.
pub proof fn lemma_shuffled_same_cards(s: Seq<Card>, seed: u64)
    requires
        s.no_duplicates(),
    ensures
        same_cards(s, shuffled(s, seed)),
{
    if s.len() > 0 {
        lemma_shuffle_from_same_cards(s, seed, (s.len() - 1) as nat);
    }
}

} // verus!
