use guinote::card::{Card, CardsValues, Palos};
use guinote::deck::{Deck, DeckError};

fn c(r: CardsValues, s: Palos) -> Card {
    Card::new(r, s)
}

#[test]
fn fresh_deck_has_forty_distinct_cards() {
    let d = Deck::new();
    assert_eq!(d.len(), 40);
    let cards = d.cards();
    for i in 0..cards.len() {
        for j in (i + 1)..cards.len() {
            assert_ne!(cards[i], cards[j]);
        }
    }
    assert_eq!(cards[0], c(CardsValues::As, Palos::Espadas));
    assert_eq!(cards[39], c(CardsValues::Rey, Palos::Oros));
}

#[test]
fn deck_points_total() {
    let d = Deck::new();
    let total: u32 = d.cards().iter().map(|x| x.value() as u32).sum();
    assert_eq!(total, 120);
    for s in [Palos::Espadas, Palos::Bastos, Palos::Copas, Palos::Oros] {
        let suit: u32 = d.cards().iter().filter(|x| x.palo == s).map(|x| x.value() as u32).sum();
        assert_eq!(suit, 30);
    }
}

#[test]
fn dealing_leaves_the_rest() {
    for n in 0..=40usize {
        let mut d = Deck::new_shuffled(9);
        let hand = d.deal(n).unwrap();
        assert_eq!(hand.len(), n);
        assert_eq!(d.len(), 40 - n);
        for i in 0..hand.len() {
            for j in (i + 1)..hand.len() {
                assert_ne!(hand[i], hand[j]);
            }
            assert!(!d.cards().contains(&hand[i]));
        }
    }
}

#[test]
fn dealing_too_many_fails() {
    let mut d = Deck::new();
    assert_eq!(d.deal(41), Err(DeckError::InsufficientCards));
    assert_eq!(d.len(), 40);
}

#[test]
fn drawing_from_empty_deck_fails() {
    let mut d = Deck::new();
    let _ = d.deal(39).unwrap();
    assert_eq!(d.draw(), Ok(c(CardsValues::Rey, Palos::Oros)));
    assert!(d.is_empty());
    assert_eq!(d.draw(), Err(DeckError::EmptyDeck));
}

#[test]
fn shuffle_keeps_the_cards() {
    let d = Deck::new_shuffled(123456789);
    let fresh = Deck::new();
    assert_eq!(d.len(), 40);
    for x in fresh.cards() {
        assert!(d.cards().contains(x));
    }
    assert_ne!(d.cards(), fresh.cards());
}

#[test]
fn shuffle_with_fixed_seed_is_reproducible() {
    let mut a = Deck::new_shuffled(42);
    let mut b = Deck::new_shuffled(42);
    let ha = a.deal(6).unwrap();
    let hb = b.deal(6).unwrap();
    assert_eq!(ha, hb);
    assert_eq!(a.cards(), b.cards());
    assert_eq!(
        ha,
        vec![
            c(CardsValues::Dos, Palos::Oros),
            c(CardsValues::Sota, Palos::Oros),
            c(CardsValues::Seis, Palos::Oros),
            c(CardsValues::Caballo, Palos::Oros),
            c(CardsValues::Siete, Palos::Espadas),
            c(CardsValues::Dos, Palos::Espadas),
        ]
    );
    assert_eq!(a.cards()[33], c(CardsValues::Rey, Palos::Copas));
}

#[test]
fn different_seeds_give_different_orders() {
    let a = Deck::new_shuffled(0);
    let b = Deck::new_shuffled(42);
    assert_ne!(a.cards(), b.cards());
    assert_eq!(a.cards()[0], c(CardsValues::Cuatro, Palos::Copas));
}
