use guinote::card::{resolve_trick, resolves_against, Card, CardsValues, Palos, TrickWinner};

const RANKS: [CardsValues; 10] = [
    CardsValues::As,
    CardsValues::Dos,
    CardsValues::Tres,
    CardsValues::Cuatro,
    CardsValues::Cinco,
    CardsValues::Seis,
    CardsValues::Siete,
    CardsValues::Sota,
    CardsValues::Caballo,
    CardsValues::Rey,
];

const SUITS: [Palos; 4] = [Palos::Espadas, Palos::Bastos, Palos::Copas, Palos::Oros];

fn all_cards() -> Vec<Card> {
    let mut v = Vec::new();
    for s in SUITS {
        for r in RANKS {
            v.push(Card::new(r, s));
        }
    }
    v
}

#[test]
fn point_values_match_table() {
    let expected = [11u8, 0, 10, 0, 0, 0, 0, 2, 3, 4];
    for s in SUITS {
        for (r, e) in RANKS.iter().zip(expected.iter()) {
            assert_eq!(Card::new(*r, s).value(), *e);
        }
    }
}

#[test]
fn kill_powers_match_table() {
    let expected = [12u8, 3, 11, 4, 5, 6, 7, 9, 8, 10];
    for s in SUITS {
        for (r, e) in RANKS.iter().zip(expected.iter()) {
            assert_eq!(Card::new(*r, s).kill_power(), *e);
        }
    }
}

#[test]
fn kill_powers_have_no_ties() {
    let mut seen: Vec<u8> = RANKS.iter().map(|r| Card::new(*r, Palos::Oros).kill_power()).collect();
    seen.sort();
    seen.dedup();
    assert_eq!(seen.len(), 10);
}

#[test]
fn names_and_symbols() {
    assert_eq!(Card::new(CardsValues::Caballo, Palos::Oros).name(), "Caballo");
    assert_eq!(Card::new(CardsValues::As, Palos::Espadas).name(), "As");
    assert_eq!(Card::new(CardsValues::Rey, Palos::Copas).emoji(), '🏆');
    assert_eq!(Card::new(CardsValues::Rey, Palos::Bastos).emoji(), '🏏');
    assert_eq!(Palos::Oros.to_string(), "🪙 Oros");
    assert_eq!(Palos::Espadas.to_string(), "⚔ Espadas");
}

#[test]
fn exactly_one_card_wins_every_pair() {
    let cards = all_cards();
    for trump in SUITS {
        for a in &cards {
            for b in &cards {
                if a == b {
                    continue;
                }
                for a_led in [true, false] {
                    let a_wins = resolves_against(*a, *b, a_led, trump);
                    let b_wins = resolves_against(*b, *a, !a_led, trump);
                    assert!(a_wins != b_wins, "{:?} {:?} {:?}", a, b, trump);
                }
            }
        }
    }
}

#[test]
fn role_swap_keeps_winner_unless_suits_differ_without_trump() {
    let cards = all_cards();
    for trump in SUITS {
        for a in &cards {
            for b in &cards {
                if a == b || (a.palo != b.palo && a.palo != trump && b.palo != trump) {
                    continue;
                }
                let ab = resolve_trick(*a, *b, trump);
                let ba = resolve_trick(*b, *a, trump);
                assert_eq!(ab.winner == TrickWinner::Lead, ba.winner == TrickWinner::Follow);
                assert_eq!(ab.points, ba.points);
            }
        }
    }
}

#[test]
fn off_suit_follow_never_wins() {
    let lead = Card::new(CardsValues::Dos, Palos::Espadas);
    let follow = Card::new(CardsValues::As, Palos::Oros);
    let r = resolve_trick(lead, follow, Palos::Copas);
    assert_eq!(r.winner, TrickWinner::Lead);
    assert_eq!(r.points, 11);
}

#[test]
fn trump_follow_beats_stronger_lead() {
    let lead = Card::new(CardsValues::Tres, Palos::Espadas);
    let follow = Card::new(CardsValues::Dos, Palos::Copas);
    let r = resolve_trick(lead, follow, Palos::Copas);
    assert_eq!(r.winner, TrickWinner::Follow);
    assert_eq!(r.points, 10);
}

#[test]
fn higher_trump_lead_wins() {
    let lead = Card::new(CardsValues::As, Palos::Copas);
    let follow = Card::new(CardsValues::Tres, Palos::Copas);
    let r = resolve_trick(lead, follow, Palos::Copas);
    assert_eq!(r.winner, TrickWinner::Lead);
    assert_eq!(r.points, 21);
}

#[test]
fn same_suit_higher_power_follow_wins() {
    let lead = Card::new(CardsValues::Rey, Palos::Bastos);
    let follow = Card::new(CardsValues::Tres, Palos::Bastos);
    let r = resolve_trick(lead, follow, Palos::Oros);
    assert_eq!(r.winner, TrickWinner::Follow);
    assert_eq!(r.points, 14);
}
