use vstd::prelude::*;

verus! {

/// The four suits of the Spanish deck.
#[derive(Clone, Copy, Debug, PartialEq, Eq, Structural)]
pub enum Palos {
    Espadas,
    Bastos,
    Copas,
    Oros,
}

/// The ten ranks of the 40-card Spanish deck (no eights, nines or tens).
#[derive(Clone, Copy, Debug, PartialEq, Eq, Structural)]
pub enum CardsValues {
    As,
    Dos,
    Tres,
    Cuatro,
    Cinco,
    Seis,
    Siete,
    Sota,
    Caballo,
    Rey,
}

/// A card: a rank and a suit. Two cards with the same rank and suit are the same card.
#[derive(Clone, Copy, Debug, PartialEq, Eq, Structural)]
pub struct Card {
    pub value: CardsValues,
    pub palo: Palos,
}

/// Which card of a trick won it: the one played first, or the one played second.
#[derive(Clone, Copy, Debug, PartialEq, Eq, Structural)]
pub enum TrickWinner {
    Lead,
    Follow,
}

/// The outcome of a trick: who won it and how many points it carries.
#[derive(Clone, Copy, Debug, PartialEq, Eq, Structural)]
pub struct TrickResult {
    pub winner: TrickWinner,
    pub points: u8,
}

/// Points a card of this rank is worth when won in a trick.
pub open spec fn point_value(v: CardsValues) -> nat {
    match v {
        CardsValues::As => 11,
        CardsValues::Tres => 10,
        CardsValues::Rey => 4,
        CardsValues::Caballo => 3,
        CardsValues::Sota => 2,
        _ => 0,
    }
}

/// Strength of a rank when deciding who takes a trick.
pub open spec fn kill_power(v: CardsValues) -> nat {
    match v {
        CardsValues::As => 12,
        CardsValues::Tres => 11,
        CardsValues::Rey => 10,
        CardsValues::Sota => 9,
        CardsValues::Caballo => 8,
        CardsValues::Siete => 7,
        CardsValues::Seis => 6,
        CardsValues::Cinco => 5,
        CardsValues::Cuatro => 4,
        CardsValues::Dos => 3,
    }
}

/// Display name of a rank.
pub open spec fn rank_name(v: CardsValues) -> Seq<char> {
    match v {
        CardsValues::As => "As"@,
        CardsValues::Dos => "Dos"@,
        CardsValues::Tres => "Tres"@,
        CardsValues::Cuatro => "Cuatro"@,
        CardsValues::Cinco => "Cinco"@,
        CardsValues::Seis => "Seis"@,
        CardsValues::Siete => "Siete"@,
        CardsValues::Sota => "Sota"@,
        CardsValues::Caballo => "Caballo"@,
        CardsValues::Rey => "Rey"@,
    }
}

/// Symbol drawn for a suit.
pub open spec fn suit_emoji(p: Palos) -> char {
    match p {
        Palos::Espadas => '⚔',
        Palos::Bastos => '🏏',
        Palos::Copas => '🏆',
        Palos::Oros => '🪙',
    }
}

/// Label of a suit: its symbol, a space and its name.
pub open spec fn suit_label(p: Palos) -> Seq<char> {
    match p {
        Palos::Espadas => "⚔ Espadas"@,
        Palos::Bastos => "🏏 Bastos"@,
        Palos::Copas => "🏆 Copas"@,
        Palos::Oros => "🪙 Oros"@,
    }
}

pub open spec fn is_trump(c: Card, trump: Palos) -> bool {
    c.palo == trump
}

/// Whether `own` takes `opponent` under `trump`; `own_led` says whether `own` was played first.
/// A trump beats a non-trump; within one suit the higher kill power wins; a card of
/// another non-trump suit than the lead can never win, so there the lead wins.
pub open spec fn beats(own: Card, opponent: Card, own_led: bool, trump: Palos) -> bool {
    if is_trump(own, trump) && !is_trump(opponent, trump) {
        true
    } else if is_trump(opponent, trump) && !is_trump(own, trump) {
        false
    } else if own.palo == opponent.palo {
        kill_power(own.value) > kill_power(opponent.value)
    } else {
        own_led
    }
}

/// Outcome of the trick in which `lead` was played first and `follow` second.
pub open spec fn trick_result(lead: Card, follow: Card, trump: Palos) -> (TrickWinner, nat) {
    (
        if beats(follow, lead, false, trump) {
            TrickWinner::Follow
        } else {
            TrickWinner::Lead
        },
        point_value(lead.value) + point_value(follow.value),
    )
}

impl Palos {
    /// The suit's label, symbol and name.
    pub fn to_string(&self) -> (r: String)
        ensures
            r@ == suit_label(*self),
    {
        match self {
            Palos::Espadas => "⚔ Espadas",
            Palos::Bastos => "🏏 Bastos",
            Palos::Copas => "🏆 Copas",
            Palos::Oros => "🪙 Oros",
        }.to_owned()
    }
}

impl Card {
    pub fn new(value: CardsValues, palo: Palos) -> (r: Card)
        ensures
            r.value == value,
            r.palo == palo,
    {
        Card { value, palo }
    }

    /// The symbol of the card's suit.
    pub fn emoji(&self) -> (r: char)
        ensures
            r == suit_emoji(self.palo),
    {
        match self.palo {
            Palos::Espadas => '⚔',
            Palos::Bastos => '🏏',
            Palos::Copas => '🏆',
            Palos::Oros => '🪙',
        }
    }

    /// The name of the card's rank.
    pub fn name(&self) -> (r: &'static str)
        ensures
            r@ == rank_name(self.value),
    {
        match self.value {
            CardsValues::As => "As",
            CardsValues::Dos => "Dos",
            CardsValues::Tres => "Tres",
            CardsValues::Cuatro => "Cuatro",
            CardsValues::Cinco => "Cinco",
            CardsValues::Seis => "Seis",
            CardsValues::Siete => "Siete",
            CardsValues::Sota => "Sota",
            CardsValues::Caballo => "Caballo",
            CardsValues::Rey => "Rey",
        }
    }

    /// Points the card is worth when won in a trick.
    pub fn value(&self) -> (r: u8)
        ensures
            r == point_value(self.value),
    {
        match self.value {
            CardsValues::As => 11,
            CardsValues::Tres => 10,
            CardsValues::Rey => 4,
            CardsValues::Caballo => 3,
            CardsValues::Sota => 2,
            _ => 0,
        }
    }

    /// Strength of the card when deciding who takes a trick.
    pub fn kill_power(&self) -> (r: u8)
        ensures
            r == kill_power(self.value),
    {
        match self.value {
            CardsValues::As => 12,
            CardsValues::Tres => 11,
            CardsValues::Rey => 10,
            CardsValues::Sota => 9,
            CardsValues::Caballo => 8,
            CardsValues::Siete => 7,
            CardsValues::Seis => 6,
            CardsValues::Cinco => 5,
            CardsValues::Cuatro => 4,
            CardsValues::Dos => 3,
        }
    }

    pub fn is_trump(&self, trump: Palos) -> (r: bool)
        ensures
            r == is_trump(*self, trump),
    {
        self.palo == trump
    }
}

/// Whether `own` takes `opponent` when `trump` is the trump suit; `own_led` says
/// whether `own` was the card played first in the trick.
pub fn resolves_against(own: Card, opponent: Card, own_led: bool, trump: Palos) -> (r: bool)
    ensures
        r == beats(own, opponent, own_led, trump),
{
    let own_trump = own.is_trump(trump);
    let opponent_trump = opponent.is_trump(trump);
    if own_trump && !opponent_trump {
        true
    } else if opponent_trump && !own_trump {
        false
    } else if own.palo == opponent.palo {
        own.kill_power() > opponent.kill_power()
    } else {
        own_led
    }
}

/// Resolves a trick: `lead` was played first, `follow` second. The winner collects
/// the points of both cards.
pub fn resolve_trick(lead: Card, follow: Card, trump: Palos) -> (r: TrickResult)
    ensures
        (r.winner, r.points as nat) == trick_result(lead, follow, trump),
{
    let winner = if resolves_against(follow, lead, false, trump) {
        TrickWinner::Follow
    } else {
        TrickWinner::Lead
    };
    TrickResult { winner, points: lead.value() + follow.value() }
}


/// Every trick has exactly one winner: of two distinct cards, with either of them led,
/// exactly one beats the other.
pub proof fn lemma_exactly_one_wins(a: Card, b: Card, a_led: bool, trump: Palos)
    requires
        a != b,
    ensures
        beats(a, b, a_led, trump) != beats(b, a, !a_led, trump),
{
}

/// Swapping who leads does not change which card takes the trick, unless the two cards
/// are of different suits and neither is trump: there the lead always wins.
pub proof fn lemma_trick_role_swap(a: Card, b: Card, trump: Palos)
    requires
        a != b,
        !(a.palo != b.palo && !is_trump(a, trump) && !is_trump(b, trump)),
    ensures
        (trick_result(a, b, trump).0 == TrickWinner::Lead) <==> (trick_result(b, a, trump).0
            == TrickWinner::Follow),
        trick_result(a, b, trump).1 == trick_result(b, a, trump).1,
{
}

} // verus!
