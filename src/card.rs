use vstd::prelude::*;

verus! {

/// Colors of hanabi cards.
#[derive(Copy, Clone, Debug, PartialEq, Eq, Hash, Structural)]
pub enum Color {
    White,
    Red,
    Blue,
    Yellow,
    Green,
    Multi,
}

/// The number of colors, and so of stacks on the field.
pub const COLOR_COUNT: usize = 6;

impl Color {
    /// Dense index of the color, used to address per-color storage.
    pub open spec fn index(self) -> nat {
        match self {
            Color::White => 0,
            Color::Red => 1,
            Color::Blue => 2,
            Color::Yellow => 3,
            Color::Green => 4,
            Color::Multi => 5,
        }
    }

    /// The color whose dense index is `i`.
    pub open spec fn from_index(i: nat) -> Color {
        if i == 0 {
            Color::White
        } else if i == 1 {
            Color::Red
        } else if i == 2 {
            Color::Blue
        } else if i == 3 {
            Color::Yellow
        } else if i == 4 {
            Color::Green
        } else {
            Color::Multi
        }
    }

    pub fn to_usize(&self) -> (r: usize)
        ensures
            r == self.index(),
            r < COLOR_COUNT,
    {
        match *self {
            Color::White => 0,
            Color::Red => 1,
            Color::Blue => 2,
            Color::Yellow => 3,
            Color::Green => 4,
            Color::Multi => 5,
        }
    }

    /// The color with dense index `i`.
    pub fn of_index(i: usize) -> (r: Color)
        requires
            i < COLOR_COUNT,
        ensures
            r.index() == i,
            r == Color::from_index(i as nat),
    {
        if i == 0 {
            Color::White
        } else if i == 1 {
            Color::Red
        } else if i == 2 {
            Color::Blue
        } else if i == 3 {
            Color::Yellow
        } else if i == 4 {
            Color::Green
        } else {
            Color::Multi
        }
    }
}

/// The dense index of colors is total and injective.
pub proof fn lemma_color_index_injective(a: Color, b: Color)
    ensures
        a.index() < COLOR_COUNT,
        Color::from_index(a.index()) == a,
        a.index() == b.index() ==> a == b,
{
}

/// Numbers (ranks) of hanabi cards.
#[derive(Copy, Clone, Debug, PartialEq, Eq, Hash, Structural)]
pub enum Number {
    One,
    Two,
    Three,
    Four,
    Five,
}

/// The number of ranks.
pub const NUMBER_COUNT: usize = 5;

impl Number {
    /// Numeric value of the rank, from 1 to 5.
    pub open spec fn value(self) -> nat {
        match self {
            Number::One => 1,
            Number::Two => 2,
            Number::Three => 3,
            Number::Four => 4,
            Number::Five => 5,
        }
    }

    /// The rank whose numeric value is `v`.
    pub open spec fn from_value(v: nat) -> Number {
        if v <= 1 {
            Number::One
        } else if v == 2 {
            Number::Two
        } else if v == 3 {
            Number::Three
        } else if v == 4 {
            Number::Four
        } else {
            Number::Five
        }
    }

    pub fn to_usize(&self) -> (r: usize)
        ensures
            r == self.value(),
            1 <= r <= NUMBER_COUNT,
    {
        match *self {
            Number::One => 1,
            Number::Two => 2,
            Number::Three => 3,
            Number::Four => 4,
            Number::Five => 5,
        }
    }

    /// The rank with numeric value `v`.
    pub fn of_value(v: usize) -> (r: Number)
        requires
            1 <= v <= NUMBER_COUNT,
        ensures
            r.value() == v,
            r == Number::from_value(v as nat),
    {
        if v == 1 {
            Number::One
        } else if v == 2 {
            Number::Two
        } else if v == 3 {
            Number::Three
        } else if v == 4 {
            Number::Four
        } else {
            Number::Five
        }
    }
}

/// Unique identifier of a physical card.
#[derive(Copy, Clone, Debug, PartialEq, Eq, Hash, Structural)]
pub struct CardId(pub u128);

impl CardId {
    pub fn new(v: u128) -> (r: CardId)
        ensures
            r.0 == v,
    {
        CardId(v)
    }

    pub fn as_u128(&self) -> (r: u128)
        ensures
            r == self.0,
    {
        self.0
    }
}

/// A hanabi card: a rank, a color and an identity.
#[derive(Copy, Clone, Debug, PartialEq, Eq, Hash, Structural)]
pub struct Card {
    pub number: Number,
    pub color: Color,
    pub id: CardId,
}

impl Card {
    pub fn new(n: Number, c: Color, id: CardId) -> (r: Card)
        ensures
            r == (Card { number: n, color: c, id }),
    {
        Card { number: n, color: c, id }
    }
}

/// Kinds of tokens.
#[derive(Copy, Clone, Debug, PartialEq, Eq, Hash, Structural)]
pub enum Token {
    Blue,
    Red,
}

/// A number of tokens of one kind.
#[derive(Copy, Clone, Debug, PartialEq, Eq, Hash, Structural)]
pub struct NumberdToken {
    pub num: usize,
    pub kind: Token,
}

/// What a hint tells: a color or a number.
#[derive(Copy, Clone, Debug, PartialEq, Eq, Hash, Structural)]
pub enum CardInfoKind {
    Color(Color),
    Number(Number),
}

impl CardInfoKind {
    /// Whether `card` is one of the cards that the hint designates.
    pub open spec fn matches(self, card: Card) -> bool {
        match self {
            CardInfoKind::Color(c) => card.color == c,
            CardInfoKind::Number(n) => card.number == n,
        }
    }

    pub fn is_match(&self, card: &Card) -> (r: bool)
        ensures
            r == self.matches(*card),
    {
        match *self {
            CardInfoKind::Color(c) => card.color == c,
            CardInfoKind::Number(n) => card.number == n,
        }
    }
}

/// A hint request: what to tell, and to which player.
#[derive(Copy, Clone, Debug, PartialEq, Eq, Hash, Structural)]
pub struct CardInfo {
    pub kind: CardInfoKind,
    pub player: usize,
}

impl CardInfo {
    pub fn new(kind: CardInfoKind, player: usize) -> (r: CardInfo)
        ensures
            r == (CardInfo { kind, player }),
    {
        CardInfo { kind, player }
    }
}

} // verus!
