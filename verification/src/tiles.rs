//! Tile identities: suits with numbers, honors, and bonus tiles.
//!
//! The kinds form a small closed family. Each cyclic kind carries its fixed
//! successor ordering as explicit data (`EnumIter`), the deck builders
//! enumerate the standard set — four copies of each suit and honor tile,
//! one of each bonus tile — and `cover_id` gives every face a distinct
//! index for texture lookup.

use vstd::prelude::*;

verus! {

/// Four copies each of the 27 suit faces, 4 winds and 3 dragons:
/// `(9 * 3 + 4 + 3) * 4`.
pub const NUMBER_OF_TILE_WITHOUT_BONUS: u32 = 136;

/// The full deck adds the 4 seasons and 4 plants:
/// `NUMBER_OF_TILE_WITHOUT_BONUS + 2 * 4`.
pub const NUMBER_OF_TILES_WITH_BONUS: u32 = 144;

/// A kind with a fixed successor cycle, enumerated as explicit data.
pub trait EnumIter: Sized {
    /// The successor in this kind's cycle.
    spec fn next_spec(self) -> Self;

    /// Steps to the successor in this kind's cycle.
    fn next(self) -> (r: Self)
        ensures
            r == self.next_spec(),
    ;
}

#[derive(Debug, Copy, Clone, PartialEq, Eq, Hash, Structural)]
pub enum Tile {
    Suit(Suit),
    Honor(Honor),
    Bonus(Bonus),
}

#[derive(Debug, Copy, Clone, PartialEq, Eq, Hash, Structural)]
pub enum Suit {
    Dot(Number),
    Bamboo(Number),
    Char(Number),
}

#[derive(Debug, Copy, Clone, PartialEq, Eq, Hash, Structural)]
pub enum Number {
    One,
    Two,
    Three,
    Four,
    Five,
    Six,
    Seven,
    Eight,
    Nine,
}

#[derive(Debug, Copy, Clone, PartialEq, Eq, Hash, Structural)]
pub enum Honor {
    Wind(Wind),
    Dragon(Dragon),
}

#[derive(Debug, Copy, Clone, PartialEq, Eq, Hash, Structural)]
pub enum Wind {
    East,
    South,
    West,
    North,
}

#[derive(Debug, Copy, Clone, PartialEq, Eq, Hash, Structural)]
pub enum Dragon {
    White,
    Green,
    Red,
}

#[derive(Debug, Copy, Clone, PartialEq, Eq, Hash, Structural)]
pub enum Bonus {
    Season(Season),
    Plant(Plant),
}

#[derive(Debug, Copy, Clone, PartialEq, Eq, Hash, Structural)]
pub enum Season {
    Spring,
    Summer,
    Fall,
    Winter,
}

#[derive(Debug, Copy, Clone, PartialEq, Eq, Hash, Structural)]
pub enum Plant {
    Plum,
    Orchid,
    Chrysanthemum,
    Bamboo,
}

impl EnumIter for Number {
    open spec fn next_spec(self) -> Number {
        match self {
            Number::One => Number::Two,
            Number::Two => Number::Three,
            Number::Three => Number::Four,
            Number::Four => Number::Five,
            Number::Five => Number::Six,
            Number::Six => Number::Seven,
            Number::Seven => Number::Eight,
            Number::Eight => Number::Nine,
            Number::Nine => Number::One,
        }
    }

    fn next(self) -> (r: Self) {
        match self {
            Number::One => Number::Two,
            Number::Two => Number::Three,
            Number::Three => Number::Four,
            Number::Four => Number::Five,
            Number::Five => Number::Six,
            Number::Six => Number::Seven,
            Number::Seven => Number::Eight,
            Number::Eight => Number::Nine,
            Number::Nine => Number::One,
        }
    }
}

impl EnumIter for Wind {
    open spec fn next_spec(self) -> Wind {
        match self {
            Wind::East => Wind::South,
            Wind::South => Wind::West,
            Wind::West => Wind::North,
            Wind::North => Wind::East,
        }
    }

    fn next(self) -> (r: Self) {
        match self {
            Wind::East => Wind::South,
            Wind::South => Wind::West,
            Wind::West => Wind::North,
            Wind::North => Wind::East,
        }
    }
}

impl EnumIter for Dragon {
    open spec fn next_spec(self) -> Dragon {
        match self {
            Dragon::White => Dragon::Green,
            Dragon::Green => Dragon::Red,
            Dragon::Red => Dragon::White,
        }
    }

    fn next(self) -> (r: Self) {
        match self {
            Dragon::White => Dragon::Green,
            Dragon::Green => Dragon::Red,
            Dragon::Red => Dragon::White,
        }
    }
}

impl EnumIter for Suit {
    open spec fn next_spec(self) -> Suit {
        match self {
            Suit::Dot(number) => Suit::Dot(number.next_spec()),
            Suit::Bamboo(number) => Suit::Bamboo(number.next_spec()),
            Suit::Char(number) => Suit::Char(number.next_spec()),
        }
    }

    fn next(self) -> (r: Self) {
        match self {
            Suit::Dot(number) => Suit::Dot(number.next()),
            Suit::Bamboo(number) => Suit::Bamboo(number.next()),
            Suit::Char(number) => Suit::Char(number.next()),
        }
    }
}

impl EnumIter for Honor {
    open spec fn next_spec(self) -> Honor {
        match self {
            Honor::Wind(wind) => Honor::Wind(wind.next_spec()),
            Honor::Dragon(dragon) => Honor::Dragon(dragon.next_spec()),
        }
    }

    fn next(self) -> (r: Self) {
        match self {
            Honor::Wind(wind) => Honor::Wind(wind.next()),
            Honor::Dragon(dragon) => Honor::Dragon(dragon.next()),
        }
    }
}

impl EnumIter for Tile {
    open spec fn next_spec(self) -> Tile {
        match self {
            Tile::Suit(suit) => Tile::Suit(suit.next_spec()),
            Tile::Honor(honor) => Tile::Honor(honor.next_spec()),
            Tile::Bonus(bonus) => Tile::Bonus(bonus),
        }
    }

    fn next(self) -> (r: Self) {
        match self {
            Tile::Suit(suit) => Tile::Suit(suit.next()),
            Tile::Honor(honor) => Tile::Honor(honor.next()),
            Tile::Bonus(bonus) => Tile::Bonus(bonus),
        }
    }
}

impl From<Suit> for Tile {
    fn from(suit: Suit) -> (r: Self) {
        Tile::Suit(suit)
    }
}

impl vstd::std_specs::convert::FromSpecImpl<Suit> for Tile {
    open spec fn obeys_from_spec() -> bool {
        true
    }

    open spec fn from_spec(suit: Suit) -> Tile {
        Tile::Suit(suit)
    }
}

impl From<Honor> for Tile {
    fn from(honor: Honor) -> (r: Self) {
        Tile::Honor(honor)
    }
}

impl vstd::std_specs::convert::FromSpecImpl<Honor> for Tile {
    open spec fn obeys_from_spec() -> bool {
        true
    }

    open spec fn from_spec(honor: Honor) -> Tile {
        Tile::Honor(honor)
    }
}

impl From<Bonus> for Tile {
    fn from(bonus: Bonus) -> (r: Self) {
        Tile::Bonus(bonus)
    }
}

impl vstd::std_specs::convert::FromSpecImpl<Bonus> for Tile {
    open spec fn obeys_from_spec() -> bool {
        true
    }

    open spec fn from_spec(bonus: Bonus) -> Tile {
        Tile::Bonus(bonus)
    }
}

impl From<Wind> for Tile {
    fn from(wind: Wind) -> (r: Self) {
        Tile::Honor(Honor::Wind(wind))
    }
}

impl vstd::std_specs::convert::FromSpecImpl<Wind> for Tile {
    open spec fn obeys_from_spec() -> bool {
        true
    }

    open spec fn from_spec(wind: Wind) -> Tile {
        Tile::Honor(Honor::Wind(wind))
    }
}

impl From<Dragon> for Tile {
    fn from(dragon: Dragon) -> (r: Self) {
        Tile::Honor(Honor::Dragon(dragon))
    }
}

impl vstd::std_specs::convert::FromSpecImpl<Dragon> for Tile {
    open spec fn obeys_from_spec() -> bool {
        true
    }

    open spec fn from_spec(dragon: Dragon) -> Tile {
        Tile::Honor(Honor::Dragon(dragon))
    }
}

impl From<Season> for Tile {
    fn from(season: Season) -> (r: Self) {
        Tile::Bonus(Bonus::Season(season))
    }
}

impl vstd::std_specs::convert::FromSpecImpl<Season> for Tile {
    open spec fn obeys_from_spec() -> bool {
        true
    }

    open spec fn from_spec(season: Season) -> Tile {
        Tile::Bonus(Bonus::Season(season))
    }
}

impl From<Plant> for Tile {
    fn from(plant: Plant) -> (r: Self) {
        Tile::Bonus(Bonus::Plant(plant))
    }
}

impl vstd::std_specs::convert::FromSpecImpl<Plant> for Tile {
    open spec fn obeys_from_spec() -> bool {
        true
    }

    open spec fn from_spec(plant: Plant) -> Tile {
        Tile::Bonus(Bonus::Plant(plant))
    }
}

impl From<Wind> for Honor {
    fn from(wind: Wind) -> (r: Self) {
        Honor::Wind(wind)
    }
}

impl vstd::std_specs::convert::FromSpecImpl<Wind> for Honor {
    open spec fn obeys_from_spec() -> bool {
        true
    }

    open spec fn from_spec(wind: Wind) -> Honor {
        Honor::Wind(wind)
    }
}

impl From<Dragon> for Honor {
    fn from(dragon: Dragon) -> (r: Self) {
        Honor::Dragon(dragon)
    }
}

impl vstd::std_specs::convert::FromSpecImpl<Dragon> for Honor {
    open spec fn obeys_from_spec() -> bool {
        true
    }

    open spec fn from_spec(dragon: Dragon) -> Honor {
        Honor::Dragon(dragon)
    }
}

impl From<Season> for Bonus {
    fn from(season: Season) -> (r: Self) {
        Bonus::Season(season)
    }
}

impl vstd::std_specs::convert::FromSpecImpl<Season> for Bonus {
    open spec fn obeys_from_spec() -> bool {
        true
    }

    open spec fn from_spec(season: Season) -> Bonus {
        Bonus::Season(season)
    }
}

impl From<Plant> for Bonus {
    fn from(plant: Plant) -> (r: Self) {
        Bonus::Plant(plant)
    }
}

impl vstd::std_specs::convert::FromSpecImpl<Plant> for Bonus {
    open spec fn obeys_from_spec() -> bool {
        true
    }

    open spec fn from_spec(plant: Plant) -> Bonus {
        Bonus::Plant(plant)
    }
}

/// The 27 suit faces and 7 honor faces in deck order: dots, bamboos and
/// characters one through nine, then the winds, then the dragons.
pub open spec fn normal_tile_values() -> Seq<Tile> {
    seq![
        Tile::Suit(Suit::Dot(Number::One)),
        Tile::Suit(Suit::Dot(Number::Two)),
        Tile::Suit(Suit::Dot(Number::Three)),
        Tile::Suit(Suit::Dot(Number::Four)),
        Tile::Suit(Suit::Dot(Number::Five)),
        Tile::Suit(Suit::Dot(Number::Six)),
        Tile::Suit(Suit::Dot(Number::Seven)),
        Tile::Suit(Suit::Dot(Number::Eight)),
        Tile::Suit(Suit::Dot(Number::Nine)),
        Tile::Suit(Suit::Bamboo(Number::One)),
        Tile::Suit(Suit::Bamboo(Number::Two)),
        Tile::Suit(Suit::Bamboo(Number::Three)),
        Tile::Suit(Suit::Bamboo(Number::Four)),
        Tile::Suit(Suit::Bamboo(Number::Five)),
        Tile::Suit(Suit::Bamboo(Number::Six)),
        Tile::Suit(Suit::Bamboo(Number::Seven)),
        Tile::Suit(Suit::Bamboo(Number::Eight)),
        Tile::Suit(Suit::Bamboo(Number::Nine)),
        Tile::Suit(Suit::Char(Number::One)),
        Tile::Suit(Suit::Char(Number::Two)),
        Tile::Suit(Suit::Char(Number::Three)),
        Tile::Suit(Suit::Char(Number::Four)),
        Tile::Suit(Suit::Char(Number::Five)),
        Tile::Suit(Suit::Char(Number::Six)),
        Tile::Suit(Suit::Char(Number::Seven)),
        Tile::Suit(Suit::Char(Number::Eight)),
        Tile::Suit(Suit::Char(Number::Nine)),
        Tile::Honor(Honor::Wind(Wind::East)),
        Tile::Honor(Honor::Wind(Wind::South)),
        Tile::Honor(Honor::Wind(Wind::West)),
        Tile::Honor(Honor::Wind(Wind::North)),
        Tile::Honor(Honor::Dragon(Dragon::White)),
        Tile::Honor(Honor::Dragon(Dragon::Green)),
        Tile::Honor(Honor::Dragon(Dragon::Red)),
    ]
}

/// The 8 bonus faces in deck order: the seasons, then the plants.
pub open spec fn bonus_tile_values() -> Seq<Tile> {
    seq![
        Tile::Bonus(Bonus::Season(Season::Spring)),
        Tile::Bonus(Bonus::Season(Season::Summer)),
        Tile::Bonus(Bonus::Season(Season::Fall)),
        Tile::Bonus(Bonus::Season(Season::Winter)),
        Tile::Bonus(Bonus::Plant(Plant::Plum)),
        Tile::Bonus(Bonus::Plant(Plant::Orchid)),
        Tile::Bonus(Bonus::Plant(Plant::Chrysanthemum)),
        Tile::Bonus(Bonus::Plant(Plant::Bamboo)),
    ]
}

/// The index of `t`'s face among the 42 distinct faces, in deck order.
pub open spec fn cover_index(t: Tile) -> int {
    match t {
        Tile::Suit(Suit::Dot(Number::One)) => 0,
        Tile::Suit(Suit::Dot(Number::Two)) => 1,
        Tile::Suit(Suit::Dot(Number::Three)) => 2,
        Tile::Suit(Suit::Dot(Number::Four)) => 3,
        Tile::Suit(Suit::Dot(Number::Five)) => 4,
        Tile::Suit(Suit::Dot(Number::Six)) => 5,
        Tile::Suit(Suit::Dot(Number::Seven)) => 6,
        Tile::Suit(Suit::Dot(Number::Eight)) => 7,
        Tile::Suit(Suit::Dot(Number::Nine)) => 8,
        Tile::Suit(Suit::Bamboo(Number::One)) => 9,
        Tile::Suit(Suit::Bamboo(Number::Two)) => 10,
        Tile::Suit(Suit::Bamboo(Number::Three)) => 11,
        Tile::Suit(Suit::Bamboo(Number::Four)) => 12,
        Tile::Suit(Suit::Bamboo(Number::Five)) => 13,
        Tile::Suit(Suit::Bamboo(Number::Six)) => 14,
        Tile::Suit(Suit::Bamboo(Number::Seven)) => 15,
        Tile::Suit(Suit::Bamboo(Number::Eight)) => 16,
        Tile::Suit(Suit::Bamboo(Number::Nine)) => 17,
        Tile::Suit(Suit::Char(Number::One)) => 18,
        Tile::Suit(Suit::Char(Number::Two)) => 19,
        Tile::Suit(Suit::Char(Number::Three)) => 20,
        Tile::Suit(Suit::Char(Number::Four)) => 21,
        Tile::Suit(Suit::Char(Number::Five)) => 22,
        Tile::Suit(Suit::Char(Number::Six)) => 23,
        Tile::Suit(Suit::Char(Number::Seven)) => 24,
        Tile::Suit(Suit::Char(Number::Eight)) => 25,
        Tile::Suit(Suit::Char(Number::Nine)) => 26,
        Tile::Honor(Honor::Wind(Wind::East)) => 27,
        Tile::Honor(Honor::Wind(Wind::South)) => 28,
        Tile::Honor(Honor::Wind(Wind::West)) => 29,
        Tile::Honor(Honor::Wind(Wind::North)) => 30,
        Tile::Honor(Honor::Dragon(Dragon::White)) => 31,
        Tile::Honor(Honor::Dragon(Dragon::Green)) => 32,
        Tile::Honor(Honor::Dragon(Dragon::Red)) => 33,
        Tile::Bonus(Bonus::Season(Season::Spring)) => 34,
        Tile::Bonus(Bonus::Season(Season::Summer)) => 35,
        Tile::Bonus(Bonus::Season(Season::Fall)) => 36,
        Tile::Bonus(Bonus::Season(Season::Winter)) => 37,
        Tile::Bonus(Bonus::Plant(Plant::Plum)) => 38,
        Tile::Bonus(Bonus::Plant(Plant::Orchid)) => 39,
        Tile::Bonus(Bonus::Plant(Plant::Chrysanthemum)) => 40,
        Tile::Bonus(Bonus::Plant(Plant::Bamboo)) => 41,
    }
}

impl Tile {
    /// One tile of each suit and honor face: the faces that come in four
    /// identical copies in a full deck.
    pub fn new_normal_set() -> (r: Vec<Tile>)
        ensures
            r@ == normal_tile_values(),
    {
        let mut v: Vec<Tile> = Vec::new();
        let numbers = Number::iter();
        let mut i: usize = 0;
        while i < numbers.len()
            invariant
                numbers@ == number_values(),
                i <= numbers@.len(),
                v@ =~= Seq::new(i as nat, |k: int| Tile::Suit(Suit::Dot(number_values()[k]))),
            decreases numbers@.len() - i,
        {
            v.push(Tile::Suit(Suit::Dot(numbers[i])));
            i += 1;
        }
        let mut i: usize = 0;
        while i < numbers.len()
            invariant
                numbers@ == number_values(),
                i <= numbers@.len(),
                v@ =~= Seq::new(9, |k: int| Tile::Suit(Suit::Dot(number_values()[k]))) + Seq::new(
                    i as nat,
                    |k: int| Tile::Suit(Suit::Bamboo(number_values()[k])),
                ),
            decreases numbers@.len() - i,
        {
            v.push(Tile::Suit(Suit::Bamboo(numbers[i])));
            i += 1;
        }
        let mut i: usize = 0;
        while i < numbers.len()
            invariant
                numbers@ == number_values(),
                i <= numbers@.len(),
                v@ =~= Seq::new(9, |k: int| Tile::Suit(Suit::Dot(number_values()[k]))) + Seq::new(
                    9,
                    |k: int| Tile::Suit(Suit::Bamboo(number_values()[k])),
                ) + Seq::new(i as nat, |k: int| Tile::Suit(Suit::Char(number_values()[k]))),
            decreases numbers@.len() - i,
        {
            v.push(Tile::Suit(Suit::Char(numbers[i])));
            i += 1;
        }
        v.push(Tile::Honor(Honor::Wind(Wind::East)));
        v.push(Tile::Honor(Honor::Wind(Wind::South)));
        v.push(Tile::Honor(Honor::Wind(Wind::West)));
        v.push(Tile::Honor(Honor::Wind(Wind::North)));
        v.push(Tile::Honor(Honor::Dragon(Dragon::White)));
        v.push(Tile::Honor(Honor::Dragon(Dragon::Green)));
        v.push(Tile::Honor(Honor::Dragon(Dragon::Red)));
        proof {
            assert(v@ =~= normal_tile_values());
        }
        v
    }

    /// One tile of each bonus face: the faces that appear once in a full
    /// deck and match by family rather than by identity.
    pub fn new_bonus_set() -> (r: Vec<Tile>)
        ensures
            r@ == bonus_tile_values(),
    {
        let mut v: Vec<Tile> = Vec::new();
        v.push(Tile::Bonus(Bonus::Season(Season::Spring)));
        v.push(Tile::Bonus(Bonus::Season(Season::Summer)));
        v.push(Tile::Bonus(Bonus::Season(Season::Fall)));
        v.push(Tile::Bonus(Bonus::Season(Season::Winter)));
        v.push(Tile::Bonus(Bonus::Plant(Plant::Plum)));
        v.push(Tile::Bonus(Bonus::Plant(Plant::Orchid)));
        v.push(Tile::Bonus(Bonus::Plant(Plant::Chrysanthemum)));
        v.push(Tile::Bonus(Bonus::Plant(Plant::Bamboo)));
        proof {
            assert(v@ =~= bonus_tile_values());
        }
        v
    }

    /// The index of this tile's face among the 42 distinct faces.
    pub fn cover_id(&self) -> (r: i32)
        ensures
            r as int == cover_index(*self),
    {
        match self {
            Tile::Suit(Suit::Dot(Number::One)) => 0,
            Tile::Suit(Suit::Dot(Number::Two)) => 1,
            Tile::Suit(Suit::Dot(Number::Three)) => 2,
            Tile::Suit(Suit::Dot(Number::Four)) => 3,
            Tile::Suit(Suit::Dot(Number::Five)) => 4,
            Tile::Suit(Suit::Dot(Number::Six)) => 5,
            Tile::Suit(Suit::Dot(Number::Seven)) => 6,
            Tile::Suit(Suit::Dot(Number::Eight)) => 7,
            Tile::Suit(Suit::Dot(Number::Nine)) => 8,
            Tile::Suit(Suit::Bamboo(Number::One)) => 9,
            Tile::Suit(Suit::Bamboo(Number::Two)) => 10,
            Tile::Suit(Suit::Bamboo(Number::Three)) => 11,
            Tile::Suit(Suit::Bamboo(Number::Four)) => 12,
            Tile::Suit(Suit::Bamboo(Number::Five)) => 13,
            Tile::Suit(Suit::Bamboo(Number::Six)) => 14,
            Tile::Suit(Suit::Bamboo(Number::Seven)) => 15,
            Tile::Suit(Suit::Bamboo(Number::Eight)) => 16,
            Tile::Suit(Suit::Bamboo(Number::Nine)) => 17,
            Tile::Suit(Suit::Char(Number::One)) => 18,
            Tile::Suit(Suit::Char(Number::Two)) => 19,
            Tile::Suit(Suit::Char(Number::Three)) => 20,
            Tile::Suit(Suit::Char(Number::Four)) => 21,
            Tile::Suit(Suit::Char(Number::Five)) => 22,
            Tile::Suit(Suit::Char(Number::Six)) => 23,
            Tile::Suit(Suit::Char(Number::Seven)) => 24,
            Tile::Suit(Suit::Char(Number::Eight)) => 25,
            Tile::Suit(Suit::Char(Number::Nine)) => 26,
            Tile::Honor(Honor::Wind(Wind::East)) => 27,
            Tile::Honor(Honor::Wind(Wind::South)) => 28,
            Tile::Honor(Honor::Wind(Wind::West)) => 29,
            Tile::Honor(Honor::Wind(Wind::North)) => 30,
            Tile::Honor(Honor::Dragon(Dragon::White)) => 31,
            Tile::Honor(Honor::Dragon(Dragon::Green)) => 32,
            Tile::Honor(Honor::Dragon(Dragon::Red)) => 33,
            Tile::Bonus(Bonus::Season(Season::Spring)) => 34,
            Tile::Bonus(Bonus::Season(Season::Summer)) => 35,
            Tile::Bonus(Bonus::Season(Season::Fall)) => 36,
            Tile::Bonus(Bonus::Season(Season::Winter)) => 37,
            Tile::Bonus(Bonus::Plant(Plant::Plum)) => 38,
            Tile::Bonus(Bonus::Plant(Plant::Orchid)) => 39,
            Tile::Bonus(Bonus::Plant(Plant::Chrysanthemum)) => 40,
            Tile::Bonus(Bonus::Plant(Plant::Bamboo)) => 41,
        }
    }
}

/// The nine numbers in play order.
pub open spec fn number_values() -> Seq<Number> {
    seq![
        Number::One,
        Number::Two,
        Number::Three,
        Number::Four,
        Number::Five,
        Number::Six,
        Number::Seven,
        Number::Eight,
        Number::Nine,
    ]
}

/// The four winds in play order.
pub open spec fn wind_values() -> Seq<Wind> {
    seq![Wind::East, Wind::South, Wind::West, Wind::North]
}

/// The three dragons in play order.
pub open spec fn dragon_values() -> Seq<Dragon> {
    seq![Dragon::White, Dragon::Green, Dragon::Red]
}

/// The four seasons in play order.
pub open spec fn season_values() -> Seq<Season> {
    seq![Season::Spring, Season::Summer, Season::Fall, Season::Winter]
}

/// The four plants in play order.
pub open spec fn plant_values() -> Seq<Plant> {
    seq![Plant::Plum, Plant::Orchid, Plant::Chrysanthemum, Plant::Bamboo]
}

impl Number {
    pub fn iter() -> (r: Vec<Number>)
        ensures
            r@ == number_values(),
    {
        let mut v: Vec<Number> = Vec::new();
        v.push(Number::One);
        v.push(Number::Two);
        v.push(Number::Three);
        v.push(Number::Four);
        v.push(Number::Five);
        v.push(Number::Six);
        v.push(Number::Seven);
        v.push(Number::Eight);
        v.push(Number::Nine);
        proof {
            assert(v@ =~= number_values());
        }
        v
    }
}

impl Wind {
    pub fn iter() -> (r: Vec<Wind>)
        ensures
            r@ == wind_values(),
    {
        let mut v: Vec<Wind> = Vec::new();
        v.push(Wind::East);
        v.push(Wind::South);
        v.push(Wind::West);
        v.push(Wind::North);
        proof {
            assert(v@ =~= wind_values());
        }
        v
    }
}

impl Dragon {
    pub fn iter() -> (r: Vec<Dragon>)
        ensures
            r@ == dragon_values(),
    {
        let mut v: Vec<Dragon> = Vec::new();
        v.push(Dragon::White);
        v.push(Dragon::Green);
        v.push(Dragon::Red);
        proof {
            assert(v@ =~= dragon_values());
        }
        v
    }
}

impl Season {
    pub fn iter() -> (r: Vec<Season>)
        ensures
            r@ == season_values(),
    {
        let mut v: Vec<Season> = Vec::new();
        v.push(Season::Spring);
        v.push(Season::Summer);
        v.push(Season::Fall);
        v.push(Season::Winter);
        proof {
            assert(v@ =~= season_values());
        }
        v
    }
}

impl Plant {
    pub fn iter() -> (r: Vec<Plant>)
        ensures
            r@ == plant_values(),
    {
        let mut v: Vec<Plant> = Vec::new();
        v.push(Plant::Plum);
        v.push(Plant::Orchid);
        v.push(Plant::Chrysanthemum);
        v.push(Plant::Bamboo);
        proof {
            assert(v@ =~= plant_values());
        }
        v
    }
}

} // verus!
