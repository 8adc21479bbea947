//! Tile identities: cycles, deck builders, faces and matching.

use tile_grid::solitaire::play::is_matching_pair;
use tile_grid::tiles::{
    Bonus, Dragon, EnumIter, Honor, Number, Plant, Season, Suit, Tile, Wind,
    NUMBER_OF_TILES_WITH_BONUS, NUMBER_OF_TILE_WITHOUT_BONUS,
};

#[test]
fn the_deck_constants_count_the_tiles() {
    assert_eq!(NUMBER_OF_TILE_WITHOUT_BONUS, 136);
    assert_eq!(NUMBER_OF_TILES_WITH_BONUS, 144);
}

#[test]
fn numbers_cycle_in_order() {
    assert_eq!(Number::One.next(), Number::Two);
    assert_eq!(Number::Eight.next(), Number::Nine);
    assert_eq!(Number::Nine.next(), Number::One);
}

#[test]
fn winds_and_dragons_cycle_in_order() {
    assert_eq!(Wind::East.next(), Wind::South);
    assert_eq!(Wind::North.next(), Wind::East);
    assert_eq!(Dragon::White.next(), Dragon::Green);
    assert_eq!(Dragon::Red.next(), Dragon::White);
}

#[test]
fn suits_and_honors_step_their_inner_kind() {
    assert_eq!(
        Suit::Bamboo(Number::Nine).next(),
        Suit::Bamboo(Number::One)
    );
    assert_eq!(
        Honor::Wind(Wind::West).next(),
        Honor::Wind(Wind::North)
    );
    assert_eq!(
        Tile::Suit(Suit::Dot(Number::One)).next(),
        Tile::Suit(Suit::Dot(Number::Two))
    );
    let bonus = Tile::Bonus(Bonus::Season(Season::Fall));
    assert_eq!(bonus.next(), bonus);
}

#[test]
fn iteration_orders_match_the_play_order() {
    let numbers = Number::iter();
    assert_eq!(numbers.len(), 9);
    assert_eq!(numbers[0], Number::One);
    assert_eq!(numbers[8], Number::Nine);

    assert_eq!(Wind::iter(), vec![Wind::East, Wind::South, Wind::West, Wind::North]);
    assert_eq!(Dragon::iter(), vec![Dragon::White, Dragon::Green, Dragon::Red]);
    assert_eq!(
        Season::iter(),
        vec![Season::Spring, Season::Summer, Season::Fall, Season::Winter]
    );
    assert_eq!(
        Plant::iter(),
        vec![Plant::Plum, Plant::Orchid, Plant::Chrysanthemum, Plant::Bamboo]
    );
}

#[test]
fn the_normal_set_holds_every_suit_and_honor_once() {
    let tiles = Tile::new_normal_set();
    assert_eq!(tiles.len(), 34);
    assert_eq!(tiles[0], Tile::Suit(Suit::Dot(Number::One)));
    assert_eq!(tiles[9], Tile::Suit(Suit::Bamboo(Number::One)));
    assert_eq!(tiles[18], Tile::Suit(Suit::Char(Number::One)));
    assert_eq!(tiles[27], Tile::Honor(Honor::Wind(Wind::East)));
    assert_eq!(tiles[33], Tile::Honor(Honor::Dragon(Dragon::Red)));
    for i in 0..tiles.len() {
        for j in 0..i {
            assert_ne!(tiles[i], tiles[j]);
        }
    }
}

#[test]
fn the_bonus_set_holds_every_bonus_once() {
    let tiles = Tile::new_bonus_set();
    assert_eq!(tiles.len(), 8);
    assert_eq!(tiles[0], Tile::Bonus(Bonus::Season(Season::Spring)));
    assert_eq!(tiles[7], Tile::Bonus(Bonus::Plant(Plant::Bamboo)));
}

#[test]
fn cover_ids_index_the_faces_in_deck_order() {
    assert_eq!(Tile::Suit(Suit::Dot(Number::One)).cover_id(), 0);
    assert_eq!(Tile::Suit(Suit::Char(Number::Nine)).cover_id(), 26);
    assert_eq!(Tile::Honor(Honor::Dragon(Dragon::Red)).cover_id(), 33);
    assert_eq!(Tile::Bonus(Bonus::Season(Season::Spring)).cover_id(), 34);
    assert_eq!(Tile::Bonus(Bonus::Plant(Plant::Bamboo)).cover_id(), 41);

    let mut seen = Vec::new();
    for t in Tile::new_normal_set() {
        seen.push(t.cover_id());
    }
    for t in Tile::new_bonus_set() {
        seen.push(t.cover_id());
    }
    for i in 0..seen.len() {
        assert_eq!(seen[i], i as i32);
    }
}

#[test]
fn conversions_wrap_into_the_expected_variant() {
    assert_eq!(
        Tile::from(Suit::Dot(Number::Five)),
        Tile::Suit(Suit::Dot(Number::Five))
    );
    assert_eq!(Tile::from(Wind::South), Tile::Honor(Honor::Wind(Wind::South)));
    assert_eq!(
        Tile::from(Season::Winter),
        Tile::Bonus(Bonus::Season(Season::Winter))
    );
    assert_eq!(Tile::from(Plant::Plum), Tile::Bonus(Bonus::Plant(Plant::Plum)));
    assert_eq!(Honor::from(Dragon::Green), Honor::Dragon(Dragon::Green));
    assert_eq!(Bonus::from(Season::Summer), Bonus::Season(Season::Summer));
}

#[test]
fn matching_follows_faces_and_bonus_families() {
    let dot = Tile::Suit(Suit::Dot(Number::Two));
    assert!(is_matching_pair(dot, dot));
    assert!(!is_matching_pair(dot, Tile::Suit(Suit::Dot(Number::Three))));
    assert!(!is_matching_pair(dot, Tile::Suit(Suit::Bamboo(Number::Two))));

    let spring = Tile::Bonus(Bonus::Season(Season::Spring));
    let winter = Tile::Bonus(Bonus::Season(Season::Winter));
    let plum = Tile::Bonus(Bonus::Plant(Plant::Plum));
    let orchid = Tile::Bonus(Bonus::Plant(Plant::Orchid));
    assert!(is_matching_pair(spring, winter));
    assert!(is_matching_pair(plum, orchid));
    assert!(!is_matching_pair(spring, plum));

    let east = Tile::Honor(Honor::Wind(Wind::East));
    assert!(is_matching_pair(east, east));
    assert!(!is_matching_pair(east, Tile::Honor(Honor::Wind(Wind::West))));
}
