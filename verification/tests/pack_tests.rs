use pokepack::binary::{unpack_from_bytes, PokemonBin, TvBin};

fn full_record() -> PokemonBin {
    PokemonBin {
        name: 1987,
        gender: 1,
        item: 1000,
        ability: 300,
        level: 100,
        shiny: true,
        tera: 17,
        evs: TvBin { hp: 252, atk: 0, def: 4, spa: 252, spd: 0, spe: 0 },
        nature: 13,
        ivs: TvBin { hp: 31, atk: 0, def: 31, spa: 31, spd: 31, spe: 29 },
        moves: vec![901, 85, 1, 1023],
    }
}

#[test]
fn pack_unpack_round_trip() {
    let b = full_record();
    let bytes = b.pack_to_bytes();
    let u = unpack_from_bytes(&bytes);
    assert_eq!(u.name, b.name);
    assert_eq!(u.gender, b.gender);
    assert_eq!(u.item, b.item);
    assert_eq!(u.ability, b.ability);
    assert_eq!(u.level, b.level);
    assert_eq!(u.shiny, b.shiny);
    assert_eq!(u.tera, b.tera);
    assert_eq!(u.evs, b.evs);
    assert_eq!(u.nature, b.nature);
    assert_eq!(u.ivs, b.ivs);
    assert_eq!(u.moves, b.moves);
}

#[test]
fn pack_pads_missing_moves_with_zero() {
    let mut b = full_record();
    b.moves = vec![7];
    let u = unpack_from_bytes(&b.pack_to_bytes());
    assert_eq!(u.moves, vec![7, 0, 0, 0]);
}

#[test]
fn pack_uses_only_the_first_four_moves() {
    let mut b = full_record();
    b.moves = vec![1, 2, 3, 4, 5, 6];
    let u = unpack_from_bytes(&b.pack_to_bytes());
    assert_eq!(u.moves, vec![1, 2, 3, 4]);
}

#[test]
fn default_record_has_exact_wire_bytes() {
    let b = PokemonBin {
        name: 0,
        gender: 2,
        item: 0,
        ability: 0,
        level: 0,
        shiny: false,
        tera: 0,
        evs: TvBin { hp: 0, atk: 0, def: 0, spa: 0, spd: 0, spe: 0 },
        nature: 0,
        ivs: TvBin { hp: 31, atk: 31, def: 31, spa: 31, spd: 31, spe: 31 },
        moves: vec![],
    };
    let bytes = b.pack_to_bytes();
    let expected: [u8; 21] = [
        0x00, 0x10, 0x00, 0x00, 0x00, 0x00, 0x00, 0x00, 0x00, 0x00, 0x00, 0x00, 0x3F, 0xFF, 0xFF,
        0xFF, 0x00, 0x00, 0x00, 0x00, 0x00,
    ];
    assert_eq!(bytes, expected);
}

#[test]
fn overwide_values_lose_their_high_bits() {
    let mut b = full_record();
    b.name = 2048 + 5;
    let u = unpack_from_bytes(&b.pack_to_bytes());
    assert_eq!(u.name, 5);
}
