use pokepack::codec::{
    binary_to_element, binary_to_gender, element_to_binary, gender_to_binary, small_to_u8,
};
use pokepack::dex::Dex;

fn small_dex() -> Dex {
    Dex::build(
        "Bulbasaur\nIvysaur\nVenusaur\nPikachu",
        "Life Orb\nLeftovers",
        "Overgrow\nStatic",
        "Tackle\nThunderbolt",
        "Modest\nAdamant",
        "Electric\nGrass",
    )
}

#[test]
fn test_element_to_binary() {
    let dex = small_dex();
    assert_eq!(element_to_binary(&dex.maps.names, "bulbasaur"), 0);
}

#[test]
fn test_binary_to_element() {
    let dex = small_dex();
    assert_eq!(binary_to_element(&dex.tables.names, 0), "Bulbasaur");
}

#[test]
fn test_gender_to_binary() {
    assert_eq!(gender_to_binary("m"), 0);
    assert_eq!(gender_to_binary("f"), 1);
    assert_eq!(gender_to_binary("a"), 2);
}

#[test]
fn test_binary_to_gender() {
    assert_eq!(binary_to_gender(0), "m");
    assert_eq!(binary_to_gender(1), "f");
    assert_eq!(binary_to_gender(2), "");
}

#[test]
fn test_small_to_u8() {
    assert_eq!(small_to_u8("252", false), 252);
    assert_eq!(small_to_u8("", false), 0);
    assert_eq!(small_to_u8("", true), 31);
}

#[test]
fn lookup_is_case_insensitive() {
    let dex = small_dex();
    let upper = element_to_binary(&dex.maps.names, "PIKACHU");
    let lower = element_to_binary(&dex.maps.names, "pikachu");
    assert_eq!(upper, lower);
    assert_eq!(upper, 3);
}

#[test]
fn unknown_name_encodes_to_zero() {
    let dex = small_dex();
    assert_eq!(element_to_binary(&dex.maps.names, "missingno"), 0);
    assert_eq!(element_to_binary(&dex.maps.items, "odd stone"), 0);
}

#[test]
fn gender_collapses_absent_and_unknown() {
    assert_eq!(gender_to_binary(""), 2);
    assert_eq!(gender_to_binary("x"), 2);
    assert_eq!(gender_to_binary(""), gender_to_binary("x"));
    assert_eq!(binary_to_gender(2), "");
}

#[test]
fn gender_code_is_case_insensitive() {
    assert_eq!(gender_to_binary("M"), 0);
    assert_eq!(gender_to_binary("F"), 1);
}

#[test]
fn stat_text_failing_to_parse_falls_back_to_zero() {
    assert_eq!(small_to_u8("banana", false), 0);
    assert_eq!(small_to_u8("banana", true), 0);
    assert_eq!(small_to_u8("999", true), 0);
    assert_eq!(small_to_u8(" 31 ", true), 31);
}

#[test]
fn stat_text_accepts_a_leading_plus() {
    assert_eq!(small_to_u8("+42", false), 42);
    assert_eq!(small_to_u8("+0", true), 0);
    assert_eq!(small_to_u8("+", false), 0);
    assert_eq!(small_to_u8("++1", false), 0);
    assert_eq!(small_to_u8("-1", false), 0);
}

#[test]
fn stat_text_is_trimmed_like_std() {
    assert_eq!(small_to_u8("\u{a0}31\u{a0}", true), 31);
    assert_eq!(small_to_u8("\u{2009}252\u{2009}", false), 252);
}

#[test]
fn lookup_folds_beyond_ascii() {
    let dex = Dex::build("Flab\u{e9}b\u{e9}", "i", "a", "m", "n", "t");
    let upper = element_to_binary(&dex.maps.names, "FLAB\u{c9}B\u{c9}");
    let lower = element_to_binary(&dex.maps.names, "flab\u{e9}b\u{e9}");
    assert_eq!(upper, 0);
    assert_eq!(upper, lower);
}

#[test]
fn duplicate_folded_entries_take_the_last_index() {
    let dex = Dex::build("Abra\nABRA", "i", "a", "m", "n", "t");
    assert_eq!(element_to_binary(&dex.maps.names, "abra"), 1);
}
