use pokepack::base64_to_pokepaste;
use pokepack::bytes_to_pokepaste;
use pokepack::dex::Dex;
use pokepack::error::{ConvertError, ParseError};
use pokepack::hex_to_pokepaste;
use pokepack::parser::parse_pokepaste;
use pokepack::pokepaste_to_base64;
use pokepack::pokepaste_to_bytes;
use pokepack::pokepaste_to_hex;
use pokepack::pokepaste_to_pokepack;

const SAMPLE_PASTE: &str = r#"
Miraidon @ Life Orb  
Ability: Hadron Engine  
Level: 50  
Tera Type: Electric  
EVs: 28 HP / 28 Def / 196 SpA / 4 SpD / 252 Spe  
Modest Nature  
- Electro Drift  
- Volt Switch  
- Draco Meteor  
- Protect  

Lunala @ Electric Seed  
Ability: Shadow Shield  
Level: 50  
Tera Type: Fairy  
EVs: 220 HP / 36 Def / 236 SpA / 12 SpD  
Modest Nature  
IVs: 0 Atk / 29 Spe  
- Moongeist Beam  
- Moonblast  
- Wide Guard  
- Trick Room  

Iron Hands @ Assault Vest  
Ability: Quark Drive  
Level: 50  
Shiny: Yes  
Tera Type: Bug  
EVs: 212 HP / 156 Atk / 4 Def / 124 SpD / 12 Spe  
Adamant Nature  
- Low Kick  
- Wild Charge  
- Heavy Slam  
- Fake Out  

Volcarona (M) @ Leftovers  
Ability: Flame Body  
Level: 50  
Shiny: Yes  
Tera Type: Water  
EVs: 252 HP / 252 Def / 4 SpA  
Bold Nature  
IVs: 0 Atk  
- Fiery Dance  
- Rage Powder  
- Struggle Bug  
- Tailwind  

Urshifu-Rapid-Strike @ Focus Sash  
Ability: Unseen Fist  
Level: 50  
Tera Type: Ghost  
EVs: 4 HP / 252 Atk / 252 Spe  
Adamant Nature  
- Surging Strikes  
- Close Combat  
- Taunt  
- Protect  

Ogerpon-Cornerstone (F) @ Cornerstone Mask  
Ability: Sturdy  
Level: 50  
Tera Type: Rock  
EVs: 4 HP / 252 Atk / 252 Spe  
Jolly Nature  
- Ivy Cudgel  
- Stomping Tantrum  
- Follow Me  
- Spiky Shield  
"#;

fn sample_dex() -> Dex {
    Dex::build(
        "Bulbasaur\nMiraidon\nLunala\nIron Hands\nVolcarona\nUrshifu-Rapid-Strike\nOgerpon-Cornerstone",
        "Leftovers\nLife Orb\nElectric Seed\nAssault Vest\nFocus Sash\nCornerstone Mask",
        "Overgrow\nHadron Engine\nShadow Shield\nQuark Drive\nFlame Body\nUnseen Fist\nSturdy",
        "Tackle\nElectro Drift\nVolt Switch\nDraco Meteor\nProtect\nMoongeist Beam\nMoonblast\nWide Guard\nTrick Room\nLow Kick\nWild Charge\nHeavy Slam\nFake Out\nFiery Dance\nRage Powder\nStruggle Bug\nTailwind\nSurging Strikes\nClose Combat\nTaunt\nIvy Cudgel\nStomping Tantrum\nFollow Me\nSpiky Shield",
        "Hardy\nModest\nAdamant\nBold\nJolly",
        "Normal\nElectric\nFairy\nBug\nWater\nGhost\nRock",
    )
}

#[test]
fn test_bytes_conversion_roundtrip() {
    let dex = sample_dex();
    let paste = SAMPLE_PASTE.trim().to_string();

    let bytes_encoded = pokepaste_to_bytes(&dex, paste.clone()).unwrap();
    let decoded_paste = bytes_to_pokepaste(&dex.tables, bytes_encoded).unwrap();

    let original_structs = parse_pokepaste(paste).unwrap();
    let decoded_structs = parse_pokepaste(decoded_paste).unwrap();
    assert_eq!(original_structs, decoded_structs);
}

#[test]
fn test_base64_conversion_roundtrip() {
    let dex = sample_dex();
    let paste = SAMPLE_PASTE.trim().to_string();

    let base64_encoded = pokepaste_to_base64(&dex, paste.clone()).unwrap();
    let decoded_paste = base64_to_pokepaste(&dex.tables, base64_encoded).unwrap();

    let original_structs = parse_pokepaste(paste).unwrap();
    let decoded_structs = parse_pokepaste(decoded_paste).unwrap();
    assert_eq!(original_structs, decoded_structs);
}

#[test]
fn test_hex_conversion_roundtrip() {
    let dex = sample_dex();
    let paste = SAMPLE_PASTE.trim().to_string();

    let hex_encoded = pokepaste_to_hex(&dex, paste.clone()).unwrap();
    let decoded_paste = hex_to_pokepaste(&dex.tables, hex_encoded).unwrap();

    let original_structs = parse_pokepaste(paste).unwrap();
    let decoded_structs = parse_pokepaste(decoded_paste).unwrap();
    assert_eq!(original_structs, decoded_structs);
}

#[test]
fn two_blocks_pack_to_42_bytes_and_84_hex_chars() {
    let dex = sample_dex();
    let paste = "Miraidon @ Life Orb\nAbility: Hadron Engine\nLevel: 50\nEVs: 4 HP / 252 SpA / 252 Spe\nModest Nature\nIVs: 0 Atk\n- Electro Drift\n- Volt Switch\n- Draco Meteor\n- Protect\n\nLunala @ Electric Seed\nAbility: Shadow Shield\nLevel: 50\nEVs: 252 HP / 4 Def / 252 SpA\nModest Nature\nIVs: 0 Atk / 29 Spe\n- Moongeist Beam\n- Moonblast\n- Wide Guard\n- Trick Room";

    let records = parse_pokepaste(paste.to_string()).unwrap();
    assert_eq!(records.len(), 2);
    assert_eq!(records[0].name, "miraidon");
    assert_eq!(records[1].name, "lunala");

    let packed = pokepaste_to_pokepack(&dex, paste.to_string()).unwrap();
    assert_eq!(packed.len(), 2);
    assert_eq!(packed[0].len(), 21);
    assert_eq!(packed[1].len(), 21);

    let flat = pokepaste_to_bytes(&dex, paste.to_string()).unwrap();
    assert_eq!(flat.len(), 42);

    let hex = pokepaste_to_hex(&dex, paste.to_string()).unwrap();
    let lines: Vec<&str> = hex.lines().collect();
    assert_eq!(lines.len(), 2);
    let mut hex_chars = 0;
    for line in &lines {
        assert_eq!(line.len(), 42);
        for c in line.chars() {
            assert!(c.is_ascii_digit() || c.is_ascii_uppercase());
            hex_chars += 1;
        }
    }
    assert_eq!(hex_chars, 84);
}

#[test]
fn ev_token_without_space_is_malformed() {
    let err = parse_pokepaste("Miraidon\nEVs: 252SpA".to_string()).unwrap_err();
    assert!(matches!(err, ParseError::MalformedTvString { .. }));
}

#[test]
fn block_starting_with_a_key_line_misses_its_name() {
    let err = parse_pokepaste("Ability: Levitate".to_string()).unwrap_err();
    assert!(matches!(err, ParseError::MissingName { .. }));
}

#[test]
fn empty_input_is_rejected() {
    let err = parse_pokepaste("".to_string()).unwrap_err();
    assert!(matches!(err, ParseError::EmptyInput));
    let err = parse_pokepaste("   \n\t  ".to_string()).unwrap_err();
    assert!(matches!(err, ParseError::EmptyInput));
}

#[test]
fn bare_dash_is_a_malformed_line() {
    let err = parse_pokepaste("Miraidon\n-".to_string()).unwrap_err();
    assert!(matches!(err, ParseError::MalformedLine { .. }));
}

#[test]
fn blank_block_is_rejected() {
    let err = parse_pokepaste("Miraidon\n\n\n\nLunala".to_string()).unwrap_err();
    assert!(matches!(err, ParseError::EmptyBlock));
}

#[test]
fn nickname_and_gender_resolve_to_the_species() {
    let records = parse_pokepaste("Sparky (Miraidon) (F) @ Life Orb".to_string()).unwrap();
    assert_eq!(records.len(), 1);
    assert_eq!(records[0].name, "miraidon");
    assert_eq!(records[0].gender, "f");
    assert_eq!(records[0].item, "life orb");
}

#[test]
fn unrecognized_key_lines_are_ignored() {
    let records =
        parse_pokepaste("Miraidon\nShiny: Yes\nLevel: 50\nHappiness: 255".to_string()).unwrap();
    assert_eq!(records[0].shiny, "Yes");
    assert_eq!(records[0].level, "50");
}

#[test]
fn crlf_input_splits_blocks_on_doubled_crlf() {
    let paste = "Miraidon\r\n- Protect\r\n\r\nLunala\r\n- Moonblast";
    let records = parse_pokepaste(paste.to_string()).unwrap();
    assert_eq!(records.len(), 2);
    assert_eq!(records[0].name, "miraidon");
    assert_eq!(records[1].name, "lunala");
}

#[test]
fn bare_name_has_exact_hex_rendering() {
    let dex = sample_dex();
    let hex = pokepaste_to_hex(&dex, "Bulbasaur".to_string()).unwrap();
    assert_eq!(hex, "0010000000000000000000003FFFFFFF0000000000");
}

#[test]
fn payload_of_partial_record_is_rejected() {
    let dex = sample_dex();
    let err = bytes_to_pokepaste(&dex.tables, vec![0u8; 20]).unwrap_err();
    assert_eq!(err, ConvertError::InvalidLength);
}

#[test]
fn out_of_range_code_is_rejected() {
    let dex = sample_dex();
    let mut bytes = vec![0u8; 21];
    bytes[0] = 0xFA;
    bytes[1] = 0x10;
    let err = bytes_to_pokepaste(&dex.tables, bytes).unwrap_err();
    assert_eq!(err, ConvertError::CodeOutOfRange);
}

#[test]
fn invalid_hex_is_rejected() {
    let dex = sample_dex();
    assert_eq!(
        hex_to_pokepaste(&dex.tables, "zz".to_string()).unwrap_err(),
        ConvertError::HexDecode,
    );
    assert_eq!(
        hex_to_pokepaste(&dex.tables, "ABC".to_string()).unwrap_err(),
        ConvertError::HexDecode,
    );
}

#[test]
fn invalid_base64_is_rejected() {
    let dex = sample_dex();
    assert_eq!(
        base64_to_pokepaste(&dex.tables, "!!!".to_string()).unwrap_err(),
        ConvertError::Base64Decode,
    );
}

#[test]
fn hex_decode_skips_blank_lines_and_line_whitespace() {
    let dex = sample_dex();
    let paste = "Miraidon\n- Protect\n\nLunala\n- Moonblast";
    let hex = pokepaste_to_hex(&dex, paste.to_string()).unwrap();
    let lines: Vec<&str> = hex.lines().collect();
    let loose = format!("  {}  \n\n   \n{}\n", lines[0], lines[1]);
    let tidy = hex_to_pokepaste(&dex.tables, hex).unwrap();
    let tolerant = hex_to_pokepaste(&dex.tables, loose).unwrap();
    assert_eq!(tidy, tolerant);
}

#[test]
fn decoded_paste_keeps_the_gender_marker() {
    let dex = sample_dex();
    let paste = "Volcarona (M) @ Leftovers\n- Tailwind";
    let bytes = pokepaste_to_bytes(&dex, paste.to_string()).unwrap();
    let decoded = bytes_to_pokepaste(&dex.tables, bytes).unwrap();
    assert!(decoded.starts_with("Volcarona (M) @ Leftovers"));
}

#[test]
fn level_zero_round_trips_as_absent() {
    let dex = sample_dex();
    let paste = "Miraidon\nLevel: 0\n- Protect";
    let bytes = pokepaste_to_bytes(&dex, paste.to_string()).unwrap();
    let decoded = bytes_to_pokepaste(&dex.tables, bytes).unwrap();
    assert!(!decoded.contains("Level"));
}
