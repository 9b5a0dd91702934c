//! The codec between text records and binary records.
//!
//! Categorical fields go through the case-insensitive vocabulary maps;
//! unknown text silently encodes to code 0 by design. Stat fields default
//! when missing (0 for effort values, 31 for potential values) and fall
//! back to 0 when the text is not a number.
use vstd::prelude::*;

use crate::binary::{PokemonBin, PokemonBinView, TvBin};
use crate::dex::{lookup_spec, lemma_lookup_in_range, CategoryMap, Maps, Tables};
use crate::parser::{Pokemon, PokemonView, Tv, TvView};
use crate::text;
use crate::text::{dec_str, fold_chars, lower_of, parse_u8_spec, trim_spec};

verus! {

/// The code a map gives to free text: the index of the lower-cased text in
/// the lower-cased key list, or 0 when it is absent.
pub open spec fn element_code(keys: Seq<Seq<char>>, element: Seq<char>) -> nat {
    lookup_spec(keys, lower_of(element))
}

/// The code a map gives to free text. Unknown text yields code 0, never an
/// error: the fallback is deliberate and lossy.
pub fn element_to_binary(map: &CategoryMap, element: &str) -> (r: usize)
    ensures
        r as nat == element_code(map.keys.deep_view(), element@),
        !map.keys.deep_view().contains(lower_of(element@)) ==> r == 0,
        r as nat <= map.keys.deep_view().len(),
{
    let folded = text::lowercase(element);
    let ghost keys = map.keys.deep_view();
    let ghost key = lower_of(element@);
    let mut j: usize = map.keys.len();
    proof {
        assert(keys.len() == map.keys@.len());
        assert(keys.take(j as int) =~= keys);
        lemma_lookup_in_range(keys, key);
    }
    while j > 0
        invariant
            j <= map.keys@.len(),
            keys == map.keys.deep_view(),
            key == lower_of(element@),
            keys.len() == map.keys@.len(),
            folded@ == key,
            lookup_spec(keys, key) == lookup_spec(keys.take(j as int), key),
        decreases j,
    {
        if map.keys[j - 1] == folded {
            proof {
                assert(keys[j - 1] == map.keys@[j - 1]@);
                assert(keys.take(j as int).last() == keys[j - 1]);
                assert(lookup_spec(keys.take(j as int), key) == j - 1);
            }
            return j - 1;
        }
        proof {
            assert(keys[j - 1] == map.keys@[j - 1]@);
            assert(keys.take(j as int).last() != key);
            assert(keys.take(j as int).drop_last() =~= keys.take(j - 1));
        }
        j = j - 1;
    }
    proof {
        assert(keys.take(0) =~= Seq::<Seq<char>>::empty());
    }
    0
}

/// The canonical display text behind a code. The caller answers for the
/// bound: an out-of-range code is a data mismatch, checked before decoding.
pub fn binary_to_element(table: &Vec<String>, index: usize) -> (r: String)
    requires
        index < table@.len(),
    ensures
        r@ == table.deep_view()[index as int],
{
    let r = table[index].clone();
    proof {
        assert(table.deep_view()[index as int] == table@[index as int]@);
    }
    r
}

/// The wire code of a gender marker: m is 0, f is 1, anything else
/// (including absence) is 2.
pub open spec fn gender_code_spec(g: Seq<char>) -> u8 {
    if fold_chars(g) == "m"@ {
        0u8
    } else if fold_chars(g) == "f"@ {
        1u8
    } else {
        2u8
    }
}

pub fn gender_to_binary(gender: &str) -> (r: u8)
    ensures
        r == gender_code_spec(gender@),
{
    let chars = text::chars_of(gender);
    let folded = text::to_lower(&chars);
    if text::chars_eq_str(&folded, "m") {
        0
    } else if text::chars_eq_str(&folded, "f") {
        1
    } else {
        2
    }
}

/// The gender text behind a wire code: only 0 and 1 decode to letters; 2
/// decodes to empty text, so the wire format cannot tell "unspecified" from
/// "omitted".
pub open spec fn gender_text_spec(g: u8) -> Seq<char> {
    if g == 0 {
        "m"@
    } else if g == 1 {
        "f"@
    } else {
        Seq::<char>::empty()
    }
}

pub fn binary_to_gender(gender: u8) -> (r: String)
    ensures
        r@ == gender_text_spec(gender),
{
    if gender == 0 {
        String::from_str("m")
    } else if gender == 1 {
        String::from_str("f")
    } else {
        String::new()
    }
}

/// The byte a stat or level text denotes: empty text defaults (31 for a
/// potential value, else 0); text that is not a number within 0..=255
/// falls back to 0 after trimming.
pub open spec fn small_to_u8_spec(s: Seq<char>, ifiv: bool) -> u8 {
    if s.len() == 0 {
        if ifiv {
            31u8
        } else {
            0u8
        }
    } else {
        match parse_u8_spec(trim_spec(s)) {
            Some(v) => v,
            None => 0u8,
        }
    }
}

pub fn small_to_u8(s: &str, ifiv: bool) -> (r: u8)
    ensures
        r == small_to_u8_spec(s@, ifiv),
{
    if s.is_empty() {
        if ifiv {
            31
        } else {
            0
        }
    } else {
        let chars = text::chars_of(s);
        let trimmed = text::trim_chars(&chars);
        match text::parse_u8(&trimmed) {
            Some(v) => v,
            None => 0,
        }
    }
}

/// A stat block rendered back to text: each wire byte in decimal.
pub open spec fn decode_tvs_spec(t: TvBin, ifiv: bool) -> TvView {
    TvView {
        ifiv,
        hp: dec_str(t.hp as nat),
        atk: dec_str(t.atk as nat),
        def: dec_str(t.def as nat),
        spa: dec_str(t.spa as nat),
        spd: dec_str(t.spd as nat),
        spe: dec_str(t.spe as nat),
    }
}

pub fn decode_tvs(tvs: &TvBin, ifiv: bool) -> (r: Tv)
    ensures
        r@ == decode_tvs_spec(*tvs, ifiv),
{
    Tv {
        ifiv,
        hp: text::string_of(&text::u8_to_chars(tvs.hp)),
        atk: text::string_of(&text::u8_to_chars(tvs.atk)),
        def: text::string_of(&text::u8_to_chars(tvs.def)),
        spa: text::string_of(&text::u8_to_chars(tvs.spa)),
        spd: text::string_of(&text::u8_to_chars(tvs.spd)),
        spe: text::string_of(&text::u8_to_chars(tvs.spe)),
    }
}

/// A stat block encoded to wire bytes, with the defaulting rule of the
/// given orientation.
pub open spec fn encode_tvs_spec(t: TvView, ifiv: bool) -> TvBin {
    TvBin {
        hp: small_to_u8_spec(t.hp, ifiv),
        atk: small_to_u8_spec(t.atk, ifiv),
        def: small_to_u8_spec(t.def, ifiv),
        spa: small_to_u8_spec(t.spa, ifiv),
        spd: small_to_u8_spec(t.spd, ifiv),
        spe: small_to_u8_spec(t.spe, ifiv),
    }
}

pub fn encode_tvs(tvs: &Tv, ifiv: bool) -> (r: TvBin)
    ensures
        r == encode_tvs_spec(tvs@, ifiv),
{
    TvBin {
        hp: small_to_u8(tvs.hp.as_str(), ifiv),
        atk: small_to_u8(tvs.atk.as_str(), ifiv),
        def: small_to_u8(tvs.def.as_str(), ifiv),
        spa: small_to_u8(tvs.spa.as_str(), ifiv),
        spd: small_to_u8(tvs.spd.as_str(), ifiv),
        spe: small_to_u8(tvs.spe.as_str(), ifiv),
    }
}

/// Every category map small enough for its codes to fit their integer
/// widths: dense codes are the point of the wire format.
pub open spec fn maps_sizes_ok(maps: Maps) -> bool {
    &&& maps.names.keys.deep_view().len() <= 0x10000
    &&& maps.items.keys.deep_view().len() <= 0x10000
    &&& maps.abilities.keys.deep_view().len() <= 0x10000
    &&& maps.moves.keys.deep_view().len() <= 0x10000
    &&& maps.natures.keys.deep_view().len() <= 0x100
    &&& maps.teras.keys.deep_view().len() <= 0x100
}


/// Whether the maps are small enough for their codes to fit the wire
/// integer widths; callers test this once after building a dex.
pub fn maps_within_limits(maps: &Maps) -> (r: bool)
    ensures
        r == maps_sizes_ok(*maps),
{
    maps.names.keys.len() <= 0x10000 && maps.items.keys.len() <= 0x10000
        && maps.abilities.keys.len() <= 0x10000 && maps.moves.keys.len() <= 0x10000
        && maps.natures.keys.len() <= 0x100 && maps.teras.keys.len() <= 0x100
}

/// The move codes of a move list.
pub open spec fn encode_moves_spec(keys: Seq<Seq<char>>, moves: Seq<Seq<char>>) -> Seq<u16> {
    moves.map_values(|m: Seq<char>| (element_code(keys, m) as u16))
}

pub fn encode_moves(moves_map: &CategoryMap, moves: &Vec<String>) -> (r: Vec<u16>)
    requires
        moves_map.keys.deep_view().len() <= 0x10000,
    ensures
        r@ == encode_moves_spec(moves_map.keys.deep_view(), moves.deep_view()),
{
    let ghost keys = moves_map.keys.deep_view();
    let mut r: Vec<u16> = Vec::new();
    let mut i: usize = 0;
    proof {
        assert(moves.deep_view().len() == moves@.len());
    }
    while i < moves.len()
        invariant
            i <= moves@.len(),
            keys == moves_map.keys.deep_view(),
            keys.len() <= 0x10000,
            moves.deep_view().len() == moves@.len(),
            r@ == encode_moves_spec(keys, moves.deep_view().take(i as int)),
        decreases moves.len() - i,
    {
        let code = element_to_binary(moves_map, moves[i].as_str());
        proof {
            assert(moves.deep_view()[i as int] == moves@[i as int]@);
            assert(encode_moves_spec(keys, moves.deep_view().take(i + 1 as int)) =~= encode_moves_spec(
                keys,
                moves.deep_view().take(i as int),
            ).push((element_code(keys, moves.deep_view()[i as int]) as u16)));
        }
        r.push(code as u16);
        i = i + 1;
    }
    proof {
        assert(moves.deep_view().take(moves.deep_view().len() as int) =~= moves.deep_view());
    }
    r
}

/// The display texts of a move code list.
pub open spec fn decode_moves_spec(table: Seq<Seq<char>>, moves: Seq<u16>) -> Seq<Seq<char>> {
    moves.map_values(|m: u16| table[m as int])
}

pub fn decode_moves(table: &Vec<String>, moves_bin: &Vec<u16>) -> (r: Vec<String>)
    requires
        forall|i: int| 0 <= i < moves_bin@.len() ==> moves_bin@[i] < table@.len(),
    ensures
        r.deep_view() == decode_moves_spec(table.deep_view(), moves_bin@),
{
    let mut r: Vec<String> = Vec::new();
    let mut i: usize = 0;
    proof {
        assert(table.deep_view().len() == table@.len());
    }
    while i < moves_bin.len()
        invariant
            i <= moves_bin@.len(),
            table.deep_view().len() == table@.len(),
            forall|j: int| 0 <= j < moves_bin@.len() ==> moves_bin@[j] < table@.len(),
            r.deep_view() == decode_moves_spec(table.deep_view(), moves_bin@.take(i as int)),
        decreases moves_bin.len() - i,
    {
        let ghost pre = r.deep_view();
        let m = moves_bin[i];
        r.push(binary_to_element(table, m as usize));
        proof {
            assert(r.deep_view() =~= pre.push(table.deep_view()[moves_bin@[i as int] as int]));
            assert(decode_moves_spec(table.deep_view(), moves_bin@.take(i + 1 as int))
                =~= decode_moves_spec(table.deep_view(), moves_bin@.take(i as int)).push(
                table.deep_view()[moves_bin@[i as int] as int],
            ));
        }
        i = i + 1;
    }
    proof {
        assert(moves_bin@.take(moves_bin@.len() as int) =~= moves_bin@);
    }
    r
}

/// Every code of the record indexes inside its table.
pub open spec fn bin_codes_in_range(tables: Tables, v: PokemonBinView) -> bool {
    &&& (v.name as int) < tables.names@.len()
    &&& (v.item as int) < tables.items@.len()
    &&& (v.ability as int) < tables.abilities@.len()
    &&& (v.tera as int) < tables.teras@.len()
    &&& (v.nature as int) < tables.natures@.len()
    &&& forall|i: int| 0 <= i < v.moves.len() ==> (v.moves[i] as int) < tables.moves@.len()
}

/// A binary record rendered back to a text record through the tables.
pub open spec fn decode_spec(tables: Tables, v: PokemonBinView) -> PokemonView {
    PokemonView {
        name: tables.names.deep_view()[v.name as int],
        gender: gender_text_spec(v.gender),
        item: tables.items.deep_view()[v.item as int],
        ability: tables.abilities.deep_view()[v.ability as int],
        level: if v.level == 0 {
            Seq::<char>::empty()
        } else {
            dec_str(v.level as nat)
        },
        shiny: if v.shiny {
            "Yes"@
        } else {
            Seq::<char>::empty()
        },
        tera: tables.teras.deep_view()[v.tera as int],
        evs: decode_tvs_spec(v.evs, false),
        nature: tables.natures.deep_view()[v.nature as int],
        ivs: decode_tvs_spec(v.ivs, true),
        moves: decode_moves_spec(tables.moves.deep_view(), v.moves),
    }
}

/// A binary record rendered back to a text record: names take the table
/// case, level 0 and gender 2 decode to empty text, a set shiny flag
/// decodes to "Yes".
pub fn pokebin_to_string(tables: &Tables, pbin: &PokemonBin) -> (r: Pokemon)
    requires
        bin_codes_in_range(*tables, pbin@),
    ensures
        r@ == decode_spec(*tables, pbin@),
{
    proof {
        assert(pbin@.moves == pbin.moves@);
        assert(forall|i: int|
            0 <= i < pbin.moves@.len() ==> (pbin.moves@[i] as int) < tables.moves@.len());
    }
    Pokemon {
        name: binary_to_element(&tables.names, pbin.name as usize),
        gender: binary_to_gender(pbin.gender),
        item: binary_to_element(&tables.items, pbin.item as usize),
        ability: binary_to_element(&tables.abilities, pbin.ability as usize),
        level: if pbin.level == 0 {
            String::new()
        } else {
            text::string_of(&text::u8_to_chars(pbin.level))
        },
        shiny: if pbin.shiny {
            String::from_str("Yes")
        } else {
            String::new()
        },
        tera: binary_to_element(&tables.teras, pbin.tera as usize),
        evs: decode_tvs(&pbin.evs, false),
        nature: binary_to_element(&tables.natures, pbin.nature as usize),
        ivs: decode_tvs(&pbin.ivs, true),
        moves: decode_moves(&tables.moves, &pbin.moves),
    }
}

/// A text record encoded to its binary record through the maps.
pub open spec fn encode_spec(maps: Maps, p: PokemonView) -> PokemonBinView {
    PokemonBinView {
        name: (element_code(maps.names.keys.deep_view(), p.name) as u16),
        gender: gender_code_spec(p.gender),
        item: (element_code(maps.items.keys.deep_view(), p.item) as u16),
        ability: (element_code(maps.abilities.keys.deep_view(), p.ability) as u16),
        level: small_to_u8_spec(p.level, false),
        shiny: fold_chars(p.shiny) == "yes"@,
        tera: (element_code(maps.teras.keys.deep_view(), p.tera) as u8),
        evs: encode_tvs_spec(p.evs, false),
        nature: (element_code(maps.natures.keys.deep_view(), p.nature) as u8),
        ivs: encode_tvs_spec(p.ivs, true),
        moves: encode_moves_spec(maps.moves.keys.deep_view(), p.moves),
    }
}

/// A text record encoded to its binary record: categorical fields by
/// case-insensitive lookup with fallback 0, stat fields by the defaulting
/// rules, shininess true exactly for the text "yes" in any case.
pub fn encoded_pokemon(maps: &Maps, pokemon: &Pokemon) -> (r: PokemonBin)
    requires
        maps_sizes_ok(*maps),
    ensures
        r@ == encode_spec(*maps, pokemon@),
{
    proof {
        lemma_lookup_in_range(maps.names.keys.deep_view(), fold_chars(pokemon.name@));
        lemma_lookup_in_range(maps.items.keys.deep_view(), fold_chars(pokemon.item@));
        lemma_lookup_in_range(maps.abilities.keys.deep_view(), fold_chars(pokemon.ability@));
        lemma_lookup_in_range(maps.teras.keys.deep_view(), fold_chars(pokemon.tera@));
        lemma_lookup_in_range(maps.natures.keys.deep_view(), fold_chars(pokemon.nature@));
    }
    let shiny_chars = text::chars_of(pokemon.shiny.as_str());
    let shiny_folded = text::to_lower(&shiny_chars);
    PokemonBin {
        name: element_to_binary(&maps.names, pokemon.name.as_str()) as u16,
        gender: gender_to_binary(pokemon.gender.as_str()),
        item: element_to_binary(&maps.items, pokemon.item.as_str()) as u16,
        ability: element_to_binary(&maps.abilities, pokemon.ability.as_str()) as u16,
        level: small_to_u8(pokemon.level.as_str(), false),
        shiny: text::chars_eq_str(&shiny_folded, "yes"),
        tera: element_to_binary(&maps.teras, pokemon.tera.as_str()) as u8,
        evs: encode_tvs(&pokemon.evs, false),
        nature: element_to_binary(&maps.natures, pokemon.nature.as_str()) as u8,
        ivs: encode_tvs(&pokemon.ivs, true),
        moves: encode_moves(&maps.moves, &pokemon.moves),
    }
}

/// Every record of a roster encoded in order.
pub fn encode_all_pokemon(maps: &Maps, pokemons: Vec<Pokemon>) -> (r: Vec<PokemonBin>)
    requires
        maps_sizes_ok(*maps),
    ensures
        r@.len() == pokemons@.len(),
        forall|i: int| 0 <= i < r@.len() ==> r@[i]@ == encode_spec(*maps, pokemons@[i]@),
{
    let mut r: Vec<PokemonBin> = Vec::new();
    let mut i: usize = 0;
    while i < pokemons.len()
        invariant
            i <= pokemons@.len(),
            maps_sizes_ok(*maps),
            r@.len() == i,
            forall|j: int| 0 <= j < i ==> r@[j]@ == encode_spec(*maps, pokemons@[j]@),
        decreases pokemons.len() - i,
    {
        r.push(encoded_pokemon(maps, &pokemons[i]));
        i = i + 1;
    }
    r
}


// ---------------------------------------------------------------------------
// laws of the codec
// ---------------------------------------------------------------------------
/// No two table lines collide after lower-casing. The source vocabularies
/// are controlled, so this holds of the shipped tables; where it fails,
/// colliding lines collapse to the last index by design.
pub open spec fn table_folded_injective(table: Seq<Seq<char>>) -> bool {
    forall|j: int, k: int|
        0 <= j < k < table.len() ==> lower_of(#[trigger] table[j]) != lower_of(
            #[trigger] table[k],
        )
}

/// Looking up any casing of table line `i` yields `i`, when the lower-cased
/// lines are distinct.
pub proof fn lemma_lookup_entry_any_case(
    table: Seq<Seq<char>>,
    keys: Seq<Seq<char>>,
    element: Seq<char>,
    i: int,
)
    requires
        keys == crate::dex::fold_table(table),
        table_folded_injective(table),
        0 <= i < table.len(),
        lower_of(element) == lower_of(table[i]),
    ensures
        element_code(keys, element) == i,
{
    assert(forall|j: int| 0 <= j < keys.len() ==> keys[j] == lower_of(#[trigger] table[j]));
    assert(lower_of(element) == keys[i]);
    assert(forall|j: int, k: int| 0 <= j < k < keys.len() ==> keys[j] != keys[k]);
    crate::dex::lemma_lookup_of_entry(keys, i);
}

/// Case-insensitivity: two texts with the same lower-cased form encode to
/// the same code, whatever the map.
pub proof fn lemma_encode_case_insensitive(keys: Seq<Seq<char>>, a: Seq<char>, b: Seq<char>)
    requires
        lower_of(a) == lower_of(b),
    ensures
        element_code(keys, a) == element_code(keys, b),
{
}

/// Gender asymmetry: every text other than a casing of "m" or "f" encodes
/// to code 2, and code 2 decodes to empty text, so all such texts collapse.
pub proof fn lemma_gender_asymmetry(g1: Seq<char>, g2: Seq<char>)
    requires
        fold_chars(g1) != "m"@ && fold_chars(g1) != "f"@,
        fold_chars(g2) != "m"@ && fold_chars(g2) != "f"@,
    ensures
        gender_code_spec(g1) == 2,
        gender_code_spec(g1) == gender_code_spec(g2),
        gender_text_spec(gender_code_spec(g1)) == Seq::<char>::empty(),
{
}

/// Stat defaulting: a missing potential value reads as 31, a missing effort
/// value as 0.
pub proof fn lemma_stat_defaulting()
    ensures
        small_to_u8_spec(Seq::<char>::empty(), true) == 31,
        small_to_u8_spec(Seq::<char>::empty(), false) == 0,
{
}

/// Text with no blank characters is its own trimming.
proof fn lemma_trim_no_space(s: Seq<char>)
    requires
        forall|i: int| 0 <= i < s.len() ==> !crate::text::is_space_char(#[trigger] s[i]),
    ensures
        trim_spec(s) == s,
{
    if s.len() > 0 {
        assert(!crate::text::is_space_char(s[0]));
        assert(!crate::text::is_space_char(s.last()));
    }
}

/// A rendered byte reads back as itself, under either defaulting rule.
pub proof fn lemma_small_round_trip(b: u8, ifiv: bool)
    ensures
        small_to_u8_spec(dec_str(b as nat), ifiv) == b,
{
    crate::text::lemma_dec_str_val(b as nat);
    let s = dec_str(b as nat);
    assert forall|i: int| 0 <= i < s.len() implies !crate::text::is_space_char(
        #[trigger] s[i],
    ) by {
        assert(crate::text::is_digit_char(s[i]));
    }
    lemma_trim_no_space(s);
    assert(s[0] != '+');
}

/// A rendered stat block reads back as itself.
proof fn lemma_tvs_round_trip(t: TvBin, ifiv: bool)
    ensures
        encode_tvs_spec(decode_tvs_spec(t, ifiv), ifiv) == t,
{
    lemma_small_round_trip(t.hp, ifiv);
    lemma_small_round_trip(t.atk, ifiv);
    lemma_small_round_trip(t.def, ifiv);
    lemma_small_round_trip(t.spa, ifiv);
    lemma_small_round_trip(t.spd, ifiv);
    lemma_small_round_trip(t.spe, ifiv);
}

/// Decoding then encoding is the identity on valid binary records: every
/// code inside its table, the lower-cased tables collision-free, gender
/// within 0..=2, and the maps built from the tables. Without the
/// collision-free assumption see the round-trip law below, which needs
/// none.
#[verifier::rlimit(100)]
#[verifier::spinoff_prover]
pub proof fn lemma_decode_encode_identity(tables: Tables, maps: Maps, v: PokemonBinView)
    requires
        crate::dex::map_matches_table(&maps.names, &tables.names),
        crate::dex::map_matches_table(&maps.items, &tables.items),
        crate::dex::map_matches_table(&maps.abilities, &tables.abilities),
        crate::dex::map_matches_table(&maps.moves, &tables.moves),
        crate::dex::map_matches_table(&maps.natures, &tables.natures),
        crate::dex::map_matches_table(&maps.teras, &tables.teras),
        table_folded_injective(tables.names.deep_view()),
        table_folded_injective(tables.items.deep_view()),
        table_folded_injective(tables.abilities.deep_view()),
        table_folded_injective(tables.moves.deep_view()),
        table_folded_injective(tables.natures.deep_view()),
        table_folded_injective(tables.teras.deep_view()),
        maps_sizes_ok(maps),
        bin_codes_in_range(tables, v),
        v.gender <= 2,
    ensures
        encode_spec(maps, decode_spec(tables, v)) == v,
{
    let d = decode_spec(tables, v);
    let e = encode_spec(maps, d);
    // categorical fields: looking the decoded display text up gives the
    // code back
    lemma_lookup_entry_any_case(
        tables.names.deep_view(),
        maps.names.keys.deep_view(),
        d.name,
        v.name as int,
    );
    assert(maps.names.keys.deep_view().len() == tables.names.deep_view().len());
    assert(e.name == v.name);
    lemma_lookup_entry_any_case(
        tables.items.deep_view(),
        maps.items.keys.deep_view(),
        d.item,
        v.item as int,
    );
    assert(e.item == v.item);
    lemma_lookup_entry_any_case(
        tables.abilities.deep_view(),
        maps.abilities.keys.deep_view(),
        d.ability,
        v.ability as int,
    );
    assert(e.ability == v.ability);
    lemma_lookup_entry_any_case(
        tables.teras.deep_view(),
        maps.teras.keys.deep_view(),
        d.tera,
        v.tera as int,
    );
    assert(e.tera == v.tera);
    lemma_lookup_entry_any_case(
        tables.natures.deep_view(),
        maps.natures.keys.deep_view(),
        d.nature,
        v.nature as int,
    );
    assert(e.nature == v.nature);
    lemma_decode_encode_scalars(tables, maps, v);
    assert(e.gender == v.gender && e.level == v.level && e.shiny == v.shiny);
    lemma_tvs_round_trip(v.evs, false);
    lemma_tvs_round_trip(v.ivs, true);
    assert(e.evs == v.evs);
    assert(e.ivs == v.ivs);
    // moves: each code decodes to its table line, which encodes back
    assert forall|i: int| 0 <= i < v.moves.len() implies e.moves[i] == v.moves[i] by {
        assert(d.moves[i] == tables.moves.deep_view()[v.moves[i] as int]);
        lemma_lookup_entry_any_case(
            tables.moves.deep_view(),
            maps.moves.keys.deep_view(),
            d.moves[i],
            v.moves[i] as int,
        );
        assert(maps.moves.keys.deep_view().len() == tables.moves.deep_view().len());
    }
    assert(e.moves =~= v.moves);
    assert(e == v);
}

/// The gender, level and shininess of a decoded record encode back to the
/// wire values they came from.
proof fn lemma_decode_encode_scalars(tables: Tables, maps: Maps, v: PokemonBinView)
    requires
        v.gender <= 2,
    ensures
        gender_code_spec(gender_text_spec(v.gender)) == v.gender,
        small_to_u8_spec(
            if v.level == 0 {
                Seq::<char>::empty()
            } else {
                dec_str(v.level as nat)
            },
            false,
        ) == v.level,
        (fold_chars(
            if v.shiny {
                "Yes"@
            } else {
                Seq::<char>::empty()
            },
        ) == "yes"@) == v.shiny,
{
    // gender: the three codes decode to "m", "f" and "", which encode back
    proof_gender_literals();
    if v.gender == 0 {
        assert(fold_chars("m"@) =~= "m"@);
    } else if v.gender == 1 {
        assert(fold_chars("f"@) =~= "f"@);
    } else {
        assert(fold_chars(Seq::<char>::empty()) =~= Seq::<char>::empty());
    }
    // level: 0 decodes to empty text which encodes to 0; anything else
    // round-trips through its decimal rendering
    if v.level != 0 {
        lemma_small_round_trip(v.level, false);
    }
    // shininess: "Yes" folds to "yes"; empty text does not
    proof_shiny_literals();
    if v.shiny {
        assert(fold_chars("Yes"@) =~= "yes"@);
    } else {
        assert(fold_chars(Seq::<char>::empty()) =~= Seq::<char>::empty());
    }
}

proof fn proof_gender_literals()
    ensures
        "m"@.len() == 1 && "m"@[0] == 'm',
        "f"@.len() == 1 && "f"@[0] == 'f',
{
    reveal_strlit("m");
    reveal_strlit("f");
}

proof fn proof_shiny_literals()
    ensures
        "Yes"@.len() == 3 && "Yes"@[0] == 'Y' && "Yes"@[1] == 'e' && "Yes"@[2] == 's',
        "yes"@.len() == 3 && "yes"@[0] == 'y' && "yes"@[1] == 'e' && "yes"@[2] == 's',
{
    reveal_strlit("Yes");
    reveal_strlit("yes");
}

/// A text record whose categorical fields resolve to table entries
/// encodes, decodes and encodes again to the same binary record: nothing
/// the wire format keeps is lost by one decode step. Colliding lower-cased
/// table lines are fine: a lookup result is always the last occurrence, and
/// stays so when its display text is looked up again.
#[verifier::rlimit(100)]
#[verifier::spinoff_prover]
pub proof fn lemma_codec_round_trip(tables: Tables, maps: Maps, x: PokemonView)
    requires
        crate::dex::map_matches_table(&maps.names, &tables.names),
        crate::dex::map_matches_table(&maps.items, &tables.items),
        crate::dex::map_matches_table(&maps.abilities, &tables.abilities),
        crate::dex::map_matches_table(&maps.moves, &tables.moves),
        crate::dex::map_matches_table(&maps.natures, &tables.natures),
        crate::dex::map_matches_table(&maps.teras, &tables.teras),
        maps_sizes_ok(maps),
        maps.names.keys.deep_view().contains(lower_of(x.name)),
        maps.items.keys.deep_view().contains(lower_of(x.item)),
        maps.abilities.keys.deep_view().contains(lower_of(x.ability)),
        maps.natures.keys.deep_view().contains(lower_of(x.nature)),
        maps.teras.keys.deep_view().contains(lower_of(x.tera)),
        forall|i: int|
            0 <= i < x.moves.len() ==> maps.moves.keys.deep_view().contains(
                lower_of(#[trigger] x.moves[i]),
            ),
    ensures
        encode_spec(maps, decode_spec(tables, encode_spec(maps, x))) == encode_spec(maps, x),
{
    let v = encode_spec(maps, x);
    lemma_resolved_code_stable(tables.names.deep_view(), maps.names.keys.deep_view(), x.name);
    lemma_resolved_code_stable(tables.items.deep_view(), maps.items.keys.deep_view(), x.item);
    lemma_resolved_code_stable(
        tables.abilities.deep_view(),
        maps.abilities.keys.deep_view(),
        x.ability,
    );
    lemma_resolved_code_stable(
        tables.natures.deep_view(),
        maps.natures.keys.deep_view(),
        x.nature,
    );
    lemma_resolved_code_stable(tables.teras.deep_view(), maps.teras.keys.deep_view(), x.tera);
    let d = decode_spec(tables, v);
    let e = encode_spec(maps, d);
    assert(e.name == v.name && e.item == v.item && e.ability == v.ability && e.nature == v.nature
        && e.tera == v.tera);
    lemma_decode_encode_scalars(tables, maps, v);
    assert(e.gender == v.gender && e.level == v.level && e.shiny == v.shiny);
    lemma_tvs_round_trip(v.evs, false);
    lemma_tvs_round_trip(v.ivs, true);
    assert(e.evs == v.evs && e.ivs == v.ivs);
    assert forall|i: int| 0 <= i < v.moves.len() implies e.moves[i] == v.moves[i] by {
        lemma_resolved_code_stable(
            tables.moves.deep_view(),
            maps.moves.keys.deep_view(),
            x.moves[i],
        );
        assert(v.moves[i] as nat == element_code(maps.moves.keys.deep_view(), x.moves[i]));
        assert(d.moves[i] == tables.moves.deep_view()[v.moves[i] as int]);
    }
    assert(e.moves =~= v.moves);
    assert(e == v);
}

/// A code obtained by looking a present name up is stable: the display text
/// at that code looks up to the same code, duplicates or not, because the
/// lookup always yields the last occurrence of the key.
proof fn lemma_resolved_code_stable(table: Seq<Seq<char>>, keys: Seq<Seq<char>>, element: Seq<char>)
    requires
        keys == crate::dex::fold_table(table),
        keys.contains(lower_of(element)),
    ensures
        0 < keys.len(),
        element_code(keys, element) < keys.len(),
        element_code(keys, table[element_code(keys, element) as int]) == element_code(
            keys,
            element,
        ),
{
    let k = lower_of(element);
    crate::dex::lemma_lookup_in_range(keys, k);
    let i = crate::dex::lookup_spec(keys, k);
    assert(keys[i as int] == k);
    assert(forall|j: int| 0 <= j < keys.len() ==> keys[j] == lower_of(#[trigger] table[j]));
    assert(lower_of(table[i as int]) == k);
}

} // verus!

