//! The vocabulary tables and their case-insensitive inverses.
//!
//! Each category (species names, items, abilities, moves, natures, elemental
//! affinities) is given as one source text with one canonical name per line.
//! The line index is the dense numeric wire code, so the order of the lines
//! is part of the format. A table keeps the lines verbatim; its map keeps the
//! lower-cased lines, and looking a name up yields the index of the last
//! lower-cased line equal to the lower-cased name, or 0 when there is none.
use vstd::prelude::*;

use crate::text;

verus! {

/// The key list of one category: every entry lower-cased.
pub open spec fn fold_table(t: Seq<Seq<char>>) -> Seq<Seq<char>> {
    t.map_values(|s: Seq<char>| text::lower_of(s))
}

/// The index a key list gives to a key: the last position holding the key,
/// or 0 when the key is absent.
pub open spec fn lookup_spec(keys: Seq<Seq<char>>, key: Seq<char>) -> nat
    decreases keys.len(),
{
    if keys.len() == 0 {
        0
    } else if keys.last() == key {
        (keys.len() - 1) as nat
    } else {
        lookup_spec(keys.drop_last(), key)
    }
}

/// The lookup result is a valid index whenever the key list is non-empty.
pub proof fn lemma_lookup_in_range(keys: Seq<Seq<char>>, key: Seq<char>)
    ensures
        keys.len() == 0 ==> lookup_spec(keys, key) == 0,
        keys.len() > 0 ==> lookup_spec(keys, key) < keys.len(),
        !keys.contains(key) ==> lookup_spec(keys, key) == 0,
        keys.contains(key) ==> keys[lookup_spec(keys, key) as int] == key,
    decreases keys.len(),
{
    if keys.len() > 0 {
        lemma_lookup_in_range(keys.drop_last(), key);
        if keys.contains(key) && keys.last() != key {
            let i = choose|i: int| 0 <= i < keys.len() && keys[i] == key;
            assert(keys.drop_last()[i] == key);
            assert(keys.drop_last().contains(key));
        }
        if keys.drop_last().contains(key) {
            let i = choose|i: int| 0 <= i < keys.len() - 1 && keys.drop_last()[i] == key;
            assert(keys[i] == key);
        }
    }
}

/// Distinct positions of an injective key list stay distinct under lookup:
/// looking up entry `i` yields `i`.
pub proof fn lemma_lookup_of_entry(keys: Seq<Seq<char>>, i: int)
    requires
        0 <= i < keys.len(),
        forall|j: int, k: int| 0 <= j < k < keys.len() ==> keys[j] != keys[k],
    ensures
        lookup_spec(keys, keys[i]) == i,
    decreases keys.len(),
{
    if i == keys.len() - 1 {
    } else {
        assert(keys.last() != keys[i]);
        assert(keys.drop_last()[i] == keys[i]);
        lemma_lookup_of_entry(keys.drop_last(), i);
    }
}

/// One vocabulary list per category, lines kept verbatim; the line index is
/// the wire code.
pub struct Tables {
    pub names: Vec<String>,
    pub items: Vec<String>,
    pub abilities: Vec<String>,
    pub moves: Vec<String>,
    pub natures: Vec<String>,
    pub teras: Vec<String>,
}

/// The case-insensitive inverse of one table: entry `i` holds the
/// lower-cased text of table line `i`.
pub struct CategoryMap {
    pub keys: Vec<String>,
}

/// One case-insensitive inverse per category.
pub struct Maps {
    pub names: CategoryMap,
    pub items: CategoryMap,
    pub abilities: CategoryMap,
    pub moves: CategoryMap,
    pub natures: CategoryMap,
    pub teras: CategoryMap,
}

/// The tables and their inverses, built once and then shared read-only.
pub struct Dex {
    pub tables: Tables,
    pub maps: Maps,
}

/// The map mirrors its table: same length, each key the lower-cased table
/// line.
pub open spec fn map_matches_table(map: &CategoryMap, table: &Vec<String>) -> bool {
    map.keys.deep_view() == fold_table(table.deep_view())
}

/// Every map of the dex mirrors its table.
pub open spec fn dex_consistent(d: &Dex) -> bool {
    &&& map_matches_table(&d.maps.names, &d.tables.names)
    &&& map_matches_table(&d.maps.items, &d.tables.items)
    &&& map_matches_table(&d.maps.abilities, &d.tables.abilities)
    &&& map_matches_table(&d.maps.moves, &d.tables.moves)
    &&& map_matches_table(&d.maps.natures, &d.tables.natures)
    &&& map_matches_table(&d.maps.teras, &d.tables.teras)
}

/// One vocabulary source split into its lines, kept verbatim.
pub fn parse_table(file: &str) -> (r: Vec<String>)
    ensures
        r.deep_view() == text::spec_lines(file@),
{
    let chars = text::chars_of(file);
    let lines = text::lines_of(&chars);
    let mut r: Vec<String> = Vec::new();
    let mut i: usize = 0;
    while i < lines.len()
        invariant
            i <= lines@.len(),
            r.deep_view() == lines.deep_view().take(i as int),
        decreases lines@.len() - i,
    {
        let ghost pre = r.deep_view();
        r.push(text::string_of(&lines[i]));
        proof {
            assert(lines.deep_view()[i as int] =~= lines@[i as int]@);
            assert(r.deep_view() =~= pre.push(lines.deep_view()[i as int]));
            assert(lines.deep_view().take(i + 1 as int) =~= lines.deep_view().take(i as int).push(
                lines.deep_view()[i as int],
            ));
        }
        i = i + 1;
    }
    proof {
        assert(lines.deep_view().take(lines.deep_view().len() as int) =~= lines.deep_view());
        assert(lines@.len() == lines.deep_view().len());
    }
    r
}

/// The vocabulary sources, one text per category.
pub fn parse_tables(
    names: &str,
    items: &str,
    abilities: &str,
    moves: &str,
    natures: &str,
    teras: &str,
) -> (r: Tables)
    ensures
        r.names.deep_view() == text::spec_lines(names@),
        r.items.deep_view() == text::spec_lines(items@),
        r.abilities.deep_view() == text::spec_lines(abilities@),
        r.moves.deep_view() == text::spec_lines(moves@),
        r.natures.deep_view() == text::spec_lines(natures@),
        r.teras.deep_view() == text::spec_lines(teras@),
{
    Tables {
        names: parse_table(names),
        items: parse_table(items),
        abilities: parse_table(abilities),
        moves: parse_table(moves),
        natures: parse_table(natures),
        teras: parse_table(teras),
    }
}

/// The case-insensitive inverse of one table.
pub fn build_map(table: &Vec<String>) -> (r: CategoryMap)
    ensures
        map_matches_table(&r, table),
{
    let mut keys: Vec<String> = Vec::new();
    let mut i: usize = 0;
    while i < table.len()
        invariant
            i <= table@.len(),
            keys.deep_view() == fold_table(table.deep_view().take(i as int)),
        decreases table@.len() - i,
    {
        let ghost pre = keys.deep_view();
        keys.push(text::lowercase(table[i].as_str()));
        proof {
            assert(table@[i as int].deep_view() == table.deep_view()[i as int]);
            assert(keys.deep_view() =~= pre.push(text::lower_of(table.deep_view()[i as int])));
            assert(fold_table(table.deep_view().take(i + 1 as int)) =~= fold_table(
                table.deep_view().take(i as int),
            ).push(text::lower_of(table.deep_view()[i as int])));
        }
        i = i + 1;
    }
    proof {
        assert(table.deep_view().take(table.deep_view().len() as int) =~= table.deep_view());
        assert(table@.len() == table.deep_view().len());
    }
    CategoryMap { keys }
}

/// The inverses of all six tables.
pub fn build_maps(tables: &Tables) -> (r: Maps)
    ensures
        map_matches_table(&r.names, &tables.names),
        map_matches_table(&r.items, &tables.items),
        map_matches_table(&r.abilities, &tables.abilities),
        map_matches_table(&r.moves, &tables.moves),
        map_matches_table(&r.natures, &tables.natures),
        map_matches_table(&r.teras, &tables.teras),
{
    Maps {
        names: build_map(&tables.names),
        items: build_map(&tables.items),
        abilities: build_map(&tables.abilities),
        moves: build_map(&tables.moves),
        natures: build_map(&tables.natures),
        teras: build_map(&tables.teras),
    }
}

impl Dex {
    /// The tables of the six vocabulary sources together with their
    /// case-insensitive inverses. The result is a pure function of the
    /// sources; it is built once and then shared read-only.
    pub fn build(
        names: &str,
        items: &str,
        abilities: &str,
        moves: &str,
        natures: &str,
        teras: &str,
    ) -> (r: Dex)
        ensures
            r.tables.names.deep_view() == text::spec_lines(names@),
            r.tables.items.deep_view() == text::spec_lines(items@),
            r.tables.abilities.deep_view() == text::spec_lines(abilities@),
            r.tables.moves.deep_view() == text::spec_lines(moves@),
            r.tables.natures.deep_view() == text::spec_lines(natures@),
            r.tables.teras.deep_view() == text::spec_lines(teras@),
            dex_consistent(&r),
    {
        let tables = parse_tables(names, items, abilities, moves, natures, teras);
        let maps = build_maps(&tables);
        Dex { tables, maps }
    }
}


/// Building is pure: two dexes whose tables came from identical sources
/// give identical lookup results for every key, in every category.
pub proof fn lemma_build_pure(
    d1: &Dex,
    d2: &Dex,
    names: Seq<char>,
    items: Seq<char>,
    abilities: Seq<char>,
    moves: Seq<char>,
    natures: Seq<char>,
    teras: Seq<char>,
)
    requires
        d1.tables.names.deep_view() == text::spec_lines(names),
        d1.tables.items.deep_view() == text::spec_lines(items),
        d1.tables.abilities.deep_view() == text::spec_lines(abilities),
        d1.tables.moves.deep_view() == text::spec_lines(moves),
        d1.tables.natures.deep_view() == text::spec_lines(natures),
        d1.tables.teras.deep_view() == text::spec_lines(teras),
        d2.tables.names.deep_view() == text::spec_lines(names),
        d2.tables.items.deep_view() == text::spec_lines(items),
        d2.tables.abilities.deep_view() == text::spec_lines(abilities),
        d2.tables.moves.deep_view() == text::spec_lines(moves),
        d2.tables.natures.deep_view() == text::spec_lines(natures),
        d2.tables.teras.deep_view() == text::spec_lines(teras),
        dex_consistent(d1),
        dex_consistent(d2),
    ensures
        forall|key: Seq<char>|
            lookup_spec(d1.maps.names.keys.deep_view(), key) == lookup_spec(
                #[trigger] d2.maps.names.keys.deep_view(),
                key,
            ),
        forall|key: Seq<char>|
            lookup_spec(d1.maps.items.keys.deep_view(), key) == lookup_spec(
                #[trigger] d2.maps.items.keys.deep_view(),
                key,
            ),
        forall|key: Seq<char>|
            lookup_spec(d1.maps.abilities.keys.deep_view(), key) == lookup_spec(
                #[trigger] d2.maps.abilities.keys.deep_view(),
                key,
            ),
        forall|key: Seq<char>|
            lookup_spec(d1.maps.moves.keys.deep_view(), key) == lookup_spec(
                #[trigger] d2.maps.moves.keys.deep_view(),
                key,
            ),
        forall|key: Seq<char>|
            lookup_spec(d1.maps.natures.keys.deep_view(), key) == lookup_spec(
                #[trigger] d2.maps.natures.keys.deep_view(),
                key,
            ),
        forall|key: Seq<char>|
            lookup_spec(d1.maps.teras.keys.deep_view(), key) == lookup_spec(
                #[trigger] d2.maps.teras.keys.deep_view(),
                key,
            ),
{
    assert(d1.maps.names.keys.deep_view() == d2.maps.names.keys.deep_view());
    assert(d1.maps.items.keys.deep_view() == d2.maps.items.keys.deep_view());
    assert(d1.maps.abilities.keys.deep_view() == d2.maps.abilities.keys.deep_view());
    assert(d1.maps.moves.keys.deep_view() == d2.maps.moves.keys.deep_view());
    assert(d1.maps.natures.keys.deep_view() == d2.maps.natures.keys.deep_view());
    assert(d1.maps.teras.keys.deep_view() == d2.maps.teras.keys.deep_view());
}

} // verus!

