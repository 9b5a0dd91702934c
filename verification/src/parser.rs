//! The text-oriented record and the tolerant paste parser.
//!
//! A paste is a sequence of blocks separated by a blank line. Each block has
//! a header naming the creature (with an optional parenthesized gender
//! marker, an optional nickname wrapper and an optional held item after
//! `@`), followed by `Key: Value` lines, one nature line, and up to four
//! move lines. Unrecognized keys are ignored; several fields degrade
//! silently by design.
use vstd::prelude::*;

use crate::error::{ParseError, ParseErrorView};
use crate::text;
use crate::text::{fold_chars, lower_of, spec_lines, split_on_spec, trim_spec, upper_chars};

verus! {

/// Six stat values as text, plus the orientation flag: potential values
/// ("IVs", missing means 31) against effort values ("EVs", missing means 0).
#[derive(Debug, Clone)]
pub struct Tv {
    pub ifiv: bool,
    pub hp: String,
    pub atk: String,
    pub def: String,
    pub spa: String,
    pub spd: String,
    pub spe: String,
}

/// The mathematical shape of a stat block.
pub ghost struct TvView {
    pub ifiv: bool,
    pub hp: Seq<char>,
    pub atk: Seq<char>,
    pub def: Seq<char>,
    pub spa: Seq<char>,
    pub spd: Seq<char>,
    pub spe: Seq<char>,
}

impl View for Tv {
    type V = TvView;

    open spec fn view(&self) -> TvView {
        TvView {
            ifiv: self.ifiv,
            hp: self.hp@,
            atk: self.atk@,
            def: self.def@,
            spa: self.spa@,
            spd: self.spd@,
            spe: self.spe@,
        }
    }
}

impl Tv {
    /// An empty stat block: every value missing.
    pub fn empty(ifiv: bool) -> (r: Tv)
        ensures
            r@ == empty_tv_view(ifiv),
    {
        Tv {
            ifiv,
            hp: String::new(),
            atk: String::new(),
            def: String::new(),
            spa: String::new(),
            spd: String::new(),
            spe: String::new(),
        }
    }
}

/// The stat block with every value missing.
pub open spec fn empty_tv_view(ifiv: bool) -> TvView {
    TvView {
        ifiv,
        hp: Seq::<char>::empty(),
        atk: Seq::<char>::empty(),
        def: Seq::<char>::empty(),
        spa: Seq::<char>::empty(),
        spd: Seq::<char>::empty(),
        spe: Seq::<char>::empty(),
    }
}

impl PartialEq for Tv {
    fn eq(&self, other: &Tv) -> (r: bool) {
        self.ifiv == other.ifiv && self.hp == other.hp && self.atk == other.atk && self.def
            == other.def && self.spa == other.spa && self.spd == other.spd && self.spe == other.spe
    }
}

impl vstd::std_specs::cmp::PartialEqSpecImpl for Tv {
    open spec fn obeys_eq_spec() -> bool {
        true
    }

    open spec fn eq_spec(&self, other: &Tv) -> bool {
        self@ == other@
    }
}

/// One creature entry with every field still free text, as parsed from a
/// paste block.
#[derive(Debug, Clone)]
pub struct Pokemon {
    pub name: String,
    pub gender: String,
    pub item: String,
    pub ability: String,
    pub level: String,
    pub shiny: String,
    pub tera: String,
    pub evs: Tv,
    pub nature: String,
    pub ivs: Tv,
    pub moves: Vec<String>,
}

/// The mathematical shape of a text record.
pub ghost struct PokemonView {
    pub name: Seq<char>,
    pub gender: Seq<char>,
    pub item: Seq<char>,
    pub ability: Seq<char>,
    pub level: Seq<char>,
    pub shiny: Seq<char>,
    pub tera: Seq<char>,
    pub evs: TvView,
    pub nature: Seq<char>,
    pub ivs: TvView,
    pub moves: Seq<Seq<char>>,
}

impl View for Pokemon {
    type V = PokemonView;

    open spec fn view(&self) -> PokemonView {
        PokemonView {
            name: self.name@,
            gender: self.gender@,
            item: self.item@,
            ability: self.ability@,
            level: self.level@,
            shiny: self.shiny@,
            tera: self.tera@,
            evs: self.evs@,
            nature: self.nature@,
            ivs: self.ivs@,
            moves: self.moves.deep_view(),
        }
    }
}

fn eq_string_vecs(a: &Vec<String>, b: &Vec<String>) -> (r: bool)
    ensures
        r == (a.deep_view() == b.deep_view()),
{
    if a.len() != b.len() {
        proof {
            assert(a.deep_view().len() == a@.len());
            assert(b.deep_view().len() == b@.len());
        }
        return false;
    }
    let mut i: usize = 0;
    while i < a.len()
        invariant
            i <= a@.len(),
            a@.len() == b@.len(),
            a.deep_view().len() == a@.len(),
            b.deep_view().len() == b@.len(),
            forall|j: int| 0 <= j < i ==> a.deep_view()[j] == b.deep_view()[j],
        decreases a.len() - i,
    {
        if a[i] != b[i] {
            proof {
                assert(a.deep_view()[i as int] == a@[i as int]@);
                assert(b.deep_view()[i as int] == b@[i as int]@);
            }
            return false;
        }
        proof {
            assert(a.deep_view()[i as int] == a@[i as int]@);
            assert(b.deep_view()[i as int] == b@[i as int]@);
        }
        i = i + 1;
    }
    proof {
        assert(a.deep_view() =~= b.deep_view());
    }
    true
}

impl PartialEq for Pokemon {
    fn eq(&self, other: &Pokemon) -> (r: bool) {
        self.name == other.name && self.gender == other.gender && self.item == other.item
            && self.ability == other.ability && self.level == other.level && self.shiny
            == other.shiny && self.tera == other.tera && self.evs == other.evs && self.nature
            == other.nature && self.ivs == other.ivs && eq_string_vecs(&self.moves, &other.moves)
    }
}

impl vstd::std_specs::cmp::PartialEqSpecImpl for Pokemon {
    open spec fn obeys_eq_spec() -> bool {
        true
    }

    open spec fn eq_spec(&self, other: &Pokemon) -> bool {
        self@ == other@
    }
}

/// The record every block starts from: all fields missing.
pub open spec fn empty_pokemon_view() -> PokemonView {
    PokemonView {
        name: Seq::<char>::empty(),
        gender: Seq::<char>::empty(),
        item: Seq::<char>::empty(),
        ability: Seq::<char>::empty(),
        level: Seq::<char>::empty(),
        shiny: Seq::<char>::empty(),
        tera: Seq::<char>::empty(),
        evs: empty_tv_view(false),
        nature: Seq::<char>::empty(),
        ivs: empty_tv_view(true),
        moves: Seq::<Seq<char>>::empty(),
    }
}

fn empty_pokemon() -> (r: Pokemon)
    ensures
        r@ == empty_pokemon_view(),
{
    let r = Pokemon {
        name: String::new(),
        gender: String::new(),
        item: String::new(),
        ability: String::new(),
        level: String::new(),
        shiny: String::new(),
        tera: String::new(),
        evs: Tv::empty(false),
        nature: String::new(),
        ivs: Tv::empty(true),
        moves: Vec::new(),
    };
    proof {
        assert(r.moves.deep_view() =~= Seq::<Seq<char>>::empty());
    }
    r
}


// ---------------------------------------------------------------------------
// header pattern matching: gender marker and nickname wrapper
// ---------------------------------------------------------------------------
/// A gender letter: m or f in either case.
pub open spec fn is_gender_char(c: char) -> bool {
    c == 'm' || c == 'f' || c == 'M' || c == 'F'
}

/// A parenthesized single gender letter starts at position `i`.
pub open spec fn gender_marker_at(s: Seq<char>, i: int) -> bool {
    0 <= i && i + 3 <= s.len() && s[i] == '(' && is_gender_char(s[i + 1]) && s[i + 2] == ')'
}

/// The first position of a gender marker.
pub open spec fn find_gender_spec(s: Seq<char>) -> Option<int>
    decreases s.len(),
{
    if s.len() < 3 {
        None
    } else if s[0] == '(' && is_gender_char(s[1]) && s[2] == ')' {
        Some(0int)
    } else {
        match find_gender_spec(s.drop_first()) {
            Some(j) => Some(j + 1),
            None => None,
        }
    }
}

proof fn lemma_find_gender_at(s: Seq<char>, i: int)
    requires
        gender_marker_at(s, i),
        forall|j: int| 0 <= j < i ==> !gender_marker_at(s, j),
    ensures
        find_gender_spec(s) == Some(i),
    decreases i,
{
    if i == 0 {
    } else {
        let t = s.drop_first();
        assert(gender_marker_at(t, i - 1));
        assert forall|j: int| 0 <= j < i - 1 implies !gender_marker_at(t, j) by {
            if gender_marker_at(t, j) {
                assert(gender_marker_at(s, j + 1));
            }
        }
        lemma_find_gender_at(t, i - 1);
        assert(!gender_marker_at(s, 0));
    }
}

proof fn lemma_find_gender_none(s: Seq<char>)
    requires
        forall|j: int| !gender_marker_at(s, j),
    ensures
        find_gender_spec(s) == None::<int>,
    decreases s.len(),
{
    if s.len() >= 3 {
        assert(!gender_marker_at(s, 0));
        let t = s.drop_first();
        assert forall|j: int| !gender_marker_at(t, j) by {
            if gender_marker_at(t, j) {
                assert(gender_marker_at(s, j + 1));
            }
        }
        lemma_find_gender_none(t);
    }
}

fn gender_char_exec(c: char) -> (r: bool)
    ensures
        r == is_gender_char(c),
{
    c == 'm' || c == 'f' || c == 'M' || c == 'F'
}

/// The first gender marker of a header name, if any.
fn find_gender(v: &Vec<char>) -> (r: Option<usize>)
    ensures
        match r {
            Some(i) => find_gender_spec(v@) == Some(i as int) && gender_marker_at(v@, i as int),
            None => find_gender_spec(v@) == None::<int>,
        },
{
    let n: usize = v.len();
    if n < 3 {
        proof {
            assert(forall|j: int| !gender_marker_at(v@, j));
            lemma_find_gender_none(v@);
        }
        return None;
    }
    let mut i: usize = 0;
    while n - i >= 3
        invariant
            n == v@.len(),
            i <= n,
            forall|j: int| 0 <= j < i ==> !gender_marker_at(v@, j),
        decreases n - i,
    {
        if v[i] == '(' && gender_char_exec(v[i + 1]) && v[i + 2] == ')' {
            proof {
                lemma_find_gender_at(v@, i as int);
            }
            return Some(i);
        }
        i = i + 1;
    }
    proof {
        assert(forall|j: int| !gender_marker_at(v@, j));
        lemma_find_gender_none(v@);
    }
    None
}

/// The text with every gender marker removed, scanning left to right over
/// non-overlapping markers.
pub open spec fn strip_gender_spec(s: Seq<char>) -> Seq<char>
    decreases s.len(),
{
    if s.len() < 3 {
        s
    } else if s[0] == '(' && is_gender_char(s[1]) && s[2] == ')' {
        strip_gender_spec(s.skip(3))
    } else {
        seq![s[0]] + strip_gender_spec(s.drop_first())
    }
}

fn strip_gender(v: &Vec<char>) -> (r: Vec<char>)
    ensures
        r@ == strip_gender_spec(v@),
{
    let n: usize = v.len();
    let mut out: Vec<char> = Vec::new();
    let mut i: usize = 0;
    proof {
        assert(v@.skip(0) =~= v@);
        assert(out@ + strip_gender_spec(v@) =~= strip_gender_spec(v@));
    }
    while n - i >= 3
        invariant
            n == v@.len(),
            i <= n,
            strip_gender_spec(v@) == out@ + strip_gender_spec(v@.skip(i as int)),
        decreases n - i,
    {
        let ghost t = v@.skip(i as int);
        if v[i] == '(' && gender_char_exec(v[i + 1]) && v[i + 2] == ')' {
            proof {
                assert(t.len() >= 3);
                assert(t[0] == '(' && is_gender_char(t[1]) && t[2] == ')');
                assert(t.skip(3) =~= v@.skip(i + 3));
            }
            i = i + 3;
        } else {
            proof {
                assert(t.len() >= 3);
                assert(!(t[0] == '(' && is_gender_char(t[1]) && t[2] == ')'));
                assert(t.drop_first() =~= v@.skip(i + 1));
                assert(out@.push(v@[i as int]) + strip_gender_spec(v@.skip(i + 1)) =~= out@ + (
                seq![t[0]] + strip_gender_spec(t.drop_first())));
            }
            out.push(v[i]);
            i = i + 1;
        }
    }
    proof {
        assert(v@.skip(i as int).len() < 3);
        assert(strip_gender_spec(v@.skip(i as int)) == v@.skip(i as int));
    }
    while i < n
        invariant
            n == v@.len(),
            i <= n,
            n - i < 3,
            strip_gender_spec(v@) == out@ + v@.skip(i as int),
        decreases n - i,
    {
        proof {
            let t = v@.skip(i as int);
            assert(t.len() < 3);
            assert(strip_gender_spec(t) == t);
            assert(out@.push(v@[i as int]) + v@.skip(i + 1) =~= out@ + v@.skip(i as int));
        }
        out.push(v[i]);
        i = i + 1;
    }
    proof {
        assert(v@.skip(n as int) =~= Seq::<char>::empty());
        assert(out@ + Seq::<char>::empty() =~= out@);
    }
    out
}

/// The species name inside a nickname wrapper: the content of the first
/// parenthesized group with at least one character, none of them a closing
/// parenthesis.
pub open spec fn find_nick_spec(s: Seq<char>) -> Option<Seq<char>>
    decreases s.len(),
{
    if s.len() == 0 {
        None
    } else if s[0] == '(' {
        match text::find_char_spec(s.drop_first(), ')') {
            Some(j) => if j >= 1 {
                Some(s.drop_first().take(j))
            } else {
                find_nick_spec(s.drop_first())
            },
            None => None,
        }
    } else {
        find_nick_spec(s.drop_first())
    }
}

fn find_nick(v: &Vec<char>) -> (r: Option<Vec<char>>)
    ensures
        match r {
            Some(c) => find_nick_spec(v@) == Some(c@),
            None => find_nick_spec(v@) == None::<Seq<char>>,
        },
{
    let n: usize = v.len();
    let mut i: usize = 0;
    proof {
        assert(v@.skip(0) =~= v@);
    }
    while i < n
        invariant
            n == v@.len(),
            i <= n,
            find_nick_spec(v@) == find_nick_spec(v@.skip(i as int)),
        decreases n - i,
    {
        let ghost t = v@.skip(i as int);
        if v[i] == '(' {
            let mut j: usize = i + 1;
            while j < n && v[j] != ')'
                invariant
                    n == v@.len(),
                    i + 1 <= j <= n,
                    forall|k: int| i < k < j ==> v@[k] != ')',
                decreases n - j,
            {
                j = j + 1;
            }
            if j >= n {
                proof {
                    let u = t.drop_first();
                    assert(u =~= v@.skip(i + 1));
                    assert(forall|k: int| 0 <= k < u.len() ==> u[k] != ')');
                    text::lemma_find_char_none(u, ')');
                }
                return None;
            } else if j == i + 1 {
                proof {
                    let u = t.drop_first();
                    assert(u =~= v@.skip(i + 1));
                    assert(u[0] == ')');
                    text::lemma_find_char_at(u, ')', 0);
                    assert(u =~= v@.skip(i as int).drop_first());
                    assert(find_nick_spec(t) == find_nick_spec(u));
                    assert(u =~= v@.skip(i + 1));
                }
                i = i + 1;
            } else {
                let content = text::sub_chars(v, i + 1, j);
                proof {
                    let u = t.drop_first();
                    assert(u =~= v@.skip(i + 1));
                    assert(u[j - i - 1] == ')');
                    assert(forall|k: int| 0 <= k < j - i - 1 ==> u[k] != ')');
                    text::lemma_find_char_at(u, ')', j - i - 1);
                    assert(u.take(j - i - 1) =~= v@.subrange(i + 1, j as int));
                }
                return Some(content);
            }
        } else {
            proof {
                assert(t.drop_first() =~= v@.skip(i + 1));
            }
            i = i + 1;
        }
    }
    proof {
        assert(v@.skip(n as int) =~= Seq::<char>::empty());
    }
    None
}


// ---------------------------------------------------------------------------
// the paste grammar, stated
// ---------------------------------------------------------------------------
/// One EV/IV token applied to a stat block: "value abbreviation", split on a
/// single space after trimming; an unrecognized abbreviation is ignored, a
/// token of any other shape is an error.
pub open spec fn apply_tv_token(t: TvView, p: Seq<char>) -> Result<TvView, ParseErrorView> {
    let c = split_on_spec(trim_spec(p), " "@);
    if c.len() != 2 {
        Err(ParseErrorView::MalformedTvString { line: p })
    } else {
        let ab = lower_of(c[1]);
        let val = c[0];
        if ab == "hp"@ {
            Ok(TvView { hp: val, ..t })
        } else if ab == "atk"@ {
            Ok(TvView { atk: val, ..t })
        } else if ab == "def"@ {
            Ok(TvView { def: val, ..t })
        } else if ab == "spa"@ {
            Ok(TvView { spa: val, ..t })
        } else if ab == "spd"@ {
            Ok(TvView { spd: val, ..t })
        } else if ab == "spe"@ {
            Ok(TvView { spe: val, ..t })
        } else {
            Ok(t)
        }
    }
}

pub open spec fn parse_tvs_from(t: TvView, parts: Seq<Seq<char>>) -> Result<
    TvView,
    ParseErrorView,
>
    decreases parts.len(),
{
    if parts.len() == 0 {
        Ok(t)
    } else {
        match apply_tv_token(t, parts[0]) {
            Err(e) => Err(e),
            Ok(t2) => parse_tvs_from(t2, parts.drop_first()),
        }
    }
}

/// An EV/IV value: tokens separated by " / ", each "value abbreviation".
pub open spec fn parse_tvs_spec(text: Seq<char>, ifiv: bool) -> Result<TvView, ParseErrorView> {
    parse_tvs_from(empty_tv_view(ifiv), split_on_spec(text, " / "@))
}

/// One content line applied to the record under construction.
///
/// A line with a ": " separator sets the field its key (case-insensitive)
/// names, and is ignored for an unrecognized key. Otherwise a line holding
/// " nature" yields the nature as the text before it; a line starting with
/// a dash yields a move, a bare dash being an error; anything else is
/// ignored.
pub open spec fn apply_line(p: PokemonView, line: Seq<char>) -> Result<
    PokemonView,
    ParseErrorView,
> {
    let parts = split_on_spec(line, ": "@);
    let key = lower_of(parts[0]);
    if parts.len() >= 2 {
        let value = trim_spec(parts[1]);
        if key == "ability"@ {
            Ok(PokemonView { ability: value, ..p })
        } else if key == "level"@ {
            Ok(PokemonView { level: value, ..p })
        } else if key == "tera type"@ {
            Ok(PokemonView { tera: value, ..p })
        } else if key == "shiny"@ {
            Ok(PokemonView { shiny: value, ..p })
        } else if key == "evs"@ {
            match parse_tvs_spec(value, false) {
                Ok(t) => Ok(PokemonView { evs: t, ..p }),
                Err(e) => Err(e),
            }
        } else if key == "ivs"@ {
            match parse_tvs_spec(value, true) {
                Ok(t) => Ok(PokemonView { ivs: t, ..p }),
                Err(e) => Err(e),
            }
        } else {
            Ok(p)
        }
    } else if text::contains_sub(key, " nature"@) {
        Ok(PokemonView { nature: trim_spec(split_on_spec(key, " nature"@)[0]), ..p })
    } else if parts[0].len() > 0 && parts[0][0] == '-' {
        if parts[0].len() > 1 {
            Ok(PokemonView { moves: p.moves.push(trim_spec(parts[0].skip(1))), ..p })
        } else {
            Err(ParseErrorView::MalformedLine { line: line })
        }
    } else {
        Ok(p)
    }
}

pub open spec fn apply_lines_from(p: PokemonView, lines: Seq<Seq<char>>) -> Result<
    PokemonView,
    ParseErrorView,
>
    decreases lines.len(),
{
    if lines.len() == 0 {
        Ok(p)
    } else {
        match apply_line(p, lines[0]) {
            Err(e) => Err(e),
            Ok(p2) => apply_lines_from(p2, lines.drop_first()),
        }
    }
}

/// The content lines of a block: every line trimmed, empty lines dropped.
pub open spec fn block_content_lines(block: Seq<char>) -> Seq<Seq<char>> {
    content_of(spec_lines(block))
}

/// The header cut once at the first '@': name part and item part, both
/// trimmed; without an '@' the whole header is the name and there is no
/// item.
pub open spec fn header_name_part(header: Seq<char>) -> Seq<char> {
    match text::find_char_spec(header, '@') {
        None => header,
        Some(k) => trim_spec(header.take(k)),
    }
}

pub open spec fn header_item_part(header: Seq<char>) -> Seq<char> {
    match text::find_char_spec(header, '@') {
        None => Seq::<char>::empty(),
        Some(k) => trim_spec(header.skip(k + 1)),
    }
}

/// The gender letter of the first marker in the name part, lower-cased;
/// empty without a marker.
pub open spec fn header_gender(name0: Seq<char>) -> Seq<char> {
    match find_gender_spec(name0) {
        None => Seq::<char>::empty(),
        Some(i) => seq![text::lower_char(name0[i + 1])],
    }
}

/// The name part with its gender markers stripped and trimmed when a marker
/// was found, else unchanged.
pub open spec fn header_after_gender(name0: Seq<char>) -> Seq<char> {
    match find_gender_spec(name0) {
        None => name0,
        Some(i) => trim_spec(strip_gender_spec(name0)),
    }
}

/// The species name: the content of a nickname wrapper when one is present,
/// else the name itself.
pub open spec fn header_species(name1: Seq<char>) -> Seq<char> {
    match find_nick_spec(name1) {
        Some(c) => c,
        None => name1,
    }
}

/// The record a header line yields before the remaining lines are applied:
/// name and item lower-cased, gender as a single lower-case letter.
pub open spec fn header_record(header: Seq<char>) -> PokemonView {
    let name0 = header_name_part(header);
    let name1 = header_after_gender(name0);
    let name2 = header_species(name1);
    PokemonView {
        name: lower_of(name2),
        gender: header_gender(name0),
        item: lower_of(header_item_part(header)),
        ..empty_pokemon_view()
    }
}

/// One block parsed to a record.
///
/// The first content line is the header and may not contain ':' nor start
/// with '-'; a block with no content lines, or whose name comes out empty,
/// is an error.
pub open spec fn parse_block_spec(block: Seq<char>) -> Result<PokemonView, ParseErrorView> {
    let lines = block_content_lines(block);
    if lines.len() == 0 {
        Err(ParseErrorView::EmptyBlock)
    } else {
        let header = lines[0];
        if header.contains(':') || (header.len() > 0 && header[0] == '-') {
            Err(ParseErrorView::MissingName { block })
        } else {
            match apply_lines_from(header_record(header), lines.drop_first()) {
                Err(e) => Err(e),
                Ok(p) => if p.name.len() == 0 {
                    Err(ParseErrorView::MissingName { block })
                } else {
                    Ok(p)
                },
            }
        }
    }
}

pub open spec fn parse_blocks_from(blocks: Seq<Seq<char>>) -> Result<
    Seq<PokemonView>,
    ParseErrorView,
>
    decreases blocks.len(),
{
    if blocks.len() == 0 {
        Ok(Seq::<PokemonView>::empty())
    } else {
        match parse_block_spec(blocks[0]) {
            Err(e) => Err(e),
            Ok(p) => match parse_blocks_from(blocks.drop_first()) {
                Err(e) => Err(e),
                Ok(ps) => Ok(seq![p] + ps),
            },
        }
    }
}

/// A whole paste parsed to its records, in input order, the first offending
/// block aborting the call.
///
/// The input is trimmed; blank input is an error. Blocks are separated by a
/// blank line, in the carriage-return-doubled form when the input holds a
/// carriage return anywhere: the line-ending style is a whole-input choice,
/// so inputs mixing styles are unsupported.
pub open spec fn parse_paste_spec(text: Seq<char>) -> Result<Seq<PokemonView>, ParseErrorView> {
    let t = trim_spec(text);
    if t.len() == 0 {
        Err(ParseErrorView::EmptyInput)
    } else {
        let blocks = if t.contains('\r') {
            split_on_spec(t, "\r\n\r\n"@)
        } else {
            split_on_spec(t, "\n\n"@)
        };
        parse_blocks_from(blocks)
    }
}


// ---------------------------------------------------------------------------
// the content lines of a block
// ---------------------------------------------------------------------------
/// Lines trimmed and empties dropped, in order.
pub open spec fn content_of(ls: Seq<Seq<char>>) -> Seq<Seq<char>>
    decreases ls.len(),
{
    if ls.len() == 0 {
        Seq::<Seq<char>>::empty()
    } else {
        let rest = content_of(ls.drop_last());
        let t = trim_spec(ls.last());
        if t.len() > 0 {
            rest.push(t)
        } else {
            rest
        }
    }
}

proof fn lemma_content_pos(ls: Seq<Seq<char>>)
    ensures
        forall|i: int| 0 <= i < content_of(ls).len() ==> content_of(ls)[i].len() > 0,
    decreases ls.len(),
{
    if ls.len() > 0 {
        lemma_content_pos(ls.drop_last());
        let rest = content_of(ls.drop_last());
        let t = trim_spec(ls.last());
        if t.len() > 0 {
            assert forall|i: int| 0 <= i < content_of(ls).len() implies content_of(
                ls,
            )[i].len() > 0 by {
                if i < rest.len() {
                    assert(content_of(ls)[i] == rest[i]);
                } else {
                    assert(content_of(ls)[i] == t);
                }
            }
        }
    }
}

/// The trimmed, non-empty lines of a text, in order.
pub fn content_lines(block: &Vec<char>) -> (r: Vec<Vec<char>>)
    ensures
        r.deep_view() == content_of(spec_lines(block@)),
        forall|i: int| 0 <= i < r.deep_view().len() ==> r.deep_view()[i].len() > 0,
{
    let raw = text::lines_of(block);
    let ghost lseq = spec_lines(block@);
    let mut r: Vec<Vec<char>> = Vec::new();
    let mut i: usize = 0;
    proof {
        assert(lseq.take(0) =~= Seq::<Seq<char>>::empty());
        assert(r.deep_view() =~= content_of(lseq.take(0)));
    }
    while i < raw.len()
        invariant
            i <= raw@.len(),
            raw.deep_view() == lseq,
            raw@.len() == lseq.len(),
            r.deep_view() == content_of(lseq.take(i as int)),
        decreases raw.len() - i,
    {
        let t = text::trim_chars(&raw[i]);
        let ghost pre = r.deep_view();
        proof {
            assert(raw@[i as int]@ =~= raw.deep_view()[i as int]);
            assert(lseq.take(i + 1 as int).drop_last() =~= lseq.take(i as int));
            assert(lseq.take(i + 1 as int).last() == lseq[i as int]);
        }
        if t.len() > 0 {
            proof {
                assert(t.deep_view() =~= t@);
            }
            r.push(t);
            proof {
                assert(r.deep_view() =~= pre.push(trim_spec(lseq[i as int])));
            }
        }
        i = i + 1;
    }
    proof {
        assert(lseq.take(lseq.len() as int) =~= lseq);
        lemma_content_pos(lseq);
    }
    r
}

// ---------------------------------------------------------------------------
// the executable parser
// ---------------------------------------------------------------------------
fn parse_tvs(value: &Vec<char>, ifiv: bool) -> (r: Result<Tv, ParseError>)
    ensures
        r is Ok ==> parse_tvs_spec(value@, ifiv) == Ok::<TvView, ParseErrorView>(r->Ok_0@),
        r is Err ==> parse_tvs_spec(value@, ifiv) == Err::<TvView, ParseErrorView>(r->Err_0@),
{
    let sep = text::chars_of(" / ");
    let space = text::chars_of(" ");
    proof {
        reveal_strlit(" / ");
        reveal_strlit(" ");
    }
    let parts = text::split_on(value, &sep);
    let ghost pseq = split_on_spec(value@, " / "@);
    let mut tv = Tv::empty(ifiv);
    let mut i: usize = 0;
    proof {
        assert(pseq.skip(0) =~= pseq);
    }
    while i < parts.len()
        invariant
            i <= parts@.len(),
            parts.deep_view() == pseq,
            parts@.len() == pseq.len(),
            space@ == " "@,
            space@.len() == 1,
            parse_tvs_spec(value@, ifiv) == parse_tvs_from(tv@, pseq.skip(i as int)),
        decreases parts.len() - i,
    {
        let ghost prev = tv@;
        let p = &parts[i];
        proof {
            assert(p@ =~= parts.deep_view()[i as int]);
            assert(pseq.skip(i as int)[0] == pseq[i as int]);
            assert(pseq.skip(i as int).drop_first() =~= pseq.skip(i + 1 as int));
        }
        let trimmed = text::trim_chars(p);
        let c = text::split_on(&trimmed, &space);
        proof {
            assert(c.deep_view() == split_on_spec(trim_spec(pseq[i as int]), " "@));
        }
        if c.len() != 2 {
            let e = ParseError::MalformedTvString { line: text::string_of(p) };
            proof {
                assert(c.deep_view().len() == c@.len());
                assert(apply_tv_token(prev, pseq[i as int]) == Err::<TvView, ParseErrorView>(
                    ParseErrorView::MalformedTvString { line: pseq[i as int] },
                ));
            }
            return Err(e);
        }
        let ab_string = text::lowercase(text::string_of(&c[1]).as_str());
        let ab = text::chars_of(ab_string.as_str());
        let val = text::string_of(&c[0]);
        proof {
            assert(c.deep_view().len() == c@.len());
            assert(c@[0int]@ =~= c.deep_view()[0int]);
            assert(c@[1int]@ =~= c.deep_view()[1int]);
        }
        if text::chars_eq_str(&ab, "hp") {
            tv.hp = val;
        } else if text::chars_eq_str(&ab, "atk") {
            tv.atk = val;
        } else if text::chars_eq_str(&ab, "def") {
            tv.def = val;
        } else if text::chars_eq_str(&ab, "spa") {
            tv.spa = val;
        } else if text::chars_eq_str(&ab, "spd") {
            tv.spd = val;
        } else if text::chars_eq_str(&ab, "spe") {
            tv.spe = val;
        }
        proof {
            assert(apply_tv_token(prev, pseq[i as int]) == Ok::<TvView, ParseErrorView>(tv@));
        }
        i = i + 1;
    }
    proof {
        assert(pseq.skip(pseq.len() as int) =~= Seq::<Seq<char>>::empty());
    }
    Ok(tv)
}

fn parse_pokemon(block: &Vec<char>) -> (r: Result<Pokemon, ParseError>)
    ensures
        r is Ok ==> parse_block_spec(block@) == Ok::<PokemonView, ParseErrorView>(r->Ok_0@),
        r is Err ==> parse_block_spec(block@) == Err::<PokemonView, ParseErrorView>(r->Err_0@),
{
    let lines = content_lines(block);
    let ghost target = block_content_lines(block@);
    if lines.len() == 0 {
        proof {
            assert(target.len() == lines.deep_view().len());
        }
        return Err(ParseError::EmptyBlock);
    }
    proof {
        assert(target.len() == lines.deep_view().len());
    }
    let header = &lines[0];
    proof {
        assert(header@ =~= target[0]);
        assert(target[0].len() > 0);
    }
    if text::contains_char(header, ':') || header[0] == '-' {
        return Err(ParseError::MissingName { block: text::string_of(block) });
    }
    let hlen: usize = header.len();
    let name0: Vec<char>;
    let item0: Vec<char>;
    match text::find_char(header, '@') {
        Some(k) => {
            let left = text::sub_chars(header, 0, k);
            let right = text::sub_chars(header, k + 1, hlen);
            proof {
                assert(header@.take(k as int) =~= header@.subrange(0, k as int));
                assert(header@.skip(k + 1) =~= header@.subrange(k + 1, header@.len() as int));
            }
            name0 = text::trim_chars(&left);
            item0 = text::trim_chars(&right);
        },
        None => {
            name0 = text::sub_chars(header, 0, hlen);
            item0 = Vec::new();
            proof {
                assert(header@.subrange(0, header@.len() as int) =~= header@);
                assert(item0@ =~= Seq::<char>::empty());
            }
        },
    }
    proof {
        assert(name0@ == header_name_part(target[0]));
        assert(item0@ == header_item_part(target[0]));
    }
    let gender: Vec<char>;
    let name1: Vec<char>;
    match find_gender(&name0) {
        Some(g) => {
            let n0len: usize = name0.len();
            proof {
                assert(g + 3 <= n0len);
            }
            let mut gv: Vec<char> = Vec::new();
            gv.push(text::lower_char_exec(name0[g + 1]));
            proof {
                assert(gv@ =~= seq![text::lower_char(name0@[g + 1])]);
            }
            gender = gv;
            name1 = text::trim_chars(&strip_gender(&name0));
        },
        None => {
            gender = Vec::new();
            name1 = name0;
            proof {
                assert(gender@ =~= Seq::<char>::empty());
            }
        },
    }
    proof {
        assert(gender@ == header_gender(header_name_part(target[0])));
        assert(name1@ == header_after_gender(header_name_part(target[0])));
    }
    let name2: Vec<char> = match find_nick(&name1) {
        Some(c) => c,
        None => name1,
    };
    let mut pokemon = empty_pokemon();
    pokemon.name = text::lowercase(text::string_of(&name2).as_str());
    pokemon.item = text::lowercase(text::string_of(&item0).as_str());
    pokemon.gender = text::string_of(&gender);
    proof {
        assert(pokemon@.moves =~= empty_pokemon_view().moves);
        assert(pokemon@ == header_record(target[0]));
        assert(parse_block_spec(block@) == (match apply_lines_from(pokemon@, target.skip(1)) {
            Err(e) => Err::<PokemonView, ParseErrorView>(e),
            Ok(p) => if p.name.len() == 0 {
                Err::<PokemonView, ParseErrorView>(
                    ParseErrorView::MissingName { block: block@ },
                )
            } else {
                Ok::<PokemonView, ParseErrorView>(p)
            },
        }));
    }
    let colon = text::chars_of(": ");
    let nature_pat = text::chars_of(" nature");
    proof {
        reveal_strlit(": ");
        reveal_strlit(" nature");
    }
    let mut i: usize = 1;
    while i < lines.len()
        invariant
            1 <= i <= lines@.len(),
            lines.deep_view() == target,
            lines@.len() == target.len(),
            colon@ == ": "@,
            nature_pat@ == " nature"@,
            colon@.len() == 2,
            nature_pat@.len() == 7,
            parse_block_spec(block@) == (match apply_lines_from(
                pokemon@,
                target.skip(i as int),
            ) {
                Err(e) => Err::<PokemonView, ParseErrorView>(e),
                Ok(p) => if p.name.len() == 0 {
                    Err::<PokemonView, ParseErrorView>(
                        ParseErrorView::MissingName { block: block@ },
                    )
                } else {
                    Ok::<PokemonView, ParseErrorView>(p)
                },
            }),
        decreases lines.len() - i,
    {
        let ghost prev = pokemon@;
        let line = &lines[i];
        proof {
            assert(line@ =~= lines.deep_view()[i as int]);
            assert(target.skip(i as int)[0] == target[i as int]);
            assert(target.skip(i as int).drop_first() =~= target.skip(i + 1 as int));
        }
        let parts = text::split_on(line, &colon);
        let ghost parts_spec = split_on_spec(target[i as int], ": "@);
        proof {
            assert(parts.deep_view() == parts_spec);
            assert(parts@[0int]@ =~= parts.deep_view()[0int]);
        }
        let key_string = text::lowercase(text::string_of(&parts[0]).as_str());
        let key = text::chars_of(key_string.as_str());
        if parts.len() >= 2 {
            proof {
                assert(parts@[1int]@ =~= parts.deep_view()[1int]);
            }
            let value = text::trim_chars(&parts[1]);
            if text::chars_eq_str(&key, "ability") {
                pokemon.ability = text::string_of(&value);
            } else if text::chars_eq_str(&key, "level") {
                pokemon.level = text::string_of(&value);
            } else if text::chars_eq_str(&key, "tera type") {
                pokemon.tera = text::string_of(&value);
            } else if text::chars_eq_str(&key, "shiny") {
                pokemon.shiny = text::string_of(&value);
            } else if text::chars_eq_str(&key, "evs") {
                match parse_tvs(&value, false) {
                    Ok(t) => {
                        pokemon.evs = t;
                    },
                    Err(e) => {
                        proof {
                            assert(apply_line(prev, target[i as int])
                                == Err::<PokemonView, ParseErrorView>(e@));
                        }
                        return Err(e);
                    },
                }
            } else if text::chars_eq_str(&key, "ivs") {
                match parse_tvs(&value, true) {
                    Ok(t) => {
                        pokemon.ivs = t;
                    },
                    Err(e) => {
                        proof {
                            assert(apply_line(prev, target[i as int])
                                == Err::<PokemonView, ParseErrorView>(e@));
                        }
                        return Err(e);
                    },
                }
            }
            proof {
                assert(apply_line(prev, target[i as int]) == Ok::<PokemonView, ParseErrorView>(
                    pokemon@,
                ));
            }
        } else if text::contains_sub_exec(&key, &nature_pat) {
            let nparts = text::split_on(&key, &nature_pat);
            proof {
                assert(nparts.deep_view()[0int] =~= nparts@[0int]@);
                text::lemma_split_nonempty(key@, " nature"@);
            }
            pokemon.nature = text::string_of(&text::trim_chars(&nparts[0]));
            proof {
                assert(apply_line(prev, target[i as int]) == Ok::<PokemonView, ParseErrorView>(
                    pokemon@,
                ));
            }
        } else {
            let p0 = &parts[0];
            if p0.len() > 0 && p0[0] == '-' {
                if p0.len() > 1 {
                    let tail = text::sub_chars(p0, 1, p0.len());
                    proof {
                        assert(p0@.subrange(1, p0@.len() as int) =~= p0@.skip(1));
                    }
                    let mv = text::trim_chars(&tail);
                    let ghost premoves = pokemon.moves.deep_view();
                    pokemon.moves.push(text::string_of(&mv));
                    proof {
                        assert(pokemon.moves.deep_view() =~= premoves.push(
                            trim_spec(parts_spec[0int].skip(1)),
                        ));
                        assert(apply_line(prev, target[i as int]) == Ok::<
                            PokemonView,
                            ParseErrorView,
                        >(pokemon@));
                    }
                } else {
                    let e = ParseError::MalformedLine { line: text::string_of(line) };
                    proof {
                        assert(apply_line(prev, target[i as int]) == Err::<
                            PokemonView,
                            ParseErrorView,
                        >(e@));
                    }
                    return Err(e);
                }
            } else {
                proof {
                    assert(apply_line(prev, target[i as int]) == Ok::<
                        PokemonView,
                        ParseErrorView,
                    >(pokemon@));
                }
            }
        }
        i = i + 1;
    }
    proof {
        assert(target.skip(target.len() as int) =~= Seq::<Seq<char>>::empty());
    }
    if pokemon.name.as_str().is_empty() {
        return Err(ParseError::MissingName { block: text::string_of(block) });
    }
    Ok(pokemon)
}

/// A whole paste parsed to its records, in input order; the first offending
/// block aborts the call with its error.
pub fn parse_pokepaste(paste: String) -> (r: Result<Vec<Pokemon>, ParseError>)
    ensures
        r is Ok ==> parse_paste_spec(paste@) is Ok && r->Ok_0@.len() == parse_paste_spec(
            paste@,
        )->Ok_0.len() && (forall|i: int|
            0 <= i < r->Ok_0@.len() ==> #[trigger] r->Ok_0@[i]@ == parse_paste_spec(
                paste@,
            )->Ok_0[i]),
        r is Err ==> parse_paste_spec(paste@) is Err && r->Err_0@ == parse_paste_spec(
            paste@,
        )->Err_0,
{
    let chars = text::chars_of(paste.as_str());
    let t = text::trim_chars(&chars);
    if t.len() == 0 {
        return Err(ParseError::EmptyInput);
    }
    let sep: Vec<char> = if text::contains_char(&t, '\r') {
        text::chars_of("\r\n\r\n")
    } else {
        text::chars_of("\n\n")
    };
    proof {
        reveal_strlit("\r\n\r\n");
        reveal_strlit("\n\n");
    }
    let blocks = text::split_on(&t, &sep);
    let ghost bseq = if t@.contains('\r') {
        split_on_spec(t@, "\r\n\r\n"@)
    } else {
        split_on_spec(t@, "\n\n"@)
    };
    proof {
        assert(blocks.deep_view() == bseq);
        assert(parse_paste_spec(paste@) == parse_blocks_from(bseq));
        assert(bseq.skip(0) =~= bseq);
    }
    let mut out: Vec<Pokemon> = Vec::new();
    let ghost mut acc = Seq::<PokemonView>::empty();
    let mut i: usize = 0;
    proof {
        assert(acc + parse_blocks_from(bseq)->Ok_0 =~= parse_blocks_from(bseq)->Ok_0);
    }
    while i < blocks.len()
        invariant
            i <= blocks@.len(),
            blocks.deep_view() == bseq,
            blocks@.len() == bseq.len(),
            out@.len() == i,
            acc.len() == i,
            forall|j: int| 0 <= j < i ==> #[trigger] out@[j]@ == acc[j],
            parse_paste_spec(paste@) == (match parse_blocks_from(bseq.skip(i as int)) {
                Err(e) => Err::<Seq<PokemonView>, ParseErrorView>(e),
                Ok(ps) => Ok::<Seq<PokemonView>, ParseErrorView>(acc + ps),
            }),
        decreases blocks.len() - i,
    {
        proof {
            assert(blocks@[i as int]@ =~= bseq[i as int]);
            assert(bseq.skip(i as int)[0] == bseq[i as int]);
            assert(bseq.skip(i as int).drop_first() =~= bseq.skip(i + 1 as int));
        }
        match parse_pokemon(&blocks[i]) {
            Err(e) => {
                proof {
                    assert(parse_blocks_from(bseq.skip(i as int))
                        == Err::<Seq<PokemonView>, ParseErrorView>(e@));
                    assert(parse_paste_spec(paste@) == Err::<Seq<PokemonView>, ParseErrorView>(
                        e@,
                    ));
                }
                return Err(e);
            },
            Ok(p) => {
                proof {
                    let rest = parse_blocks_from(bseq.skip(i + 1 as int));
                    if rest is Ok {
                        assert(acc + (seq![p@] + rest->Ok_0) =~= (acc.push(p@)) + rest->Ok_0);
                    }
                }
                out.push(p);
                proof {
                    acc = acc.push(p@);
                }
            },
        }
        i = i + 1;
    }
    proof {
        assert(bseq.skip(bseq.len() as int) =~= Seq::<Seq<char>>::empty());
        assert(acc + Seq::<PokemonView>::empty() =~= acc);
    }
    Ok(out)
}


// ---------------------------------------------------------------------------
// rendering records back to paste text
// ---------------------------------------------------------------------------
/// The stat entries a block renders: one "Abbrev value" piece per stat whose
/// text differs from the default for its orientation.
pub open spec fn tv_parts(t: TvView, cmp: Seq<char>) -> Seq<Seq<char>> {
    (if t.hp != cmp {
        seq![t.hp + " HP"@]
    } else {
        Seq::<Seq<char>>::empty()
    }) + (if t.atk != cmp {
        seq![t.atk + " Atk"@]
    } else {
        Seq::<Seq<char>>::empty()
    }) + (if t.def != cmp {
        seq![t.def + " Def"@]
    } else {
        Seq::<Seq<char>>::empty()
    }) + (if t.spa != cmp {
        seq![t.spa + " SpA"@]
    } else {
        Seq::<Seq<char>>::empty()
    }) + (if t.spd != cmp {
        seq![t.spd + " SpD"@]
    } else {
        Seq::<Seq<char>>::empty()
    }) + (if t.spe != cmp {
        seq![t.spe + " Spe"@]
    } else {
        Seq::<Seq<char>>::empty()
    })
}

/// A stat line: the label, then the non-default entries joined by " / ";
/// nothing when every stat has its default text.
pub open spec fn render_tvs_spec(t: TvView, cmp: Seq<char>, label: Seq<char>) -> Seq<char> {
    let parts = tv_parts(t, cmp);
    if parts.len() == 0 {
        Seq::<char>::empty()
    } else {
        label + ": "@ + text::join_spec(parts, " / "@) + "\n"@
    }
}

fn push_tv_part(parts: &mut Vec<String>, val: &str, suffix: &str, cmp: &str) -> (pushed: bool)
    ensures
        val@ != cmp@ ==> pushed && final(parts)@.len() == old(parts)@.len() + 1 && final(parts).deep_view() =~= old(parts).deep_view().push(val@ + suffix@),
        val@ == cmp@ ==> !pushed && final(parts)@ == old(parts)@,
{
    let vchars = text::chars_of(val);
    if !text::chars_eq_str(&vchars, cmp) {
        let mut p = String::new();
        p.append(val);
        p.append(suffix);
        let ghost pre = parts.deep_view();
        parts.push(p);
        proof {
            assert(parts.deep_view() =~= pre.push(val@ + suffix@));
        }
        true
    } else {
        false
    }
}

/// A stat line rendered: entries differing from the default, joined with
/// " / " behind the label, or nothing at all.
pub fn render_tvs(t: &Tv, cmp: &str, label: &str) -> (r: String)
    ensures
        r@ == render_tvs_spec(t@, cmp@, label@),
{
    let mut parts: Vec<String> = Vec::new();
    let ghost mut acc = Seq::<Seq<char>>::empty();
    proof {
        assert(parts.deep_view() =~= acc);
    }
    let _ = push_tv_part(&mut parts, t.hp.as_str(), " HP", cmp);
    proof {
        acc = acc + (if t.hp@ != cmp@ {
            seq![t.hp@ + " HP"@]
        } else {
            Seq::<Seq<char>>::empty()
        });
        assert(parts.deep_view() =~= acc);
    }
    let _ = push_tv_part(&mut parts, t.atk.as_str(), " Atk", cmp);
    proof {
        acc = acc + (if t.atk@ != cmp@ {
            seq![t.atk@ + " Atk"@]
        } else {
            Seq::<Seq<char>>::empty()
        });
        assert(parts.deep_view() =~= acc);
    }
    let _ = push_tv_part(&mut parts, t.def.as_str(), " Def", cmp);
    proof {
        acc = acc + (if t.def@ != cmp@ {
            seq![t.def@ + " Def"@]
        } else {
            Seq::<Seq<char>>::empty()
        });
        assert(parts.deep_view() =~= acc);
    }
    let _ = push_tv_part(&mut parts, t.spa.as_str(), " SpA", cmp);
    proof {
        acc = acc + (if t.spa@ != cmp@ {
            seq![t.spa@ + " SpA"@]
        } else {
            Seq::<Seq<char>>::empty()
        });
        assert(parts.deep_view() =~= acc);
    }
    let _ = push_tv_part(&mut parts, t.spd.as_str(), " SpD", cmp);
    proof {
        acc = acc + (if t.spd@ != cmp@ {
            seq![t.spd@ + " SpD"@]
        } else {
            Seq::<Seq<char>>::empty()
        });
        assert(parts.deep_view() =~= acc);
    }
    let _ = push_tv_part(&mut parts, t.spe.as_str(), " Spe", cmp);
    proof {
        acc = acc + (if t.spe@ != cmp@ {
            seq![t.spe@ + " Spe"@]
        } else {
            Seq::<Seq<char>>::empty()
        });
        assert(parts.deep_view() =~= acc);
        assert(acc =~= tv_parts(t@, cmp@));
    }
    let mut out = String::new();
    if parts.len() == 0 {
        proof {
            assert(parts.deep_view().len() == parts@.len());
        }
        return out;
    }
    proof {
        assert(parts.deep_view().len() == parts@.len());
    }
    out.append(label);
    out.append(": ");
    let mut i: usize = 0;
    while i < parts.len()
        invariant
            i <= parts@.len(),
            parts@.len() >= 1,
            parts.deep_view() == tv_parts(t@, cmp@),
            parts@.len() == parts.deep_view().len(),
            i == 0 ==> out@ == label@ + ": "@,
            i >= 1 ==> out@ == label@ + ": "@ + text::join_spec(
                parts.deep_view().take(i as int),
                " / "@,
            ),
        decreases parts.len() - i,
    {
        proof {
            assert(parts@[i as int]@ =~= parts.deep_view()[i as int]);
        }
        if i > 0 {
            out.append(" / ");
        }
        out.append(parts[i].as_str());
        proof {
            let pv = parts.deep_view();
            assert(pv.take(i + 1 as int).drop_last() =~= pv.take(i as int));
            assert(pv.take(i + 1 as int).last() == pv[i as int]);
            if i == 0 {
                assert(text::join_spec(pv.take(1int), " / "@) == pv[0int]);
            }
        }
        i = i + 1;
    }
    out.append("\n");
    proof {
        let pv = parts.deep_view();
        assert(pv.take(pv.len() as int) =~= pv);
    }
    out
}

/// The move lines of a record: one "- move" line per non-empty move name.
pub open spec fn render_moves_spec(moves: Seq<Seq<char>>) -> Seq<char>
    decreases moves.len(),
{
    if moves.len() == 0 {
        Seq::<char>::empty()
    } else {
        render_moves_spec(moves.drop_last()) + (if moves.last().len() > 0 {
            "- "@ + moves.last() + "\n"@
        } else {
            Seq::<char>::empty()
        })
    }
}

/// The paste text a record renders to: the header line (name, optional
/// upper-cased gender marker, optional item behind " @ "), then one line for
/// each present field, the stat lines, and the move lines.
pub open spec fn render_pokemon_spec(p: PokemonView) -> Seq<char> {
    p.name + (if p.gender.len() > 0 {
        " ("@ + upper_chars(p.gender) + ")"@
    } else {
        Seq::<char>::empty()
    }) + (if p.item.len() > 0 {
        " @ "@ + p.item
    } else {
        Seq::<char>::empty()
    }) + "\n"@ + (if p.ability.len() > 0 {
        "Ability: "@ + p.ability + "\n"@
    } else {
        Seq::<char>::empty()
    }) + (if p.level.len() > 0 {
        "Level: "@ + p.level + "\n"@
    } else {
        Seq::<char>::empty()
    }) + (if fold_chars(p.shiny) == "yes"@ {
        "Shiny: Yes\n"@
    } else {
        Seq::<char>::empty()
    }) + (if p.tera.len() > 0 {
        "Tera Type: "@ + p.tera + "\n"@
    } else {
        Seq::<char>::empty()
    }) + render_tvs_spec(p.evs, "0"@, "EVs"@) + (if p.nature.len() > 0 {
        p.nature + " Nature\n"@
    } else {
        Seq::<char>::empty()
    }) + render_tvs_spec(p.ivs, "31"@, "IVs"@) + render_moves_spec(p.moves)
}

impl Pokemon {
    /// The record rendered back to paste text, ending with a newline after
    /// the last present line. Absent fields, default stats and empty move
    /// names render to nothing.
    #[verifier::rlimit(100)]
    pub fn to_paste_text(&self) -> (r: String)
        ensures
            r@ == render_pokemon_spec(self@),
    {
        let mut out = String::new();
        let ghost mut acc = self@.name;
        out.append(self.name.as_str());
        proof {
            assert(out@ =~= acc);
        }
        if !self.gender.as_str().is_empty() {
            out.append(" (");
            let up = text::string_of(&text::to_upper(&text::chars_of(self.gender.as_str())));
            out.append(up.as_str());
            out.append(")");
        }
        proof {
            acc = acc + (if self@.gender.len() > 0 {
                " ("@ + upper_chars(self@.gender) + ")"@
            } else {
                Seq::<char>::empty()
            });
            assert(out@ =~= acc);
        }
        if !self.item.as_str().is_empty() {
            out.append(" @ ");
            out.append(self.item.as_str());
        }
        proof {
            acc = acc + (if self@.item.len() > 0 {
                " @ "@ + self@.item
            } else {
                Seq::<char>::empty()
            });
            assert(out@ =~= acc);
        }
        out.append("\n");
        proof {
            acc = acc + "\n"@;
            assert(out@ =~= acc);
        }
        if !self.ability.as_str().is_empty() {
            out.append("Ability: ");
            out.append(self.ability.as_str());
            out.append("\n");
        }
        proof {
            acc = acc + (if self@.ability.len() > 0 {
                "Ability: "@ + self@.ability + "\n"@
            } else {
                Seq::<char>::empty()
            });
            assert(out@ =~= acc);
        }
        if !self.level.as_str().is_empty() {
            out.append("Level: ");
            out.append(self.level.as_str());
            out.append("\n");
        }
        proof {
            acc = acc + (if self@.level.len() > 0 {
                "Level: "@ + self@.level + "\n"@
            } else {
                Seq::<char>::empty()
            });
            assert(out@ =~= acc);
        }
        let shiny_folded = text::to_lower(&text::chars_of(self.shiny.as_str()));
        if text::chars_eq_str(&shiny_folded, "yes") {
            out.append("Shiny: Yes\n");
        }
        proof {
            acc = acc + (if fold_chars(self@.shiny) == "yes"@ {
                "Shiny: Yes\n"@
            } else {
                Seq::<char>::empty()
            });
            assert(out@ =~= acc);
        }
        if !self.tera.as_str().is_empty() {
            out.append("Tera Type: ");
            out.append(self.tera.as_str());
            out.append("\n");
        }
        proof {
            acc = acc + (if self@.tera.len() > 0 {
                "Tera Type: "@ + self@.tera + "\n"@
            } else {
                Seq::<char>::empty()
            });
            assert(out@ =~= acc);
        }
        let evs_line = render_tvs(&self.evs, "0", "EVs");
        out.append(evs_line.as_str());
        proof {
            acc = acc + render_tvs_spec(self@.evs, "0"@, "EVs"@);
            assert(out@ =~= acc);
        }
        if !self.nature.as_str().is_empty() {
            out.append(self.nature.as_str());
            out.append(" Nature\n");
        }
        proof {
            acc = acc + (if self@.nature.len() > 0 {
                self@.nature + " Nature\n"@
            } else {
                Seq::<char>::empty()
            });
            assert(out@ =~= acc);
        }
        let ivs_line = render_tvs(&self.ivs, "31", "IVs");
        out.append(ivs_line.as_str());
        proof {
            acc = acc + render_tvs_spec(self@.ivs, "31"@, "IVs"@);
            assert(out@ =~= acc);
        }
        let ghost prefix = acc;
        let mut i: usize = 0;
        proof {
            assert(self.moves.deep_view().take(0) =~= Seq::<Seq<char>>::empty());
            assert(out@ =~= prefix + render_moves_spec(self.moves.deep_view().take(0)));
        }
        while i < self.moves.len()
            invariant
                i <= self.moves@.len(),
                self.moves@.len() == self.moves.deep_view().len(),
                out@ == prefix + render_moves_spec(self.moves.deep_view().take(i as int)),
            decreases self.moves.len() - i,
        {
            let ghost mv = self.moves.deep_view();
            proof {
                assert(self.moves@[i as int]@ =~= mv[i as int]);
                assert(mv.take(i + 1 as int).drop_last() =~= mv.take(i as int));
                assert(mv.take(i + 1 as int).last() == mv[i as int]);
            }
            if !self.moves[i].as_str().is_empty() {
                out.append("- ");
                out.append(self.moves[i].as_str());
                out.append("\n");
            }
            proof {
                assert(out@ =~= prefix + render_moves_spec(mv.take(i + 1 as int)));
            }
            i = i + 1;
        }
        proof {
            let mv = self.moves.deep_view();
            assert(mv.take(mv.len() as int) =~= mv);
            assert(out@ == prefix + render_moves_spec(mv));
            assert(prefix + render_moves_spec(mv) == render_pokemon_spec(self@));
        }
        out
    }
}

} // verus!




