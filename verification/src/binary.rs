//! The binary-coded record and its fixed 21-byte wire form.
//!
//! The layout is big-endian and most-significant-field-first, in three
//! groups: species name (11 bits), gender (2), item (10) and ability (9) in
//! bytes 0..4; level (7) and shininess (1) in byte 4; elemental affinity
//! (5), the six effort values (8 each), nature (5), the six potential values
//! (5 each) and four move codes (10 each) in bytes 5..21. Packing composes
//! fields by shifting and or-ing in declaration order; values wider than
//! their field silently lose their high bits.
use vstd::prelude::*;

verus! {

/// Six stat values in wire form: effort values use the full byte, potential
/// values use the low five bits.
#[derive(Debug, Clone, PartialEq, Eq, Structural)]
pub struct TvBin {
    pub hp: u8,
    pub atk: u8,
    pub def: u8,
    pub spa: u8,
    pub spd: u8,
    pub spe: u8,
}

/// One record with every categorical field replaced by its numeric code.
#[derive(Debug, Clone)]
pub struct PokemonBin {
    pub name: u16,
    pub gender: u8,
    pub item: u16,
    pub ability: u16,
    pub level: u8,
    pub shiny: bool,
    pub tera: u8,
    pub evs: TvBin,
    pub nature: u8,
    pub ivs: TvBin,
    pub moves: Vec<u16>,
}

/// The mathematical shape of a binary record.
pub ghost struct PokemonBinView {
    pub name: u16,
    pub gender: u8,
    pub item: u16,
    pub ability: u16,
    pub level: u8,
    pub shiny: bool,
    pub tera: u8,
    pub evs: TvBin,
    pub nature: u8,
    pub ivs: TvBin,
    pub moves: Seq<u16>,
}

impl View for PokemonBin {
    type V = PokemonBinView;

    open spec fn view(&self) -> PokemonBinView {
        PokemonBinView {
            name: self.name,
            gender: self.gender,
            item: self.item,
            ability: self.ability,
            level: self.level,
            shiny: self.shiny,
            tera: self.tera,
            evs: self.evs,
            nature: self.nature,
            ivs: self.ivs,
            moves: self.moves@,
        }
    }
}

/// Move `i` of a record; missing moves pack as code 0.
pub open spec fn move_at(v: PokemonBinView, i: int) -> u16 {
    if 0 <= i < v.moves.len() {
        v.moves[i]
    } else {
        0u16
    }
}

/// Bytes 0..4 as one big-endian word: name, gender, item, ability.
pub open spec fn group1_of(v: PokemonBinView) -> u32 {
    ((((((v.name as u32) << 2) | (v.gender as u32)) << 10) | (v.item as u32)) << 9) | (
    v.ability as u32)
}

/// Byte 4: level and shininess.
pub open spec fn group2_of(v: PokemonBinView) -> u8 {
    (v.level << 1) | (if v.shiny {
        1u8
    } else {
        0u8
    })
}

/// Bytes 5..21 as one big-endian word: affinity, effort values, nature,
/// potential values, moves.
pub open spec fn group3_of(v: PokemonBinView) -> u128 {
    let a = v.tera as u128;
    let a = (a << 8) | (v.evs.hp as u128);
    let a = (a << 8) | (v.evs.atk as u128);
    let a = (a << 8) | (v.evs.def as u128);
    let a = (a << 8) | (v.evs.spa as u128);
    let a = (a << 8) | (v.evs.spd as u128);
    let a = (a << 8) | (v.evs.spe as u128);
    let a = (a << 5) | (v.nature as u128);
    let a = (a << 5) | (v.ivs.hp as u128);
    let a = (a << 5) | (v.ivs.atk as u128);
    let a = (a << 5) | (v.ivs.def as u128);
    let a = (a << 5) | (v.ivs.spa as u128);
    let a = (a << 5) | (v.ivs.spd as u128);
    let a = (a << 5) | (v.ivs.spe as u128);
    let a = (a << 10) | (move_at(v, 0) as u128);
    let a = (a << 10) | (move_at(v, 1) as u128);
    let a = (a << 10) | (move_at(v, 2) as u128);
    let a = (a << 10) | (move_at(v, 3) as u128);
    a
}

/// The four big-endian bytes of a 32-bit word.
pub open spec fn be_bytes_u32(x: u32) -> Seq<u8> {
    seq![(x >> 24) as u8, (x >> 16) as u8, (x >> 8) as u8, x as u8]
}

/// The sixteen big-endian bytes of a 128-bit word.
pub open spec fn be_bytes_u128(x: u128) -> Seq<u8> {
    seq![
        (x >> 120) as u8,
        (x >> 112) as u8,
        (x >> 104) as u8,
        (x >> 96) as u8,
        (x >> 88) as u8,
        (x >> 80) as u8,
        (x >> 72) as u8,
        (x >> 64) as u8,
        (x >> 56) as u8,
        (x >> 48) as u8,
        (x >> 40) as u8,
        (x >> 32) as u8,
        (x >> 24) as u8,
        (x >> 16) as u8,
        (x >> 8) as u8,
        x as u8,
    ]
}

/// The 21 wire bytes of a binary record.
pub open spec fn pack_spec(v: PokemonBinView) -> Seq<u8> {
    be_bytes_u32(group1_of(v)) + seq![group2_of(v)] + be_bytes_u128(group3_of(v))
}

/// A 32-bit word from four big-endian bytes.
pub open spec fn u32_from_be(s: Seq<u8>) -> u32 {
    ((s[0] as u32) << 24) | ((s[1] as u32) << 16) | ((s[2] as u32) << 8) | (s[3] as u32)
}

/// A 128-bit word from sixteen big-endian bytes.
pub open spec fn u128_from_be(s: Seq<u8>) -> u128 {
    let a = s[0] as u128;
    let a = (a << 8) | (s[1] as u128);
    let a = (a << 8) | (s[2] as u128);
    let a = (a << 8) | (s[3] as u128);
    let a = (a << 8) | (s[4] as u128);
    let a = (a << 8) | (s[5] as u128);
    let a = (a << 8) | (s[6] as u128);
    let a = (a << 8) | (s[7] as u128);
    let a = (a << 8) | (s[8] as u128);
    let a = (a << 8) | (s[9] as u128);
    let a = (a << 8) | (s[10] as u128);
    let a = (a << 8) | (s[11] as u128);
    let a = (a << 8) | (s[12] as u128);
    let a = (a << 8) | (s[13] as u128);
    let a = (a << 8) | (s[14] as u128);
    let a = (a << 8) | (s[15] as u128);
    a
}

/// The binary record 21 wire bytes denote.
pub open spec fn unpack_spec(s: Seq<u8>) -> PokemonBinView {
    let g1 = u32_from_be(s.subrange(0, 4));
    let g2 = s[4];
    let g3 = u128_from_be(s.subrange(5, 21));
    PokemonBinView {
        name: ((g1 >> 21) & 0x7ff) as u16,
        gender: ((g1 >> 19) & 0x3) as u8,
        item: ((g1 >> 9) & 0x3ff) as u16,
        ability: (g1 & 0x1ff) as u16,
        level: (g2 >> 1) & 0x7f,
        shiny: (g2 & 1) == 1,
        tera: ((g3 >> 123) & 0x1f) as u8,
        evs: (TvBin {
            hp: ((g3 >> 115) & 0xff) as u8,
            atk: ((g3 >> 107) & 0xff) as u8,
            def: ((g3 >> 99) & 0xff) as u8,
            spa: ((g3 >> 91) & 0xff) as u8,
            spd: ((g3 >> 83) & 0xff) as u8,
            spe: ((g3 >> 75) & 0xff) as u8,
        }),
        nature: ((g3 >> 70) & 0x1f) as u8,
        ivs: (TvBin {
            hp: ((g3 >> 65) & 0x1f) as u8,
            atk: ((g3 >> 60) & 0x1f) as u8,
            def: ((g3 >> 55) & 0x1f) as u8,
            spa: ((g3 >> 50) & 0x1f) as u8,
            spd: ((g3 >> 45) & 0x1f) as u8,
            spe: ((g3 >> 40) & 0x1f) as u8,
        }),
        moves: seq![
            ((g3 >> 30) & 0x3ff) as u16,
            ((g3 >> 20) & 0x3ff) as u16,
            ((g3 >> 10) & 0x3ff) as u16,
            (g3 & 0x3ff) as u16,
        ],
    }
}

impl PokemonBin {
    /// The 21 wire bytes of this record. Total: a value wider than its field
    /// loses its high bits, and only the first four moves are packed.
    pub fn pack_to_bytes(&self) -> (r: [u8; 21])
        ensures
            r@ == pack_spec(self@),
    {
        let mut group1: u32 = self.name as u32;
        group1 = (group1 << 2) | (self.gender as u32);
        group1 = (group1 << 10) | (self.item as u32);
        group1 = (group1 << 9) | (self.ability as u32);

        let group2: u8 = (self.level << 1) | (if self.shiny {
            1u8
        } else {
            0u8
        });

        let m0: u16 = if self.moves.len() > 0 {
            self.moves[0]
        } else {
            0
        };
        let m1: u16 = if self.moves.len() > 1 {
            self.moves[1]
        } else {
            0
        };
        let m2: u16 = if self.moves.len() > 2 {
            self.moves[2]
        } else {
            0
        };
        let m3: u16 = if self.moves.len() > 3 {
            self.moves[3]
        } else {
            0
        };

        let mut group3: u128 = self.tera as u128;
        group3 = (group3 << 8) | (self.evs.hp as u128);
        group3 = (group3 << 8) | (self.evs.atk as u128);
        group3 = (group3 << 8) | (self.evs.def as u128);
        group3 = (group3 << 8) | (self.evs.spa as u128);
        group3 = (group3 << 8) | (self.evs.spd as u128);
        group3 = (group3 << 8) | (self.evs.spe as u128);
        group3 = (group3 << 5) | (self.nature as u128);
        group3 = (group3 << 5) | (self.ivs.hp as u128);
        group3 = (group3 << 5) | (self.ivs.atk as u128);
        group3 = (group3 << 5) | (self.ivs.def as u128);
        group3 = (group3 << 5) | (self.ivs.spa as u128);
        group3 = (group3 << 5) | (self.ivs.spd as u128);
        group3 = (group3 << 5) | (self.ivs.spe as u128);
        group3 = (group3 << 10) | (m0 as u128);
        group3 = (group3 << 10) | (m1 as u128);
        group3 = (group3 << 10) | (m2 as u128);
        group3 = (group3 << 10) | (m3 as u128);

        let r: [u8; 21] = [
            #[verifier::truncate]
            ((group1 >> 24) as u8),
            #[verifier::truncate]
            ((group1 >> 16) as u8),
            #[verifier::truncate]
            ((group1 >> 8) as u8),
            #[verifier::truncate]
            (group1 as u8),
            group2,
            #[verifier::truncate]
            ((group3 >> 120) as u8),
            #[verifier::truncate]
            ((group3 >> 112) as u8),
            #[verifier::truncate]
            ((group3 >> 104) as u8),
            #[verifier::truncate]
            ((group3 >> 96) as u8),
            #[verifier::truncate]
            ((group3 >> 88) as u8),
            #[verifier::truncate]
            ((group3 >> 80) as u8),
            #[verifier::truncate]
            ((group3 >> 72) as u8),
            #[verifier::truncate]
            ((group3 >> 64) as u8),
            #[verifier::truncate]
            ((group3 >> 56) as u8),
            #[verifier::truncate]
            ((group3 >> 48) as u8),
            #[verifier::truncate]
            ((group3 >> 40) as u8),
            #[verifier::truncate]
            ((group3 >> 32) as u8),
            #[verifier::truncate]
            ((group3 >> 24) as u8),
            #[verifier::truncate]
            ((group3 >> 16) as u8),
            #[verifier::truncate]
            ((group3 >> 8) as u8),
            #[verifier::truncate]
            (group3 as u8),
        ];
        proof {
            assert(group1 == group1_of(self@));
            assert(group2 == group2_of(self@));
            assert(group3 == group3_of(self@));
            assert(r@ =~= pack_spec(self@));
        }
        r
    }
}

/// The binary record denoted by 21 wire bytes. Total: every byte sequence of
/// the right length denotes a record.
pub fn unpack_from_bytes(bytes: &[u8; 21]) -> (r: PokemonBin)
    ensures
        r@ == unpack_spec(bytes@),
{
    let g1: u32 = ((bytes[0] as u32) << 24) | ((bytes[1] as u32) << 16) | ((bytes[2] as u32) << 8)
        | (bytes[3] as u32);
    let g2: u8 = bytes[4];
    let mut g3: u128 = bytes[5] as u128;
    g3 = (g3 << 8) | (bytes[6] as u128);
    g3 = (g3 << 8) | (bytes[7] as u128);
    g3 = (g3 << 8) | (bytes[8] as u128);
    g3 = (g3 << 8) | (bytes[9] as u128);
    g3 = (g3 << 8) | (bytes[10] as u128);
    g3 = (g3 << 8) | (bytes[11] as u128);
    g3 = (g3 << 8) | (bytes[12] as u128);
    g3 = (g3 << 8) | (bytes[13] as u128);
    g3 = (g3 << 8) | (bytes[14] as u128);
    g3 = (g3 << 8) | (bytes[15] as u128);
    g3 = (g3 << 8) | (bytes[16] as u128);
    g3 = (g3 << 8) | (bytes[17] as u128);
    g3 = (g3 << 8) | (bytes[18] as u128);
    g3 = (g3 << 8) | (bytes[19] as u128);
    g3 = (g3 << 8) | (bytes[20] as u128);

    let mut moves: Vec<u16> = Vec::new();
    moves.push(#[verifier::truncate] (((g3 >> 30) & 0x3ff) as u16));
    moves.push(#[verifier::truncate] (((g3 >> 20) & 0x3ff) as u16));
    moves.push(#[verifier::truncate] (((g3 >> 10) & 0x3ff) as u16));
    moves.push(#[verifier::truncate] ((g3 & 0x3ff) as u16));

    let r = PokemonBin {
        name: #[verifier::truncate] (((g1 >> 21) & 0x7ff) as u16),
        gender: #[verifier::truncate] (((g1 >> 19) & 0x3) as u8),
        item: #[verifier::truncate] (((g1 >> 9) & 0x3ff) as u16),
        ability: #[verifier::truncate] ((g1 & 0x1ff) as u16),
        level: (g2 >> 1) & 0x7f,
        shiny: (g2 & 1) == 1,
        tera: #[verifier::truncate] (((g3 >> 123) & 0x1f) as u8),
        evs: TvBin {
            hp: #[verifier::truncate] (((g3 >> 115) & 0xff) as u8),
            atk: #[verifier::truncate] (((g3 >> 107) & 0xff) as u8),
            def: #[verifier::truncate] (((g3 >> 99) & 0xff) as u8),
            spa: #[verifier::truncate] (((g3 >> 91) & 0xff) as u8),
            spd: #[verifier::truncate] (((g3 >> 83) & 0xff) as u8),
            spe: #[verifier::truncate] (((g3 >> 75) & 0xff) as u8),
        },
        nature: #[verifier::truncate] (((g3 >> 70) & 0x1f) as u8),
        ivs: TvBin {
            hp: #[verifier::truncate] (((g3 >> 65) & 0x1f) as u8),
            atk: #[verifier::truncate] (((g3 >> 60) & 0x1f) as u8),
            def: #[verifier::truncate] (((g3 >> 55) & 0x1f) as u8),
            spa: #[verifier::truncate] (((g3 >> 50) & 0x1f) as u8),
            spd: #[verifier::truncate] (((g3 >> 45) & 0x1f) as u8),
            spe: #[verifier::truncate] (((g3 >> 40) & 0x1f) as u8),
        },
        moves,
    };
    proof {
        assert(bytes@.subrange(0, 4) =~= seq![bytes@[0], bytes@[1], bytes@[2], bytes@[3]]);
        assert(bytes@.subrange(5, 21) =~= seq![
            bytes@[5],
            bytes@[6],
            bytes@[7],
            bytes@[8],
            bytes@[9],
            bytes@[10],
            bytes@[11],
            bytes@[12],
            bytes@[13],
            bytes@[14],
            bytes@[15],
            bytes@[16],
            bytes@[17],
            bytes@[18],
            bytes@[19],
            bytes@[20],
        ]);
        assert(g1 == u32_from_be(bytes@.subrange(0, 4)));
        assert(g3 == u128_from_be(bytes@.subrange(5, 21)));
        assert(r@.moves =~= unpack_spec(bytes@).moves);
    }
    r
}

/// Every field within its declared width.
pub open spec fn bin_in_width(v: PokemonBinView) -> bool {
    &&& v.name < 2048
    &&& v.gender < 4
    &&& v.item < 1024
    &&& v.ability < 512
    &&& v.level < 128
    &&& v.tera < 32
    &&& v.nature < 32
    &&& v.ivs.hp < 32
    &&& v.ivs.atk < 32
    &&& v.ivs.def < 32
    &&& v.ivs.spa < 32
    &&& v.ivs.spd < 32
    &&& v.ivs.spe < 32
    &&& v.moves.len() == 4
    &&& forall|i: int| 0 <= i < 4 ==> v.moves[i] < 1024
}

/// Packing is lossless: a record whose fields lie within their declared bit
/// widths is reproduced exactly by unpacking its wire bytes.
pub proof fn lemma_unpack_pack(v: PokemonBinView)
    requires
        bin_in_width(v),
    ensures
        unpack_spec(pack_spec(v)) == v,
{
    let s = pack_spec(v);
    let g1 = group1_of(v);
    let g2 = group2_of(v);
    let g3 = group3_of(v);
    assert(s.subrange(0, 4) =~= be_bytes_u32(g1));
    assert(s[4] == g2);
    assert(s.subrange(5, 21) =~= be_bytes_u128(g3));

    assert(u32_from_be(be_bytes_u32(g1)) == g1) by (bit_vector);
    assert(u128_from_be(be_bytes_u128(g3)) == g3) by {
        let b = be_bytes_u128(g3);
        assert(b[0] == (g3 >> 120) as u8 && b[1] == (g3 >> 112) as u8 && b[2] == (g3 >> 104) as u8
            && b[3] == (g3 >> 96) as u8 && b[4] == (g3 >> 88) as u8 && b[5] == (g3 >> 80) as u8
            && b[6] == (g3 >> 72) as u8 && b[7] == (g3 >> 64) as u8 && b[8] == (g3 >> 56) as u8
            && b[9] == (g3 >> 48) as u8 && b[10] == (g3 >> 40) as u8 && b[11] == (g3 >> 32) as u8
            && b[12] == (g3 >> 24) as u8 && b[13] == (g3 >> 16) as u8 && b[14] == (g3 >> 8) as u8
            && b[15] == g3 as u8);
        lemma_u128_be_roundtrip(g3);
    }

    let name = v.name;
    let gender = v.gender;
    let item = v.item;
    let ability = v.ability;
    assert(((g1 >> 21) & 0x7ff) as u16 == name && ((g1 >> 19) & 0x3) as u8 == gender && ((g1 >> 9)
        & 0x3ff) as u16 == item && (g1 & 0x1ff) as u16 == ability) by (bit_vector)
        requires
            g1 == ((((((name as u32) << 2) | (gender as u32)) << 10) | (item as u32)) << 9) | (
            ability as u32),
            name < 2048,
            gender < 4,
            item < 1024,
            ability < 512,
    ;

    let level = v.level;
    let sh: u8 = if v.shiny {
        1u8
    } else {
        0u8
    };
    assert((g2 >> 1) & 0x7f == level && (g2 & 1) == sh) by (bit_vector)
        requires
            g2 == (level << 1) | sh,
            level < 128,
            sh < 2,
    ;
    assert(((g2 & 1) == 1) == v.shiny);

    let tera = v.tera;
    let e1 = v.evs.hp;
    let e2 = v.evs.atk;
    let e3 = v.evs.def;
    let e4 = v.evs.spa;
    let e5 = v.evs.spd;
    let e6 = v.evs.spe;
    let nature = v.nature;
    let i1 = v.ivs.hp;
    let i2 = v.ivs.atk;
    let i3 = v.ivs.def;
    let i4 = v.ivs.spa;
    let i5 = v.ivs.spd;
    let i6 = v.ivs.spe;
    let m0 = move_at(v, 0);
    let m1 = move_at(v, 1);
    let m2 = move_at(v, 2);
    let m3 = move_at(v, 3);
    assert(((g3 >> 123) & 0x1f) as u8 == tera && ((g3 >> 115) & 0xff) as u8 == e1 && ((g3 >> 107)
        & 0xff) as u8 == e2 && ((g3 >> 99) & 0xff) as u8 == e3 && ((g3 >> 91) & 0xff) as u8 == e4
        && ((g3 >> 83) & 0xff) as u8 == e5 && ((g3 >> 75) & 0xff) as u8 == e6 && ((g3 >> 70)
        & 0x1f) as u8 == nature && ((g3 >> 65) & 0x1f) as u8 == i1 && ((g3 >> 60) & 0x1f) as u8
        == i2 && ((g3 >> 55) & 0x1f) as u8 == i3 && ((g3 >> 50) & 0x1f) as u8 == i4 && ((g3 >> 45)
        & 0x1f) as u8 == i5 && ((g3 >> 40) & 0x1f) as u8 == i6 && ((g3 >> 30) & 0x3ff) as u16 == m0
        && ((g3 >> 20) & 0x3ff) as u16 == m1 && ((g3 >> 10) & 0x3ff) as u16 == m2 && (g3
        & 0x3ff) as u16 == m3) by (bit_vector)
        requires
            g3 == ((((((((((((((((((tera as u128) << 8 | (e1 as u128)) << 8 | (e2 as u128)) << 8 | (
            e3 as u128)) << 8 | (e4 as u128)) << 8 | (e5 as u128)) << 8 | (e6 as u128)) << 5 | (
            nature as u128)) << 5 | (i1 as u128)) << 5 | (i2 as u128)) << 5 | (i3 as u128)) << 5 | (
            i4 as u128)) << 5 | (i5 as u128)) << 5 | (i6 as u128)) << 10 | (m0 as u128)) << 10 | (
            m1 as u128)) << 10 | (m2 as u128)) << 10 | (m3 as u128)),
            tera < 32,
            nature < 32,
            i1 < 32,
            i2 < 32,
            i3 < 32,
            i4 < 32,
            i5 < 32,
            i6 < 32,
            m0 < 1024,
            m1 < 1024,
            m2 < 1024,
            m3 < 1024,
    ;

    let u = unpack_spec(s);
    assert(u.moves =~= v.moves);
    assert(u.evs == v.evs);
    assert(u.ivs == v.ivs);
    assert(u == v);
}

/// Big-endian byte decomposition of a 128-bit word is lossless.
proof fn lemma_u128_be_roundtrip(x: u128)
    ensures
        ((((((((((((((((((x >> 120) as u8) as u128) << 8 | (((x >> 112) as u8) as u128)) << 8 | (((
        x >> 104) as u8) as u128)) << 8 | (((x >> 96) as u8) as u128)) << 8 | (((x
            >> 88) as u8) as u128)) << 8 | (((x >> 80) as u8) as u128)) << 8 | (((x
            >> 72) as u8) as u128)) << 8 | (((x >> 64) as u8) as u128)) << 8 | (((x
            >> 56) as u8) as u128)) << 8 | (((x >> 48) as u8) as u128)) << 8 | (((x
            >> 40) as u8) as u128)) << 8 | (((x >> 32) as u8) as u128)) << 8 | (((x
            >> 24) as u8) as u128)) << 8 | (((x >> 16) as u8) as u128)) << 8 | (((x
            >> 8) as u8) as u128)) << 8 | ((x as u8) as u128)) == x,
{
    assert(((((((((((((((((((x >> 120) as u8) as u128) << 8 | (((x >> 112) as u8) as u128)) << 8 | (
    ((x >> 104) as u8) as u128)) << 8 | (((x >> 96) as u8) as u128)) << 8 | (((x
        >> 88) as u8) as u128)) << 8 | (((x >> 80) as u8) as u128)) << 8 | (((x
        >> 72) as u8) as u128)) << 8 | (((x >> 64) as u8) as u128)) << 8 | (((x
        >> 56) as u8) as u128)) << 8 | (((x >> 48) as u8) as u128)) << 8 | (((x
        >> 40) as u8) as u128)) << 8 | (((x >> 32) as u8) as u128)) << 8 | (((x
        >> 24) as u8) as u128)) << 8 | (((x >> 16) as u8) as u128)) << 8 | (((x
        >> 8) as u8) as u128)) << 8 | ((x as u8) as u128)) == x) by (bit_vector);
}

} // verus!
