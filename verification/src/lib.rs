//! A verified codec for the "team paste" text format: a tolerant block
//! parser, a case-insensitive vocabulary lookup, a bit-exact 21-byte packing
//! per record, and hex / base64 text transforms over the packed bytes.
//!
//! The vocabulary tables are built once from their sources with
//! [`dex::Dex::build`] and passed by shared reference into every call.
pub mod binary;
pub mod codec;
pub mod dex;
pub mod error;
pub mod parser;
pub mod text;
pub mod transform;

use vstd::prelude::*;

use crate::binary::{pack_spec, unpack_from_bytes, unpack_spec};
use crate::codec::{bin_codes_in_range, decode_spec, encode_spec, maps_sizes_ok, pokebin_to_string};
use crate::dex::{Dex, Maps, Tables};
use crate::error::{ConvertError, ParseError};
use crate::parser::{content_of, parse_paste_spec, render_pokemon_spec, PokemonView};
use crate::text::{spec_lines, trim_spec};
use crate::transform::{b64_inv, b64_of, b64_valid, hex_bytes_of, hex_upper_of, is_hex_text};

verus! {

/// The 21 wire bytes of one parsed record.
pub open spec fn packed_record(maps: Maps, p: PokemonView) -> Seq<u8> {
    pack_spec(encode_spec(maps, p))
}

/// A whole paste packed: one 21-byte record per roster entry, in order.
pub fn pokepaste_to_pokepack(dex: &Dex, pokepaste: String) -> (r: Result<
    Vec<[u8; 21]>,
    ParseError,
>)
    requires
        maps_sizes_ok(dex.maps),
    ensures
        r is Ok ==> parse_paste_spec(pokepaste@) is Ok && r->Ok_0@.len() == parse_paste_spec(
            pokepaste@,
        )->Ok_0.len() && (forall|i: int|
            0 <= i < r->Ok_0@.len() ==> (#[trigger] r->Ok_0@[i])@ == packed_record(
                dex.maps,
                parse_paste_spec(pokepaste@)->Ok_0[i],
            )),
        r is Err ==> parse_paste_spec(pokepaste@) is Err && r->Err_0@ == parse_paste_spec(
            pokepaste@,
        )->Err_0,
{
    let records = match parser::parse_pokepaste(pokepaste) {
        Ok(v) => v,
        Err(e) => {
            return Err(e);
        },
    };
    let ghost recs = records@;
    let bins = codec::encode_all_pokemon(&dex.maps, records);
    let mut out: Vec<[u8; 21]> = Vec::new();
    let mut i: usize = 0;
    while i < bins.len()
        invariant
            i <= bins@.len(),
            bins@.len() == recs.len(),
            forall|j: int|
                0 <= j < recs.len() ==> #[trigger] bins@[j]@ == encode_spec(dex.maps, recs[j]@),
            out@.len() == i,
            forall|j: int|
                0 <= j < i ==> (#[trigger] out@[j])@ == pack_spec(encode_spec(dex.maps, recs[j]@)),
        decreases bins.len() - i,
    {
        out.push(bins[i].pack_to_bytes());
        i = i + 1;
    }
    Ok(out)
}

/// A whole paste packed to one flat byte sequence, 21 bytes per record.
pub fn pokepaste_to_bytes(dex: &Dex, pokepaste: String) -> (r: Result<Vec<u8>, ParseError>)
    requires
        maps_sizes_ok(dex.maps),
    ensures
        r is Ok ==> parse_paste_spec(pokepaste@) is Ok && r->Ok_0@.len() == 21 * parse_paste_spec(
            pokepaste@,
        )->Ok_0.len() && (forall|i: int|
            0 <= i < parse_paste_spec(pokepaste@)->Ok_0.len() ==> #[trigger] r->Ok_0@.subrange(
                21 * i,
                21 * i + 21,
            ) == packed_record(dex.maps, parse_paste_spec(pokepaste@)->Ok_0[i])),
        r is Err ==> parse_paste_spec(pokepaste@) is Err && r->Err_0@ == parse_paste_spec(
            pokepaste@,
        )->Err_0,
{
    let packed = match pokepaste_to_pokepack(dex, pokepaste) {
        Ok(v) => v,
        Err(e) => {
            return Err(e);
        },
    };
    let ghost pseq = parse_paste_spec(pokepaste@)->Ok_0;
    let mut out: Vec<u8> = Vec::new();
    let mut i: usize = 0;
    while i < packed.len()
        invariant
            i <= packed@.len(),
            packed@.len() == pseq.len(),
            forall|j: int|
                0 <= j < pseq.len() ==> (#[trigger] packed@[j])@ == packed_record(
                    dex.maps,
                    pseq[j],
                ),
            out@.len() == 21 * i,
            forall|j: int|
                0 <= j < i ==> #[trigger] out@.subrange(21 * j, 21 * j + 21) == packed_record(
                    dex.maps,
                    pseq[j],
                ),
        decreases packed.len() - i,
    {
        let ghost pre = out@;
        let mut k: usize = 0;
        while k < 21
            invariant
                k <= 21,
                i < packed@.len(),
                packed@.len() == pseq.len(),
                (packed@[i as int])@.len() == 21,
                out@ == pre + (packed@[i as int])@.take(k as int),
            decreases 21 - k,
        {
            out.push(packed[i][k]);
            proof {
                assert((packed@[i as int])@.take(k + 1 as int) =~= (packed@[i as int])@.take(
                    k as int,
                ).push((packed@[i as int])@[k as int]));
                assert(out@ =~= pre + (packed@[i as int])@.take(k + 1 as int));
            }
            k = k + 1;
        }
        proof {
            assert((packed@[i as int])@.take(21) =~= (packed@[i as int])@);
            assert forall|j: int|
                0 <= j < i + 1 implies #[trigger] out@.subrange(21 * j, 21 * j + 21)
                == packed_record(dex.maps, pseq[j]) by {
                if j < i {
                    assert(out@.subrange(21 * j, 21 * j + 21) =~= pre.subrange(
                        21 * j,
                        21 * j + 21,
                    ));
                } else {
                    assert(out@.subrange(21 * i, 21 * i + 21) =~= (packed@[i as int])@);
                }
            }
        }
        i = i + 1;
    }
    Ok(out)
}

/// Record `i` of a flat packed payload.
pub open spec fn chunk_of(bytes: Seq<u8>, i: int) -> Seq<u8> {
    bytes.subrange(21 * i, 21 * i + 21)
}

/// Every code of every packed record indexes inside its table.
pub open spec fn chunks_in_range(tables: Tables, bytes: Seq<u8>) -> bool {
    forall|i: int|
        0 <= i < bytes.len() / 21 ==> bin_codes_in_range(
            tables,
            #[trigger] unpack_spec(chunk_of(bytes, i)),
        )
}

/// The first `n` packed records rendered to paste text, one blank line
/// between blocks.
pub open spec fn rendered_upto(tables: Tables, bytes: Seq<u8>, n: int) -> Seq<char>
    decreases n,
{
    if n <= 0 {
        Seq::<char>::empty()
    } else {
        rendered_upto(tables, bytes, n - 1) + render_pokemon_spec(
            decode_spec(tables, unpack_spec(chunk_of(bytes, n - 1))),
        ) + "\n"@
    }
}

/// A whole packed payload rendered back to paste text and trimmed.
pub open spec fn decoded_paste_spec(tables: Tables, bytes: Seq<u8>) -> Seq<char> {
    trim_spec(rendered_upto(tables, bytes, (bytes.len() / 21) as int))
}

/// Whether every code of one record indexes inside its table.
fn codes_in_range_exec(tables: &Tables, bin: &crate::binary::PokemonBin) -> (b: bool)
    ensures
        b == bin_codes_in_range(*tables, bin@),
{
    if (bin.name as usize) >= tables.names.len() {
        return false;
    }
    if (bin.item as usize) >= tables.items.len() {
        return false;
    }
    if (bin.ability as usize) >= tables.abilities.len() {
        return false;
    }
    if (bin.tera as usize) >= tables.teras.len() {
        return false;
    }
    if (bin.nature as usize) >= tables.natures.len() {
        return false;
    }
    let mut k: usize = 0;
    while k < bin.moves.len()
        invariant
            k <= bin.moves@.len(),
            (bin.name as int) < tables.names@.len(),
            (bin.item as int) < tables.items@.len(),
            (bin.ability as int) < tables.abilities@.len(),
            (bin.tera as int) < tables.teras@.len(),
            (bin.nature as int) < tables.natures@.len(),
            forall|j: int| 0 <= j < k ==> ((bin.moves@[j]) as int) < tables.moves@.len(),
        decreases bin.moves.len() - k,
    {
        if (bin.moves[k] as usize) >= tables.moves.len() {
            proof {
                assert(0 <= k < bin@.moves.len());
                assert(!((bin@.moves[k as int] as int) < tables.moves@.len()));
            }
            return false;
        }
        k = k + 1;
    }
    true
}

/// A flat packed payload rendered back to paste text.
///
/// The payload must be a whole number of 21-byte records, and every code in
/// them must index inside its table; the text is the rendered blocks in
/// order, separated by a blank line.
#[verifier::rlimit(100)]
pub fn bytes_to_pokepaste(tables: &Tables, flat_byte_arr: Vec<u8>) -> (r: Result<
    String,
    ConvertError,
>)
    ensures
        flat_byte_arr@.len() % 21 != 0 ==> r == Err::<String, ConvertError>(
            ConvertError::InvalidLength,
        ),
        flat_byte_arr@.len() % 21 == 0 && !chunks_in_range(*tables, flat_byte_arr@) ==> r == Err::<
            String,
            ConvertError,
        >(ConvertError::CodeOutOfRange),
        flat_byte_arr@.len() % 21 == 0 && chunks_in_range(*tables, flat_byte_arr@) ==> r is Ok
            && r->Ok_0@ == decoded_paste_spec(*tables, flat_byte_arr@),
{
    let flat = &flat_byte_arr;
    if flat.len() % 21 != 0 {
        return Err(ConvertError::InvalidLength);
    }
    let total: usize = flat.len();
    let n: usize = total / 21;
    proof {
        assert(flat@.len() == 21 * (flat@.len() as int / 21) + flat@.len() as int % 21);
    }
    let mut out = String::new();
    let mut i: usize = 0;
    while i < n
        invariant
            i <= n,
            flat == &flat_byte_arr,
            total == flat@.len(),
            n == flat@.len() / 21,
            flat@.len() % 21 == 0,
            21 * (n as int) <= flat@.len(),
            out@ == rendered_upto(*tables, flat@, i as int),
            forall|j: int|
                0 <= j < i ==> bin_codes_in_range(
                    *tables,
                    #[trigger] unpack_spec(chunk_of(flat@, j)),
                ),
        decreases n - i,
    {
        let off: usize = 21 * i;
        proof {
            assert(21 * (i + 1) <= 21 * n);
            assert(21 * n <= flat@.len());
        }
        let arr: [u8; 21] = [
            flat[off],
            flat[off + 1],
            flat[off + 2],
            flat[off + 3],
            flat[off + 4],
            flat[off + 5],
            flat[off + 6],
            flat[off + 7],
            flat[off + 8],
            flat[off + 9],
            flat[off + 10],
            flat[off + 11],
            flat[off + 12],
            flat[off + 13],
            flat[off + 14],
            flat[off + 15],
            flat[off + 16],
            flat[off + 17],
            flat[off + 18],
            flat[off + 19],
            flat[off + 20],
        ];
        proof {
            assert(arr@ =~= chunk_of(flat@, i as int));
        }
        let bin = unpack_from_bytes(&arr);
        let ghost bv = unpack_spec(chunk_of(flat@, i as int));
        if !codes_in_range_exec(tables, &bin) {
            proof {
                assert(!bin_codes_in_range(*tables, bv));
                assert(!chunks_in_range(*tables, flat@));
            }
            return Err(ConvertError::CodeOutOfRange);
        }
        let record = pokebin_to_string(tables, &bin);
        let block = record.to_paste_text();
        out.append(block.as_str());
        out.append("\n");
        i = i + 1;
    }
    let chars = text::chars_of(out.as_str());
    let trimmed = text::trim_chars(&chars);
    let r = text::string_of(&trimmed);
    Ok(r)
}

/// The hex lines of a roster: the packed records in upper-case hexadecimal,
/// one per line.
pub open spec fn hex_joined(maps: Maps, records: Seq<PokemonView>) -> Seq<char>
    decreases records.len(),
{
    if records.len() == 0 {
        Seq::<char>::empty()
    } else if records.len() == 1 {
        hex_upper_of(packed_record(maps, records[0]))
    } else {
        hex_joined(maps, records.drop_last()) + "\n"@ + hex_upper_of(
            packed_record(maps, records.last()),
        )
    }
}

/// A whole paste packed and rendered as upper-case hexadecimal, one record
/// per line.
#[verifier::rlimit(60)]
pub fn pokepaste_to_hex(dex: &Dex, pokepaste: String) -> (r: Result<String, ParseError>)
    requires
        maps_sizes_ok(dex.maps),
    ensures
        r is Ok ==> parse_paste_spec(pokepaste@) is Ok && r->Ok_0@ == hex_joined(
            dex.maps,
            parse_paste_spec(pokepaste@)->Ok_0,
        ),
        r is Err ==> parse_paste_spec(pokepaste@) is Err && r->Err_0@ == parse_paste_spec(
            pokepaste@,
        )->Err_0,
{
    let packed = match pokepaste_to_pokepack(dex, pokepaste) {
        Ok(v) => v,
        Err(e) => {
            return Err(e);
        },
    };
    let ghost pseq = parse_paste_spec(pokepaste@)->Ok_0;
    let mut out = String::new();
    let mut i: usize = 0;
    while i < packed.len()
        invariant
            i <= packed@.len(),
            packed@.len() == pseq.len(),
            forall|j: int|
                0 <= j < pseq.len() ==> (#[trigger] packed@[j])@ == packed_record(
                    dex.maps,
                    pseq[j],
                ),
            out@ == hex_joined(dex.maps, pseq.take(i as int)),
        decreases packed.len() - i,
    {
        if i > 0 {
            out.append("\n");
        }
        let line = transform::hex_encode_upper(packed[i].as_slice());
        out.append(line.as_str());
        proof {
            assert(pseq.take(i + 1 as int).drop_last() =~= pseq.take(i as int));
            assert(pseq.take(i + 1 as int).last() == pseq[i as int]);
        }
        i = i + 1;
    }
    proof {
        assert(pseq.take(pseq.len() as int) =~= pseq);
    }
    Ok(out)
}

/// The base64 lines of a roster: the packed records in standard base64, one
/// per line.
pub open spec fn b64_joined(maps: Maps, records: Seq<PokemonView>) -> Seq<char>
    decreases records.len(),
{
    if records.len() == 0 {
        Seq::<char>::empty()
    } else if records.len() == 1 {
        b64_of(packed_record(maps, records[0]))
    } else {
        b64_joined(maps, records.drop_last()) + "\n"@ + b64_of(packed_record(maps, records.last()))
    }
}

/// A whole paste packed and rendered as standard base64, one record per
/// line.
#[verifier::rlimit(60)]
pub fn pokepaste_to_base64(dex: &Dex, pokepaste: String) -> (r: Result<String, ParseError>)
    requires
        maps_sizes_ok(dex.maps),
    ensures
        r is Ok ==> parse_paste_spec(pokepaste@) is Ok && r->Ok_0@ == b64_joined(
            dex.maps,
            parse_paste_spec(pokepaste@)->Ok_0,
        ),
        r is Err ==> parse_paste_spec(pokepaste@) is Err && r->Err_0@ == parse_paste_spec(
            pokepaste@,
        )->Err_0,
{
    let packed = match pokepaste_to_pokepack(dex, pokepaste) {
        Ok(v) => v,
        Err(e) => {
            return Err(e);
        },
    };
    let ghost pseq = parse_paste_spec(pokepaste@)->Ok_0;
    let mut out = String::new();
    let mut i: usize = 0;
    while i < packed.len()
        invariant
            i <= packed@.len(),
            packed@.len() == pseq.len(),
            forall|j: int|
                0 <= j < pseq.len() ==> (#[trigger] packed@[j])@ == packed_record(
                    dex.maps,
                    pseq[j],
                ),
            out@ == b64_joined(dex.maps, pseq.take(i as int)),
        decreases packed.len() - i,
    {
        if i > 0 {
            out.append("\n");
        }
        let line = transform::b64_encode(packed[i].as_slice());
        out.append(line.as_str());
        proof {
            assert(pseq.take(i + 1 as int).drop_last() =~= pseq.take(i as int));
            assert(pseq.take(i + 1 as int).last() == pseq[i as int]);
        }
        i = i + 1;
    }
    proof {
        assert(pseq.take(pseq.len() as int) =~= pseq);
    }
    Ok(out)
}

/// The trimmed, non-empty lines of a transform payload.
pub open spec fn payload_lines(s: Seq<char>) -> Seq<Seq<char>> {
    content_of(spec_lines(s))
}

/// Every payload line is decodable hexadecimal text.
pub open spec fn all_lines_hex(lines: Seq<Seq<char>>) -> bool {
    forall|i: int| 0 <= i < lines.len() ==> is_hex_text(#[trigger] lines[i])
}

/// The bytes of all hexadecimal payload lines, concatenated in order.
pub open spec fn hex_concat(lines: Seq<Seq<char>>) -> Seq<u8>
    decreases lines.len(),
{
    if lines.len() == 0 {
        Seq::<u8>::empty()
    } else {
        hex_concat(lines.drop_last()) + hex_bytes_of(lines.last())
    }
}

/// Hexadecimal text decoded back to paste text: blank lines are skipped,
/// each line is decoded, and the concatenated bytes are rendered as blocks.
pub fn hex_to_pokepaste(tables: &Tables, hex: String) -> (r: Result<String, ConvertError>)
    ensures
        !all_lines_hex(payload_lines(hex@)) ==> r == Err::<String, ConvertError>(
            ConvertError::HexDecode,
        ),
        all_lines_hex(payload_lines(hex@)) ==> {
            let bytes = hex_concat(payload_lines(hex@));
            &&& bytes.len() % 21 != 0 ==> r == Err::<String, ConvertError>(
                ConvertError::InvalidLength,
            )
            &&& bytes.len() % 21 == 0 && !chunks_in_range(*tables, bytes) ==> r == Err::<
                String,
                ConvertError,
            >(ConvertError::CodeOutOfRange)
            &&& bytes.len() % 21 == 0 && chunks_in_range(*tables, bytes) ==> r is Ok && r->Ok_0@
                == decoded_paste_spec(*tables, bytes)
        },
{
    let chars = text::chars_of(hex.as_str());
    let lines = parser::content_lines(&chars);
    let ghost lseq = payload_lines(hex@);
    let mut flat: Vec<u8> = Vec::new();
    let mut i: usize = 0;
    proof {
        assert(lseq.take(0) =~= Seq::<Seq<char>>::empty());
        assert(flat@ =~= hex_concat(lseq.take(0)));
    }
    while i < lines.len()
        invariant
            i <= lines@.len(),
            lseq == payload_lines(hex@),
            lines.deep_view() == lseq,
            lines@.len() == lseq.len(),
            flat@ == hex_concat(lseq.take(i as int)),
            forall|j: int| 0 <= j < i ==> is_hex_text(#[trigger] lseq[j]),
        decreases lines.len() - i,
    {
        proof {
            assert(lines@[i as int]@ =~= lseq[i as int]);
        }
        let line = text::string_of(&lines[i]);
        match transform::hex_decode(line.as_str()) {
            None => {
                proof {
                    assert(!is_hex_text(payload_lines(hex@)[i as int]));
                    assert(!all_lines_hex(payload_lines(hex@)));
                }
                return Err(ConvertError::HexDecode);
            },
            Some(v) => {
                let ghost pre = flat@;
                let mut k: usize = 0;
                while k < v.len()
                    invariant
                        k <= v@.len(),
                        flat@ == pre + v@.take(k as int),
                    decreases v.len() - k,
                {
                    flat.push(v[k]);
                    proof {
                        assert(v@.take(k + 1 as int) =~= v@.take(k as int).push(v@[k as int]));
                        assert(flat@ =~= pre + v@.take(k + 1 as int));
                    }
                    k = k + 1;
                }
                proof {
                    assert(v@.take(v@.len() as int) =~= v@);
                    assert(lseq.take(i + 1 as int).drop_last() =~= lseq.take(i as int));
                    assert(lseq.take(i + 1 as int).last() == lseq[i as int]);
                }
            },
        }
        i = i + 1;
    }
    proof {
        assert(lseq.take(lseq.len() as int) =~= lseq);
    }
    bytes_to_pokepaste(tables, flat)
}

/// Every payload line is the standard base64 encoding of some bytes.
pub open spec fn all_lines_b64(lines: Seq<Seq<char>>) -> bool {
    forall|i: int| 0 <= i < lines.len() ==> b64_valid(#[trigger] lines[i])
}

/// The bytes of all base64 payload lines, concatenated in order.
pub open spec fn b64_concat(lines: Seq<Seq<char>>) -> Seq<u8>
    decreases lines.len(),
{
    if lines.len() == 0 {
        Seq::<u8>::empty()
    } else {
        b64_concat(lines.drop_last()) + b64_inv(lines.last())
    }
}

/// Base64 text decoded back to paste text: blank lines are skipped, each
/// line is decoded, and the concatenated bytes are rendered as blocks.
pub fn base64_to_pokepaste(tables: &Tables, b64: String) -> (r: Result<String, ConvertError>)
    ensures
        !all_lines_b64(payload_lines(b64@)) ==> r == Err::<String, ConvertError>(
            ConvertError::Base64Decode,
        ),
        all_lines_b64(payload_lines(b64@)) ==> {
            let bytes = b64_concat(payload_lines(b64@));
            &&& bytes.len() % 21 != 0 ==> r == Err::<String, ConvertError>(
                ConvertError::InvalidLength,
            )
            &&& bytes.len() % 21 == 0 && !chunks_in_range(*tables, bytes) ==> r == Err::<
                String,
                ConvertError,
            >(ConvertError::CodeOutOfRange)
            &&& bytes.len() % 21 == 0 && chunks_in_range(*tables, bytes) ==> r is Ok && r->Ok_0@
                == decoded_paste_spec(*tables, bytes)
        },
{
    let chars = text::chars_of(b64.as_str());
    let lines = parser::content_lines(&chars);
    let ghost lseq = payload_lines(b64@);
    let mut flat: Vec<u8> = Vec::new();
    let mut i: usize = 0;
    proof {
        assert(lseq.take(0) =~= Seq::<Seq<char>>::empty());
        assert(flat@ =~= b64_concat(lseq.take(0)));
    }
    while i < lines.len()
        invariant
            i <= lines@.len(),
            lseq == payload_lines(b64@),
            lines.deep_view() == lseq,
            lines@.len() == lseq.len(),
            flat@ == b64_concat(lseq.take(i as int)),
            forall|j: int| 0 <= j < i ==> b64_valid(#[trigger] lseq[j]),
        decreases lines.len() - i,
    {
        proof {
            assert(lines@[i as int]@ =~= lseq[i as int]);
        }
        let line = text::string_of(&lines[i]);
        match transform::b64_decode(line.as_str()) {
            None => {
                proof {
                    assert(!b64_valid(payload_lines(b64@)[i as int]));
                    assert(!all_lines_b64(payload_lines(b64@)));
                }
                return Err(ConvertError::Base64Decode);
            },
            Some(v) => {
                let ghost pre = flat@;
                let mut k: usize = 0;
                while k < v.len()
                    invariant
                        k <= v@.len(),
                        flat@ == pre + v@.take(k as int),
                    decreases v.len() - k,
                {
                    flat.push(v[k]);
                    proof {
                        assert(v@.take(k + 1 as int) =~= v@.take(k as int).push(v@[k as int]));
                        assert(flat@ =~= pre + v@.take(k + 1 as int));
                    }
                    k = k + 1;
                }
                proof {
                    assert(v@.take(v@.len() as int) =~= v@);
                    assert(lseq.take(i + 1 as int).drop_last() =~= lseq.take(i as int));
                    assert(lseq.take(i + 1 as int).last() == lseq[i as int]);
                }
            },
        }
        i = i + 1;
    }
    proof {
        assert(lseq.take(lseq.len() as int) =~= lseq);
    }
    bytes_to_pokepaste(tables, flat)
}

} // verus!
