//! Reading a whole world file: its metadata, the table of section positions, the
//! header, the tiles, chests, signs, NPCs, tile entities, pressure plates, rooms,
//! bestiary, journey powers and footer, each section checked against the table.
use vstd::prelude::*;
use crate::binary::cursor::{Cursor, Stop, take, skip, read_u8, read_bool, read_i16, read_u16, read_i32, read_u32, read_u64, read_vector2, read_string_strict, lemma_string_forward};
use crate::binary::types::Vector2;
use crate::world::binary::{SafeReader, agrees, no_panic};
use crate::world::tile::{Tile, follows, tile_at, lemma_tile_forward};
use crate::world::types::Header;
use crate::world::types::{WorldParseError, FileType, Metadata, Format, World, MAGIC_STRING, Chest, ChestItem, Sign, NPC, NpcView, CreativePower, WeightedPressurePlate, RoomLocation};
use crate::world::header::{HeaderParts, header_at, header_matches, header_a_at, header_b_at, header_c_at};
use crate::world::entity::{Entity, EntityInnerModel};
use crate::world::sections::{chests_at, signs_at, npcs_at, entities_at, plates_at, rooms_at, bestiary_at, powers_at, footer_at, lemma_chests_section, lemma_signs_section, lemma_npcs_section, lemma_counted_sections, lemma_bestiary_section, lemma_footer_section, lemma_powers_stopped};
use crate::world::header::lemma_header_stopped;
use crate::world::types::Bestiary;

verus! {

/// The signature of a world file, the ASCII bytes of "relogic".
pub open spec fn magic() -> Seq<u8> {
    seq![114u8, 101u8, 108u8, 111u8, 103u8, 105u8, 99u8]
}

/// The metadata: the version, then from version 135 the signature, the file type, the
/// revision and a favorite flag (bit 0 of a `u64`); an older file is a world of
/// revision 0. Reading stops at a wrong signature, at a file that is not a world, and
/// at a version above 279.
#[verifier::opaque]
pub open spec fn metadata_at(c: Cursor) -> (Cursor, Metadata) {
    let (c1, version) = read_i32(c);
    let (c2, m) = if version >= 135 {
        let (ca, sig) = take(c1, 7);
        if ca.ok() && sig != magic() {
            (ca.halt(Stop::BadFileSignature), Metadata { version, file_type: FileType::Unknown, revision: 0, favorite: false })
        } else {
            let (cb, t) = read_u8(ca);
            let (cc, revision) = read_u32(cb);
            let (cd, fav) = read_u64(cc);
            (cd, Metadata { version, file_type: FileType::from_code(t), revision, favorite: fav & 1 == 1 })
        }
    } else {
        (c1, Metadata { version, file_type: FileType::World, revision: 0, favorite: false })
    };
    if c2.ok() && m.file_type != FileType::World {
        (c2.halt(Stop::ExpectedWorldType), m)
    } else if c2.ok() && version > 279 {
        (c2.halt(Stop::UnsupportedVersion(version)), m)
    } else {
        (c2, m)
    }
}

fn is_magic(b: &[u8]) -> (r: bool)
    ensures
        r == (b@ == magic()),
{
    if b.len() != 7 {
        return false;
    }
    let r = b[0] == MAGIC_STRING[0] && b[1] == MAGIC_STRING[1] && b[2] == MAGIC_STRING[2] && b[3]
        == MAGIC_STRING[3] && b[4] == MAGIC_STRING[4] && b[5] == MAGIC_STRING[5] && b[6]
        == MAGIC_STRING[6];
    assert(r ==> b@ =~= magic());
    r
}

/// The section positions: an `i16` count (a negative one panics, as the length of a
/// vector), then that many `i32`s.
pub open spec fn positions_at(c: Cursor) -> (Cursor, Seq<i32>) {
    let (c1, n) = read_i16(c);
    if !c1.ok() {
        (c1, Seq::empty())
    } else if n < 0 {
        (c1.halt(Stop::Panic), Seq::empty())
    } else {
        crate::world::header::i32s_at(c1, n as nat)
    }
}

/// `n` flags packed eight to a byte, the first in the lowest bit.
pub open spec fn packed_flags_at(c: Cursor, n: nat) -> (Cursor, Seq<bool>)
    decreases n,
{
    if n == 0 {
        (c, Seq::empty())
    } else {
        let (c1, b) = read_u8(c);
        let k: nat = if n < 8 { n } else { 8 };
        let (c2, rest) = packed_flags_at(c1, (n - k) as nat);
        (c2, Seq::new(k, |i: int| (b >> (i as u8)) & 1 == 1) + rest)
    }
}

/// The format: the section positions, then a `u16` count of tile types and a packed
/// flag for each telling whether tiles of that type store their frame.
#[verifier::opaque]
pub open spec fn format_at(c: Cursor) -> (Cursor, (Seq<i32>, Seq<bool>)) {
    let (c1, positions) = positions_at(c);
    let (c2, n) = read_u16(c1);
    let (c3, importance) = packed_flags_at(c2, n as nat);
    (c3, (positions, importance))
}

/// Reading packed flags leaves the buffer alone and a stopped cursor as it is.
pub proof fn lemma_packed_flags_stopped(c: Cursor, n: nat)
    ensures
        packed_flags_at(c, n).0.buf == c.buf,
        !c.ok() ==> packed_flags_at(c, n).0 == c,
        packed_flags_at(c, n).1.len() == n,
    decreases n,
{
    if n > 0 {
        let k: nat = if n < 8 { n } else { 8 };
        lemma_packed_flags_stopped(read_u8(c).0, (n - k) as nat);
    }
}

fn read_packed_flags(r: &mut SafeReader, n: usize) -> (res: Result<Vec<bool>, WorldParseError>)
    requires
        no_panic(packed_flags_at(old(r).cursor(), n as nat).0),
    ensures
        final(r).buf@ == old(r).buf@,
        final(r).cur == packed_flags_at(old(r).cursor(), n as nat).0.pos,
        agrees(res, packed_flags_at(old(r).cursor(), n as nat).0),
        res matches Ok(v) ==> v@ == packed_flags_at(old(r).cursor(), n as nat).1,
{
    let ghost target = packed_flags_at(r.cursor(), n as nat);
    let mut v: Vec<bool> = Vec::new();
    let mut left: usize = n;
    while left > 0
        invariant
            left <= n,
            r.buf@ == old(r).buf@,
            target == packed_flags_at(old(r).cursor(), n as nat),
            packed_flags_at(r.cursor(), left as nat).0 == target.0,
            v@ + packed_flags_at(r.cursor(), left as nat).1 == target.1,
            no_panic(target.0),
        decreases left,
    {
        let ghost c = r.cursor();
        let k: usize = if left < 8 { left } else { 8 };
        proof {
            lemma_packed_flags_stopped(read_u8(c).0, (left - k) as nat);
        }
        let b = r.read_byte()?;
        let ghost before = v@;
        let mut j: usize = 0;
        while j < k
            invariant
                j <= k <= 8,
                v@ == before + Seq::new(j as nat, |i: int| (b >> (i as u8)) & 1 == 1),
            decreases k - j,
        {
            v.push((b >> (j as u8)) & 1 == 1);
            j = j + 1;
            assert(v@ =~= before + Seq::new(j as nat, |i: int| (b >> (i as u8)) & 1 == 1));
        }
        left = left - k;
        assert(v@ + packed_flags_at(r.cursor(), left as nat).1 =~= before + (Seq::new(
            k as nat,
            |i: int| (b >> (i as u8)) & 1 == 1,
        ) + packed_flags_at(r.cursor(), left as nat).1));
    }
    assert(v@ =~= target.1);
    Ok(v)
}

/// One column of tiles from row `y` down to `height`: each tile read with its repeat
/// count (as an `i16`), followed by that many copies (none when negative), the row
/// moving on by the count plus one. A row beyond the `i32` range panics.
#[verifier::opaque]
pub open spec fn column_at(c: Cursor, fi: Seq<bool>, y: int, height: int) -> (Cursor, Seq<Tile>)
    decreases c.buf.len() - c.pos,
{
    if !c.ok() || y >= height || c.pos < 0 {
        (c, Seq::empty())
    } else {
        let (c1, tr) = tile_at(c, fi);
        let repeat = (tr.1 as i16) as int;
        let next = y + repeat + 1;
        if !c1.ok() {
            (c1, Seq::empty())
        } else if !(c.pos < c1.pos <= c.buf.len() && c1.buf == c.buf) {
            // never taken: a tile takes at least one byte of the buffer
            (c1.halt(Stop::Panic), Seq::empty())
        } else if next > i32::MAX || next < i32::MIN {
            (c1.halt(Stop::Panic), Seq::empty())
        } else {
            let (c2, rest) = column_at(c1, fi, next, height);
            let copies: nat = if repeat > 0 { repeat as nat } else { 0 };
            (c2, Seq::new(copies + 1, |i: int| tr.0) + rest)
        }
    }
}

/// `n` columns.
pub open spec fn columns_at(c: Cursor, fi: Seq<bool>, n: nat, height: int) -> (Cursor, Seq<Seq<Tile>>)
    decreases n,
{
    if n == 0 {
        (c, Seq::empty())
    } else {
        let (c1, col) = column_at(c, fi, 0, height);
        let (c2, rest) = columns_at(c1, fi, (n - 1) as nat, height);
        (c2, seq![col] + rest)
    }
}

/// The tiles of a world `width` columns wide and `height` rows high. A negative width,
/// or a negative height with columns to read, panics (as a vector's length).
#[verifier::opaque]
pub open spec fn tiles_at(c: Cursor, fi: Seq<bool>, width: i32, height: i32) -> (Cursor, Seq<Seq<Tile>>) {
    if c.ok() && (width < 0 || (width > 0 && height < 0)) {
        (c.halt(Stop::Panic), Seq::empty())
    } else if width < 0 {
        (c, Seq::empty())
    } else {
        columns_at(c, fi, width as nat, height as int)
    }
}

/// Reading tiles leaves the buffer alone and a stopped cursor as it is.
pub proof fn lemma_column_stopped(c: Cursor, fi: Seq<bool>, y: int, height: int)
    ensures
        column_at(c, fi, y, height).0.buf == c.buf,
        !c.ok() ==> column_at(c, fi, y, height).0 == c,
    decreases c.buf.len() - c.pos,
{
    reveal(column_at);
    if c.ok() && y < height && c.pos >= 0 {
        lemma_tile_forward(c, fi);
        let (c1, tr) = tile_at(c, fi);
        let next = y + (tr.1 as i16) as int + 1;
        if c1.ok() && c.pos < c1.pos <= c.buf.len() && c1.buf == c.buf && i32::MIN <= next <= i32::MAX {
            lemma_column_stopped(c1, fi, next, height);
        }
    }
}

/// Reading columns leaves the buffer alone and a stopped cursor as it is.
pub proof fn lemma_columns_stopped(c: Cursor, fi: Seq<bool>, n: nat, height: int)
    ensures
        columns_at(c, fi, n, height).0.buf == c.buf,
        !c.ok() ==> columns_at(c, fi, n, height).0 == c,
        columns_at(c, fi, n, height).1.len() == n,
    decreases n,
{
    lemma_column_stopped(c, fi, 0, height);
    if n > 0 {
        lemma_columns_stopped(column_at(c, fi, 0, height).0, fi, (n - 1) as nat, height);
    }
}

fn read_column(r: &mut SafeReader, fi: &[bool], height: i32) -> (res: Result<Vec<Tile>, WorldParseError>)
    requires
        no_panic(column_at(old(r).cursor(), fi@, 0, height as int).0),
    ensures
        final(r).buf@ == old(r).buf@,
        final(r).cur == column_at(old(r).cursor(), fi@, 0, height as int).0.pos,
        agrees(res, column_at(old(r).cursor(), fi@, 0, height as int).0),
        res matches Ok(v) ==> v@ == column_at(old(r).cursor(), fi@, 0, height as int).1,
{
    proof {
        reveal(column_at);
    }
    let ghost target = column_at(r.cursor(), fi@, 0, height as int);
    let mut column: Vec<Tile> = Vec::new();
    let mut y: i32 = 0;
    while y < height
        invariant
            r.buf@ == old(r).buf@,
            target == column_at(old(r).cursor(), fi@, 0, height as int),
            column_at(r.cursor(), fi@, y as int, height as int).0 == target.0,
            column@ + column_at(r.cursor(), fi@, y as int, height as int).1 == target.1,
            no_panic(target.0),
        decreases r.buf@.len() - r.cur,
    {
        let ghost c = r.cursor();
        proof {
            reveal(column_at);
            lemma_tile_forward(c, fi@);
            lemma_column_stopped(tile_at(c, fi@).0, fi@, y + (tile_at(c, fi@).1.1 as i16) as int + 1, height as int);
        }
        let (tile, rep) = Tile::decode(r, fi)?;
        let repeat: i32 = (rep as i16) as i32;
        let ghost before = column@;
        let mut k: i32 = 0;
        while k < repeat
            invariant
                0 <= k,
                k <= repeat || repeat < 0,
                repeat < 0 ==> k == 0,
                column@ == before + Seq::new(k as nat, |i: int| tile),
            decreases repeat - k,
        {
            column.push(tile);
            k = k + 1;
            assert(column@ =~= before + Seq::new(k as nat, |i: int| tile));
        }
        let ghost copies: nat = if repeat > 0 { repeat as nat } else { 0 };
        assert(k == copies);
        let ghost mid = column@;
        column.push(tile);
        assert(column@ =~= before + Seq::new(copies + 1, |i: int| tile)) by {
            assert(mid =~= before + Seq::new(copies, |i: int| tile));
        }
        y = y + (repeat + 1);
        assert(column@ + column_at(r.cursor(), fi@, y as int, height as int).1 =~= before + (Seq::new(
            copies + 1,
            |i: int| tile,
        ) + column_at(r.cursor(), fi@, y as int, height as int).1));
    }
    assert(column@ =~= target.1);
    Ok(column)
}

impl World {
    /// Reads the metadata (see [`metadata_at`]).
    pub fn read_metadata(r: &mut SafeReader) -> (res: Result<Metadata, WorldParseError>)
        requires
            no_panic(metadata_at(old(r).cursor()).0),
        ensures
            follows(*old(r), *final(r), res, metadata_at(old(r).cursor()).0, metadata_at(old(r).cursor()).1),
    {
        proof {
            reveal(metadata_at);
        }
        let version = r.read_i32()?;
        let (file_type, revision, favorite) = if version >= 135 {
            let magic = r.read_bytes(7)?;
            if !is_magic(magic) {
                return Err(WorldParseError::BadFileSignature);
            }
            let t = r.read_byte()?;
            let revision = r.read_u32()?;
            let fav = r.read_u64()?;
            (FileType::from(t), revision, (fav & 1) == 1)
        } else {
            (FileType::World, 0, false)
        };
        if file_type != FileType::World {
            return Err(WorldParseError::ExpectedWorldType);
        }
        if version > 279 {
            return Err(WorldParseError::UnsupportedVersion(version));
        }
        Ok(Metadata { version, file_type, revision, favorite })
    }

    /// Reads the format (see [`format_at`]).
    pub fn read_format(r: &mut SafeReader) -> (res: Result<Format, WorldParseError>)
        requires
            no_panic(format_at(old(r).cursor()).0),
        ensures
            final(r).buf@ == old(r).buf@,
            final(r).cur == format_at(old(r).cursor()).0.pos,
            agrees(res, format_at(old(r).cursor()).0),
            res matches Ok(f) ==> (f.positions@, f.importance@) == format_at(old(r).cursor()).1,
    {
        proof {
            reveal(format_at);
        }
        let ghost c = r.cursor();
        let ghost c1 = positions_at(c).0;
        let ghost c2 = read_u16(c1).0;
        proof {
            crate::world::header::lemma_lists_stopped(read_i16(c).0, read_i16(c).1 as nat);
            lemma_packed_flags_stopped(c2, read_u16(c1).1 as nat);
        }
        let n = r.read_i16()?;
        if n < 0 {
            assert(false);
        }
        let positions = crate::world::header::read_i32s(r, n as usize)?;
        let m = r.read_u16()?;
        let importance = read_packed_flags(r, m as usize)?;
        Ok(Format { importance, positions })
    }

    /// Reads the tiles, column by column (see [`tiles_at`]); `format.importance` tells
    /// which tile types store their frame.
    pub fn read_tiles(r: &mut SafeReader, format: &Format, header: &Header) -> (res: Result<Vec<Vec<Tile>>, WorldParseError>)
        requires
            no_panic(tiles_at(old(r).cursor(), format.importance@, header.width, header.height).0),
        ensures
            final(r).buf@ == old(r).buf@,
            final(r).cur == tiles_at(old(r).cursor(), format.importance@, header.width, header.height).0.pos,
            agrees(res, tiles_at(old(r).cursor(), format.importance@, header.width, header.height).0),
            res matches Ok(t) ==> t@.map_values(|col: Vec<Tile>| col@) == tiles_at(
                old(r).cursor(),
                format.importance@,
                header.width,
                header.height,
            ).1,
    {
        proof {
            reveal(tiles_at);
        }
        let fi = format.importance.as_slice();
        let width = header.width;
        let height = header.height;
        if width < 0 || (width > 0 && height < 0) {
            assert(false);
        }
        let ghost target = tiles_at(r.cursor(), fi@, width, height);
        let mut map: Vec<Vec<Tile>> = Vec::new();
        let mut x: i32 = 0;
        while x < width
            invariant
                0 <= x <= width,
                0 < width ==> 0 <= height,
                width == header.width,
                height == header.height,
                r.buf@ == old(r).buf@,
                fi@ == format.importance@,
                target == tiles_at(old(r).cursor(), fi@, width, height),
                columns_at(r.cursor(), fi@, (width - x) as nat, height as int).0 == target.0,
                map@.map_values(|col: Vec<Tile>| col@) + columns_at(r.cursor(), fi@, (width - x) as nat, height as int).1 == target.1,
                no_panic(target.0),
            decreases width - x,
        {
            let ghost c = r.cursor();
            proof {
                lemma_column_stopped(c, fi@, 0, height as int);
                lemma_columns_stopped(column_at(c, fi@, 0, height as int).0, fi@, (width - x - 1) as nat, height as int);
            }
            let column = read_column(r, fi, height)?;
            let ghost before = map@.map_values(|col: Vec<Tile>| col@);
            map.push(column);
            x = x + 1;
            assert(map@.map_values(|col: Vec<Tile>| col@) =~= before.push(column@));
            assert(map@.map_values(|col: Vec<Tile>| col@) + columns_at(r.cursor(), fi@, (width - x) as nat, height as int).1
                =~= before + (seq![column@] + columns_at(r.cursor(), fi@, (width - x) as nat, height as int).1));
        }
        assert(map@.map_values(|col: Vec<Tile>| col@) =~= target.1);
        Ok(map)
    }
}

// ---------------------------------------------------------------------------------
// The whole file

/// A section must end where the table of positions says: reading stops, naming the
/// section, when it does not. A missing table entry panics (it indexes the table).
pub open spec fn check_position(c: Cursor, positions: Seq<i32>, k: int, section: Seq<char>) -> Cursor {
    if !c.ok() {
        c
    } else if !(0 <= k < positions.len()) {
        c.halt(Stop::Panic)
    } else if c.pos != (positions[k] as usize) as int {
        c.halt(Stop::PositionCheckFailed(section))
    } else {
        c
    }
}

/// What the sections of a world file hold.
pub struct WorldParts {
    pub metadata: Metadata,
    pub format: (Seq<i32>, Seq<bool>),
    pub header: HeaderParts,
    pub tiles: Seq<Seq<Tile>>,
    pub chests: Seq<(i32, i32, Seq<char>, Seq<ChestItem>)>,
    pub signs: Seq<(i32, i32, Seq<char>)>,
    pub npcs: Seq<NpcView>,
    pub entities: Seq<(i32, i16, i16, EntityInnerModel)>,
    pub plates: Seq<(i32, i32)>,
    pub rooms: Seq<(i32, i32, i32)>,
    pub bestiary: (Seq<(Seq<char>, i32)>, Seq<Seq<char>>, Seq<Seq<char>>),
    pub powers: Seq<CreativePower>,
}

/// The sections from the tile entities on, in a file of version `v`: tile entities
/// from version 116 (reading those of versions before 122 panics, as not implemented),
/// pressure plates from 170, rooms from 189, the bestiary (reading it before version 210
/// panics, as not implemented), journey powers from 220, each checked against its table
/// entry.
#[verifier::opaque]
pub open spec fn late_sections_at(c: Cursor, v: i32, positions: Seq<i32>) -> (Cursor, (
    Seq<(i32, i16, i16, EntityInnerModel)>,
    Seq<(i32, i32)>,
    Seq<(i32, i32, i32)>,
    (Seq<(Seq<char>, i32)>, Seq<Seq<char>>, Seq<Seq<char>>),
    Seq<CreativePower>,
)) {
    let (c8, entities) = if v >= 116 {
        if v >= 122 {
            let (ce, e) = entities_at(c);
            (check_position(ce, positions, 6, "entities"@), e)
        } else {
            (c.halt(Stop::Panic), Seq::empty())
        }
    } else {
        (c, Seq::empty())
    };
    let (c9, plates) = if v >= 170 {
        let (cp, p) = plates_at(c8);
        (check_position(cp, positions, 7, "weighted_pressure_plates"@), p)
    } else {
        (c8, Seq::empty())
    };
    let (c10, rooms) = if v >= 189 {
        let (cr, rl) = rooms_at(c9);
        (check_position(cr, positions, 8, "room_locations"@), rl)
    } else {
        (c9, Seq::empty())
    };
    let (c11, bestiary) = if v >= 210 {
        let (cb, b) = bestiary_at(c10);
        (check_position(cb, positions, 9, "bestiary"@), b)
    } else {
        (c10.halt(Stop::Panic), (Seq::empty(), Seq::empty(), Seq::empty()))
    };
    let (c12, powers) = if v >= 220 {
        let (cp, p) = powers_at(c11);
        (check_position(cp, positions, 10, "creative_powers"@), p)
    } else {
        (c11, Seq::empty())
    };
    (c12, (entities, plates, rooms, bestiary, powers))
}

/// A world file read from its start: metadata, format, header, tiles, chests, signs,
/// NPCs, each checked against the table of positions, the later sections, and the
/// footer, which must repeat the header's name and id.
#[verifier::opaque]
pub open spec fn world_at(c: Cursor) -> (Cursor, WorldParts) {
    let c0 = c.goto(0);
    let (c1, metadata) = metadata_at(c0);
    let (c2, format) = format_at(c1);
    let v = metadata.version;
    let (c3, header) = header_at(check_position(c2, format.0, 0, "format"@), v);
    let (c4, tiles) = tiles_at(check_position(c3, format.0, 1, "header"@), format.1, header.p1.6, header.p1.5);
    let (c5, chests) = chests_at(check_position(c4, format.0, 2, "tiles"@));
    let (c6, signs) = signs_at(check_position(c5, format.0, 3, "chests"@), tiles);
    let (c7, npcs) = npcs_at(check_position(c6, format.0, 4, "signs"@), v);
    let (c12, late) = late_sections_at(check_position(c7, format.0, 5, "npcs"@), v, format.0);
    let (c13, footer_ok) = footer_at(c12, header.names.0, header.p1.0);
    let c14 = if c13.ok() && !footer_ok { c13.halt(Stop::InvalidFooter) } else { c13 };
    (c14, WorldParts {
        metadata,
        format,
        header,
        tiles,
        chests,
        signs,
        npcs,
        entities: late.0,
        plates: late.1,
        rooms: late.2,
        bestiary: late.3,
        powers: late.4,
    })
}

/// The world `w` holds what the sections `p` hold.
pub open spec fn world_matches(w: World, p: WorldParts) -> bool {
    &&& w.metadata == p.metadata
    &&& (w.format.positions@, w.format.importance@) == p.format
    &&& header_matches(w.header, p.header)
    &&& w.tiles@.map_values(|col: Vec<Tile>| col@) == p.tiles
    &&& w.chests@.map_values(|ch: Chest| ch@) == p.chests
    &&& w.signs@.map_values(|s: Sign| s@) == p.signs
    &&& w.npcs@.map_values(|n: NPC| n@) == p.npcs
    &&& w.entities@.map_values(|e: Entity| (e.id, e.x, e.y, e.inner@)) == p.entities
    &&& w.weighted_pressure_plates@.map_values(|q: WeightedPressurePlate| (q.x, q.y)) == p.plates
    &&& w.room_locations@.map_values(|q: RoomLocation| (q.id, q.x, q.y)) == p.rooms
    &&& w.bestiary@ == p.bestiary
    &&& w.creative_powers@ == p.powers
}

/// A world file: its version, then, from version 88, the world read from the start of
/// the file (see [`world_at`]); older files panic, as not implemented.
pub open spec fn world_file_at(c: Cursor) -> (Cursor, WorldParts) {
    let (c1, version) = read_i32(c);
    if c1.ok() && version < 88 {
        (c1.halt(Stop::Panic), world_at(c1).1)
    } else {
        world_at(c1)
    }
}

fn verify_position(r: &SafeReader, positions: &Vec<i32>, k: usize, section: &str) -> (res: Result<(), WorldParseError>)
    requires
        k < positions@.len(),
    ensures
        res is Ok <==> r.cur as int == (positions@[k as int] as usize) as int,
        res matches Err(e) ==> e matches WorldParseError::PositionCheckFailed(s) && s@ == section@,
{
    if r.get_cur() != positions[k] as usize {
        return Err(WorldParseError::PositionCheckFailed(section.to_owned()));
    }
    Ok(())
}

/// Reading the metadata, the format or the tiles, or checking a position, leaves the
/// buffer alone, and a stopped cursor as it is.
pub proof fn lemma_early_stopped(c: Cursor, fi: Seq<bool>, width: i32, height: i32, positions: Seq<i32>, k: int, section: Seq<char>)
    ensures
        metadata_at(c).0.buf == c.buf,
        !c.ok() ==> metadata_at(c).0 == c,
        format_at(c).0.buf == c.buf,
        !c.ok() ==> format_at(c).0 == c,
        tiles_at(c, fi, width, height).0.buf == c.buf,
        !c.ok() ==> tiles_at(c, fi, width, height).0 == c,
        check_position(c, positions, k, section).buf == c.buf,
        !c.ok() ==> check_position(c, positions, k, section) == c,
        check_position(c, positions, k, section).pos == c.pos,
{
    reveal(metadata_at);
    reveal(format_at);
    reveal(tiles_at);
    let (c1, n) = read_i16(c);
    crate::world::header::lemma_lists_stopped(c1, n as nat);
    let c2 = positions_at(c).0;
    lemma_packed_flags_stopped(read_u16(c2).0, read_u16(c2).1 as nat);
    lemma_columns_stopped(c, fi, width as nat, height as int);
}

/// Reading the late sections leaves the buffer alone, and a stopped cursor as it is.
pub proof fn lemma_late_stopped(c: Cursor, v: i32, positions: Seq<i32>)
    ensures
        late_sections_at(c, v, positions).0.buf == c.buf,
        !c.ok() ==> late_sections_at(c, v, positions).0 == c,
{
    reveal(late_sections_at);
    lemma_counted_sections(c);
    let ce = entities_at(c).0;
    lemma_early_stopped(ce, Seq::empty(), 0, 0, positions, 6, "entities"@);
    let c8 = if v >= 116 { if v >= 122 { check_position(ce, positions, 6, "entities"@) } else { c.halt(Stop::Panic) } } else { c };
    lemma_counted_sections(c8);
    lemma_early_stopped(plates_at(c8).0, Seq::empty(), 0, 0, positions, 7, "weighted_pressure_plates"@);
    let c9 = if v >= 170 { check_position(plates_at(c8).0, positions, 7, "weighted_pressure_plates"@) } else { c8 };
    lemma_counted_sections(c9);
    lemma_early_stopped(rooms_at(c9).0, Seq::empty(), 0, 0, positions, 8, "room_locations"@);
    let c10 = if v >= 189 { check_position(rooms_at(c9).0, positions, 8, "room_locations"@) } else { c9 };
    lemma_bestiary_section(c10);
    lemma_early_stopped(bestiary_at(c10).0, Seq::empty(), 0, 0, positions, 9, "bestiary"@);
    let c11 = if v >= 210 { check_position(bestiary_at(c10).0, positions, 9, "bestiary"@) } else { c10.halt(Stop::Panic) };
    lemma_powers_stopped(c11);
    lemma_early_stopped(powers_at(c11).0, Seq::empty(), 0, 0, positions, 10, "creative_powers"@);
}

fn read_late_sections(r: &mut SafeReader, v: i32, positions: &Vec<i32>) -> (res: Result<(Vec<Entity>, Vec<WeightedPressurePlate>, Vec<RoomLocation>, Bestiary, Vec<CreativePower>), WorldParseError>)
    requires
        no_panic(late_sections_at(old(r).cursor(), v, positions@).0),
    ensures
        final(r).buf@ == old(r).buf@,
        final(r).cur == late_sections_at(old(r).cursor(), v, positions@).0.pos,
        agrees(res, late_sections_at(old(r).cursor(), v, positions@).0),
        res matches Ok(t) ==> {
            let l = late_sections_at(old(r).cursor(), v, positions@).1;
            &&& t.0@.map_values(|e: Entity| (e.id, e.x, e.y, e.inner@)) == l.0
            &&& t.1@.map_values(|q: WeightedPressurePlate| (q.x, q.y)) == l.1
            &&& t.2@.map_values(|q: RoomLocation| (q.id, q.x, q.y)) == l.2
            &&& t.3@ == l.3
            &&& t.4@ == l.4
        },
{
    proof {
        reveal(late_sections_at);
    }
    let ghost c = r.cursor();
    let ghost ce = entities_at(c).0;
    let ghost c8 = if v >= 116 { if v >= 122 { check_position(ce, positions@, 6, "entities"@) } else { c.halt(Stop::Panic) } } else { c };
    let ghost cp = plates_at(c8).0;
    let ghost c9 = if v >= 170 { check_position(cp, positions@, 7, "weighted_pressure_plates"@) } else { c8 };
    let ghost cr = rooms_at(c9).0;
    let ghost c10 = if v >= 189 { check_position(cr, positions@, 8, "room_locations"@) } else { c9 };
    let ghost cb = bestiary_at(c10).0;
    let ghost c11 = if v >= 210 { check_position(cb, positions@, 9, "bestiary"@) } else { c10.halt(Stop::Panic) };
    let ghost cw = powers_at(c11).0;
    proof {
        lemma_counted_sections(c);
        lemma_counted_sections(c8);
        lemma_counted_sections(c9);
        lemma_bestiary_section(c10);
        lemma_powers_stopped(c11);
        lemma_early_stopped(ce, Seq::empty(), 0, 0, positions@, 6, "entities"@);
        lemma_early_stopped(cp, Seq::empty(), 0, 0, positions@, 7, "weighted_pressure_plates"@);
        lemma_early_stopped(cr, Seq::empty(), 0, 0, positions@, 8, "room_locations"@);
        lemma_early_stopped(cb, Seq::empty(), 0, 0, positions@, 9, "bestiary"@);
        lemma_early_stopped(cw, Seq::empty(), 0, 0, positions@, 10, "creative_powers"@);
    }
    let entities = if v >= 116 {
        if v >= 122 {
            let e = World::read_entities(r)?;
            if positions.len() < 7 {
                assert(false);
            }
            verify_position(r, positions, 6, "entities")?;
            e
        } else {
            assert(false);
            Vec::new()
        }
    } else {
        Vec::new()
    };
    assert(r.cursor() == c8);
    let plates = if v >= 170 {
        let p = World::read_weighted_pressure_plates(r)?;
        if positions.len() < 8 {
            assert(false);
        }
        verify_position(r, positions, 7, "weighted_pressure_plates")?;
        p
    } else {
        Vec::new()
    };
    assert(r.cursor() == c9);
    let rooms = if v >= 189 {
        let rl = World::read_room_locations(r)?;
        if positions.len() < 9 {
            assert(false);
        }
        verify_position(r, positions, 8, "room_locations")?;
        rl
    } else {
        Vec::new()
    };
    assert(r.cursor() == c10);
    let bestiary = if v >= 210 {
        let b = World::read_bestiary(r)?;
        if positions.len() < 10 {
            assert(false);
        }
        verify_position(r, positions, 9, "bestiary")?;
        b
    } else {
        assert(false);
        Bestiary { kills: Vec::new(), sights: Vec::new(), chats: Vec::new() }
    };
    assert(r.cursor() == c11);
    let powers = if v >= 220 {
        let p = World::read_creative_powers(r)?;
        if positions.len() < 11 {
            assert(false);
        }
        verify_position(r, positions, 10, "creative_powers")?;
        p
    } else {
        Vec::new()
    };
    Ok((entities, plates, rooms, bestiary, powers))
}

/// Reading a world file leaves the buffer alone, and a stopped cursor as it is.
pub proof fn lemma_world_stopped(c: Cursor)
    ensures
        world_at(c).0.buf == c.buf,
        !c.ok() ==> world_at(c).0 == c,
{
    reveal(world_at);
    let c0 = c.goto(0);
    let (c1, md) = metadata_at(c0);
    let (c2, fm) = format_at(c1);
    let k2 = check_position(c2, fm.0, 0, "format"@);
    let (c3, hp) = header_at(k2, md.version);
    let k3 = check_position(c3, fm.0, 1, "header"@);
    let (c4, tl) = tiles_at(k3, fm.1, hp.p1.6, hp.p1.5);
    let k4 = check_position(c4, fm.0, 2, "tiles"@);
    let c5 = chests_at(k4).0;
    let k5 = check_position(c5, fm.0, 3, "chests"@);
    let c6 = signs_at(k5, tl).0;
    let k6 = check_position(c6, fm.0, 4, "signs"@);
    let c7 = npcs_at(k6, md.version).0;
    let k7 = check_position(c7, fm.0, 5, "npcs"@);
    let c12 = late_sections_at(k7, md.version, fm.0).0;
    lemma_early_stopped(c0, fm.1, hp.p1.6, hp.p1.5, fm.0, 0, "format"@);
    lemma_early_stopped(c1, fm.1, hp.p1.6, hp.p1.5, fm.0, 0, "format"@);
    lemma_early_stopped(c2, fm.1, hp.p1.6, hp.p1.5, fm.0, 0, "format"@);
    lemma_header_stopped(k2, md.version);
    lemma_early_stopped(c3, fm.1, hp.p1.6, hp.p1.5, fm.0, 1, "header"@);
    lemma_early_stopped(k3, fm.1, hp.p1.6, hp.p1.5, fm.0, 1, "header"@);
    lemma_early_stopped(c4, fm.1, hp.p1.6, hp.p1.5, fm.0, 2, "tiles"@);
    lemma_chests_section(k4);
    lemma_early_stopped(c5, fm.1, hp.p1.6, hp.p1.5, fm.0, 3, "chests"@);
    lemma_signs_section(k5, tl);
    lemma_early_stopped(c6, fm.1, hp.p1.6, hp.p1.5, fm.0, 4, "signs"@);
    lemma_npcs_section(k6, md.version);
    lemma_early_stopped(c7, fm.1, hp.p1.6, hp.p1.5, fm.0, 5, "npcs"@);
    lemma_late_stopped(k7, md.version, fm.0);
    lemma_footer_section(c12, hp.names.0, hp.p1.0);
}

impl World {
    /// Reads a world file from its start (see [`world_at`]), whatever the reader's
    /// position.
    #[verifier::rlimit(60)]
    pub fn read_world_v2(r: &mut SafeReader) -> (res: Result<World, WorldParseError>)
        requires
            no_panic(world_at(old(r).cursor()).0),
        ensures
            final(r).buf@ == old(r).buf@,
            final(r).cur == world_at(old(r).cursor()).0.pos,
            agrees(res, world_at(old(r).cursor()).0),
            res matches Ok(w) ==> world_matches(w, world_at(old(r).cursor()).1),
    {
        proof {
            reveal(world_at);
        }
        let ghost c = r.cursor();
        let ghost wp = world_at(c);
        let ghost c0 = c.goto(0);
        let ghost (c1, md) = metadata_at(c0);
        let ghost (c2, fm) = format_at(c1);
        let ghost k2 = check_position(c2, fm.0, 0, "format"@);
        let ghost (c3, hp) = header_at(k2, md.version);
        let ghost k3 = check_position(c3, fm.0, 1, "header"@);
        let ghost (c4, tl) = tiles_at(k3, fm.1, hp.p1.6, hp.p1.5);
        let ghost k4 = check_position(c4, fm.0, 2, "tiles"@);
        let ghost c5 = chests_at(k4).0;
        let ghost k5 = check_position(c5, fm.0, 3, "chests"@);
        let ghost c6 = signs_at(k5, tl).0;
        let ghost k6 = check_position(c6, fm.0, 4, "signs"@);
        let ghost c7 = npcs_at(k6, md.version).0;
        let ghost k7 = check_position(c7, fm.0, 5, "npcs"@);
        let ghost c12 = late_sections_at(k7, md.version, fm.0).0;
        proof {
            lemma_early_stopped(c0, fm.1, hp.p1.6, hp.p1.5, fm.0, 0, "format"@);
            lemma_early_stopped(c1, fm.1, hp.p1.6, hp.p1.5, fm.0, 0, "format"@);
            lemma_early_stopped(c2, fm.1, hp.p1.6, hp.p1.5, fm.0, 0, "format"@);
            lemma_header_stopped(k2, md.version);
            lemma_early_stopped(c3, fm.1, hp.p1.6, hp.p1.5, fm.0, 1, "header"@);
            lemma_early_stopped(k3, fm.1, hp.p1.6, hp.p1.5, fm.0, 1, "header"@);
            lemma_early_stopped(c4, fm.1, hp.p1.6, hp.p1.5, fm.0, 2, "tiles"@);
            lemma_chests_section(k4);
            lemma_early_stopped(c5, fm.1, hp.p1.6, hp.p1.5, fm.0, 3, "chests"@);
            lemma_signs_section(k5, tl);
            lemma_early_stopped(c6, fm.1, hp.p1.6, hp.p1.5, fm.0, 4, "signs"@);
            lemma_npcs_section(k6, md.version);
            lemma_early_stopped(c7, fm.1, hp.p1.6, hp.p1.5, fm.0, 5, "npcs"@);
            lemma_late_stopped(k7, md.version, fm.0);
            lemma_footer_section(c12, hp.names.0, hp.p1.0);
        }
        r.seek(0);
        assert(r.cursor() == c0);
        let metadata = Self::read_metadata(r)?;
        let format = Self::read_format(r)?;
        if format.positions.len() < 1 {
            assert(false);
        }
        verify_position(r, &format.positions, 0, "format")?;
        let header = Self::read_header(r, &metadata)?;
        if format.positions.len() < 2 {
            assert(false);
        }
        verify_position(r, &format.positions, 1, "header")?;
        let tiles = Self::read_tiles(r, &format, &header)?;
        if format.positions.len() < 3 {
            assert(false);
        }
        verify_position(r, &format.positions, 2, "tiles")?;
        let chests = Self::read_chests(r)?;
        if format.positions.len() < 4 {
            assert(false);
        }
        verify_position(r, &format.positions, 3, "chests")?;
        let signs = Self::read_signs(r, tiles.as_slice())?;
        if format.positions.len() < 5 {
            assert(false);
        }
        verify_position(r, &format.positions, 4, "signs")?;
        let npcs = Self::read_npcs(r, &metadata)?;
        if format.positions.len() < 6 {
            assert(false);
        }
        verify_position(r, &format.positions, 5, "npcs")?;
        let late = read_late_sections(r, metadata.version, &format.positions)?;
        let (entities, weighted_pressure_plates, room_locations, bestiary, creative_powers) = late;
        if Self::validate_footer(r, &header)? {
            Ok(World {
                metadata,
                format,
                header,
                tiles,
                chests,
                signs,
                npcs,
                entities,
                weighted_pressure_plates,
                room_locations,
                bestiary,
                creative_powers,
            })
        } else {
            Err(WorldParseError::InvalidFooter)
        }
    }

    /// Reads a world file (see [`world_file_at`]).
    pub fn from_reader(r: &mut SafeReader) -> (res: Result<World, WorldParseError>)
        requires
            no_panic(world_file_at(old(r).cursor()).0),
        ensures
            final(r).buf@ == old(r).buf@,
            final(r).cur == world_file_at(old(r).cursor()).0.pos,
            agrees(res, world_file_at(old(r).cursor()).0),
            res matches Ok(w) ==> world_matches(w, world_file_at(old(r).cursor()).1),
    {
        proof {
            lemma_world_stopped(read_i32(old(r).cursor()).0);
        }
        let version = r.read_i32()?;
        if version >= 88 {
            Self::read_world_v2(r)
        } else {
            assert(false);
            Err(WorldParseError::UnexpectedEOI)
        }
    }

    /// Worlds before version 141 do not store their creation time; the file's creation
    /// time (in seconds since the Unix epoch) stands for it.
    pub fn apply_file_creation_time(&mut self, seconds: i64)
        ensures
            old(self).metadata.version < 141 ==> final(self).header.creation_time == seconds,
            old(self).metadata.version < 141 ==> (Header { creation_time: 0, ..final(self).header }) == (Header { creation_time: 0, ..old(self).header }),
            old(self).metadata.version >= 141 ==> final(self).header == old(self).header,
            final(self).metadata == old(self).metadata,
            final(self).format == old(self).format,
            final(self).tiles == old(self).tiles,
            final(self).chests == old(self).chests,
            final(self).signs == old(self).signs,
            final(self).npcs == old(self).npcs,
            final(self).entities == old(self).entities,
            final(self).weighted_pressure_plates == old(self).weighted_pressure_plates,
            final(self).room_locations == old(self).room_locations,
            final(self).bestiary == old(self).bestiary,
            final(self).creative_powers == old(self).creative_powers,
    {
        if self.metadata.version < 141 {
            self.header.creation_time = seconds;
        }
    }
}

} // verus!
