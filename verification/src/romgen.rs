//! The ROM as a block schematic: barrels whose fill levels hold the bits of
//! the assembled bytes.
//!
//! The bytes are cut into pages. A page is drawn as eight by eight barrels
//! on every second block of a plane, and the planes of the pages stand two
//! blocks apart, the first page farthest out. The barrel of row `r` and
//! column `c` of a page gets its fill level from the bytes `r`, `r + 8`,
//! `r + 16` and `r + 24` of the page, each shifted right by `7 - c`.
//!
//! The schematic is sixteen blocks wide and long and two blocks high for
//! each page, and a barrel of column `c` stands at height `2 c`, so only
//! a ROM of eight pages has room for all its barrels; bytes that fill less
//! than one page give an empty schematic.

use vstd::prelude::*;

verus! {

/// The number of rows of barrels of a page, and of columns.
pub const GRID: usize = 8;

/// The number of bytes of a page that its barrels read.
pub const PAGE_BYTES_READ: usize = 32;

/// The number of pages whose barrels fit into the schematic.
pub const PAGES: usize = 8;

/// The width and the length of the schematic, in blocks.
pub const SIDE: u16 = 16;

/// Why bytes cannot be drawn as a schematic.
#[derive(Debug, Clone, Copy, PartialEq, Eq, Structural)]
pub enum RomError {
    /// The page size is zero.
    EmptyPage,
    /// The bytes fill some pages, but not eight.
    PageCount,
    /// A page has fewer bytes than its barrels read.
    ShortPage,
    /// The fill level of the barrel of this page, row and column is zero or
    /// above 255.
    FillLevel { page: usize, row: usize, column: usize },
}

/// `mcschem::Schematic`: a box of blocks and block entities. Its fields are
/// private to its crate, so this library speaks of it through
/// [`schematic_size`] and [`schematic_barrels`].
#[verifier::external_type_specification]
#[verifier::external_body]
pub struct ExSchematic(mcschem::Schematic);

/// The width, the height and the length that a schematic was made with.
pub uninterp spec fn schematic_size(schem: mcschem::Schematic) -> (nat, nat, nat);

/// The barrels of a schematic: the fill level that each position was given
/// a barrel for.
pub uninterp spec fn schematic_barrels(schem: mcschem::Schematic) -> Map<(nat, nat, nat), nat>;

/// Calls `mcschem::Schematic::new` with the data version
/// `mcschem::data_version::MC_1_18_2`. It multiplies the three sizes as
/// `u16`, first width by height, so both products must fit. The result has
/// the given sizes, holds air everywhere and has no block entity, so no
/// barrel.
#[verifier::external_body]
fn new_schematic(size_x: u16, size_y: u16, size_z: u16) -> (schem: mcschem::Schematic)
    requires
        size_x * size_y <= u16::MAX,
        size_x * size_y * size_z <= u16::MAX,
    ensures
        schematic_size(schem) == (size_x as nat, size_y as nat, size_z as nat),
        schematic_barrels(schem).dom().is_empty(),
{
    mcschem::Schematic::new(mcschem::data_version::MC_1_18_2, size_x, size_y, size_z)
}

/// Calls `mcschem::Schematic::set_block_entity` with the block
/// `minecraft:barrel[facing=north,open=false]`, parsed by `mcschem::Block`'s
/// `from_str`, and a barrel entity whose items are
/// `mcschem::utils::barrel_ss(level)`. `set_block_entity` panics on a
/// position outside the schematic, and `barrel_ss` subtracts below zero on
/// level zero, so neither is admitted. The call puts the block and the
/// entity at the position, in place of what was there, and changes nothing
/// else.
#[verifier::external_body]
fn put_barrel(schem: &mut mcschem::Schematic, x: usize, y: usize, z: usize, level: usize)
    requires
        x < schematic_size(*old(schem)).0,
        y < schematic_size(*old(schem)).1,
        z < schematic_size(*old(schem)).2,
        1 <= level <= 255,
    ensures
        schematic_size(*final(schem)) == schematic_size(*old(schem)),
        schematic_barrels(*final(schem)) == schematic_barrels(*old(schem)).insert(
            (x as nat, y as nat, z as nat),
            level as nat,
        ),
{
    let block = "minecraft:barrel[facing=north,open=false]".parse::<mcschem::Block>().unwrap();
    let items = mcschem::utils::barrel_ss(level);
    schem.set_block_entity(x, y, z, block, mcschem::BlockEntity::Barrel { items });
}

/// The fill level of the barrel of a row and a column of a page: the sum of
/// four bytes of the page, each shifted right to drop the bits below the
/// column's, and the second, third and fourth shifted left again by one,
/// two and three within the byte.
pub open spec fn fill_level(page: Seq<u8>, row: int, column: int) -> int
    recommends
        0 <= row < GRID,
        0 <= column < GRID,
        page.len() >= PAGE_BYTES_READ,
{
    let s = (7 - column) as u8;
    (page[row] >> s) + ((page[row + 8] >> s) << 1u8) + ((page[row + 16] >> s) << 2u8) + ((page[row
        + 24] >> s) << 3u8)
}

/// The page of the given index.
pub open spec fn page_of(content: Seq<u8>, bytes_per_page: int, index: int) -> Seq<u8> {
    content.subrange(index * bytes_per_page, (index + 1) * bytes_per_page)
}

/// The number of the step at which the barrel of a page, a row and a
/// column is placed: pages in their order, in each the rows, in each row
/// the columns.
pub open spec fn step_of(page: int, row: int, column: int) -> int {
    (page * GRID + row) * GRID + column
}

/// The number of barrels of a ROM.
pub const BARRELS: usize = 512;

/// True where the barrel that is placed at `step` has a fill level between
/// 1 and 255.
pub open spec fn level_fits(content: Seq<u8>, bytes_per_page: int, step: int) -> bool {
    let level = fill_level(
        page_of(content, bytes_per_page, step / 64),
        (step / 8) % 8,
        step % 8,
    );
    1 <= level <= 255
}

/// True where `step` is the first step whose barrel has a fill level of
/// zero or above 255.
pub open spec fn is_first_misfit(content: Seq<u8>, bytes_per_page: int, step: int) -> bool {
    &&& 0 <= step < BARRELS
    &&& !level_fits(content, bytes_per_page, step)
    &&& forall|earlier: int| 0 <= earlier < step ==> level_fits(content, bytes_per_page, earlier)
}

/// What keeps bytes from being drawn, if anything does: a page size of
/// zero; else, unless the bytes fill less than one page, a number of pages
/// other than eight; else pages shorter than the bytes that are read of
/// each; else the first barrel whose fill level is zero or above 255.
pub open spec fn rom_fault(content: Seq<u8>, bytes_per_page: int) -> Option<RomError> {
    if bytes_per_page == 0 {
        Some(RomError::EmptyPage)
    } else if content.len() / (bytes_per_page as nat) == 0 {
        None
    } else if content.len() / (bytes_per_page as nat) != PAGES {
        Some(RomError::PageCount)
    } else if bytes_per_page < PAGE_BYTES_READ {
        Some(RomError::ShortPage)
    } else if exists|step: int| is_first_misfit(content, bytes_per_page, step) {
        let first = choose|step: int| is_first_misfit(content, bytes_per_page, step);
        Some(
            (RomError::FillLevel {
                page: (first / 64) as usize,
                row: ((first / 8) % 8) as usize,
                column: (first % 8) as usize,
            }),
        )
    } else {
        None
    }
}

/// The barrels of the bytes: one on every position of even coordinates
/// below sixteen in width and height and below twice the number of pages
/// in length. The page is counted from the far end of the length, the row
/// along the width and the column along the height.
pub open spec fn rom_barrels(content: Seq<u8>, bytes_per_page: int) -> Map<(nat, nat, nat), nat> {
    let pages = content.len() as int / bytes_per_page;
    Map::new(
        |p: (nat, nat, nat)|
            p.0 % 2 == 0 && p.0 < 2 * GRID && p.1 % 2 == 0 && p.1 < 2 * GRID && p.2 % 2 == 0
                && p.2 < 2 * pages,
        |p: (nat, nat, nat)|
            fill_level(
                page_of(content, bytes_per_page, pages - 1 - p.2 / 2),
                p.0 as int / 2,
                p.1 as int / 2,
            ) as nat,
    )
}

/// The barrels that are placed before `step`.
spec fn barrels_before(content: Seq<u8>, bytes_per_page: int, step: int) -> Map<
    (nat, nat, nat),
    nat,
> {
    rom_barrels(content, bytes_per_page).restrict(
        Set::new(
            |p: (nat, nat, nat)|
                step_of(PAGES - 1 - p.2 as int / 2, p.0 as int / 2, p.1 as int / 2) < step,
        ),
    )
}

/// Returns the fill level of the barrel of a row and a column of the page
/// that starts at `start`.
fn level_at(content: &[u8], start: usize, row: usize, column: usize) -> (level: usize)
    requires
        row < GRID,
        column < GRID,
        start + PAGE_BYTES_READ <= content.len(),
    ensures
        level == fill_level(content@.skip(start as int), row as int, column as int),
{
    let s: u8 = 7 - column as u8;
    let a: u8 = content[start + row] >> s;
    let b: u8 = (content[start + row + 8] >> s) << 1u8;
    let c: u8 = (content[start + row + 16] >> s) << 2u8;
    let d: u8 = (content[start + row + 24] >> s) << 3u8;
    a as usize + b as usize + c as usize + d as usize
}

/// Draws the bytes as a schematic.
///
/// Bytes of less than one page give an empty schematic, and bytes of eight
/// pages one with the barrels of [`rom_barrels`]. Every other input is an
/// error: first a page size of zero, then a number of pages other than
/// eight, then pages shorter than 32 bytes, then the first barrel, in the
/// order in which they are placed, whose fill level is zero or above 255.
pub fn generate_schem(content: &[u8], bytes_per_page: usize) -> (r: Result<
    mcschem::Schematic,
    RomError,
>)
    ensures
        match r {
            Ok(schem) => {
                &&& rom_fault(content@, bytes_per_page as int) is None
                &&& schematic_size(schem) == (
                    SIDE as nat,
                    2 * (content.len() / bytes_per_page) as nat,
                    SIDE as nat,
                )
                &&& schematic_barrels(schem) == rom_barrels(content@, bytes_per_page as int)
            },
            Err(e) => rom_fault(content@, bytes_per_page as int) == Some(e),
        },
{
    if bytes_per_page == 0 {
        return Err(RomError::EmptyPage);
    }
    let pages: usize = content.len() / bytes_per_page;
    if pages == 0 {
        let schem = new_schematic(SIDE, 0, SIDE);
        assert(schematic_barrels(schem) =~= rom_barrels(content@, bytes_per_page as int));
        return Ok(schem);
    }
    if pages != PAGES {
        return Err(RomError::PageCount);
    }
    if bytes_per_page < PAGE_BYTES_READ {
        return Err(RomError::ShortPage);
    }
    assert(PAGES * bytes_per_page <= content.len()) by (nonlinear_arith)
        requires
            content.len() / bytes_per_page == PAGES,
            bytes_per_page > 0,
    ;
    let mut schem = new_schematic(SIDE, 16, SIDE);
    let mut page: usize = 0;
    while page < PAGES
        invariant
            page <= PAGES,
            bytes_per_page >= PAGE_BYTES_READ,
            content.len() / bytes_per_page == PAGES,
            PAGES * bytes_per_page <= content.len(),
            schematic_size(schem) == (16nat, 16nat, 16nat),
            schematic_barrels(schem) =~= barrels_before(
                content@,
                bytes_per_page as int,
                step_of(page as int, 0, 0),
            ),
            forall|earlier: int|
                0 <= earlier < step_of(page as int, 0, 0) ==> level_fits(
                    content@,
                    bytes_per_page as int,
                    earlier,
                ),
        decreases PAGES - page,
    {
        assert(page * bytes_per_page + bytes_per_page <= PAGES * bytes_per_page)
            by (nonlinear_arith)
            requires
                page < PAGES,
        ;
        let start: usize = page * bytes_per_page;
        let z: usize = (PAGES - page - 1) * 2;
        let mut row: usize = 0;
        while row < GRID
            invariant
                row <= GRID,
                page < PAGES,
                start == page * bytes_per_page,
                start + bytes_per_page <= content.len(),
                z == (PAGES - page - 1) * 2,
                bytes_per_page >= PAGE_BYTES_READ,
                content.len() / bytes_per_page == PAGES,
                schematic_size(schem) == (16nat, 16nat, 16nat),
                schematic_barrels(schem) =~= barrels_before(
                    content@,
                    bytes_per_page as int,
                    step_of(page as int, row as int, 0),
                ),
                forall|earlier: int|
                    0 <= earlier < step_of(page as int, row as int, 0) ==> level_fits(
                        content@,
                        bytes_per_page as int,
                        earlier,
                    ),
            decreases GRID - row,
        {
            let mut column: usize = 0;
            while column < GRID
                invariant
                    column <= GRID,
                    row < GRID,
                    page < PAGES,
                    start == page * bytes_per_page,
                    start + bytes_per_page <= content.len(),
                    z == (PAGES - page - 1) * 2,
                    bytes_per_page >= PAGE_BYTES_READ,
                    content.len() / bytes_per_page == PAGES,
                    schematic_size(schem) == (16nat, 16nat, 16nat),
                    schematic_barrels(schem) =~= barrels_before(
                        content@,
                        bytes_per_page as int,
                        step_of(page as int, row as int, column as int),
                    ),
                    forall|earlier: int|
                        0 <= earlier < step_of(page as int, row as int, column as int)
                            ==> level_fits(content@, bytes_per_page as int, earlier),
                decreases GRID - column,
            {
                let ghost step = step_of(page as int, row as int, column as int);
                let level = level_at(content, start, row, column);
                proof {
                    assert(step / 64 == page && (step / 8) % 8 == row && step % 8 == column);
                    lemma_page_start(content@, bytes_per_page as int, page as int, row as int, column as int);
                }
                if level < 1 || level > 255 {
                    proof {
                        assert(is_first_misfit(content@, bytes_per_page as int, step));
                    }
                    return Err(RomError::FillLevel { page, row, column });
                }
                let ghost before = schematic_barrels(schem);
                put_barrel(&mut schem, row * 2, column * 2, z, level);
                proof {
                    assert(level_fits(content@, bytes_per_page as int, step));
                    lemma_step_placed(content@, bytes_per_page as int, page as int, row as int, column as int, before);
                }
                column += 1;
            }
            row += 1;
        }
        page += 1;
    }
    proof {
        assert(schematic_barrels(schem) =~= rom_barrels(content@, bytes_per_page as int));
        assert(rom_fault(content@, bytes_per_page as int) is None);
    }
    Ok(schem)
}

/// The fill level read behind the start of a page is that of the page.
proof fn lemma_page_start(content: Seq<u8>, bytes_per_page: int, page: int, row: int, column: int)
    requires
        0 <= page,
        0 <= row < GRID,
        0 <= column < GRID,
        bytes_per_page >= PAGE_BYTES_READ,
        page * bytes_per_page + bytes_per_page <= content.len(),
    ensures
        fill_level(content.skip(page * bytes_per_page), row, column) == fill_level(
            page_of(content, bytes_per_page, page),
            row,
            column,
        ),
{
    assert(page * bytes_per_page >= 0 && (page + 1) * bytes_per_page == page * bytes_per_page
        + bytes_per_page) by (nonlinear_arith)
        requires
            0 <= page,
            bytes_per_page >= 0,
    ;
}

/// Placing the barrel of a step adds it to the barrels that were placed
/// before the step.
proof fn lemma_step_placed(
    content: Seq<u8>,
    bytes_per_page: int,
    page: int,
    row: int,
    column: int,
    before: Map<(nat, nat, nat), nat>,
)
    requires
        0 <= page < PAGES,
        0 <= row < GRID,
        0 <= column < GRID,
        bytes_per_page > 0,
        content.len() as int / bytes_per_page == PAGES,
        before =~= barrels_before(content, bytes_per_page, step_of(page, row, column)),
        1 <= fill_level(page_of(content, bytes_per_page, page), row, column),
    ensures
        before.insert(
            ((row * 2) as nat, (column * 2) as nat, ((PAGES - page - 1) * 2) as nat),
            fill_level(page_of(content, bytes_per_page, page), row, column) as nat,
        ) =~= barrels_before(content, bytes_per_page, step_of(page, row, column) + 1),
{
}

} // verus!
