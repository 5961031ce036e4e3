use carbon1dot1_assembler::romgen::{generate_schem, RomError};

fn page() -> Vec<u8> {
    let mut p = vec![0x80u8; 8];
    p.extend(vec![0u8; 24]);
    p
}

fn rom(pages: usize) -> Vec<u8> {
    let mut content = Vec::new();
    for _ in 0..pages {
        content.extend(page());
    }
    content
}

#[test]
fn page_size_zero_is_refused() {
    assert_eq!(generate_schem(&rom(8), 0).err(), Some(RomError::EmptyPage));
    assert_eq!(generate_schem(&[], 0).err(), Some(RomError::EmptyPage));
}

#[test]
fn only_eight_pages_fit() {
    assert_eq!(generate_schem(&rom(1), 32).err(), Some(RomError::PageCount));
    assert_eq!(generate_schem(&rom(7), 32).err(), Some(RomError::PageCount));
    assert_eq!(generate_schem(&rom(9), 32).err(), Some(RomError::PageCount));
    assert_eq!(generate_schem(&rom(8), 16).err(), Some(RomError::PageCount));
}

#[test]
fn short_pages_are_refused() {
    assert_eq!(generate_schem(&vec![0x80u8; 8 * 31], 31).err(), Some(RomError::ShortPage));
    assert_eq!(generate_schem(&vec![0x80u8; 8], 1).err(), Some(RomError::ShortPage));
}

#[test]
fn fill_level_zero_is_refused() {
    let mut content = rom(8);
    content[32 * 2 + 3] = 0x40;
    assert_eq!(generate_schem(&content, 32).err(), Some(RomError::FillLevel { page: 2, row: 3, column: 0 }));
    assert_eq!(generate_schem(&vec![0u8; 256], 32).err(), Some(RomError::FillLevel { page: 0, row: 0, column: 0 }));
}

#[test]
fn fill_level_above_255_is_refused() {
    let mut content = rom(8);
    content[32 * 5 + 1] = 0xff;
    content[32 * 5 + 9] = 0xff;
    assert_eq!(generate_schem(&content, 32).err(), Some(RomError::FillLevel { page: 5, row: 1, column: 6 }));
}

#[test]
fn less_than_one_page_is_an_empty_schematic() {
    let schem = generate_schem(&[1, 2, 3], 32).unwrap();
    let text = format!("{:?}", schem);
    assert!(text.contains("size_x: 16"));
    assert!(text.contains("size_y: 0"));
    assert!(text.contains("size_z: 16"));
    assert_eq!(text.matches("minecraft:barrel").count(), 0);
    assert_eq!(text.matches("Barrel").count(), 0);
}

#[test]
fn eight_pages_give_eight_by_eight_barrels_each() {
    let schem = generate_schem(&rom(8), 32).unwrap();
    let text = format!("{:?}", schem);
    assert!(text.contains("size_x: 16"));
    assert!(text.contains("size_y: 16"));
    assert!(text.contains("size_z: 16"));
    assert_eq!(text.matches("id: \"minecraft:barrel\"").count(), 512);
    assert_eq!(text.matches("Barrel {").count(), 512);
    assert_eq!(text.matches("id: \"minecraft:air\"").count(), 4096 - 512);
    assert_eq!(text.matches("minecraft:redstone_block").count(), 8 * 8 * 479);
}

#[test]
fn bytes_behind_the_last_page_do_not_count() {
    let mut content = Vec::new();
    for _ in 0..8 {
        content.extend(page());
        content.extend(vec![0u8; 8]);
    }
    content.extend(vec![0u8; 39]);
    let schem = generate_schem(&content, 40).unwrap();
    let text = format!("{:?}", schem);
    assert_eq!(text.matches("Barrel {").count(), 512);
}

#[test]
fn barrels_stand_on_even_positions() {
    let schem = generate_schem(&rom(8), 32).unwrap();
    let text = format!("{:?}", schem);
    assert_eq!(text.matches("]: Barrel {").count(), 512);
    for x in 0..8u16 {
        for y in 0..8u16 {
            for z in 0..8u16 {
                let key = format!("[{}, {}, {}]: Barrel {{", 2 * x, 2 * y, 2 * z);
                assert!(text.contains(&key));
            }
        }
    }
}
