use riscv_boot_core::page::{
    id_map_range, lookup, map_page, unmap, virt_to_phys, Table, ENTRY_READ_EXECUTE,
    ENTRY_READ_WRITE,
};

#[test]
fn fresh_table_translates_nothing() {
    let root = Table::new();
    assert_eq!(virt_to_phys(&root, 0), None);
    assert_eq!(virt_to_phys(&root, 0x8000_0000), None);
    assert_eq!(virt_to_phys(&root, 0x7f_ffff_ffff), None);
}

#[test]
fn map_then_walk() {
    let mut root = Table::new();
    map_page(&mut root, 0x8000_0000, 0x1234_5000, ENTRY_READ_WRITE, 0);
    // every offset within the page translates with the page offset kept
    assert_eq!(virt_to_phys(&root, 0x8000_0000), Some(0x1234_5000));
    assert_eq!(virt_to_phys(&root, 0x8000_0abc), Some(0x1234_5abc));
    assert_eq!(virt_to_phys(&root, 0x8000_0fff), Some(0x1234_5fff));
    // the neighbouring pages stay unmapped
    assert_eq!(virt_to_phys(&root, 0x8000_1000), None);
    assert_eq!(virt_to_phys(&root, 0x7fff_ffff), None);
}

#[test]
fn remap_overwrites() {
    let mut root = Table::new();
    map_page(&mut root, 0x4000_0000, 0x1000_0000, ENTRY_READ_WRITE, 0);
    map_page(&mut root, 0x4000_0000, 0x2000_0000, ENTRY_READ_EXECUTE, 0);
    assert_eq!(virt_to_phys(&root, 0x4000_0123), Some(0x2000_0123));
}

#[test]
fn identity_range_translates_to_itself() {
    let mut root = Table::new();
    // bounds are rounded: start down, end up
    id_map_range(&mut root, 0x8000_0100, 0x8000_2001, ENTRY_READ_EXECUTE);
    assert_eq!(virt_to_phys(&root, 0x8000_0000), Some(0x8000_0000));
    assert_eq!(virt_to_phys(&root, 0x8000_0100), Some(0x8000_0100));
    assert_eq!(virt_to_phys(&root, 0x8000_1fff), Some(0x8000_1fff));
    assert_eq!(virt_to_phys(&root, 0x8000_2000), Some(0x8000_2000));
    assert_eq!(virt_to_phys(&root, 0x8000_2fff), Some(0x8000_2fff));
    // one byte past the rounded end is unmapped
    assert_eq!(virt_to_phys(&root, 0x8000_3000), None);
    assert_eq!(virt_to_phys(&root, 0x7fff_ffff), None);
    // the translation carries the requested permission bits
    let m = lookup(&root, 0x8000_1234).unwrap();
    assert_eq!(m.pa, 0x8000_1234);
    assert_eq!(m.bits, ENTRY_READ_EXECUTE);
}

#[test]
fn identity_ranges_do_not_disturb_each_other() {
    let mut root = Table::new();
    id_map_range(&mut root, 0x1000_0000, 0x1000_1000, ENTRY_READ_WRITE);
    id_map_range(&mut root, 0x8000_0000, 0x8000_1000, ENTRY_READ_EXECUTE);
    assert_eq!(virt_to_phys(&root, 0x1000_0800), Some(0x1000_0800));
    assert_eq!(virt_to_phys(&root, 0x8000_0800), Some(0x8000_0800));
    assert_eq!(virt_to_phys(&root, 0x2000_0000), None);
}

#[test]
fn unmap_clears_everything() {
    let mut root = Table::new();
    id_map_range(&mut root, 0x8000_0000, 0x8010_0000, ENTRY_READ_WRITE);
    assert_eq!(virt_to_phys(&root, 0x8008_0000), Some(0x8008_0000));
    unmap(&mut root);
    assert_eq!(virt_to_phys(&root, 0x8008_0000), None);
    assert_eq!(virt_to_phys(&root, 0x8000_0000), None);
}

#[test]
fn super_page_mapping() {
    let mut root = Table::new();
    // a 2 MiB leaf at level 1
    map_page(&mut root, 0x4000_0000, 0x8000_0000, ENTRY_READ_WRITE, 1);
    assert_eq!(virt_to_phys(&root, 0x4000_0000), Some(0x8000_0000));
    assert_eq!(virt_to_phys(&root, 0x401f_ffff), Some(0x801f_ffff));
    assert_eq!(virt_to_phys(&root, 0x4020_0000), None);
}
