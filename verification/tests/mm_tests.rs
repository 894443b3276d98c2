use rcore_os::mm::{ceil_vpn, floor_vpn, MemorySet, PTE_R, PTE_U, PTE_V, PTE_W};

#[test]
fn page_rounding() {
    assert_eq!(floor_vpn(0), 0);
    assert_eq!(floor_vpn(4095), 0);
    assert_eq!(floor_vpn(4096), 1);
    assert_eq!(ceil_vpn(0), 0);
    assert_eq!(ceil_vpn(1), 1);
    assert_eq!(ceil_vpn(4096), 1);
    assert_eq!(ceil_vpn(4097), 2);
    assert_eq!(ceil_vpn(usize::MAX), usize::MAX / 4096 + 1);
}

#[test]
fn framed_area_maps_covering_pages() {
    let mut ms = MemorySet::new_bare();
    ms.insert_framed_area(0x2000, 0x4001, PTE_R | PTE_U);
    assert_eq!(ms.find_pte(1), None);
    assert_eq!(ms.find_pte(2), Some(PTE_R | PTE_U | PTE_V));
    assert_eq!(ms.find_pte(3), Some(PTE_R | PTE_U | PTE_V));
    assert_eq!(ms.find_pte(4), Some(PTE_R | PTE_U | PTE_V));
    assert_eq!(ms.find_pte(5), None);
}

#[test]
fn unmap_requires_every_page_mapped() {
    let mut ms = MemorySet::new_bare();
    ms.insert_framed_area(0x2000, 0x4000, PTE_W | PTE_U);
    assert_eq!(ms.umap_memoryset(0x2000, 0x5000), -1);
    assert_eq!(ms.find_pte(2), Some(PTE_W | PTE_U | PTE_V));
    assert_eq!(ms.find_pte(3), Some(PTE_W | PTE_U | PTE_V));
    assert_eq!(ms.umap_memoryset(0x2000, 0x3000), 0);
    assert_eq!(ms.find_pte(2), None);
    assert_eq!(ms.find_pte(3), Some(PTE_W | PTE_U | PTE_V));
}

#[test]
fn empty_range_unmaps_nothing_and_succeeds() {
    let mut ms = MemorySet::new_bare();
    assert_eq!(ms.umap_memoryset(0x2000, 0x2000), 0);
    ms.insert_framed_area(0x3000, 0x3000, PTE_R);
    assert_eq!(ms.find_pte(3), None);
}
