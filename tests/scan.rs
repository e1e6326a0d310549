use hax::data_type::DataType;
use hax::process::{enum_step, file_name, transfer_complete, EnumAction, PageWalk, RegionInfo};
use hax::query::parse;
use hax::scanner::{refine, refine_one, scan_region, ScanError, SearchResult, VirtualPage, MAX_PAGE_BYTES};

fn reread(mem: &[u8], prior: &[SearchResult]) -> Vec<Option<Vec<u8>>> {
    prior
        .iter()
        .map(|r| {
            let n = r.data_type.size_of();
            mem.get(r.address..r.address + n).map(|b| b.to_vec())
        })
        .collect()
}

fn addresses(rs: &[SearchResult]) -> Vec<(usize, DataType)> {
    rs.iter().map(|r| (r.address, r.data_type)).collect()
}

#[test]
fn refinement_keeps_then_drops() {
    let mut mem = vec![1u8; 64];
    mem[8..12].copy_from_slice(&100i32.to_ne_bytes());
    mem[40..44].copy_from_slice(&100i32.to_ne_bytes());
    let first = parse("100").unwrap().scan_page(&mem, 0, &None);
    assert!(!first.is_empty());
    let gt = parse("> 50").unwrap();
    let second = refine(&gt, &None, &first, &reread(&mem, &first));
    assert_eq!(addresses(&second), addresses(&first));
    let lt = parse("< 50").unwrap();
    let third = refine(&lt, &None, &first, &reread(&mem, &first));
    assert!(third.is_empty());
}

#[test]
fn refinement_is_subset_and_idempotent() {
    let mut mem = vec![0u8; 64];
    mem[4..8].copy_from_slice(&7i32.to_ne_bytes());
    mem[20..24].copy_from_slice(&9i32.to_ne_bytes());
    let first = parse(">= 7").unwrap().scan_page(&mem, 0, &None);
    // one slot changes before the refinement
    mem[20..24].copy_from_slice(&3i32.to_ne_bytes());
    let q = parse("> 5").unwrap();
    let second = refine(&q, &None, &first, &reread(&mem, &first));
    assert!(second.iter().all(|r| first.iter().any(|p| p.address == r.address && p.data_type == r.data_type)));
    assert!(second.iter().any(|r| r.address == 4));
    assert!(!second.iter().any(|r| r.address == 20 && r.data_type == DataType::FourBytes));
    let third = refine(&q, &None, &second, &reread(&mem, &second));
    assert_eq!(addresses(&third), addresses(&second));
}

#[test]
fn refinement_updates_value_and_drops_unreadable() {
    let prior = SearchResult { address: 0, data_type: DataType::FourBytes, value: 5i32.to_ne_bytes().to_vec() };
    let q = parse("> 1").unwrap();
    let kept = refine_one(&q, &None, &prior, Some(6i32.to_ne_bytes().to_vec())).unwrap();
    assert_eq!(kept.value, 6i32.to_ne_bytes().to_vec());
    assert_eq!(kept.address, 0);
    assert!(refine_one(&q, &None, &prior, None).is_none());
    assert!(refine_one(&q, &None, &prior, Some(vec![6])).is_none());
}

#[test]
fn oversize_page_is_refused() {
    let q = parse("1").unwrap();
    let page = VirtualPage { start: 0x10000, size: MAX_PAGE_BYTES + 1 };
    assert_eq!(scan_region(&q, &None, &page, None).err(), Some(ScanError::OversizePage));
}

#[test]
fn unreadable_or_short_page_is_empty() {
    let q = parse("0").unwrap();
    let page = VirtualPage { start: 0x10000, size: 16 };
    assert!(scan_region(&q, &None, &page, None).unwrap().is_empty());
    assert!(scan_region(&q, &None, &page, Some(vec![0; 8])).unwrap().is_empty());
    let hits = scan_region(&q, &None, &page, Some(vec![0; 16])).unwrap();
    assert_eq!(hits.len(), 6);
    assert!(hits.iter().all(|r| r.address >= 0x10000 && r.address + r.data_type.size_of() <= 0x10010));
}

fn region(base: usize, size: usize, committed: bool, writable: bool) -> RegionInfo {
    RegionInfo { base, size, committed, writable }
}

#[test]
fn page_walk_keeps_committed_writable_regions() {
    let mut walk = PageWalk::new();
    assert_eq!(walk.next_query(), Some(0));
    walk.step(Some(region(0, 0x1000, false, true)));
    assert_eq!(walk.next_query(), Some(0x1000));
    walk.step(Some(region(0x1000, 0x2000, true, true)));
    walk.step(Some(region(0x3000, 0x1000, true, false)));
    walk.step(Some(region(0x4000, 0x1000, true, true)));
    assert_eq!(walk.next_query(), Some(0x5000));
    walk.step(None);
    assert_eq!(walk.next_query(), None);
    let pages: Vec<(usize, usize)> = walk.pages.iter().map(|p| (p.start, p.size)).collect();
    assert_eq!(pages, vec![(0x1000, 0x2000), (0x4000, 0x1000)]);
}

#[test]
fn page_walk_stops_at_user_space_end_and_wrap() {
    let mut walk = PageWalk::new();
    walk.step(Some(region(0, 0x7FFF_FFFF_0000, false, false)));
    walk.step(Some(region(0x7FFF_FFFF_0000, 0x2_0000, true, true)));
    assert_eq!(walk.next_query(), None);
    assert_eq!(walk.pages.len(), 1);

    let mut walk = PageWalk::new();
    walk.step(Some(region(0, 0, true, true)));
    assert_eq!(walk.next_query(), None);

    let mut walk = PageWalk::new();
    walk.step(Some(region(usize::MAX - 10, 100, true, true)));
    assert_eq!(walk.next_query(), None);
    assert!(walk.pages.is_empty());
}

#[test]
fn page_walk_region_cap() {
    let mut walk = PageWalk::new();
    let mut n = 0;
    while let Some(at) = walk.next_query() {
        walk.step(Some(region(at, 0x1000, true, true)));
        n += 1;
    }
    assert_eq!(n, 20000);
    assert_eq!(walk.pages.len(), 20000);
}

#[test]
fn pid_enumeration_retries_full_buffer() {
    assert_eq!(enum_step(0, 1024, 1024, true), EnumAction::Retry(1152));
    assert_eq!(enum_step(1, 1152, 1152, true), EnumAction::Fail);
    assert_eq!(enum_step(0, 1024, 400, true), EnumAction::Done(100));
    assert_eq!(enum_step(0, 1024, 400, false), EnumAction::Fail);
}

#[test]
fn transfers_must_be_complete() {
    assert!(transfer_complete(true, 8, 8));
    assert!(!transfer_complete(true, 4, 8));
    assert!(!transfer_complete(false, 8, 8));
}

#[test]
fn image_file_name() {
    let path: Vec<u16> = "\\Device\\HarddiskVolume3\\Windows\\notepad.exe".encode_utf16().chain([0, 0, 65]).collect();
    assert_eq!(String::from_utf16(&file_name(&path)).unwrap(), "notepad.exe");
    let bare: Vec<u16> = "calc.exe".encode_utf16().collect();
    assert_eq!(String::from_utf16(&file_name(&bare)).unwrap(), "calc.exe");
    let dir: Vec<u16> = "C:\\dir\\".encode_utf16().collect();
    assert!(file_name(&dir).is_empty());
}
