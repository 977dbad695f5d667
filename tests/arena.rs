use restartable_fba::layout::Layout;
use restartable_fba::repr::ByteRepr;
use restartable_fba::FixBufferedAllocator;

#[test]
fn lib_it_works() {
    let mut a = FixBufferedAllocator::new(vec![0u8; 5]);
    let v1 = a.create(0x04030201i32).unwrap();
    let v2 = a.create(0xffu8).unwrap();

    assert_eq!(a.read(&v1, 0), 0x04030201);
    assert_eq!(a.read(&v2, 0), 0xff);
}

#[test]
fn lib_it_works1() {
    let mut a = FixBufferedAllocator::new(vec![0u8; 12]);
    let v1 = a.create(0x04030201i32).unwrap();
    let v2 = a.create(0xffu8).unwrap();
    let v3 = a.create(0xfcfdfeffu32).unwrap();

    assert_eq!(a.read(&v1, 0), 0x04030201);
    assert_eq!(a.read(&v2, 0), 0xff);
    assert_eq!(a.read(&v3, 0), 0xfcfdfeff);
}

#[test]
fn lib_it_works2() {
    let mut a = FixBufferedAllocator::new(vec![0u8; 12]);
    let s = a.create([1u16, 2, 3, 4]).unwrap();
    let v1 = a.create(0xffu8).unwrap();
    let v2 = a.create(0xaaaau16).unwrap();
    let v3 = a.create(0xffu8);

    assert_eq!(a.read(&v1, 0), 0xff);
    assert_eq!(a.read(&v2, 0), 0xaaaa);
    assert!(matches!(v3, Err(0xffu8)));
    assert_eq!(a.read(&s, 0), [1, 2, 3, 4]);
}

#[test]
fn lib_it_works3() {
    let mut a = FixBufferedAllocator::new(vec![0u8; 5]);
    let s = a.alloc_slice::<u8>(5).unwrap();
    for (i, b) in "Hello".as_bytes().iter().enumerate() {
        a.write(&s, i, *b);
    }
    assert_eq!(String::from_utf8(a.contents(&s)).unwrap(), "Hello");
}

#[test]
fn scenario_five_bytes() {
    let mut a = FixBufferedAllocator::new(vec![0u8; 5]);
    let v1 = a.create(7i32).unwrap();
    assert_eq!((v1.start_offset(), a.offset()), (0, 4));
    let v2 = a.create(8u8).unwrap();
    assert_eq!((v2.start_offset(), a.offset()), (4, 5));
    assert!(matches!(a.create(9u8), Err(9)));
    assert_eq!(a.offset(), 5);
}

#[test]
fn scenario_twelve_bytes_padding() {
    let mut a = FixBufferedAllocator::new(vec![0u8; 12]);
    let v1 = a.create(1i32).unwrap();
    let v2 = a.create(2u8).unwrap();
    let v3 = a.create(3u32).unwrap();
    assert_eq!(v1.start_offset(), 0);
    assert_eq!(v2.start_offset(), 4);
    assert_eq!(v3.start_offset(), 8);
    assert_eq!(a.offset(), 12);
    assert_eq!(a.capacity_bytes(), 12);
}

#[test]
fn padding_to_alignment() {
    let mut a = FixBufferedAllocator::new(vec![0u8; 64]);
    assert_eq!(a.padding(8), 0);
    a.allocate(Layout::from_size_align(3, 1).unwrap()).unwrap();
    assert_eq!(a.padding(8), 5);
    assert_eq!(a.padding(4), 1);
    assert_eq!(a.padding(1), 0);
    let r = a.allocate(Layout::from_size_align(2, 16).unwrap()).unwrap();
    assert_eq!(r.start_offset(), 16);
    assert_eq!(r.len(), 2);
    assert_eq!(a.offset(), 18);
}

#[test]
fn every_block_is_aligned() {
    let mut a = FixBufferedAllocator::new(vec![0u8; 256]);
    let mut align = 1usize;
    while align <= 32 {
        a.allocate(Layout::from_size_align(1, 1).unwrap()).unwrap();
        let start = a.alloc_raw(Layout::from_size_align(3, align).unwrap()).unwrap();
        assert_eq!(start % align, 0);
        align *= 2;
    }
}

#[test]
fn blocks_are_disjoint_and_inside() {
    let mut a = FixBufferedAllocator::new(vec![0u8; 40]);
    let mut blocks: Vec<(usize, usize)> = Vec::new();
    let reqs = [(3usize, 1usize), (4, 4), (1, 1), (8, 8), (2, 2), (30, 1), (5, 1)];
    for (size, align) in reqs {
        if let Some(start) = a.alloc_raw(Layout::from_size_align(size, align).unwrap()) {
            blocks.push((start, start + size));
        }
    }
    assert_eq!(blocks, vec![(0, 3), (4, 8), (8, 9), (16, 24), (24, 26), (26, 31)]);
    for (i, x) in blocks.iter().enumerate() {
        assert!(x.1 <= 40);
        for y in blocks.iter().skip(i + 1) {
            assert!(x.1 <= y.0 || y.1 <= x.0);
        }
    }
}

#[test]
fn failed_allocation_keeps_cursor() {
    let mut a = FixBufferedAllocator::new(vec![0u8; 10]);
    a.allocate(Layout::from_size_align(6, 1).unwrap()).unwrap();
    assert!(a.allocate(Layout::from_size_align(5, 1).unwrap()).is_none());
    assert_eq!(a.offset(), 6);
    let r = a.allocate(Layout::from_size_align(4, 1).unwrap()).unwrap();
    assert_eq!(r.start_offset(), 6);
    assert_eq!(a.offset(), 10);
}

#[test]
fn padding_can_make_a_block_miss() {
    let mut a = FixBufferedAllocator::new(vec![0u8; 8]);
    a.create(1u8).unwrap();
    assert!(a.create(5u64).is_err());
    assert_eq!(a.offset(), 1);
}

#[test]
fn overflowing_sizes_fail() {
    let mut a = FixBufferedAllocator::new(vec![0u8; 8]);
    a.create(1u8).unwrap();
    assert!(a.allocate(Layout::from_size_align(usize::MAX, 1).unwrap()).is_none());
    assert!(a.alloc_raw(Layout::from_size_align(usize::MAX, 2).unwrap()).is_none());
    assert!(a.alloc_slice::<u32>(usize::MAX / 2).is_none());
    assert_eq!(a.offset(), 1);
}

#[test]
fn slice_of_values() {
    let mut a = FixBufferedAllocator::new(vec![0u8; 16]);
    let s = a.alloc_slice::<u32>(3).unwrap();
    assert_eq!(s.len(), 3);
    a.write(&s, 1, 0xdeadbeefu32);
    assert_eq!(a.read(&s, 1), 0xdeadbeef);
    assert_eq!(a.read(&s, 0), 0);
    assert_eq!(a.contents(&s)[4..8], [0xef, 0xbe, 0xad, 0xde]);
    assert!(a.holds(&s));
}

#[test]
fn zero_length_slice() {
    let mut a = FixBufferedAllocator::new(vec![0u8; 0]);
    let s = a.alloc_slice::<u64>(0).unwrap();
    assert_eq!(s.len(), 0);
    assert!(a.create(1u8).is_err());
}

#[test]
fn layout_checks_alignment() {
    assert!(Layout::from_size_align(8, 3).is_none());
    assert!(Layout::from_size_align(8, 0).is_none());
    let l = Layout::from_size_align(8, 4).unwrap();
    assert_eq!((l.size, l.align), (8, 4));
    assert_eq!(Layout::new::<u64>().size, 8);
    assert!(Layout::array::<u32>(usize::MAX).is_none());
    assert_eq!(Layout::array::<u16>(5).unwrap().size, 10);
}

#[test]
fn values_are_stored_little_endian() {
    assert_eq!(0x04030201i32.to_bytes(), vec![1, 2, 3, 4]);
    assert_eq!((-2i32).to_bytes(), vec![0xfe, 0xff, 0xff, 0xff]);
    assert_eq!(0x0102u16.to_bytes(), vec![2, 1]);
    assert_eq!(0x0807060504030201u64.to_bytes(), vec![1, 2, 3, 4, 5, 6, 7, 8]);
    assert_eq!([1u16, 2, 3, 4].to_bytes(), vec![1, 0, 2, 0, 3, 0, 4, 0]);
    assert_eq!(u32::from_bytes(&[0xff, 0xfe, 0xfd, 0xfc]), 0xfcfdfeff);
    assert_eq!(i32::from_bytes(&[0xfe, 0xff, 0xff, 0xff]), -2);
    assert_eq!(<[u16; 4]>::from_bytes(&[1, 0, 2, 0, 3, 0, 4, 0]), [1, 2, 3, 4]);
}

#[test]
fn restart_steps_follow_the_count() {
    let mut a = FixBufferedAllocator::new(vec![0u8; 4]);
    a.create(9u8).unwrap();
    assert!(a.restart_if_idle(1).is_none());
    assert_eq!(a.offset(), 1);
    assert!(a.restart_if_idle(0).is_some());
    assert_eq!(a.offset(), 0);

    a.create(1u8).unwrap();
    assert_eq!(a.rebind_if_idle(2, vec![7u8; 2]), Err(vec![7u8; 2]));
    let prev = a.rebind_if_idle(0, vec![7u8; 2]).unwrap();
    assert_eq!(prev, vec![1, 0, 0, 0]);
    assert_eq!((a.offset(), a.capacity_bytes()), (0, 2));

    assert!(a.reclaim_if_idle(1).is_none());
    let whole = a.reclaim_if_idle(0).unwrap();
    assert_eq!((whole.start_offset(), whole.len()), (0, 2));
    assert_eq!(a.contents(&whole), vec![7, 7]);
    assert_eq!(a.offset(), 2);
}
