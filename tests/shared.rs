use std::sync::Arc;

use restartable_fba::sync::RestartableFBA;

#[test]
fn sync_it_works() {
    let a = RestartableFBA::new(vec![0u8; 5]);
    let v1 = a.create(0x04030201i32).unwrap();
    let v2 = a.create(0xffu8).unwrap();

    assert_eq!(a.get(&v1, 0), Some(0x04030201));
    assert_eq!(a.get(&v2, 0), Some(0xff));
}

#[test]
fn sync_get_buf_safe() {
    let alloc = Arc::new(RestartableFBA::new(vec![0u8; 4]));

    {
        let x = alloc.create(0x42u8).unwrap();
        assert!(x.release());
    }

    let buf_ref = alloc.get_buf().unwrap();
    assert!(alloc.set(&buf_ref, 0, 0xAAu8));

    assert_eq!(alloc.contents(&buf_ref).unwrap(), vec![0xAA, 0, 0, 0]);
}

#[test]
fn sync_get_buf_with_active_refs() {
    let alloc = Arc::new(RestartableFBA::new(vec![0u8; 4]));

    let _x = alloc.create(0x42u8).unwrap();
    assert!(alloc.get_buf().is_none());
}

#[test]
fn it_works4() {
    let alloc = Arc::new(RestartableFBA::new(vec![0u8; 4]));

    {
        let v = alloc.create(0xfcfdfeffu32).unwrap();
        assert!(v.release());
    }

    let b = alloc.get_buf().unwrap();
    assert!(alloc.create(0x04030201u32).is_err());

    assert!(b.release());
    assert!(alloc.try_restard().is_some());

    let x = alloc.create(0x04030201u32).unwrap();
    assert_eq!(alloc.get(&x, 0), Some(0x04030201))
}

#[test]
fn two_small_blocks_then_reclaim() {
    let a = RestartableFBA::new(vec![0u8; 5]);
    let h1 = a.create(0x0201u16).unwrap();
    let h2 = a.create(0x0403u16).unwrap();
    let (s1, s2) = (h1.region().start_offset(), h2.region().start_offset());
    assert!(s1 + 2 <= s2 || s2 + 2 <= s1);
    let h3 = a.create(5u8).unwrap();
    assert!(a.get_buf().is_none());
    assert!(h1.release());
    assert!(a.get_buf().is_none());
    assert!(h2.release());
    assert!(a.get_buf().is_none());
    assert!(h3.release());
    let whole = a.get_buf().unwrap();
    assert_eq!(a.contents(&whole).unwrap(), vec![1, 2, 3, 4, 5]);
}

#[test]
fn restart_waits_for_release() {
    let a = RestartableFBA::new(vec![0u8; 3]);
    let h = a.create(1u8).unwrap();
    assert!(a.try_restard().is_none());
    assert_eq!(a.try_new_buffer(vec![0u8; 8]), Err(vec![0u8; 8]));
    assert!(h.release());
    assert!(a.try_restard().is_some());
    let prev = a.try_new_buffer(vec![0u8; 8]).unwrap();
    assert_eq!(prev, vec![1, 0, 0]);
    let s = a.alloc_slice::<u16>(4).unwrap();
    assert_eq!(s.region().len(), 4);
    assert!(a.alloc_slice::<u16>(1).is_none());
}

#[test]
fn index_past_the_block_is_refused() {
    let a = RestartableFBA::new(vec![0u8; 8]);
    let h = a.create(7u64).unwrap();
    assert_eq!(a.get(&h, 0), Some(7));
    assert_eq!(a.get(&h, 1), None);
    assert!(!a.set(&h, 1, 3u64));
    assert!(a.set(&h, 0, 3u64));
    assert_eq!(a.get(&h, 0), Some(3));
}
