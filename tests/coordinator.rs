use restartable_fba::layout::Layout;
use restartable_fba::RestartableFBA;

#[test]
fn get_buf_test() {
    let mut a = RestartableFBA::new(vec![0u8; 1]);
    {
        let h = a.create(255u8).unwrap();
        a.release(h);
    }

    let b = a.get_buf().unwrap();
    assert_eq!(a.contents(&b), vec![255]);
}

#[test]
fn restart_refused_while_a_handle_lives() {
    let mut a = RestartableFBA::new(vec![0u8; 2]);
    let v1 = a.create(5u8).unwrap();
    assert!(a.try_restard().is_none());
    assert_eq!((a.offset(), a.live_count()), (1, 1));
    a.release(v1);
    assert!(a.try_restard().is_some());
    assert_eq!((a.offset(), a.live_count()), (0, 0));
}

#[test]
fn new_buffer_refused_while_a_handle_lives() {
    let mut a = RestartableFBA::new(vec![0u8; 2]);
    let v1 = a.create(5u8).unwrap();
    let back = a.try_new_buffer(vec![1u8; 3]);
    assert_eq!(back, Err(vec![1u8; 3]));
    assert_eq!(a.get(&v1, 0), 5);
    a.release(v1);
    let prev = a.try_new_buffer(vec![1u8; 3]).unwrap();
    assert_eq!(prev, vec![5, 0]);
    assert_eq!(a.offset(), 0);
    let h = a.create(2u16).unwrap();
    assert_eq!(h.region().start_offset(), 0);
}

#[test]
fn restart_and_new_buffer_when_idle() {
    let mut a = RestartableFBA::new(vec![0u8; 4]);
    let h = a.create(0x0201u16).unwrap();
    a.release(h);
    a.restart();
    assert_eq!(a.offset(), 0);
    let old = a.new_buffer(vec![9u8; 2]);
    assert_eq!(old, vec![1, 2, 0, 0]);
    let h = a.create(3u8).unwrap();
    assert_eq!(a.get(&h, 0), 3);
}

#[test]
fn restart_reuses_old_bytes_without_clearing() {
    let mut a = RestartableFBA::new(vec![0u8; 4]);
    let h = a.create(0x0a0b0c0du32).unwrap();
    a.release(h);
    a.restart();
    let s = a.alloc_slice::<u8>(4).unwrap();
    assert_eq!(s.region().start_offset(), 0);
    assert_eq!(a.contents(&s), vec![0x0d, 0x0c, 0x0b, 0x0a]);
    a.set(&s, 0, 0xee);
    assert_eq!(a.contents(&s), vec![0xee, 0x0c, 0x0b, 0x0a]);
}

#[test]
fn reclaimed_buffer_counts_as_live() {
    let mut a = RestartableFBA::new(vec![0u8; 4]);
    let h = a.create(0xfcfdfeffu32).unwrap();
    a.release(h);
    let b = a.get_buf().unwrap();
    assert_eq!(a.live_count(), 1);
    assert!(a.create(0x04030201u32).is_err());
    assert!(a.create(1u8).is_err());
    assert!(a.get_buf().is_none());
    assert_eq!(a.contents(&b), vec![0xff, 0xfe, 0xfd, 0xfc]);
    a.release(b);
    a.restart();
    let x = a.create(0x04030201u32).unwrap();
    assert_eq!(a.get(&x, 0), 0x04030201);
}

#[test]
fn allocate_counts_handles() {
    let mut a = RestartableFBA::new(vec![0u8; 8]);
    let l = Layout::from_size_align(3, 2).unwrap();
    let h1 = a.allocate(l).unwrap();
    let h2 = a.allocate(l).unwrap();
    assert_eq!(h1.region().start_offset(), 0);
    assert_eq!(h2.region().start_offset(), 4);
    assert!(a.allocate(l).is_none());
    assert_eq!(a.live_count(), 2);
    a.release(h1);
    a.release(h2);
    assert_eq!(a.live_count(), 0);
}
