use vstmommy::buffers::Buffers;

#[test]
fn new_buffer_is_silent_at_start() {
    let b = Buffers::<f32, 4>::new();
    assert_eq!(b.idx, 0);
    for i in 0..4 {
        assert_eq!(b.read_at(i), (0.0, 0.0));
    }
}

#[test]
fn from_keeps_channels() {
    let b = Buffers::<f32, 3>::from([1.0, 2.0, 3.0], [-1.0, -2.0, -3.0]);
    assert_eq!(b.idx, 0);
    assert_eq!(b.read(), (1.0, -1.0));
    assert_eq!(b.read_at(2), (3.0, -3.0));
}

#[test]
fn five_writes_into_four_slots() {
    let mut b = Buffers::<f32, 4>::new();
    let mut flags = Vec::new();
    for k in 1..=5 {
        let v = k as f32;
        flags.push(b.write_advance(v, -v));
    }
    assert_eq!(flags, vec![false, false, false, true, false]);
    assert_eq!(b.read_at(0), (5.0, -5.0));
    assert_eq!(b.read_at(1), (2.0, -2.0));
    assert_eq!(b.read_at(3), (4.0, -4.0));
    assert_eq!(b.idx, 1);
}

#[test]
fn cursor_after_n_writes_is_n_mod_capacity() {
    let mut b = Buffers::<f32, 3>::new();
    for n in 0..10usize {
        assert_eq!(b.idx, n % 3);
        let filled = b.write_advance(n as f32, 0.5);
        assert_eq!(filled, (n + 1) % 3 == 0);
    }
    assert_eq!(b.idx, 10 % 3);
}

#[test]
fn read_at_wraps_around() {
    let b = Buffers::<f32, 4>::from([1.0, 2.0, 3.0, 4.0], [5.0, 6.0, 7.0, 8.0]);
    for i in 0..8usize {
        assert_eq!(b.read_at(i), b.read_at(i + 4));
    }
    assert_eq!(b.read_at(6), (3.0, 7.0));
}

#[test]
fn reset_keeps_samples() {
    let mut b = Buffers::<f32, 4>::new();
    b.write_advance(1.5, -1.5);
    b.write_advance(2.5, -2.5);
    let before = (b.l, b.r);
    b.reset();
    assert_eq!(b.idx, 0);
    assert_eq!((b.l, b.r), before);
    assert_eq!(b.read(), (1.5, -1.5));
}

#[test]
fn read_advance_walks_and_wraps() {
    let mut b = Buffers::<f32, 2>::from([1.0, 2.0], [3.0, 4.0]);
    assert_eq!(b.read_advance(), (1.0, 3.0, false));
    assert_eq!(b.read_advance(), (2.0, 4.0, true));
    assert_eq!(b.idx, 0);
    assert_eq!(b.read(), (1.0, 3.0));
    assert_eq!(b.l, [1.0, 2.0]);
}

#[test]
fn non_finite_samples_are_stored_verbatim() {
    let mut b = Buffers::<f32, 2>::new();
    b.write_advance(f32::INFINITY, f32::NEG_INFINITY);
    b.write_advance(f32::NAN, 0.0);
    assert_eq!(b.read_at(0), (f32::INFINITY, f32::NEG_INFINITY));
    assert!(b.read_at(1).0.is_nan());
}

#[test]
fn capacity_one_wraps_every_write() {
    let mut b = Buffers::<f32, 1>::new();
    assert!(b.write_advance(1.0, 2.0));
    assert!(b.write_advance(3.0, 4.0));
    assert_eq!(b.idx, 0);
    assert_eq!(b.read(), (3.0, 4.0));
}
