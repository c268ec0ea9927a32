use sir_ddft::{
    flatten_three_fields, flatten_two_fields, view_three_fields, view_two_fields, StateBuffer,
};

#[test]
fn three_fields_round_trip_is_exact() {
    let s = vec![0.1f64, 0.2, 1.0 / 3.0, f64::MIN_POSITIVE];
    let i = vec![1e-300f64, -0.0, 7.0, 2.5];
    let r = vec![f64::MAX, 3.0, 0.0, 1e300];
    let flat = flatten_three_fields(&s, &i, &r);
    assert_eq!(flat.len(), 12);
    let (s2, i2, r2) = view_three_fields(&flat);
    let bits = |v: &[f64]| v.iter().map(|x| x.to_bits()).collect::<Vec<u64>>();
    assert_eq!(bits(s2), bits(&s));
    assert_eq!(bits(i2), bits(&i));
    assert_eq!(bits(r2), bits(&r));
}

#[test]
fn three_fields_view_of_uneven_buffer() {
    let v = [1, 2, 3, 4, 5, 6, 7, 8];
    let (s, i, r) = view_three_fields(&v);
    assert_eq!(s, &[1, 2]);
    assert_eq!(i, &[3, 4]);
    assert_eq!(r, &[5, 6, 7, 8]);
}

#[test]
fn two_fields_round_trip_is_exact() {
    let s = vec![0.25f64, 0.5];
    let z = vec![0.75f64, 1.0];
    let flat = flatten_two_fields(&s, &z);
    assert_eq!(flat, vec![0.25, 0.5, 0.75, 1.0]);
    let (s2, z2) = view_two_fields(&flat);
    assert_eq!(s2, &s[..]);
    assert_eq!(z2, &z[..]);
}

#[test]
fn empty_fields() {
    let e: Vec<f64> = vec![];
    let flat = flatten_three_fields(&e, &e, &e);
    assert!(flat.is_empty());
    let (s, i, r) = view_three_fields(&flat);
    assert!(s.is_empty() && i.is_empty() && r.is_empty());
}

#[test]
fn state_buffer_hand_off() {
    let mut buf = StateBuffer::new(vec![1.0f64, 2.0, 3.0]);
    assert!(buf.is_held());
    assert_eq!(buf.dimension(), 3);
    let v = buf.take();
    assert_eq!(v, vec![1.0, 2.0, 3.0]);
    assert!(!buf.is_held());
    assert_eq!(buf.dimension(), 3);
    buf.restore(vec![4.0, 5.0, 6.0]);
    assert!(buf.is_held());
    assert_eq!(buf.state(), &vec![4.0, 5.0, 6.0]);
}

#[test]
fn state_buffer_raw_access() {
    let mut buf = StateBuffer::new(vec![1u32, 2, 3, 4]);
    let copy = buf.clone_state();
    assert_eq!(copy, vec![1, 2, 3, 4]);
    buf.set_state(&[9, 8, 7, 6]);
    assert_eq!(buf.state(), &vec![9, 8, 7, 6]);
    assert_eq!(copy, vec![1, 2, 3, 4]);
}
