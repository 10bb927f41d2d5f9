use get_many_mut::{get_many_check_valid, get_many_mut, get_many_unchecked_mut, GetManyMutExt};

#[test]
fn checked_write_two() {
    let v = &mut [1, 2, 3];
    if let Ok(mut refs) = get_many_mut(v, [0, 2]) {
        *refs[0] = 413;
        *refs[1] = 612;
    } else {
        panic!("valid request was rejected");
    }
    assert_eq!(v, &[413, 2, 612]);
}

#[test]
fn checked_rejects_duplicate_at_end() {
    let v = &mut [1, 2, 3];
    assert!(get_many_mut(v, [0, 2, 0]).is_err());
    assert_eq!(v, &[1, 2, 3]);
}

#[test]
fn checked_rejects_out_of_bounds() {
    let v = &mut [1, 2, 3];
    assert!(get_many_mut(v, [0, 999]).is_err());
    assert_eq!(v, &[1, 2, 3]);
}

#[test]
fn checked_rejects_adjacent_duplicate() {
    let v = &mut [1, 2, 3];
    assert!(get_many_mut(v, [1, 1]).is_err());
}

#[test]
fn unchecked_write_two() {
    let x = &mut [1, 2, 4];
    let mut refs = get_many_unchecked_mut(x, [0, 2]);
    *refs[0] *= 10;
    *refs[1] *= 100;
    drop(refs);
    assert_eq!(x, &[10, 2, 400]);
}

#[test]
fn empty_request_succeeds() {
    let v: &mut [i32] = &mut [1, 2, 3];
    let refs = get_many_mut(v, []).expect("empty request must succeed");
    assert_eq!(refs.len(), 0);

    let empty: &mut [i32] = &mut [];
    let refs = get_many_mut(empty, []).expect("empty request must succeed");
    assert_eq!(refs.len(), 0);
}

#[test]
fn order_follows_request_not_position() {
    let v = &mut [10, 20, 30];
    let mut refs = get_many_mut(v, [2, 0]).unwrap();
    assert_eq!(*refs[0], 30);
    assert_eq!(*refs[1], 10);
    *refs[0] = 31;
    *refs[1] = 11;
    drop(refs);
    assert_eq!(v, &[11, 20, 31]);
}

#[test]
fn one_write_leaves_other_cells_alone() {
    let v = &mut [5, 6, 7, 8];
    let mut refs = get_many_mut(v, [1, 3]).unwrap();
    *refs[0] = 60;
    drop(refs);
    assert_eq!(v, &[5, 60, 7, 8]);
}

#[test]
fn checked_and_unchecked_agree() {
    let a = &mut [1, 2, 3, 4];
    let b = &mut [1, 2, 3, 4];
    let mut ra = get_many_mut(a, [3, 1]).unwrap();
    let mut rb = get_many_unchecked_mut(b, [3, 1]);
    assert_eq!(*ra[0], *rb[0]);
    assert_eq!(*ra[1], *rb[1]);
    *ra[0] = 40;
    *ra[1] = 20;
    *rb[0] = 40;
    *rb[1] = 20;
    drop(ra);
    drop(rb);
    assert_eq!(a, b);
    assert_eq!(a, &[1, 20, 3, 40]);
}

#[test]
fn checker_matches_validity() {
    assert!(get_many_check_valid(&[0, 1, 2], 3));
    assert!(get_many_check_valid(&[2, 0], 3));
    assert!(!get_many_check_valid(&[0, 0], 3));
    assert!(!get_many_check_valid(&[3], 3));
    assert!(!get_many_check_valid(&[0], 0));
    assert!(get_many_check_valid(&[], 0));
    assert!(get_many_check_valid(&[], 7));
}

#[test]
fn trait_methods_on_slice() {
    let v: &mut [i32] = &mut [1, 2, 3];
    let mut refs = v.get_many_mut([0, 2]).unwrap();
    *refs[0] = 413;
    *refs[1] = 612;
    drop(refs);
    assert_eq!(v, &[413, 2, 612]);
    assert!(v.get_many_mut([0, 2, 0]).is_err());

    let mut refs = v.get_many_unchecked_mut([1]);
    *refs[0] = 5;
    drop(refs);
    assert_eq!(v, &[413, 5, 612]);
}

#[test]
fn trait_methods_on_array() {
    let mut arr = [1, 2, 3];
    let mut refs = arr.get_many_mut([0, 2]).unwrap();
    *refs[0] = 413;
    *refs[1] = 612;
    drop(refs);
    assert_eq!(arr, [413, 2, 612]);

    let mut refs = arr.get_many_unchecked_mut([1, 0]);
    *refs[0] = -2;
    *refs[1] = -1;
    drop(refs);
    assert_eq!(arr, [-1, -2, 612]);

    assert!(arr.get_many_mut([9, 0]).is_err());
}

#[test]
fn error_message_is_stable() {
    let err = get_many_mut(&mut [1], [0, 0]).unwrap_err();
    assert_eq!(
        err.message(),
        "an index is out of bounds or appeared multiple times in the array"
    );
}

#[test]
fn error_debug_renders() {
    let err = get_many_mut(&mut [1], [1]).unwrap_err();
    let rendered = format!("{:?}", err);
    assert!(rendered.contains("GetManyMutError"));
}

#[test]
fn full_permutation_round_trip() {
    let v = &mut [0, 10, 20, 30, 40];
    let mut refs = get_many_mut(v, [4, 2, 0, 3, 1]).unwrap();
    for r in refs.iter_mut() {
        **r += 1;
    }
    drop(refs);
    assert_eq!(v, &[1, 11, 21, 31, 41]);
}
