use colony_core::GridPos;

#[test]
fn test_new() {
    let pos = GridPos::new(3, 4);
    assert_eq!(pos.x, 3);
    assert_eq!(pos.y, 4);
}

#[test]
fn test_add() {
    let pos1 = GridPos::new(2, 3);
    let pos2 = GridPos::new(4, 5);
    let result = pos1.plus(pos2);
    assert_eq!(result.x, 6);
    assert_eq!(result.y, 8);
}

#[test]
fn test_sub() {
    let pos1 = GridPos::new(5, 7);
    let pos2 = GridPos::new(2, 3);
    let result = pos1.minus(pos2);
    assert_eq!(result.x, 3);
    assert_eq!(result.y, 4);
}

#[test]
fn test_add_assign() {
    let mut pos = GridPos::new(2, 3);
    let other = GridPos::new(4, 5);
    pos = pos.plus(other);
    assert_eq!(pos.x, 6);
    assert_eq!(pos.y, 8);
}

#[test]
fn test_sub_assign() {
    let mut pos = GridPos::new(5, 7);
    let other = GridPos::new(2, 3);
    pos = pos.minus(other);
    assert_eq!(pos.x, 3);
    assert_eq!(pos.y, 4);
}

#[test]
fn test_dist_sq() {
    let a = GridPos::new(0, 0);
    let b = GridPos::new(3, 4);
    assert_eq!(a.dist_sq(b), 25);
    assert_eq!(b.dist_sq(a), 25);
    assert_eq!(a.dist_sq(a), 0);
}
