use tilemap::math::side::Side::{self, Back, Front, Left, Right};

#[test]
fn test_iterator() {
    let sides = Side::iterator();
    let mut iter = sides.iter();

    assert_eq!(iter.next(), Some(&Back));
    assert_eq!(iter.next(), Some(&Left));
    assert_eq!(iter.next(), Some(&Front));
    assert_eq!(iter.next(), Some(&Right));
    assert_eq!(iter.next(), None);
}

#[test]
fn test_is_straight() {
    assert!(Back.is_straight(Front));
    assert!(Left.is_straight(Right));
    assert!(Front.is_straight(Back));
    assert!(Right.is_straight(Left))
}

#[test]
fn test_is_not_straight() {
    assert!(!Back.is_straight(Back));
    assert!(!Back.is_straight(Left));
    assert!(!Back.is_straight(Right));

    assert!(!Left.is_straight(Back));
    assert!(!Left.is_straight(Left));
    assert!(!Left.is_straight(Front));

    assert!(!Front.is_straight(Left));
    assert!(!Front.is_straight(Front));
    assert!(!Front.is_straight(Right));

    assert!(!Right.is_straight(Back));
    assert!(!Right.is_straight(Front));
    assert!(!Right.is_straight(Right));
}

#[test]
fn each_side_is_straight_with_exactly_one_side() {
    let sides = Side::iterator();
    for a in &sides {
        let partners: Vec<&Side> = sides.iter().filter(|b| a.is_straight(**b)).collect();
        assert_eq!(partners.len(), 1);
        assert!(partners[0].is_straight(*a));
    }
}

#[test]
fn side_names() {
    assert_eq!(Back.to_string(), "Back");
    assert_eq!(Right.to_string(), "Right");
}
