use rpccaps::Capability;

#[test]
fn capability_test_subset() {
    let a = Capability::new(0b0110, 0b0011);
    let b = a.subset(0b1110, 0b1100);

    // masks applied
    assert!(a.is_valid());
    assert!(b.is_valid());

    assert_eq!(a, Capability::new(0b0110, 0b0010));
    assert_eq!(b, Capability::new(0b0010, 0b0000));

    // simple subset
    assert!(b.is_subset(&a));
    assert!(!a.is_subset(&b));
}

#[test]
fn test_not_subset() {
    let a = Capability::new(0b1111, 0b0011);
    let b = Capability::new(0b1111, 0b0000);
    assert!(!b.is_subset(&a));
}

#[test]
fn constructors_and_mutators_keep_share_within_actions() {
    let c = Capability::new(0b0101, 0b1111);
    assert_eq!(c.actions, 0b0101);
    assert_eq!(c.share, 0b0101);
    assert!(c.is_valid());

    assert!(Capability::empty().is_valid());
    assert!(Capability::empty().is_empty());

    let mut d = Capability::new(0xFF, 0x0F);
    d.subset_inplace(0x3C, 0xF0);
    assert_eq!(d.actions, 0x0C);
    assert_eq!(d.share, 0x00);
    assert!(d.is_valid());

    let e = Capability::new(0xF0, 0xF0).intersect(&Capability::new(0x3C, 0x0C));
    assert_eq!(e, Capability { actions: 0x30, share: 0x00 });
    assert!(e.is_valid());

    let tampered = Capability { actions: 0x01, share: 0x03 };
    assert!(!tampered.is_valid());
}

#[test]
fn intersection_is_grantable_from_both_when_shared() {
    let a = Capability::new(0b1110, 0b1110);
    let b = Capability::new(0b0111, 0b0111);
    let i = a.intersect(&b);
    assert_eq!(i, Capability::new(0b0110, 0b0110));
    assert!(i.is_subset(&a));
    assert!(i.is_subset(&b));
}

#[test]
fn intersection_not_grantable_when_not_shareable() {
    let a = Capability::new(0xFF, 0x00);
    let i = a.intersect(&a);
    assert!(!i.is_subset(&a));
}

#[test]
fn empty_capability_edges() {
    let empty = Capability::empty();
    assert!(empty.is_subset(&empty));
    assert!(!Capability::new(1, 0).is_subset(&empty));

    let full = Capability::new(0b11, 0b11);
    assert!(full.is_subset(&full));
    let partial = Capability::new(0b11, 0b01);
    assert!(!partial.is_subset(&partial));
}

#[test]
fn allowed_and_shareable_bits() {
    let c = Capability::new(0b1100, 0b0100);
    assert!(c.is_allowed(0b1000));
    assert!(!c.is_allowed(0b0011));
    assert!(c.is_shareable(0b0100));
    assert!(!c.is_shareable(0b1000));
    assert!(!c.is_empty());
}

#[test]
fn and_operators_restrict_by_the_right_hand_masks() {
    let a = Capability::new(0b1111, 0b0110);
    let b = Capability::new(0b1100, 0b0100);
    let c = a & b;
    assert_eq!(c, a.subset(b.actions, b.share));
    assert_eq!(c, Capability::new(0b0100, 0b0100));
    let mut d = a;
    d &= b;
    assert_eq!(d, c);
    assert!(d.is_valid());
}
