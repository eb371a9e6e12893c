use mafia::games::classic::gun_events::{GunEvents, GunOwner};

#[test]
fn new_guns_have_no_owner() {
    let guns = GunEvents::new(2);
    assert_eq!(guns.len(), 0);
    assert!(guns.owners().is_empty());
}

#[test]
fn real_gun_is_refused_at_the_limit() {
    let mut guns = GunEvents::new(1);
    assert!(guns.pass_real(4));
    assert!(!guns.pass_real(5));
    assert_eq!(guns.len(), 1);
    assert_eq!(guns.owners().into_iter().collect::<Vec<u32>>(), vec![4]);
}

#[test]
fn real_gun_is_refused_with_limit_zero() {
    let mut guns = GunEvents::new(0);
    assert!(!guns.pass_real(1));
    assert_eq!(guns.len(), 0);
}

#[test]
fn passing_the_same_real_gun_twice_adds_nothing() {
    let mut guns = GunEvents::new(5);
    assert!(guns.pass_real(4));
    assert!(!guns.pass_real(4));
    assert_eq!(guns.len(), 1);
}

#[test]
fn fake_gun_is_refused_once_two_guns_are_out() {
    let mut guns = GunEvents::new(5);
    assert!(guns.pass_fake(1));
    assert!(guns.pass_fake(2));
    assert!(!guns.pass_fake(3));
    assert_eq!(guns.len(), 2);
    assert_eq!(guns.owners().into_iter().collect::<Vec<u32>>(), vec![1, 2]);
}

#[test]
fn fake_limit_counts_real_guns_too() {
    let mut guns = GunEvents::new(5);
    assert!(guns.pass_real(1));
    assert!(guns.pass_real(2));
    assert!(!guns.pass_fake(3));
}

#[test]
fn shooting_with_the_real_gun_clears_real_guns_only() {
    let mut guns = GunEvents::new(2);
    assert!(guns.pass_real(1));
    assert!(guns.pass_fake(2));
    assert_eq!(guns.try_shooting(&1), GunOwner::Real);
    assert_eq!(guns.try_shooting(&1), GunOwner::Invalid);
    assert_eq!(guns.owners().into_iter().collect::<Vec<u32>>(), vec![2]);
    assert_eq!(guns.try_shooting(&2), GunOwner::Fake);
    assert_eq!(guns.try_shooting(&2), GunOwner::Invalid);
    assert_eq!(guns.len(), 0);
}

#[test]
fn holder_of_both_guns_fires_the_real_one() {
    let mut guns = GunEvents::new(2);
    assert!(guns.pass_fake(7));
    assert!(guns.pass_real(7));
    assert_eq!(guns.len(), 2);
    assert_eq!(guns.try_shooting(&7), GunOwner::Real);
    assert_eq!(guns.try_shooting(&7), GunOwner::Fake);
    assert_eq!(guns.try_shooting(&7), GunOwner::Invalid);
}

#[test]
fn shooting_without_a_gun_is_invalid_and_changes_nothing() {
    let mut guns = GunEvents::new(2);
    assert!(guns.pass_real(1));
    assert_eq!(guns.try_shooting(&9), GunOwner::Invalid);
    assert_eq!(guns.len(), 1);
}

#[test]
fn owners_is_the_union_of_both_kinds() {
    let mut guns = GunEvents::new(2);
    assert!(guns.pass_fake(9));
    assert!(guns.pass_real(3));
    assert_eq!(guns.owners().into_iter().collect::<Vec<u32>>(), vec![3, 9]);
}
