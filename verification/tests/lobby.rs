use mafia::oracle::Oracle;
use mafia::scenario::{HolyMessage, Power, Pray};
use mafia::waiting::{WaitingBuilder, WaitingRoom};

#[test]
fn channel_carries_messages_both_ways_in_order() {
    let (mut god, mut oracle) = Oracle::create::<u32, u8>(4, 4);
    assert!(god.tell(10));
    assert!(god.tell(20));
    assert!(oracle.tell(7));
    assert_eq!(oracle.read(), Some(10));
    assert_eq!(oracle.read(), Some(20));
    assert_eq!(oracle.read(), None);
    assert_eq!(god.read(), Some(7));
    assert_eq!(god.read(), None);
}

#[test]
fn full_channel_drops_the_message() {
    let (mut god, mut oracle) = Oracle::create::<u32, u32>(1, 2);
    assert!(god.tell(1));
    assert!(!god.tell(2));
    assert_eq!(oracle.read(), Some(1));
    assert!(god.tell(3));
    assert_eq!(oracle.read(), Some(3));
    assert!(oracle.tell(1));
    assert!(oracle.tell(2));
    assert!(!oracle.tell(3));
}

#[test]
fn drain_takes_what_has_arrived() {
    let (mut god, mut oracle) = Oracle::create::<u32, u32>(4, 4);
    assert!(oracle.tell(1));
    assert!(oracle.tell(2));
    assert!(oracle.tell(3));
    assert_eq!(god.drain(), vec![1, 2, 3]);
    assert!(god.drain().is_empty());
    assert!(oracle.tell(4));
    assert_eq!(god.drain(), vec![4]);
}

#[test]
fn channel_that_cannot_be_made_is_refused() {
    assert!(!Oracle::fits::<u32>(usize::MAX));
    assert!(!Oracle::fits::<u32>(usize::MAX / 2));
    assert!(Oracle::fits::<u32>(16));
    assert!(Oracle::fits::<()>(usize::MAX - 1));
    assert!(!Oracle::fits::<()>(usize::MAX));
    assert!(Oracle::try_create::<u32, u32>(usize::MAX, 4).is_none());
    assert!(Oracle::try_create::<u32, u32>(4, usize::MAX).is_none());
    assert!(Oracle::try_create::<u32, u32>(4, 4).is_some());
}

#[test]
fn lobby_hands_out_the_lowest_free_number() {
    let mut lobby = WaitingBuilder::new(4);
    assert_eq!(lobby.limit(), 4);
    assert_eq!(lobby.next_id(), Some(1));
    let (first, _a) = lobby.reserve().expect("seat 1 is free");
    let (second, _b) = lobby.reserve().expect("seat 2 is free");
    assert_eq!((first, second), (1, 2));
    assert!(lobby.opt_out(&1));
    assert!(!lobby.opt_out(&1));
    assert_eq!(lobby.next_id(), Some(1));
    let (again, _c) = lobby.reserve().expect("seat 1 is free again");
    assert_eq!(again, 1);
}

#[test]
fn lobby_numbers_stay_below_the_limit() {
    let mut lobby = WaitingBuilder::new(3);
    assert!(lobby.reserve().is_some());
    assert!(lobby.reserve().is_some());
    assert_eq!(lobby.next_id(), None);
    assert!(lobby.reserve().is_none());
    assert!(!lobby.ready());
    assert!(lobby.get().is_none());
}

#[test]
fn lobby_for_nobody_is_ready_at_once() {
    let mut lobby = WaitingBuilder::new(0);
    assert!(lobby.ready());
    assert!(lobby.reserve().is_none());
    let channels = lobby.get().expect("a cohort of nobody is complete");
    assert!(channels.is_empty());
}

#[test]
fn lobby_channel_reaches_the_participant() {
    let mut lobby = WaitingBuilder::new(2);
    let (id, mut oracle) = lobby.reserve().expect("seat 1 is free");
    assert_eq!(id, 1);
    assert!(oracle.tell(Pray { action: Power::Heal, query: vec![2], meta: None }));
    assert!(matches!(oracle.read(), None::<HolyMessage>));
}
