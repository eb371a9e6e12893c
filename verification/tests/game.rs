use std::collections::{BTreeMap, BTreeSet};

use mafia::elections::ballot::DeathVote;
use mafia::games::classic::game::{role_powers, Classic};
use mafia::in_memory_room::OneToOneSpells;
use mafia::oracle::Oracle;
use mafia::room::{Room, Spells};
use mafia::scenario::{
    CityState, DeathBallot, Declaration, Defendence, HolyMessage, Meta, News, Power, Pray,
    Scenario, ShootingResult, State,
};
use mafia::waiting::{GodWayRef, OracleRef};

fn cohort(n: u32) -> (BTreeMap<u32, GodWayRef>, BTreeMap<u32, OracleRef>) {
    let mut gods = BTreeMap::new();
    let mut oracles = BTreeMap::new();
    for id in 1..=n {
        let (god, oracle) = Oracle::create::<HolyMessage, Pray>(16, 16);
        gods.insert(id, god);
        oracles.insert(id, oracle);
    }
    (gods, oracles)
}

fn game_of_ten() -> (Classic, BTreeMap<u32, OracleRef>) {
    let (gods, oracles) = cohort(10);
    match Classic::new(gods) {
        Ok(game) => (game, oracles),
        Err(text) => panic!("{}", text),
    }
}

fn holder(game: &Classic, power: Power) -> u32 {
    let holders = game.room().by_power(&power);
    assert_eq!(holders.len(), 1);
    holders[0]
}

fn plain(game: &Classic) -> Vec<u32> {
    game.room()
        .numbers()
        .into_iter()
        .filter(|id| game.room().kinks(id).is_empty())
        .collect()
}

fn scripted(intents: &[(u32, Power, &[u32], Option<Meta>)]) -> OneToOneSpells {
    let mut spells = OneToOneSpells::new();
    for (from, action, query, meta) in intents {
        let pray = Pray { action: *action, query: query.to_vec(), meta: *meta };
        assert!(spells.submit(*from, &pray));
    }
    spells
}

#[test]
fn game_needs_ten_players() {
    for n in [0, 9, 11] {
        let (gods, _oracles) = cohort(n);
        match Classic::new(gods) {
            Ok(_) => panic!("a cohort of {} is no game", n),
            Err(text) => assert_eq!(text, "Invalid number of players"),
        }
    }
}

#[test]
fn new_game_starts_in_debate_of_day_zero() {
    let (game, _oracles) = game_of_ten();
    assert_eq!(game.state(), CityState::Debate);
    assert_eq!(game.day(), 0);
    assert!(game.events().is_empty());
    assert!(game.is_it(CityState::Debate));
    assert!(!game.is_it(CityState::Night));
    assert_eq!(game.game_state(), State::Undecided);
}

#[test]
fn every_role_is_dealt_once() {
    let (game, _oracles) = game_of_ten();
    let room = game.room();
    assert_eq!(room.numbers(), (1..=10).collect::<Vec<u32>>());
    assert_eq!(room.count(&Power::Mafia), 3);
    let mut dealt: Vec<Vec<Power>> = room
        .numbers()
        .iter()
        .map(|id| {
            let mut powers = room.kinks(id);
            powers.sort();
            powers
        })
        .collect();
    dealt.sort();
    let mut roles: Vec<Vec<Power>> = (0..10)
        .map(|k| {
            let mut powers = role_powers(k);
            powers.sort();
            powers
        })
        .collect();
    roles.sort();
    assert_eq!(dealt, roles);
}

#[test]
fn roles_are_dealt_by_chance() {
    let mut seats_of_the_boss = BTreeSet::new();
    for _ in 0..40 {
        let (game, _oracles) = game_of_ten();
        seats_of_the_boss.insert(holder(&game, Power::NightKill));
    }
    assert!(seats_of_the_boss.len() >= 2);
}

#[test]
fn role_table_is_the_classic_one() {
    assert_eq!(
        role_powers(0),
        vec![Power::Mafia, Power::NightKill, Power::DodgeCommando, Power::Disguise]
    );
    assert_eq!(role_powers(1), vec![Power::Mafia, Power::Paralyze]);
    assert_eq!(role_powers(2), vec![Power::Mafia, Power::Reveal]);
    assert_eq!(role_powers(3), vec![Power::HandFakeGun, Power::HandGun]);
    assert_eq!(role_powers(4), vec![Power::Heal]);
    assert_eq!(role_powers(5), vec![Power::Guard]);
    assert_eq!(role_powers(6), vec![Power::ShotOnKill]);
    assert_eq!(role_powers(7), vec![Power::Enquery]);
    assert!(role_powers(8).is_empty());
    assert!(role_powers(9).is_empty());
    assert!(role_powers(10).is_empty());
}

#[test]
fn every_player_is_told_its_role() {
    let (game, mut oracles) = game_of_ten();
    for id in 1..=10u32 {
        let oracle = oracles.get_mut(&id).expect("every player has a channel");
        match oracle.read() {
            Some(HolyMessage::Assigned(mut powers)) => {
                let mut held = game.room().kinks(&id);
                powers.sort();
                held.sort();
                assert_eq!(powers, held);
            }
            _ => panic!("player {} was not told", id),
        }
        assert!(oracle.read().is_none());
    }
}

#[test]
fn assign_grants_to_the_last_in_line() {
    let (mut game, _oracles) = game_of_ten();
    let mut line = vec![4, 7];
    game.assign(&mut line, vec![Power::DayShield]);
    assert_eq!(line, vec![4]);
    assert!(game.room().has(&7, &Power::DayShield));
    assert!(!game.room().has(&4, &Power::DayShield));
}

#[test]
fn heirs_of_the_boss_can_be_set() {
    let (mut game, _oracles) = game_of_ten();
    game.set_heirs(vec![Power::Paralyze]);
    let boss = holder(&game, Power::NightKill);
    let paralyzer = holder(&game, Power::Paralyze);
    let wicked = holder(&game, Power::Reveal);
    assert!(game.kick_out(&boss));
    assert!(game.room().has(&paralyzer, &Power::NightKill));
    assert!(!game.room().has(&wicked, &Power::NightKill));
}

#[test]
fn phases_follow_each_other_and_are_declared() {
    let (mut game, _oracles) = game_of_ten();
    assert_eq!(game.next(), CityState::Defend);
    assert_eq!(game.next(), CityState::Hang);
    assert_eq!(game.next(), CityState::Night);
    assert_eq!(game.day(), 0);
    assert_eq!(game.next(), CityState::Debate);
    assert_eq!(game.day(), 1);
    assert_eq!(game.state(), CityState::Debate);
    let log = game.events().clone();
    assert_eq!(
        log,
        vec![
            (0, CityState::Defend, Declaration::StateChanged(CityState::Defend)),
            (0, CityState::Hang, Declaration::StateChanged(CityState::Hang)),
            (0, CityState::Night, Declaration::StateChanged(CityState::Night)),
            (1, CityState::Debate, Declaration::StateChanged(CityState::Debate)),
        ]
    );
}

#[test]
fn day_without_nominations_goes_on_to_the_night() {
    let (mut game, _oracles) = game_of_ten();
    assert!(game.defend().is_none());
    assert_eq!(game.next(), CityState::Defend);
    let ballots = game.defend().expect("ballots are made in the phase of defence");
    assert!(ballots.result().is_none());
    assert_eq!(game.next(), CityState::Hang);
    assert!(game.defend().is_none());
    assert_eq!(game.room().total(), 10);
    assert_eq!(game.next(), CityState::Night);
    assert_eq!(game.state(), CityState::Night);
    assert_eq!(game.events().len(), 3);
}

#[test]
fn condemned_defendant_is_taken_out_at_sunset() {
    let (mut game, _oracles) = game_of_ten();
    assert_eq!(game.next(), CityState::Defend);
    let mut ballots = game.defend().expect("ballots are made in the phase of defence");
    let citizen = plain(&game)[0];
    let nominators: Vec<u32> = (1..=10).filter(|id| *id != citizen).take(5).collect();
    for from in &nominators {
        assert!(ballots.nominate(*from, citizen));
    }
    let mut vote = ballots.result().expect("five of ten nominate");
    assert_eq!(game.next(), CityState::Hang);
    for from in &nominators {
        assert!(vote.hang(*from, citizen));
    }
    assert_eq!(vote.dead(), Some(citizen));
    game.sunset(&vote);
    assert!(!game.room().seated(&citizen));
    assert_eq!(game.room().total(), 9);
    assert_eq!(
        game.events().last(),
        Some(&(0, CityState::Hang, Declaration::Out(citizen)))
    );
}

#[test]
fn sunset_without_a_condemned_changes_nothing() {
    let (mut game, _oracles) = game_of_ten();
    let roster: BTreeSet<u32> = [1, 2].into_iter().collect();
    let vote = match DeathVote::new(roster, 10) {
        Ok(vote) => vote,
        Err(text) => panic!("{}", text),
    };
    game.sunset(&vote);
    assert_eq!(game.room().total(), 10);
    assert!(game.events().is_empty());
}

#[test]
fn kicked_out_player_is_declared_once() {
    let (mut game, _oracles) = game_of_ten();
    let citizen = plain(&game)[1];
    assert!(game.kick_out(&citizen));
    assert!(!game.kick_out(&citizen));
    assert!(!game.kick_out(&77));
    assert_eq!(game.events().clone(), vec![(0, CityState::Debate, Declaration::Out(citizen))]);
    assert_eq!(game.room().total(), 9);
}

#[test]
fn boss_kill_passes_to_the_wicked_one_first() {
    let (mut game, _oracles) = game_of_ten();
    let boss = holder(&game, Power::NightKill);
    let wicked = holder(&game, Power::Reveal);
    let paralyzer = holder(&game, Power::Paralyze);
    assert!(game.kick_out(&boss));
    assert_eq!(game.first_id_by_power(&Power::NightKill), Some(wicked));
    assert!(!game.room().has(&paralyzer, &Power::NightKill));
    assert!(game.kick_out(&wicked));
    assert_eq!(game.first_id_by_power(&Power::NightKill), Some(paralyzer));
    assert!(game.kick_out(&paralyzer));
    assert_eq!(game.first_id_by_power(&Power::NightKill), None);
    assert_eq!(game.room().count(&Power::Mafia), 0);
}

#[test]
fn pass_night_kill_says_whether_there_was_an_heir() {
    let (mut game, _oracles) = game_of_ten();
    game.set_heirs(vec![]);
    assert!(!game.pass_night_kill());
    game.set_heirs(vec![Power::DayShield, Power::Heal]);
    let healer = holder(&game, Power::Heal);
    assert!(game.pass_night_kill());
    assert!(game.room().has(&healer, &Power::NightKill));
}

#[test]
fn first_id_by_power_is_the_highest_holder() {
    let (game, _oracles) = game_of_ten();
    let mafia = game.room().by_power(&Power::Mafia);
    assert_eq!(game.first_id_by_power(&Power::Mafia), mafia.last().copied());
    assert_eq!(game.first_id_by_power(&Power::DayShield), None);
}

#[test]
fn city_wins_when_the_mafia_is_gone_and_the_game_stays_over() {
    let (mut game, _oracles) = game_of_ten();
    for id in game.room().by_power(&Power::Mafia) {
        assert!(game.kick_out(&id));
    }
    assert_eq!(game.game_state(), State::CityWon);
    assert_eq!(game.next(), CityState::Done(State::CityWon));
    let declared = game.events().len();
    assert_eq!(
        game.events().last(),
        Some(&(
            0,
            CityState::Done(State::CityWon),
            Declaration::StateChanged(CityState::Done(State::CityWon))
        ))
    );
    let citizen = plain(&game)[0];
    for other in game.room().numbers() {
        if other != citizen {
            game.kick_out(&other);
        }
    }
    let logged = game.events().len();
    assert!(logged > declared);
    assert_eq!(game.next(), CityState::Done(State::CityWon));
    assert_eq!(game.next(), CityState::Done(State::CityWon));
    assert_eq!(game.state(), CityState::Done(State::CityWon));
    assert_eq!(game.events().len(), logged);
    assert_eq!(game.day(), 0);
}

#[test]
fn mafia_wins_when_it_is_no_fewer_than_the_city() {
    let (mut game, _oracles) = game_of_ten();
    let citizens: Vec<u32> = game
        .room()
        .numbers()
        .into_iter()
        .filter(|id| !game.room().has(id, &Power::Mafia))
        .collect();
    for id in citizens.iter().take(3) {
        assert!(game.kick_out(id));
    }
    assert_eq!(game.game_state(), State::Undecided);
    assert!(game.kick_out(&citizens[3]));
    assert_eq!(game.game_state(), State::MafiaWon);
    assert_eq!(game.next(), CityState::Done(State::MafiaWon));
    assert_eq!(game.next(), CityState::Done(State::MafiaWon));
}

#[test]
fn game_tells_the_number_of_mafia_three_times() {
    let (mut game, _oracles) = game_of_ten();
    assert_eq!(game.enquery(), Some(3));
    let wicked = holder(&game, Power::Reveal);
    assert!(game.kick_out(&wicked));
    assert_eq!(game.enquery(), Some(2));
    assert_eq!(game.enquery(), Some(2));
    assert_eq!(game.enquery(), None);
    assert_eq!(game.enquery(), None);
}

#[test]
fn make_ballot_counts_the_living() {
    let (mut game, _oracles) = game_of_ten();
    let citizens = plain(&game);
    assert!(game.kick_out(&citizens[0]));
    assert!(game.kick_out(&citizens[1]));
    let mut ballots = game.make_ballot();
    let nominee = holder(&game, Power::Heal);
    let others: Vec<u32> =
        game.room().numbers().into_iter().filter(|id| *id != nominee).collect();
    for from in others.iter().take(3) {
        assert!(ballots.nominate(*from, nominee));
    }
    assert!(ballots.result().is_none());
    assert!(ballots.nominate(others[3], nominee));
    assert!(ballots.result().is_some());
}

#[test]
fn night_of_the_game_kills_and_sunrise_buries() {
    let (mut game, _oracles) = game_of_ten();
    for _ in 0..3 {
        game.next();
    }
    assert_eq!(game.state(), CityState::Night);
    let boss = holder(&game, Power::NightKill);
    let citizen = plain(&game)[0];
    let result = game.darkness(scripted(&[(boss, Power::NightKill, &[citizen], None)]));
    assert_eq!(result.kicked_out().iter().copied().collect::<Vec<u32>>(), vec![citizen]);
    assert!(game.room().seated(&citizen));
    game.sunrise(&result);
    assert!(!game.room().seated(&citizen));
    assert_eq!(
        game.events().last(),
        Some(&(0, CityState::Night, Declaration::Out(citizen)))
    );
    assert_eq!(game.next(), CityState::Debate);
    assert_eq!(game.day(), 1);
}

#[test]
fn snapshot_hears_what_the_players_have_sent() {
    let (mut game, mut oracles) = game_of_ten();
    let boss = holder(&game, Power::NightKill);
    let healer = holder(&game, Power::Heal);
    let citizen = plain(&game)[0];
    let say = |oracles: &mut BTreeMap<u32, OracleRef>, from: u32, action: Power, on: u32| {
        let oracle = oracles.get_mut(&from).expect("every player has a channel");
        assert!(oracle.tell(Pray { action, query: vec![on], meta: None }));
    };
    say(&mut oracles, boss, Power::NightKill, citizen);
    say(&mut oracles, boss, Power::NightKill, healer);
    say(&mut oracles, healer, Power::NightKill, boss);
    say(&mut oracles, healer, Power::Heal, healer);
    say(&mut oracles, citizen, Power::Heal, citizen);
    let spells = game.snapshot();
    assert_eq!(spells.one(&Power::NightKill), Some((boss, Power::NightKill, citizen)));
    assert!(spells.get(&Power::Heal).is_none());
    let result = game.darkness(spells);
    assert_eq!(result.kicked_out().iter().copied().collect::<Vec<u32>>(), vec![citizen]);
    let later = game.snapshot();
    assert!(later.get(&Power::NightKill).is_none());
}

#[test]
fn shot_with_the_real_gun_takes_the_victim_out() {
    let (mut game, _oracles) = game_of_ten();
    let gunsmith = holder(&game, Power::HandGun);
    let citizens = plain(&game);
    let wicked = holder(&game, Power::Reveal);
    game.darkness(scripted(&[(gunsmith, Power::HandGun, &[citizens[0], citizens[1]], None)]));
    assert_eq!(game.shoot(&wicked, citizens[0]), ShootingResult::NotAllowed);
    assert_eq!(game.shoot(&citizens[1], wicked), ShootingResult::EmptyGun(wicked));
    assert!(game.room().seated(&wicked));
    assert_eq!(game.shoot(&citizens[0], wicked), ShootingResult::Killed(wicked));
    assert!(!game.room().seated(&wicked));
    assert_eq!(game.shoot(&citizens[0], gunsmith), ShootingResult::NotAllowed);
    assert_eq!(
        game.events().clone(),
        vec![
            (0, CityState::Debate, Declaration::FakeGun(wicked)),
            (0, CityState::Debate, Declaration::Out(wicked)),
        ]
    );
}

#[test]
fn on_shooting_applies_each_kind_of_result() {
    let (mut game, _oracles) = game_of_ten();
    game.on_shooting(ShootingResult::NotAllowed);
    assert!(game.events().is_empty());
    game.on_shooting(ShootingResult::EmptyGun(4));
    game.on_shooting(ShootingResult::Killed(4));
    game.on_shooting(ShootingResult::Killed(4));
    assert_eq!(
        game.events().clone(),
        vec![
            (0, CityState::Debate, Declaration::FakeGun(4)),
            (0, CityState::Debate, Declaration::Out(4)),
        ]
    );
}

#[test]
fn declare_logs_under_the_current_day_and_phase() {
    let (mut game, _oracles) = game_of_ten();
    game.next();
    game.declare(Declaration::FakeGun(3));
    assert_eq!(
        game.events().last(),
        Some(&(0, CityState::Defend, Declaration::FakeGun(3)))
    );
    game.process();
    assert_eq!(game.events().len(), 2);
    assert_eq!(game.state(), CityState::Defend);
}

#[test]
fn everybody_is_told_last_what_they_hold() {
    let (mut game, mut oracles) = game_of_ten();
    let boss = holder(&game, Power::NightKill);
    let commando = holder(&game, Power::ShotOnKill);
    let paralyzer = holder(&game, Power::Paralyze);
    assert!(game.kick_out(&boss));
    game.darkness(scripted(&[
        (holder(&game, Power::NightKill), Power::NightKill, &[commando], None),
        (commando, Power::ShotOnKill, &[paralyzer], None),
    ]));
    for id in game.room().numbers() {
        let oracle = oracles.get_mut(&id).expect("every player has a channel");
        let mut last = None;
        while let Some(note) = oracle.read() {
            last = Some(note);
        }
        match last {
            Some(HolyMessage::Assigned(mut powers)) => {
                let mut held = game.room().kinks(&id);
                powers.sort();
                held.sort();
                assert_eq!(powers, held);
            }
            _ => panic!("player {} was not told", id),
        }
    }
    assert!(!game.room().has(&commando, &Power::ShotOnKill));
}
