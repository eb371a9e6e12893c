use std::sync::Arc;

use mafia::game_scene::GameScene;
use mafia::models;
use mafia::player::LifeState::{Alive, Hanged, Injured, Killed, Silent};
use mafia::player::{Caster, LifeState, Player, Role, RoleKind, UserInfo};
use mafia::player_repository::{kill_found, Id, PlayerCount, PlayerRepository, Players};
use mafia::scene::{Scene, Status};

fn named(name: &str, role: Role) -> Player {
    Player::new(UserInfo(name.to_string()), role)
}

#[test]
fn roles_that_side_with_the_mafia() {
    for role in [
        models::Role::Mafia,
        models::Role::Silencer,
        models::Role::Natasha,
        models::Role::GodFather,
    ] {
        assert!(role.is_mafia());
    }
    for role in [
        models::Role::Citizen,
        models::Role::Armoured(2),
        models::Role::Sniper(1),
        models::Role::Doctor(1),
        models::Role::Detective,
        models::Role::Psycho,
    ] {
        assert!(!role.is_mafia());
    }
}

#[test]
fn waiting_users_are_kept_in_order() {
    let mut room = models::WaitingRoom::init();
    assert!(room.users().is_empty());
    room.join(models::UserInfo("ann".to_string()));
    room.join(models::UserInfo("bob".to_string()));
    let names: Vec<&str> = room.users().iter().map(|user| user.0.as_str()).collect();
    assert_eq!(names, vec!["ann", "bob"]);
}

#[test]
fn random_name_has_twenty_one_characters() {
    let first = Id::unique_random_id();
    let second = Id::unique_random_id();
    assert_eq!(first.0.chars().count(), 21);
    assert_eq!(second.0.len(), 21);
    assert_ne!(first, second);
}

#[test]
fn random_number_ids_can_be_drawn() {
    let mut seen = std::collections::BTreeSet::new();
    for _ in 0..8 {
        seen.insert(models::Id::unique_random_id());
    }
    assert!(seen.len() >= 2);
}

#[test]
fn player_count_adds_up() {
    let count = PlayerCount { mafia: 3, citizen: 6, psycho: 1 };
    assert_eq!(count.all(), 10);
    assert_eq!(PlayerCount { mafia: 0, citizen: 0, psycho: 0 }.all(), 0);
}

#[test]
fn new_player_is_alive() {
    let player = named("ann", Role::Peasant);
    assert!(player.is_alive());
    assert_eq!(player.state(), LifeState::Alive);
    assert_eq!(player.info().0, "ann");
}

#[test]
fn kinds_of_roles() {
    assert_eq!(named("a", Role::GodFather(1)).kind(), RoleKind::Mafia);
    assert_eq!(named("a", Role::Silencer).kind(), RoleKind::Mafia);
    assert_eq!(named("a", Role::Spy).kind(), RoleKind::Mafia);
    assert_eq!(named("a", Role::Psycho).kind(), RoleKind::Psycho);
    assert_eq!(named("a", Role::Natasha).kind(), RoleKind::Citizen);
    assert_eq!(named("a", Role::Peasant).kind(), RoleKind::Citizen);
    assert_eq!(named("a", Role::Detective(vec![])).kind(), RoleKind::Citizen);
}

#[test]
fn life_states_follow_the_table() {
    let all = [Alive, Silent, Injured, Hanged, Killed];
    let allowed = |from: LifeState, to: LifeState| -> bool {
        from == to
            || match from {
                Silent => matches!(to, Alive | Injured),
                Alive => matches!(to, Injured | Silent),
                Injured => matches!(to, Alive | Killed | Hanged),
                _ => false,
            }
    };
    for from in all {
        for to in all {
            let mut player = named("ann", Role::Peasant);
            if from != Alive {
                if from == Hanged || from == Killed {
                    assert!(player.set_state(Injured));
                }
                assert!(player.set_state(from));
            }
            assert_eq!(player.state(), from);
            assert_eq!(player.set_state(to), allowed(from, to));
            assert_eq!(player.state(), if allowed(from, to) { to } else { from });
        }
    }
}

#[test]
fn only_alive_silent_and_injured_are_in_the_game() {
    let mut player = named("ann", Role::Peasant);
    assert!(player.set_state(LifeState::Silent));
    assert!(player.is_alive());
    assert!(player.set_state(LifeState::Injured));
    assert!(player.is_alive());
    player.kill();
    assert!(!player.is_alive());
    assert_eq!(player.state(), LifeState::Killed);
}

#[test]
fn power_is_used_until_it_runs_out() {
    let mut n = 2;
    assert!(Player::use_power(&mut n));
    assert!(Player::use_power(&mut n));
    assert!(!Player::use_power(&mut n));
    assert_eq!(n, 0);
}

#[test]
fn godfather_is_found_out_only_so_often() {
    let mut godfather = named("don", Role::GodFather(1));
    assert!(Player::is_it_mafia(&mut godfather));
    assert!(!Player::is_it_mafia(&mut godfather));
    let mut spy = named("spy", Role::Spy);
    assert!(Player::is_it_mafia(&mut spy));
    assert!(Player::is_it_mafia(&mut spy));
    let mut peasant = named("pea", Role::Peasant);
    assert!(!Player::is_it_mafia(&mut peasant));
}

#[test]
fn detective_files_what_is_found() {
    let mut detective = named("det", Role::Detective(vec![]));
    let mut godfather = named("don", Role::GodFather(1));
    let mut peasant = named("pea", Role::Peasant);
    assert!(detective.cast_on(&mut godfather));
    assert!(detective.cast_on(&mut godfather));
    assert!(detective.cast_on(&mut peasant));
    let mut again = named("det", Role::Detective(vec![true, false, false]));
    assert!(again.cast_with(&mut peasant, false));
    let mut probe = named("det", Role::Detective(vec![]));
    let mut silencer = named("sil", Role::Silencer);
    assert!(probe.cast_on(&mut silencer));
    assert!(probe.cast_on(&mut silencer));
}

#[test]
fn doctor_heals_the_injured() {
    let mut doctor = named("doc", Role::Doctor(0));
    let mut patient = named("pat", Role::Peasant);
    assert!(patient.set_state(LifeState::Injured));
    assert!(doctor.cast_on(&mut patient));
    assert_eq!(patient.state(), LifeState::Alive);
    let mut dead = named("dead", Role::Peasant);
    assert!(dead.set_state(LifeState::Injured));
    dead.kill();
    assert!(!doctor.cast_on(&mut dead));
    assert_eq!(dead.state(), LifeState::Killed);
}

#[test]
fn doctor_acts_on_themself_at_the_cost_of_two() {
    let mut patient = named("pat", Role::Peasant);
    assert!(patient.set_state(LifeState::Injured));
    let mut doctor = named("doc", Role::Doctor(3));
    assert!(doctor.cast_with(&mut patient, true));
    assert_eq!(patient.state(), LifeState::Alive);
    assert!(patient.set_state(LifeState::Injured));
    assert!(!doctor.cast_with(&mut patient, true));
    assert_eq!(patient.state(), LifeState::Injured);
    assert!(!doctor.cast_with(&mut patient, true));
    assert!(doctor.cast_with(&mut patient, false));
    assert_eq!(patient.state(), LifeState::Alive);
}

#[test]
fn sniper_who_hits_a_citizen_is_injured() {
    let mut sniper = named("sni", Role::Sniper(2));
    let mut peasant = named("pea", Role::Peasant);
    let mut spy = named("spy", Role::Spy);
    assert!(sniper.cast_on(&mut spy));
    assert_eq!(spy.state(), LifeState::Injured);
    assert_eq!(sniper.state(), LifeState::Alive);
    assert!(sniper.cast_on(&mut peasant));
    assert_eq!(peasant.state(), LifeState::Alive);
    assert_eq!(sniper.state(), LifeState::Injured);
    assert!(!sniper.cast_on(&mut spy));
}

#[test]
fn psycho_injures_and_silencer_silences() {
    let mut psycho = named("psy", Role::Psycho);
    let mut silencer = named("sil", Role::Silencer);
    let mut peasant = named("pea", Role::Peasant);
    assert!(silencer.cast_on(&mut peasant));
    assert_eq!(peasant.state(), LifeState::Silent);
    assert!(psycho.cast_on(&mut peasant));
    assert_eq!(peasant.state(), LifeState::Injured);
    assert!(!silencer.cast_on(&mut peasant));
    assert_eq!(peasant.state(), LifeState::Injured);
    let mut idle = named("pea", Role::Peasant);
    assert!(!idle.cast_on(&mut peasant));
    assert!(!named("nat", Role::Natasha).cast_on(&mut peasant));
}

fn village() -> (Players<Player>, Vec<Id>) {
    let mut players = Players::new();
    let mut ids = Vec::new();
    let roles = vec![
        Role::GodFather(1),
        Role::Silencer,
        Role::Peasant,
        Role::Doctor(1),
        Role::Detective(vec![]),
        Role::Psycho,
    ];
    for (at, role) in roles.into_iter().enumerate() {
        ids.push(players.insert(named(&format!("player{}", at), role)));
    }
    (players, ids)
}

#[test]
fn repository_counts_the_living_by_side() {
    let (mut players, ids) = village();
    assert_eq!(players.count_alives(), PlayerCount { mafia: 2, citizen: 3, psycho: 1 });
    let mut hurt = named("player2", Role::Peasant);
    assert!(hurt.set_state(LifeState::Injured));
    players.insert_as(Id(ids[2].0.clone()), hurt);
    assert_eq!(players.count_alives(), PlayerCount { mafia: 2, citizen: 3, psycho: 1 });
    players.kill_injureds();
    assert_eq!(players.count_alives(), PlayerCount { mafia: 2, citizen: 2, psycho: 1 });
    assert!(players.get(&ids[2]).is_none());
    assert!(players.get(&ids[0]).is_some());
    assert!(players.get(&Id("nobody".to_string())).is_none());
    assert_eq!(players.find(&ids[1]), Some(1));
    assert_eq!(players.find(&Id("nobody".to_string())), None);
}

#[test]
fn injured_player_that_is_held_elsewhere_is_not_killed() {
    let mut players: Players<Player> = Players::new();
    let mut hurt = named("pea", Role::Peasant);
    assert!(hurt.set_state(LifeState::Injured));
    let id = players.insert(hurt);
    let held: Arc<Player> = players.get(&id).expect("an injured player is in the game");
    players.kill_injureds();
    assert_eq!(held.state(), LifeState::Injured);
    assert_eq!(players.count_alives().citizen, 1);
    drop(held);
    players.kill_injureds();
    assert_eq!(players.count_alives().citizen, 0);
}

#[test]
fn scene_tells_the_count_only_so_often() {
    let (players, _ids) = village();
    let mut scene = GameScene::new(players, 2);
    assert_eq!(scene.status(), Some(PlayerCount { mafia: 2, citizen: 3, psycho: 1 }));
    assert!(scene.status().is_some());
    assert!(scene.status().is_none());
    assert!(scene.status().is_none());
}

#[test]
fn scene_standing_follows_the_counts() {
    let (players, _ids) = village();
    assert_eq!(GameScene::new(players, 0).state(), Status::Fighting);
    let mut even: Players<Player> = Players::new();
    even.insert(named("a", Role::Spy));
    even.insert(named("b", Role::Peasant));
    assert_eq!(GameScene::new(even, 0).state(), Status::Lost);
    let mut city: Players<Player> = Players::new();
    city.insert(named("b", Role::Peasant));
    assert_eq!(GameScene::new(city, 0).state(), Status::Won);
    let nobody: Players<Player> = Players::new();
    assert_eq!(GameScene::new(nobody, 0).state(), Status::Won);
    let mut mad: Players<Player> = Players::new();
    mad.insert(named("c", Role::Psycho));
    assert_eq!(GameScene::new(mad, 0).state(), Status::WTF);
    let mut mixed: Players<Player> = Players::new();
    mixed.insert(named("c", Role::Psycho));
    mixed.insert(named("b", Role::Peasant));
    assert_eq!(GameScene::new(mixed, 0).state(), Status::Fighting);
}

#[test]
fn scene_forgets_its_acts_on_waking_up() {
    let (players, ids) = village();
    let mut scene = GameScene::new(players, 1);
    assert_eq!(scene.eval_events(), Some(()));
    scene.cast_on(Id(ids[5].0.clone()), Id(ids[2].0.clone()));
    assert_eq!(scene.eval_events(), None);
    assert_eq!(scene.wakeup(), Status::Fighting);
    assert_eq!(scene.eval_events(), Some(()));
    assert_eq!(scene.status(), Some(PlayerCount { mafia: 2, citizen: 3, psycho: 1 }));
}

#[test]
fn numbered_players_are_found_by_id() {
    let mut players = mafia::players::Players::new();
    assert!(players.ids().is_empty());
    let ann = models::Player { user: models::UserInfo("ann".to_string()), role: models::Role::Citizen };
    let bob = models::Player { user: models::UserInfo("bob".to_string()), role: models::Role::Mafia };
    players.append_as(models::Id(7), ann);
    let drawn = players.append(bob);
    assert!(players.ids().contains(&models::Id(7)));
    assert!(players.ids().contains(&drawn));
    assert_eq!(players.get(models::Id(7)).map(|p| p.user.0.as_str()), Some("ann"));
    assert!(players.get(models::Id(8)).is_none() || drawn == models::Id(8));
    if let Some(player) = players.get_mut(models::Id(7)) {
        player.role = models::Role::Doctor(1);
    }
    assert_eq!(players.get(models::Id(7)).map(|p| p.role), Some(models::Role::Doctor(1)));
    let copy = players.clone();
    assert_eq!(copy.ids(), players.ids());
}

#[test]
fn kill_found_lets_the_player_die_that_was_handed_out() {
    let mut hurt = named("pea", Role::Peasant);
    assert!(hurt.set_state(Injured));
    assert!(kill_found(Some(&mut hurt)));
    assert_eq!(hurt.state(), Killed);
    assert_eq!(hurt.kind(), RoleKind::Citizen);
    assert!(!kill_found::<Player>(None));
}

#[test]
fn act_needs_both_players() {
    let mut psycho = named("psy", Role::Psycho);
    let mut peasant = named("pea", Role::Peasant);
    assert_eq!(GameScene::<Players<Player>>::act(Some(&mut psycho), None), None);
    assert_eq!(GameScene::<Players<Player>>::act(None, Some(&mut peasant)), None);
    assert_eq!(GameScene::<Players<Player>>::act(None, None), None);
    assert_eq!(peasant.state(), Alive);
    assert_eq!(
        GameScene::<Players<Player>>::act(Some(&mut psycho), Some(&mut peasant)),
        Some(())
    );
    assert_eq!(peasant.state(), Injured);
}

#[test]
fn waking_up_does_not_change_the_count() {
    let (players, ids) = village();
    let mut scene = GameScene::new(players, 1);
    let before = scene.state();
    scene.cast_on(Id(ids[5].0.clone()), Id(ids[2].0.clone()));
    scene.cast_on(Id(ids[1].0.clone()), Id(ids[3].0.clone()));
    assert_eq!(scene.wakeup(), before);
    assert_eq!(scene.status(), Some(PlayerCount { mafia: 2, citizen: 3, psycho: 1 }));
}
