use iexplorer::arcade::{
    despawn, grounded_folder, player_controls, shoot_bugs, spawn_bugs, spawn_folder_allowed,
    switch_state, Bug, BugSpawner, Collision, Halt, PlayerContacts, SceneAction, SwitchFlags,
    Vertical,
};
use iexplorer::states::GameState;

fn player() -> PlayerContacts {
    PlayerContacts {
        is_grounded: false,
        is_grounded_folder: false,
        is_colliding_left: false,
        is_colliding_right: false,
        folder_collide_id: 0,
        folder_collide_counter: 0,
    }
}

#[test]
fn landing_on_a_folder_grounds_the_player() {
    let mut p = player();
    let h = grounded_folder(&mut p, Some(Collision::Top), 2);
    assert_eq!(h, Halt { stop_x: false, stop_y: true, stop_gravity: true });
    assert!(p.is_grounded_folder);
    assert_eq!(p.folder_collide_id, 2);
    assert_eq!(p.folder_collide_counter, 5);
}

#[test]
fn side_contacts_block_the_side() {
    let mut p = player();
    let h = grounded_folder(&mut p, Some(Collision::Left), 1);
    assert_eq!(h, Halt { stop_x: true, stop_y: false, stop_gravity: false });
    assert!(p.is_colliding_left && !p.is_colliding_right);
    let h = grounded_folder(&mut p, Some(Collision::Right), 1);
    assert!(h.stop_x);
    assert!(p.is_colliding_right);
    assert_eq!(p.folder_collide_id, 0);
}

#[test]
fn bottom_and_inside_contacts() {
    let mut p = player();
    assert_eq!(
        grounded_folder(&mut p, Some(Collision::Bottom), 1),
        Halt { stop_x: false, stop_y: true, stop_gravity: false }
    );
    assert_eq!(
        grounded_folder(&mut p, Some(Collision::Inside), 1),
        Halt { stop_x: true, stop_y: false, stop_gravity: false }
    );
    assert_eq!(p, player());
}

#[test]
fn grounding_lasts_the_grace_frames() {
    let mut p = player();
    grounded_folder(&mut p, Some(Collision::Top), 3);
    p.is_colliding_left = true;
    for left in (1..5).rev() {
        grounded_folder(&mut p, None, 3);
        assert_eq!(p.folder_collide_counter, left);
        assert!(p.is_grounded_folder);
        assert!(!p.is_colliding_left);
    }
    grounded_folder(&mut p, None, 3);
    assert_eq!(p.folder_collide_counter, 0);
    assert!(!p.is_grounded_folder);
    grounded_folder(&mut p, None, 3);
    assert_eq!(p.folder_collide_counter, 0);
}

fn on_folder(id: i32) -> PlayerContacts {
    PlayerContacts { is_grounded_folder: true, folder_collide_id: id, ..player() }
}

#[test]
fn m_on_folder_zero_opens_pinball_once() {
    let mut flags = SwitchFlags { pinball_spawned: false, folder_open: false };
    let a = switch_state(GameState::InGame, &mut flags, &vec![on_folder(0)], true, false);
    assert_eq!(a, vec![SceneAction::Enter(GameState::Pinball), SceneAction::SetUpPinball]);
    assert!(flags.pinball_spawned);
    let a = switch_state(GameState::Pinball, &mut flags, &vec![on_folder(0)], true, false);
    assert_eq!(a, vec![SceneAction::Enter(GameState::Pinball)]);
}

#[test]
fn m_on_other_folders() {
    let mut flags = SwitchFlags { pinball_spawned: false, folder_open: false };
    assert_eq!(
        switch_state(GameState::InGame, &mut flags, &vec![on_folder(1)], true, false),
        vec![SceneAction::Enter(GameState::Jumpscare), SceneAction::ShowJumpscare]
    );
    assert_eq!(
        switch_state(GameState::InGame, &mut flags, &vec![on_folder(2)], true, false),
        vec![SceneAction::Enter(GameState::Bugshoot), SceneAction::SetUpBugshoot]
    );
    assert_eq!(
        switch_state(GameState::Folder, &mut flags, &vec![on_folder(3)], true, false),
        vec![SceneAction::Enter(GameState::Folder), SceneAction::SendDespawn]
    );
    assert!(flags.folder_open);
    assert!(switch_state(GameState::Folder, &mut flags, &vec![on_folder(3)], true, false).is_empty());
    assert!(switch_state(GameState::InGame, &mut flags, &vec![on_folder(7)], true, false).is_empty());
}

#[test]
fn desktop_scene_closes_the_folder_flag() {
    let mut flags = SwitchFlags { pinball_spawned: true, folder_open: true };
    let a = switch_state(GameState::InGame, &mut flags, &vec![on_folder(3)], true, false);
    assert_eq!(a.len(), 2);
    assert!(flags.folder_open && flags.pinball_spawned);
}

#[test]
fn m_off_folder_does_nothing() {
    let mut flags = SwitchFlags { pinball_spawned: false, folder_open: false };
    assert!(switch_state(GameState::InGame, &mut flags, &vec![player()], true, false).is_empty());
}

#[test]
fn n_returns_to_the_desktop() {
    let mut flags = SwitchFlags { pinball_spawned: true, folder_open: true };
    let a = switch_state(GameState::Pinball, &mut flags, &vec![on_folder(0)], true, true);
    assert_eq!(
        a,
        vec![
            SceneAction::Enter(GameState::Pinball),
            SceneAction::Enter(GameState::InGame),
            SceneAction::ClearMiniGames
        ]
    );
    assert!(!flags.pinball_spawned && !flags.folder_open);
}

#[test]
fn despawn_advances_the_story() {
    let mut stage: isize = 4;
    let r = despawn(true, &mut stage, false);
    assert_eq!(stage, 5);
    assert!(r.clear);
    assert_eq!(r.next, Some(GameState::InGame));
    let r = despawn(true, &mut stage, true);
    assert_eq!(stage, 6);
    assert_eq!(r.next, None);
    let r = despawn(false, &mut stage, false);
    assert_eq!(stage, 6);
    assert!(!r.clear);
}

#[test]
fn folders_spawn_while_few() {
    assert!(spawn_folder_allowed(0));
    assert!(spawn_folder_allowed(4));
    assert!(!spawn_folder_allowed(5));
}

#[test]
fn spawner_counts_down() {
    let mut s = BugSpawner { timer: 2000, squished: 3 };
    let r = spawn_bugs(&mut s);
    assert_eq!(s.timer, 1983);
    assert_eq!(s.squished, 3);
    assert!(!r.send_despawn);
    assert!(r.spawn_at.is_none());
}

#[test]
fn spawner_spawns_when_out() {
    for _ in 0..100 {
        let mut s = BugSpawner { timer: 17, squished: 0 };
        let r = spawn_bugs(&mut s);
        assert_eq!(s.timer, 2000);
        let at = r.spawn_at.unwrap();
        assert!((-608..=608).contains(&at.x) && (-328..=328).contains(&at.y));
    }
}

#[test]
fn ten_squashed_bugs_win() {
    let mut s = BugSpawner { timer: 500, squished: 10 };
    let r = spawn_bugs(&mut s);
    assert!(r.send_despawn);
    assert_eq!(s.squished, 0);
    assert_eq!(s.timer, 483);
}

#[test]
fn bugs_are_squashed_or_leave() {
    let mut bugs = vec![Bug { timer: 2000 }, Bug { timer: 5 }, Bug { timer: 3 }, Bug { timer: 100 }];
    let mut squished = 1;
    let removed = shoot_bugs(&mut bugs, &vec![true, false, true, false], &mut squished);
    assert_eq!(removed, vec![true, true, true, false]);
    assert_eq!(squished, 3);
    assert_eq!(bugs, vec![Bug { timer: 1995 }, Bug { timer: 2000 }, Bug { timer: -2 }, Bug { timer: 95 }]);
}

#[test]
fn an_airborne_player_falls_and_regains_gravity() {
    let mut p = player();
    let m = player_controls(&mut p, true, true, true, false);
    assert!(m.gravity_on);
    assert!(m.push_left && m.push_right);
    assert_eq!(m.vertical, Vertical::Fall);
    assert!(!p.is_grounded && !p.is_grounded_folder);
}

#[test]
fn reaching_the_floor_grounds_the_player() {
    let mut p = player();
    let m = player_controls(&mut p, false, false, false, true);
    assert_eq!(m.vertical, Vertical::Rest);
    assert!(m.gravity_on);
    assert!(p.is_grounded);
    let m = player_controls(&mut p, false, false, false, false);
    assert_eq!(m.vertical, Vertical::Rest);
    assert!(!m.gravity_on);
}

#[test]
fn blocked_sides_stop_the_push() {
    let mut p = player();
    p.is_colliding_left = true;
    let m = player_controls(&mut p, true, true, false, false);
    assert!(m.push_left);
    assert!(!m.push_right);
    p.is_colliding_right = true;
    let m = player_controls(&mut p, true, false, false, false);
    assert!(!m.push_left);
}

#[test]
fn a_jump_from_a_folder_is_followed_by_a_fall() {
    let mut p = player();
    p.is_grounded_folder = true;
    let m = player_controls(&mut p, false, false, true, false);
    assert_eq!(m.vertical, Vertical::Jump);
    assert!(!p.is_grounded && !p.is_grounded_folder);
    let m = player_controls(&mut p, false, false, true, false);
    assert_eq!(m.vertical, Vertical::Fall);
    assert!(m.gravity_on);
}

#[test]
fn many_bugs_with_few_hits_near_the_count_limit() {
    let mut bugs = vec![Bug { timer: 100 }; 3];
    let hits = vec![false, true, false];
    let mut squished = i32::MAX - 1;
    let removed = shoot_bugs(&mut bugs, &hits, &mut squished);
    assert_eq!(removed, vec![false, true, false]);
    assert_eq!(squished, i32::MAX);
    assert_eq!(bugs[0].timer, 95);
}
