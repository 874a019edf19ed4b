//! The desktop scene's physics decisions that do not depend on positions:
//! what a contact with a folder does to the player, which mini-game a folder
//! opens, and the counters of the bug-squashing game.
use vstd::prelude::*;
use crate::chance::random_between;
use crate::states::GameState;

verus! {

/// The side on which one box touches another.
#[derive(Debug, Clone, Copy, PartialEq, Eq, Structural)]
pub enum Collision {
    Left,
    Right,
    Top,
    Bottom,
    Inside,
}

/// What the player knows about what it stands on and touches.
#[derive(Debug, Clone, Copy, PartialEq, Eq, Structural)]
pub struct PlayerContacts {
    pub is_grounded: bool,
    pub is_grounded_folder: bool,
    pub is_colliding_left: bool,
    pub is_colliding_right: bool,
    /// The mini-game of the folder the player last landed on.
    pub folder_collide_id: i32,
    /// Frames left before a player who left a folder stops counting as on it.
    pub folder_collide_counter: i32,
}

/// The frames a player still counts as on a folder after leaving it.
pub const FOLDER_GRACE_FRAMES: i32 = 5;

/// Which parts of the player's motion a contact stops.
#[derive(Debug, Clone, Copy, PartialEq, Eq, Structural)]
pub struct Halt {
    pub stop_x: bool,
    pub stop_y: bool,
    pub stop_gravity: bool,
}

/// The player's contacts after a frame in which `hit` is the side on which
/// the player touches a folder with mini-game `folder_id` (`None`: no touch).
pub open spec fn contacts_after(p: PlayerContacts, hit: Option<Collision>, folder_id: i32) -> PlayerContacts {
    match hit {
        Some(Collision::Left) => PlayerContacts { is_colliding_left: true, ..p },
        Some(Collision::Right) => PlayerContacts { is_colliding_right: true, ..p },
        Some(Collision::Top) => PlayerContacts {
            is_grounded_folder: true,
            folder_collide_id: folder_id,
            folder_collide_counter: FOLDER_GRACE_FRAMES,
            ..p
        },
        Some(_) => p,
        None => {
            let counter = if p.folder_collide_counter >= 1 {
                (p.folder_collide_counter - 1) as i32
            } else {
                p.folder_collide_counter
            };
            PlayerContacts {
                is_colliding_left: false,
                is_colliding_right: false,
                folder_collide_counter: counter,
                is_grounded_folder: if counter <= 0 {
                    false
                } else {
                    p.is_grounded_folder
                },
                ..p
            }
        },
    }
}

/// The motion that a frame's touch stops.
pub open spec fn halt_of(hit: Option<Collision>) -> Halt {
    match hit {
        Some(Collision::Left) | Some(Collision::Right) | Some(Collision::Inside) => Halt {
            stop_x: true,
            stop_y: false,
            stop_gravity: false,
        },
        Some(Collision::Top) => Halt { stop_x: false, stop_y: true, stop_gravity: true },
        Some(Collision::Bottom) => Halt { stop_x: false, stop_y: true, stop_gravity: false },
        None => Halt { stop_x: false, stop_y: false, stop_gravity: false },
    }
}

/// One frame of the player against one folder: touching from the left or
/// right blocks that side and stops the sideways motion, landing on top
/// grounds the player on the folder (remembering its mini-game and starting
/// the grace count) and stops the fall and gravity, touching from below stops
/// the vertical motion, being inside stops the sideways motion; no touch
/// counts the grace frames down, unblocks both sides, and ends the grounding
/// when the count is out.
pub fn grounded_folder(player: &mut PlayerContacts, hit: Option<Collision>, folder_id: i32) -> (h: Halt)
    ensures
        *final(player) == contacts_after(*old(player), hit, folder_id),
        h == halt_of(hit),
        hit is None ==> !final(player).is_colliding_left && !final(player).is_colliding_right,
        hit == Some(Collision::Top) ==> final(player).is_grounded_folder
            && final(player).folder_collide_id == folder_id && final(player).folder_collide_counter
            == 5,
        final(player).is_grounded == old(player).is_grounded,
{
    match hit {
        Some(Collision::Left) => {
            player.is_colliding_left = true;
            Halt { stop_x: true, stop_y: false, stop_gravity: false }
        },
        Some(Collision::Right) => {
            player.is_colliding_right = true;
            Halt { stop_x: true, stop_y: false, stop_gravity: false }
        },
        Some(Collision::Top) => {
            player.is_grounded_folder = true;
            player.folder_collide_id = folder_id;
            player.folder_collide_counter = FOLDER_GRACE_FRAMES;
            Halt { stop_x: false, stop_y: true, stop_gravity: true }
        },
        Some(Collision::Bottom) => Halt { stop_x: false, stop_y: true, stop_gravity: false },
        Some(Collision::Inside) => Halt { stop_x: true, stop_y: false, stop_gravity: false },
        None => {
            if player.folder_collide_counter >= 1 {
                player.folder_collide_counter = player.folder_collide_counter - 1;
            }
            player.is_colliding_left = false;
            player.is_colliding_right = false;
            if player.folder_collide_counter <= 0 {
                player.is_grounded_folder = false;
            }
            Halt { stop_x: false, stop_y: false, stop_gravity: false }
        },
    }
}

/// Every frame keeps the grace count between 0 and its full length.
pub proof fn lemma_grace_count_stays_in_range(p: PlayerContacts, hit: Option<Collision>, folder_id: i32)
    requires
        0 <= p.folder_collide_counter <= FOLDER_GRACE_FRAMES,
    ensures
        0 <= contacts_after(p, hit, folder_id).folder_collide_counter <= FOLDER_GRACE_FRAMES,
{
}

/// Away from folders the player stays grounded on a folder for at most the
/// grace frames: after that many frames without a touch it is not.
pub proof fn lemma_grounding_ends_after_grace(p: PlayerContacts, folder_id: i32)
    requires
        0 <= p.folder_collide_counter <= FOLDER_GRACE_FRAMES,
    ensures
        !contacts_after(
            contacts_after(
                contacts_after(
                    contacts_after(contacts_after(p, None, folder_id), None, folder_id),
                    None,
                    folder_id,
                ),
                None,
                folder_id,
            ),
            None,
            folder_id,
        ).is_grounded_folder,
{
}

/// What the player's vertical motion does this frame.
#[derive(Debug, Clone, Copy, PartialEq, Eq, Structural)]
pub enum Vertical {
    /// Keep falling as gravity has it.
    Fall,
    /// Stand still on the ground or a folder.
    Rest,
    /// Leave the ground with a jump.
    Jump,
}

/// How the player's controls move it this frame.
#[derive(Debug, Clone, Copy, PartialEq, Eq, Structural)]
pub struct PlayerMove {
    /// Gravity is switched back on.
    pub gravity_on: bool,
    /// Accelerate to the left.
    pub push_left: bool,
    /// Accelerate to the right.
    pub push_right: bool,
    pub vertical: Vertical,
}

/// The player stands on something: the floor (reached before or this frame)
/// or a folder.
pub open spec fn is_supported(p: PlayerContacts, on_floor: bool) -> bool {
    p.is_grounded || on_floor || p.is_grounded_folder
}

/// The player's vertical motion for a frame of the controls.
pub open spec fn vertical_of(p: PlayerContacts, jump_pressed: bool, on_floor: bool) -> Vertical {
    if !is_supported(p, on_floor) {
        Vertical::Fall
    } else if jump_pressed {
        Vertical::Jump
    } else {
        Vertical::Rest
    }
}

/// The player's contacts after a frame of the controls: a jump leaves the
/// floor and the folder, else reaching the floor grounds the player.
pub open spec fn contacts_after_controls(p: PlayerContacts, jump_pressed: bool, on_floor: bool) -> PlayerContacts {
    if is_supported(p, on_floor) && jump_pressed {
        PlayerContacts { is_grounded: false, is_grounded_folder: false, ..p }
    } else {
        PlayerContacts { is_grounded: p.is_grounded || on_floor, ..p }
    }
}

/// One frame of the player's controls: gravity comes back when the player
/// stood on nothing; A pushes left unless the right side is blocked, D pushes
/// right unless the left side is blocked (as the game has it); reaching the
/// floor grounds the player; a supported player stands still, or jumps when
/// Space is held, which leaves both the floor and the folder.
pub fn player_controls(
    player: &mut PlayerContacts,
    left_pressed: bool,
    right_pressed: bool,
    jump_pressed: bool,
    on_floor: bool,
) -> (m: PlayerMove)
    ensures
        m.gravity_on == (!old(player).is_grounded && !old(player).is_grounded_folder),
        m.push_left == (left_pressed && !old(player).is_colliding_right),
        m.push_right == (right_pressed && !old(player).is_colliding_left),
        m.vertical == vertical_of(*old(player), jump_pressed, on_floor),
        *final(player) == contacts_after_controls(*old(player), jump_pressed, on_floor),
        (old(player).is_grounded || on_floor || old(player).is_grounded_folder) && jump_pressed
            ==> m.vertical == Vertical::Jump && !final(player).is_grounded
            && !final(player).is_grounded_folder,
        !(old(player).is_grounded || on_floor || old(player).is_grounded_folder) ==> m.vertical
            == Vertical::Fall,
        on_floor && !jump_pressed ==> final(player).is_grounded && m.vertical == Vertical::Rest,
{
    let gravity_on = !player.is_grounded && !player.is_grounded_folder;
    let push_left = left_pressed && !player.is_colliding_right;
    let push_right = right_pressed && !player.is_colliding_left;
    if on_floor {
        player.is_grounded = true;
    }
    let mut vertical = Vertical::Fall;
    if player.is_grounded || player.is_grounded_folder {
        vertical = Vertical::Rest;
        if jump_pressed {
            vertical = Vertical::Jump;
            player.is_grounded = false;
            player.is_grounded_folder = false;
        }
    }
    PlayerMove { gravity_on, push_left, push_right, vertical }
}

/// After a jump the player is in the air: the next frame that does not reach
/// the floor lets it fall and switches gravity back on, whatever is pressed.
pub proof fn lemma_jump_then_fall(p: PlayerContacts, on_floor: bool, jump_again: bool)
    requires
        vertical_of(p, true, on_floor) == Vertical::Jump,
    ensures
        vertical_of(contacts_after_controls(p, true, on_floor), jump_again, false) == Vertical::Fall,
        !contacts_after_controls(p, true, on_floor).is_grounded
            && !contacts_after_controls(p, true, on_floor).is_grounded_folder,
{
}

/// What the scene switcher asks the game to do, in order.
#[derive(Debug, Clone, Copy, PartialEq, Eq, Structural)]
pub enum SceneAction {
    /// Go to this scene.
    Enter(GameState),
    /// Set up the pinball table: background, goal, ball and flipper.
    SetUpPinball,
    /// Show the jump-scare pictures.
    ShowJumpscare,
    /// Show the bug background and restart the bug spawner.
    SetUpBugshoot,
    /// Ask for the mini-game to be closed and the story to advance.
    SendDespawn,
    /// Remove the mini-games' balls, backgrounds, bugs and flippers.
    ClearMiniGames,
}

/// The scene switcher's memory.
#[derive(Debug, Clone, Copy, PartialEq, Eq, Structural)]
pub struct SwitchFlags {
    pub pinball_spawned: bool,
    pub folder_open: bool,
}

/// What one player causes: the actions and the flags after them.
pub open spec fn player_switch(
    flags: SwitchFlags,
    p: PlayerContacts,
    m_pressed: bool,
    n_pressed: bool,
) -> (Seq<SceneAction>, SwitchFlags) {
    let (a1, f1) = if m_pressed && p.is_grounded_folder {
        if p.folder_collide_id == 0 {
            if !flags.pinball_spawned {
                (
                    seq![SceneAction::Enter(GameState::Pinball), SceneAction::SetUpPinball],
                    SwitchFlags { pinball_spawned: true, ..flags },
                )
            } else {
                (seq![SceneAction::Enter(GameState::Pinball)], flags)
            }
        } else if p.folder_collide_id == 1 {
            (seq![SceneAction::Enter(GameState::Jumpscare), SceneAction::ShowJumpscare], flags)
        } else if p.folder_collide_id == 2 {
            (seq![SceneAction::Enter(GameState::Bugshoot), SceneAction::SetUpBugshoot], flags)
        } else if p.folder_collide_id == 3 && !flags.folder_open {
            (
                seq![SceneAction::Enter(GameState::Folder), SceneAction::SendDespawn],
                SwitchFlags { folder_open: true, ..flags },
            )
        } else {
            (Seq::empty(), flags)
        }
    } else {
        (Seq::empty(), flags)
    };
    if n_pressed {
        (
            a1 + seq![SceneAction::Enter(GameState::InGame), SceneAction::ClearMiniGames],
            SwitchFlags { pinball_spawned: false, folder_open: false },
        )
    } else {
        (a1, f1)
    }
}

/// What the players, taken in order, cause.
pub open spec fn players_switch(
    flags: SwitchFlags,
    players: Seq<PlayerContacts>,
    m_pressed: bool,
    n_pressed: bool,
) -> (Seq<SceneAction>, SwitchFlags)
    decreases players.len(),
{
    if players.len() == 0 {
        (Seq::empty(), flags)
    } else {
        let (a, f) = players_switch(flags, players.drop_last(), m_pressed, n_pressed);
        let (b, g) = player_switch(f, players.last(), m_pressed, n_pressed);
        (a + b, g)
    }
}

/// The flags at the start of a switch: in the desktop scene no folder is
/// open.
pub open spec fn flags_on_entry(flags: SwitchFlags, state: GameState) -> SwitchFlags {
    if state == GameState::InGame {
        SwitchFlags { folder_open: false, ..flags }
    } else {
        flags
    }
}

/// Adds one player's actions.
fn player_switch_exec(
    flags: &mut SwitchFlags,
    actions: &mut Vec<SceneAction>,
    p: PlayerContacts,
    m_pressed: bool,
    n_pressed: bool,
)
    ensures
        final(actions)@ == old(actions)@ + player_switch(*old(flags), p, m_pressed, n_pressed).0,
        *final(flags) == player_switch(*old(flags), p, m_pressed, n_pressed).1,
{
    let ghost a0 = actions@;
    if m_pressed && p.is_grounded_folder {
        if p.folder_collide_id == 0 {
            actions.push(SceneAction::Enter(GameState::Pinball));
            if !flags.pinball_spawned {
                actions.push(SceneAction::SetUpPinball);
                flags.pinball_spawned = true;
            }
        } else if p.folder_collide_id == 1 {
            actions.push(SceneAction::Enter(GameState::Jumpscare));
            actions.push(SceneAction::ShowJumpscare);
        } else if p.folder_collide_id == 2 {
            actions.push(SceneAction::Enter(GameState::Bugshoot));
            actions.push(SceneAction::SetUpBugshoot);
        } else if p.folder_collide_id == 3 {
            if !flags.folder_open {
                flags.folder_open = true;
                actions.push(SceneAction::Enter(GameState::Folder));
                actions.push(SceneAction::SendDespawn);
            }
        }
    }
    if n_pressed {
        actions.push(SceneAction::Enter(GameState::InGame));
        flags.pinball_spawned = false;
        flags.folder_open = false;
        actions.push(SceneAction::ClearMiniGames);
    }
    assert(actions@ =~= a0 + player_switch(*old(flags), p, m_pressed, n_pressed).0);
}

/// The scene switcher of the desktop: in the desktop scene no folder counts
/// as open; then for each player, pressing M while standing on a folder
/// opens that folder's mini-game (0: pinball, set up once; 1: jump scare;
/// 2: bug shooting; 3: the documents folder, once, which also asks for the
/// story to advance), and pressing N returns to the desktop and removes the
/// mini-games.
pub fn switch_state(
    state: GameState,
    flags: &mut SwitchFlags,
    players: &Vec<PlayerContacts>,
    m_pressed: bool,
    n_pressed: bool,
) -> (actions: Vec<SceneAction>)
    ensures
        (actions@, *final(flags)) == players_switch(
            flags_on_entry(*old(flags), state),
            players@,
            m_pressed,
            n_pressed,
        ),
{
    if state == GameState::InGame {
        flags.folder_open = false;
    }
    let ghost f0 = *flags;
    let mut actions: Vec<SceneAction> = Vec::new();
    let mut i: usize = 0;
    while i < players.len()
        invariant
            i <= players.len(),
            (actions@, *flags) == players_switch(f0, players@.take(i as int), m_pressed, n_pressed),
        decreases players.len() - i,
    {
        assert(players@.take(i + 1).drop_last() =~= players@.take(i as int));
        player_switch_exec(flags, &mut actions, players[i], m_pressed, n_pressed);
        i = i + 1;
    }
    assert(players@.take(players.len() as int) =~= players@);
    actions
}

/// What a despawn request does.
#[derive(Debug, Clone, Copy, PartialEq, Eq, Structural)]
pub struct DespawnOutcome {
    /// Remove the mini-games' balls, backgrounds, bugs and flippers.
    pub clear: bool,
    pub next: Option<GameState>,
}

/// Handles one despawn request (the game takes one per frame): the
/// mini-games are removed, the story advances by one stage and, unless the
/// documents folder is open, the game returns to the desktop. Without a
/// request nothing happens.
pub fn despawn(request: bool, stage: &mut isize, folder_open: bool) -> (r: DespawnOutcome)
    requires
        request ==> *old(stage) < isize::MAX,
    ensures
        !request ==> *final(stage) == *old(stage) && r == (DespawnOutcome {
            clear: false,
            next: None,
        }),
        request ==> *final(stage) == *old(stage) + 1 && r == (DespawnOutcome {
            clear: true,
            next: if folder_open {
                None
            } else {
                Some(GameState::InGame)
            },
        }),
{
    if !request {
        return DespawnOutcome { clear: false, next: None };
    }
    *stage = *stage + 1;
    DespawnOutcome {
        clear: true,
        next: if folder_open {
            None
        } else {
            Some(GameState::InGame)
        },
    }
}

/// Whether the falling folders the recycle bin asks for may appear: only
/// while there are at most four of them.
pub fn spawn_folder_allowed(existing: usize) -> (r: bool)
    ensures
        r == (existing <= 4),
{
    existing <= 4
}

/// The frames, in milliseconds of play, between two bugs and a bug's life.
pub const BUG_TIMER_START: i32 = 2000;

/// The bug spawner of the bug-shooting game.
#[derive(Debug, Clone, Copy, PartialEq, Eq, Structural)]
pub struct BugSpawner {
    pub timer: i32,
    pub squished: i32,
}

/// A bug on the screen, with the time it has left.
#[derive(Debug, Clone, Copy, PartialEq, Eq, Structural)]
pub struct Bug {
    pub timer: i32,
}

/// A position on the screen, in pixels from its centre.
#[derive(Debug, Clone, Copy, PartialEq, Eq, Structural)]
pub struct ScreenPoint {
    pub x: i32,
    pub y: i32,
}

/// The spawner's timer after a tick: 17 ms less, or full again when out.
pub open spec fn spawner_timer_after(timer: i32) -> int {
    if timer - 17 <= 0 {
        BUG_TIMER_START as int
    } else {
        timer - 17
    }
}

/// What a tick of the bug spawner does.
#[derive(Debug, Clone, Copy, PartialEq, Eq, Structural)]
pub struct SpawnStep {
    /// Ten bugs were squashed: the mini-game is won and closes.
    pub send_despawn: bool,
    /// A new bug appears at this screen position.
    pub spawn_at: Option<ScreenPoint>,
}

/// One tick of the bug spawner (17 ms): ten squashed bugs win the game and
/// reset the tally; the timer runs down and, when it is out, a bug appears at
/// a random position on the screen and the timer restarts.
pub fn spawn_bugs(spawner: &mut BugSpawner) -> (r: SpawnStep)
    requires
        old(spawner).timer >= i32::MIN + 17,
    ensures
        r.send_despawn == (old(spawner).squished >= 10),
        final(spawner).squished == (if old(spawner).squished >= 10 {
            0
        } else {
            old(spawner).squished
        }),
        final(spawner).timer == spawner_timer_after(old(spawner).timer),
        old(spawner).timer - 17 > 0 ==> final(spawner).timer == old(spawner).timer - 17,
        old(spawner).timer - 17 <= 0 ==> final(spawner).timer == 2000,
        old(spawner).timer - 17 <= 0 ==> (r.spawn_at matches Some(at) && -608 <= at.x <= 608
            && -328 <= at.y <= 328),
        old(spawner).timer - 17 > 0 ==> r.spawn_at is None,
{
    let mut send_despawn = false;
    if spawner.squished >= 10 {
        spawner.squished = 0;
        send_despawn = true;
    }
    spawner.timer = spawner.timer - 17;
    let mut spawn_at = None;
    if spawner.timer <= 0 {
        let x = random_between(-608, 608);
        let y = random_between(-328, 328);
        spawn_at = Some(ScreenPoint { x, y });
        spawner.timer = BUG_TIMER_START;
    }
    SpawnStep { send_despawn, spawn_at }
}

/// One tick (5 ms) of the bugs on the screen: each bug's time runs down; a
/// bug that is clicked (`hits`) is squashed and counted, and a bug whose time
/// is out leaves. The result says, for each bug, whether it is removed.
pub fn shoot_bugs(bugs: &mut Vec<Bug>, hits: &Vec<bool>, squished: &mut i32) -> (removed: Vec<bool>)
    requires
        hits.len() == old(bugs).len(),
        forall|i: int| 0 <= i < old(bugs).len() ==> old(bugs)[i].timer >= i32::MIN + 5,
        *old(squished) + hits@.filter(|h: bool| h).len() <= i32::MAX,
    ensures
        final(bugs).len() == old(bugs).len(),
        removed.len() == old(bugs).len(),
        forall|i: int|
            #![trigger removed[i]]
            0 <= i < old(bugs).len() ==> {
                let t = old(bugs)[i].timer - 5;
                &&& removed[i] == (hits[i] || t <= 0)
                &&& final(bugs)[i].timer == (if !hits[i] && t <= 0 {
                    BUG_TIMER_START as int
                } else {
                    t
                })
            },
        *final(squished) == *old(squished) + hits@.filter(|h: bool| h).len(),
{
    let ghost b0 = bugs@;
    let ghost s0 = *squished;
    let mut removed: Vec<bool> = Vec::new();
    let mut i: usize = 0;
    while i < bugs.len()
        invariant
            hits.len() == b0.len(),
            bugs.len() == b0.len(),
            i <= bugs.len(),
            removed.len() == i,
            forall|j: int| 0 <= j < b0.len() ==> b0[j].timer >= i32::MIN + 5,
            s0 + hits@.filter(|h: bool| h).len() <= i32::MAX,
            forall|j: int| i <= j < b0.len() ==> bugs[j] == b0[j],
            forall|j: int|
                #![trigger removed[j]]
                0 <= j < i ==> {
                    let t = b0[j].timer - 5;
                    &&& removed[j] == (hits[j] || t <= 0)
                    &&& bugs[j].timer == (if !hits[j] && t <= 0 {
                        BUG_TIMER_START as int
                    } else {
                        t
                    })
                },
            *squished == s0 + hits@.take(i as int).filter(|h: bool| h).len(),
        decreases b0.len() - i,
    {
        proof {
            reveal(Seq::filter);
            assert(hits@.take(i + 1).drop_last() =~= hits@.take(i as int));
            hits@.take(i as int).lemma_filter_len(|h: bool| h);
            hits@.lemma_filter_take_len(|h: bool| h, i + 1);
        }
        assert(bugs[i as int] == b0[i as int]);
        let ghost before = bugs@;
        let ghost removed_before = removed@;
        let mut bug = bugs[i];
        bug.timer = bug.timer - 5;
        if hits[i] {
            *squished = *squished + 1;
            removed.push(true);
        } else if bug.timer <= 0 {
            bug.timer = BUG_TIMER_START;
            removed.push(true);
        } else {
            removed.push(false);
        }
        bugs.set(i, bug);
        assert forall|j: int| 0 <= j < i implies bugs[j] == before[j] && removed[j] == removed_before[j] by {}
        i = i + 1;
    }
    assert(hits@.take(b0.len() as int) =~= hits@);
    removed
}

/// The spawner's timer stays between 1 and its full length.
pub proof fn lemma_spawner_timer_in_range(timer: i32)
    requires
        0 < timer <= BUG_TIMER_START,
    ensures
        0 < spawner_timer_after(timer) <= BUG_TIMER_START,
{
}

/// Pressing N returns to the desktop whatever the players do: the last
/// actions are entering the desktop and removing the mini-games, and no
/// pinball table or folder is left open.
pub proof fn lemma_n_returns_to_desktop(flags: SwitchFlags, players: Seq<PlayerContacts>, m_pressed: bool)
    requires
        players.len() > 0,
    ensures
        ({
            let (actions, after) = players_switch(flags, players, m_pressed, true);
            &&& actions.len() >= 2
            &&& actions[actions.len() - 2] == SceneAction::Enter(GameState::InGame)
            &&& actions[actions.len() - 1] == SceneAction::ClearMiniGames
            &&& !after.pinball_spawned && !after.folder_open
        }),
{
}


/// What a frame against a folder does to the player, side by side: a touch
/// from the left or right blocks that side; landing on top grounds the player
/// on the folder, remembers its mini-game and starts a grace count of five
/// frames; a touch from below or inside changes nothing; a frame with no touch
/// unblocks both sides, counts the grace down by one (not below zero) and
/// ends the grounding on the folder once the count is out. The floor
/// grounding is never changed.
pub proof fn lemma_folder_contact_rules(p: PlayerContacts, hit: Option<Collision>, folder_id: i32)
    ensures
        ({
            let a = contacts_after(p, hit, folder_id);
            &&& a.is_grounded == p.is_grounded
            &&& hit == Some(Collision::Left) ==> a == PlayerContacts { is_colliding_left: true, ..p }
            &&& hit == Some(Collision::Right) ==> a == PlayerContacts {
                is_colliding_right: true,
                ..p
            }
            &&& hit == Some(Collision::Top) ==> a.is_grounded_folder && a.folder_collide_id
                == folder_id && a.folder_collide_counter == 5 && a.is_colliding_left
                == p.is_colliding_left && a.is_colliding_right == p.is_colliding_right
            &&& (hit == Some(Collision::Bottom) || hit == Some(Collision::Inside)) ==> a == p
            &&& hit is None ==> {
                &&& !a.is_colliding_left
                &&& !a.is_colliding_right
                &&& a.folder_collide_id == p.folder_collide_id
                &&& a.folder_collide_counter == (if p.folder_collide_counter > 0 {
                    p.folder_collide_counter - 1
                } else {
                    p.folder_collide_counter as int
                })
                &&& a.is_grounded_folder == (p.is_grounded_folder && a.folder_collide_counter > 0)
            }
        }),
{
}

/// Which motion a touch stops: a side touch or being inside stops the
/// sideways motion only; landing on top stops the fall and gravity; a touch
/// from below stops the vertical motion but keeps gravity; no touch stops
/// nothing.
pub proof fn lemma_halt_rules(hit: Option<Collision>)
    ensures
        (hit == Some(Collision::Left) || hit == Some(Collision::Right) || hit == Some(
            Collision::Inside,
        )) ==> halt_of(hit) == (Halt { stop_x: true, stop_y: false, stop_gravity: false }),
        hit == Some(Collision::Top) ==> halt_of(hit) == (Halt {
            stop_x: false,
            stop_y: true,
            stop_gravity: true,
        }),
        hit == Some(Collision::Bottom) ==> halt_of(hit) == (Halt {
            stop_x: false,
            stop_y: true,
            stop_gravity: false,
        }),
        hit is None ==> halt_of(hit) == (Halt { stop_x: false, stop_y: false, stop_gravity: false }),
{
}

/// The controls' rules on the player's vertical motion: a player standing on
/// the floor (before or this frame) or on a folder jumps when Space is held,
/// and the jump leaves both the floor and the folder; without Space it rests,
/// and reaching the floor grounds it; a player standing on nothing falls and
/// its contacts stay as they were. The side blocks, the folder's mini-game and
/// the grace count are never changed.
pub proof fn lemma_controls_rules(p: PlayerContacts, jump_pressed: bool, on_floor: bool)
    ensures
        ({
            let stands = p.is_grounded || on_floor || p.is_grounded_folder;
            let a = contacts_after_controls(p, jump_pressed, on_floor);
            let v = vertical_of(p, jump_pressed, on_floor);
            &&& stands && jump_pressed ==> v == Vertical::Jump && !a.is_grounded
                && !a.is_grounded_folder
            &&& stands && !jump_pressed ==> v == Vertical::Rest && a.is_grounded == (p.is_grounded
                || on_floor) && a.is_grounded_folder == p.is_grounded_folder
            &&& !stands ==> v == Vertical::Fall && a == p
            &&& a.is_colliding_left == p.is_colliding_left && a.is_colliding_right
                == p.is_colliding_right
            &&& a.folder_collide_id == p.folder_collide_id && a.folder_collide_counter
                == p.folder_collide_counter
        }),
{
}

/// The spawner's clock: a tick that does not run the timer out counts it
/// down by 17 ms; one that runs it out restarts it at 2000 ms.
pub proof fn lemma_spawner_countdown(timer: i32)
    ensures
        timer - 17 > 0 ==> spawner_timer_after(timer) == timer - 17,
        timer - 17 <= 0 ==> spawner_timer_after(timer) == 2000,
{
}

/// From a full timer the countdown takes 117 ticks that spawn nothing, down
/// to 11 ms, and the 118th tick runs it out and spawns a bug.
pub proof fn lemma_bug_within_118_ticks()
    ensures
        forall|k: int|
            0 <= k < 117 ==> #[trigger] spawner_timer_after((2000 - 17 * k) as i32) == 2000 - 17 * (
            k + 1),
        (2000 - 17 * 117) == 11,
        spawner_timer_after(11) == 2000,
        11 - 17 <= 0,
{
    assert forall|k: int| 0 <= k < 117 implies #[trigger] spawner_timer_after(
        (2000 - 17 * k) as i32,
    ) == 2000 - 17 * (k + 1) by {
        assert(((2000 - 17 * k) as i32) == 2000 - 17 * k);
    }
}


/// What pressing M does for a player standing on a folder (without N): the
/// pinball folder (0) enters pinball and sets the table up only the first
/// time; folder 1 shows the jump scare; folder 2 starts the bug shooting;
/// folder 3 opens the documents once and asks for the story to advance;
/// any other folder does nothing. Without M, or off a folder, nothing
/// happens.
pub proof fn lemma_m_opens_the_folders_game(flags: SwitchFlags, p: PlayerContacts, m_pressed: bool)
    ensures
        ({
            let (a, f) = player_switch(flags, p, m_pressed, false);
            &&& !(m_pressed && p.is_grounded_folder) ==> a == Seq::<SceneAction>::empty() && f == flags
            &&& m_pressed && p.is_grounded_folder && p.folder_collide_id == 0 ==> {
                &&& a[0] == SceneAction::Enter(GameState::Pinball)
                &&& a.len() == (if flags.pinball_spawned {
                    1int
                } else {
                    2int
                })
                &&& !flags.pinball_spawned ==> a[1] == SceneAction::SetUpPinball
                &&& f.pinball_spawned && f.folder_open == flags.folder_open
            }
            &&& m_pressed && p.is_grounded_folder && p.folder_collide_id == 1 ==> a == seq![
                SceneAction::Enter(GameState::Jumpscare),
                SceneAction::ShowJumpscare,
            ] && f == flags
            &&& m_pressed && p.is_grounded_folder && p.folder_collide_id == 2 ==> a == seq![
                SceneAction::Enter(GameState::Bugshoot),
                SceneAction::SetUpBugshoot,
            ] && f == flags
            &&& m_pressed && p.is_grounded_folder && p.folder_collide_id == 3 ==> (if flags.folder_open {
                a == Seq::<SceneAction>::empty() && f == flags
            } else {
                a == seq![SceneAction::Enter(GameState::Folder), SceneAction::SendDespawn]
                    && f.folder_open && f.pinball_spawned == flags.pinball_spawned
            })
            &&& m_pressed && p.is_grounded_folder && !(0 <= p.folder_collide_id <= 3) ==> a
                == Seq::<SceneAction>::empty() && f == flags
        }),
{
}

} // verus!
