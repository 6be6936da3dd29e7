use laberinto::game::{
    block_size_for, build_sprites, level_from_arg, load_level, CursorAction, Flow, FlowAction,
    FlowInput, Footsteps, MusicAction, Screen, StepsAction, Toggles, GAMEOVER_OPTION_COUNT, OPTION_FREEROAM, OPTION_MENU,
    OPTION_RESTART, OVER_RETRY,
};
use laberinto::color::Color;
use laberinto::maze::{Maze, ENEMY, GOAL};
use laberinto::sprites::DrawItem;

fn maze(text: &str) -> Maze {
    Maze::load(&text.chars().collect()).unwrap()
}

fn idle() -> FlowInput {
    FlowInput { up: false, down: false, pad_axis: 0, confirm: false, alive: true, on_goal: false }
}

#[test]
fn cells_fit_the_window() {
    assert_eq!(block_size_for(20, 10), 64);
    assert_eq!(block_size_for(10, 20), 36);
    assert_eq!(block_size_for(400, 10), 3);
    assert_eq!(block_size_for(200, 5), 6);
    assert!(200 * block_size_for(200, 5) <= 1280);
    assert_eq!(block_size_for(1280, 720), 1);
    assert_eq!(block_size_for(2000, 10), 1);
}

#[test]
fn the_level_argument_is_one_based_and_clamped() {
    assert_eq!(level_from_arg(None), 0);
    assert_eq!(level_from_arg(Some(0)), 0);
    assert_eq!(level_from_arg(Some(1)), 0);
    assert_eq!(level_from_arg(Some(2)), 1);
    assert_eq!(level_from_arg(Some(3)), 2);
    assert_eq!(level_from_arg(Some(99)), 2);
}

#[test]
fn a_level_needs_a_spawn() {
    assert!(load_level(maze("+ g+")).is_none());
    let level = load_level(maze("+p e\n+e g")).unwrap();
    assert_eq!(level.spawn, (1, 0));
    assert_eq!(level.goal, Some((3, 1)));
    assert_eq!(level.block_size, 320);
    let cells: Vec<(usize, usize)> = level.enemies.iter().map(|e| e.cell).collect();
    assert_eq!(cells, vec![(3, 0), (1, 1)]);
    assert!(level.enemies.iter().all(|e| e.kind == ENEMY && e.health == 3));
}

#[test]
fn sprites_are_live_enemies_then_the_exit() {
    let mut level = load_level(maze("p e e g")).unwrap();
    level.enemies[0].health = 0;
    level.enemies[1].hit_flash = 5;
    let items = build_sprites(&level);
    assert_eq!(
        items,
        vec![
            DrawItem { cell: (4, 0), kind: ENEMY, tint: Some(Color::white()) },
            DrawItem { cell: (6, 0), kind: GOAL, tint: None },
        ]
    );
    let no_exit = load_level(maze("pe")).unwrap();
    assert_eq!(build_sprites(&no_exit).len(), 1);
}

#[test]
fn the_menu_selects_and_starts_a_level() {
    let mut flow = Flow::new(0);
    assert_eq!(flow.update(FlowInput { up: true, ..idle() }), FlowAction::Stay);
    assert_eq!(flow.level_choice(), 2);
    assert_eq!(flow.update(FlowInput { confirm: true, ..idle() }), FlowAction::StartLevel);
    assert_eq!(flow.screen(), Screen::Playing);
    assert!(!flow.freeroam());
}

#[test]
fn dying_leads_to_game_over_and_retry_restarts() {
    let mut flow = Flow::new(1);
    flow.update(FlowInput { confirm: true, ..idle() });
    assert_eq!(flow.update(FlowInput { alive: false, ..idle() }), FlowAction::GameOver);
    assert_eq!(flow.screen(), Screen::GameOver);
    assert_eq!(flow.gameover_choice(), OVER_RETRY);
    assert_eq!(flow.update(FlowInput { confirm: true, ..idle() }), FlowAction::StartLevel);
    assert_eq!(flow.screen(), Screen::Playing);
    assert_eq!(flow.level_choice(), 1);
}

#[test]
fn game_over_can_go_back_to_the_menu() {
    let mut flow = Flow::new(0);
    flow.update(FlowInput { confirm: true, ..idle() });
    flow.update(FlowInput { alive: false, ..idle() });
    flow.update(FlowInput { down: true, ..idle() });
    assert_eq!(flow.gameover_choice(), GAMEOVER_OPTION_COUNT - 1);
    assert_eq!(flow.update(FlowInput { confirm: true, ..idle() }), FlowAction::Stay);
    assert_eq!(flow.screen(), Screen::Menu);
}

#[test]
fn reaching_the_exit_wins_once_then_free_roaming_goes_on() {
    let mut flow = Flow::new(0);
    flow.update(FlowInput { confirm: true, ..idle() });
    assert_eq!(flow.update(FlowInput { on_goal: true, ..idle() }), FlowAction::Victory);
    assert_eq!(flow.screen(), Screen::Victory);
    assert_eq!(flow.victory_choice(), OPTION_FREEROAM);
    assert_eq!(flow.update(FlowInput { confirm: true, ..idle() }), FlowAction::Resume);
    assert!(flow.freeroam());
    assert_eq!(flow.update(FlowInput { on_goal: true, ..idle() }), FlowAction::Stay);
    assert_eq!(flow.screen(), Screen::Playing);
}

#[test]
fn victory_options_restart_or_go_to_the_menu() {
    let mut flow = Flow::new(0);
    flow.update(FlowInput { confirm: true, ..idle() });
    flow.update(FlowInput { on_goal: true, ..idle() });
    flow.update(FlowInput { down: true, ..idle() });
    assert_eq!(flow.victory_choice(), OPTION_RESTART);
    assert_eq!(flow.update(FlowInput { confirm: true, ..idle() }), FlowAction::StartLevel);
    flow.update(FlowInput { on_goal: true, ..idle() });
    flow.update(FlowInput { up: true, ..idle() });
    assert_eq!(flow.victory_choice(), OPTION_MENU);
    assert_eq!(flow.update(FlowInput { confirm: true, ..idle() }), FlowAction::Stay);
    assert_eq!(flow.screen(), Screen::Menu);
}

#[test]
fn dying_on_the_exit_still_wins() {
    let mut flow = Flow::new(0);
    flow.update(FlowInput { confirm: true, ..idle() });
    let action = flow.update(FlowInput { alive: false, on_goal: true, ..idle() });
    assert_eq!(action, FlowAction::Victory);
    assert_eq!(flow.screen(), Screen::Victory);
}

#[test]
fn footsteps_follow_walking() {
    let mut steps = Footsteps::new();
    assert_eq!(steps.update(false), StepsAction::Keep);
    assert_eq!(steps.update(true), StepsAction::Play);
    assert_eq!(steps.update(true), StepsAction::Keep);
    assert_eq!(steps.update(false), StepsAction::Pause);
    assert_eq!(steps.update(true), StepsAction::Resume);
    assert!(steps.playing && steps.started);
}

#[test]
fn toggles_flip_and_drive_the_cursor_and_music() {
    let mut t = Toggles::new();
    assert_eq!(t.playing_keys(true, false), CursorAction::Keep);
    assert!(!t.show_minimap);
    assert_eq!(t.playing_keys(false, true), CursorAction::Release);
    assert!(!t.mouse_look);
    assert_eq!(t.playing_keys(true, true), CursorAction::Capture);
    assert!(t.show_minimap && t.mouse_look);
    t.playing_keys(false, true);
    assert_eq!(t.enter_play(), CursorAction::Capture);
    assert!(t.mouse_look);
    assert_eq!(t.music_key(false), MusicAction::Keep);
    assert_eq!(t.music_key(true), MusicAction::Pause);
    assert_eq!(t.music_key(true), MusicAction::Resume);
    assert!(t.music_on);
}
