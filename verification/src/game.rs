use vstd::prelude::*;
use crate::color::Color;
use crate::input::{menu_step, menu_step_of, wrap_choice};
use crate::maze::{Maze, ENEMY, GOAL, SPAWN};
use crate::sprites::{DrawItem, Enemy, ENEMY_HEALTH};
use crate::combat::count_alive;

verus! {

pub const WINDOW_WIDTH: usize = 1280;
pub const WINDOW_HEIGHT: usize = 720;
/// Smallest cell size, in pixels.
pub const MIN_BLOCK_SIZE: usize = 1;

/// Number of selectable levels.
pub const LEVEL_COUNT: usize = 3;

/// Options of the victory screen.
pub const VICTORY_OPTION_COUNT: usize = 3;
pub const OPTION_FREEROAM: usize = 0;
pub const OPTION_RESTART: usize = 1;
pub const OPTION_MENU: usize = 2;

/// Options of the game-over screen.
pub const GAMEOVER_OPTION_COUNT: usize = 2;
pub const OVER_RETRY: usize = 0;

pub open spec fn spec_block_size(width: nat, height: nat) -> nat {
    let fit = if WINDOW_WIDTH as nat / width <= WINDOW_HEIGHT as nat / height {
        WINDOW_WIDTH as nat / width
    } else {
        WINDOW_HEIGHT as nat / height
    };
    if fit >= MIN_BLOCK_SIZE {
        fit
    } else {
        MIN_BLOCK_SIZE as nat
    }
}

/// The largest cell size, in whole pixels, at which a `width` x `height` maze
/// fits in the window; never below one pixel.
pub fn block_size_for(width: usize, height: usize) -> (size: usize)
    requires
        width > 0,
        height > 0,
    ensures
        size == spec_block_size(width as nat, height as nat),
        size >= MIN_BLOCK_SIZE,
        width <= WINDOW_WIDTH && height <= WINDOW_HEIGHT ==> width * size <= WINDOW_WIDTH
            && height * size <= WINDOW_HEIGHT,
        width <= WINDOW_WIDTH && height <= WINDOW_HEIGHT ==> WINDOW_WIDTH < width * (size + 1)
            || WINDOW_HEIGHT < height * (size + 1),
{
    proof {
        let bw = WINDOW_WIDTH as int / width as int;
        let bh = WINDOW_HEIGHT as int / height as int;
        assert(width * bw <= WINDOW_WIDTH && WINDOW_WIDTH < width * (bw + 1)) by (nonlinear_arith)
            requires
                width > 0,
                bw == WINDOW_WIDTH as int / width as int,
        ;
        assert(height * bh <= WINDOW_HEIGHT && WINDOW_HEIGHT < height * (bh + 1)) by (nonlinear_arith)
            requires
                height > 0,
                bh == WINDOW_HEIGHT as int / height as int,
        ;
        if width <= WINDOW_WIDTH && height <= WINDOW_HEIGHT {
            assert(bw >= 1 && bh >= 1) by (nonlinear_arith)
                requires
                    0 < width <= WINDOW_WIDTH,
                    0 < height <= WINDOW_HEIGHT,
                    bw == WINDOW_WIDTH as int / width as int,
                    bh == WINDOW_HEIGHT as int / height as int,
            ;
            let fit = if bw <= bh { bw } else { bh };
            assert(width * fit <= width * bw && height * fit <= height * bh) by (nonlinear_arith)
                requires
                    width > 0,
                    height > 0,
                    fit <= bw,
                    fit <= bh,
            ;
        }
    }
    let by_width = WINDOW_WIDTH / width;
    let by_height = WINDOW_HEIGHT / height;
    let fit = if by_width <= by_height {
        by_width
    } else {
        by_height
    };
    if fit >= MIN_BLOCK_SIZE {
        fit
    } else {
        MIN_BLOCK_SIZE
    }
}

/// The level selected on start-up from a 1-based level number, clamped to
/// the existing levels; the first level when none is given.
pub fn level_from_arg(n: Option<usize>) -> (choice: usize)
    ensures
        choice == (match n {
            None => 0,
            Some(n) => if n == 0 {
                0
            } else if n - 1 < LEVEL_COUNT - 1 {
                (n - 1) as int
            } else {
                LEVEL_COUNT - 1
            },
        }),
        choice < LEVEL_COUNT,
{
    match n {
        None => 0,
        Some(n) => {
            let zero_based = if n == 0 {
                0
            } else {
                n - 1
            };
            if zero_based < LEVEL_COUNT - 1 {
                zero_based
            } else {
                LEVEL_COUNT - 1
            }
        },
    }
}

/// A loaded level: the maze, its cell size, where the player starts, the
/// exit and the enemies.
pub struct Level {
    pub maze: Maze,
    pub block_size: usize,
    /// The cell the player starts in.
    pub spawn: (usize, usize),
    /// The exit cell, if the maze has one.
    pub goal: Option<(usize, usize)>,
    pub enemies: Vec<Enemy>,
}

/// Sets up a level from its maze: the player starts in the first `p` cell,
/// the exit is the first `g` cell, and every `e` cell holds a fresh enemy.
/// `None` when the maze has no `p` cell.
pub fn load_level(maze: Maze) -> (level: Option<Level>)
    ensures
        level is None <==> maze.holds_none(SPAWN),
        level matches Some(l) ==> {
            &&& l.maze == maze
            &&& l.block_size == spec_block_size(maze.spec_width() as nat, maze.spec_height() as nat)
            &&& maze.spec_width() <= WINDOW_WIDTH && maze.spec_height() <= WINDOW_HEIGHT ==> {
                &&& maze.spec_width() * l.block_size <= WINDOW_WIDTH
                &&& maze.spec_height() * l.block_size <= WINDOW_HEIGHT
            }
            &&& maze.first_holding(SPAWN, l.spawn)
            &&& (l.goal is None ==> maze.holds_none(GOAL))
            &&& (l.goal matches Some(g) ==> maze.first_holding(GOAL, g))
            &&& maze.all_holding(ENEMY, l.enemies@.map_values(|e: Enemy| e.cell))
            &&& forall|k: int|
                0 <= k < l.enemies@.len() ==> (#[trigger] l.enemies@[k]).kind == ENEMY
                    && l.enemies@[k].health == ENEMY_HEALTH && l.enemies@[k].hit_flash == 0
        },
{
    let block_size = block_size_for(maze.width(), maze.height());
    let spawn = match maze.find(SPAWN) {
        Some(p) => p,
        None => return None,
    };
    let goal = maze.find(GOAL);
    let cells = maze.find_all(ENEMY);
    let mut enemies: Vec<Enemy> = Vec::new();
    let n = cells.len();
    for k in 0..n
        invariant
            n == cells@.len(),
            enemies@.len() == k,
            forall|q: int|
                0 <= q < k ==> #[trigger] enemies@[q] == (Enemy {
                    cell: cells@[q],
                    kind: ENEMY,
                    health: ENEMY_HEALTH,
                    hit_flash: 0,
                }),
    {
        enemies.push(Enemy::new(cells[k], ENEMY));
    }
    proof {
        assert(enemies@.map_values(|e: Enemy| e.cell) =~= cells@);
    }
    Some(Level { maze, block_size, spawn, goal, enemies })
}

/// How an enemy is drawn: flashing white while its hit flash lasts.
pub open spec fn sprite_of(e: Enemy) -> DrawItem {
    DrawItem {
        cell: e.cell,
        kind: e.kind,
        tint: if e.hit_flash > 0 {
            Some(Color { r: 255, g: 255, b: 255, a: 255 })
        } else {
            None
        },
    }
}

pub open spec fn live_sprite(e: Enemy) -> Option<DrawItem> {
    if e.health > 0 {
        Some(sprite_of(e))
    } else {
        None
    }
}

/// One billboard per live enemy, whatever its health: the enemies' share of
/// the billboards has as many items as there are live enemies, and holds
/// each live enemy's cell and kind, tinted white exactly while it flashes.
pub proof fn lemma_live_sprites(es: Seq<Enemy>)
    ensures
        es.filter_map(|e: Enemy| live_sprite(e)).len() == count_alive(es),
        forall|k: int|
            0 <= k < es.len() && (#[trigger] es[k]).health > 0 ==> es.filter_map(
                |e: Enemy| live_sprite(e),
            ).contains(
                DrawItem {
                    cell: es[k].cell,
                    kind: es[k].kind,
                    tint: if es[k].hit_flash > 0 {
                        Some(Color { r: 255, g: 255, b: 255, a: 255 })
                    } else {
                        None
                    },
                },
            ),
    decreases es.len(),
{
    let f = |e: Enemy| live_sprite(e);
    if es.len() > 0 {
        let rest = es.drop_last();
        lemma_live_sprites(rest);
        let prev = rest.filter_map(f);
        assert forall|k: int|
            0 <= k < es.len() && (#[trigger] es[k]).health > 0 implies es.filter_map(f).contains(
                sprite_of(es[k]),
            ) by {
            if k < es.len() - 1 {
                assert(rest[k] == es[k]);
                let q = choose|q: int| 0 <= q < prev.len() && prev[q] == sprite_of(rest[k]);
                if es.last().health > 0 {
                    assert(es.filter_map(f) == prev + seq![sprite_of(es.last())]);
                    assert(es.filter_map(f)[q] == sprite_of(es[k]));
                } else {
                    assert(es.filter_map(f) == prev);
                }
            } else {
                assert(es.filter_map(f) == prev + seq![sprite_of(es.last())]);
                assert(es.filter_map(f)[prev.len() as int] == sprite_of(es[k]));
            }
        }
    }
}

/// The billboards of a frame: the live enemies, flashing if just hit, then
/// the exit, untinted: killing enemies is optional, so the exit shows no
/// locked state.
pub fn build_sprites(level: &Level) -> (items: Vec<DrawItem>)
    ensures
        items@ == level.enemies@.filter_map(|e: Enemy| live_sprite(e)) + (match level.goal {
            Some(g) => seq![DrawItem { cell: g, kind: GOAL, tint: None }],
            None => Seq::<DrawItem>::empty(),
        }),
        items@.len() == count_alive(level.enemies@) + if level.goal is Some {
            1int
        } else {
            0int
        },
{
    let mut items: Vec<DrawItem> = Vec::new();
    let n = level.enemies.len();
    proof {
        assert(level.enemies@.take(0) =~= Seq::<Enemy>::empty());
    }
    for k in 0..n
        invariant
            n == level.enemies@.len(),
            items@ == level.enemies@.take(k as int).filter_map(|e: Enemy| live_sprite(e)),
    {
        let e = level.enemies[k];
        proof {
            level.enemies@.lemma_filter_map_take_succ(|e: Enemy| live_sprite(e), k as int);
        }
        if e.alive() {
            let tint = if e.hit_flash > 0 {
                Some(Color::white())
            } else {
                None
            };
            items.push(DrawItem { cell: e.cell, kind: e.kind, tint });
        }
    }
    proof {
        assert(level.enemies@.take(n as int) =~= level.enemies@);
    }
    let ghost live = items@;
    proof {
        lemma_live_sprites(level.enemies@);
    }
    if let Some(g) = level.goal {
        items.push(DrawItem { cell: g, kind: GOAL, tint: None });
        proof {
            assert(items@ =~= live + seq![DrawItem { cell: g, kind: GOAL, tint: None }]);
        }
    } else {
        proof {
            assert(items@ =~= live + Seq::<DrawItem>::empty());
        }
    }
    items
}

/// The screen being shown.
#[derive(Clone, Copy, PartialEq, Eq, Structural, Debug)]
pub enum Screen {
    Menu,
    Playing,
    Victory,
    GameOver,
}

/// What the caller has to do after a frame's decisions.
#[derive(Clone, Copy, PartialEq, Eq, Structural, Debug)]
pub enum FlowAction {
    /// Nothing beyond drawing the current screen.
    Stay,
    /// Load the chosen level, reset the player and combat, restart the clock
    /// and capture the cursor.
    StartLevel,
    /// Keep exploring the finished level: capture the cursor again.
    Resume,
    /// The player died: release the cursor.
    GameOver,
    /// The player reached the exit: stop the clock and release the cursor.
    Victory,
}

/// One frame of input for the screen flow. `up`, `down`, `pad_axis` and
/// `confirm` are read on the menu screens; `alive` (after this frame's combat)
/// and `on_goal` (the player stands on the exit cell) while playing.
#[derive(Clone, Copy, PartialEq, Eq, Structural, Debug)]
pub struct FlowInput {
    pub up: bool,
    pub down: bool,
    pub pad_axis: i32,
    pub confirm: bool,
    pub alive: bool,
    pub on_goal: bool,
}

/// `choice` moved by `step` among `count` options, wrapping around.
pub open spec fn stepped(choice: usize, step: int, count: usize) -> usize {
    if step != 0 {
        ((choice + step) % (count as int)) as usize
    } else {
        choice
    }
}

/// Which screen is up, the selections on the menu screens, and whether the
/// finished level is being explored freely.
pub struct Flow {
    screen: Screen,
    level_choice: usize,
    victory_choice: usize,
    gameover_choice: usize,
    freeroam: bool,
    pad_menu_rested: bool,
}

impl Flow {
    #[verifier::type_invariant]
    closed spec fn well_formed(self) -> bool {
        &&& self.level_choice < LEVEL_COUNT
        &&& self.victory_choice < VICTORY_OPTION_COUNT
        &&& self.gameover_choice < GAMEOVER_OPTION_COUNT
    }

    pub closed spec fn spec_screen(&self) -> Screen {
        self.screen
    }

    pub closed spec fn spec_level_choice(&self) -> usize {
        self.level_choice
    }

    pub closed spec fn spec_victory_choice(&self) -> usize {
        self.victory_choice
    }

    pub closed spec fn spec_gameover_choice(&self) -> usize {
        self.gameover_choice
    }

    pub closed spec fn spec_freeroam(&self) -> bool {
        self.freeroam
    }

    pub closed spec fn spec_pad_rested(&self) -> bool {
        self.pad_menu_rested
    }

    /// The flow at start-up: the level menu, with `level_choice` selected.
    pub fn new(level_choice: usize) -> (f: Flow)
        requires
            level_choice < LEVEL_COUNT,
        ensures
            f.spec_screen() == Screen::Menu,
            f.spec_level_choice() == level_choice,
            f.spec_victory_choice() == OPTION_FREEROAM,
            f.spec_gameover_choice() == OVER_RETRY,
            !f.spec_freeroam(),
            f.spec_pad_rested(),
    {
        Flow {
            screen: Screen::Menu,
            level_choice,
            victory_choice: OPTION_FREEROAM,
            gameover_choice: OVER_RETRY,
            freeroam: false,
            pad_menu_rested: true,
        }
    }

    #[verifier::when_used_as_spec(spec_screen)]
    pub fn screen(&self) -> (s: Screen)
        ensures
            s == self.spec_screen(),
    {
        self.screen
    }

    #[verifier::when_used_as_spec(spec_level_choice)]
    pub fn level_choice(&self) -> (c: usize)
        ensures
            c == self.spec_level_choice(),
            c < LEVEL_COUNT,
    {
        proof {
            use_type_invariant(self);
        }
        self.level_choice
    }

    #[verifier::when_used_as_spec(spec_victory_choice)]
    pub fn victory_choice(&self) -> (c: usize)
        ensures
            c == self.spec_victory_choice(),
            c < VICTORY_OPTION_COUNT,
    {
        proof {
            use_type_invariant(self);
        }
        self.victory_choice
    }

    #[verifier::when_used_as_spec(spec_gameover_choice)]
    pub fn gameover_choice(&self) -> (c: usize)
        ensures
            c == self.spec_gameover_choice(),
            c < GAMEOVER_OPTION_COUNT,
    {
        proof {
            use_type_invariant(self);
        }
        self.gameover_choice
    }

    #[verifier::when_used_as_spec(spec_freeroam)]
    pub fn freeroam(&self) -> (f: bool)
        ensures
            f == self.spec_freeroam(),
    {
        self.freeroam
    }

    /// Menu-screen navigation: the gamepad's rest flag is updated, and the
    /// selection moved by this frame's step.
    fn navigate(&mut self, input: FlowInput, choice: usize, count: usize) -> (moved: usize)
        requires
            -1 <= input.pad_axis <= 1,
            0 < count <= 3,
            choice < count,
        ensures
            moved == stepped(
                choice,
                menu_step_of(input.up, input.down, input.pad_axis, old(self).spec_pad_rested()),
                count,
            ),
            moved < count,
            final(self).spec_pad_rested() == (input.pad_axis == 0),
            final(self).spec_screen() == old(self).spec_screen(),
            final(self).spec_level_choice() == old(self).spec_level_choice(),
            final(self).spec_victory_choice() == old(self).spec_victory_choice(),
            final(self).spec_gameover_choice() == old(self).spec_gameover_choice(),
            final(self).spec_freeroam() == old(self).spec_freeroam(),
    {
        proof {
            use_type_invariant(&*self);
        }
        let mut rested = self.pad_menu_rested;
        let step = menu_step(input.up, input.down, input.pad_axis, &mut rested);
        self.pad_menu_rested = rested;
        if step != 0 {
            wrap_choice(choice, step, count)
        } else {
            choice
        }
    }

    /// One frame of the screen flow.
    ///
    /// - Level menu: up and down move the selection, wrapping; confirming
    ///   starts the selected level.
    /// - Playing: dying leads to the game-over screen with "retry" selected;
    ///   standing on the exit, unless the level was already finished, leads to
    ///   the victory screen with "keep exploring" selected. Reaching the exit
    ///   on the frame one dies counts as a victory.
    /// - Game over: "retry" restarts the level, the other option goes back to
    ///   the level menu.
    /// - Victory: "keep exploring" resumes the finished level, "restart"
    ///   restarts it, and the last option goes back to the level menu.
    pub fn update(&mut self, input: FlowInput) -> (action: FlowAction)
        requires
            -1 <= input.pad_axis <= 1,
        ensures
            old(self).spec_screen() == Screen::Menu ==> menu_next(*old(self), *final(self), input, action),
            old(self).spec_screen() == Screen::Playing ==> playing_next(*old(self), *final(self), input, action),
            old(self).spec_screen() == Screen::Playing && !input.alive && !input.on_goal ==> {
                &&& final(self).spec_screen() == Screen::GameOver
                &&& action == FlowAction::GameOver
                &&& final(self).spec_gameover_choice() == OVER_RETRY
            },
            old(self).spec_screen() == Screen::Playing && input.on_goal && !old(self).spec_freeroam()
                ==> final(self).spec_screen() == Screen::Victory && action == FlowAction::Victory,
            old(self).spec_screen() == Screen::Playing && input.alive && !(input.on_goal
                && !old(self).spec_freeroam()) ==> final(self).spec_screen() == Screen::Playing
                && action == FlowAction::Stay,
            old(self).spec_screen() == Screen::GameOver ==> game_over_next(*old(self), *final(self), input, action),
            old(self).spec_screen() == Screen::Victory ==> victory_next(*old(self), *final(self), input, action),
    {
        proof {
            use_type_invariant(&*self);
        }
        match self.screen {
            Screen::Menu => {
                let choice = self.navigate(input, self.level_choice, LEVEL_COUNT);
                self.level_choice = choice;
                if input.confirm {
                    self.freeroam = false;
                    self.screen = Screen::Playing;
                    return FlowAction::StartLevel;
                }
                FlowAction::Stay
            },
            Screen::Playing => {
                let mut action = FlowAction::Stay;
                if !input.alive {
                    self.screen = Screen::GameOver;
                    self.gameover_choice = OVER_RETRY;
                    action = FlowAction::GameOver;
                }
                if input.on_goal && !self.freeroam {
                    self.screen = Screen::Victory;
                    self.victory_choice = OPTION_FREEROAM;
                    action = FlowAction::Victory;
                }
                action
            },
            Screen::GameOver => {
                let choice = self.navigate(input, self.gameover_choice, GAMEOVER_OPTION_COUNT);
                self.gameover_choice = choice;
                if input.confirm {
                    if choice == OVER_RETRY {
                        self.freeroam = false;
                        self.screen = Screen::Playing;
                        return FlowAction::StartLevel;
                    } else {
                        self.screen = Screen::Menu;
                    }
                }
                FlowAction::Stay
            },
            Screen::Victory => {
                let choice = self.navigate(input, self.victory_choice, VICTORY_OPTION_COUNT);
                self.victory_choice = choice;
                if input.confirm {
                    if choice == OPTION_RESTART {
                        self.freeroam = false;
                        self.screen = Screen::Playing;
                        return FlowAction::StartLevel;
                    } else if choice == OPTION_MENU {
                        self.screen = Screen::Menu;
                    } else {
                        self.freeroam = true;
                        self.screen = Screen::Playing;
                        return FlowAction::Resume;
                    }
                }
                FlowAction::Stay
            },
        }
    }
}

/// The step that this frame's input makes on a menu screen.
pub open spec fn flow_step(o: Flow, input: FlowInput) -> int {
    menu_step_of(input.up, input.down, input.pad_axis, o.spec_pad_rested())
}

/// Level menu: the selection moves, and confirming starts the level.
pub open spec fn menu_next(o: Flow, n: Flow, input: FlowInput, action: FlowAction) -> bool {
    &&& n.spec_pad_rested() == (input.pad_axis == 0)
    &&& n.spec_level_choice() == stepped(o.spec_level_choice(), flow_step(o, input), LEVEL_COUNT)
    &&& n.spec_victory_choice() == o.spec_victory_choice()
    &&& n.spec_gameover_choice() == o.spec_gameover_choice()
    &&& if input.confirm {
        &&& n.spec_screen() == Screen::Playing
        &&& !n.spec_freeroam()
        &&& action == FlowAction::StartLevel
    } else {
        &&& n.spec_screen() == Screen::Menu
        &&& n.spec_freeroam() == o.spec_freeroam()
        &&& action == FlowAction::Stay
    }
}

/// Playing: death leads to the game-over screen and reaching the exit, unless
/// already exploring the finished level, to the victory screen, which wins
/// when both happen on one frame.
pub open spec fn playing_next(o: Flow, n: Flow, input: FlowInput, action: FlowAction) -> bool {
    let won = input.on_goal && !o.spec_freeroam();
    &&& n.spec_pad_rested() == o.spec_pad_rested()
    &&& n.spec_level_choice() == o.spec_level_choice()
    &&& n.spec_freeroam() == o.spec_freeroam()
    &&& n.spec_victory_choice() == if won {
        OPTION_FREEROAM
    } else {
        o.spec_victory_choice()
    }
    &&& n.spec_gameover_choice() == if !input.alive {
        OVER_RETRY
    } else {
        o.spec_gameover_choice()
    }
    &&& n.spec_screen() == if won {
        Screen::Victory
    } else if !input.alive {
        Screen::GameOver
    } else {
        Screen::Playing
    }
    &&& action == if won {
        FlowAction::Victory
    } else if !input.alive {
        FlowAction::GameOver
    } else {
        FlowAction::Stay
    }
}

/// Death always ends the run: from the playing screen, a frame on which the
/// player is dead and not on the exit leads to the game-over screen with
/// "retry" selected, whether or not the finished level is being explored.
/// Reaching the exit of an unfinished level wins, dead or alive; any other
/// frame keeps playing.
pub proof fn lemma_playing_outcomes(o: Flow, n: Flow, input: FlowInput, action: FlowAction)
    requires
        o.spec_screen() == Screen::Playing,
        playing_next(o, n, input, action),
    ensures
        !input.alive && !input.on_goal ==> n.spec_screen() == Screen::GameOver && action
            == FlowAction::GameOver && n.spec_gameover_choice() == OVER_RETRY,
        input.on_goal && !o.spec_freeroam() ==> n.spec_screen() == Screen::Victory && action
            == FlowAction::Victory && n.spec_victory_choice() == OPTION_FREEROAM,
        input.alive && !(input.on_goal && !o.spec_freeroam()) ==> n.spec_screen()
            == Screen::Playing && action == FlowAction::Stay,
        n.spec_level_choice() == o.spec_level_choice() && n.spec_freeroam() == o.spec_freeroam(),
{
}

/// Game over: "retry" restarts the level, the other option returns to the
/// level menu.
pub open spec fn game_over_next(o: Flow, n: Flow, input: FlowInput, action: FlowAction) -> bool {
    let choice = stepped(o.spec_gameover_choice(), flow_step(o, input), GAMEOVER_OPTION_COUNT);
    &&& n.spec_pad_rested() == (input.pad_axis == 0)
    &&& n.spec_gameover_choice() == choice
    &&& n.spec_level_choice() == o.spec_level_choice()
    &&& n.spec_victory_choice() == o.spec_victory_choice()
    &&& if !input.confirm {
        &&& n.spec_screen() == Screen::GameOver
        &&& n.spec_freeroam() == o.spec_freeroam()
        &&& action == FlowAction::Stay
    } else if choice == OVER_RETRY {
        &&& n.spec_screen() == Screen::Playing
        &&& !n.spec_freeroam()
        &&& action == FlowAction::StartLevel
    } else {
        &&& n.spec_screen() == Screen::Menu
        &&& n.spec_freeroam() == o.spec_freeroam()
        &&& action == FlowAction::Stay
    }
}

/// Victory: "keep exploring" resumes the finished level, "restart" restarts
/// it, and the last option returns to the level menu.
pub open spec fn victory_next(o: Flow, n: Flow, input: FlowInput, action: FlowAction) -> bool {
    let choice = stepped(o.spec_victory_choice(), flow_step(o, input), VICTORY_OPTION_COUNT);
    &&& n.spec_pad_rested() == (input.pad_axis == 0)
    &&& n.spec_victory_choice() == choice
    &&& n.spec_level_choice() == o.spec_level_choice()
    &&& n.spec_gameover_choice() == o.spec_gameover_choice()
    &&& if !input.confirm {
        &&& n.spec_screen() == Screen::Victory
        &&& n.spec_freeroam() == o.spec_freeroam()
        &&& action == FlowAction::Stay
    } else if choice == OPTION_RESTART {
        &&& n.spec_screen() == Screen::Playing
        &&& !n.spec_freeroam()
        &&& action == FlowAction::StartLevel
    } else if choice == OPTION_MENU {
        &&& n.spec_screen() == Screen::Menu
        &&& n.spec_freeroam() == o.spec_freeroam()
        &&& action == FlowAction::Stay
    } else {
        &&& n.spec_screen() == Screen::Playing
        &&& n.spec_freeroam()
        &&& action == FlowAction::Resume
    }
}

/// Whether the footsteps loop has ever started, and whether it is playing.
#[derive(Clone, Copy, PartialEq, Eq, Structural, Debug)]
pub struct Footsteps {
    pub started: bool,
    pub playing: bool,
}

/// What to do with the footsteps loop this frame.
#[derive(Clone, Copy, PartialEq, Eq, Structural, Debug)]
pub enum StepsAction {
    Keep,
    /// Start it from the beginning (the first time).
    Play,
    /// Continue it where it was paused.
    Resume,
    Pause,
}

impl Footsteps {
    pub fn new() -> (f: Footsteps)
        ensures
            !f.started && !f.playing,
    {
        Footsteps { started: false, playing: false }
    }

    /// Footsteps play exactly while the player walks: the loop starts on the
    /// first step, pauses when the player stops, and resumes from where it
    /// was.
    pub fn update(&mut self, walking: bool) -> (action: StepsAction)
        ensures
            final(self).playing == walking,
            final(self).started == (old(self).started || (walking && !old(self).playing)),
            action == (if walking && !old(self).playing {
                if old(self).started {
                    StepsAction::Resume
                } else {
                    StepsAction::Play
                }
            } else if !walking && old(self).playing {
                StepsAction::Pause
            } else {
                StepsAction::Keep
            }),
    {
        if walking && !self.playing {
            let action = if self.started {
                StepsAction::Resume
            } else {
                StepsAction::Play
            };
            self.started = true;
            self.playing = true;
            action
        } else if !walking && self.playing {
            self.playing = false;
            StepsAction::Pause
        } else {
            StepsAction::Keep
        }
    }
}

/// Display settings toggled from the keyboard: the minimap, looking around
/// with the mouse, and the music.
#[derive(Clone, Copy, PartialEq, Eq, Structural, Debug)]
pub struct Toggles {
    pub show_minimap: bool,
    pub mouse_look: bool,
    pub music_on: bool,
}

/// What to do with the mouse cursor.
#[derive(Clone, Copy, PartialEq, Eq, Structural, Debug)]
pub enum CursorAction {
    Keep,
    /// Hide it and read mouse movement as looking around.
    Capture,
    /// Free it.
    Release,
}

/// What to do with the music.
#[derive(Clone, Copy, PartialEq, Eq, Structural, Debug)]
pub enum MusicAction {
    Keep,
    Resume,
    Pause,
}

impl Toggles {
    /// At start-up everything is on.
    pub fn new() -> (t: Toggles)
        ensures
            t.show_minimap && t.mouse_look && t.music_on,
    {
        Toggles { show_minimap: true, mouse_look: true, music_on: true }
    }

    /// While playing: the minimap key shows or hides the minimap, and the
    /// cursor key switches mouse look, capturing or releasing the cursor to
    /// match.
    pub fn playing_keys(&mut self, minimap_pressed: bool, cursor_pressed: bool) -> (action: CursorAction)
        ensures
            final(self).show_minimap == (old(self).show_minimap != minimap_pressed),
            final(self).mouse_look == (old(self).mouse_look != cursor_pressed),
            final(self).music_on == old(self).music_on,
            action == (if !cursor_pressed {
                CursorAction::Keep
            } else if final(self).mouse_look {
                CursorAction::Capture
            } else {
                CursorAction::Release
            }),
    {
        if minimap_pressed {
            self.show_minimap = !self.show_minimap;
        }
        if !cursor_pressed {
            return CursorAction::Keep;
        }
        self.mouse_look = !self.mouse_look;
        if self.mouse_look {
            CursorAction::Capture
        } else {
            CursorAction::Release
        }
    }

    /// Entering play (a level started or resumed) captures the cursor and
    /// turns mouse look back on.
    pub fn enter_play(&mut self) -> (action: CursorAction)
        ensures
            *final(self) == (Toggles { mouse_look: true, ..*old(self) }),
            action == CursorAction::Capture,
    {
        self.mouse_look = true;
        CursorAction::Capture
    }

    /// The music key pauses the music or resumes it.
    pub fn music_key(&mut self, pressed: bool) -> (action: MusicAction)
        ensures
            final(self).music_on == (old(self).music_on != pressed),
            final(self).show_minimap == old(self).show_minimap,
            final(self).mouse_look == old(self).mouse_look,
            action == (if !pressed {
                MusicAction::Keep
            } else if final(self).music_on {
                MusicAction::Resume
            } else {
                MusicAction::Pause
            }),
    {
        if !pressed {
            return MusicAction::Keep;
        }
        self.music_on = !self.music_on;
        if self.music_on {
            MusicAction::Resume
        } else {
            MusicAction::Pause
        }
    }
}

} // verus!
