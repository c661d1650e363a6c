//! The game: its moles, the holes they sit in, and what each keypress does.

use vstd::prelude::*;
use crate::hole::Hole;
use crate::message_format::RenderMessage;
use crate::mole::{is_default_mole, Mole, MoleView};
use crate::random::{choose_index, random_index, thread_rng};
use crate::text::string_views;
use crate::layout::{hole_position, holes_wide, is_row_width, lemma_position_bounds, lemma_position_step, row_width};
use vstd::arithmetic::div_mod::lemma_fundamental_div_mod_converse;

verus! {

/// Hole number `k` of a fresh board of `n` holes: free, at its place in the layout.
pub open spec fn is_fresh_hole(hole: Hole, k: int, n: nat) -> bool {
    &&& !hole.occupied
    &&& hole.pos_x == hole_position(k, row_width(n)).0
    &&& hole.pos_y == hole_position(k, row_width(n)).1
}

/// Generate `num_holes` free holes, laid out in rows of `w` and `w - 1` holes
/// in turn, `w` being the rounded-up square root of `num_holes`.
pub fn init_holes(num_holes: u64) -> (holes: Vec<Hole>)
    ensures
        holes@.len() == num_holes,
        forall|k: int| 0 <= k < num_holes ==> #[trigger] is_fresh_hole(holes@[k], k, num_holes as nat),
{
    // top row width in holes: the total number's square root, rounded up
    let w: u64 = holes_wide(num_holes);
    let holes_wide: i64 = w as i64;
    let mut holes: Vec<Hole> = Vec::new();

    let mut x_count: i64 = 0;
    let mut y_count: i64 = 0;
    let mut odd_row = true;

    // create new holes with x/y logical position on the game board
    let mut n: u64 = 0;
    proof {
        if num_holes > 0 {
            assert(w >= 1) by (nonlinear_arith)
                requires
                    0 < num_holes <= w * w,
            ;
            lemma_fundamental_div_mod_converse(0, 2 * w - 1, 0, 0);
        }
    }
    while n < num_holes
        invariant
            n <= num_holes,
            w <= 0x1_0000_0000,
            holes_wide == w,
            is_row_width(w as int, num_holes as int),
            w == row_width(num_holes as nat),
            holes@.len() == n,
            forall|k: int| 0 <= k < n ==> #[trigger] is_fresh_hole(holes@[k], k, num_holes as nat),
            n < num_holes ==> {
                &&& x_count == hole_position(n as int, w as int).0
                &&& y_count == hole_position(n as int, w as int).1
                &&& odd_row == (y_count % 2 == 0)
            },
        decreases num_holes - n,
    {
        proof {
            lemma_position_bounds(n as int, w as int, num_holes as int);
        }
        holes.push(Hole::new(x_count, y_count));
        if odd_row && x_count == holes_wide - 1 {
            x_count = 0;
            y_count += 1;
            odd_row = false;
        } else if !odd_row && x_count == holes_wide - 2 {
            x_count = 0;
            y_count += 1;
            odd_row = true;
        } else {
            x_count += 1;
        }
        proof {
            if n + 1 < num_holes {
                assert(w >= 2) by (nonlinear_arith)
                    requires
                        n + 1 < num_holes,
                        num_holes <= w * w,
                ;
                lemma_position_step(n as int, w as int);
            }
        }
        n = n + 1;
    }
    holes
}

// game clock interval
pub const GAME_TICK_DURATION_IN_MILLIS: u64 = 50;

// row of 3, row of 2, row of 3, like the classic; one mole per hole by default
pub const GAME_DEFAULT_NUM_MOLES: u64 = 8;
pub const GAME_DEFAULT_NUM_HOLES: u64 = 8;
pub const MIN_MOLES: u64 = 5;
pub const MAX_MOLES: u64 = 128;
pub const MIN_HOLES: u64 = 5;
pub const MAX_HOLES: u64 = 128;

/// Generate `num_moles` moles with the default values.
pub fn init_moles(num_moles: u64) -> (moles: Vec<Mole>)
    ensures
        moles@.len() == num_moles,
        forall|i: int| 0 <= i < num_moles ==> #[trigger] is_default_mole(moles@[i]@),
{
    let mut moles: Vec<Mole> = Vec::new();
    let mut n: u64 = 0;
    while n < num_moles
        invariant
            n <= num_moles,
            moles@.len() == n,
            forall|i: int| 0 <= i < n ==> #[trigger] is_default_mole(moles@[i]@),
        decreases num_moles - n,
    {
        moles.push(Mole::new());
        n = n + 1;
    }
    moles
}

/// The number of free holes.
pub open spec fn free_count(holes: Seq<Hole>) -> nat
    decreases holes.len(),
{
    if holes.len() == 0 {
        0
    } else {
        free_count(holes.drop_last()) + if holes.last().occupied {
            0nat
        } else {
            1nat
        }
    }
}

/// The same holes, in the same places.
pub open spec fn same_places(a: Seq<Hole>, b: Seq<Hole>) -> bool {
    &&& a.len() == b.len()
    &&& forall|h: int| 0 <= h < a.len() ==> a[h].pos_x == b[h].pos_x && a[h].pos_y == b[h].pos_y
}

/// Hole `h` of `holes` after a mole moved in: the hole is occupied, all else is as it was.
pub open spec fn occupy(holes: Seq<Hole>, h: int) -> Seq<Hole> {
    holes.update(h, Hole { occupied: true, ..holes[h] })
}

/// Occupying a free hole leaves one free hole fewer.
pub proof fn lemma_occupy_free_count(holes: Seq<Hole>, h: int)
    requires
        0 <= h < holes.len(),
        !holes[h].occupied,
    ensures
        free_count(occupy(holes, h)) + 1 == free_count(holes),
    decreases holes.len(),
{
    let after = occupy(holes, h);
    if h == holes.len() - 1 {
        assert(after.drop_last() =~= holes.drop_last());
    } else {
        assert(after.drop_last() =~= occupy(holes.drop_last(), h));
        lemma_occupy_free_count(holes.drop_last(), h);
    }
}

/// The number of free holes is at most the number of holes, and it is 0 when
/// no hole is free.
pub proof fn lemma_free_count_bounds(holes: Seq<Hole>)
    ensures
        free_count(holes) <= holes.len(),
        (forall|h: int| 0 <= h < holes.len() ==> holes[h].occupied) ==> free_count(holes) == 0,
    decreases holes.len(),
{
    if holes.len() > 0 {
        lemma_free_count_bounds(holes.drop_last());
    }
}

/// The indices of the free holes, in increasing order.
pub fn free_holes(holes: &Vec<Hole>) -> (free: Vec<usize>)
    ensures
        free@.len() == free_count(holes@),
        forall|k: int| 0 <= k < free@.len() ==> free@[k] < holes@.len() && !holes@[free@[k] as int].occupied,
        forall|h: int| 0 <= h < holes@.len() && !holes@[h].occupied ==> free@.contains(h as usize),
        forall|k: int, l: int| 0 <= k < l < free@.len() ==> free@[k] < free@[l],
{
    let mut free: Vec<usize> = Vec::new();
    let mut i: usize = 0;
    while i < holes.len()
        invariant
            0 <= i <= holes@.len(),
            free@.len() == free_count(holes@.take(i as int)),
            forall|k: int| 0 <= k < free@.len() ==> free@[k] < i && !holes@[free@[k] as int].occupied,
            forall|h: int| 0 <= h < i && !holes@[h].occupied ==> free@.contains(h as usize),
            forall|k: int, l: int| 0 <= k < l < free@.len() ==> free@[k] < free@[l],
        decreases holes@.len() - i,
    {
        assert(holes@.take(i as int + 1).drop_last() =~= holes@.take(i as int));
        if !holes[i].occupied {
            let ghost before = free@;
            free.push(i);
            assert forall|h: int| 0 <= h < i + 1 && !holes@[h].occupied implies free@.contains(h as usize) by {
                if h < i {
                    let k = choose|k: int| 0 <= k < before.len() && before[k] == h as usize;
                    assert(free@[k] == h as usize);
                } else {
                    assert(free@[free@.len() - 1] == h as usize);
                }
            }
        }
        i = i + 1;
    }
    assert(holes@.take(holes@.len() as int) =~= holes@);
    free
}

/// A key, as far as the game tells keys apart.
#[derive(Debug, Clone, Copy, PartialEq, Eq, Structural)]
pub enum KeyCode {
    Char(char),
    Other,
}

/// Whether a key went down, repeated or came up.
#[derive(Debug, Clone, Copy, PartialEq, Eq, Structural)]
pub enum KeyEventKind {
    Press,
    Repeat,
    Release,
}

#[derive(Debug, Clone, Copy, PartialEq, Eq, Structural)]
pub struct KeyEvent {
    pub code: KeyCode,
    pub kind: KeyEventKind,
}

/// What the terminal reports: a key, or anything else (resizes, the mouse, ...).
#[derive(Debug, Clone, Copy, PartialEq, Eq, Structural)]
pub enum Event {
    Key(KeyEvent),
    Other,
}

/// What the loop around the game has to do after an event.
#[derive(Debug, Clone, Copy, PartialEq, Eq, Structural)]
pub enum GameAction {
    Continue,
    /// Signal every task to shut down.
    Shutdown,
}

/// The game state: the moles, the holes they sit in, and the names still to give.
#[derive(Debug)]
pub struct Game {
    exit: bool,
    tick_duration: u64,
    pub num_moles: u64,
    pub num_holes: u64,
    moles: Vec<Mole>,
    mole_names: Vec<String>,
    name_pool: Vec<String>,
    holes: Vec<Hole>,
    panel_update_buffer: Vec<RenderMessage>,
}

/// The game as the contracts speak of it.
pub struct GameView {
    pub exit: bool,
    pub tick_duration: u64,
    pub num_moles: u64,
    pub num_holes: u64,
    pub moles: Seq<MoleView>,
    /// The names not given out yet.
    pub mole_names: Seq<Seq<char>>,
    /// All names, as read at the start; the names to give are refilled from here.
    pub name_pool: Seq<Seq<char>>,
    pub holes: Seq<Hole>,
    pub panel_updates: Seq<RenderMessage>,
}

/// The views of a sequence of moles.
pub open spec fn mole_views(moles: Seq<Mole>) -> Seq<MoleView> {
    moles.map_values(|m: Mole| m@)
}

impl View for Game {
    type V = GameView;

    closed spec fn view(&self) -> GameView {
        GameView {
            exit: self.exit,
            tick_duration: self.tick_duration,
            num_moles: self.num_moles,
            num_holes: self.num_holes,
            moles: mole_views(self.moles@),
            mole_names: string_views(self.mole_names@),
            name_pool: string_views(self.name_pool@),
            holes: self.holes@,
            panel_updates: self.panel_update_buffer@,
        }
    }
}

/// Every placed mole sits in an occupied hole of the board, and no two moles
/// sit in the same hole.
pub open spec fn placement_ok(moles: Seq<MoleView>, holes: Seq<Hole>) -> bool {
    &&& forall|i: int|
        0 <= i < moles.len() ==> (#[trigger] moles[i].hole_index matches Some(h) ==> h < holes.len()
            && holes[h as int].occupied)
    &&& forall|i: int, j: int|
        0 <= i < moles.len() && 0 <= j < moles.len() && i != j && #[trigger] moles[i].hole_index is Some
            ==> moles[i].hole_index != #[trigger] moles[j].hole_index
}

/// Every name is one of the pool.
pub open spec fn names_from_pool(names: Seq<Seq<char>>, pool: Seq<Seq<char>>) -> bool {
    forall|i: int| 0 <= i < names.len() ==> pool.contains(#[trigger] names[i])
}

/// A mole's name is the default one or one from the pool.
pub open spec fn mole_names_ok(moles: Seq<MoleView>, pool: Seq<Seq<char>>) -> bool {
    forall|i: int|
        0 <= i < moles.len() ==> #[trigger] moles[i].name == crate::mole::default_mole_name() || pool.contains(
            moles[i].name,
        )
}

/// What every game state keeps: the board and the names are consistent, and
/// the numbers of moles and holes stay equal and within their bounds.
pub open spec fn game_wf(g: GameView) -> bool {
    &&& MIN_MOLES <= g.num_moles <= MAX_MOLES
    &&& g.num_holes == g.num_moles
    &&& board_wf(g)
}

/// The names still to give come from the pool (and run out only with it), every
/// mole's name is the default or from the pool, and the moles sit in distinct
/// occupied holes.
pub open spec fn board_wf(g: GameView) -> bool {
    &&& (g.mole_names.len() > 0 <==> g.name_pool.len() > 0)
    &&& names_from_pool(g.mole_names, g.name_pool)
    &&& mole_names_ok(g.moles, g.name_pool)
    &&& placement_ok(g.moles, g.holes)
}

/// The moles as `init_moles(n)` makes them.
pub open spec fn fresh_moles(moles: Seq<MoleView>, n: nat) -> bool {
    &&& moles.len() == n
    &&& forall|i: int| 0 <= i < n ==> #[trigger] is_default_mole(moles[i])
}

/// The holes as `init_holes(n)` makes them.
pub open spec fn fresh_holes(holes: Seq<Hole>, n: nat) -> bool {
    &&& holes.len() == n
    &&& forall|k: int| 0 <= k < n ==> #[trigger] is_fresh_hole(holes[k], k, n)
}

impl Game {
    /// A new game of the default size, giving names from `mole_names` (the
    /// lines of the name file).
    pub fn new(mole_names: Vec<String>) -> (game: Self)
        ensures
            game_wf(game@),
            !game@.exit,
            game@.tick_duration == GAME_TICK_DURATION_IN_MILLIS,
            game@.num_moles == GAME_DEFAULT_NUM_MOLES,
            game@.num_holes == GAME_DEFAULT_NUM_HOLES,
            fresh_moles(game@.moles, GAME_DEFAULT_NUM_MOLES as nat),
            fresh_holes(game@.holes, GAME_DEFAULT_NUM_HOLES as nat),
            game@.mole_names == string_views(mole_names@),
            game@.name_pool == string_views(mole_names@),
            game@.panel_updates.len() == 0,
    {
        let pool = mole_names.clone();
        let game = Self {
            exit: false,
            tick_duration: GAME_TICK_DURATION_IN_MILLIS,
            num_moles: GAME_DEFAULT_NUM_MOLES,
            num_holes: GAME_DEFAULT_NUM_HOLES,
            moles: init_moles(GAME_DEFAULT_NUM_MOLES),
            mole_names,
            name_pool: pool,
            holes: init_holes(GAME_DEFAULT_NUM_HOLES),
            panel_update_buffer: Vec::new(),
        };
        proof {
            assert(string_views(game.name_pool@) =~= string_views(game.mole_names@));
            let v = game@;
            assert forall|i: int| 0 <= i < v.mole_names.len() implies v.name_pool.contains(
                #[trigger] v.mole_names[i],
            ) by {
                assert(v.name_pool[i] == v.mole_names[i]);
            }
            assert forall|i: int| 0 <= i < v.moles.len() implies is_default_mole(#[trigger] v.moles[i]) by {
                assert(v.moles[i] == game.moles@[i]@);
                assert(is_default_mole(game.moles@[i]@));
            }
        }
        game
    }

    /// The number of moles the game is set to (the public field, for verified callers).
    pub fn num_moles(&self) -> (n: u64)
        ensures
            n == self@.num_moles,
    {
        self.num_moles
    }

    /// The number of holes the game is set to (the public field, for verified callers).
    pub fn num_holes(&self) -> (n: u64)
        ensures
            n == self@.num_holes,
    {
        self.num_holes
    }

    pub fn exit(&self) -> (exit: bool)
        ensures
            exit == self@.exit,
    {
        self.exit
    }

    pub fn tick_duration(&self) -> (ms: u64)
        ensures
            ms == self@.tick_duration,
    {
        self.tick_duration
    }

    pub fn moles(&self) -> (moles: &Vec<Mole>)
        ensures
            mole_views(moles@) == self@.moles,
    {
        &self.moles
    }

    pub fn holes(&self) -> (holes: &Vec<Hole>)
        ensures
            holes@ == self@.holes,
    {
        &self.holes
    }

    pub fn mole_names(&self) -> (names: &Vec<String>)
        ensures
            string_views(names@) == self@.mole_names,
    {
        &self.mole_names
    }

    /// Stop the game; the loop around it then signals the shutdown.
    pub fn shutdown(&mut self) -> (action: GameAction)
        ensures
            action == GameAction::Shutdown,
            final(self)@ == (GameView { exit: true, ..old(self)@ }),
    {
        self.exit = true;
        GameAction::Shutdown
    }

    /// Hand out the panel updates gathered since the last tick, oldest first,
    /// for the loop around the game to send to the renderer.
    pub fn drain_panel_updates(&mut self) -> (updates: Vec<RenderMessage>)
        ensures
            updates@ == old(self)@.panel_updates,
            final(self)@ == (GameView { panel_updates: Seq::empty(), ..old(self)@ }),
    {
        let mut updates: Vec<RenderMessage> = Vec::new();
        std::mem::swap(&mut updates, &mut self.panel_update_buffer);
        proof {
            assert(self@ =~= (GameView { panel_updates: Seq::empty(), ..old(self)@ }));
        }
        updates
    }

    /// Take name number `index` out of the names still to give, so that it is
    /// not given again; once none is left, all names of the pool are given anew.
    pub fn take_mole_name(&mut self, index: usize) -> (name: String)
        requires
            index < old(self)@.mole_names.len(),
        ensures
            took_name(old(self)@, final(self)@, index as int, name@),
            board_wf(old(self)@) ==> board_wf(final(self)@),
    {
        let ghost before = self@;
        let name = self.mole_names.remove(index);
        if self.mole_names.len() == 0 {
            self.mole_names = self.name_pool.clone();
            proof {
                assert(string_views(self.mole_names@) =~= string_views(self.name_pool@));
            }
        } else {
            proof {
                assert(string_views(self.mole_names@) =~= before.mole_names.remove(index as int));
            }
        }
        proof {
            let after = self@;
            assert(after.moles =~= before.moles);
            if board_wf(before) {
                assert forall|i: int| 0 <= i < after.mole_names.len() implies after.name_pool.contains(
                    #[trigger] after.mole_names[i],
                ) by {
                    if before.mole_names.len() == 1 {
                        assert(after.name_pool[i] == after.mole_names[i]);
                    } else {
                        if i < index {
                            assert(after.mole_names[i] == before.mole_names[i]);
                        } else {
                            assert(after.mole_names[i] == before.mole_names[i + 1]);
                        }
                    }
                }
            }
        }
        name
    }

    /// Take a name, chosen at random, out of the names still to give.
    pub fn get_mole_name(&mut self) -> (name: String)
        requires
            board_wf(old(self)@),
            old(self)@.name_pool.len() > 0,
        ensures
            exists|index: int| took_name(old(self)@, final(self)@, index, name@),
            board_wf(final(self)@),
    {
        let index = random_index(self.mole_names.len());
        self.take_mole_name(index)
    }

    /// Name the moles and put them in holes.
    pub fn init(&mut self)
        requires
            board_wf(old(self)@),
            old(self)@.moles.len() > 0 ==> old(self)@.name_pool.len() > 0,
        ensures
            board_wf(final(self)@),
            assign_round(old(self)@, final(self)@),
    {
        self.name_and_assign_moles();
    }

    /// Whether the game can take `event`: it can, unless the event asks for mole
    /// names and there are none to give.
    pub fn can_handle(&self, event: Event) -> (ok: bool)
        ensures
            ok == (event_needs_names(self@, event) ==> self@.name_pool.len() > 0),
    {
        let needs = match event {
            Event::Key(key_event) => match key_event.kind {
                KeyEventKind::Press => match key_event.code {
                    KeyCode::Char(c) => (c == ']' && (self.num_moles < MAX_MOLES || self.moles.len() > 0)) || (c
                        == '[' && self.num_moles > MIN_MOLES && self.moles.len() > 0),
                    KeyCode::Other => false,
                },
                _ => false,
            },
            Event::Other => false,
        };
        !needs || self.name_pool.len() > 0
    }

    /// Handle an event from the terminal: only key presses count (terminals also
    /// report key releases and repeats).
    pub fn handle_event(&mut self, event: Event) -> (action: GameAction)
        requires
            game_wf(old(self)@),
            event_needs_names(old(self)@, event) ==> old(self)@.name_pool.len() > 0,
        ensures
            game_wf(final(self)@),
            match event {
                Event::Key(key_event) => if key_event.kind == KeyEventKind::Press {
                    key_effect(old(self)@, key_event.code, final(self)@, action)
                } else {
                    final(self)@ == old(self)@ && action == GameAction::Continue
                },
                Event::Other => final(self)@ == old(self)@ && action == GameAction::Continue,
            },
            (action == GameAction::Shutdown) == (event == Event::Key(
                KeyEvent { code: KeyCode::Char('q'), kind: KeyEventKind::Press },
            )),
    {
        match event {
            Event::Key(key_event) => {
                if key_event.kind == KeyEventKind::Press {
                    self.handle_key_event(key_event)
                } else {
                    GameAction::Continue
                }
            },
            Event::Other => GameAction::Continue,
        }
    }

    /// Handle a key press: `q` quits, `[` takes a mole and a hole away (down to
    /// the minimum), `]` adds one of each (up to the maximum) on a fresh board;
    /// both name the moles and put them in holes anew.
    pub fn handle_key_event(&mut self, key_event: KeyEvent) -> (action: GameAction)
        requires
            game_wf(old(self)@),
            key_needs_names(old(self)@, key_event.code) ==> old(self)@.name_pool.len() > 0,
        ensures
            game_wf(final(self)@),
            key_effect(old(self)@, key_event.code, final(self)@, action),
            // only `q` shuts the game down
            (action == GameAction::Shutdown) == (key_event.code == KeyCode::Char('q')),
            final(self)@.exit == (old(self)@.exit || key_event.code == KeyCode::Char('q')),
            final(self)@.num_moles == key_moles(old(self)@.num_moles, key_event.code),
            // `[` at the minimum, and every key but `q`, `[` and `]`, change nothing
            key_event.code == KeyCode::Char('[') && old(self)@.num_moles <= MIN_MOLES ==> final(self)@ == old(self)@,
            key_event.code != KeyCode::Char('q') && key_event.code != KeyCode::Char('[') && key_event.code
                != KeyCode::Char(']') ==> final(self)@ == old(self)@,
    {
        let ghost before = self@;
        let action = match key_event.code {
            KeyCode::Char('q') => self.shutdown(),
            KeyCode::Char('[') => {
                if self.num_moles > MIN_MOLES {
                    self.num_moles -= 1;
                    self.init();
                    let ghost mid = self@;
                    self.num_holes -= 1;
                    let ghost mid_shrunk = self@;
                    self.init();
                    proof {
                        assert(mid_shrunk == (GameView { num_holes: (mid.num_holes - 1) as u64, ..mid }));
                    }
                }
                GameAction::Continue
            },
            KeyCode::Char(']') => {
                if self.num_moles < MAX_MOLES {
                    self.num_moles += 1;
                    self.moles = init_moles(self.num_moles);
                    self.num_holes += 1;
                    self.holes = init_holes(self.num_holes);
                    proof {
                        let g = self@;
                        assert forall|i: int| 0 <= i < g.moles.len() implies is_default_mole(#[trigger] g.moles[i]) by {
                            assert(g.moles[i] == self.moles@[i]@);
                        }
                    }
                }
                self.name_and_assign_moles();
                GameAction::Continue
            },
            _ => GameAction::Continue,
        };
        proof {
            lemma_key_effect_laws(before, key_event.code, self@, action);
        }
        action
    }

    /// Give each mole a name and put it in a hole, if one is free.
    pub fn name_and_assign_moles(&mut self)
        requires
            board_wf(old(self)@),
            old(self)@.moles.len() > 0 ==> old(self)@.name_pool.len() > 0,
        ensures
            board_wf(final(self)@),
            assign_round(old(self)@, final(self)@),
    {
        let ghost b = self@;
        let ghost m = b.moles.len() as int;
        let ghost u = free_count(b.holes) as int;
        let hole_count = self.holes.len();
        let mut i: usize = 0;
        // the names left after each draw so far, and the indices drawn
        let ghost mut steps: Seq<Seq<Seq<char>>> = seq![b.mole_names];
        let ghost mut picks: Seq<int> = Seq::empty();
        proof {
            assert(names_of(self@.moles.take(0)) =~= Seq::<Seq<char>>::empty());
        }
        while i < self.moles.len()
            invariant
                board_wf(self@),
                m > 0 ==> self@.name_pool.len() > 0,
                u == free_count(b.holes),
                m == b.moles.len(),
                b.holes.len() == hole_count,
                same_settings(self@, b),
                self@.moles.len() == m,
                0 <= i <= m,
                same_places(self@.holes, b.holes),
                forall|j: int| 0 <= j < i ==> renamed(b.moles[j], #[trigger] self@.moles[j], b.name_pool),
                forall|j: int| i <= j < m ==> #[trigger] self@.moles[j] == b.moles[j],
                forall|j: int|
                    0 <= j < min(i as int, u) ==> (#[trigger] self@.moles[j].hole_index matches Some(h) && h
                        < b.holes.len() && !b.holes[h as int].occupied),
                forall|j: int| min(i as int, u) <= j < m ==> #[trigger] self@.moles[j].hole_index == b.moles[j].hole_index,
                forall|h: int|
                    0 <= h < b.holes.len() ==> (#[trigger] self@.holes[h].occupied <==> (b.holes[h].occupied
                        || exists|j: int| 0 <= j < min(i as int, u) && #[trigger] self@.moles[j].hole_index == Some(h as usize))),
                free_count(self@.holes) == u - min(i as int, u),
                successive_draws(steps, picks, names_of(self@.moles.take(i as int)), b.name_pool),
                steps[0] == b.mole_names,
                steps.last() == self@.mole_names,
            decreases m - i,
        {
            let ghost c = self@;
            self.name_and_place_mole(i);
            proof {
                let d = self@;
                let pi = min(i as int, u);
                let pn = min(i as int + 1, u);
                if free_count(c.holes) > 0 {
                    let h = d.moles[i as int].hole_index.unwrap() as int;
                    lemma_occupy_free_count(c.holes, h);
                    assert(pn == pi + 1);
                    assert(!b.holes[h].occupied);
                    assert forall|k: int| 0 <= k < b.holes.len() implies (#[trigger] d.holes[k].occupied <==> (
                    b.holes[k].occupied || exists|j: int|
                        0 <= j < pn && #[trigger] d.moles[j].hole_index == Some(k as usize))) by {
                        if k == h {
                            assert(d.moles[i as int].hole_index == Some(k as usize));
                        } else {
                            assert(d.moles[i as int].hole_index != Some(k as usize));
                            assert(d.holes[k] == c.holes[k]);
                            if exists|j: int| 0 <= j < pn && #[trigger] d.moles[j].hole_index == Some(k as usize) {
                                let j = choose|j: int| 0 <= j < pn && #[trigger] d.moles[j].hole_index == Some(k as usize);
                                assert(j != i);
                                assert(d.moles[j] == c.moles[j]);
                            }
                            if exists|j: int| 0 <= j < pi && #[trigger] c.moles[j].hole_index == Some(k as usize) {
                                let j = choose|j: int| 0 <= j < pi && #[trigger] c.moles[j].hole_index == Some(k as usize);
                                assert(d.moles[j] == c.moles[j]);
                            }
                        }
                    }
                } else {
                    assert(u <= i);
                    assert(pn == pi);
                    assert forall|k: int| 0 <= k < b.holes.len() implies (#[trigger] d.holes[k].occupied <==> (
                    b.holes[k].occupied || exists|j: int|
                        0 <= j < pn && #[trigger] d.moles[j].hole_index == Some(k as usize))) by {
                        if exists|j: int| 0 <= j < pn && #[trigger] d.moles[j].hole_index == Some(k as usize) {
                            let j = choose|j: int| 0 <= j < pn && #[trigger] d.moles[j].hole_index == Some(k as usize);
                            assert(j != i);
                            assert(d.moles[j] == c.moles[j]);
                        }
                        if exists|j: int| 0 <= j < pi && #[trigger] c.moles[j].hole_index == Some(k as usize) {
                            let j = choose|j: int| 0 <= j < pi && #[trigger] c.moles[j].hole_index == Some(k as usize);
                            assert(d.moles[j] == c.moles[j]);
                        }
                    }
                }
                assert forall|j: int| 0 <= j < i + 1 implies renamed(b.moles[j], #[trigger] d.moles[j], b.name_pool) by {
                    if j < i {
                        assert(d.moles[j] == c.moles[j]);
                    }
                }
                assert forall|j: int| 0 <= j < pn implies (#[trigger] d.moles[j].hole_index matches Some(h) && h
                    < b.holes.len() && !b.holes[h as int].occupied) by {
                    if j < i {
                        assert(d.moles[j] == c.moles[j]);
                    }
                }
                let k = choose|k: int|
                    name_draw(c.mole_names, d.mole_names, k, #[trigger] d.moles[i as int].name, c.name_pool);
                let steps2 = steps.push(d.mole_names);
                let picks2 = picks.push(k);
                let drawn2 = names_of(d.moles.take(i as int + 1));
                assert forall|j: int| 0 <= j < i + 1 implies #[trigger] draw_step(steps2, j, picks2[j], drawn2[j], b.name_pool) by {
                    if j < i {
                        assert(draw_step(steps, j, picks[j], names_of(c.moles.take(i as int))[j], b.name_pool));
                        assert(d.moles[j] == c.moles[j]);
                    }
                }
                steps = steps2;
                picks = picks2;
                assert forall|j: int| pn <= j < m implies #[trigger] d.moles[j].hole_index == b.moles[j].hole_index by {
                    if j != i {
                        assert(0 <= j < c.moles.len());
                        assert(d.moles[j] == c.moles[j]);
                    }
                }
            }
            i = i + 1;
        }
        proof {
            assert(self@.moles.take(m) =~= self@.moles);
            if b.mole_names.len() > m {
                lemma_draws_without_refill(steps, picks, names_of(self@.moles), b.name_pool);
            }
        }
    }

    /// Give mole number `i` a name from the pool and put it in a free hole,
    /// chosen at random, if one is left.
    fn name_and_place_mole(&mut self, i: usize)
        requires
            board_wf(old(self)@),
            old(self)@.name_pool.len() > 0,
            i < old(self)@.moles.len(),
        ensures
            board_wf(final(self)@),
            same_settings(final(self)@, old(self)@),
            final(self)@.moles.len() == old(self)@.moles.len(),
            forall|j: int| 0 <= j < old(self)@.moles.len() && j != i ==> #[trigger] final(self)@.moles[j] == old(self)@.moles[j],
            renamed(old(self)@.moles[i as int], final(self)@.moles[i as int], final(self)@.name_pool),
            free_count(old(self)@.holes) > 0 ==> (final(self)@.moles[i as int].hole_index matches Some(h) && h
                < old(self)@.holes.len() && !old(self)@.holes[h as int].occupied && final(self)@.holes
                == occupy(old(self)@.holes, h as int)),
            free_count(old(self)@.holes) == 0 ==> final(self)@.moles[i as int].hole_index == old(self)@.moles[i as int].hole_index
                && final(self)@.holes == old(self)@.holes,
            exists|k: int|
                name_draw(
                    old(self)@.mole_names,
                    final(self)@.mole_names,
                    k,
                    #[trigger] final(self)@.moles[i as int].name,
                    old(self)@.name_pool,
                ),
    {
        let ghost before = self@;
        let name = self.get_mole_name();
        let ghost named = self@;
        let ghost name_view = name@;
        self.moles[i].set_name(name);
        proof {
            let after = self@;
            assert(after.moles =~= named.moles.update(i as int, MoleView { name: name@, ..named.moles[i as int] }));
            let index = choose|index: int| took_name(before, named, index, name@);
            assert(before.mole_names.contains(name@)) by {
                assert(before.mole_names[index] == name@);
            }
            assert(before.name_pool.contains(name@)) by {
                let k = choose|k: int| 0 <= k < before.mole_names.len() && before.mole_names[k] == name@;
                assert(before.name_pool.contains(#[trigger] before.mole_names[k]));
            }
            assert forall|j: int| 0 <= j < after.moles.len() implies
                #[trigger] after.moles[j].name == crate::mole::default_mole_name()
                    || after.name_pool.contains(after.moles[j].name) by {
                if j != i {
                    assert(after.moles[j] == named.moles[j]);
                }
            }
            assert forall|j: int, k: int|
                0 <= j < after.moles.len() && 0 <= k < after.moles.len() && j != k
                    && #[trigger] after.moles[j].hole_index is Some implies after.moles[j].hole_index
                != #[trigger] after.moles[k].hole_index by {
                assert(named.moles[j].hole_index == after.moles[j].hole_index);
                assert(named.moles[k].hole_index == after.moles[k].hole_index);
            }
            assert forall|j: int| 0 <= j < after.moles.len() implies (
            #[trigger] after.moles[j].hole_index matches Some(h) ==> h < after.holes.len()
                && after.holes[h as int].occupied) by {
                assert(named.moles[j].hole_index == after.moles[j].hole_index);
            }
        }
        // put the mole in a random free hole
        let candidates = free_holes(&self.holes);
        let mut rng = thread_rng();
        let chosen = choose_index(candidates, &mut rng);
        proof {
            lemma_free_count_bounds(self@.holes);
        }
        self.place_mole(i, chosen);
        proof {
            let after = self@;
            assert forall|j: int| 0 <= j < before.moles.len() && j != i implies #[trigger] after.moles[j]
                == before.moles[j] by {
                assert(named.moles[j] == before.moles[j]);
            }
            let index = choose|index: int| took_name(before, named, index, name_view);
            assert(after.moles[i as int].name == before.mole_names[index]);
            assert(after.mole_names == named.mole_names);
        }
    }

    /// Put mole number `mole` in the hole that chance chose, if any: the mole
    /// records the hole and the hole is occupied.
    pub fn place_mole(&mut self, mole: usize, chosen: Option<usize>)
        requires
            mole < old(self)@.moles.len(),
            chosen matches Some(h) ==> h < old(self)@.holes.len() && !old(self)@.holes[h as int].occupied,
        ensures
            final(self)@ == match chosen {
                Some(h) => GameView {
                    moles: old(self)@.moles.update(
                        mole as int,
                        MoleView { hole_index: Some(h), ..old(self)@.moles[mole as int] },
                    ),
                    holes: occupy(old(self)@.holes, h as int),
                    ..old(self)@
                },
                None => old(self)@,
            },
            board_wf(old(self)@) ==> board_wf(final(self)@),
    {
        let ghost before = self@;
        if let Some(h) = chosen {
            self.moles[mole].set_hole_index(h);
            self.holes[h].occupied = true;
            proof {
                let after = self@;
                assert(after.moles =~= before.moles.update(
                    mole as int,
                    MoleView { hole_index: Some(h), ..before.moles[mole as int] },
                ));
                assert(after.holes =~= occupy(before.holes, h as int));
                if board_wf(before) {
                    assert forall|i: int| 0 <= i < after.moles.len() implies
                        #[trigger] after.moles[i].name == crate::mole::default_mole_name()
                            || after.name_pool.contains(after.moles[i].name) by {
                        assert(after.moles[i].name == before.moles[i].name);
                    }
                    assert forall|i: int, j: int|
                        0 <= i < after.moles.len() && 0 <= j < after.moles.len() && i != j
                            && #[trigger] after.moles[i].hole_index is Some implies after.moles[i].hole_index
                        != #[trigger] after.moles[j].hole_index by {
                        if i != mole && j != mole {
                            assert(before.moles[i].hole_index is Some);
                        } else if i == mole {
                            if before.moles[j].hole_index == Some(h) {
                                assert(before.holes[h as int].occupied);
                            }
                        } else {
                            if before.moles[i].hole_index == Some(h) {
                                assert(before.holes[h as int].occupied);
                            }
                        }
                    }
                    assert forall|i: int| 0 <= i < after.moles.len() implies (
                    #[trigger] after.moles[i].hole_index matches Some(k) ==> k < after.holes.len()
                        && after.holes[k as int].occupied) by {
                        if i != mole {
                            assert(after.moles[i] == before.moles[i]);
                        }
                    }
                }
            }
        }
    }
}

/// A mole after it was given a name from the pool: all else but its hole is as it was.
pub open spec fn renamed(before: MoleView, after: MoleView, pool: Seq<Seq<char>>) -> bool {
    &&& pool.contains(after.name)
    &&& after.hp == before.hp
    &&& after.min_dwell_time == before.min_dwell_time
    &&& after.max_dwell_time == before.max_dwell_time
    &&& after.is_up == before.is_up
    &&& after.pos_x == before.pos_x
    &&& after.pos_y == before.pos_y
}

/// The parts of the game that naming and placing moles leaves alone.
pub open spec fn same_settings(a: GameView, b: GameView) -> bool {
    &&& a.exit == b.exit
    &&& a.tick_duration == b.tick_duration
    &&& a.num_moles == b.num_moles
    &&& a.num_holes == b.num_holes
    &&& a.name_pool == b.name_pool
    &&& a.panel_updates == b.panel_updates
}

/// The smaller of two numbers.
pub open spec fn min(a: int, b: int) -> int {
    if a < b {
        a
    } else {
        b
    }
}

/// One round of naming and placing the moles, from `b` to `a`, whatever chance
/// chose: each mole gets a name from the pool; while free holes remain, each
/// mole in turn moves into one of them (so the first `min(moles, free holes)`
/// moles move and the others stay where they were); the holes they moved
/// into, and only those, become occupied.
pub open spec fn assign_round(b: GameView, a: GameView) -> bool {
    let m = b.moles.len() as int;
    let placed = min(m, free_count(b.holes) as int);
    &&& same_settings(a, b)
    &&& a.moles.len() == m
    &&& same_places(a.holes, b.holes)
    &&& forall|i: int| 0 <= i < m ==> renamed(b.moles[i], #[trigger] a.moles[i], a.name_pool)
    &&& forall|i: int|
        0 <= i < placed ==> (#[trigger] a.moles[i].hole_index matches Some(h) && h < b.holes.len()
            && !b.holes[h as int].occupied)
    &&& forall|i: int| placed <= i < m ==> #[trigger] a.moles[i].hole_index == b.moles[i].hole_index
    &&& forall|h: int|
        0 <= h < b.holes.len() ==> (#[trigger] a.holes[h].occupied <==> (b.holes[h].occupied || exists|i: int|
            0 <= i < placed && #[trigger] a.moles[i].hole_index == Some(h as usize)))
    &&& free_count(a.holes) == free_count(b.holes) - placed
    // the moles' names were drawn one after the other, each from the names left
    // by the draw before (refilled from the pool when the last was drawn)
    &&& exists|steps: Seq<Seq<Seq<char>>>, picks: Seq<int>|
        #[trigger] successive_draws(steps, picks, names_of(a.moles), b.name_pool) && steps[0] == b.mole_names
            && steps.last() == a.mole_names
    &&& b.mole_names.len() > m ==> {
        // enough names were left: no name was given twice, and those given are gone
        &&& a.mole_names.len() == b.mole_names.len() - m
        &&& b.mole_names.to_multiset() == a.mole_names.to_multiset().add(names_of(a.moles).to_multiset())
    }
}

/// The names of the moles, in order.
pub open spec fn names_of(moles: Seq<MoleView>) -> Seq<Seq<char>> {
    moles.map_values(|m: MoleView| m.name)
}

/// Whether a key press makes the game give out mole names.
/// (`]` names a fresh board of moles, or the moles there are at the maximum;
/// `[` names the moles there are, unless at the minimum.)
pub open spec fn key_needs_names(g: GameView, code: KeyCode) -> bool {
    ||| (code == KeyCode::Char(']') && (g.num_moles < MAX_MOLES || g.moles.len() > 0))
    ||| (code == KeyCode::Char('[') && g.num_moles > MIN_MOLES && g.moles.len() > 0)
}

/// Whether an event makes the game give out mole names.
pub open spec fn event_needs_names(g: GameView, event: Event) -> bool {
    event matches Event::Key(k) && k.kind == KeyEventKind::Press && key_needs_names(g, k.code)
}

/// `g` is `b` with one mole and one hole more, on a fresh board of fresh moles.
pub open spec fn grown(b: GameView, g: GameView) -> bool {
    &&& g.num_moles == b.num_moles + 1
    &&& g.num_holes == b.num_holes + 1
    &&& fresh_moles(g.moles, g.num_moles as nat)
    &&& fresh_holes(g.holes, g.num_holes as nat)
    &&& g == GameView { num_moles: g.num_moles, num_holes: g.num_holes, moles: g.moles, holes: g.holes, ..b }
}

/// What a key press does, from `b` to `a`, answering `action`.
pub open spec fn key_effect(b: GameView, code: KeyCode, a: GameView, action: GameAction) -> bool {
    if code == KeyCode::Char('q') {
        a == GameView { exit: true, ..b } && action == GameAction::Shutdown
    } else if code == KeyCode::Char('[') {
        &&& action == GameAction::Continue
        &&& if b.num_moles > MIN_MOLES {
            // one mole fewer, a round of naming; one hole fewer, another round
            exists|mid: GameView|
                assign_round(GameView { num_moles: (b.num_moles - 1) as u64, ..b }, mid) && assign_round(
                    GameView { num_holes: (mid.num_holes - 1) as u64, ..mid },
                    a,
                )
        } else {
            a == b
        }
    } else if code == KeyCode::Char(']') {
        &&& action == GameAction::Continue
        &&& if b.num_moles < MAX_MOLES {
            exists|g: GameView| grown(b, g) && assign_round(g, a)
        } else {
            assign_round(b, a)
        }
    } else {
        a == b && action == GameAction::Continue
    }
}

/// `after` is `before` with name number `index` (`name`) taken out of the names
/// still to give, and the names refilled from the pool if it was the last.
pub open spec fn took_name(before: GameView, after: GameView, index: int, name: Seq<char>) -> bool {
    &&& name_draw(before.mole_names, after.mole_names, index, name, before.name_pool)
    &&& after == GameView { mole_names: after.mole_names, ..before }
}

/// One draw of a name from `names`: name number `index` is `name`, and the names
/// left are the others, or the whole `pool` again once the last one is drawn.
pub open spec fn name_draw(
    names: Seq<Seq<char>>,
    left: Seq<Seq<char>>,
    index: int,
    name: Seq<char>,
    pool: Seq<Seq<char>>,
) -> bool {
    &&& 0 <= index < names.len()
    &&& name == names[index]
    &&& left == if names.len() == 1 {
        pool
    } else {
        names.remove(index)
    }
}

/// `drawn` are the names of successive draws: draw `i` takes name number
/// `picks[i]`, `drawn[i]`, from `steps[i]` and leaves `steps[i + 1]`.
pub open spec fn successive_draws(
    steps: Seq<Seq<Seq<char>>>,
    picks: Seq<int>,
    drawn: Seq<Seq<char>>,
    pool: Seq<Seq<char>>,
) -> bool {
    &&& steps.len() == drawn.len() + 1
    &&& picks.len() == drawn.len()
    &&& forall|i: int| 0 <= i < drawn.len() ==> #[trigger] draw_step(steps, i, picks[i], drawn[i], pool)
}

/// Draw number `i` of a run: name number `k` of `steps[i]` is `name`, leaving `steps[i + 1]`.
pub open spec fn draw_step(steps: Seq<Seq<Seq<char>>>, i: int, k: int, name: Seq<char>, pool: Seq<Seq<char>>) -> bool {
    name_draw(steps[i], steps[i + 1], k, name, pool)
}

/// The first draws of a run of successive draws are successive draws too.
pub proof fn lemma_draws_prefix(
    steps: Seq<Seq<Seq<char>>>,
    picks: Seq<int>,
    drawn: Seq<Seq<char>>,
    pool: Seq<Seq<char>>,
)
    requires
        successive_draws(steps, picks, drawn, pool),
        drawn.len() > 0,
    ensures
        successive_draws(steps.drop_last(), picks.drop_last(), drawn.drop_last(), pool),
{
    let s2 = steps.drop_last();
    let p2 = picks.drop_last();
    let d2 = drawn.drop_last();
    assert forall|i: int| 0 <= i < d2.len() implies #[trigger] draw_step(s2, i, p2[i], d2[i], pool) by {
        assert(draw_step(steps, i, picks[i], drawn[i], pool));
    }
}

/// Drawing fewer names than there are: no name is drawn twice, and the names
/// left are exactly those not drawn.
pub proof fn lemma_draws_without_refill(
    steps: Seq<Seq<Seq<char>>>,
    picks: Seq<int>,
    drawn: Seq<Seq<char>>,
    pool: Seq<Seq<char>>,
)
    requires
        successive_draws(steps, picks, drawn, pool),
        drawn.len() < steps[0].len(),
    ensures
        steps.last().len() == steps[0].len() - drawn.len(),
        steps[0].to_multiset() == steps.last().to_multiset().add(drawn.to_multiset()),
    decreases drawn.len(),
{
    broadcast use vstd::seq_lib::group_to_multiset_ensures, vstd::multiset::group_multiset_axioms;

    if drawn.len() == 0 {
        assert(drawn.to_multiset() =~= vstd::multiset::Multiset::<Seq<char>>::empty());
        assert(steps[0].to_multiset() =~= steps[0].to_multiset().add(drawn.to_multiset()));
    } else {
        let n = drawn.len() - 1;
        lemma_draws_prefix(steps, picks, drawn, pool);
        lemma_draws_without_refill(steps.drop_last(), picks.drop_last(), drawn.drop_last(), pool);
        let prev = steps[n];
        assert(prev == steps.drop_last().last());
        assert(draw_step(steps, n, picks[n], drawn[n], pool));
        assert(prev.len() >= 2);
        vstd::seq_lib::to_multiset_remove(prev, picks[n]);
        vstd::seq_lib::to_multiset_contains(prev, drawn[n]);
        assert(prev.to_multiset() =~= steps.last().to_multiset().insert(drawn[n]));
        assert(drawn =~= drawn.drop_last().push(drawn[n]));
        vstd::seq_lib::to_multiset_build(drawn.drop_last(), drawn[n]);
        assert(steps[0].to_multiset() =~= steps.last().to_multiset().add(drawn.to_multiset()));
    }
}

/// Drawing as many names as there are draws each of them once, and then the
/// names to draw are the whole pool again.
pub proof fn lemma_draws_until_refill(
    steps: Seq<Seq<Seq<char>>>,
    picks: Seq<int>,
    drawn: Seq<Seq<char>>,
    pool: Seq<Seq<char>>,
)
    requires
        successive_draws(steps, picks, drawn, pool),
        drawn.len() == steps[0].len(),
        drawn.len() > 0,
    ensures
        drawn.to_multiset() == steps[0].to_multiset(),
        steps.last() == pool,
{
    broadcast use vstd::seq_lib::group_to_multiset_ensures, vstd::multiset::group_multiset_axioms;

    let n = drawn.len() - 1;
    lemma_draws_prefix(steps, picks, drawn, pool);
    lemma_draws_without_refill(steps.drop_last(), picks.drop_last(), drawn.drop_last(), pool);
    let prev = steps[n];
    assert(prev == steps.drop_last().last());
    assert(draw_step(steps, n, picks[n], drawn[n], pool));
    assert(prev.len() == 1);
    assert(prev.to_multiset() =~= vstd::multiset::Multiset::<Seq<char>>::empty().insert(drawn[n])) by {
        assert(prev =~= Seq::<Seq<char>>::empty().push(drawn[n]));
        vstd::seq_lib::to_multiset_build(Seq::<Seq<char>>::empty(), drawn[n]);
        assert(Seq::<Seq<char>>::empty().to_multiset() =~= vstd::multiset::Multiset::<Seq<char>>::empty());
    }
    assert(drawn =~= drawn.drop_last().push(drawn[n]));
    vstd::seq_lib::to_multiset_build(drawn.drop_last(), drawn[n]);
    assert(drawn.to_multiset() =~= steps[0].to_multiset());
}

/// Call number `i` of a run of calls takes name number `k`, `name`, from `games[i]` to `games[i + 1]`.
pub open spec fn take_step(games: Seq<GameView>, i: int, k: int, name: Seq<char>) -> bool {
    took_name(games[i], games[i + 1], k, name)
}

/// Successive calls of `take_mole_name` (or `get_mole_name`), as many as there
/// are names still to give, give each of those names once and then leave the
/// whole pool to give again.
pub proof fn lemma_successive_takes(games: Seq<GameView>, picks: Seq<int>, drawn: Seq<Seq<char>>)
    requires
        games.len() == drawn.len() + 1,
        picks.len() == drawn.len(),
        forall|i: int| 0 <= i < drawn.len() ==> #[trigger] take_step(games, i, picks[i], drawn[i]),
        drawn.len() == games[0].mole_names.len(),
        drawn.len() > 0,
    ensures
        drawn.to_multiset() == games[0].mole_names.to_multiset(),
        games.last().mole_names == games[0].name_pool,
{
    let pool = games[0].name_pool;
    let steps = games.map_values(|g: GameView| g.mole_names);
    assert forall|i: int| 0 <= i < games.len() implies #[trigger] games[i].name_pool == pool by {
        lemma_takes_keep_pool(games, picks, drawn, i);
    }
    assert forall|i: int| 0 <= i < drawn.len() implies #[trigger] draw_step(steps, i, picks[i], drawn[i], pool) by {
        assert(take_step(games, i, picks[i], drawn[i]));
        assert(games[i].name_pool == pool);
    }
    lemma_draws_until_refill(steps, picks, drawn, pool);
}

/// Taking names never changes the pool.
proof fn lemma_takes_keep_pool(games: Seq<GameView>, picks: Seq<int>, drawn: Seq<Seq<char>>, i: int)
    requires
        games.len() == drawn.len() + 1,
        picks.len() == drawn.len(),
        forall|j: int| 0 <= j < drawn.len() ==> #[trigger] take_step(games, j, picks[j], drawn[j]),
        0 <= i < games.len(),
    ensures
        games[i].name_pool == games[0].name_pool,
    decreases i,
{
    if i > 0 {
        lemma_takes_keep_pool(games, picks, drawn, i - 1);
        assert(take_step(games, i - 1, picks[i - 1], drawn[i - 1]));
    }
}

/// On a board where no hole is occupied every hole is free.
pub proof fn lemma_free_count_all_free(holes: Seq<Hole>)
    requires
        forall|h: int| 0 <= h < holes.len() ==> !(#[trigger] holes[h]).occupied,
    ensures
        free_count(holes) == holes.len(),
    decreases holes.len(),
{
    if holes.len() > 0 {
        lemma_free_count_all_free(holes.drop_last());
    }
}

/// Naming and placing the moles on a fresh board with as many holes as moles
/// puts every mole in a hole of its own.
pub proof fn lemma_fresh_board_places_every_mole(b: GameView, a: GameView, n: nat)
    requires
        fresh_moles(b.moles, n),
        fresh_holes(b.holes, n),
        assign_round(b, a),
    ensures
        forall|i: int| 0 <= i < a.moles.len() ==> (#[trigger] a.moles[i].hole_index) is Some,
        free_count(a.holes) == 0,
{
    assert forall|h: int| 0 <= h < b.holes.len() implies !(#[trigger] b.holes[h]).occupied by {
        assert(is_fresh_hole(b.holes[h], h, n));
    }
    lemma_free_count_all_free(b.holes);
    assert forall|i: int| 0 <= i < a.moles.len() implies (#[trigger] a.moles[i].hole_index) is Some by {
        assert(a.moles[i].hole_index matches Some(h) && h < b.holes.len() && !b.holes[h as int].occupied);
    }
}

/// After `]` below the maximum every mole sits in a hole of its own.
pub proof fn lemma_more_moles_all_placed(b: GameView, a: GameView, action: GameAction)
    requires
        game_wf(b),
        key_effect(b, KeyCode::Char(']'), a, action),
        b.num_moles < MAX_MOLES,
    ensures
        a.moles.len() == b.num_moles + 1,
        forall|i: int| 0 <= i < a.moles.len() ==> (#[trigger] a.moles[i].hole_index) is Some,
{
    let g = choose|g: GameView| grown(b, g) && assign_round(g, a);
    lemma_fresh_board_places_every_mole(g, a, g.num_moles as nat);
}

/// `]` and then `[`, from below the maximum, give back the numbers of moles and
/// holes that the game had.
pub proof fn lemma_more_then_fewer(b: GameView, a1: GameView, a2: GameView, x1: GameAction, x2: GameAction)
    requires
        game_wf(b),
        b.num_moles < MAX_MOLES,
        key_effect(b, KeyCode::Char(']'), a1, x1),
        key_effect(a1, KeyCode::Char('['), a2, x2),
    ensures
        a2.num_moles == b.num_moles,
        a2.num_holes == b.num_holes,
        x1 == GameAction::Continue && x2 == GameAction::Continue,
{
    let g = choose|g: GameView| grown(b, g) && assign_round(g, a1);
    assert(a1.num_moles == b.num_moles + 1);
    let mid = choose|mid: GameView|
        assign_round(GameView { num_moles: (a1.num_moles - 1) as u64, ..a1 }, mid) && assign_round(
            GameView { num_holes: (mid.num_holes - 1) as u64, ..mid },
            a2,
        );
}

/// The number of moles after a key press: `[` takes one away down to the
/// minimum, `]` adds one up to the maximum, other keys leave it.
pub open spec fn key_moles(n: u64, code: KeyCode) -> u64 {
    if code == KeyCode::Char('[') && n > MIN_MOLES {
        (n - 1) as u64
    } else if code == KeyCode::Char(']') && n < MAX_MOLES {
        (n + 1) as u64
    } else {
        n
    }
}

/// What a key press does, in short: only `q` shuts the game down (and sets
/// `exit`); `[` and `]` move the number of moles and holes by one within the
/// bounds; `[` at the minimum and any other key leave the game as it was.
pub proof fn lemma_key_effect_laws(b: GameView, code: KeyCode, a: GameView, action: GameAction)
    requires
        key_effect(b, code, a, action),
    ensures
        (action == GameAction::Shutdown) == (code == KeyCode::Char('q')),
        a.exit == (b.exit || code == KeyCode::Char('q')),
        a.num_moles == key_moles(b.num_moles, code),
        a.num_holes == if code == KeyCode::Char('q') { b.num_holes } else {
            (b.num_holes + a.num_moles - b.num_moles) as u64
        },
        code == KeyCode::Char('[') && b.num_moles <= MIN_MOLES ==> a == b,
        code != KeyCode::Char('q') && code != KeyCode::Char('[') && code != KeyCode::Char(']') ==> a == b,
{
    if code == KeyCode::Char('[') && b.num_moles > MIN_MOLES {
        let mid = choose|mid: GameView|
            assign_round(GameView { num_moles: (b.num_moles - 1) as u64, ..b }, mid) && assign_round(
                GameView { num_holes: (mid.num_holes - 1) as u64, ..mid },
                a,
            );
    } else if code == KeyCode::Char(']') && b.num_moles < MAX_MOLES {
        let g = choose|g: GameView| grown(b, g) && assign_round(g, a);
    }
}

} // verus!
