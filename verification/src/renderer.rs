//! The screen the renderer draws: three panels and how messages change them.

use vstd::prelude::*;
use vstd::string::*;
use crate::message_format::{BoardSnapshot, GamePanelOp, PanelContent, PanelKind, PanelOps, PanelUpdate, RenderMessage, TextPanelOp};
use crate::text::{line_count, text_lines};

verus! {

// percentages of the screen: the top (game) part, and its left (garden) part
pub const TOP_PANEL_PERC: u16 = 70;
pub const TOP_LEFT_PANEL_PERC: u16 = 60;

/// The border colour of a panel; the front end maps it to a terminal colour.
#[derive(Debug, Clone, Copy, PartialEq, Eq, Structural)]
pub enum PanelColor {
    Green,
    Magenta,
    Cyan,
}

/// Where on the screen a panel is drawn.
#[derive(Debug, Clone, Copy, PartialEq, Eq, Structural)]
pub enum PanelSlot {
    TopLeft,
    TopRight,
    Bottom,
}

/// A panel of the screen.
#[derive(Debug)]
pub struct Panel {
    pub panel_kind: PanelKind,
    pub title: String,
    pub content: PanelContent,
    pub border_color: PanelColor,
}

/// What a panel shows, with text by its characters.
pub enum ContentView {
    Text(Seq<char>),
    Board(BoardSnapshot),
}

/// A panel as the contracts speak of it.
pub struct PanelView {
    pub panel_kind: PanelKind,
    pub title: Seq<char>,
    pub content: ContentView,
    pub border_color: PanelColor,
}

impl View for Panel {
    type V = PanelView;

    open spec fn view(&self) -> PanelView {
        PanelView {
            panel_kind: self.panel_kind,
            title: self.title@,
            content: match self.content {
                PanelContent::Text(s) => ContentView::Text(s@),
                PanelContent::Board(b) => ContentView::Board(b),
            },
            border_color: self.border_color,
        }
    }
}

/// The screen layout: ratatui splits it into a top and a bottom part, then the
/// top part into a left and a right part; three panels fill them.
#[derive(Debug)]
pub struct Screen {
    pub top_panel_percent: u16,
    pub bottom_panel_percent: u16,
    pub top_left_panel_percent: u16,
    pub top_right_panel_percent: u16,
    pub panels: Vec<Panel>,
}

/// The panels of a screen, by their views.
pub open spec fn panel_views(panels: Seq<Panel>) -> Seq<PanelView> {
    panels.map_values(|p: Panel| p@)
}

/// The index of the first panel of kind `kind`, or the number of panels if there is none.
pub open spec fn first_panel(panels: Seq<PanelView>, kind: PanelKind) -> int
    decreases panels.len(),
{
    if panels.len() == 0 {
        0
    } else if panels[0].panel_kind == kind {
        0
    } else {
        1 + first_panel(panels.drop_first(), kind)
    }
}

/// The text of a text panel after `op`.
pub open spec fn text_after(s: Seq<char>, op: TextPanelOp) -> Seq<char> {
    match op {
        TextPanelOp::Append(t) => s + t@,
        TextPanelOp::Replace(t) => t@,
        TextPanelOp::Clear => Seq::empty(),
    }
}

/// A panel after a text operation: a text panel's text changes, a board does not.
pub open spec fn panel_after_text_op(p: PanelView, op: TextPanelOp) -> PanelView {
    match p.content {
        ContentView::Text(s) => PanelView { content: ContentView::Text(text_after(s, op)), ..p },
        ContentView::Board(_) => p,
    }
}

/// The empty board.
pub open spec fn is_empty_board(b: BoardSnapshot) -> bool {
    b.moles@.len() == 0 && b.num_moles == 0
}

/// The panels after a board operation: the first game panel shows the new board.
pub open spec fn panels_after_board_op(panels: Seq<PanelView>, op: GamePanelOp, empty: BoardSnapshot) -> Seq<PanelView> {
    let g = first_panel(panels, PanelKind::Game);
    if g < panels.len() {
        let board = match op {
            GamePanelOp::Replace(b) => b,
            GamePanelOp::Clear => empty,
        };
        panels.update(g, PanelView { content: ContentView::Board(board), ..panels[g] })
    } else {
        panels
    }
}

/// The panels after a message, when `empty` is the board that a clear leaves.
/// A message for a panel that the screen lacks changes nothing.
pub open spec fn panels_after(panels: Seq<PanelView>, msg: RenderMessage, empty: BoardSnapshot) -> Seq<PanelView> {
    match msg {
        RenderMessage::Panel(update) => {
            let i = first_panel(panels, update.target);
            if i < panels.len() {
                match update.op {
                    PanelOps::Game(op) => panels_after_board_op(panels, op, empty),
                    PanelOps::Text(op) => panels.update(i, panel_after_text_op(panels[i], op)),
                }
            } else {
                panels
            }
        }
    }
}

/// `first_panel` stays within the panels.
pub proof fn lemma_first_panel_bounds(panels: Seq<PanelView>, kind: PanelKind)
    ensures
        0 <= first_panel(panels, kind) <= panels.len(),
        first_panel(panels, kind) < panels.len() ==> panels[first_panel(panels, kind)].panel_kind == kind,
        forall|j: int| 0 <= j < first_panel(panels, kind) ==> panels[j].panel_kind != kind,
    decreases panels.len(),
{
    if panels.len() > 0 && panels[0].panel_kind != kind {
        let rest = panels.drop_first();
        lemma_first_panel_bounds(rest, kind);
        assert forall|j: int| 0 <= j < first_panel(panels, kind) implies panels[j].panel_kind != kind by {
            if j > 0 {
                assert(panels[j] == rest[j - 1]);
            }
        }
    }
}

/// The first panel of a kind is the one that a search from the front finds.
pub proof fn lemma_first_panel_is(panels: Seq<PanelView>, kind: PanelKind, i: int)
    requires
        0 <= i <= panels.len(),
        forall|j: int| 0 <= j < i ==> panels[j].panel_kind != kind,
        i < panels.len() ==> panels[i].panel_kind == kind,
    ensures
        first_panel(panels, kind) == i,
    decreases panels.len(),
{
    if panels.len() > 0 && i > 0 {
        let rest = panels.drop_first();
        assert forall|j: int| 0 <= j < i - 1 implies rest[j].panel_kind != kind by {
            assert(rest[j] == panels[j + 1]);
        }
        lemma_first_panel_is(rest, kind, i - 1);
    }
}

/// Changing a panel without changing its kind leaves every search by kind as it was.
pub proof fn lemma_first_panel_update(panels: Seq<PanelView>, i: int, p: PanelView, kind: PanelKind)
    requires
        0 <= i < panels.len(),
        p.panel_kind == panels[i].panel_kind,
    ensures
        first_panel(panels.update(i, p), kind) == first_panel(panels, kind),
{
    let after = panels.update(i, p);
    lemma_first_panel_bounds(panels, kind);
    let f = first_panel(panels, kind);
    assert forall|j: int| 0 <= j < f implies after[j].panel_kind != kind by {
        assert(after[j].panel_kind == panels[j].panel_kind);
    }
    if f < panels.len() {
        assert(after[f].panel_kind == panels[f].panel_kind);
    }
    lemma_first_panel_is(after, kind, f);
}

/// The message that applies a text operation to the panel of kind `target`.
pub open spec fn text_message(target: PanelKind, op: TextPanelOp) -> RenderMessage {
    RenderMessage::Panel(PanelUpdate { target, op: PanelOps::Text(op) })
}

/// Replacing a panel's text is clearing it and then appending the new text.
pub proof fn lemma_replace_is_clear_then_append(
    panels: Seq<PanelView>,
    target: PanelKind,
    t: String,
    empty: BoardSnapshot,
)
    ensures
        panels_after(panels, text_message(target, TextPanelOp::Replace(t)), empty) == panels_after(
            panels_after(panels, text_message(target, TextPanelOp::Clear), empty),
            text_message(target, TextPanelOp::Append(t)),
            empty,
        ),
{
    let i = first_panel(panels, target);
    lemma_first_panel_bounds(panels, target);
    if i < panels.len() {
        let cleared = panels.update(i, panel_after_text_op(panels[i], TextPanelOp::Clear));
        lemma_first_panel_update(panels, i, panel_after_text_op(panels[i], TextPanelOp::Clear), target);
        match panels[i].content {
            ContentView::Text(s) => {
                assert(Seq::<char>::empty() + t@ =~= t@);
            },
            ContentView::Board(_) => {},
        }
        assert(panels_after(panels, text_message(target, TextPanelOp::Replace(t)), empty) =~= panels_after(
            cleared,
            text_message(target, TextPanelOp::Append(t)),
            empty,
        ));
    }
}

/// Appending `a` and then `b` to a panel is appending `a` followed by `b` at once.
pub proof fn lemma_append_twice(
    panels: Seq<PanelView>,
    target: PanelKind,
    a: String,
    b: String,
    ab: String,
    empty: BoardSnapshot,
)
    requires
        ab@ == a@ + b@,
    ensures
        panels_after(
            panels_after(panels, text_message(target, TextPanelOp::Append(a)), empty),
            text_message(target, TextPanelOp::Append(b)),
            empty,
        ) == panels_after(panels, text_message(target, TextPanelOp::Append(ab)), empty),
{
    let i = first_panel(panels, target);
    lemma_first_panel_bounds(panels, target);
    if i < panels.len() {
        let once = panels.update(i, panel_after_text_op(panels[i], TextPanelOp::Append(a)));
        lemma_first_panel_update(panels, i, panel_after_text_op(panels[i], TextPanelOp::Append(a)), target);
        match panels[i].content {
            ContentView::Text(s) => {
                assert(s + a@ + b@ =~= s + ab@);
            },
            ContentView::Board(_) => {},
        }
        assert(panels_after(once, text_message(target, TextPanelOp::Append(b)), empty) =~= panels_after(
            panels,
            text_message(target, TextPanelOp::Append(ab)),
            empty,
        ));
    }
}

/// Messages never change which panels the screen has, nor their titles and colours.
pub proof fn lemma_messages_keep_panels(panels: Seq<PanelView>, msg: RenderMessage, empty: BoardSnapshot)
    ensures
        panels_after(panels, msg, empty).len() == panels.len(),
        forall|j: int|
            0 <= j < panels.len() ==> {
                let after = #[trigger] panels_after(panels, msg, empty)[j];
                &&& after.panel_kind == panels[j].panel_kind
                &&& after.title == panels[j].title
                &&& after.border_color == panels[j].border_color
            },
{
    lemma_first_panel_bounds(panels, PanelKind::Game);
    match msg {
        RenderMessage::Panel(update) => {
            lemma_first_panel_bounds(panels, update.target);
        },
    }
}

/// Where a panel of each kind is drawn: the garden top left, the journal top
/// right, the debug panel along the bottom.
pub fn panel_slot(kind: PanelKind) -> (slot: PanelSlot)
    ensures
        slot == match kind {
            PanelKind::Game => PanelSlot::TopLeft,
            PanelKind::Status => PanelSlot::TopRight,
            PanelKind::Debug => PanelSlot::Bottom,
        },
{
    match kind {
        PanelKind::Game => PanelSlot::TopLeft,
        PanelKind::Status => PanelSlot::TopRight,
        PanelKind::Debug => PanelSlot::Bottom,
    }
}

/// `a - b`, or 0 where `b` exceeds `a`.
pub open spec fn saturating_sub(a: int, b: int) -> int {
    if a > b {
        a - b
    } else {
        0
    }
}

/// How many lines a text panel of kind `kind`, `area_height` rows high with its
/// borders, scrolls down: the Debug panel follows the tail of its text, the
/// others render from the top. The line count is taken modulo 2^16, as a `u16`
/// holds it.
pub open spec fn scroll_for(kind: PanelKind, text: Seq<char>, area_height: u16) -> int {
    match kind {
        PanelKind::Debug => saturating_sub(
            (text_lines(text).len() % 0x1_0000) as int,
            saturating_sub(area_height as int, 2),
        ),
        _ => 0,
    }
}

/// The vertical scroll of a panel: the Debug panel keeps its last lines in view.
pub fn text_scroll(kind: PanelKind, text: &str, area_height: u16) -> (scroll_y: u16)
    ensures
        scroll_y == scroll_for(kind, text@, area_height),
        // the Debug panel scrolls exactly so far that its last line sits on the last
        // inner row (for texts of fewer than 2^16 lines); the others do not scroll
        kind == PanelKind::Debug && text_lines(text@).len() < 0x1_0000 ==> scroll_y == saturating_sub(
            text_lines(text@).len() as int,
            saturating_sub(area_height as int, 2),
        ),
        kind != PanelKind::Debug ==> scroll_y == 0,
{
    proof {
        lemma_debug_scroll_shows_tail(text@, area_height);
    }
    match kind {
        PanelKind::Debug => {
            let total_lines = (line_count(text) % 0x1_0000) as u16;
            let inner_height = area_height.saturating_sub(2);
            total_lines.saturating_sub(inner_height)
        },
        PanelKind::Status | PanelKind::Game => 0,
    }
}

/// Two screens split the same way.
pub open spec fn same_layout(a: Screen, b: Screen) -> bool {
    &&& a.top_panel_percent == b.top_panel_percent
    &&& a.bottom_panel_percent == b.bottom_panel_percent
    &&& a.top_left_panel_percent == b.top_left_panel_percent
    &&& a.top_right_panel_percent == b.top_right_panel_percent
}

/// The screen a game starts with.
pub open spec fn is_default_screen(screen: Screen) -> bool {
    let v = panel_views(screen.panels@);
    &&& screen.top_panel_percent == TOP_PANEL_PERC
    &&& screen.bottom_panel_percent == 100 - TOP_PANEL_PERC
    &&& screen.top_left_panel_percent == TOP_LEFT_PANEL_PERC
    &&& screen.top_right_panel_percent == 100 - TOP_LEFT_PANEL_PERC
    &&& v.len() == 3
    &&& v[0].panel_kind == PanelKind::Game
    &&& v[0].title == seq!['G', 'a', 'r', 'd', 'e', 'n']
    &&& v[0].content matches ContentView::Board(b) && is_empty_board(b)
    &&& v[0].border_color == PanelColor::Green
    &&& v[1].panel_kind == PanelKind::Status
    &&& v[1].title == seq!['J', 'o', 'u', 'r', 'n', 'a', 'l']
    &&& v[1].content == ContentView::Text(Seq::empty())
    &&& v[1].border_color == PanelColor::Magenta
    &&& v[2].panel_kind == PanelKind::Debug
    &&& v[2].title == seq!['D', 'e', 'b', 'u', 'g']
    &&& v[2].content == ContentView::Text(Seq::empty())
    &&& v[2].border_color == PanelColor::Cyan
}

impl Default for Screen {
    fn default() -> (screen: Self)
        ensures
            is_default_screen(screen),
    {
        let mut panels: Vec<Panel> = Vec::new();
        panels.push(
            Panel {
                panel_kind: PanelKind::Game,
                title: String::from_str("Garden"),
                content: PanelContent::Board(BoardSnapshot { moles: Vec::new(), num_moles: 0 }),
                border_color: PanelColor::Green,
            },
        );
        panels.push(
            Panel {
                panel_kind: PanelKind::Status,
                title: String::from_str("Journal"),
                content: PanelContent::Text(String::new()),
                border_color: PanelColor::Magenta,
            },
        );
        panels.push(
            Panel {
                panel_kind: PanelKind::Debug,
                title: String::from_str("Debug"),
                content: PanelContent::Text(String::new()),
                border_color: PanelColor::Cyan,
            },
        );
        proof {
            reveal_strlit("Garden");
            reveal_strlit("Journal");
            reveal_strlit("Debug");
        }
        let screen = Self {
            top_panel_percent: TOP_PANEL_PERC,
            bottom_panel_percent: 100 - TOP_PANEL_PERC,
            top_left_panel_percent: TOP_LEFT_PANEL_PERC,
            top_right_panel_percent: 100 - TOP_LEFT_PANEL_PERC,
            panels,
        };
        proof {
            let v = panel_views(screen.panels@);
            assert(v[0].title =~= seq!['G', 'a', 'r', 'd', 'e', 'n']);
            assert(v[1].title =~= seq!['J', 'o', 'u', 'r', 'n', 'a', 'l']);
            assert(v[2].title =~= seq!['D', 'e', 'b', 'u', 'g']);
        }
        screen
    }
}

impl Screen {
    /// The default layout: garden and journal on top (70%), split 60/40, and the
    /// debug panel below (30%); the garden shows an empty board, the others no text.
    pub fn new() -> (screen: Self)
        ensures
            is_default_screen(screen),
    {
        Self::default()
    }

    /// The index of the first panel of kind `kind`, if the screen has one.
    pub fn find_panel(&self, kind: PanelKind) -> (index: Option<usize>)
        ensures
            match index {
                Some(i) => i == first_panel(panel_views(self.panels@), kind) && i < self.panels@.len(),
                None => first_panel(panel_views(self.panels@), kind) == self.panels@.len(),
            },
    {
        let ghost views = panel_views(self.panels@);
        let mut i: usize = 0;
        while i < self.panels.len()
            invariant
                views == panel_views(self.panels@),
                0 <= i <= self.panels@.len(),
                forall|j: int| 0 <= j < i ==> views[j].panel_kind != kind,
            decreases self.panels@.len() - i,
        {
            if self.panels[i].panel_kind == kind {
                proof {
                    lemma_first_panel_is(views, kind, i as int);
                }
                return Some(i);
            }
            i = i + 1;
        }
        proof {
            lemma_first_panel_is(views, kind, i as int);
        }
        None
    }

    /// Apply a text operation to panel number `i`: append to, replace or clear
    /// its text; a panel that shows the board is left as it is.
    pub fn update_text(&mut self, i: usize, op: TextPanelOp)
        requires
            i < old(self).panels@.len(),
        ensures
            panel_views(final(self).panels@) == panel_views(old(self).panels@).update(
                i as int,
                panel_after_text_op(old(self).panels@[i as int]@, op),
            ),
            same_layout(*final(self), *old(self)),
    {
        let ghost old_panels = self.panels@;
        let ghost o = op;
        match &mut self.panels[i].content {
            PanelContent::Text(s) => {
                match op {
                    TextPanelOp::Append(t) => {
                        s.append(t.as_str());
                    },
                    TextPanelOp::Replace(t) => {
                        *s = t;
                    },
                    TextPanelOp::Clear => {
                        *s = String::new();
                    },
                }
            },
            PanelContent::Board(_) => {},
        }
        proof {
            assert(panel_views(self.panels@) =~= panel_views(old_panels).update(
                i as int,
                panel_after_text_op(old_panels[i as int]@, o),
            ));
        }
    }

    /// Update or clear the board shown in the garden (without drawing it).
    pub fn update_board(&mut self, op: GamePanelOp)
        ensures
            exists|empty: BoardSnapshot|
                is_empty_board(empty) && panel_views(final(self).panels@)
                    == panels_after_board_op(panel_views(old(self).panels@), op, empty),
            same_layout(*final(self), *old(self)),
    {
        let ghost old_panels = self.panels@;
        let ghost o = op;
        let empty = BoardSnapshot { moles: Vec::new(), num_moles: 0 };
        let ghost e = empty;
        match self.find_panel(PanelKind::Game) {
            Some(g) => {
                let board = match op {
                    GamePanelOp::Replace(b) => b,
                    GamePanelOp::Clear => empty,
                };
                self.panels[g].content = PanelContent::Board(board);
                proof {
                    lemma_first_panel_bounds(panel_views(old_panels), PanelKind::Game);
                    assert(panel_views(self.panels@) =~= panels_after_board_op(panel_views(old_panels), o, e));
                }
            },
            None => {},
        }
        assert(is_empty_board(e));
    }

    /// Apply a message to the screen (without drawing it): a text operation
    /// changes the text of its target panel, a board operation the garden; a
    /// message for a panel that the screen lacks is dropped.
    pub fn apply(&mut self, msg: RenderMessage)
        ensures
            exists|empty: BoardSnapshot|
                is_empty_board(empty) && panel_views(final(self).panels@)
                    == panels_after(panel_views(old(self).panels@), msg, empty),
            same_layout(*final(self), *old(self)),
    {
        match msg {
            RenderMessage::Panel(update) => {
                match self.find_panel(update.target) {
                    Some(i) => {
                        match update.op {
                            PanelOps::Game(game_op) => self.update_board(game_op),
                            PanelOps::Text(text_op) => {
                                self.update_text(i, text_op);
                                let empty = BoardSnapshot { moles: Vec::new(), num_moles: 0 };
                                assert(is_empty_board(empty));
                            },
                        }
                    },
                    None => {
                        let empty = BoardSnapshot { moles: Vec::new(), num_moles: 0 };
                        assert(is_empty_board(empty));
                    },
                }
            },
        }
    }
}

/// The Debug panel's scroll keeps the tail of its text in view: with `n` lines
/// (fewer than 2^16) and `h` inner rows, it skips `n - h` lines when the text is
/// longer than the panel, so that lines `n - h + 1` to `n` show, and none otherwise.
pub proof fn lemma_debug_scroll_shows_tail(text: Seq<char>, area_height: u16)
    ensures
        ({
            let n = text_lines(text).len() as int;
            let h = saturating_sub(area_height as int, 2);
            let scroll = scroll_for(PanelKind::Debug, text, area_height);
            n < 0x1_0000 ==> {
                &&& 0 <= scroll
                &&& (n > h ==> scroll + h == n)
                &&& (n <= h ==> scroll == 0)
            }
        }),
        scroll_for(PanelKind::Status, text, area_height) == 0,
        scroll_for(PanelKind::Game, text, area_height) == 0,
{
    let n = text_lines(text).len();
    if n < 0x1_0000 {
        assert(n % 0x1_0000 == n) by (nonlinear_arith)
            requires
                n < 0x1_0000,
        ;
    }
}

} // verus!
