use whack_a_mole::message_format::{
    trace_message, BoardSnapshot, GamePanelOp, PanelContent, PanelKind, PanelOps, PanelUpdate, RenderMessage,
    TextPanelOp,
};
use whack_a_mole::mole::Mole;
use whack_a_mole::renderer::{panel_slot, text_scroll, PanelColor, PanelSlot, Screen};

fn text_msg(target: PanelKind, op: TextPanelOp) -> RenderMessage {
    RenderMessage::Panel(PanelUpdate { target, op: PanelOps::Text(op) })
}

fn text_of(screen: &Screen, i: usize) -> String {
    match &screen.panels[i].content {
        PanelContent::Text(s) => s.clone(),
        PanelContent::Board(_) => panic!("panel {i} shows the board"),
    }
}

#[test]
fn default_screen_layout() {
    let s = Screen::new();
    assert_eq!(s.top_panel_percent, 70);
    assert_eq!(s.bottom_panel_percent, 30);
    assert_eq!(s.top_left_panel_percent, 60);
    assert_eq!(s.top_right_panel_percent, 40);
    assert_eq!(s.panels.len(), 3);
    assert_eq!(s.panels[0].panel_kind, PanelKind::Game);
    assert_eq!(s.panels[0].title, "Garden");
    assert_eq!(s.panels[0].border_color, PanelColor::Green);
    assert!(matches!(&s.panels[0].content, PanelContent::Board(b) if b.moles.is_empty() && b.num_moles == 0));
    assert_eq!(s.panels[1].panel_kind, PanelKind::Status);
    assert_eq!(s.panels[1].title, "Journal");
    assert_eq!(s.panels[1].border_color, PanelColor::Magenta);
    assert_eq!(text_of(&s, 1), "");
    assert_eq!(s.panels[2].panel_kind, PanelKind::Debug);
    assert_eq!(s.panels[2].title, "Debug");
    assert_eq!(s.panels[2].border_color, PanelColor::Cyan);
    assert_eq!(text_of(&s, 2), "");
}

#[test]
fn find_panel_by_kind() {
    let mut s = Screen::new();
    assert_eq!(s.find_panel(PanelKind::Game), Some(0));
    assert_eq!(s.find_panel(PanelKind::Status), Some(1));
    assert_eq!(s.find_panel(PanelKind::Debug), Some(2));
    s.panels.remove(1);
    assert_eq!(s.find_panel(PanelKind::Status), None);
}

#[test]
fn append_replace_clear() {
    let mut s = Screen::new();
    s.apply(text_msg(PanelKind::Debug, TextPanelOp::Append(String::from("one\n"))));
    s.apply(text_msg(PanelKind::Debug, TextPanelOp::Append(String::from("two\n"))));
    assert_eq!(text_of(&s, 2), "one\ntwo\n");
    assert_eq!(text_of(&s, 1), "");
    s.apply(text_msg(PanelKind::Status, TextPanelOp::Replace(String::from("hit!"))));
    assert_eq!(text_of(&s, 1), "hit!");
    s.apply(text_msg(PanelKind::Debug, TextPanelOp::Clear));
    assert_eq!(text_of(&s, 2), "");
    assert_eq!(text_of(&s, 1), "hit!");
}

#[test]
fn replace_equals_clear_then_append() {
    let mut a = Screen::new();
    let mut b = Screen::new();
    a.apply(text_msg(PanelKind::Status, TextPanelOp::Append(String::from("old"))));
    b.apply(text_msg(PanelKind::Status, TextPanelOp::Append(String::from("old"))));
    a.apply(text_msg(PanelKind::Status, TextPanelOp::Replace(String::from("new"))));
    b.apply(text_msg(PanelKind::Status, TextPanelOp::Clear));
    b.apply(text_msg(PanelKind::Status, TextPanelOp::Append(String::from("new"))));
    assert_eq!(text_of(&a, 1), text_of(&b, 1));
}

#[test]
fn text_op_on_the_board_changes_nothing() {
    let mut s = Screen::new();
    s.apply(text_msg(PanelKind::Game, TextPanelOp::Append(String::from("x"))));
    assert!(matches!(&s.panels[0].content, PanelContent::Board(b) if b.moles.is_empty()));
}

#[test]
fn board_replace_and_clear() {
    let mut s = Screen::new();
    let snap = BoardSnapshot { moles: vec![Mole::new(), Mole::new()], num_moles: 2 };
    s.apply(RenderMessage::Panel(PanelUpdate {
        target: PanelKind::Game,
        op: PanelOps::Game(GamePanelOp::Replace(snap)),
    }));
    assert!(matches!(&s.panels[0].content, PanelContent::Board(b) if b.moles.len() == 2 && b.num_moles == 2));
    s.apply(RenderMessage::Panel(PanelUpdate { target: PanelKind::Game, op: PanelOps::Game(GamePanelOp::Clear) }));
    assert!(matches!(&s.panels[0].content, PanelContent::Board(b) if b.moles.is_empty() && b.num_moles == 0));
}

#[test]
fn message_for_missing_panel_is_dropped() {
    let mut s = Screen::new();
    s.panels.remove(2);
    s.apply(text_msg(PanelKind::Debug, TextPanelOp::Append(String::from("lost"))));
    assert_eq!(s.panels.len(), 2);
    assert_eq!(text_of(&s, 1), "");
}

#[test]
fn trace_lines() {
    match trace_message("12:00:01", "Spawned game task") {
        RenderMessage::Panel(PanelUpdate { target, op: PanelOps::Text(TextPanelOp::Append(line)) }) => {
            assert_eq!(target, PanelKind::Debug);
            assert_eq!(line, "12:00:01: Spawned game task\n");
        },
        _ => panic!("not an append to the debug panel"),
    }
}

#[test]
fn slots_of_panels() {
    assert_eq!(panel_slot(PanelKind::Game), PanelSlot::TopLeft);
    assert_eq!(panel_slot(PanelKind::Status), PanelSlot::TopRight);
    assert_eq!(panel_slot(PanelKind::Debug), PanelSlot::Bottom);
}

#[test]
fn debug_scrolling_follows_the_tail() {
    let text = "1\n2\n3\n4\n5\n6\n7\n8\n9\n10\n";
    assert_eq!(text_scroll(PanelKind::Debug, text, 5), 7);
    assert_eq!(text_scroll(PanelKind::Debug, text, 12), 0);
    assert_eq!(text_scroll(PanelKind::Debug, text, 1), 10);
    assert_eq!(text_scroll(PanelKind::Status, text, 5), 0);
    assert_eq!(text_scroll(PanelKind::Status, text, 1), 0);
    assert_eq!(text_scroll(PanelKind::Game, text, 5), 0);
    assert_eq!(text_scroll(PanelKind::Debug, "", 0), 0);
}

#[test]
fn append_twice_is_one_append() {
    let mut a = Screen::new();
    let mut b = Screen::new();
    a.apply(text_msg(PanelKind::Debug, TextPanelOp::Append(String::from("ab"))));
    a.apply(text_msg(PanelKind::Debug, TextPanelOp::Append(String::from("cd"))));
    b.apply(text_msg(PanelKind::Debug, TextPanelOp::Append(String::from("abcd"))));
    assert_eq!(text_of(&a, 2), text_of(&b, 2));
}

#[test]
fn messages_keep_the_panels() {
    let mut s = Screen::new();
    s.apply(text_msg(PanelKind::Status, TextPanelOp::Replace(String::from("x"))));
    s.apply(RenderMessage::Panel(PanelUpdate { target: PanelKind::Debug, op: PanelOps::Game(GamePanelOp::Clear) }));
    s.apply(text_msg(PanelKind::Debug, TextPanelOp::Clear));
    let kinds: Vec<PanelKind> = s.panels.iter().map(|p| p.panel_kind).collect();
    assert_eq!(kinds, vec![PanelKind::Game, PanelKind::Status, PanelKind::Debug]);
    let titles: Vec<&str> = s.panels.iter().map(|p| p.title.as_str()).collect();
    assert_eq!(titles, vec!["Garden", "Journal", "Debug"]);
    assert_eq!(s.top_panel_percent + s.bottom_panel_percent, 100);
    assert_eq!(s.top_left_panel_percent + s.top_right_panel_percent, 100);
}
