//! Messages from the game to the renderer.

use vstd::prelude::*;
use vstd::string::*;
use crate::mole::Mole;

verus! {

/// Message to be passed between the game and the renderer.
#[derive(Debug)]
pub enum RenderMessage {
    Panel(PanelUpdate),
}

/// Which panel to update, and with what.
#[derive(Debug)]
pub struct PanelUpdate {
    pub target: PanelKind,
    pub op: PanelOps,
}

/// What a panel shows: text (the Debug and Status panels) or the game board.
#[derive(Debug)]
pub enum PanelContent {
    Text(String),
    Board(BoardSnapshot),
}

/// The state of the game board, as the game hands it to the renderer.
#[derive(Debug, Clone)]
pub struct BoardSnapshot {
    pub moles: Vec<Mole>,
    pub num_moles: u32,
}

#[derive(Debug)]
pub enum PanelOps {
    Game(GamePanelOp),
    Text(TextPanelOp),
}

/// Operations on the contents of the Status or Debug panel.
#[derive(Debug)]
pub enum TextPanelOp {
    Append(String),
    Replace(String),
    Clear,
}

/// Operations on the game board.
#[derive(Debug)]
pub enum GamePanelOp {
    Replace(BoardSnapshot),
    Clear,
}

/// The panels of the screen, by which messages are routed.
#[derive(Debug, Clone, Copy, PartialEq, Eq, Structural)]
pub enum PanelKind {
    Game,
    Status,
    Debug,
}

/// The text of a trace line: its time, `": "`, the message, and a line end.
pub open spec fn trace_line(time: Seq<char>, message: Seq<char>) -> Seq<char> {
    time + seq![':', ' '] + message + seq!['\n']
}

/// The message that appends one trace line to the Debug panel.
pub fn trace_message(time: &str, message: &str) -> (msg: RenderMessage)
    ensures
        msg matches RenderMessage::Panel(PanelUpdate {
            target: PanelKind::Debug,
            op: PanelOps::Text(TextPanelOp::Append(line)),
        }) && line@ == trace_line(time@, message@),
        // the line is the time, ": ", the whole message and a line end
        msg matches RenderMessage::Panel(PanelUpdate { op: PanelOps::Text(TextPanelOp::Append(line)), .. }) && {
            &&& line@.len() == time@.len() + message@.len() + 3
            &&& line@.subrange(0, time@.len() as int) == time@
            &&& line@[time@.len() as int] == ':'
            &&& line@[time@.len() as int + 1] == ' '
            &&& line@.subrange(time@.len() as int + 2, time@.len() as int + 2 + message@.len()) == message@
            &&& line@.last() == '\n'
        },
{
    proof {
        lemma_trace_line_parts(time@, message@);
    }
    let mut line = String::from_str(time);
    line.append(": ");
    line.append(message);
    line.append("\n");
    proof {
        reveal_strlit(": ");
        reveal_strlit("\n");
        assert(line@ =~= trace_line(time@, message@));
    }
    RenderMessage::Panel(PanelUpdate { target: PanelKind::Debug, op: PanelOps::Text(TextPanelOp::Append(line)) })
}

/// A trace line holds the time, then `": "`, then every character of the
/// message in order, then one line end, and nothing else.
pub proof fn lemma_trace_line_parts(time: Seq<char>, message: Seq<char>)
    ensures
        ({
            let line = trace_line(time, message);
            let t = time.len() as int;
            &&& line.len() == t + message.len() + 3
            &&& line.subrange(0, t) == time
            &&& line[t] == ':'
            &&& line[t + 1] == ' '
            &&& line.subrange(t + 2, t + 2 + message.len()) == message
            &&& line.last() == '\n'
        }),
{
    let line = trace_line(time, message);
    let t = time.len() as int;
    assert(line.subrange(0, t) =~= time);
    assert(line.subrange(t + 2, t + 2 + message.len()) =~= message);
}

} // verus!
