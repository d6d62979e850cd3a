use crate::message::{ClientMessage, ServerMessage, SpecServerMessage};
use vstd::prelude::*;

verus! {

/// The line the chat window shows for a message from the server.
pub open spec fn display_text(msg: SpecServerMessage) -> Seq<char> {
    match msg {
        SpecServerMessage::Message(from, text) => from + ": "@ + text,
        SpecServerMessage::UserConnected(name) => "* "@ + name + " connected"@,
        SpecServerMessage::UserDisconnected(name) => "* "@ + name + " disconnected"@,
    }
}

/// Renders a message from the server as a line of the chat window: `from: text`, or
/// `* name connected`, or `* name disconnected`.
pub fn display_line(msg: &ServerMessage) -> (line: String)
    ensures
        line@ == display_text(msg@),
{
    match msg {
        ServerMessage::Message(from, text) => {
            let mut line = from.clone();
            line.append(": ");
            line.append(text.as_str());
            line
        },
        ServerMessage::UserConnected(name) => {
            let mut line = String::new();
            line.append("* ");
            line.append(name.as_str());
            line.append(" connected");
            line
        },
        ServerMessage::UserDisconnected(name) => {
            let mut line = String::new();
            line.append("* ");
            line.append(name.as_str());
            line.append(" disconnected");
            line
        },
    }
}

/// What the client does with a line the user entered.
pub enum EntryAction {
    /// Leave the chat.
    Quit,
    /// Send the line to the server.
    Send(ClientMessage),
}

/// The command that ends the client.
pub open spec fn quit_command() -> Seq<char> {
    "/quit"@
}

/// The entry `/quit` ends the client; any other line is sent to the server as it is.
pub fn entry_action(input: &str) -> (action: EntryAction)
    ensures
        input@ == quit_command() ==> action is Quit,
        input@ != quit_command() ==> (action matches EntryAction::Send(m) && m.0@ == input@),
{
    let entered: String = input.to_owned();
    let quit: String = "/quit".to_owned();
    if entered == quit {
        EntryAction::Quit
    } else {
        EntryAction::Send(ClientMessage::new(input))
    }
}

/// A chat message is shown as the whole sender name, then a colon and a space, then the
/// whole text; nothing of either is dropped or changed.
pub proof fn lemma_message_line(from: Seq<char>, text: Seq<char>)
    ensures
        ({
            let line = display_text(SpecServerMessage::Message(from, text));
            &&& line.len() == from.len() + 2 + text.len()
            &&& line.subrange(0, from.len() as int) == from
            &&& line[from.len() as int] == ':'
            &&& line[(from.len() + 1) as int] == ' '
            &&& line.subrange((from.len() + 2) as int, line.len() as int) == text
        }),
{
    reveal_strlit(": ");
    let line = display_text(SpecServerMessage::Message(from, text));
    assert(line.subrange(0, from.len() as int) =~= from);
    assert(line.subrange((from.len() + 2) as int, line.len() as int) =~= text);
}

/// Arrivals and departures are shown as `* `, the whole name, then ` connected` or
/// ` disconnected`.
pub proof fn lemma_presence_lines(name: Seq<char>)
    ensures
        ({
            let joined = display_text(SpecServerMessage::UserConnected(name));
            &&& joined.len() == name.len() + 12
            &&& joined[0] == '*' && joined[1] == ' '
            &&& joined.subrange(2, (name.len() + 2) as int) == name
            &&& joined.subrange((name.len() + 2) as int, joined.len() as int) == " connected"@
        }),
        ({
            let left = display_text(SpecServerMessage::UserDisconnected(name));
            &&& left.len() == name.len() + 15
            &&& left[0] == '*' && left[1] == ' '
            &&& left.subrange(2, (name.len() + 2) as int) == name
            &&& left.subrange((name.len() + 2) as int, left.len() as int) == " disconnected"@
        }),
{
    reveal_strlit("* ");
    reveal_strlit(" connected");
    reveal_strlit(" disconnected");
    let joined = display_text(SpecServerMessage::UserConnected(name));
    let left = display_text(SpecServerMessage::UserDisconnected(name));
    assert(joined.subrange(2, (name.len() + 2) as int) =~= name);
    assert(joined.subrange((name.len() + 2) as int, joined.len() as int) =~= " connected"@);
    assert(left.subrange(2, (name.len() + 2) as int) =~= name);
    assert(left.subrange((name.len() + 2) as int, left.len() as int) =~= " disconnected"@);
}

} // verus!
