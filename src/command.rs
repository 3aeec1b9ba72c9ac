//! Commands from the console collaborator.

use vstd::prelude::*;

verus! {

/// A console command. The collaborator sends its tokens; an empty token list ends the
/// session.
pub enum Command {
    Quit,
    Reconnect,
    Respawn,
    Position,
    Server,
    Chat(String),
    ChatCommand(String),
    Time,
    Tps,
    Exp,
    Health,
    Unknown,
}

/// View of a command: the text of `Chat` and `ChatCommand` as chars.
pub enum CommandView {
    Quit,
    Reconnect,
    Respawn,
    Position,
    Server,
    Chat(Seq<char>),
    ChatCommand(Seq<char>),
    Time,
    Tps,
    Exp,
    Health,
    Unknown,
}

impl View for Command {
    type V = CommandView;

    open spec fn view(&self) -> CommandView {
        match self {
            Command::Quit => CommandView::Quit,
            Command::Reconnect => CommandView::Reconnect,
            Command::Respawn => CommandView::Respawn,
            Command::Position => CommandView::Position,
            Command::Server => CommandView::Server,
            Command::Chat(s) => CommandView::Chat(s@),
            Command::ChatCommand(s) => CommandView::ChatCommand(s@),
            Command::Time => CommandView::Time,
            Command::Tps => CommandView::Tps,
            Command::Exp => CommandView::Exp,
            Command::Health => CommandView::Health,
            Command::Unknown => CommandView::Unknown,
        }
    }
}

/// The command that `tokens` names. `chat` and `command` take their text from the second
/// token; without one they are unknown, as is any other name.
pub open spec fn command_spec(tokens: Seq<Seq<char>>) -> CommandView {
    if tokens.len() == 0 {
        CommandView::Quit
    } else {
        let name = tokens[0];
        if name == "reconnect"@ {
            CommandView::Reconnect
        } else if name == "respawn"@ {
            CommandView::Respawn
        } else if name == "position"@ {
            CommandView::Position
        } else if name == "server"@ {
            CommandView::Server
        } else if name == "time"@ {
            CommandView::Time
        } else if name == "tps"@ {
            CommandView::Tps
        } else if name == "exp"@ {
            CommandView::Exp
        } else if name == "health"@ {
            CommandView::Health
        } else if name == "chat"@ && tokens.len() >= 2 {
            CommandView::Chat(tokens[1])
        } else if name == "command"@ && tokens.len() >= 2 {
            CommandView::ChatCommand(tokens[1])
        } else {
            CommandView::Unknown
        }
    }
}

/// The tokens' text as chars.
pub open spec fn token_views(tokens: Seq<String>) -> Seq<Seq<char>> {
    tokens.map_values(|t: String| t@)
}

fn is_named(token: &String, name: &str) -> (r: bool)
    ensures
        r == (token@ == name@),
{
    let n = String::from_str(name);
    token.eq(&n)
}

/// Reads a console command from its tokens; see [`command_spec`].
pub fn parse_command(tokens: &Vec<String>) -> (r: Command)
    ensures
        r@ == command_spec(token_views(tokens@)),
{
    let ghost tv = token_views(tokens@);
    if tokens.len() == 0 {
        return Command::Quit;
    }
    let name = &tokens[0];
    proof {
        assert(tv[0] == name@);
        if tokens.len() >= 2 {
            assert(tv[1] == tokens@[1]@);
        }
    }
    if is_named(name, "reconnect") {
        Command::Reconnect
    } else if is_named(name, "respawn") {
        Command::Respawn
    } else if is_named(name, "position") {
        Command::Position
    } else if is_named(name, "server") {
        Command::Server
    } else if is_named(name, "time") {
        Command::Time
    } else if is_named(name, "tps") {
        Command::Tps
    } else if is_named(name, "exp") {
        Command::Exp
    } else if is_named(name, "health") {
        Command::Health
    } else if is_named(name, "chat") && tokens.len() >= 2 {
        Command::Chat(tokens[1].clone())
    } else if is_named(name, "command") && tokens.len() >= 2 {
        Command::ChatCommand(tokens[1].clone())
    } else {
        Command::Unknown
    }
}

} // verus!
