//! The extender's debug console: message kinds and colours, the special
//! commands, multi-line input, and where Lua commands are sent.
use vstd::prelude::*;
use crate::shims::{ecl, esv, lua_pop, lua_tostring, luaL_loadstring, Config, Debugger, EnumInfo, Extender, LuaVirtualPin};
use crate::shims::lua::{CallWithTraceback, DoConsoleCommandEvent, StaticLifetimeStackPin};
use crate::text::{
    push_char, push_decimal, push_text, decimal_chars, str_eq, trim_end, trim_end_chars, chars_of, string_from_chars,
};
use vstd::string::StringExecFns;

verus! {

broadcast use vstd::string::group_string_axioms;

/// The kind of a console message.
#[derive(Clone, Copy, Debug, PartialEq, Eq)]
pub enum DebugMessageType {
    Debug,
    Info,
    Osiris,
    Warning,
    Error,
}

/// Console text attribute: blue foreground.
pub const FOREGROUND_BLUE: u16 = 1;

/// Console text attribute: green foreground.
pub const FOREGROUND_GREEN: u16 = 2;

/// Console text attribute: red foreground.
pub const FOREGROUND_RED: u16 = 4;

/// Console text attribute: bright foreground.
pub const FOREGROUND_INTENSITY: u16 = 8;

impl DebugMessageType {
    /// The kind with the number `value`, in the order Debug, Info, Osiris,
    /// Warning, Err.
    pub open spec fn spec_from_code(value: u32) -> Option<DebugMessageType> {
        if value == 0 {
            Some(DebugMessageType::Debug)
        } else if value == 1 {
            Some(DebugMessageType::Info)
        } else if value == 2 {
            Some(DebugMessageType::Osiris)
        } else if value == 3 {
            Some(DebugMessageType::Warning)
        } else if value == 4 {
            Some(DebugMessageType::Error)
        } else {
            None
        }
    }

    /// The kind with the number `value`, or the error text naming it.
    pub fn try_from(value: u32) -> (res: Result<DebugMessageType, String>)
        ensures
            match DebugMessageType::spec_from_code(value) {
                Some(t) => res == Ok::<DebugMessageType, String>(t),
                None => res matches Err(e) && e@ == "Unknown DebugMessageType("@ + decimal_chars(value as nat)
                    + ")"@,
            },
    {
        match value {
            0 => Ok(DebugMessageType::Debug),
            1 => Ok(DebugMessageType::Info),
            2 => Ok(DebugMessageType::Osiris),
            3 => Ok(DebugMessageType::Warning),
            4 => Ok(DebugMessageType::Error),
            _ => {
                let mut e = String::from_str("Unknown DebugMessageType(");
                push_decimal(&mut e, value as u64);
                e.append(")");
                Err(e)
            },
        }
    }

    /// The console colour of messages of this kind: grey for debug, white for
    /// info, bright cyan for Osiris, yellow for warnings, bright red for errors.
    pub open spec fn spec_text_attributes(self) -> u16 {
        match self {
            DebugMessageType::Debug => FOREGROUND_RED | FOREGROUND_GREEN | FOREGROUND_BLUE,
            DebugMessageType::Info => FOREGROUND_RED | FOREGROUND_GREEN | FOREGROUND_BLUE | FOREGROUND_INTENSITY,
            DebugMessageType::Osiris => FOREGROUND_INTENSITY | FOREGROUND_GREEN | FOREGROUND_BLUE,
            DebugMessageType::Warning => FOREGROUND_RED | FOREGROUND_GREEN,
            DebugMessageType::Error => FOREGROUND_RED | FOREGROUND_INTENSITY,
        }
    }

    pub fn text_attributes(self) -> (res: u16)
        ensures
            res == self.spec_text_attributes(),
    {
        match self {
            DebugMessageType::Debug => FOREGROUND_RED | FOREGROUND_GREEN | FOREGROUND_BLUE,
            DebugMessageType::Info => FOREGROUND_RED | FOREGROUND_GREEN | FOREGROUND_BLUE | FOREGROUND_INTENSITY,
            DebugMessageType::Osiris => FOREGROUND_INTENSITY | FOREGROUND_GREEN | FOREGROUND_BLUE,
            DebugMessageType::Warning => FOREGROUND_RED | FOREGROUND_GREEN,
            DebugMessageType::Error => FOREGROUND_RED | FOREGROUND_INTENSITY,
        }
    }
}

/// The output side of the console: whether it shows messages, whether a line
/// is being typed, and whether messages are held back while one is.
#[derive(Clone, Copy, Debug, PartialEq, Eq)]
pub struct Console {
    pub enabled: bool,
    pub input_enabled: bool,
    pub silence: bool,
}

impl Console {
    /// A console that is not yet enabled.
    pub fn new() -> (res: Console)
        ensures
            res == (Console { enabled: false, input_enabled: false, silence: false }),
    {
        Console { enabled: false, input_enabled: false, silence: false }
    }

    /// Whether a message is shown on the screen: the console is enabled, and
    /// no line is being typed or silent mode is off. Log callbacks and log
    /// files receive every message.
    pub fn echoes(&self) -> (res: bool)
        ensures
            res == (self.enabled && (!self.input_enabled || !self.silence)),
    {
        self.enabled && (!self.input_enabled || !self.silence)
    }
}

/// The special console commands.
#[derive(Clone, Copy, Debug, PartialEq, Eq)]
pub enum CommandKind {
    Empty,
    Server,
    Client,
    Reset,
    ResetServer,
    ResetClient,
    SilenceOn,
    SilenceOff,
    Clear,
    Help,
    Lua,
}

/// Which command a line is: the special words, anything else Lua. The word
/// `client` switches to the client context, as the help text says.
pub open spec fn command_kind(cmd: Seq<char>) -> CommandKind {
    if cmd == ""@ {
        CommandKind::Empty
    } else if cmd == "server"@ {
        CommandKind::Server
    } else if cmd == "client"@ {
        CommandKind::Client
    } else if cmd == "reset"@ {
        CommandKind::Reset
    } else if cmd == "reset server"@ {
        CommandKind::ResetServer
    } else if cmd == "reset client"@ {
        CommandKind::ResetClient
    } else if cmd == "silence on"@ {
        CommandKind::SilenceOn
    } else if cmd == "silence off"@ {
        CommandKind::SilenceOff
    } else if cmd == "clear"@ {
        CommandKind::Clear
    } else if cmd == "help"@ {
        CommandKind::Help
    } else {
        CommandKind::Lua
    }
}

fn kind_of(cmd: &str) -> (res: CommandKind)
    ensures
        res == command_kind(cmd@),
{
    if str_eq(cmd, "") {
        CommandKind::Empty
    } else if str_eq(cmd, "server") {
        CommandKind::Server
    } else if str_eq(cmd, "client") {
        CommandKind::Client
    } else if str_eq(cmd, "reset") {
        CommandKind::Reset
    } else if str_eq(cmd, "reset server") {
        CommandKind::ResetServer
    } else if str_eq(cmd, "reset client") {
        CommandKind::ResetClient
    } else if str_eq(cmd, "silence on") {
        CommandKind::SilenceOn
    } else if str_eq(cmd, "silence off") {
        CommandKind::SilenceOff
    } else if str_eq(cmd, "clear") {
        CommandKind::Clear
    } else if str_eq(cmd, "help") {
        CommandKind::Help
    } else {
        CommandKind::Lua
    }
}

/// Which Lua states a reset concerns.
#[derive(Clone, Copy, Debug, PartialEq, Eq)]
pub enum ResetTarget {
    Both,
    Server,
    Client,
}

/// What the console does for a command, besides changing its own state.
#[derive(Debug)]
pub enum CommandAction {
    Nothing,
    /// Print this debug message.
    Notice(&'static str),
    Reset(ResetTarget),
    Clear,
    Help,
    /// Run this Lua command in the current context.
    Lua(String),
}

/// What a line typed at the prompt leads to.
#[derive(Debug)]
pub enum LineOutcome {
    /// Leave console mode.
    Exit,
    /// Read the next line.
    Continue,
    /// A command was entered.
    Command(CommandAction),
}

/// The debug console's state.
#[derive(Debug)]
pub struct DebugConsole {
    pub console: Console,
    pub console_running: bool,
    pub server_context: bool,
    pub multi_line_mode: bool,
    pub multi_line_command: String,
}

/// `action` is what the command `cmd` leads to.
pub open spec fn action_for(cmd: Seq<char>, action: CommandAction) -> bool {
    match command_kind(cmd) {
        CommandKind::Empty => action is Nothing,
        CommandKind::Server => action matches CommandAction::Notice(m) && m@ == "Switching to server context."@,
        CommandKind::Client => action matches CommandAction::Notice(m) && m@ == "Switching to client context."@,
        CommandKind::Reset => action matches CommandAction::Reset(t) && t is Both,
        CommandKind::ResetServer => action matches CommandAction::Reset(t) && t is Server,
        CommandKind::ResetClient => action matches CommandAction::Reset(t) && t is Client,
        CommandKind::SilenceOn => action matches CommandAction::Notice(m) && m@ == "Silent mode ON"@,
        CommandKind::SilenceOff => action matches CommandAction::Notice(m) && m@ == "Silent mode OFF"@,
        CommandKind::Clear => action is Clear,
        CommandKind::Help => action is Help,
        CommandKind::Lua => action matches CommandAction::Lua(s) && s@ == cmd,
    }
}

/// The server context after the command `cmd`.
pub open spec fn context_after(server_context: bool, cmd: Seq<char>) -> bool {
    match command_kind(cmd) {
        CommandKind::Server => true,
        CommandKind::Client => false,
        _ => server_context,
    }
}

/// Silent mode after the command `cmd`.
pub open spec fn silence_after(silence: bool, cmd: Seq<char>) -> bool {
    match command_kind(cmd) {
        CommandKind::SilenceOn => true,
        CommandKind::SilenceOff => false,
        _ => silence,
    }
}

impl DebugConsole {
    /// A running console in the context the configuration chooses, with its
    /// output enabled.
    pub fn new(config: Config) -> (res: DebugConsole)
        ensures
            res.console == (Console { enabled: true, input_enabled: false, silence: false }),
            res.console_running,
            res.server_context == !config.default_to_client_console,
            !res.multi_line_mode,
            res.multi_line_command@ == Seq::<char>::empty(),
    {
        let mut console = Console::new();
        console.enabled = true;
        DebugConsole {
            console,
            console_running: true,
            server_context: !config.default_to_client_console,
            multi_line_mode: false,
            multi_line_command: String::new(),
        }
    }

    /// Carries out a command: switches context or silent mode for the special
    /// words, and says what else to do.
    pub fn handle_command(&mut self, cmd: &str) -> (res: CommandAction)
        ensures
            action_for(cmd@, res),
            final(self).server_context == context_after(old(self).server_context, cmd@),
            final(self).console.silence == silence_after(old(self).console.silence, cmd@),
            final(self).console.enabled == old(self).console.enabled,
            final(self).console.input_enabled == old(self).console.input_enabled,
            final(self).console_running == old(self).console_running,
            final(self).multi_line_mode == old(self).multi_line_mode,
            final(self).multi_line_command@ == old(self).multi_line_command@,
    {
        match kind_of(cmd) {
            CommandKind::Empty => CommandAction::Nothing,
            CommandKind::Server => {
                self.server_context = true;
                CommandAction::Notice("Switching to server context.")
            },
            CommandKind::Client => {
                self.server_context = false;
                CommandAction::Notice("Switching to client context.")
            },
            CommandKind::Reset => CommandAction::Reset(ResetTarget::Both),
            CommandKind::ResetServer => CommandAction::Reset(ResetTarget::Server),
            CommandKind::ResetClient => CommandAction::Reset(ResetTarget::Client),
            CommandKind::SilenceOn => {
                self.console.silence = true;
                CommandAction::Notice("Silent mode ON")
            },
            CommandKind::SilenceOff => {
                self.console.silence = false;
                CommandAction::Notice("Silent mode OFF")
            },
            CommandKind::Clear => CommandAction::Clear,
            CommandKind::Help => CommandAction::Help,
            CommandKind::Lua => CommandAction::Lua(String::from_str(cmd)),
        }
    }

    /// The prompt: the context's letter, then `-->>` while a multi-line
    /// command is being entered and `>>` otherwise.
    pub open spec fn spec_prompt(&self) -> &'static str {
        if self.server_context {
            if self.multi_line_mode {
                "S -->> "
            } else {
                "S >> "
            }
        } else {
            if self.multi_line_mode {
                "C -->> "
            } else {
                "C >> "
            }
        }
    }

    pub fn prompt(&self) -> (res: &'static str)
        ensures
            res == self.spec_prompt(),
    {
        if self.server_context {
            if self.multi_line_mode {
                "S -->> "
            } else {
                "S >> "
            }
        } else {
            if self.multi_line_mode {
                "C -->> "
            } else {
                "C >> "
            }
        }
    }

    /// Takes a line read at the prompt (trailing white space is dropped):
    /// `exit` leaves console mode, `--[[` starts a multi-line command and `]]--`
    /// runs it; inside one, lines are collected; otherwise the line is a
    /// command.
    pub fn on_line(&mut self, raw: &str) -> (res: LineOutcome)
        ensures
            ({
                let line = trim_end_chars(raw@);
                if !old(self).multi_line_mode {
                    if line == "exit"@ {
                        res is Exit && final(self).multi_line_command@ == old(self).multi_line_command@
                            && !final(self).multi_line_mode && final(self).server_context == old(self).server_context
                            && final(self).console == old(self).console
                    } else if line == "--[["@ {
                        res is Continue && final(self).multi_line_mode && final(self).multi_line_command@
                            == Seq::<char>::empty() && final(self).server_context == old(self).server_context
                            && final(self).console == old(self).console
                    } else {
                        res matches LineOutcome::Command(a) && action_for(line, a) && !final(self).multi_line_mode
                            && final(self).multi_line_command@ == old(self).multi_line_command@
                            && final(self).server_context == context_after(old(self).server_context, line)
                            && final(self).console.silence == silence_after(old(self).console.silence, line)
                    }
                } else if line == "]]--"@ {
                    let cmd = old(self).multi_line_command@;
                    res matches LineOutcome::Command(a) && action_for(cmd, a) && !final(self).multi_line_mode
                        && final(self).multi_line_command@ == cmd && final(self).server_context == context_after(
                        old(self).server_context,
                        cmd,
                    ) && final(self).console.silence == silence_after(old(self).console.silence, cmd)
                } else {
                    res is Continue && final(self).multi_line_mode && final(self).multi_line_command@ == old(
                        self,
                    ).multi_line_command@ + line + "\n"@ && final(self).server_context == old(self).server_context
                        && final(self).console == old(self).console
                }
            }),
            final(self).console_running == old(self).console_running,
    {
        let line = trim_end(raw);
        if !self.multi_line_mode {
            if str_eq(line.as_str(), "exit") {
                LineOutcome::Exit
            } else if str_eq(line.as_str(), "--[[") {
                self.multi_line_mode = true;
                self.multi_line_command = String::new();
                LineOutcome::Continue
            } else {
                LineOutcome::Command(self.handle_command(line.as_str()))
            }
        } else if str_eq(line.as_str(), "]]--") {
            self.multi_line_mode = false;
            let cmd = String::from_str(self.multi_line_command.as_str());
            LineOutcome::Command(self.handle_command(cmd.as_str()))
        } else {
            self.multi_line_command.append(line.as_str());
            self.multi_line_command.append("\n");
            LineOutcome::Continue
        }
    }

    /// Whether a message also goes to the Lua debugger: in silent mode, when a
    /// debugger is attached and ready.
    pub fn forwards_to_debugger(&self, debugger: Option<Debugger>) -> (res: bool)
        ensures
            res == (self.console.silence && (debugger matches Some(d) && d.spec_is_ready())),
    {
        if self.console.silence {
            match debugger {
                Some(d) => d.is_ready(),
                None => false,
            }
        } else {
            false
        }
    }
}

/// Where a console task goes.
#[derive(Debug)]
pub enum TaskRoute {
    Server,
    Client,
    /// The task is refused with this error message.
    Refused(String),
}

/// The message for a task refused because the state machine of the side is
/// not initialized.
pub open spec fn not_initialized_message(server: bool) -> Seq<char> {
    if server {
        "Cannot queue server commands when the server state machine is not initialized"@
    } else {
        "Cannot queue client commands when the client state machine is not initialized"@
    }
}

/// Where a task for the server (or the client) goes, given the game states: a
/// server task needs the server paused or running; a client task needs any
/// client state.
pub fn route_task(
    server: bool,
    server_state: Option<esv::GameState>,
    client_state: Option<ecl::GameState>,
) -> (res: TaskRoute)
    ensures
        server ==> match server_state {
            None => res matches TaskRoute::Refused(m) && m@ == not_initialized_message(true),
            Some(s) => if s is Paused || s is Running {
                res is Server
            } else {
                res matches TaskRoute::Refused(m) && m@ == "Cannot queue server commands in game state "@
            },
        },
        !server ==> match client_state {
            None => res matches TaskRoute::Refused(m) && m@ == not_initialized_message(false),
            Some(_) => res is Client,
        },
{
    if server {
        match server_state {
            None => TaskRoute::Refused(
                String::from_str("Cannot queue server commands when the server state machine is not initialized"),
            ),
            Some(esv::GameState::Paused) | Some(esv::GameState::Running) => TaskRoute::Server,
            Some(state) => {
                let mut m = String::from_str("Cannot queue server commands in game state ");
                let name = EnumInfo::Find(state).GetString();
                m.append(name.as_str());
                TaskRoute::Refused(m)
            },
        }
    } else {
        match client_state {
            None => TaskRoute::Refused(
                String::from_str("Cannot queue client commands when the client state machine is not initialized"),
            ),
            Some(_) => TaskRoute::Client,
        }
    }
}

/// A Lua command: `!cmd args` raises the `DoConsoleCommand` event with the
/// text after the `!`; anything else is a chunk of Lua code.
#[derive(Debug)]
pub enum LuaCommand {
    Event(String),
    Chunk(String),
}

/// Which kind of Lua command `cmd` is.
pub fn lua_command(cmd: &str) -> (res: LuaCommand)
    ensures
        cmd@.len() > 0 && cmd@[0] == '!' ==> (res matches LuaCommand::Event(s) && s@ == cmd@.drop_first()),
        !(cmd@.len() > 0 && cmd@[0] == '!') ==> (res matches LuaCommand::Chunk(s) && s@ == cmd@),
{
    let chars = chars_of(cmd);
    if chars.len() > 0 && chars[0] == '!' {
        let rest = chars.as_slice().split_at(1).1;
        assert(rest@ =~= cmd@.drop_first());
        LuaCommand::Event(string_from_chars(rest))
    } else {
        LuaCommand::Chunk(String::from_str(cmd))
    }
}

impl ResetTarget {
    /// The message printed when the reset starts.
    pub fn notice(&self) -> (res: &'static str)
        ensures
            *self == ResetTarget::Both ==> res@ == "Resetting Lua states."@,
            *self == ResetTarget::Server ==> res@ == "Resetting server Lua state."@,
            *self == ResetTarget::Client ==> res@ == "Resetting client Lua state,"@,
    {
        match self {
            ResetTarget::Both => "Resetting Lua states.",
            ResetTarget::Server => "Resetting server Lua state.",
            ResetTarget::Client => "Resetting client Lua state,",
        }
    }
}

/// The client's part of a reset: the server is asked to reset the client's
/// Lua state, and the client resets it itself where the server declines.
/// Returns whether the client reset it itself.
pub fn reset_client_lua(extender: &Extender) -> (res: bool)
    ensures
        res,
{
    if !extender.server.request_reset_client_lua_state() {
        extender.client.reset_lua_state();
        true
    } else {
        false
    }
}

/// Runs a console command as Lua in the current extension state: `!cmd args`
/// raises the `DoConsoleCommand` event, anything else is loaded and called as a
/// chunk. Returns the error to report, if any: a missing extension or Lua
/// state, or the error text that a failed chunk leaves on the Lua stack. The
/// stand-in runtime never fails.
pub fn run_lua_command(extender: &Extender, cmd: &str) -> (res: Option<String>)
    ensures
        res is None,
{
    let state = match extender.current_extension_state() {
        Some(s) => s,
        None => {
            return Some(String::from_str("Extension not initialized!"));
        },
    };
    let pin = match LuaVirtualPin::new(&state) {
        Some(p) => p,
        None => {
            return Some(String::from_str("Lua state not initialized!"));
        },
    };
    match lua_command(cmd) {
        LuaCommand::Event(text) => {
            let mut params = DoConsoleCommandEvent::new();
            params.command = text;
            pin.throw_envent("DoConsoleCommand", params, false);
            None
        },
        LuaCommand::Chunk(code) => {
            let _lifetime = StaticLifetimeStackPin::new(pin.stack(), pin.global_lifetime());
            let l = pin.state();
            if luaL_loadstring(l, code.as_str()) || CallWithTraceback(l, 0, 0) {
                let e = lua_tostring(l, -1);
                lua_pop(l, 1);
                Some(e)
            } else {
                None
            }
        },
    }
}

/// The version number that the console's banner shows.
pub const CURRENT_VERSION: u32 = 12;

/// The console's help text, line by line.
pub fn help_lines() -> (res: Vec<&'static str>)
    ensures
        res@.len() == 10,
        res@[0]@ == "Anything typed in will be executed as Lua code except the following special commands:"@,
        res@[1]@ == "  server - Switch to server context"@,
        res@[2]@ == "  client - Switch to client context"@,
        res@[3]@ == "  reset client - Reset client Lua state"@,
        res@[4]@ == "  reset server - Reset server Lua state"@,
        res@[5]@ == "  reset - Reset client and server Lua states"@,
        res@[6]@ == "  silence <on|off> - Enable/disable silent mode (log output when in input mode)"@,
        res@[7]@ == "  clear - Clear the console"@,
        res@[8]@ == "  exit - Leave console mode"@,
        res@[9]@
            == "  !<cmd> <arg1> ... <argN> - Trigger Lua \"ConsoleCommand\" event with arguments cmd, arg1, ..., argN"@,
{
    let mut res: Vec<&'static str> = Vec::new();
    res.push("Anything typed in will be executed as Lua code except the following special commands:");
    res.push("  server - Switch to server context");
    res.push("  client - Switch to client context");
    res.push("  reset client - Reset client Lua state");
    res.push("  reset server - Reset server Lua state");
    res.push("  reset - Reset client and server Lua states");
    res.push("  silence <on|off> - Enable/disable silent mode (log output when in input mode)");
    res.push("  clear - Clear the console");
    res.push("  exit - Leave console mode");
    res.push(
        "  !<cmd> <arg1> ... <argN> - Trigger Lua \"ConsoleCommand\" event with arguments cmd, arg1, ..., argN",
    );
    res
}

/// `n` copies of `c`.
pub open spec fn repeated(c: char, n: nat) -> Seq<char> {
    Seq::new(n, |i: int| c)
}

/// The title that the banner frames.
pub open spec fn banner_title() -> Seq<char> {
    "BG3 Script Extender Debug Console"@
}

fn push_repeated(s: &mut String, c: char, n: usize)
    ensures
        final(s)@ == old(s)@ + repeated(c, n as nat),
{
    let ghost start = s@;
    let mut i: usize = 0;
    while i < n
        invariant
            i <= n,
            s@ == start + repeated(c, i as nat),
        decreases n - i,
    {
        push_char(s, c);
        i = i + 1;
        assert(s@ =~= start + repeated(c, i as nat));
    }
}

/// The banner that the console prints when it opens: a frame of `*` 78 wide
/// around the title (centred, the odd space on the right), an empty line, and
/// the version with the time the tool was built.
pub fn banner_lines(build_time: &str) -> (res: Vec<String>)
    ensures
        res@.len() == 7,
        res@[0]@ == repeated('*', 78),
        res@[1]@ == seq!['*'] + repeated(' ', 76) + seq!['*'],
        res@[2]@ == seq!['*'] + repeated(' ', 21) + banner_title() + repeated(' ', 22) + seq!['*'],
        res@[3]@ == res@[1]@,
        res@[4]@ == res@[0]@,
        res@[5]@ == Seq::<char>::empty(),
        res@[6]@ == "BG3Ext v"@ + decimal_chars(CURRENT_VERSION as nat) + " built on "@ + build_time@,
{
    let mut rule = String::new();
    push_repeated(&mut rule, '*', 78);
    let mut blank = String::new();
    push_char(&mut blank, '*');
    push_repeated(&mut blank, ' ', 76);
    push_char(&mut blank, '*');
    let mut title = String::new();
    push_char(&mut title, '*');
    push_repeated(&mut title, ' ', 21);
    push_text(&mut title, "BG3 Script Extender Debug Console");
    push_repeated(&mut title, ' ', 22);
    push_char(&mut title, '*');
    let mut version = String::new();
    push_text(&mut version, "BG3Ext v");
    push_decimal(&mut version, CURRENT_VERSION as u64);
    push_text(&mut version, " built on ");
    push_text(&mut version, build_time);
    let mut res: Vec<String> = Vec::new();
    res.push(rule.clone());
    res.push(blank.clone());
    res.push(title);
    res.push(blank);
    res.push(rule);
    res.push(String::new());
    res.push(version);
    res
}

} // verus!
