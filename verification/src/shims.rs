//! Stand-ins for the parts of the script extender that this tool does not
//! provide: game states, the Lua runtime and the extender's configuration.
#![allow(non_snake_case)]
use vstd::prelude::*;
use crate::console::DebugMessageType;

pub mod ecl;
pub mod esv;
pub mod lua;

use lua::DoConsoleCommandEvent;

verus! {

/// A placeholder for a runtime object that the stand-ins do not model.
#[derive(Clone, Copy, Debug)]
pub struct Todo;

/// Access to the game's state machines.
#[derive(Debug)]
pub struct StaticSymbols {}

impl StaticSymbols {
    pub fn new() -> (res: StaticSymbols) {
        StaticSymbols {}
    }

    /// The client's game state; never initialized here.
    pub fn client_state(&self) -> (res: Option<ecl::GameState>)
        ensures
            res is None,
    {
        None
    }

    /// The server's game state; never initialized here.
    pub fn server_state(&self) -> (res: Option<esv::GameState>)
        ensures
            res is None,
    {
        None
    }
}

/// The game's state machines.
pub fn static_symbols() -> (res: StaticSymbols) {
    StaticSymbols::new()
}

/// Loads a Lua chunk; reports no error.
pub fn luaL_loadstring(state: Todo, string: &str) -> (res: bool)
    ensures
        !res,
{
    false
}

/// The text of a Lua stack slot; empty here.
pub fn lua_tostring(state: Todo, arg_1: isize) -> (res: String)
    ensures
        res@ == Seq::<char>::empty(),
{
    String::new()
}

/// Pops Lua stack slots.
pub fn lua_pop(state: Todo, arg_1: usize) {
}

/// A pinned Lua state.
#[derive(Debug)]
pub struct LuaVirtualPin {}

impl LuaVirtualPin {
    /// Pins the Lua state of an extension state; always succeeds here.
    pub fn new(state: &Todo) -> (res: Option<LuaVirtualPin>)
        ensures
            res is Some,
    {
        Some(LuaVirtualPin {})
    }

    pub fn stack(&self) -> (res: Todo) {
        Todo
    }

    pub fn state(&self) -> (res: Todo) {
        Todo
    }

    pub fn global_lifetime(&self) -> (res: Todo) {
        Todo
    }

    /// Raises a Lua event; does nothing here.
    pub fn throw_envent(&self, arg_1: &str, params: DoConsoleCommandEvent, arg_2: bool) {
    }
}

/// The names of an engine enumeration.
pub struct EnumInfo<T> {
    pub t: Ghost<T>,
}

impl<T> EnumInfo<T> {
    /// The information on the value `t`.
    pub fn Find(t: T) -> (res: EnumInfo<T>)
        ensures
            res.t@ == t,
    {
        EnumInfo { t: Ghost(t) }
    }

    /// The value's name; empty here.
    pub fn GetString(&self) -> (res: String)
        ensures
            res@ == Seq::<char>::empty(),
    {
        String::new()
    }
}

/// Platform switches of the extender's core library.
#[derive(Clone, Copy, Debug)]
pub struct CoreLibPlatformInterface {
    pub enable_debug_break: bool,
}

impl CoreLibPlatformInterface {
    /// Debug breaks start off.
    pub fn new() -> (res: CoreLibPlatformInterface)
        ensures
            !res.enable_debug_break,
    {
        CoreLibPlatformInterface { enable_debug_break: false }
    }
}

/// The script extender: its client and server sides, configuration and
/// debugger.
#[derive(Clone, Copy, Debug)]
pub struct Extender {
    pub client: Client,
    pub server: Server,
    pub config: Config,
    pub debugger: Option<Debugger>,
}

impl Extender {
    /// An extender with the default configuration and no debugger.
    pub fn new() -> (res: Extender)
        ensures
            res.config.clear_on_reset,
            !res.config.default_to_client_console,
            res.debugger is None,
    {
        Extender { client: Client::new(), server: Server::new(), config: Config::new(), debugger: None }
    }

    /// The extension state of the current context; always present here.
    pub fn current_extension_state(&self) -> (res: Option<Todo>)
        ensures
            res is Some,
    {
        Some(Todo)
    }
}

/// The client side of the extender.
#[derive(Clone, Copy, Debug)]
pub struct Client {}

impl Client {
    pub fn new() -> (res: Client) {
        Client {}
    }

    /// Resets the client's Lua state; does nothing here.
    pub fn reset_lua_state(&self) {
    }

    /// Runs a task on the client's thread; does nothing here.
    pub fn submit_task_and_wait<T, F: Fn() -> T>(&self, task: F) {
    }
}

/// The server side of the extender.
#[derive(Clone, Copy, Debug)]
pub struct Server {}

impl Server {
    pub fn new() -> (res: Server) {
        Server {}
    }

    /// Resets the server's Lua state; does nothing here.
    pub fn reset_lua_state(&self) {
    }

    /// Asks the server to reset the client's Lua state; declines here.
    pub fn request_reset_client_lua_state(&self) -> (res: bool)
        ensures
            !res,
    {
        false
    }

    /// Runs a task on the server's thread; does nothing here.
    pub fn submit_task_and_wait<T, F: Fn() -> T>(&self, task: F) {
    }
}

/// The extender's configuration.
#[derive(Clone, Copy, Debug)]
pub struct Config {
    pub clear_on_reset: bool,
    pub default_to_client_console: bool,
}

impl Config {
    /// The console is cleared on reset and starts in the server context.
    pub fn new() -> (res: Config)
        ensures
            res.clear_on_reset,
            !res.default_to_client_console,
    {
        Config { clear_on_reset: true, default_to_client_console: false }
    }
}

/// The Lua debugger.
#[derive(Clone, Copy, Debug)]
pub struct Debugger {}

impl Debugger {
    /// Whether a debugger is attached and ready; never here.
    pub open spec fn spec_is_ready(&self) -> bool {
        false
    }

    pub fn is_ready(&self) -> (res: bool)
        ensures
            res == self.spec_is_ready(),
    {
        false
    }

    /// Forwards a log message to the debugger; does nothing here.
    pub fn on_log_message(&self, ty: DebugMessageType, msg: &str) {
    }
}

} // verus!
