//! Stand-ins for the extender's Lua runtime.
#![allow(non_snake_case)]
use vstd::prelude::*;
use super::Todo;

verus! {

/// Calls the function on the Lua stack with a traceback handler; reports no
/// error here.
pub fn CallWithTraceback(state: Todo, arg_1: usize, arg_2: usize) -> (res: bool)
    ensures
        !res,
{
    false
}

/// The parameters of the Lua `DoConsoleCommand` event.
#[derive(Debug)]
pub struct DoConsoleCommandEvent {
    pub command: String,
}

impl DoConsoleCommandEvent {
    /// An event with an empty command.
    pub fn new() -> (res: DoConsoleCommandEvent)
        ensures
            res.command@ == Seq::<char>::empty(),
    {
        DoConsoleCommandEvent { command: String::new() }
    }
}

/// Keeps a Lua stack alive for the global lifetime.
#[derive(Debug)]
pub struct StaticLifetimeStackPin {}

impl StaticLifetimeStackPin {
    pub fn new(stack: Todo, lifetime: Todo) -> (res: StaticLifetimeStackPin) {
        StaticLifetimeStackPin {}
    }
}

} // verus!
