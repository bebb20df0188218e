//! The menu's console: a line of input run as an engine function call, with a
//! transcript of what ran and a history of the lines entered.
use vstd::prelude::*;
use crate::call_parser::{call_refusal, call_spec, parse_call, reason_text, values_are, ParsedCall};
use crate::history::{model_insert, model_next, model_prev, History, HistoryModel};
use crate::text::{push_char, push_text};

verus! {

/// How many lines the console's history keeps.
pub const HISTORY_SIZE: usize = 100;

/// What the transcript shows for a line entered: the line after `>> `, then a
/// line break.
pub open spec fn echo(line: Seq<char>) -> Seq<char> {
    seq!['>', '>', ' '] + line + seq!['\n']
}

/// The console: the line being typed, the transcript, and the history.
#[derive(Debug)]
pub struct Console {
    pub text: String,
    pub output: String,
    pub history: History,
    /// Whether the input should take the keyboard focus again.
    pub reclaim_focus: bool,
}

impl Console {
    pub open spec fn wf(&self) -> bool {
        self.history.wf()
    }

    /// An empty console whose history keeps a hundred lines; the input takes
    /// the focus.
    pub fn new() -> (res: Console)
        ensures
            res.wf(),
            res.text@ == Seq::<char>::empty(),
            res.output@ == Seq::<char>::empty(),
            res.history@ == (HistoryModel {
                items: Seq::empty(),
                pos: 0,
                size: HISTORY_SIZE as nat,
                last_item: None,
            }),
            res.reclaim_focus,
    {
        Console { text: String::new(), output: String::new(), history: History::new(HISTORY_SIZE), reclaim_focus: true }
    }

    /// Runs the line being typed: writes it to the transcript, keeps it in the
    /// history and empties the input. Returns the call that the line writes,
    /// for the engine to make (`finish` then ends the entry); when the line is
    /// not a call, writes why, ends the entry and returns `None`.
    pub fn run(&mut self) -> (res: Option<ParsedCall>)
        requires
            old(self).wf(),
        ensures
            final(self).wf(),
            final(self).text@ == Seq::<char>::empty(),
            final(self).history@ == model_insert(old(self).history@, old(self).text@),
            match call_spec(old(self).text@) {
                Some((name, args)) => {
                    &&& res matches Some(c) && c.ident@ == name && values_are(c.args@, args)
                    &&& final(self).output@ == old(self).output@ + echo(old(self).text@)
                    &&& final(self).reclaim_focus == old(self).reclaim_focus
                },
                None => {
                    &&& res is None
                    &&& final(self).output@ == old(self).output@ + echo(old(self).text@) + reason_text(
                        call_refusal(old(self).text@),
                    ) + seq!['\n']
                    &&& final(self).reclaim_focus
                },
            },
    {
        let ghost out0 = self.output@;
        let ghost line = self.text@;
        push_text(&mut self.output, ">> ");
        push_text(&mut self.output, self.text.as_str());
        push_char(&mut self.output, '\n');
        proof {
            reveal_strlit(">> ");
            assert(self.output@ =~= out0 + echo(line));
        }
        let call = parse_call(self.text.as_str());
        let entered = self.text.clone();
        self.history.insert(entered);
        self.text = String::new();
        match call {
            Ok(c) => Some(c),
            Err(e) => {
                let m = e.message();
                push_text(&mut self.output, m.as_str());
                push_char(&mut self.output, '\n');
                self.reclaim_focus = true;
                None
            },
        }
    }

    /// Ends the entry of a call: writes what the engine gave back, if
    /// anything, then a line break; the input takes the focus again.
    pub fn finish(&mut self, outcome: Option<&str>)
        ensures
            final(self).output@ == old(self).output@ + match outcome {
                Some(t) => t@,
                None => Seq::<char>::empty(),
            } + seq!['\n'],
            final(self).text == old(self).text,
            final(self).history == old(self).history,
            final(self).reclaim_focus,
    {
        let ghost out0 = self.output@;
        match outcome {
            Some(t) => push_text(&mut self.output, t),
            None => {},
        }
        push_char(&mut self.output, '\n');
        self.reclaim_focus = true;
        proof {
            match outcome {
                Some(t) => assert(self.output@ =~= out0 + t@ + seq!['\n']),
                None => assert(self.output@ =~= out0 + Seq::<char>::empty() + seq!['\n']),
            }
        }
    }

    /// Steps through the history from the input (the arrow keys): `up` steps
    /// back to an older line, otherwise forward to a newer one or to the line
    /// that was being typed. The line stepped to replaces the input; where
    /// there is none, the input stays.
    pub fn browse(&mut self, up: bool)
        requires
            old(self).wf(),
        ensures
            final(self).wf(),
            up ==> final(self).history@ == model_prev(old(self).history@, old(self).text@).0,
            !up ==> final(self).history@ == model_next(old(self).history@).0,
            final(self).text@ == match (if up {
                model_prev(old(self).history@, old(self).text@).1
            } else {
                model_next(old(self).history@).1
            }) {
                Some(line) => line,
                None => old(self).text@,
            },
            final(self).output == old(self).output,
            final(self).reclaim_focus == old(self).reclaim_focus,
    {
        let found = if up {
            self.history.prev(self.text.as_str())
        } else {
            self.history.next()
        };
        match found {
            Some(line) => {
                self.text = line.to_owned();
            },
            None => {},
        }
    }

    /// Empties the transcript.
    pub fn clear_output(&mut self)
        ensures
            final(self).output@ == Seq::<char>::empty(),
            final(self).text == old(self).text,
            final(self).history == old(self).history,
            final(self).reclaim_focus == old(self).reclaim_focus,
    {
        self.output = String::new();
    }
}

} // verus!
