//! The decisions of the parallel command runner while it runs a line of commands.
//!
//! Commands run one after the other. Before each one the runner looks at a flag
//! shared by all runners; when another runner has cleared it, no further command
//! runs. A command that exits with status 0 gives its output; one that fails or
//! cannot be started ends the line, and in eager mode (termination 2) clears the
//! shared flag so that the other runners stop as well. In lazy mode (termination 1)
//! a failure stops the reading of further lines.
//!
//! The runner in `app/` performs the actions that `Executor` asks for (looking at
//! the flag, running a command, clearing the flag) and hands back what it found.

use vstd::prelude::*;
use crate::text::string_views;

verus! {

/// What came of running one command.
pub enum Outcome {
    /// The command ran and exited with `code`; its standard output and error as text.
    Exited { code: i32, stdout: String, stderr: String },
    /// The command could not be started.
    NotStarted,
}

/// The report of one command that ran.
pub struct Message {
    pub id: usize,
    pub status: i32,
    pub msg: String,
}

/// What the runner is asked to do next.
#[derive(PartialEq, Eq, Structural, Clone, Copy, Debug)]
pub enum Action {
    /// Run command `i` and hand its outcome to `record`.
    Run(usize),
    /// The line is over.
    Finish,
}

/// The progress through one line of commands.
pub struct Executor {
    /// Number of commands in the line.
    pub count: usize,
    /// 0: never halt, 1: halt lazily, 2: halt eagerly.
    pub termination: i32,
    /// The next command to run.
    pub next: usize,
    /// A command failed.
    pub stop: bool,
    /// No further command will run.
    pub done: bool,
    /// One report per command that ran, in order.
    pub messages: Vec<Message>,
}

/// The message text for a command that could not be started.
pub open spec fn not_found_text() -> Seq<char> {
    "Error: Command not found"@
}

/// The report that an outcome gives for command `id`.
pub open spec fn report_of(id: usize, outcome: Outcome) -> (usize, i32, Seq<char>) {
    match outcome {
        Outcome::Exited { code, stdout, stderr } => if code == 0 {
            (id, 0i32, stdout@)
        } else {
            (id, code, stderr@)
        },
        Outcome::NotStarted => (id, 1i32, not_found_text()),
    }
}

/// Whether an outcome is a failure.
pub open spec fn fails(outcome: Outcome) -> bool {
    match outcome {
        Outcome::Exited { code, .. } => code != 0,
        Outcome::NotStarted => true,
    }
}

pub open spec fn message_view(m: Message) -> (usize, i32, Seq<char>) {
    (m.id, m.status, m.msg@)
}

/// A command fails exactly when it could not be started or exited with a status other
/// than 0, whatever that status is.
pub proof fn lemma_failure_is_nonzero_status(outcome: Outcome)
    ensures
        fails(outcome) <==> match outcome {
            Outcome::Exited { code, .. } => code < 0 || code > 0,
            Outcome::NotStarted => true,
        },
{
}

impl Executor {
    /// The state is consistent: one report per command run, with the ids in order,
    /// and a failure ends the line.
    pub open spec fn wf(&self) -> bool {
        &&& self.next <= self.count
        &&& self.messages@.len() == self.next
        &&& forall|i: int| 0 <= i < self.next ==> (#[trigger] self.messages@[i]).id == i
        &&& self.stop ==> self.done
    }

    /// A fresh line of `count` commands.
    pub fn new(count: usize, termination: i32) -> (r: Executor)
        ensures
            r.wf(),
            r.count == count,
            r.termination == termination,
            r.next == 0,
            !r.stop,
            !r.done,
    {
        Executor { count, termination, next: 0, stop: false, done: false, messages: Vec::new() }
    }

    /// What to do next, given whether the shared flag still lets commands run.
    pub fn next_action(&mut self, may_continue: bool) -> (a: Action)
        requires
            old(self).wf(),
        ensures
            final(self).wf(),
            final(self).count == old(self).count,
            final(self).termination == old(self).termination,
            final(self).next == old(self).next,
            final(self).stop == old(self).stop,
            final(self).messages@ == old(self).messages@,
            if old(self).done || !may_continue || old(self).next == old(self).count {
                a == Action::Finish && final(self).done
            } else {
                a == Action::Run(old(self).next) && !final(self).done
            },
    {
        if self.done || !may_continue || self.next == self.count {
            self.done = true;
            Action::Finish
        } else {
            Action::Run(self.next)
        }
    }

    /// Records what came of the command that `next_action` asked for. Returns whether
    /// the other runners must be stopped (a failure in eager mode).
    pub fn record(&mut self, outcome: Outcome) -> (stop_others: bool)
        requires
            old(self).wf(),
            !old(self).done,
            old(self).next < old(self).count,
        ensures
            final(self).wf(),
            final(self).count == old(self).count,
            final(self).termination == old(self).termination,
            final(self).next == old(self).next + 1,
            final(self).messages@.len() == old(self).messages@.len() + 1,
            forall|i: int| 0 <= i < old(self).messages@.len() ==> #[trigger] final(self).messages@[i] == old(self).messages@[i],
            message_view(final(self).messages@.last()) == report_of(old(self).next, outcome),
            final(self).stop == fails(outcome),
            final(self).done == fails(outcome),
            (outcome matches Outcome::Exited { code, .. } && code != 0) ==> final(self).stop && final(self).done,
            (outcome matches Outcome::Exited { code, .. } && code == 0) ==> !final(self).stop && !final(self).done,
            outcome is NotStarted ==> final(self).stop && final(self).done,
            stop_others == (fails(outcome) && old(self).termination == 2),
    {
        let id = self.next;
        let (status, msg, failed) = match outcome {
            Outcome::Exited { code, stdout, stderr } => {
                if code == 0 {
                    (0i32, stdout, false)
                } else {
                    (code, stderr, true)
                }
            },
            Outcome::NotStarted => (1i32, String::from_str("Error: Command not found"), true),
        };
        self.messages.push(Message { id, status, msg });
        self.next = self.next + 1;
        if failed {
            self.stop = true;
            self.done = true;
        }
        failed && self.termination == 2
    }

    /// Whether this line stops the reading of further lines (a failure in lazy mode).
    pub fn halts_input(&self) -> (r: bool)
        ensures
            r == (self.stop && self.termination == 1),
    {
        self.stop && self.termination == 1
    }
}

/// The messages of the reports with status 0, in order.
pub open spec fn successful_texts(v: Seq<(i32, String)>) -> Seq<Seq<char>>
    decreases v.len(),
{
    if v.len() == 0 {
        Seq::empty()
    } else if v.last().0 == 0 {
        successful_texts(v.drop_last()).push(v.last().1@)
    } else {
        successful_texts(v.drop_last())
    }
}

/// The texts to print from the reports that a remote runner sent back: the message
/// of each report with status 0, in order; nothing when the reports could not be read.
pub fn resolve_json_results(results: Option<Vec<(i32, String)>>) -> (r: Vec<String>)
    ensures
        match results {
            None => r@.len() == 0,
            Some(v) => string_views(r@) == successful_texts(v@),
        },
{
    let mut out: Vec<String> = Vec::new();
    match results {
        None => out,
        Some(v) => {
            let mut i: usize = 0;
            while i < v.len()
                invariant
                    i <= v@.len(),
                    string_views(out@) == successful_texts(v@.subrange(0, i as int)),
                decreases v@.len() - i,
            {
                assert(v@.subrange(0, i + 1).drop_last() =~= v@.subrange(0, i as int));
                let ghost prev = string_views(out@);
                if v[i].0 == 0 {
                    out.push(v[i].1.clone());
                    assert(string_views(out@) =~= prev.push(v@[i as int].1@));
                }
                i = i + 1;
            }
            assert(v@.subrange(0, v@.len() as int) =~= v@);
            out
        },
    }
}

} // verus!
