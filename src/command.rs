use vstd::prelude::*;
use vstd::string::StringExecFns;
use crate::render::{decimal, listing, push_decimal, render_listing};
use crate::task::{add_spec, complete_spec, remove_spec, TodoList};

verus! {

/// What the user asked for on one invocation.
pub enum Command {
    /// Add a task; unless `quiet`, report its identifier.
    Add { title: String, quiet: bool },
    /// Show the listing.
    List,
    /// Mark a task as completed.
    Complete { id: usize },
    /// Delete a task.
    Remove { id: usize },
    /// Show where the list is stored.
    Info,
}

/// What an invocation leaves to do: text to print, and whether the list
/// changed and must be written back.
pub struct Outcome {
    pub message: String,
    pub save: bool,
}

/// Why a command could not be carried out.
#[derive(Debug, PartialEq, Eq, Structural)]
pub enum CommandError {
    /// The identifier counter has reached the largest value it can hold.
    IdsExhausted,
}

/// Whether a command changes the list (and so is followed by a save).
pub open spec fn is_mutating(command: Command) -> bool {
    !(command is List || command is Info)
}

/// Applies `command` to `list`. `location` is the text that names where the
/// list is stored, reported by `Info`. Commands that name an identifier that
/// no task carries change nothing and report no error.
pub fn apply(list: &mut TodoList, command: Command, location: &str) -> (r: Result<
    Outcome,
    CommandError,
>)
    requires
        old(list).wf(),
    ensures
        final(list).wf(),
        match r {
            Ok(o) => o.save == is_mutating(command),
            Err(_) => final(list)@ == old(list)@,
        },
        match command {
            Command::Add { title, quiet } => if old(list)@.next_id == usize::MAX as nat {
                r == Err::<Outcome, CommandError>(CommandError::IdsExhausted)
            } else {
                r matches Ok(o) && final(list)@ == add_spec(old(list)@, title@) && o.message@ == (
                if quiet {
                    Seq::<char>::empty()
                } else {
                    decimal(old(list)@.next_id) + "\n"@
                })
            },
            Command::List => r matches Ok(o) && final(list)@ == old(list)@ && o.message@ == listing(
                old(list)@.tasks,
            ),
            Command::Complete { id } => r matches Ok(o) && final(list)@ == complete_spec(
                old(list)@,
                id as nat,
            ) && o.message@ == Seq::<char>::empty(),
            Command::Remove { id } => r matches Ok(o) && final(list)@ == remove_spec(
                old(list)@,
                id as nat,
            ) && o.message@ == Seq::<char>::empty(),
            Command::Info => r matches Ok(o) && final(list)@ == old(list)@ && o.message@ == "data file: "@
                + location@ + "\n"@,
        },
{
    match command {
        Command::Add { title, quiet } => {
            if list.next_id() == usize::MAX {
                return Err(CommandError::IdsExhausted);
            }
            let id = list.add_task(title);
            let mut message = String::new();
            if !quiet {
                push_decimal(&mut message, id);
                message.append("\n");
            }
            assert(message@ =~= (if quiet {
                Seq::<char>::empty()
            } else {
                decimal(old(list)@.next_id) + "\n"@
            }));
            Ok(Outcome { message, save: true })
        },
        Command::List => Ok(Outcome { message: render_listing(list), save: false }),
        Command::Complete { id } => {
            list.complete_task(id);
            Ok(Outcome { message: String::new(), save: true })
        },
        Command::Remove { id } => {
            list.remove_task(id);
            Ok(Outcome { message: String::new(), save: true })
        },
        Command::Info => {
            let mut message = String::from_str("data file: ");
            message.append(location);
            message.append("\n");
            Ok(Outcome { message, save: false })
        },
    }
}

} // verus!
