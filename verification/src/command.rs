//! The command-line surface: the mapping from positional argument words
//! to one of the four operations, and the decisions the program reports
//! after a targeted update or delete.

use vstd::prelude::*;
use crate::todo::{
    str_eq, valid_id, hex_value, Filter, Status, TodoError, TodoId,
};

verus! {

/// The filter a word names, when it names one.
pub open spec fn filter_of(s: Seq<char>) -> Option<Filter> {
    if s == "all"@ {
        Some(Filter::All)
    } else if s == "pending"@ {
        Some(Filter::Pending)
    } else if s == "completed"@ {
        Some(Filter::Completed)
    } else {
        None
    }
}

/// The status a word names, when it names one.
pub open spec fn status_of(s: Seq<char>) -> Option<Status> {
    if s == "pending"@ {
        Some(Status::Pending)
    } else if s == "completed"@ {
        Some(Status::Completed)
    } else {
        None
    }
}

/// One of the four operations, with its arguments already validated.
pub enum Command {
    /// Insert a new pending todo with this description.
    Create { description: String },
    /// Print the todos this filter selects.
    List { filter: Filter },
    /// Set the status of the todo carrying this id.
    Update { id: TodoId, status: Status },
    /// Remove the todo carrying this id.
    Delete { id: TodoId },
}

/// The argument words name an operation and satisfy everything it
/// demands of its arguments.
pub open spec fn wf_command(a: Seq<String>) -> bool {
    ||| (a.len() >= 2 && a[0]@ == "create"@)
    ||| (a.len() >= 2 && a[0]@ == "list"@ && filter_of(a[1]@) is Some)
    ||| (a.len() >= 3 && a[0]@ == "update"@ && status_of(a[2]@) is Some && valid_id(a[1]@))
    ||| (a.len() >= 2 && a[0]@ == "delete"@ && valid_id(a[1]@))
}

/// The error reported for ill-formed argument words: an unknown first
/// word is an invalid operation; a known word checks its argument count
/// first, then its arguments — an update checks the status word before
/// the id, so a bad status is reported even when the id is bad too.
pub open spec fn command_error(a: Seq<String>) -> TodoError {
    if a.len() == 0 {
        TodoError::InvalidOperation
    } else if a[0]@ == "create"@ {
        TodoError::MissingArgument
    } else if a[0]@ == "list"@ {
        if a.len() < 2 {
            TodoError::MissingArgument
        } else {
            TodoError::InvalidFilter
        }
    } else if a[0]@ == "update"@ {
        if a.len() < 3 {
            TodoError::MissingArgument
        } else if status_of(a[2]@) is None {
            TodoError::InvalidStatus
        } else {
            TodoError::InvalidId
        }
    } else if a[0]@ == "delete"@ {
        if a.len() < 2 {
            TodoError::MissingArgument
        } else {
            TodoError::InvalidId
        }
    } else {
        TodoError::InvalidOperation
    }
}

/// Maps the argument words (the words after the program name, in order)
/// to the operation they name, validating every argument before any
/// store operation could run; arguments past the ones an operation uses
/// are ignored.
pub fn parse_command(args: &Vec<String>) -> (r: Result<Command, TodoError>)
    ensures
        r is Ok <==> wf_command(args@),
        (match r {
            Ok(Command::Create { description }) => args@[0]@ == "create"@ && args@.len() >= 2
                && description@ == args@[1]@,
            Ok(Command::List { filter }) => args@[0]@ == "list"@ && args@.len() >= 2 && filter_of(
                args@[1]@,
            ) == Some(filter),
            Ok(Command::Update { id, status }) => args@[0]@ == "update"@ && args@.len() >= 3
                && valid_id(args@[1]@) && id.value == hex_value(args@[1]@) && status_of(args@[2]@)
                == Some(status),
            Ok(Command::Delete { id }) => args@[0]@ == "delete"@ && args@.len() >= 2 && valid_id(
                args@[1]@,
            ) && id.value == hex_value(args@[1]@),
            Err(e) => e == command_error(args@),
        }),
{
    proof {
        reveal_strlit("create");
        reveal_strlit("list");
        reveal_strlit("update");
        reveal_strlit("delete");
        assert("create"@.len() == 6 && "list"@.len() == 4 && "update"@.len() == 6 && "delete"@.len()
            == 6);
        assert("create"@[0] == 'c' && "update"@[0] == 'u' && "delete"@[0] == 'd');
    }
    if args.len() == 0 {
        return Err(TodoError::InvalidOperation);
    }
    let op = args[0].as_str();
    let is_create = str_eq(op, "create");
    let is_list = str_eq(op, "list");
    let is_update = str_eq(op, "update");
    let is_delete = str_eq(op, "delete");
    if is_create {
        if args.len() < 2 {
            return Err(TodoError::MissingArgument);
        }
        Ok(Command::Create { description: args[1].clone() })
    } else if is_list {
        if args.len() < 2 {
            return Err(TodoError::MissingArgument);
        }
        match Filter::parse(args[1].as_str()) {
            Ok(filter) => Ok(Command::List { filter }),
            Err(e) => Err(e),
        }
    } else if is_update {
        if args.len() < 3 {
            return Err(TodoError::MissingArgument);
        }
        let status = match Status::parse(args[2].as_str()) {
            Ok(s) => s,
            Err(e) => {
                return Err(e);
            },
        };
        match TodoId::parse(args[1].as_str()) {
            Ok(id) => Ok(Command::Update { id, status }),
            Err(e) => Err(e),
        }
    } else if is_delete {
        if args.len() < 2 {
            return Err(TodoError::MissingArgument);
        }
        match TodoId::parse(args[1].as_str()) {
            Ok(id) => Ok(Command::Delete { id }),
            Err(e) => Err(e),
        }
    } else {
        Err(TodoError::InvalidOperation)
    }
}

/// What a targeted update is reported as, decided from the two counts
/// the database returns.
#[derive(Clone, Copy, PartialEq, Eq, Structural, Debug)]
pub enum UpdateReport {
    /// Exactly one record changed: report success.
    Updated,
    /// Nothing matched the id: report that the id should be checked.
    NotFound,
    /// A record matched but none changed: nothing is reported.
    Unreported,
}

/// Decides what an update prints: success when exactly one record
/// changed, a check-the-id message when nothing matched, silence when a
/// record matched but already had the requested status.
pub fn update_report(matched_count: u64, modified_count: u64) -> (r: UpdateReport)
    ensures
        r == UpdateReport::Updated <==> modified_count == 1,
        r == UpdateReport::NotFound <==> modified_count != 1 && matched_count == 0,
        r == UpdateReport::Unreported <==> modified_count != 1 && matched_count != 0,
{
    if modified_count == 1 {
        UpdateReport::Updated
    } else if matched_count == 0 {
        UpdateReport::NotFound
    } else {
        UpdateReport::Unreported
    }
}

/// Decides whether a targeted delete removed a record, from the count
/// the database returns.
pub fn delete_report(deleted_count: u64) -> (removed_one: bool)
    ensures
        removed_one == (deleted_count == 1),
{
    deleted_count == 1
}

} // verus!
