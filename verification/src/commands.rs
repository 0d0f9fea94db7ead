//! The subcommands of the command line.

use vstd::prelude::*;
use vstd::string::*;

verus! {

/// The subcommands.
#[derive(Debug, Clone, Copy, PartialEq, Eq, Structural)]
pub enum SubCommands {
    SetIncome,
    SetExpense,
    GetBalance,
    Initialize,
}

/// The subcommand that a word names.
pub open spec fn sub_command_of(s: Seq<char>) -> Option<SubCommands> {
    if s == "set-income"@ {
        Some(SubCommands::SetIncome)
    } else if s == "get-balance"@ {
        Some(SubCommands::GetBalance)
    } else if s == "set-expense"@ {
        Some(SubCommands::SetExpense)
    } else if s == "init"@ {
        Some(SubCommands::Initialize)
    } else {
        None
    }
}

impl SubCommands {
    /// The subcommand that a word names: `set-income`, `set-expense`,
    /// `get-balance` or `init`. Any other word is refused with a message
    /// that holds the word.
    pub fn parse(s: &str) -> (r: Result<SubCommands, String>)
        ensures
            match sub_command_of(s@) {
                Some(c) => r == Ok::<SubCommands, String>(c),
                None => r is Err && r->Err_0@ == "Unknown sub command: "@ + s@,
            },
    {
        if s.eq("set-income") {
            Ok(SubCommands::SetIncome)
        } else if s.eq("get-balance") {
            Ok(SubCommands::GetBalance)
        } else if s.eq("set-expense") {
            Ok(SubCommands::SetExpense)
        } else if s.eq("init") {
            Ok(SubCommands::Initialize)
        } else {
            let mut msg = "Unknown sub command: ".to_owned();
            msg.append(s);
            Err(msg)
        }
    }
}

impl std::str::FromStr for SubCommands {
    type Err = String;

    /// The subcommand that a word names; the same as [`SubCommands::parse`].
    fn from_str(s: &str) -> (r: Result<SubCommands, String>)
        ensures
            match sub_command_of(s@) {
                Some(c) => r == Ok::<SubCommands, String>(c),
                None => r is Err && r->Err_0@ == "Unknown sub command: "@ + s@,
            },
    {
        SubCommands::parse(s)
    }
}

} // verus!
