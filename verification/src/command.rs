//! Command-line commands: the subcommand verbs the store accepts and the
//! validation that turns raw operands into a command.

use vstd::prelude::*;
use crate::KvError;

verus! {

/// The verb of an invocation.
#[derive(Clone, Copy, Debug, PartialEq, Eq, Structural)]
pub enum Subcommand {
    SetCmd,
    GetCmd,
}

/// A validated command: the verb together with its operands.
#[derive(Debug, PartialEq, Eq)]
pub enum Command {
    SetKey { key: String, value: String },
    GetKey { key: String },
}

impl Subcommand {
    /// Read a subcommand token: exactly `set` and `get` are accepted.
    pub fn from_str(s: &String) -> (r: Result<Subcommand, KvError>)
        ensures
            s@ == "set"@ ==> r == Ok::<Subcommand, KvError>(Subcommand::SetCmd),
            s@ == "get"@ ==> r == Ok::<Subcommand, KvError>(Subcommand::GetCmd),
            s@ != "set"@ && s@ != "get"@ ==> r == Err::<Subcommand, KvError>(
                KvError::InvalidCommand,
            ),
    {
        proof {
            reveal_strlit("set");
            reveal_strlit("get");
            assert("set"@ != "get"@) by {
                assert("set"@[0] == 's');
                assert("get"@[0] == 'g');
            }
        }
        let set_tok: String = "set".to_owned();
        let get_tok: String = "get".to_owned();
        if *s == set_tok {
            Ok(Subcommand::SetCmd)
        } else if *s == get_tok {
            Ok(Subcommand::GetCmd)
        } else {
            Err(KvError::InvalidCommand)
        }
    }
}

/// Validate an invocation: an unknown verb is an invalid command, an
/// empty key or a `set` without a value is a usage error, and a value
/// handed to `get` is accepted and ignored.
pub fn parse_command(sub: &String, key: String, value: Option<String>) -> (r: Result<
    Command,
    KvError,
>)
    ensures
        sub@ != "set"@ && sub@ != "get"@ ==> r == Err::<Command, KvError>(KvError::InvalidCommand),
        (sub@ == "set"@ || sub@ == "get"@) && key@.len() == 0 ==> r == Err::<Command, KvError>(
            KvError::UsageError,
        ),
        sub@ == "set"@ && key@.len() > 0 && value is None ==> r == Err::<Command, KvError>(
            KvError::UsageError,
        ),
        sub@ == "set"@ && key@.len() > 0 ==> (value matches Some(v) ==> r == Ok::<
            Command,
            KvError,
        >((Command::SetKey { key, value: v }))),
        sub@ == "get"@ && key@.len() > 0 ==> r == Ok::<Command, KvError>(
            (Command::GetKey { key }),
        ),
{
    let sc = match Subcommand::from_str(sub) {
        Ok(sc) => sc,
        Err(e) => {
            return Err(e);
        },
    };
    if key.as_str().is_empty() {
        return Err(KvError::UsageError);
    }
    match sc {
        Subcommand::SetCmd => match value {
            Some(v) => Ok(Command::SetKey { key, value: v }),
            None => Err(KvError::UsageError),
        },
        Subcommand::GetCmd => Ok(Command::GetKey { key }),
    }
}

} // verus!
