//! Running a command against the backing file's contents: the one
//! load / mutate / persist (or load / look up) cycle of an invocation,
//! and the laws that hold of it.

use vstd::prelude::*;
use crate::KvError;
use crate::command::Command;
use crate::store::{Store, contents_map, json_of, load, load_from_str, models_contents};

verus! {

/// What an invocation asks the surrounding program to do after the
/// command ran: write the new document back, or report a value.
#[derive(Debug, PartialEq, Eq)]
pub enum Action {
    WriteBack { contents: String },
    Report { value: String },
}

/// What running a command against the mapping a file denotes must yield:
/// for a `set`, the document of the updated mapping to write back; for a
/// `get`, the bound value, or `KeyNotFound` when the key is unbound.
pub open spec fn outcome_matches(
    cmd: Command,
    m: Map<Seq<char>, Seq<char>>,
    r: Result<Action, KvError>,
) -> bool {
    match cmd {
        Command::SetKey { key, value } => r matches Ok(a) && a matches Action::WriteBack {
            contents: out,
        } && out@ == json_of(m.insert(key@, value@)) && out@.len() >= 2,
        Command::GetKey { key } => if m.contains_key(key@) {
            r matches Ok(a) && a matches Action::Report { value: v } && v@ == m[key@]
        } else {
            r == Err::<Action, KvError>(KvError::KeyNotFound)
        },
    }
}

/// Run one command against the backing file's contents (`None` when the
/// file does not exist). A `set` yields the document to write back; a
/// `get` yields the value to report, or `KeyNotFound` when the key is not
/// bound. Contents that denote no mapping fail with `CorruptDatabase`,
/// for `set` and `get` alike.
pub fn execute(cmd: Command, contents: &Option<String>) -> (r: Result<Action, KvError>)
    ensures
        forall|m: Map<Seq<char>, Seq<char>>| #[trigger] models_contents(contents.deep_view(), m)
            ==> outcome_matches(cmd, m, r),
        contents_map(contents.deep_view()) matches Some(m) ==> outcome_matches(cmd, m, r),
        contents_map(contents.deep_view()) is None ==> r == Err::<Action, KvError>(
            KvError::CorruptDatabase,
        ),
        r matches Err(e) ==> (e == KvError::CorruptDatabase || (cmd matches Command::GetKey { key }
            && e == KvError::KeyNotFound)),
{
    let mut st = match load(contents) {
        Ok(st) => st,
        Err(e) => {
            return Err(e);
        },
    };
    match cmd {
        Command::SetKey { key, value } => {
            st.set(key, value);
            Ok(Action::WriteBack { contents: st.to_json() })
        },
        Command::GetKey { key } => match st.get(&key) {
            Some(v) => Ok(Action::Report { value: v }),
            None => Err(KvError::KeyNotFound),
        },
    }
}

/// Round trip: a store loaded back from the document it persisted to is
/// the same mapping.
pub fn reload(st: &Store) -> (r: Store)
    requires
        st.wf(),
    ensures
        r@ == st@,
{
    let doc = st.to_json();
    proof {
        assert(models_contents(Some(doc@), st@));
    }
    match load_from_str(doc.as_str()) {
        Ok(r) => r,
        Err(_) => {
            proof {
                assert(false);
            }
            Store::new()
        },
    }
}

/// Idempotence: setting a key to a value twice persists the same document
/// as setting it once.
pub proof fn lemma_set_idempotent(m: Map<Seq<char>, Seq<char>>, k: Seq<char>, v: Seq<char>)
    ensures
        json_of(m.insert(k, v).insert(k, v)) == json_of(m.insert(k, v)),
{
    assert(m.insert(k, v).insert(k, v) =~= m.insert(k, v));
}

/// Overwriting: setting a key twice persists only the later value, with
/// no stale entry left for the earlier one.
pub proof fn lemma_set_overwrite(
    m: Map<Seq<char>, Seq<char>>,
    k: Seq<char>,
    a: Seq<char>,
    b: Seq<char>,
)
    ensures
        json_of(m.insert(k, a).insert(k, b)) == json_of(m.insert(k, b)),
{
    assert(m.insert(k, a).insert(k, b) =~= m.insert(k, b));
}

} // verus!
