//! The action executor: interprets one action against the store. Running a
//! command is the caller's part: it is handed out as a request, and its
//! exit is judged here.

use vstd::bytes::*;
use vstd::prelude::*;
use vstd::string::*;
use vstd::utf8::*;

use crate::codec::{text_fits, text_wire, typed, KvSerde, StoreError, Stored};
use crate::job::{texts, Action, ActionView, Scalar, ScalarView};
use crate::store::{str_eq, Kv};

verus! {

/// Why an execution failed.
#[derive(Clone, Copy, Debug, PartialEq, Eq, Structural)]
pub enum ExecutionError {
    /// The value is not of the kind that the decode mode asks for.
    TypeMismatch,
    /// The number does not fit 32 bits.
    OutOfRange,
    /// The decode mode is none of `raw`, `utf8`, `string`, `u32`, `u64`.
    UnknownDecode,
    /// The command had not exited by its deadline.
    Timeout,
    /// The command exited, and not with success; the exit code, if there
    /// was one.
    NonZeroExit(Option<i32>),
    /// The action is reserved and never runs.
    NotImplemented,
    /// The command could not be started or waited for.
    SpawnFailed,
    /// The store did not take the write.
    StoreFailed,
}

/// The bytes that a value is stored as under a decode mode: `raw` and
/// `utf8` keep a string's own bytes, `string` writes it as a stored string,
/// `u32` and `u64` write a whole number in four or eight bytes.
pub open spec fn stored_bytes(decode: Seq<char>, value: ScalarView) -> Result<
    Seq<u8>,
    ExecutionError,
> {
    if decode == "utf8"@ || decode == "raw"@ {
        match value {
            ScalarView::Text(s) => Ok(encode_utf8(s)),
            _ => Err(ExecutionError::TypeMismatch),
        }
    } else if decode == "string"@ {
        match value {
            ScalarView::Text(s) => Ok(text_wire(s)),
            _ => Err(ExecutionError::TypeMismatch),
        }
    } else if decode == "u32"@ {
        match value {
            ScalarView::Unsigned(n) => if n <= u32::MAX {
                Ok(spec_u32_to_le_bytes(n as u32))
            } else {
                Err(ExecutionError::OutOfRange)
            },
            _ => Err(ExecutionError::TypeMismatch),
        }
    } else if decode == "u64"@ {
        match value {
            ScalarView::Unsigned(n) => Ok(spec_u64_to_le_bytes(n)),
            _ => Err(ExecutionError::TypeMismatch),
        }
    } else {
        Err(ExecutionError::UnknownDecode)
    }
}

/// What writing a value does. A value that cannot be stored under the
/// decode mode is refused with its error and nothing is written. Otherwise
/// its bytes are handed to the store under the key's own bytes: where the
/// store takes them the write succeeds and the key then holds them; where
/// it refuses them the write fails and the store stays as it was. A
/// reliable store never refuses.
pub open spec fn value_stored(
    before: Map<Seq<u8>, Seq<u8>>,
    after: Map<Seq<u8>, Seq<u8>>,
    reliable: bool,
    key: Seq<char>,
    decode: Seq<char>,
    value: ScalarView,
    r: Result<(), ExecutionError>,
) -> bool {
    match stored_bytes(decode, value) {
        Err(e) => r == Err::<(), ExecutionError>(e) && after == before,
        Ok(bytes) => match r {
            Ok(_) => after == before.insert(encode_utf8(key), bytes),
            Err(e) => e == ExecutionError::StoreFailed && after == before && !reliable,
        },
    }
}

/// The answer of the store to a write, as the result of an execution.
fn taken(stored: Result<(), StoreError>) -> (r: Result<(), ExecutionError>)
    ensures
        r is Ok == stored is Ok,
        r is Err ==> r == Err::<(), ExecutionError>(ExecutionError::StoreFailed),
{
    match stored {
        Ok(_) => Ok(()),
        Err(_) => Err(ExecutionError::StoreFailed),
    }
}

/// Writes `value` under `key` as the decode mode says.
pub fn store_value<K: Kv>(kv: &mut K, key: &str, decode: &str, value: &Scalar) -> (r: Result<
    (),
    ExecutionError,
>)
    requires
        old(kv).valid(),
    ensures
        final(kv).valid(),
        final(kv).reliable() == old(kv).reliable(),
        value_stored(
            old(kv).contents(),
            final(kv).contents(),
            old(kv).reliable(),
            key@,
            decode@,
            value@,
            r,
        ),
{
    let kb = key.as_bytes();
    if str_eq(decode, "utf8") || str_eq(decode, "raw") {
        match value.as_str() {
            Some(s) => taken(kv.put(kb, s.as_bytes())),
            None => Err(ExecutionError::TypeMismatch),
        }
    } else if str_eq(decode, "string") {
        match value {
            Scalar::Text(s) => taken(kv.put_t(kb, s)),
            _ => Err(ExecutionError::TypeMismatch),
        }
    } else if str_eq(decode, "u32") {
        match value.as_u64() {
            Some(n) => {
                if n <= 0xffff_ffffu64 {
                    let n32: u32 = n as u32;
                    taken(kv.put_t(kb, &n32))
                } else {
                    Err(ExecutionError::OutOfRange)
                }
            },
            None => Err(ExecutionError::TypeMismatch),
        }
    } else if str_eq(decode, "u64") {
        match value.as_u64() {
            Some(n) => taken(kv.put_t(kb, &n)),
            None => Err(ExecutionError::TypeMismatch),
        }
    } else {
        Err(ExecutionError::UnknownDecode)
    }
}

/// What a key reads as once a value was written under it: the bytes that
/// the decode mode gives, and through the typed layer the value itself.
pub proof fn law_value_reads_back(
    before: Map<Seq<u8>, Seq<u8>>,
    after: Map<Seq<u8>, Seq<u8>>,
    reliable: bool,
    key: Seq<char>,
    decode: Seq<char>,
    value: ScalarView,
    r: Result<(), ExecutionError>,
)
    requires
        value_stored(before, after, reliable, key, decode, value, r),
    ensures
        reliable ==> (r is Ok <==> stored_bytes(decode, value) is Ok),
        r is Err ==> after == before,
        r is Ok ==> after.dom() == before.dom().insert(encode_utf8(key)),
        r is Ok && (decode == "raw"@ || decode == "utf8"@) ==> (value matches ScalarView::Text(s)
            && after[encode_utf8(key)] == encode_utf8(s)),
        r is Ok && decode == "string"@ && text_fits(value->Text_0) ==> value is Text && typed::<
            String,
        >(after, encode_utf8(key)) == Ok::<Option<Seq<char>>, StoreError>(Some(value->Text_0)),
        r is Ok && decode == "u32"@ ==> (value matches ScalarView::Unsigned(n) && n <= u32::MAX
            && typed::<u32>(after, encode_utf8(key)) == Ok::<Option<u32>, StoreError>(
            Some(n as u32),
        )),
        r is Ok && decode == "u64"@ ==> (value matches ScalarView::Unsigned(n) && typed::<u64>(
            after,
            encode_utf8(key),
        ) == Ok::<Option<u64>, StoreError>(Some(n))),
{
    lemma_modes_differ();
    match value {
        ScalarView::Text(s) => {
            if text_fits(s) {
                <String as Stored>::round_trip(s);
            }
        },
        ScalarView::Unsigned(n) => {
            <u64 as Stored>::round_trip(n);
            if n <= u32::MAX {
                <u32 as Stored>::round_trip(n as u32);
            }
        },
        _ => {},
    }
}

/// The names of the decode modes are five different strings.
proof fn lemma_modes_differ()
    ensures
        "raw"@ != "utf8"@,
        "raw"@ != "string"@,
        "raw"@ != "u32"@,
        "raw"@ != "u64"@,
        "utf8"@ != "string"@,
        "utf8"@ != "u32"@,
        "utf8"@ != "u64"@,
        "string"@ != "u32"@,
        "string"@ != "u64"@,
        "u32"@ != "u64"@,
{
    reveal_strlit("raw");
    reveal_strlit("utf8");
    reveal_strlit("string");
    reveal_strlit("u32");
    reveal_strlit("u64");
    assert("u32"@[1] != "u64"@[1]);
    assert("utf8"@[0] != "string"@[0]);
    assert("raw"@[0] != "u32"@[0]);
    assert("raw"@[0] != "u64"@[0]);
}

/// A command to run outside: the executable, its arguments, and the time it
/// is allowed.
#[derive(Clone, Debug, PartialEq, Eq)]
pub struct Command {
    /// Command or executable.
    pub cmd: String,
    /// Arguments, in order.
    pub args: Vec<String>,
    /// Time allowed in milliseconds; without it the command is waited for
    /// as long as it takes.
    pub timeout_ms: Option<u64>,
}

/// How far an execution got.
#[derive(Debug, PartialEq, Eq)]
pub enum Execution {
    /// The action is over, with this result.
    Finished(Result<(), ExecutionError>),
    /// The action is a command: it has to be run, and its exit handed to
    /// [`conclude`].
    Spawn(Command),
}

/// How a command ended.
#[derive(Clone, Copy, Debug, PartialEq, Eq, Structural)]
pub enum ProcessExit {
    /// It exited: with success or not, and with this code if it had one.
    Exited { success: bool, code: Option<i32> },
    /// It had not exited by its deadline.
    TimedOut,
    /// It could not be started or waited for.
    Failed,
}

/// The result that a command's exit stands for.
pub open spec fn concluded(exit: ProcessExit) -> Result<(), ExecutionError> {
    match exit {
        ProcessExit::Exited { success, code } => if success {
            Ok(())
        } else {
            Err(ExecutionError::NonZeroExit(code))
        },
        ProcessExit::TimedOut => Err(ExecutionError::Timeout),
        ProcessExit::Failed => Err(ExecutionError::SpawnFailed),
    }
}

/// Judges how a command ended: success only where it exited with success.
pub fn conclude(exit: ProcessExit) -> (r: Result<(), ExecutionError>)
    ensures
        r == concluded(exit),
{
    match exit {
        ProcessExit::Exited { success, code } => if success {
            Ok(())
        } else {
            Err(ExecutionError::NonZeroExit(code))
        },
        ProcessExit::TimedOut => Err(ExecutionError::Timeout),
        ProcessExit::Failed => Err(ExecutionError::SpawnFailed),
    }
}

/// What executing an action does to the store and how far it gets.
pub open spec fn executed(
    before: Map<Seq<u8>, Seq<u8>>,
    after: Map<Seq<u8>, Seq<u8>>,
    reliable: bool,
    action: ActionView,
    out: Execution,
) -> bool {
    match action {
        ActionView::Noop => out == Execution::Finished(Ok(())) && after == before,
        ActionView::KvPut { key, decode, value } => out matches Execution::Finished(r)
            && value_stored(before, after, reliable, key, decode, value, r),
        ActionView::KvDel { key } => out == Execution::Finished(Ok(())) && after
            == before.remove(encode_utf8(key)),
        ActionView::Exec { cmd, args, timeout_ms } => out matches Execution::Spawn(c) && c.cmd@
            == cmd && texts(c.args@) == args && c.timeout_ms == timeout_ms && after == before,
        ActionView::Http { .. } => out == Execution::Finished(
            Err(ExecutionError::NotImplemented),
        ) && after == before,
    }
}

/// Executes one action against the store. A `Noop` succeeds and does
/// nothing; a `KvPut` writes its value; a `KvDel` deletes its key, present
/// or not; an `Http` always fails; an `Exec` is handed back as the command
/// to run.
pub fn execute<K: Kv>(action: &Action, kv: &mut K) -> (out: Execution)
    requires
        old(kv).valid(),
    ensures
        final(kv).valid(),
        final(kv).reliable() == old(kv).reliable(),
        executed(old(kv).contents(), final(kv).contents(), old(kv).reliable(), action@, out),
{
    match action {
        Action::Noop => Execution::Finished(Ok(())),
        Action::KvPut { key, decode, value } => {
            let r = store_value(kv, key.as_str(), decode.as_str(), value);
            Execution::Finished(r)
        },
        Action::KvDel { key } => {
            let _ = kv.delete(key.as_str().as_bytes());
            Execution::Finished(Ok(()))
        },
        Action::Exec { cmd, args, timeout_ms } => {
            let args = copy_texts(args);
            Execution::Spawn(Command { cmd: cmd.clone(), args, timeout_ms: *timeout_ms })
        },
        Action::Http { .. } => Execution::Finished(Err(ExecutionError::NotImplemented)),
    }
}

/// A copy of a list of strings.
pub fn copy_texts(v: &Vec<String>) -> (out: Vec<String>)
    ensures
        texts(out@) == texts(v@),
{
    let mut out: Vec<String> = Vec::new();
    let mut i: usize = 0;
    while i < v.len()
        invariant
            i <= v.len(),
            out@.len() == i,
            forall|j: int| 0 <= j < i ==> out@[j]@ == v@[j]@,
        decreases v.len() - i,
    {
        out.push(v[i].clone());
        i = i + 1;
    }
    proof {
        assert(texts(out@) =~= texts(v@));
    }
    out
}

} // verus!
