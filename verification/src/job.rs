//! The persisted shapes: job specification, action variants, the legacy
//! specification and the run state, each with its mathematical view.

use vstd::prelude::*;

verus! {

/// The characters of each string of a sequence.
pub open spec fn texts(v: Seq<String>) -> Seq<Seq<char>> {
    Seq::new(v.len(), |i: int| v[i]@)
}

/// The characters of an optional string.
pub open spec fn opt_text(o: Option<String>) -> Option<Seq<char>> {
    match o {
        Some(s) => Some(s@),
        None => None,
    }
}

/// A dynamically typed scalar, as a job's payload holds it at rest.
#[derive(Clone, Debug, PartialEq, Eq)]
pub enum Scalar {
    /// The absent value.
    Null,
    /// A truth value.
    Bool(bool),
    /// A non-negative whole number.
    Unsigned(u64),
    /// Any other number (negative or fractional), in its decimal notation.
    Number(String),
    /// A string.
    Text(String),
}

/// The mathematical content of a [`Scalar`].
pub enum ScalarView {
    Null,
    Bool(bool),
    Unsigned(u64),
    Number(Seq<char>),
    Text(Seq<char>),
}

impl View for Scalar {
    type V = ScalarView;

    open spec fn view(&self) -> ScalarView {
        match self {
            Scalar::Null => ScalarView::Null,
            Scalar::Bool(b) => ScalarView::Bool(*b),
            Scalar::Unsigned(n) => ScalarView::Unsigned(*n),
            Scalar::Number(s) => ScalarView::Number(s@),
            Scalar::Text(s) => ScalarView::Text(s@),
        }
    }
}

impl Scalar {
    /// The string of a `Text`, nothing for every other variant.
    pub fn as_str(&self) -> (r: Option<&str>)
        ensures
            match r {
                Some(s) => self@ == ScalarView::Text(s@),
                None => !(self@ is Text),
            },
    {
        match self {
            Scalar::Text(s) => Some(s.as_str()),
            _ => None,
        }
    }

    /// The number of an `Unsigned`, nothing for every other variant.
    pub fn as_u64(&self) -> (r: Option<u64>)
        ensures
            match r {
                Some(n) => self@ == ScalarView::Unsigned(n),
                None => !(self@ is Unsigned),
            },
    {
        match self {
            Scalar::Unsigned(n) => Some(*n),
            _ => None,
        }
    }
}

/// What a job does when it triggers.
#[derive(Clone, Debug, PartialEq, Eq)]
pub enum Action {
    /// Do nothing.
    Noop,
    /// Run an operating-system command.
    Exec {
        /// Command or executable.
        cmd: String,
        /// Arguments, in order.
        args: Vec<String>,
        /// Time allowed, in milliseconds.
        timeout_ms: Option<u64>,
    },
    /// An HTTP call; reserved, it never executes.
    Http {
        /// Address to call.
        url: String,
        /// Method, `GET` where absent.
        method: Option<String>,
        /// Body.
        body: Option<String>,
        /// Time allowed, in milliseconds.
        timeout_ms: Option<u64>,
    },
    /// Write a value into the store.
    KvPut {
        /// Key to write.
        key: String,
        /// How `value` is stored: `raw`, `utf8`, `string`, `u32` or `u64`.
        decode: String,
        /// The value, typed by `decode`.
        value: Scalar,
    },
    /// Delete a key from the store.
    KvDel {
        /// Key to delete.
        key: String,
    },
}

/// The mathematical content of an [`Action`].
pub enum ActionView {
    Noop,
    Exec { cmd: Seq<char>, args: Seq<Seq<char>>, timeout_ms: Option<u64> },
    Http {
        url: Seq<char>,
        method: Option<Seq<char>>,
        body: Option<Seq<char>>,
        timeout_ms: Option<u64>,
    },
    KvPut { key: Seq<char>, decode: Seq<char>, value: ScalarView },
    KvDel { key: Seq<char> },
}

impl View for Action {
    type V = ActionView;

    open spec fn view(&self) -> ActionView {
        match self {
            Action::Noop => ActionView::Noop,
            Action::Exec { cmd, args, timeout_ms } => ActionView::Exec {
                cmd: cmd@,
                args: texts(args@),
                timeout_ms: *timeout_ms,
            },
            Action::Http { url, method, body, timeout_ms } => ActionView::Http {
                url: url@,
                method: opt_text(*method),
                body: opt_text(*body),
                timeout_ms: *timeout_ms,
            },
            Action::KvPut { key, decode, value } => ActionView::KvPut {
                key: key@,
                decode: decode@,
                value: value@,
            },
            Action::KvDel { key } => ActionView::KvDel { key: key@ },
        }
    }
}

/// A scheduled job: how often it runs and what it does.
#[derive(Clone, Debug, PartialEq, Eq)]
pub struct JobSpec {
    /// Period between runs, in milliseconds.
    pub period_ms: u64,
    /// The action to perform when the job triggers.
    pub action: Action,
}

/// The mathematical content of a [`JobSpec`].
pub struct JobSpecView {
    pub period_ms: u64,
    pub action: ActionView,
}

impl View for JobSpec {
    type V = JobSpecView;

    open spec fn view(&self) -> JobSpecView {
        JobSpecView { period_ms: self.period_ms, action: self.action@ }
    }
}

/// The older stored shape of a job, kept so that it can still be read.
#[derive(Clone, Debug, PartialEq, Eq)]
pub struct LegacySpec {
    /// Legacy command, often `noop`.
    pub cmd: String,
    /// Period between runs, in milliseconds.
    pub period_ms: u64,
}

/// The mathematical content of a [`LegacySpec`].
pub struct LegacySpecView {
    pub cmd: Seq<char>,
    pub period_ms: u64,
}

impl View for LegacySpec {
    type V = LegacySpecView;

    open spec fn view(&self) -> LegacySpecView {
        LegacySpecView { cmd: self.cmd@, period_ms: self.period_ms }
    }
}

/// The job that a legacy specification stands for: every legacy command,
/// `noop` and any other alike, maps to `Noop`.
pub open spec fn migrated(old: LegacySpecView) -> JobSpecView {
    JobSpecView { period_ms: old.period_ms, action: ActionView::Noop }
}

impl LegacySpec {
    /// Turns a legacy specification into the current shape.
    pub fn migrate(&self) -> (spec: JobSpec)
        ensures
            spec@ == migrated(self@),
    {
        JobSpec { period_ms: self.period_ms, action: Action::Noop }
    }
}

/// The run history of a job.
#[derive(Clone, Copy, Debug, PartialEq, Eq, Structural)]
pub struct JobState {
    /// Time of the last run, in milliseconds since the epoch.
    pub last_run_ms: u64,
    /// Number of successful runs.
    pub runs: u64,
    /// Number of consecutive failures.
    pub failures: u64,
    /// Current backoff in milliseconds, 0 when there is none.
    pub backoff_ms: u64,
}

impl JobState {
    /// The state of a job that never ran.
    pub open spec fn zero() -> JobState {
        JobState { last_run_ms: 0, runs: 0, failures: 0, backoff_ms: 0 }
    }
}

impl Default for JobState {
    fn default() -> (state: JobState)
        ensures
            state == JobState::zero(),
    {
        JobState { last_run_ms: 0, runs: 0, failures: 0, backoff_ms: 0 }
    }
}

} // verus!
