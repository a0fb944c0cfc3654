//! Log levels, log messages, and a bounded in-memory log.
//!
//! The log keeps its most recent messages in a ring of fixed capacity,
//! supplied by the `circular_queue` crate and held behind trusted wrappers.

use vstd::prelude::*;

verus! {

/// Severity of a log message.
#[derive(Clone, Copy, Debug, PartialEq, Eq, Structural)]
pub enum Level {
    Debug,
    Info,
    Warning,
    Error,
}

impl Level {
    /// The level's position in the severity order.
    pub open spec fn severity(&self) -> nat {
        match self {
            Level::Debug => 0,
            Level::Info => 1,
            Level::Warning => 2,
            Level::Error => 3,
        }
    }

    /// Whether this level is at least as severe as `other`.
    pub fn at_least(&self, other: &Level) -> (r: bool)
        ensures
            r == (self.severity() >= other.severity()),
    {
        let mine: u8 = match self {
            Level::Debug => 0,
            Level::Info => 1,
            Level::Warning => 2,
            Level::Error => 3,
        };
        let theirs: u8 = match other {
            Level::Debug => 0,
            Level::Info => 1,
            Level::Warning => 2,
            Level::Error => 3,
        };
        mine >= theirs
    }
}

/// One log message: when it was written (whole seconds since the Unix
/// epoch), how severe it is, and its text.
#[derive(Debug)]
pub struct LogMessage {
    pub date: i64,
    pub level: Level,
    pub message: String,
}

/// The mathematical content of a [`LogMessage`].
pub struct LogMessageView {
    pub date: i64,
    pub level: Level,
    pub message: Seq<char>,
}

impl View for LogMessage {
    type V = LogMessageView;

    open spec fn view(&self) -> LogMessageView {
        LogMessageView { date: self.date, level: self.level, message: self.message@ }
    }
}

impl LogMessage {
    /// Builds a message dated now; only the date is left open by the
    /// contract, since it comes from the clock.
    pub fn new(level: Level, message: &str) -> (r: LogMessage)
        ensures
            r@.level == level,
            r@.message == message@,
    {
        LogMessage { date: log_now_seconds(), level, message: String::from_str(message) }
    }
}

impl Clone for LogMessage {
    fn clone(&self) -> (r: Self)
        ensures
            r@ == self@,
    {
        let r = LogMessage { date: self.date, level: self.level, message: self.message.clone() };
        proof {
            assert(r@ == self@);
        }
        r
    }
}

/// The clock's current reading in whole seconds since the Unix epoch.
///
/// Relies on `chrono::Local::now`; nothing is stated of the value.
#[verifier::external_body]
fn log_now_seconds() -> i64 {
    chrono::Local::now().timestamp()
}

/// A sink for log messages.
pub trait Logger {
    /// Records one message, subject to the sink's level filter.
    fn log(&mut self, message: LogMessage);

    /// Sets the least severity the sink keeps.
    fn set_log_level(&mut self, level: Level);

    /// Records a message at the given level.
    fn log_message(&mut self, level: Level, message: String) {
        self.log(LogMessage::new(level, message.as_str()));
    }

    /// Records an error.
    fn log_error(&mut self, message: &str) {
        self.log_message(Level::Error, String::from_str("ERROR: ").concat(message));
    }

    /// Records a warning.
    fn log_warning(&mut self, message: &str) {
        self.log_message(Level::Warning, String::from_str("WARNING: ").concat(message));
    }

    /// Records an informational message.
    fn log_info(&mut self, message: &str) {
        self.log_message(Level::Info, String::from_str("INFO: ").concat(message));
    }

    /// Records a debugging message.
    fn log_debug(&mut self, message: &str) {
        self.log_message(Level::Debug, String::from_str("DEBUG: ").concat(message));
    }
}

/// The bounded ring of the `circular_queue` crate.
#[verifier::external_type_specification]
#[verifier::external_body]
#[verifier::reject_recursive_types(T)]
pub struct ExCircularQueue<T>(circular_queue::CircularQueue<T>);

/// What a log ring holds, oldest first, as
/// `circular_queue::CircularQueue::asc_iter` walks it.
pub uninterp spec fn log_ring_contents(q: circular_queue::CircularQueue<LogMessage>) -> Seq<
    LogMessageView,
>;

/// The capacity a log ring was created with.
pub uninterp spec fn log_ring_capacity(q: circular_queue::CircularQueue<LogMessage>) -> nat;

/// Creates an empty ring of the given capacity.
///
/// Relies on `CircularQueue::with_capacity`.
#[verifier::external_body]
fn log_ring_new(capacity: usize) -> (r: circular_queue::CircularQueue<LogMessage>)
    ensures
        log_ring_contents(r) == Seq::<LogMessageView>::empty(),
        log_ring_capacity(r) == capacity,
{
    circular_queue::CircularQueue::with_capacity(capacity)
}

/// Appends a message; once the ring is full, each push drops the oldest
/// entry.  A ring of capacity zero stores nothing.
///
/// Relies on `CircularQueue::push`.
#[verifier::external_body]
fn log_ring_push(q: &mut circular_queue::CircularQueue<LogMessage>, message: LogMessage)
    ensures
        log_ring_capacity(*final(q)) == log_ring_capacity(*old(q)),
        log_ring_contents(*final(q)) == if log_ring_capacity(*old(q)) == 0 {
            log_ring_contents(*old(q))
        } else if log_ring_contents(*old(q)).len() < log_ring_capacity(*old(q)) {
            log_ring_contents(*old(q)).push(message@)
        } else {
            log_ring_contents(*old(q)).drop_first().push(message@)
        },
{
    q.push(message);
}

/// Copies the ring's contents out, oldest first.
///
/// Relies on `CircularQueue::asc_iter`.
#[verifier::external_body]
fn log_ring_to_vec(q: &circular_queue::CircularQueue<LogMessage>) -> (r: Vec<LogMessage>)
    ensures
        r@.len() == log_ring_contents(*q).len(),
        forall|i: int|
            0 <= i < r@.len() ==> #[trigger] r@[i]@ == log_ring_contents(*q)[i],
{
    q.asc_iter().cloned().collect()
}

/// A log that keeps its most recent messages in memory, newest pushing out
/// oldest once the capacity is reached.
pub struct StandardLogger {
    log_messages: circular_queue::CircularQueue<LogMessage>,
    log_level: Level,
}

impl StandardLogger {
    /// What the log currently holds, oldest first.
    pub closed spec fn contents(&self) -> Seq<LogMessageView> {
        log_ring_contents(self.log_messages)
    }

    /// The capacity the log was created with.
    pub closed spec fn capacity(&self) -> nat {
        log_ring_capacity(self.log_messages)
    }

    /// The least severity the log keeps.
    pub closed spec fn level(&self) -> Level {
        self.log_level
    }

    /// An empty log that will hold at most `capacity` messages.
    pub fn new(capacity: usize) -> (r: StandardLogger)
        ensures
            r.contents() == Seq::<LogMessageView>::empty(),
            r.capacity() == capacity,
            r.level() == Level::Info,
    {
        StandardLogger { log_messages: log_ring_new(capacity), log_level: Level::Info }
    }

    /// A copy of the kept messages, oldest first.
    pub fn messages(&self) -> (r: Vec<LogMessage>)
        ensures
            r@.len() == self.contents().len(),
            forall|i: int|
                0 <= i < r@.len() ==> #[trigger] r@[i]@ == self.contents()[i],
    {
        log_ring_to_vec(&self.log_messages)
    }
}

impl Logger for StandardLogger {
    /// Keeps the message if its level passes the filter: appended at the
    /// end, pushing out the oldest entry once the ring is full.
    fn log(&mut self, message: LogMessage)
        ensures
            final(self).capacity() == old(self).capacity(),
            final(self).level() == old(self).level(),
            final(self).contents() == if message@.level.severity()
                < old(self).level().severity() {
                old(self).contents()
            } else if old(self).capacity() == 0 {
                old(self).contents()
            } else if old(self).contents().len() < old(self).capacity() {
                old(self).contents().push(message@)
            } else {
                old(self).contents().drop_first().push(message@)
            },
    {
        if message.level.at_least(&self.log_level) {
            log_ring_push(&mut self.log_messages, message);
        }
    }

    /// Changes the filter level.
    fn set_log_level(&mut self, level: Level)
        ensures
            final(self).level() == level,
            final(self).contents() == old(self).contents(),
            final(self).capacity() == old(self).capacity(),
    {
        self.log_level = level;
    }
}

} // verus!
