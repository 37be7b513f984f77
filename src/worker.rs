//! The decisions of the background worker that drains the log queue.
//!
//! The worker keeps evaluated records in a buffer and decides, command by
//! command, when the buffer is handed out to be written. The thread, the
//! queue and the writing itself live outside this module: they feed each
//! command to [`Worker::step`] together with the time it was handled at, and
//! carry out the returned [`WorkerAction`].
use vstd::prelude::*;
use vstd::string::StringExecFns;
use vstd::utf8::encode_utf8;
use vstd::seq_lib::lemma_flatten_concat;
use crate::rolling_file::RollingConfig;

verus! {

/// Flush thresholds and where flushed text goes.
#[derive(Clone, Copy, Debug, PartialEq, Eq, Structural)]
pub struct WorkerSettings {
    /// Buffered bytes at which the buffer is flushed.
    pub buffer_threshold: usize,
    /// Nanoseconds since the last flush after which the buffer is flushed.
    pub flush_interval: u64,
    pub console_report: bool,
    pub file_report: bool,
}

/// A queue command whose deferred record, if it carries one, has been evaluated.
pub enum WorkerCommand {
    /// A record that is buffered and flushed when a threshold is met.
    Entry(String),
    /// A record that is buffered and flushed at once.
    FlushingEntry(String),
    /// Configure the output file.
    SetOutput(RollingConfig),
    /// Pin the worker thread to its core.
    PinWorkerCore,
    /// Flush the buffer now.
    ForceFlush,
    /// Flush the buffer, close the output and stop.
    Shutdown,
}

/// What the worker is to do after a command.
pub struct WorkerAction {
    /// Text taken out of the buffer, to be written where `to_file` and `to_console` say.
    pub output: Option<String>,
    pub to_file: bool,
    pub to_console: bool,
    /// Open a rolling file writer with this configuration.
    pub open_output: Option<RollingConfig>,
    /// Flush the file writer and sync its file.
    pub sync_output: bool,
    pub pin_core: bool,
    /// Leave the loop: nothing is handled after this.
    pub stop: bool,
}

pub struct ActionView {
    pub output: Option<Seq<char>>,
    pub to_file: bool,
    pub to_console: bool,
    pub open_output: Option<RollingConfig>,
    pub sync_output: bool,
    pub pin_core: bool,
    pub stop: bool,
}

impl View for WorkerAction {
    type V = ActionView;

    open spec fn view(&self) -> ActionView {
        ActionView {
            output: match self.output {
                Some(t) => Some(t@),
                None => None,
            },
            to_file: self.to_file,
            to_console: self.to_console,
            open_output: self.open_output,
            sync_output: self.sync_output,
            pin_core: self.pin_core,
            stop: self.stop,
        }
    }
}

/// The worker's state: its settings, the buffered records in arrival order,
/// the time of the last flush, whether an output file is configured, and
/// whether it has stopped.
pub struct WorkerView {
    pub settings: WorkerSettings,
    pub buffer: Seq<Seq<char>>,
    pub last_flush: u64,
    pub has_output: bool,
    pub terminated: bool,
}

/// Number of bytes of `text` in UTF-8.
pub open spec fn utf8_len(text: Seq<char>) -> nat {
    encode_utf8(text).len()
}

/// Bytes held by the records of `buffer`.
pub open spec fn buffered_bytes(buffer: Seq<Seq<char>>) -> nat
    decreases buffer.len(),
{
    if buffer.len() == 0 {
        0
    } else {
        buffered_bytes(buffer.drop_last()) + utf8_len(buffer.last())
    }
}

/// An entry is flushed when the buffer, with the entry appended, holds at
/// least the threshold of bytes, or when the flush interval has passed.
pub open spec fn entry_flushes(v: WorkerView, text: Seq<char>, now: u64) -> bool {
    buffered_bytes(v.buffer) + utf8_len(text) >= v.settings.buffer_threshold
        || now as int - v.last_flush as int >= v.settings.flush_interval
}

/// `v` with its buffer emptied at time `now`.
pub open spec fn flushed(v: WorkerView, now: u64) -> WorkerView {
    WorkerView { buffer: Seq::empty(), last_flush: now, ..v }
}

/// The state after `command` is handled at time `now`.
pub open spec fn next_state(v: WorkerView, command: WorkerCommand, now: u64) -> WorkerView {
    if v.terminated {
        v
    } else {
        match command {
            WorkerCommand::Entry(text) => {
                if entry_flushes(v, text@, now) {
                    flushed(v, now)
                } else {
                    WorkerView { buffer: v.buffer.push(text@), ..v }
                }
            },
            WorkerCommand::FlushingEntry(_) => flushed(v, now),
            WorkerCommand::SetOutput(_) => WorkerView { has_output: true, ..v },
            WorkerCommand::PinWorkerCore => v,
            WorkerCommand::ForceFlush => flushed(v, now),
            WorkerCommand::Shutdown => WorkerView { terminated: true, ..flushed(v, now) },
        }
    }
}

/// The action that makes no change.
pub open spec fn idle_action() -> ActionView {
    ActionView {
        output: None,
        to_file: false,
        to_console: false,
        open_output: None,
        sync_output: false,
        pin_core: false,
        stop: false,
    }
}

/// The action that hands out `text` as the flushed buffer.
pub open spec fn flush_action(v: WorkerView, text: Seq<char>) -> ActionView {
    ActionView {
        output: Some(text),
        to_file: v.settings.file_report && v.has_output,
        to_console: v.settings.console_report,
        ..idle_action()
    }
}

/// The action that the worker takes for `command` at time `now`.
pub open spec fn planned_action(v: WorkerView, command: WorkerCommand, now: u64) -> ActionView {
    if v.terminated {
        idle_action()
    } else {
        match command {
            WorkerCommand::Entry(text) => {
                if entry_flushes(v, text@, now) {
                    flush_action(v, v.buffer.push(text@).flatten())
                } else {
                    idle_action()
                }
            },
            WorkerCommand::FlushingEntry(text) => flush_action(v, v.buffer.push(text@).flatten()),
            WorkerCommand::SetOutput(config) => {
                if v.has_output {
                    ActionView { sync_output: true, ..idle_action() }
                } else {
                    ActionView { open_output: Some(config), ..idle_action() }
                }
            },
            WorkerCommand::PinWorkerCore => ActionView { pin_core: true, ..idle_action() },
            WorkerCommand::ForceFlush => ActionView {
                sync_output: v.settings.file_report && v.has_output,
                ..flush_action(v, v.buffer.flatten())
            },
            WorkerCommand::Shutdown => ActionView {
                sync_output: v.settings.file_report && v.has_output,
                stop: true,
                ..flush_action(v, v.buffer.flatten())
            },
        }
    }
}

/// The background worker's buffer and flush bookkeeping.
pub struct Worker {
    settings: WorkerSettings,
    fragments: Vec<String>,
    buffered: usize,
    last_flush: u64,
    has_output: bool,
    terminated: bool,
}

impl View for Worker {
    type V = WorkerView;

    closed spec fn view(&self) -> WorkerView {
        WorkerView {
            settings: self.settings,
            buffer: self.fragments@.map_values(|s: String| s@),
            last_flush: self.last_flush,
            has_output: self.has_output,
            terminated: self.terminated,
        }
    }
}

proof fn lemma_buffered_push(buffer: Seq<Seq<char>>, text: Seq<char>)
    ensures
        buffered_bytes(buffer.push(text)) == buffered_bytes(buffer) + utf8_len(text),
{
    assert(buffer.push(text).drop_last() =~= buffer);
}

impl Worker {
    /// The running byte count matches the buffered records.
    pub closed spec fn inv(&self) -> bool {
        self.buffered as nat == buffered_bytes(self@.buffer)
    }

    /// A worker with an empty buffer, no output file, last flushed at `now`.
    pub fn new(settings: WorkerSettings, now: u64) -> (w: Worker)
        ensures
            w.inv(),
            w@ == (WorkerView {
                settings,
                buffer: Seq::empty(),
                last_flush: now,
                has_output: false,
                terminated: false,
            }),
    {
        let w = Worker {
            settings,
            fragments: Vec::new(),
            buffered: 0,
            last_flush: now,
            has_output: false,
            terminated: false,
        };
        assert(w@.buffer =~= Seq::<Seq<char>>::empty());
        w
    }

    pub fn settings(&self) -> (r: WorkerSettings)
        ensures
            r == self@.settings,
    {
        self.settings
    }

    pub fn is_terminated(&self) -> (r: bool)
        ensures
            r == self@.terminated,
    {
        self.terminated
    }

    /// Number of bytes buffered.
    pub fn buffered_len(&self) -> (r: usize)
        requires
            self.inv(),
        ensures
            r == buffered_bytes(self@.buffer),
    {
        self.buffered
    }

    /// Joins the buffered records into one text and empties the buffer.
    fn take_buffer(&mut self, now: u64) -> (r: String)
        ensures
            r@ == old(self)@.buffer.flatten(),
            final(self)@ == flushed(old(self)@, now),
            final(self).inv(),
    {
        let mut out = String::new();
        let n = self.fragments.len();
        let mut i: usize = 0;
        while i < n
            invariant
                n == self.fragments@.len(),
                0 <= i <= n,
                out@ == self@.buffer.subrange(0, i as int).flatten(),
            decreases n - i,
        {
            out.append(self.fragments[i].as_str());
            proof {
                let b = self@.buffer;
                assert(b.subrange(0, i as int + 1) =~= b.subrange(0, i as int).push(b[i as int]));
                b.subrange(0, i as int).lemma_flatten_push(b[i as int]);
            }
            i = i + 1;
        }
        assert(self@.buffer.subrange(0, n as int) =~= self@.buffer);
        self.fragments.clear();
        self.buffered = 0;
        self.last_flush = now;
        assert(self@.buffer =~= Seq::<Seq<char>>::empty());
        out
    }

    /// Appends a record to the buffer without touching the byte count.
    fn push_record(&mut self, text: String)
        ensures
            final(self)@ == (WorkerView { buffer: old(self)@.buffer.push(text@), ..old(self)@ }),
            final(self).buffered == old(self).buffered,
    {
        self.fragments.push(text);
        assert(self@.buffer =~= old(self)@.buffer.push(text@));
    }

    fn flush_out(&self, text: String) -> (a: WorkerAction)
        ensures
            a@ == flush_action(self@, text@),
    {
        WorkerAction {
            output: Some(text),
            to_file: self.settings.file_report && self.has_output,
            to_console: self.settings.console_report,
            open_output: None,
            sync_output: false,
            pin_core: false,
            stop: false,
        }
    }

    /// Handles `command` at time `now`.
    pub fn step(&mut self, command: WorkerCommand, now: u64) -> (a: WorkerAction)
        requires
            old(self).inv(),
        ensures
            final(self).inv(),
            final(self)@ == next_state(old(self)@, command, now),
            a@ == planned_action(old(self)@, command, now),
    {
        let ghost v = self@;
        let idle = WorkerAction {
            output: None,
            to_file: false,
            to_console: false,
            open_output: None,
            sync_output: false,
            pin_core: false,
            stop: false,
        };
        if self.terminated {
            return idle;
        }
        match command {
            WorkerCommand::Entry(text) => {
                let len = text.as_str().as_bytes().len();
                let total = self.buffered.saturating_add(len);
                let due_size = total >= self.settings.buffer_threshold;
                let due_time = now >= self.last_flush && now - self.last_flush
                    >= self.settings.flush_interval;
                proof {
                    lemma_buffered_push(v.buffer, text@);
                }
                self.push_record(text);
                if due_size || due_time {
                    let out = self.take_buffer(now);
                    self.flush_out(out)
                } else {
                    self.buffered = total;
                    idle
                }
            },
            WorkerCommand::FlushingEntry(text) => {
                self.push_record(text);
                let out = self.take_buffer(now);
                self.flush_out(out)
            },
            WorkerCommand::SetOutput(config) => {
                if self.has_output {
                    WorkerAction { sync_output: true, ..idle }
                } else {
                    self.has_output = true;
                    WorkerAction { open_output: Some(config), ..idle }
                }
            },
            WorkerCommand::PinWorkerCore => WorkerAction { pin_core: true, ..idle },
            WorkerCommand::ForceFlush => {
                let sync = self.settings.file_report && self.has_output;
                let out = self.take_buffer(now);
                WorkerAction {
                    output: Some(out),
                    to_file: sync,
                    to_console: self.settings.console_report,
                    sync_output: sync,
                    ..idle
                }
            },
            WorkerCommand::Shutdown => {
                let sync = self.settings.file_report && self.has_output;
                let out = self.take_buffer(now);
                self.terminated = true;
                WorkerAction {
                    output: Some(out),
                    to_file: sync,
                    to_console: self.settings.console_report,
                    sync_output: sync,
                    stop: true,
                    ..idle
                }
            },
        }
    }
}

// ---------------------------------------------------------------- laws

/// The text that handling `command` at `now` hands out to be written.
pub open spec fn flushed_text(v: WorkerView, command: WorkerCommand, now: u64) -> Seq<char> {
    match planned_action(v, command, now).output {
        Some(t) => t,
        None => Seq::empty(),
    }
}

/// The state after the commands of `s`, each with the time it is handled at.
pub open spec fn run_state(v: WorkerView, s: Seq<(WorkerCommand, u64)>) -> WorkerView
    decreases s.len(),
{
    if s.len() == 0 {
        v
    } else {
        run_state(next_state(v, s[0].0, s[0].1), s.drop_first())
    }
}

/// All text handed out while the commands of `s` are handled, in order.
pub open spec fn run_output(v: WorkerView, s: Seq<(WorkerCommand, u64)>) -> Seq<char>
    decreases s.len(),
{
    if s.len() == 0 {
        Seq::empty()
    } else {
        flushed_text(v, s[0].0, s[0].1) + run_output(next_state(v, s[0].0, s[0].1), s.drop_first())
    }
}

/// The records of `s` that come before its first `Shutdown`, in order.
pub open spec fn records_before_shutdown(s: Seq<(WorkerCommand, u64)>) -> Seq<Seq<char>>
    decreases s.len(),
{
    if s.len() == 0 {
        Seq::empty()
    } else {
        match s[0].0 {
            WorkerCommand::Entry(text) => seq![text@] + records_before_shutdown(s.drop_first()),
            WorkerCommand::FlushingEntry(text) => seq![text@] + records_before_shutdown(
                s.drop_first(),
            ),
            WorkerCommand::Shutdown => Seq::empty(),
            _ => records_before_shutdown(s.drop_first()),
        }
    }
}

pub open spec fn has_shutdown(s: Seq<(WorkerCommand, u64)>) -> bool {
    exists|i: int| 0 <= i < s.len() && (#[trigger] s[i]).0 is Shutdown
}

proof fn lemma_run_after_stop(v: WorkerView, s: Seq<(WorkerCommand, u64)>)
    requires
        v.terminated,
    ensures
        run_state(v, s) == v,
        run_output(v, s) == Seq::<char>::empty(),
    decreases s.len(),
{
    if s.len() > 0 {
        lemma_run_after_stop(v, s.drop_first());
        assert(run_output(v, s) =~= Seq::<char>::empty());
    }
}

proof fn lemma_flatten_single(text: Seq<char>)
    ensures
        seq![text].flatten() == text,
{
    seq![text].lemma_flatten_one_element();
}

/// Records leave the worker in the order they came, each once: what has been
/// handed out, followed by what is still buffered, is the buffer it started
/// with followed by every record received before a shutdown.
pub proof fn lemma_records_flushed_in_order(v: WorkerView, s: Seq<(WorkerCommand, u64)>)
    requires
        !v.terminated,
    ensures
        run_output(v, s) + run_state(v, s).buffer.flatten() == v.buffer.flatten()
            + records_before_shutdown(s).flatten(),
    decreases s.len(),
{
    if s.len() == 0 {
        assert(run_output(v, s) + v.buffer.flatten() =~= v.buffer.flatten()
            + records_before_shutdown(s).flatten());
    } else {
        let (c, now) = s[0];
        let w = next_state(v, c, now);
        let rest = s.drop_first();
        let out = flushed_text(v, c, now);
        match c {
            WorkerCommand::Shutdown => {
                lemma_run_after_stop(w, rest);
                assert(w.buffer.flatten() =~= Seq::<char>::empty());
                assert(run_output(v, s) + run_state(v, s).buffer.flatten() =~= v.buffer.flatten()
                    + records_before_shutdown(s).flatten());
            },
            _ => {
                lemma_records_flushed_in_order(w, rest);
                let tail = records_before_shutdown(rest).flatten();
                let r = run_output(w, rest) + run_state(w, rest).buffer.flatten();
                assert(r == w.buffer.flatten() + tail);
                match c {
                    WorkerCommand::Entry(text) => {
                        v.buffer.lemma_flatten_push(text@);
                        lemma_flatten_single(text@);
                        lemma_flatten_concat(seq![text@], records_before_shutdown(rest));
                        assert(out + r =~= v.buffer.flatten() + (text@ + tail));
                    },
                    WorkerCommand::FlushingEntry(text) => {
                        v.buffer.lemma_flatten_push(text@);
                        lemma_flatten_single(text@);
                        lemma_flatten_concat(seq![text@], records_before_shutdown(rest));
                        assert(out + r =~= v.buffer.flatten() + (text@ + tail));
                    },
                    WorkerCommand::ForceFlush => {
                        assert(out + r =~= v.buffer.flatten() + tail);
                    },
                    _ => {
                        assert(out + r =~= v.buffer.flatten() + tail);
                    },
                }
                assert(run_output(v, s) + run_state(v, s).buffer.flatten() =~= out + r);
            },
        }
    }
}

proof fn lemma_shutdown_empties(v: WorkerView, s: Seq<(WorkerCommand, u64)>)
    requires
        !v.terminated,
        has_shutdown(s),
    ensures
        run_state(v, s).terminated,
        run_state(v, s).buffer.len() == 0,
    decreases s.len(),
{
    let w = next_state(v, s[0].0, s[0].1);
    if s[0].0 is Shutdown {
        lemma_run_after_stop(w, s.drop_first());
    } else {
        let i = choose|i: int| 0 <= i < s.len() && (#[trigger] s[i]).0 is Shutdown;
        assert(s.drop_first()[i - 1] == s[i]);
        lemma_shutdown_empties(w, s.drop_first());
    }
}

/// Once a shutdown has been handled, every record received before it has
/// been handed out exactly once, in the order received, and nothing is left.
pub proof fn lemma_shutdown_flushes_all(v: WorkerView, s: Seq<(WorkerCommand, u64)>)
    requires
        !v.terminated,
        has_shutdown(s),
    ensures
        run_state(v, s).terminated,
        run_state(v, s).buffer.len() == 0,
        run_output(v, s) == v.buffer.flatten() + records_before_shutdown(s).flatten(),
{
    lemma_shutdown_empties(v, s);
    lemma_records_flushed_in_order(v, s);
    assert(run_state(v, s).buffer.flatten() =~= Seq::<char>::empty());
    assert(run_output(v, s) =~= run_output(v, s) + run_state(v, s).buffer.flatten());
}

/// While the flush interval has not passed, an entry is flushed exactly when
/// the buffered bytes with it reach the threshold, and a flush hands out
/// whole records: the buffer with the entry appended.
pub proof fn lemma_flush_at_threshold(v: WorkerView, text: String, now: u64)
    requires
        !v.terminated,
        (now as int - v.last_flush as int) < v.settings.flush_interval,
    ensures
        planned_action(v, WorkerCommand::Entry(text), now).output is Some
            <==> buffered_bytes(v.buffer) + utf8_len(text@) >= v.settings.buffer_threshold,
        planned_action(v, WorkerCommand::Entry(text), now).output is Some ==> planned_action(
            v,
            WorkerCommand::Entry(text),
            now,
        ).output == Some(v.buffer.push(text@).flatten()) && next_state(
            v,
            WorkerCommand::Entry(text),
            now,
        ).buffer.len() == 0,
        planned_action(v, WorkerCommand::Entry(text), now).output is None ==> next_state(
            v,
            WorkerCommand::Entry(text),
            now,
        ).buffer == v.buffer.push(text@),
        buffered_bytes(v.buffer.push(text@)) == buffered_bytes(v.buffer) + utf8_len(text@),
{
    lemma_buffered_push(v.buffer, text@);
}

} // verus!
