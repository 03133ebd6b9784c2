//! The tunnel of a TCP link: a listener inside the guest, one connection at a time, relayed
//! to a port of the host.

use vstd::prelude::*;
use vstd::string::*;

use crate::text;

verus! {

/// How long to wait before the listener is started again after it served nobody.
pub const RESPAWN_BACKOFF_MS: u64 = 200;

/// How long a connection may be silent once it has carried data, in milliseconds.
pub const TARGET_IDLE_TIMEOUT_MS: u64 = 500;

/// How long the first data of a connection may take, in milliseconds.
pub const FIRST_BYTE_DEADLINE_MS: u64 = 10_000;

/// How long the guest's side of a connection may take to end after the other, in
/// milliseconds.
pub const GUEST_END_BUDGET_MS: u64 = 2_000;

/// How long to wait between two looks at the guest's side, in milliseconds.
pub const GUEST_END_POLL_MS: u64 = 20;

/// The command of the listener inside the guest.
pub fn listener_command(guest_port: u16) -> (cmd: Vec<String>)
    ensures
        text::texts(cmd@) == seq!["nc"@, "-l"@, "-p"@, text::decimal(guest_port as nat)],
{
    let mut cmd: Vec<String> = Vec::new();
    cmd.push("nc".to_owned());
    cmd.push("-l".to_owned());
    cmd.push("-p".to_owned());
    cmd.push(text::decimal_text(guest_port as u64));
    assert(text::texts(cmd@) =~= seq!["nc"@, "-l"@, "-p"@, text::decimal(guest_port as nat)]);
    cmd
}

/// How long to wait before the listener is started again: not at all after it served a
/// connection, and never where the tunnel is closed.
pub fn respawn_delay(closed: bool, served: bool) -> (delay_ms: Option<u64>)
    ensures
        delay_ms == (if !closed && !served {
            Some(RESPAWN_BACKOFF_MS)
        } else {
            None
        }),
        delay_ms is Some ==> delay_ms == Some(200u64),
{
    if !closed && !served {
        Some(RESPAWN_BACKOFF_MS)
    } else {
        None
    }
}

/// What a read from one side of a connection gave.
#[derive(Clone, Copy, Debug, PartialEq, Eq, Structural)]
pub enum ReadOutcome {
    /// So many bytes; none at the end of the stream.
    Data(usize),
    /// Nothing in the time that was allowed.
    TimedOut,
    /// An error.
    Failed,
}

/// What happened while one side of a connection was relayed to the other.
#[derive(Clone, Copy, Debug, PartialEq, Eq, Structural)]
pub enum PumpEvent {
    /// A read ended.
    Read(ReadOutcome),
    /// A write ended; whether all of it was written.
    Written(bool),
    /// A flush ended; whether it succeeded.
    Flushed(bool),
}

/// What is to be done while one side of a connection is relayed to the other.
#[derive(Clone, Copy, Debug, PartialEq, Eq, Structural)]
pub enum PumpStep {
    /// This side of the connection is done.
    Stop,
    /// Write the bytes that were read to the other side; `tighten` says to allow the reads less
    /// time from now on.
    Write { count: usize, tighten: bool },
    /// Flush what was written.
    Flush,
    /// Read again.
    Read,
}

/// What is to be done while one side of a connection is relayed to the other; `saw_data` is
/// whether a read gave data before. What a read gave is written and flushed before the next
/// read: bytes that lie in a buffer are bytes the other side may be waiting for.
pub open spec fn pump_step_spec(event: PumpEvent, saw_data: bool) -> PumpStep {
    match event {
        PumpEvent::Read(ReadOutcome::Data(count)) => if count == 0 {
            PumpStep::Stop
        } else {
            PumpStep::Write { count, tighten: !saw_data }
        },
        PumpEvent::Read(_) => PumpStep::Stop,
        PumpEvent::Written(done) => if done {
            PumpStep::Flush
        } else {
            PumpStep::Stop
        },
        PumpEvent::Flushed(done) => if done {
            PumpStep::Read
        } else {
            PumpStep::Stop
        },
    }
}

/// Decides what is to be done while one side of a connection is relayed to the other.
pub fn pump_step(event: PumpEvent, saw_data: bool) -> (step: PumpStep)
    ensures
        step == pump_step_spec(event, saw_data),
{
    match event {
        PumpEvent::Read(ReadOutcome::Data(count)) => {
            if count == 0 {
                PumpStep::Stop
            } else {
                PumpStep::Write { count, tighten: !saw_data }
            }
        },
        PumpEvent::Read(_) => PumpStep::Stop,
        PumpEvent::Written(done) => {
            if done {
                PumpStep::Flush
            } else {
                PumpStep::Stop
            }
        },
        PumpEvent::Flushed(done) => {
            if done {
                PumpStep::Read
            } else {
                PumpStep::Stop
            }
        },
    }
}

/// Whether an event is what comes of a step.
pub open spec fn comes_of(step: PumpStep, event: PumpEvent) -> bool {
    match step {
        PumpStep::Stop => false,
        PumpStep::Write { .. } => event is Written,
        PumpStep::Flush => event is Flushed,
        PumpStep::Read => event is Read,
    }
}

/// Whether events are those of a pump: it begins with a read, and does what it is told to
/// after each event. `saw_data` tells for each event whether data was seen before it.
pub open spec fn is_pumped(events: Seq<PumpEvent>, saw_data: Seq<bool>) -> bool {
    &&& saw_data.len() == events.len()
    &&& events.len() > 0 ==> events[0] is Read
    &&& forall|i: int|
        0 < i < events.len() ==> comes_of(
            pump_step_spec(events[i - 1], saw_data[i - 1]),
            #[trigger] events[i],
        )
}

/// The time that the next read is allowed, in milliseconds: long until the first data came,
/// so that a slow answer is not cut off, and short from then on.
pub fn read_timeout_ms(saw_data: bool) -> (timeout_ms: u64)
    ensures
        timeout_ms == (if saw_data {
            TARGET_IDLE_TIMEOUT_MS
        } else {
            FIRST_BYTE_DEADLINE_MS
        }),
        saw_data ==> timeout_ms == 500,
        !saw_data ==> timeout_ms == 10_000,
{
    if saw_data {
        TARGET_IDLE_TIMEOUT_MS
    } else {
        FIRST_BYTE_DEADLINE_MS
    }
}

/// What happened while one connection was served.
#[derive(Clone, Copy, Debug, PartialEq, Eq, Structural)]
pub enum ServeEvent {
    /// The first read from the listener gave so many bytes; none where the listener ended.
    FirstRead(usize),
    /// The first read from the listener failed.
    FirstReadFailed,
    /// The port of the host was reached.
    Connected,
    /// The port of the host was not reached.
    ConnectFailed,
    /// The host's side is done; whether the guest's side is, and the time since.
    GuestChecked { finished: bool, elapsed_ms: u64 },
}

/// What is to be done while one connection is served.
#[derive(Clone, Copy, Debug, PartialEq, Eq, Structural)]
pub enum ServeAction {
    /// Connect to the port of the host.
    Connect,
    /// Relay what either side sends, until the host's side is done.
    Relay,
    /// Wait, then look at the guest's side again.
    Wait,
    /// The connection is over: whether to kill the listener, and whether it served anybody.
    End { kill: bool, served: bool },
}

/// What is to be done while one connection is served. The port of the host is reached only
/// once the guest has sent something, so that an idle listener holds no connection.
pub open spec fn serve_step_spec(event: ServeEvent) -> ServeAction {
    match event {
        ServeEvent::FirstRead(count) => if count == 0 {
            ServeAction::End { kill: true, served: false }
        } else {
            ServeAction::Connect
        },
        ServeEvent::FirstReadFailed => ServeAction::End { kill: false, served: false },
        ServeEvent::Connected => ServeAction::Relay,
        ServeEvent::ConnectFailed => ServeAction::End { kill: true, served: false },
        ServeEvent::GuestChecked { finished, elapsed_ms } => if finished || elapsed_ms
            >= GUEST_END_BUDGET_MS {
            ServeAction::End { kill: true, served: true }
        } else {
            ServeAction::Wait
        },
    }
}

/// Decides what is to be done while one connection is served.
pub fn serve_step(event: ServeEvent) -> (action: ServeAction)
    ensures
        action == serve_step_spec(event),
{
    match event {
        ServeEvent::FirstRead(count) => {
            if count == 0 {
                ServeAction::End { kill: true, served: false }
            } else {
                ServeAction::Connect
            }
        },
        ServeEvent::FirstReadFailed => ServeAction::End { kill: false, served: false },
        ServeEvent::Connected => ServeAction::Relay,
        ServeEvent::ConnectFailed => ServeAction::End { kill: true, served: false },
        ServeEvent::GuestChecked { finished, elapsed_ms } => {
            if finished || elapsed_ms >= GUEST_END_BUDGET_MS {
                ServeAction::End { kill: true, served: true }
            } else {
                ServeAction::Wait
            }
        },
    }
}

/// A connection that was served leaves no listener behind, and neither does one whose
/// listener ended early or whose port was not reached.
pub proof fn law_listener_does_not_outlive_its_connection(event: ServeEvent)
    requires
        event != ServeEvent::FirstReadFailed,
    ensures
        serve_step_spec(event) matches ServeAction::End { kill, .. } ==> kill,
{
}

/// The guest's side is waited for no longer than its time.
pub proof fn law_guest_wait_is_bounded(finished: bool, elapsed_ms: u64)
    requires
        elapsed_ms >= GUEST_END_BUDGET_MS,
    ensures
        serve_step_spec(ServeEvent::GuestChecked { finished, elapsed_ms }) is End,
{
}

/// The time is tightened by the first data and never again: once data was seen, no read asks
/// for it.
pub proof fn law_tightened_once(event: PumpEvent)
    ensures
        pump_step_spec(event, true) matches PumpStep::Write { tighten, .. } ==> !tighten,
        pump_step_spec(event, false) matches PumpStep::Write { tighten, .. } ==> tighten,
{
}

/// No read follows another before what the first gave was written, all of it, and then
/// flushed: every read of a pump but its first comes after a read that gave data, the write of
/// as many bytes, and a flush.
pub proof fn law_every_read_is_flushed(events: Seq<PumpEvent>, saw_data: Seq<bool>, at: int)
    requires
        is_pumped(events, saw_data),
        0 < at < events.len(),
        events[at] is Read,
    ensures
        at >= 3,
        events[at - 1] == PumpEvent::Flushed(true),
        events[at - 2] == PumpEvent::Written(true),
        events[at - 3] matches PumpEvent::Read(ReadOutcome::Data(count)) && count > 0
            && pump_step_spec(events[at - 3], saw_data[at - 3]) == (PumpStep::Write {
            count,
            tighten: !saw_data[at - 3],
        }),
{
    assert(comes_of(pump_step_spec(events[at - 1], saw_data[at - 1]), events[at]));
    assert(events[at - 1] == PumpEvent::Flushed(true));
    assert(comes_of(pump_step_spec(events[at - 2], saw_data[at - 2]), events[at - 1]));
    assert(events[at - 2] == PumpEvent::Written(true));
    assert(comes_of(pump_step_spec(events[at - 3], saw_data[at - 3]), events[at - 2]));
}

/// What a read gave is written in full, what was written is flushed, and what was flushed is
/// followed by a read; the time is tightened by the first data. The end of the stream, a read
/// without an answer, and any failure stop the pump.
pub proof fn law_what_a_pump_does(event: PumpEvent, saw_data: bool, count: usize)
    ensures
        count > 0 ==> pump_step_spec(PumpEvent::Read(ReadOutcome::Data(count)), saw_data)
            == (PumpStep::Write { count, tighten: !saw_data }),
        pump_step_spec(PumpEvent::Written(true), saw_data) == PumpStep::Flush,
        pump_step_spec(PumpEvent::Flushed(true), saw_data) == PumpStep::Read,
        pump_step_spec(event, saw_data) == PumpStep::Stop <==> (event == PumpEvent::Read(
            ReadOutcome::Data(0),
        ) || event == PumpEvent::Read(ReadOutcome::TimedOut) || event == PumpEvent::Read(
            ReadOutcome::Failed,
        ) || event == PumpEvent::Written(false) || event == PumpEvent::Flushed(false)),
{
}

/// A connection to the host is made once the guest has sent something, and relayed once it
/// stands. A listener that ended, or whose port was not reached, served nobody and is killed;
/// one that could not be read served nobody. Where the host's side is done, the guest's side
/// has two seconds to end.
pub proof fn law_how_a_connection_is_served(count: usize, finished: bool, elapsed_ms: u64)
    ensures
        count > 0 ==> serve_step_spec(ServeEvent::FirstRead(count)) == ServeAction::Connect,
        serve_step_spec(ServeEvent::FirstRead(0)) == (ServeAction::End {
            kill: true,
            served: false,
        }),
        serve_step_spec(ServeEvent::FirstReadFailed) == (ServeAction::End {
            kill: false,
            served: false,
        }),
        serve_step_spec(ServeEvent::Connected) == ServeAction::Relay,
        serve_step_spec(ServeEvent::ConnectFailed) == (ServeAction::End {
            kill: true,
            served: false,
        }),
        ({
            let action = serve_step_spec(ServeEvent::GuestChecked { finished, elapsed_ms });
            &&& action == ServeAction::Wait <==> !finished && elapsed_ms < 2_000
            &&& action == (ServeAction::End { kill: true, served: true }) <==> finished
                || elapsed_ms >= 2_000
        }),
{
}

} // verus!
