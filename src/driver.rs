//! Decision logic of the driver loop.

use crate::message_log::{
    indices_increasing, log_push, BoundedMessageLog, CachedMessage, RawFrame, MESSAGE_LOG_CAPACITY,
};
use oze_canopen::interface::{CanOpenInfo, Connection};
use oze_canopen::proto::nmt::NmtCommandSpecifier;
use vstd::prelude::*;

verus! {

/// Whether the driver ingests frames, pauses, or terminates.
#[derive(Clone, Copy, Debug, PartialEq, Eq, Structural)]
pub enum ControlCommand {
    Stop,
    Kill,
    Process,
}

/// A request to put frames on the bus.
#[derive(Clone, Debug, PartialEq, Eq)]
pub enum WriteCommand {
    /// A SYNC message (identifier 0x080).
    SendSync,
    /// An NMT command to one node.
    SendNmt { node_id: u8, command: NmtCommandSpecifier },
    /// A raw frame; only the low eleven bits of the identifier are used.
    SendRaw { cob_id: u32, data: Vec<u8> },
    /// A process data object; on the wire the same as a raw frame.
    SendPdo { cob_id: u32, data: Vec<u8> },
    /// An emergency message from a node.
    SendEmcy { node_id: u8, error_code: u16, error_register: u8, data: [u8; 5] },
    /// An expedited SDO download (write of at most four bytes).
    SendSdoDownload { node_id: u8, index: u16, subindex: u8, data: Vec<u8> },
    /// Make TPDO1 of a node send its statusword on every SYNC.
    ConfigureTpdo1Statusword { node_id: u8 },
}

/// The snapshot the driver publishes after every iteration of its loop.
#[derive(Clone, Debug)]
pub struct State {
    pub can_name: String,
    pub bitrate: Option<u32>,
    pub data: BoundedMessageLog,
    pub info: CanOpenInfo,
    pub exit_signal: bool,
}

/// What the consumer asks of the driver: a command and the connection to use.
#[derive(Clone, Debug)]
pub struct Control {
    pub command: ControlCommand,
    pub connection: Connection,
}

/// The driver's state as plain values.
pub struct DriverView {
    pub command: ControlCommand,
    pub connection: Connection,
    pub can_name: Seq<char>,
    pub bitrate: Option<u32>,
    pub log: Seq<CachedMessage>,
    pub info: CanOpenInfo,
    pub exit_signal: bool,
    /// Sequence index the next ingested frame gets.
    pub next_index: int,
}

/// The driver's state after it adopts a newer control value, if one came.
pub open spec fn adopt_control(v: DriverView, update: Option<Control>) -> DriverView {
    match update {
        Some(c) => DriverView {
            command: c.command,
            connection: c.connection,
            can_name: c.connection.can_name@,
            bitrate: c.connection.bitrate,
            ..v
        },
        None => v,
    }
}

/// One iteration after the race of event sources: adopt a newer control
/// value, record the bus interface's info, and ingest the arrived frame only while the
/// command is `Process`.
pub open spec fn process_step(
    v: DriverView,
    rcv: Option<RawFrame>,
    update: Option<Control>,
    info: CanOpenInfo,
) -> DriverView {
    let a = DriverView { info, ..adopt_control(v, update) };
    match rcv {
        Some(frame) => if a.command == ControlCommand::Process {
            DriverView {
                log: log_push(a.log, CachedMessage { index: a.next_index as u64, frame }),
                next_index: a.next_index + 1,
                ..a
            }
        } else {
            a
        },
        None => a,
    }
}

/// The shutdown signal forces the `Kill` command.
pub open spec fn shutdown_step(v: DriverView) -> DriverView {
    DriverView { command: ControlCommand::Kill, ..v }
}

/// End of an iteration: under `Kill` the snapshot about to be published
/// carries the exit flag.
pub open spec fn finish_step(v: DriverView) -> DriverView {
    if v.command == ControlCommand::Kill {
        DriverView { exit_signal: true, ..v }
    } else {
        v
    }
}

/// The supervising state machine of the driver loop. The loop itself (racing
/// frame arrival, a 100 ms tick, the shutdown signal and the write queue, and
/// publishing each snapshot) runs outside and reports each outcome here.
pub struct Driver {
    state: State,
    control: Control,
    index: u64,
}

impl View for Driver {
    type V = DriverView;

    closed spec fn view(&self) -> DriverView {
        DriverView {
            command: self.control.command,
            connection: self.control.connection,
            can_name: self.state.can_name@,
            bitrate: self.state.bitrate,
            log: self.state.data@,
            info: self.state.info,
            exit_signal: self.state.exit_signal,
            next_index: self.index as int,
        }
    }
}

impl Driver {
    /// The log is within its capacity, its indices increase, and each is
    /// below the next index to hand out.
    pub closed spec fn wf(&self) -> bool {
        &&& self.state.data.wf()
        &&& indices_increasing(self.state.data@)
        &&& forall|i: int|
            0 <= i < self.state.data@.len() ==> (#[trigger] self.state.data@[i]).index
                < self.index
    }

    /// A driver in the state that `control` asks for, with an empty log.
    pub fn new(control: Control, info: CanOpenInfo) -> (r: Driver)
        ensures
            r.wf(),
            r@ == (DriverView {
                command: control.command,
                connection: control.connection,
                can_name: control.connection.can_name@,
                bitrate: control.connection.bitrate,
                log: Seq::empty(),
                info,
                exit_signal: false,
                next_index: 0,
            }),
    {
        let state = State {
            can_name: control.connection.can_name.clone(),
            bitrate: control.connection.bitrate,
            data: BoundedMessageLog::new(),
            info,
            exit_signal: false,
        };
        Driver { state, control, index: 0 }
    }

    /// The snapshot to publish. Its log is within capacity and its sequence
    /// indices increase from oldest to newest.
    pub fn state(&self) -> (r: &State)
        requires
            self.wf(),
        ensures
            r.data@.len() <= MESSAGE_LOG_CAPACITY,
            indices_increasing(r.data@),
            r.can_name@ == self@.can_name,
            r.bitrate == self@.bitrate,
            r.data@ == self@.log,
            r.info == self@.info,
            r.exit_signal == self@.exit_signal,
    {
        proof {
            self.state.data.lemma_within_capacity();
        }
        &self.state
    }

    /// The control value in force.
    pub fn control(&self) -> (r: &Control)
        ensures
            r.command == self@.command,
            r.connection == self@.connection,
    {
        &self.control
    }

    /// Sequence index the next ingested frame gets.
    pub fn next_index(&self) -> (r: u64)
        ensures
            r == self@.next_index,
    {
        self.index
    }

    /// The shutdown signal fired: the rest of the iteration is skipped and the
    /// loop terminates after this iteration's publish.
    pub fn shutdown(&mut self)
        requires
            old(self).wf(),
        ensures
            final(self).wf(),
            final(self)@ == shutdown_step(old(self)@),
    {
        self.control.command = ControlCommand::Kill;
    }

    /// The rest of an iteration once the race has resolved without the
    /// shutdown signal. `rcv` is the frame that arrived, if any; `update` the
    /// control value if it changed since last observed; `info` the bus interface's
    /// latest info.
    pub fn process(&mut self, rcv: Option<RawFrame>, update: Option<Control>, info: CanOpenInfo)
        requires
            old(self).wf(),
            old(self)@.next_index < u64::MAX,
        ensures
            final(self).wf(),
            final(self)@ == process_step(old(self)@, rcv, update, info),
    {
        if let Some(c) = update {
            self.state.can_name = c.connection.can_name.clone();
            self.state.bitrate = c.connection.bitrate;
            self.control = c;
        }
        self.state.info = info;
        match self.control.command {
            ControlCommand::Stop | ControlCommand::Kill => {
                return;
            },
            ControlCommand::Process => {},
        }
        if let Some(frame) = rcv {
            let m = CachedMessage { index: self.index, frame };
            let ghost before = self.state.data@;
            self.state.data.push(m);
            proof {
                let after = self.state.data@;
                assert forall|i: int| 0 <= i < after.len() implies (#[trigger] after[i]).index
                    <= self.index by {
                    if before.len() + 1 > MESSAGE_LOG_CAPACITY {
                        assert(after[i] == before.push(m)[i + 1]);
                    } else {
                        assert(after[i] == before.push(m)[i]);
                    }
                }
                assert forall|i: int, j: int| 0 <= i < j < after.len() implies after[i].index
                    < after[j].index by {
                    if before.len() + 1 > MESSAGE_LOG_CAPACITY {
                        assert(after[i] == before.push(m)[i + 1]);
                        assert(after[j] == before.push(m)[j + 1]);
                    } else {
                        assert(after[i] == before.push(m)[i]);
                        assert(after[j] == before.push(m)[j]);
                    }
                }
            }
            self.index = self.index + 1;
        }
    }

    /// Ends an iteration: under `Kill` the snapshot gets the exit flag. The
    /// result says whether the loop ends after publishing it.
    pub fn finish_iteration(&mut self) -> (exit: bool)
        requires
            old(self).wf(),
        ensures
            final(self).wf(),
            final(self)@ == finish_step(old(self)@),
            exit == (old(self)@.command == ControlCommand::Kill),
    {
        if self.control.command == ControlCommand::Kill {
            self.state.exit_signal = true;
        }
        self.control.command == ControlCommand::Kill
    }
}

/// A `Kill` command that arrives on the control channel stops ingestion at
/// once: the frame of that iteration is not logged, the snapshot published at
/// its end carries the exit flag, the loop ends after that publish, and no
/// later iteration without a new control value would ingest a frame.
pub proof fn lemma_kill_ends_loop(
    v: DriverView,
    rcv: Option<RawFrame>,
    c: Control,
    info: CanOpenInfo,
    later_rcv: Option<RawFrame>,
    later_info: CanOpenInfo,
)
    requires
        c.command == ControlCommand::Kill,
    ensures
        ({
            let p = process_step(v, rcv, Some(c), info);
            let f = finish_step(p);
            &&& p.log == v.log
            &&& p.next_index == v.next_index
            &&& p.command == ControlCommand::Kill
            &&& f.exit_signal
            &&& f.log == v.log
            &&& process_step(f, later_rcv, None, later_info).log == f.log
        }),
{
}

/// The shutdown signal ends the loop the same way: the snapshot published at
/// the end of that iteration carries the exit flag and the log is unchanged.
pub proof fn lemma_shutdown_ends_loop(v: DriverView)
    ensures
        finish_step(shutdown_step(v)).command == ControlCommand::Kill,
        finish_step(shutdown_step(v)).exit_signal,
        finish_step(shutdown_step(v)).log == v.log,
{
}

} // verus!
