//! Turns write requests into wire-ready CANopen frames.

use crate::canopen_types::{nmt_command_code, nmt_specifier_code};
use crate::driver::WriteCommand;
use oze_canopen::proto::nmt::NmtCommandSpecifier;
use vstd::prelude::*;

verus! {

/// Identifier of the SYNC object.
pub const SYNC_COB_ID: u16 = 0x080;

/// Identifier of NMT commands.
pub const NMT_COB_ID: u16 = 0x000;

/// Base identifier of emergency messages; the node id is added.
pub const EMCY_BASE_COB_ID: u16 = 0x080;

/// Base identifier of SDO requests from client to server; the node id is added.
pub const SDO_RX_BASE_COB_ID: u16 = 0x600;

/// Largest payload an expedited SDO download carries.
pub const SDO_EXPEDITED_MAX: usize = 4;

/// Pause after an NMT state transition of the TPDO configuration sequence.
pub const NMT_SETTLE_MS: u64 = 50;

/// Pause after an SDO write of the TPDO configuration sequence.
pub const SDO_SETTLE_MS: u64 = 10;

/// A frame ready to transmit.
#[derive(Clone, Debug, PartialEq, Eq)]
pub struct Frame {
    pub cob_id: u16,
    pub data: Vec<u8>,
}

/// A frame to send, and how long to wait after sending it before the next one.
#[derive(Clone, Debug, PartialEq, Eq)]
pub struct ScheduledFrame {
    pub frame: Frame,
    pub delay_after_ms: u64,
}

/// A frame to send with its pause, as plain values.
pub type FramePlan = (u16, Seq<u8>, u64);

impl View for ScheduledFrame {
    type V = FramePlan;

    open spec fn view(&self) -> FramePlan {
        (self.frame.cob_id, self.frame.data@, self.delay_after_ms)
    }
}

/// Why a write request produced no frame.
#[derive(Clone, Copy, Debug, PartialEq, Eq)]
pub enum EncodeError {
    /// The SDO payload is longer than an expedited transfer carries.
    SegmentedTransferUnsupported { len: usize },
}

/// Little-endian bytes of a 16-bit value.
pub open spec fn le_u16(v: u16) -> Seq<u8> {
    seq![(v & 0xff) as u8, (v >> 8u16) as u8]
}

/// Little-endian bytes of a 32-bit value.
pub open spec fn le_u32(v: u32) -> Seq<u8> {
    seq![
        (v & 0xff) as u8,
        ((v >> 8u32) & 0xff) as u8,
        ((v >> 16u32) & 0xff) as u8,
        (v >> 24u32) as u8,
    ]
}

/// Command byte of an expedited SDO download of `len` bytes (`len <= 4`):
/// expedited, size indicated, and `4 - len` unused bytes.
pub open spec fn sdo_download_command(len: nat) -> u8 {
    0x20u8 | (((4 - len) as u8) << 2u8) | 0x03u8
}

/// `n` zero bytes.
pub open spec fn zeros(n: nat) -> Seq<u8> {
    Seq::new(n, |i: int| 0u8)
}

/// Payload of an expedited SDO download: command byte, index (little
/// endian), subindex, the data, and zero padding to eight bytes.
pub open spec fn sdo_download_payload(index: u16, subindex: u8, data: Seq<u8>) -> Seq<u8> {
    seq![sdo_download_command(data.len())] + le_u16(index) + seq![subindex] + data + zeros(
        (4 - data.len()) as nat,
    )
}

/// Payload of an emergency message: error code (little endian), error
/// register, five manufacturer bytes.
pub open spec fn emcy_payload(error_code: u16, error_register: u8, data: Seq<u8>) -> Seq<u8> {
    le_u16(error_code) + seq![error_register] + data
}

/// An SDO download to `node` as a frame plan with the given pause.
pub open spec fn sdo_plan(node: u8, index: u16, subindex: u8, data: Seq<u8>, delay: u64) -> FramePlan {
    ((0x600 + node) as u16, sdo_download_payload(index, subindex, data), delay)
}

/// An NMT command to `node` as a frame plan with the given pause.
pub open spec fn nmt_plan(node: u8, cs: NmtCommandSpecifier, delay: u64) -> FramePlan {
    (0u16, seq![nmt_specifier_code(cs), node], delay)
}

/// The eight steps that make TPDO1 of `node` send the statusword (0x6041)
/// on every SYNC.
pub open spec fn tpdo1_statusword_plan(node: u8) -> Seq<FramePlan> {
    seq![
        nmt_plan(node, NmtCommandSpecifier::EnterPreOperational, NMT_SETTLE_MS),
        sdo_plan(node, 0x1800, 0x01, le_u32((0x8000_0180 + node) as u32), SDO_SETTLE_MS),
        sdo_plan(node, 0x1A00, 0x00, seq![0x00u8], SDO_SETTLE_MS),
        sdo_plan(node, 0x1A00, 0x01, le_u32(0x6041_0020), SDO_SETTLE_MS),
        sdo_plan(node, 0x1A00, 0x00, seq![0x01u8], SDO_SETTLE_MS),
        sdo_plan(node, 0x1800, 0x01, le_u32((0x180 + node) as u32), SDO_SETTLE_MS),
        nmt_plan(node, NmtCommandSpecifier::StartRemoteNode, NMT_SETTLE_MS),
        sdo_plan(node, 0x1800, 0x02, seq![0x01u8], 0),
    ]
}

/// The frames a write request becomes, or `None` where it is rejected.
pub open spec fn write_command_plan(cmd: WriteCommand) -> Option<Seq<FramePlan>> {
    match cmd {
        WriteCommand::SendSync => Some(seq![(SYNC_COB_ID, Seq::<u8>::empty(), 0u64)]),
        WriteCommand::SendNmt { node_id, command } => Some(seq![nmt_plan(node_id, command, 0)]),
        WriteCommand::SendRaw { cob_id, data } => Some(
            seq![((cob_id & 0x7ff) as u16, data@, 0u64)],
        ),
        WriteCommand::SendPdo { cob_id, data } => Some(
            seq![((cob_id & 0x7ff) as u16, data@, 0u64)],
        ),
        WriteCommand::SendEmcy { node_id, error_code, error_register, data } => Some(
            seq![((0x080 + node_id) as u16, emcy_payload(error_code, error_register, data@), 0u64)],
        ),
        WriteCommand::SendSdoDownload { node_id, index, subindex, data } => {
            if data.len() <= SDO_EXPEDITED_MAX {
                Some(seq![sdo_plan(node_id, index, subindex, data@, 0)])
            } else {
                None
            }
        },
        WriteCommand::ConfigureTpdo1Statusword { node_id } => Some(
            tpdo1_statusword_plan(node_id),
        ),
    }
}

/// The scheduled frames `r` are exactly the plan `p`.
pub open spec fn frames_match(r: Seq<ScheduledFrame>, p: Seq<FramePlan>) -> bool {
    r.len() == p.len() && forall|i: int| 0 <= i < r.len() ==> #[trigger] r[i]@ == p[i]
}

fn push_le_u16(v: &mut Vec<u8>, x: u16)
    ensures
        final(v)@ == old(v)@ + le_u16(x),
{
    v.push((x & 0xff) as u8);
    v.push((x >> 8u16) as u8);
}

fn le_u32_bytes(x: u32) -> (r: Vec<u8>)
    ensures
        r@ == le_u32(x),
{
    let mut v: Vec<u8> = Vec::new();
    v.push((x & 0xff) as u8);
    v.push(((x >> 8u32) & 0xff) as u8);
    v.push(((x >> 16u32) & 0xff) as u8);
    v.push((x >> 24u32) as u8);
    assert(v@ =~= le_u32(x));
    v
}

/// The SYNC frame: identifier 0x080, empty payload.
pub fn encode_sync() -> (r: Frame)
    ensures
        r.cob_id == SYNC_COB_ID,
        r.data@ == Seq::<u8>::empty(),
{
    Frame { cob_id: SYNC_COB_ID, data: Vec::new() }
}

/// An NMT frame: identifier 0x000, payload `[command specifier, node id]`.
pub fn encode_nmt(node_id: u8, command: NmtCommandSpecifier) -> (r: Frame)
    ensures
        r.cob_id == NMT_COB_ID,
        r.data@ == seq![nmt_specifier_code(command), node_id],
{
    let mut data: Vec<u8> = Vec::new();
    data.push(nmt_command_code(command));
    data.push(node_id);
    assert(data@ =~= seq![nmt_specifier_code(command), node_id]);
    Frame { cob_id: NMT_COB_ID, data }
}

/// An emergency frame: identifier 0x080 + node id; error code (little
/// endian), error register, five manufacturer bytes.
pub fn encode_emcy(node_id: u8, error_code: u16, error_register: u8, data: [u8; 5]) -> (r: Frame)
    ensures
        r.cob_id == 0x080 + node_id,
        r.data@ == emcy_payload(error_code, error_register, data@),
{
    let mut payload: Vec<u8> = Vec::new();
    push_le_u16(&mut payload, error_code);
    payload.push(error_register);
    let mut i: usize = 0;
    while i < 5
        invariant
            i <= 5,
            payload@ == le_u16(error_code) + seq![error_register] + data@.take(i as int),
        decreases 5 - i,
    {
        payload.push(data[i]);
        i = i + 1;
        assert(data@.take(i as int) =~= data@.take(i - 1).push(data@[i - 1]));
    }
    assert(data@.take(5) =~= data@);
    Frame { cob_id: EMCY_BASE_COB_ID + node_id as u16, data: payload }
}

/// An expedited SDO download to `node_id`: identifier 0x600 + node id and an
/// eight-byte payload. Data longer than four bytes would need a segmented
/// transfer, which is not supported: no frame is produced then.
pub fn encode_sdo_download(node_id: u8, index: u16, subindex: u8, data: &[u8]) -> (r: Result<
    Frame,
    EncodeError,
>)
    ensures
        data@.len() <= SDO_EXPEDITED_MAX <==> r is Ok,
        r matches Ok(f) ==> f.cob_id == 0x600 + node_id && f.data@ == sdo_download_payload(
            index,
            subindex,
            data@,
        ),
        r matches Err(e) ==> e == (EncodeError::SegmentedTransferUnsupported { len: data@.len() as usize }),
{
    if data.len() > SDO_EXPEDITED_MAX {
        return Err(EncodeError::SegmentedTransferUnsupported { len: data.len() });
    }
    let n = (4 - data.len()) as u8;
    let mut payload: Vec<u8> = Vec::new();
    payload.push(0x20u8 | (n << 2u8) | 0x03u8);
    push_le_u16(&mut payload, index);
    payload.push(subindex);
    let ghost head = payload@;
    let mut i: usize = 0;
    while i < data.len()
        invariant
            i <= data@.len() <= 4,
            payload@ == head + data@.take(i as int),
            head.len() == 4,
        decreases data@.len() - i,
    {
        payload.push(data[i]);
        i = i + 1;
        assert(data@.take(i as int) =~= data@.take(i - 1).push(data@[i - 1]));
    }
    assert(data@.take(data@.len() as int) =~= data@);
    let ghost body = payload@;
    while payload.len() < 8
        invariant
            body.len() <= payload@.len() <= 8,
            body.len() == 4 + data@.len(),
            payload@ == body + zeros((payload@.len() - body.len()) as nat),
        decreases 8 - payload@.len(),
    {
        payload.push(0);
        assert(payload@ =~= body + zeros((payload@.len() - body.len()) as nat));
    }
    assert(payload@ =~= sdo_download_payload(index, subindex, data@));
    Ok(Frame { cob_id: SDO_RX_BASE_COB_ID + node_id as u16, data: payload })
}

fn scheduled(frame: Frame, delay_after_ms: u64) -> (r: ScheduledFrame)
    ensures
        r.frame == frame,
        r.delay_after_ms == delay_after_ms,
{
    ScheduledFrame { frame, delay_after_ms }
}

/// One step of a configuration sequence: an SDO write whose data is at most
/// four bytes, so that it always encodes.
fn push_sdo_step(
    plan: &mut Vec<ScheduledFrame>,
    node_id: u8,
    index: u16,
    subindex: u8,
    data: &[u8],
    delay: u64,
)
    requires
        data@.len() <= SDO_EXPEDITED_MAX,
    ensures
        final(plan)@.len() == old(plan)@.len() + 1,
        final(plan)@.drop_last() == old(plan)@,
        final(plan)@.last()@ == sdo_plan(node_id, index, subindex, data@, delay),
{
    match encode_sdo_download(node_id, index, subindex, data) {
        Ok(f) => plan.push(scheduled(f, delay)),
        Err(_) => {},
    }
    assert(plan@.drop_last() =~= old(plan)@);
}

fn push_nmt_step(plan: &mut Vec<ScheduledFrame>, node_id: u8, cs: NmtCommandSpecifier, delay: u64)
    ensures
        final(plan)@.len() == old(plan)@.len() + 1,
        final(plan)@.drop_last() == old(plan)@,
        final(plan)@.last()@ == nmt_plan(node_id, cs, delay),
{
    plan.push(scheduled(encode_nmt(node_id, cs), delay));
    assert(plan@.drop_last() =~= old(plan)@);
}

/// The eight-step sequence that configures TPDO1 of `node_id` to send the
/// statusword on every SYNC: pre-operational, disable the PDO, clear its
/// mapping, map 0x6041:00 (32 bits), set the mapping count to one, enable the
/// PDO, start the node, and select synchronous transmission on every SYNC.
/// Every step is meant to be sent even where an earlier one failed.
pub fn configure_tpdo1_statusword(node_id: u8) -> (r: Vec<ScheduledFrame>)
    ensures
        frames_match(r@, tpdo1_statusword_plan(node_id)),
{
    let mut plan: Vec<ScheduledFrame> = Vec::new();
    push_nmt_step(&mut plan, node_id, NmtCommandSpecifier::EnterPreOperational, NMT_SETTLE_MS);
    let disabled = le_u32_bytes(0x8000_0180u32 + node_id as u32);
    push_sdo_step(&mut plan, node_id, 0x1800, 0x01, disabled.as_slice(), SDO_SETTLE_MS);
    push_sdo_step(&mut plan, node_id, 0x1A00, 0x00, &[0x00u8], SDO_SETTLE_MS);
    let mapping = le_u32_bytes(0x6041_0020u32);
    push_sdo_step(&mut plan, node_id, 0x1A00, 0x01, mapping.as_slice(), SDO_SETTLE_MS);
    push_sdo_step(&mut plan, node_id, 0x1A00, 0x00, &[0x01u8], SDO_SETTLE_MS);
    let enabled = le_u32_bytes(0x0000_0180u32 + node_id as u32);
    push_sdo_step(&mut plan, node_id, 0x1800, 0x01, enabled.as_slice(), SDO_SETTLE_MS);
    push_nmt_step(&mut plan, node_id, NmtCommandSpecifier::StartRemoteNode, NMT_SETTLE_MS);
    push_sdo_step(&mut plan, node_id, 0x1800, 0x02, &[0x01u8], 0);
    let ghost p = tpdo1_statusword_plan(node_id);
    assert(plan@.len() == 8);
    assert(plan@[0]@ == p[0]);
    assert(plan@[1]@ == p[1]);
    assert(plan@[2]@ == p[2]);
    assert(plan@[3]@ == p[3]);
    assert(plan@[4]@ == p[4]);
    assert(plan@[5]@ == p[5]);
    assert(plan@[6]@ == p[6]);
    assert(plan@[7]@ == p[7]);
    plan
}

/// The frames that a write request puts on the bus, in order, each with the
/// pause that follows it. Only an SDO download of more than four bytes is
/// rejected, and it produces no frame.
pub fn encode_write_command(cmd: &WriteCommand) -> (r: Result<Vec<ScheduledFrame>, EncodeError>)
    ensures
        write_command_plan(*cmd) is None <==> r is Err,
        r matches Ok(v) ==> frames_match(v@, write_command_plan(*cmd).unwrap()),
        r matches Err(e) ==> cmd matches WriteCommand::SendSdoDownload { data, .. }
            && e == (EncodeError::SegmentedTransferUnsupported { len: data@.len() as usize }),
{
    let single = |f: Frame| -> (r: Vec<ScheduledFrame>)
        ensures
            r@.len() == 1,
            r@[0].frame == f,
            r@[0].delay_after_ms == 0,
        {
            let mut v: Vec<ScheduledFrame> = Vec::new();
            v.push(scheduled(f, 0));
            v
        };
    match cmd {
        WriteCommand::SendSync => Ok(single(encode_sync())),
        WriteCommand::SendNmt { node_id, command } => Ok(single(encode_nmt(*node_id, *command))),
        WriteCommand::SendRaw { cob_id, data } => Ok(
            single(Frame { cob_id: (*cob_id & 0x7ff) as u16, data: data.clone() }),
        ),
        WriteCommand::SendPdo { cob_id, data } => Ok(
            single(Frame { cob_id: (*cob_id & 0x7ff) as u16, data: data.clone() }),
        ),
        WriteCommand::SendEmcy { node_id, error_code, error_register, data } => Ok(
            single(encode_emcy(*node_id, *error_code, *error_register, *data)),
        ),
        WriteCommand::SendSdoDownload { node_id, index, subindex, data } => {
            match encode_sdo_download(*node_id, *index, *subindex, data.as_slice()) {
                Ok(f) => Ok(single(f)),
                Err(e) => Err(e),
            }
        },
        WriteCommand::ConfigureTpdo1Statusword { node_id } => Ok(
            configure_tpdo1_statusword(*node_id),
        ),
    }
}

} // verus!
