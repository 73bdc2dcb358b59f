//! Types of the CANopen stack that the library carries, and the one fact it
//! takes from that stack about them.

use oze_canopen::interface::{CanOpenInfo, Connection};
use oze_canopen::proto::nmt::NmtCommandSpecifier;
use vstd::prelude::*;

verus! {

/// The NMT command specifiers; Verus sees the variants.
#[verifier::external_type_specification]
pub struct ExNmtCommandSpecifier(NmtCommandSpecifier);

/// Relies on the derived `Clone` of oze_canopen's `NmtCommandSpecifier`,
/// which is also `Copy`: the clone is the same variant.
pub assume_specification[ <NmtCommandSpecifier as Clone>::clone ](
    c: &NmtCommandSpecifier,
) -> (r: NmtCommandSpecifier)
    ensures
        r == *c,
;

/// Connection descriptor of the CAN interface: interface name and optional bit rate.
#[verifier::external_type_specification]
pub struct ExConnection(Connection);

/// Socket-open flags and bit counters of the CAN interface; carried, never read.
#[verifier::external_type_specification]
#[verifier::external_body]
pub struct ExCanOpenInfo(CanOpenInfo);

/// Relies on the derived `Clone` of oze_canopen's `Connection`: the name is
/// cloned and the bit rate copied.
pub assume_specification[ <Connection as Clone>::clone ](c: &Connection) -> (r: Connection)
    ensures
        r.can_name@ == c.can_name@,
        r.bitrate == c.bitrate,
;

/// Relies on the derived `Clone` of oze_canopen's `CanOpenInfo`, whose fields
/// are two flags and a counter, all copied.
pub assume_specification[ <CanOpenInfo as Clone>::clone ](i: &CanOpenInfo) -> (r: CanOpenInfo)
    ensures
        r == *i,
;

/// The command-specifier byte that the CANopen stack puts on the wire for each
/// NMT command.
pub open spec fn nmt_specifier_code(cs: NmtCommandSpecifier) -> u8 {
    match cs {
        NmtCommandSpecifier::StartRemoteNode => 0x01,
        NmtCommandSpecifier::StopRemoteNode => 0x02,
        NmtCommandSpecifier::EnterPreOperational => 0x80,
        NmtCommandSpecifier::ResetNode => 0x81,
        NmtCommandSpecifier::ResetCommunication => 0x82,
    }
}

/// Relies on the discriminants of oze_canopen's `NmtCommandSpecifier`
/// (0x01, 0x02, 0x80, 0x81, 0x82), which its binrw encoding writes as the
/// command byte of an NMT frame.
#[verifier::external_body]
pub(crate) fn nmt_command_code(cs: NmtCommandSpecifier) -> (r: u8)
    ensures
        r == nmt_specifier_code(cs),
{
    cs as u8
}

} // verus!
