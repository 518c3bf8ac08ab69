//! Error taxonomy of the fast path and the packet decoder status codes.

use vstd::prelude::*;

verus! {

/// One kind per situation on the fast path; every kind terminates the
/// packet with a drop unless the handler states otherwise.
#[derive(Debug, Clone, Copy, PartialEq, Eq, Structural)]
pub enum XlbErr {
    ErrParseHdrEth,
    ErrParseHdrIp,
    ErrParseHdrProto,
    /// An attempt was made to perform some operation that does not
    /// apply, e.g. rst to a udp packet.
    ErrInvalidOp,
    ErrNotYetImpl,
    ErrInvalidIpVal,
    /// A syn was received when not expected, e.g. from a backend.
    ErrUnexpectedSyn,
    /// No available backends.
    ErrNoBackends,
    /// Fib iface lookup failed finding an egress interface to reach
    /// the backend ip address.
    ErrFibLookupFailed,
    /// Flow looks like an active connection but was not in the flow
    /// map. Likely a valid conn so inactive it was pruned as an orphan.
    ErrOrphanedFlow,
    /// Failed to insert a flow into the map.
    ErrMapInsertFailed,
    /// Unable to find an available ephemeral port.
    ErrNoEphemeralPorts,
}

impl XlbErr {
    /// Short label for logs and counters: the kind's own name.
    pub fn label(&self) -> (r: &'static str)
        ensures
            r@ == (match self {
                XlbErr::ErrParseHdrEth => "ErrParseHdrEth"@,
                XlbErr::ErrParseHdrIp => "ErrParseHdrIp"@,
                XlbErr::ErrParseHdrProto => "ErrParseHdrProto"@,
                XlbErr::ErrInvalidOp => "ErrInvalidOp"@,
                XlbErr::ErrNotYetImpl => "ErrNotYetImpl"@,
                XlbErr::ErrInvalidIpVal => "ErrInvalidIpVal"@,
                XlbErr::ErrUnexpectedSyn => "ErrUnexpectedSyn"@,
                XlbErr::ErrNoBackends => "ErrNoBackends"@,
                XlbErr::ErrFibLookupFailed => "ErrFibLookupFailed"@,
                XlbErr::ErrOrphanedFlow => "ErrOrphanedFlow"@,
                XlbErr::ErrMapInsertFailed => "ErrMapInsertFailed"@,
                XlbErr::ErrNoEphemeralPorts => "ErrNoEphemeralPorts"@,
            }),
    {
        match self {
            XlbErr::ErrParseHdrEth => "ErrParseHdrEth",
            XlbErr::ErrParseHdrIp => "ErrParseHdrIp",
            XlbErr::ErrParseHdrProto => "ErrParseHdrProto",
            XlbErr::ErrInvalidOp => "ErrInvalidOp",
            XlbErr::ErrNotYetImpl => "ErrNotYetImpl",
            XlbErr::ErrInvalidIpVal => "ErrInvalidIpVal",
            XlbErr::ErrUnexpectedSyn => "ErrUnexpectedSyn",
            XlbErr::ErrNoBackends => "ErrNoBackends",
            XlbErr::ErrFibLookupFailed => "ErrFibLookupFailed",
            XlbErr::ErrOrphanedFlow => "ErrOrphanedFlow",
            XlbErr::ErrMapInsertFailed => "ErrMapInsertFailed",
            XlbErr::ErrNoEphemeralPorts => "ErrNoEphemeralPorts",
        }
    }
}

/// Status of decoding alone, used where a failed parse must be told
/// apart from a packet that is simply not ours.
#[derive(Debug, Clone, Copy, PartialEq, Eq, Structural)]
pub enum XlbStatus {
    Valid,
    ErrParseHdrEth,
    ErrParseHdrIp,
    ErrParseHdrProto,
}

} // verus!
