//! Answers to the HID class-specific control requests.

use vstd::prelude::*;

verus! {

/// Identifies which report a control request addresses, as the HID class
/// encodes it: an input, output or feature report with its report id.
#[derive(Clone, Copy, PartialEq, Eq, Structural, Debug)]
pub enum ReportId {
    In(u8),
    Out(u8),
    Feature(u8),
}

/// The status returned for a host-to-device (OUT) control transfer.
#[derive(Clone, Copy, PartialEq, Eq, Structural, Debug)]
pub enum OutResponse {
    Accepted,
    Rejected,
}

/// Answers GET_REPORT, SET_REPORT, SET_IDLE and GET_IDLE synchronously
/// inside the USB stack's dispatch context.
///
/// The responder is stateless: no request alters any stored value, so every
/// answer depends on the request alone. GET paths report "no data" and the
/// host falls back to its defaults; SET paths accept and discard.
pub struct ControlResponder {}

impl ControlResponder {
    pub fn new() -> ControlResponder {
        ControlResponder {}
    }

    /// GET_REPORT: the feature is not implemented, so there is never data to
    /// return — "no data", not an error, for every report id.
    pub fn get_report(&mut self, id: ReportId, buf: &mut Vec<u8>) -> (r: Option<usize>)
        ensures
            r is None,
            final(buf)@ == old(buf)@,
            *final(self) == *old(self),
    {
        let _ = id;
        None
    }

    /// SET_REPORT: unconditionally accepted, payload discarded. LED-state
    /// updates in particular are stored nowhere and drive no output.
    pub fn set_report(&mut self, id: ReportId, data: &Vec<u8>) -> (r: OutResponse)
        ensures
            r == OutResponse::Accepted,
            *final(self) == *old(self),
    {
        let _ = id;
        let _ = data;
        OutResponse::Accepted
    }

    /// SET_IDLE: the requested idle period is noted and nothing else changes.
    pub fn set_idle_ms(&mut self, id: Option<ReportId>, dur: u32)
        ensures
            *final(self) == *old(self),
    {
        let _ = id;
        let _ = dur;
    }

    /// GET_IDLE: not implemented — "no data" for every report id.
    pub fn get_idle_ms(&mut self, id: Option<ReportId>) -> (r: Option<u32>)
        ensures
            r is None,
            *final(self) == *old(self),
    {
        let _ = id;
        None
    }
}

} // verus!
