//! The per-host decision core: one unit's walk through
//! connect → authenticate → execute → stream-until-exit.
//!
//! The remote transport performs the waiting; this module decides. Every
//! event observed on a unit's execution channel is classified here: a data
//! event becomes a message tagged with the unit's own host identity, an exit
//! status is recorded but never stops the stream (output may still be in
//! flight after the remote process exited), and the stream is over only when
//! the channel itself reports no further events. A stream that ends without
//! ever reporting an exit status is a protocol violation and is reported as
//! such rather than passed over.

use vstd::prelude::*;

use crate::Msg;
use crate::errors::FleetError;

verus! {

/// One event observed on a session's execution channel, as handed over by
/// the transport: a fragment of remote output, the remote command's exit
/// status, or anything else (window adjustments and the like), which the
/// engine ignores.
#[derive(Debug, PartialEq, Eq)]
pub enum ChannelEvent {
    Data(Vec<u8>),
    ExitStatus(u32),
    Other,
}

/// The payloads of the data events of a stream, in stream order; data that
/// arrives after an exit status still counts.
pub open spec fn chunk_payloads(events: Seq<ChannelEvent>) -> Seq<Seq<u8>>
    decreases events.len(),
{
    if events.len() == 0 {
        Seq::empty()
    } else {
        let rest = chunk_payloads(events.drop_last());
        match events.last() {
            ChannelEvent::Data(d) => rest.push(d@),
            _ => rest,
        }
    }
}

/// The last exit status a stream reported, if it reported one at all.
pub open spec fn last_exit_status(events: Seq<ChannelEvent>) -> Option<u32>
    decreases events.len(),
{
    if events.len() == 0 {
        None::<u32>
    } else {
        match events.last() {
            ChannelEvent::ExitStatus(c) => Some(c),
            _ => last_exit_status(events.drop_last()),
        }
    }
}

/// The terminal outcome a unit owes once its stream is exhausted: the exit
/// status if one was observed, and a protocol-violation error otherwise.
pub open spec fn exit_result(status: Option<u32>) -> Result<u32, FleetError> {
    match status {
        Some(c) => Ok(c),
        None => Err(FleetError::IncompleteExecution),
    }
}

/// How a unit's connection attempt came out, as classified by the transport:
/// an authenticated session, a transport failure, or a rejected credential.
#[derive(Debug, Clone, Copy, PartialEq, Eq)]
pub enum ConnectOutcome {
    Connected,
    TransportFailed,
    AuthenticationRejected,
}

/// The decision after a connection attempt: proceed silently on success,
/// otherwise report the per-host error that ends this unit alone.
pub fn connect_decision(outcome: &ConnectOutcome) -> (r: Option<FleetError>)
    ensures
        match *outcome {
            ConnectOutcome::Connected => r is None,
            ConnectOutcome::TransportFailed => r == Some(FleetError::Connection),
            ConnectOutcome::AuthenticationRejected => r == Some(FleetError::Authentication),
        },
{
    match outcome {
        ConnectOutcome::Connected => None,
        ConnectOutcome::TransportFailed => Some(FleetError::Connection),
        ConnectOutcome::AuthenticationRejected => Some(FleetError::Authentication),
    }
}

/// The streaming state of one unit: the identity it tags its output with,
/// and the exit status observed so far.
pub struct Unit {
    pub id: String,
    pub exit_status: Option<u32>,
}

impl Unit {
    /// A fresh unit for the host with the given identity; no exit status yet.
    pub fn new(id: String) -> (u: Unit)
        ensures
            u.id == id,
            u.exit_status is None,
    {
        Unit { id, exit_status: None }
    }

    /// Classify one channel event.
    ///
    /// A data event is emitted at once as a message tagged with this unit's
    /// own identity and exactly the payload that arrived; an exit status is
    /// recorded (the last one wins) and the unit keeps draining; anything
    /// else changes nothing. No event ever ends the stream here: only the
    /// channel itself does, by reporting no further events.
    pub fn on_event(&mut self, event: &ChannelEvent) -> (emit: Option<Msg>)
        ensures
            final(self).id == old(self).id,
            match *event {
                ChannelEvent::Data(d) => final(self).exit_status == old(self).exit_status && (
                emit matches Some(Msg::Message(p)) && p.0@ == old(self).id@ && p.1@ == d@),
                ChannelEvent::ExitStatus(c) => final(self).exit_status == Some(c) && emit
                    is None,
                ChannelEvent::Other => final(self).exit_status == old(self).exit_status && emit
                    is None,
            },
    {
        match event {
            ChannelEvent::Data(d) => {
                let payload = d.clone();
                proof {
                    assert(payload@ =~= d@);
                }
                Some(Msg::Message((self.id.clone(), payload)))
            },
            ChannelEvent::ExitStatus(c) => {
                self.exit_status = Some(*c);
                None
            },
            ChannelEvent::Other => None,
        }
    }

    /// The unit's terminal outcome once its channel reported no further
    /// events: the recorded exit status, or the protocol-violation error if
    /// the stream ended without ever reporting one.
    pub fn finish(&self) -> (r: Result<u32, FleetError>)
        ensures
            r == exit_result(self.exit_status),
    {
        match self.exit_status {
            Some(c) => Ok(c),
            None => Err(FleetError::IncompleteExecution),
        }
    }
}

/// Drive one unit through a whole finite event stream.
///
/// The result carries every data payload of the stream, in stream order,
/// each tagged with the unit's identity — including payloads that arrived
/// after the exit status — together with the unit's terminal outcome.
pub fn drain_events(id: &String, events: &Vec<ChannelEvent>) -> (r: (
    Vec<Msg>,
    Result<u32, FleetError>,
))
    ensures
        r.0@.len() == chunk_payloads(events@).len(),
        forall|j: int|
            0 <= j < r.0@.len() ==> ((#[trigger] r.0@[j]) matches Msg::Message(p) && p.0@ == id@
                && p.1@ == chunk_payloads(events@)[j]),
        r.1 == exit_result(last_exit_status(events@)),
{
    let mut unit = Unit::new(id.clone());
    let mut out: Vec<Msg> = Vec::new();
    let mut i: usize = 0;
    while i < events.len()
        invariant
            i <= events.len(),
            unit.id@ == id@,
            unit.exit_status == last_exit_status(events@.take(i as int)),
            out@.len() == chunk_payloads(events@.take(i as int)).len(),
            forall|j: int|
                0 <= j < out@.len() ==> ((#[trigger] out@[j]) matches Msg::Message(p) && p.0@
                    == id@ && p.1@ == chunk_payloads(events@.take(i as int))[j]),
        decreases events.len() - i,
    {
        proof {
            assert(events@.take(i + 1).drop_last() =~= events@.take(i as int));
            assert(events@.take(i + 1).last() == events@[i as int]);
        }
        if let Some(m) = unit.on_event(&events[i]) {
            out.push(m);
        }
        i += 1;
    }
    proof {
        assert(events@.take(events@.len() as int) =~= events@);
    }
    let status = unit.finish();
    (out, status)
}

} // verus!
