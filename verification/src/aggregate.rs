//! The single consumer of the delivery channel.
//!
//! The aggregator drains the channel in receipt order and renders every
//! message as a line attributed to its originating host. It stops exactly
//! when the channel reports closed (no sender left) or an explicit stop
//! marker arrives — never earlier, so no delivered output is dropped, and
//! never later, so it cannot hang once every producer is gone.

use vstd::prelude::*;
use vstd::string::StringExecFns;

use crate::Msg;

verus! {

/// The attribution label a rendered line starts with: `[identity] --> `.
pub open spec fn spec_label(id: Seq<char>) -> Seq<char> {
    seq!['['] + id + seq![']', ' ', '-', '-', '>', ' ']
}

/// Build the attribution label for one host identity.
pub fn render_label(id: &str) -> (s: String)
    ensures
        s@ == spec_label(id@),
{
    proof {
        reveal_strlit("[");
        reveal_strlit("] --> ");
    }
    let mut s = String::from_str("[");
    s.append(id);
    s.append("] --> ");
    proof {
        assert(s@ =~= spec_label(id@));
    }
    s
}

/// What the consumer loop does with one received entry: render a line for
/// the given host identity and payload, or stop.
#[derive(Debug, PartialEq, Eq)]
pub enum AggregateStep {
    Render(String, Vec<u8>),
    Stop,
}

/// One decision of the consumer loop.
///
/// `next` is what the channel handed over: `None` means the channel is
/// closed because every sender is gone. The loop stops exactly on a closed
/// channel or an explicit stop marker; every tagged message is rendered with
/// its identity and payload untouched.
pub fn aggregate_step(next: Option<Msg>) -> (r: AggregateStep)
    ensures
        match next {
            Some(Msg::Message(p)) => (r matches AggregateStep::Render(id, d) && id@ == p.0@ && d@
                == p.1@),
            Some(Msg::Exit) => r is Stop,
            None => r is Stop,
        },
{
    match next {
        Some(Msg::Message((id, data))) => AggregateStep::Render(id, data),
        Some(Msg::Exit) => AggregateStep::Stop,
        None => AggregateStep::Stop,
    }
}

/// Drain a whole finite run of the delivery channel.
///
/// The result holds one `(identity, payload)` line per tagged message of the
/// run, in receipt order and untouched, up to the first stop marker; the
/// drain neither stops early while messages are still pending nor goes on
/// past a stop marker. With no stop marker in the run — the usual case, the
/// channel just closes when every unit is done — every message is rendered.
pub fn drain(msgs: &Vec<Msg>) -> (out: Vec<(String, Vec<u8>)>)
    ensures
        out@.len() <= msgs@.len(),
        forall|j: int|
            0 <= j < out@.len() ==> ((#[trigger] msgs@[j]) matches Msg::Message(p) && out@[j].0@
                == p.0@ && out@[j].1@ == p.1@),
        out@.len() < msgs@.len() ==> msgs@[out@.len() as int] is Exit,
        (forall|j: int| 0 <= j < msgs@.len() ==> !((#[trigger] msgs@[j]) is Exit)) ==> out@.len()
            == msgs@.len(),
{
    let mut out: Vec<(String, Vec<u8>)> = Vec::new();
    let mut i: usize = 0;
    loop
        invariant_except_break
            i <= msgs@.len(),
            out@.len() == i,
            forall|j: int|
                0 <= j < i ==> ((#[trigger] msgs@[j]) matches Msg::Message(p) && out@[j].0@
                    == p.0@ && out@[j].1@ == p.1@),
        ensures
            out@.len() <= msgs@.len(),
            forall|j: int|
                0 <= j < out@.len() ==> ((#[trigger] msgs@[j]) matches Msg::Message(p)
                    && out@[j].0@ == p.0@ && out@[j].1@ == p.1@),
            out@.len() < msgs@.len() ==> msgs@[out@.len() as int] is Exit,
        decreases msgs@.len() - i,
    {
        if i == msgs.len() {
            break;
        }
        match &msgs[i] {
            Msg::Message((id, data)) => {
                let line = (id.clone(), data.clone());
                proof {
                    assert(line.1@ =~= msgs@[i as int]->Message_0.1@);
                }
                out.push(line);
            },
            Msg::Exit => {
                break;
            },
        }
        i += 1;
    }
    out
}

} // verus!
