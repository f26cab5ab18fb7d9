//! The boundary to the VT parser of the `vte` crate.

use crate::midseq::{seq_after, SeqState};
use crate::ops::{items_bytes, items_events, items_wf, VtItem};
use crate::params::params_view;
use crate::state::EventV;
use crate::stream::settled;
use crate::wellformed::event_wf;
use vstd::prelude::*;

verus! {

/// `vte::Parser`, the escape sequence state machine.
#[verifier::external_type_specification]
#[verifier::external_body]
pub struct ExParser<const N: usize>(vte::Parser<N>);

/// `vte::Params`, the parameters of a CSI sequence.
#[verifier::external_type_specification]
#[verifier::external_body]
pub struct ExParams(vte::Params);

/// A parsed event.
#[derive(Debug)]
pub enum VtEvent {
    /// A printable character.
    Print(char),
    /// A C0 or C1 control.
    Execute(u8),
    /// A CSI sequence.
    Csi {
        /// Parameters, each with its colon-separated values.
        params: Vec<Vec<u16>>,
        /// Intermediate bytes, private markers among them.
        intermediates: Vec<u8>,
        /// Final character.
        action: char,
    },
    /// An escape sequence.
    Esc {
        /// Final byte.
        byte: u8,
    },
    /// An OSC sequence.
    Osc {
        /// Semicolon-separated parameters.
        params: Vec<Vec<u8>>,
        /// Whether BEL ended it.
        bell: bool,
    },
}

/// What OSC parameters hold.
pub open spec fn osc_params_view(params: Seq<Vec<u8>>) -> Seq<Seq<u8>> {
    Seq::new(params.len(), |i: int| params[i]@)
}

impl View for VtEvent {
    type V = EventV;

    open spec fn view(&self) -> EventV {
        match self {
            VtEvent::Print(ch) => EventV::Print(*ch),
            VtEvent::Execute(byte) => EventV::Execute(*byte),
            VtEvent::Csi { params, intermediates, action } => EventV::Csi {
                params: params_view(params@),
                intermediates: intermediates@,
                action: *action,
            },
            VtEvent::Esc { byte } => EventV::Esc { byte: *byte },
            VtEvent::Osc { params, bell } => EventV::Osc {
                params: osc_params_view(params@),
                bell: *bell,
            },
        }
    }
}

/// What events hold, in order.
pub open spec fn vt_events_view(events: Seq<VtEvent>) -> Seq<EventV> {
    Seq::new(events.len(), |i: int| events[i]@)
}

/// The bytes that a parser has read since it was made.
pub uninterp spec fn vte_fed(parser: vte::Parser) -> Seq<u8>;

/// The events that a parser which has read `fed` reports while it reads
/// `bytes`.
pub uninterp spec fn vte_events(fed: Seq<u8>, bytes: Seq<u8>) -> Seq<EventV>;

/// The parameters that a `vte::Params` holds.
pub uninterp spec fn vte_params(params: vte::Params) -> Seq<Seq<u16>>;

/// `vte::Params::iter`: the values of each parameter, in order.
#[verifier::external_body]
fn params_to_vec(params: &vte::Params) -> (r: Vec<Vec<u16>>)
    ensures
        params_view(r@) == vte_params(*params),
{
    params.iter().map(|values| values.to_vec()).collect()
}

fn copy_bytes(bytes: &[u8]) -> (r: Vec<u8>)
    ensures
        r@ == bytes@,
{
    let mut r: Vec<u8> = Vec::new();
    r.extend_from_slice(bytes);
    assert(r@ =~= bytes@);
    r
}

/// What borrowed OSC parameters hold.
pub open spec fn osc_slices_view(params: Seq<&[u8]>) -> Seq<Seq<u8>> {
    Seq::new(params.len(), |i: int| params[i]@)
}

/// Collects what the parser reports.
struct EventSink {
    events: Vec<VtEvent>,
}

impl EventSink {
    /// What was reported so far, in order.
    pub closed spec fn reported(self) -> Seq<EventV> {
        vt_events_view(self.events@)
    }

    /// Appends an event.
    fn record(&mut self, event: VtEvent)
        ensures
            final(self).reported() == old(self).reported().push(event@),
    {
        self.events.push(event);
        assert(self.reported() =~= old(self).reported().push(event@));
    }
}

impl vte::Perform for EventSink {
    fn print(&mut self, ch: char)
        ensures
            final(self).reported() == old(self).reported().push(EventV::Print(ch)),
    {
        self.record(VtEvent::Print(ch));
    }

    fn execute(&mut self, byte: u8)
        ensures
            final(self).reported() == old(self).reported().push(EventV::Execute(byte)),
    {
        self.record(VtEvent::Execute(byte));
    }

    fn csi_dispatch(
        &mut self,
        params: &vte::Params,
        intermediates: &[u8],
        _ignore: bool,
        action: char,
    )
        ensures
            final(self).reported() == old(self).reported().push(
                (EventV::Csi {
                    params: vte_params(*params),
                    intermediates: intermediates@,
                    action,
                }),
            ),
    {
        self.record(
            VtEvent::Csi {
                params: params_to_vec(params),
                intermediates: copy_bytes(intermediates),
                action,
            },
        );
    }

    fn esc_dispatch(&mut self, _intermediates: &[u8], _ignore: bool, byte: u8)
        ensures
            final(self).reported() == old(self).reported().push((EventV::Esc { byte })),
    {
        self.record(VtEvent::Esc { byte });
    }

    fn osc_dispatch(&mut self, params: &[&[u8]], bell_terminated: bool)
        ensures
            final(self).reported() == old(self).reported().push(
                (EventV::Osc { params: osc_slices_view(params@), bell: bell_terminated }),
            ),
    {
        let mut copied: Vec<Vec<u8>> = Vec::new();
        let mut i: usize = 0;
        while i < params.len()
            invariant
                i <= params@.len(),
                copied@.len() == i,
                forall|j: int| 0 <= j < i ==> (#[trigger] copied@[j])@ == params@[j]@,
            decreases params@.len() - i,
        {
            copied.push(copy_bytes(params[i]));
            i = i + 1;
        }
        assert(osc_params_view(copied@) =~= osc_slices_view(params@));
        self.record(VtEvent::Osc { params: copied, bell: bell_terminated });
    }
}

/// `vte::Parser::new`: a parser that has read nothing.
#[verifier::external_body]
pub(crate) fn vte_new() -> (r: vte::Parser)
    ensures
        vte_fed(r) == Seq::<u8>::empty(),
{
    vte::Parser::new()
}

/// `vte::Parser::advance`: the events that the parser reports while it reads
/// `bytes`. The stream is cut only between characters, so that the parser never
/// keeps part of one; then:
///
/// - What is reported depends on the bytes read before and now, not on how the
///   stream was cut: reading a first part and then the rest reports the same.
/// - No control character is reported as text.
/// - At ground, plain items (see [`VtItem`]) are reported one by one.
#[verifier::external_body]
pub(crate) fn vte_advance(parser: &mut vte::Parser, bytes: &[u8]) -> (r: Vec<VtEvent>)
    requires
        settled(vte_fed(*old(parser))),
        settled(vte_fed(*old(parser)) + bytes@),
    ensures
        vte_fed(*final(parser)) == vte_fed(*old(parser)) + bytes@,
        vt_events_view(r@) == vte_events(vte_fed(*old(parser)), bytes@),
        forall|a: Seq<u8>, b: Seq<u8>|
            a + b == bytes@ && settled(vte_fed(*old(parser)) + a) ==> vt_events_view(r@)
                == #[trigger] vte_events(vte_fed(*old(parser)), a) + #[trigger] vte_events(
                vte_fed(*old(parser)) + a,
                b,
            ),
        forall|i: int| 0 <= i < r@.len() ==> event_wf((#[trigger] r@[i])@),
        forall|items: Seq<VtItem>|
            seq_after(SeqState::Ground, vte_fed(*old(parser))) == SeqState::Ground && items_wf(
                items,
            ) && bytes@ == #[trigger] items_bytes(items) ==> vt_events_view(r@) == items_events(
                items,
            ),
{
    let mut sink = EventSink { events: Vec::new() };
    parser.advance(&mut sink, bytes);
    sink.events
}

} // verus!
