//! Typed passthrough event stream for sequences the grid does not render.

use crate::bytes::{push_bytes, push_text};
use vstd::prelude::*;
use vstd::utf8::encode_utf8;

verus! {

/// A typed passthrough event produced by escape sequences that must be
/// handled outside the grid (OSC, mode changes, scrollback control, focus).
#[derive(Debug, Clone, PartialEq, Eq)]
pub enum PassthroughEvent {
    /// OSC 0 / OSC 2: window title change.
    TitleChanged(String),
    /// OSC 1: window icon name change.
    IconNameChanged(String),
    /// OSC 52: clipboard write. Carries the full payload after the OSC code —
    /// `<selection>;<base64>` (e.g. `c;SGVsbG8=`) — so `encode` can reproduce
    /// the exact `\x1b]52;<payload>\x07` the program emitted.
    ClipboardWrite(String),
    /// OSC 7: current working directory (URI).
    CwdChanged(String),
    /// OSC 9 / OSC 99: desktop notification.
    Notification(String),
    /// CSI `?1h` / `?1l`: application cursor keys mode.
    ApplicationCursorKeys(bool),
    /// CSI `?1004h` / `?1004l`: focus events enable/disable.
    FocusEvents(bool),
    /// CSI `?2004h` / `?2004l`: bracketed paste enable/disable.
    BracketedPaste(bool),
    /// BEL: one event per byte.
    Bell,
    /// OSC 8: clickable hyperlink (id, uri).
    ///
    /// `id` is the link id (empty = anonymous), `uri` is the target URI.
    /// An empty `uri` ends the hyperlink (equivalent to OSC 8;;ST). The grid
    /// keeps hyperlinks as cell metadata and does not emit this event itself.
    Hyperlink {
        /// OSC 8 link id (empty = anonymous).
        id: String,
        /// Target URI; empty ends the hyperlink.
        uri: String,
    },
    /// Allowlisted unhandled CSI — forwarded raw for passthrough. Only the
    /// documented allowlist reaches the client this way (kitty keyboard
    /// push/pop, xterm modifyOtherKeys); everything else becomes
    /// [`PassthroughEvent::DroppedCsi`].
    UnhandledCsi(Vec<u8>),
    /// Default-denied CSI: not handled by the grid and not on the forward
    /// allowlist. Carried out so that the exact bytes can be logged; never
    /// encoded for the client.
    DroppedCsi(Vec<u8>),
    /// Reply to a device/mode query (DA, DSR, DECRQM, kitty-keyboard query)
    /// the emulator answered itself. The bytes go back to the program's PTY
    /// stdin, never to the outer terminal.
    Reply(Vec<u8>),
    /// Clear the scrollback buffer (CSI 3J).
    ScrollbackClear,
}

/// What a [`PassthroughEvent`] holds.
#[verifier::ext_equal]
pub enum PassV {
    TitleChanged(Seq<char>),
    IconNameChanged(Seq<char>),
    ClipboardWrite(Seq<char>),
    CwdChanged(Seq<char>),
    Notification(Seq<char>),
    ApplicationCursorKeys(bool),
    FocusEvents(bool),
    BracketedPaste(bool),
    Bell,
    Hyperlink { id: Seq<char>, uri: Seq<char> },
    UnhandledCsi(Seq<u8>),
    DroppedCsi(Seq<u8>),
    Reply(Seq<u8>),
    ScrollbackClear,
}

impl View for PassthroughEvent {
    type V = PassV;

    open spec fn view(&self) -> PassV {
        match self {
            PassthroughEvent::TitleChanged(s) => PassV::TitleChanged(s@),
            PassthroughEvent::IconNameChanged(s) => PassV::IconNameChanged(s@),
            PassthroughEvent::ClipboardWrite(s) => PassV::ClipboardWrite(s@),
            PassthroughEvent::CwdChanged(s) => PassV::CwdChanged(s@),
            PassthroughEvent::Notification(s) => PassV::Notification(s@),
            PassthroughEvent::ApplicationCursorKeys(on) => PassV::ApplicationCursorKeys(*on),
            PassthroughEvent::FocusEvents(on) => PassV::FocusEvents(*on),
            PassthroughEvent::BracketedPaste(on) => PassV::BracketedPaste(*on),
            PassthroughEvent::Bell => PassV::Bell,
            PassthroughEvent::Hyperlink { id, uri } => PassV::Hyperlink { id: id@, uri: uri@ },
            PassthroughEvent::UnhandledCsi(b) => PassV::UnhandledCsi(b@),
            PassthroughEvent::DroppedCsi(b) => PassV::DroppedCsi(b@),
            PassthroughEvent::Reply(b) => PassV::Reply(b@),
            PassthroughEvent::ScrollbackClear => PassV::ScrollbackClear,
        }
    }
}

/// The bytes that carry an event to an outer terminal, if it goes there.
pub open spec fn encoded(e: PassV) -> Option<Seq<u8>> {
    match e {
        PassV::TitleChanged(s) => Some(osc("\x1b]0;"@, s)),
        PassV::IconNameChanged(s) => Some(osc("\x1b]1;"@, s)),
        PassV::ClipboardWrite(s) => Some(osc("\x1b]52;"@, s)),
        PassV::CwdChanged(s) => Some(osc("\x1b]7;"@, s)),
        PassV::Notification(s) => Some(osc("\x1b]9;"@, s)),
        PassV::ApplicationCursorKeys(on) => Some(
            encode_utf8(
                if on {
                    "\x1b[?1h"@
                } else {
                    "\x1b[?1l"@
                },
            ),
        ),
        PassV::FocusEvents(on) => Some(
            encode_utf8(
                if on {
                    "\x1b[?1004h"@
                } else {
                    "\x1b[?1004l"@
                },
            ),
        ),
        PassV::BracketedPaste(on) => Some(
            encode_utf8(
                if on {
                    "\x1b[?2004h"@
                } else {
                    "\x1b[?2004l"@
                },
            ),
        ),
        PassV::Bell => Some(seq![0x07u8]),
        PassV::Hyperlink { id, uri } => if uri.len() == 0 {
            Some(encode_utf8("\x1b]8;;\x07"@))
        } else {
            Some(
                encode_utf8("\x1b]8;"@) + encode_utf8(id) + encode_utf8(";"@) + encode_utf8(uri)
                    + encode_utf8("\x07"@),
            )
        },
        PassV::UnhandledCsi(b) => Some(b),
        PassV::DroppedCsi(_) => None,
        PassV::Reply(_) => None,
        PassV::ScrollbackClear => None,
    }
}

/// An OSC sequence: its opening, its payload, and the BEL that ends it.
pub open spec fn osc(opening: Seq<char>, payload: Seq<char>) -> Seq<u8> {
    encode_utf8(opening) + encode_utf8(payload) + encode_utf8("\x07"@)
}

fn osc_bytes(opening: &str, payload: &String) -> (r: Vec<u8>)
    ensures
        r@ == osc(opening@, payload@),
{
    let mut out: Vec<u8> = Vec::new();
    push_text(&mut out, opening);
    push_text(&mut out, payload.as_str());
    push_text(&mut out, "\x07");
    assert(out@ =~= osc(opening@, payload@));
    out
}

fn text_bytes(text: &str) -> (r: Vec<u8>)
    ensures
        r@ == encode_utf8(text@),
{
    let mut out: Vec<u8> = Vec::new();
    push_text(&mut out, text);
    assert(out@ =~= encode_utf8(text@));
    out
}

impl PassthroughEvent {
    /// Encode the event as a raw ANSI/OSC byte sequence for forwarding to an
    /// outer terminal.
    ///
    /// `ScrollbackClear`, `Reply` and `DroppedCsi` have no outer-terminal
    /// representation and return `None`.
    #[must_use]
    pub fn encode(&self) -> (r: Option<Vec<u8>>)
        ensures
            match r {
                Some(bytes) => encoded(self@) == Some(bytes@),
                None => encoded(self@) is None,
            },
    {
        match self {
            PassthroughEvent::TitleChanged(title) => Some(osc_bytes("\x1b]0;", title)),
            PassthroughEvent::IconNameChanged(name) => Some(osc_bytes("\x1b]1;", name)),
            PassthroughEvent::ClipboardWrite(payload) => Some(osc_bytes("\x1b]52;", payload)),
            PassthroughEvent::CwdChanged(uri) => Some(osc_bytes("\x1b]7;", uri)),
            PassthroughEvent::Notification(msg) => Some(osc_bytes("\x1b]9;", msg)),
            PassthroughEvent::ApplicationCursorKeys(on) => Some(
                text_bytes(
                    if *on {
                        "\x1b[?1h"
                    } else {
                        "\x1b[?1l"
                    },
                ),
            ),
            PassthroughEvent::FocusEvents(on) => Some(
                text_bytes(
                    if *on {
                        "\x1b[?1004h"
                    } else {
                        "\x1b[?1004l"
                    },
                ),
            ),
            PassthroughEvent::BracketedPaste(on) => Some(
                text_bytes(
                    if *on {
                        "\x1b[?2004h"
                    } else {
                        "\x1b[?2004l"
                    },
                ),
            ),
            PassthroughEvent::Bell => {
                let bell: Vec<u8> = vec![0x07];
                assert(bell@ =~= seq![0x07u8]);
                Some(bell)
            },
            PassthroughEvent::Hyperlink { id, uri } => {
                if uri.as_str().is_empty() {
                    proof {
                        vstd::utf8::encode_utf8_decode_utf8(uri@);
                    }
                    Some(text_bytes("\x1b]8;;\x07"))
                } else {
                    proof {
                        if uri@.len() == 0 {
                            assert(uri@ =~= Seq::empty());
                        }
                    }
                    let mut out: Vec<u8> = Vec::new();
                    push_text(&mut out, "\x1b]8;");
                    push_text(&mut out, id.as_str());
                    push_text(&mut out, ";");
                    push_text(&mut out, uri.as_str());
                    push_text(&mut out, "\x07");
                    assert(out@ =~= encode_utf8("\x1b]8;"@) + encode_utf8(id@) + encode_utf8(";"@)
                        + encode_utf8(uri@) + encode_utf8("\x07"@));
                    Some(out)
                }
            },
            PassthroughEvent::UnhandledCsi(bytes) => {
                let mut out: Vec<u8> = Vec::new();
                push_bytes(&mut out, bytes.as_slice());
                assert(out@ =~= bytes@);
                Some(out)
            },
            PassthroughEvent::DroppedCsi(_) => None,
            PassthroughEvent::Reply(_) => None,
            PassthroughEvent::ScrollbackClear => None,
        }
    }
}

/// What a list of events holds, in order.
pub open spec fn events_view(events: Seq<PassthroughEvent>) -> Seq<PassV> {
    Seq::new(events.len(), |i: int| events[i]@)
}

/// Collects `PassthroughEvent`s during a `process()` call.
#[derive(Debug)]
pub struct PassthroughBuffer {
    events: Vec<PassthroughEvent>,
}

impl View for PassthroughBuffer {
    type V = Seq<PassV>;

    closed spec fn view(&self) -> Seq<PassV> {
        events_view(self.events@)
    }
}

impl Default for PassthroughBuffer {
    fn default() -> (r: Self)
        ensures
            r@ == Seq::<PassV>::empty(),
    {
        let r = PassthroughBuffer { events: Vec::new() };
        assert(r@ =~= Seq::empty());
        r
    }
}

impl PassthroughBuffer {
    /// Drain and return all buffered events, oldest first.
    pub fn drain(&mut self) -> (r: Vec<PassthroughEvent>)
        ensures
            events_view(r@) == old(self)@,
            final(self)@ == Seq::<PassV>::empty(),
    {
        let mut events: Vec<PassthroughEvent> = Vec::new();
        std::mem::swap(&mut events, &mut self.events);
        assert(self@ =~= Seq::empty());
        events
    }

    pub(crate) fn push(&mut self, event: PassthroughEvent)
        ensures
            final(self)@ == old(self)@.push(event@),
    {
        self.events.push(event);
        assert(self@ =~= old(self)@.push(event@));
    }

    /// True when no events are buffered.
    pub fn is_empty(&self) -> (r: bool)
        ensures
            r == (self@.len() == 0),
    {
        self.events.is_empty()
    }
}

} // verus!
