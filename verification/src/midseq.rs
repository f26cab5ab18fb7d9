//! Parser-sequence state tracker.
//!
//! The parser does not expose its state, so this tracker observes the same
//! bytes and follows the same transitions: `ESC`…final, CSI…final, and the
//! OSC/DCS/SOS/PM/APC string states, which end with ST (`ESC \`), with BEL (OSC
//! only) or with the C1 ST (passed-through DCS only), while CAN/SUB abort any
//! sequence. It says "ground" exactly when the parser is at ground.

use vstd::prelude::*;

verus! {

/// Parser sequence state. The states of a CSI sequence are one here, since its
/// final byte ends it in each of them.
#[derive(Debug, Clone, Copy, PartialEq, Eq, Structural)]
pub enum SeqState {
    /// Between sequences.
    Ground,
    /// After `ESC`, no intermediates collected yet.
    Escape,
    /// After `ESC` and intermediates.
    EscapeIntermediate,
    /// Inside a CSI sequence.
    Csi,
    /// Inside an OSC string (ended by BEL or ST).
    Osc,
    /// After `ESC P`.
    DcsEntry,
    /// Inside the parameters of a DCS sequence.
    DcsParam,
    /// Inside the intermediates of a DCS sequence.
    DcsIntermediate,
    /// Inside the data of a DCS sequence (ended by ST, also the C1 one).
    DcsPassthrough,
    /// Inside a malformed DCS sequence (ended by ST).
    DcsIgnore,
    /// Inside a SOS, PM or APC string (ended by ST).
    SosPmApc,
}

impl Default for SeqState {
    fn default() -> (r: Self)
        ensures
            r == SeqState::Ground,
    {
        SeqState::Ground
    }
}

/// The transitions that hold in every sequence: CAN and SUB abort it, `ESC`
/// starts a new one, other bytes change nothing.
pub open spec fn anywhere(s: SeqState, byte: u8) -> SeqState {
    if byte == 0x18 || byte == 0x1a {
        SeqState::Ground
    } else if byte == 0x1b {
        SeqState::Escape
    } else {
        s
    }
}

/// The state after one more byte.
pub open spec fn next_seq(s: SeqState, byte: u8) -> SeqState {
    match s {
        SeqState::Ground => if byte == 0x1b {
            SeqState::Escape
        } else {
            s
        },
        SeqState::Escape => if 0x20 <= byte <= 0x2f {
            SeqState::EscapeIntermediate
        } else if byte == 0x50 {
            SeqState::DcsEntry
        } else if byte == 0x58 || byte == 0x5e || byte == 0x5f {
            SeqState::SosPmApc
        } else if byte == 0x5b {
            SeqState::Csi
        } else if byte == 0x5d {
            SeqState::Osc
        } else if 0x30 <= byte <= 0x7e {
            SeqState::Ground
        } else {
            anywhere(s, byte)
        },
        SeqState::EscapeIntermediate => if 0x30 <= byte <= 0x7e {
            SeqState::Ground
        } else {
            anywhere(s, byte)
        },
        SeqState::Csi => if 0x40 <= byte <= 0x7e {
            SeqState::Ground
        } else {
            anywhere(s, byte)
        },
        SeqState::Osc => if byte == 0x07 {
            SeqState::Ground
        } else {
            anywhere(s, byte)
        },
        SeqState::DcsEntry => if 0x20 <= byte <= 0x2f {
            SeqState::DcsIntermediate
        } else if 0x30 <= byte <= 0x3f {
            SeqState::DcsParam
        } else if 0x40 <= byte <= 0x7e {
            SeqState::DcsPassthrough
        } else {
            anywhere(s, byte)
        },
        SeqState::DcsParam => if 0x20 <= byte <= 0x2f {
            SeqState::DcsIntermediate
        } else if 0x3c <= byte <= 0x3f {
            SeqState::DcsIgnore
        } else if 0x40 <= byte <= 0x7e {
            SeqState::DcsPassthrough
        } else {
            anywhere(s, byte)
        },
        SeqState::DcsIntermediate => if 0x30 <= byte <= 0x3f {
            SeqState::DcsIgnore
        } else if 0x40 <= byte <= 0x7e {
            SeqState::DcsPassthrough
        } else {
            anywhere(s, byte)
        },
        SeqState::DcsPassthrough => if byte == 0x9c {
            SeqState::Ground
        } else {
            anywhere(s, byte)
        },
        SeqState::DcsIgnore => anywhere(s, byte),
        SeqState::SosPmApc => anywhere(s, byte),
    }
}

/// The state after more bytes.
pub open spec fn seq_after(s: SeqState, bytes: Seq<u8>) -> SeqState
    decreases bytes.len(),
{
    if bytes.len() == 0 {
        s
    } else {
        next_seq(seq_after(s, bytes.drop_last()), bytes.last())
    }
}

/// Following bytes is following the first ones and then the others.
pub proof fn seq_after_concat(s: SeqState, a: Seq<u8>, b: Seq<u8>)
    ensures
        seq_after(s, a + b) == seq_after(seq_after(s, a), b),
    decreases b.len(),
{
    if b.len() == 0 {
        assert(a + b =~= a);
    } else {
        seq_after_concat(s, a, b.drop_last());
        assert((a + b).drop_last() =~= a + b.drop_last());
    }
}

impl SeqState {
    /// True when the parser is at ground state.
    pub fn is_ground(self) -> (r: bool)
        ensures
            r == (self == SeqState::Ground),
    {
        match self {
            SeqState::Ground => true,
            _ => false,
        }
    }

    /// Advance the tracker over bytes.
    pub fn advance_bytes(&mut self, bytes: &[u8])
        ensures
            *final(self) == seq_after(*old(self), bytes@),
    {
        let ghost start = *self;
        let mut i: usize = 0;
        assert(bytes@.take(0) =~= Seq::empty());
        while i < bytes.len()
            invariant
                i <= bytes@.len(),
                *self == seq_after(start, bytes@.take(i as int)),
            decreases bytes@.len() - i,
        {
            proof {
                assert(bytes@.take(i + 1).drop_last() =~= bytes@.take(i as int));
                assert(bytes@.take(i + 1).last() == bytes@[i as int]);
            }
            self.advance(bytes[i]);
            i = i + 1;
        }
        assert(bytes@.take(i as int) =~= bytes@);
    }

    /// CAN/SUB abort to ground, `ESC` (re)enters the escape state, anything
    /// else is absorbed.
    fn anywhere(self, byte: u8) -> (r: SeqState)
        ensures
            r == anywhere(self, byte),
    {
        match byte {
            0x18 | 0x1a => SeqState::Ground,
            0x1b => SeqState::Escape,
            _ => self,
        }
    }

    /// Advance the tracker over one byte.
    fn advance(&mut self, byte: u8)
        ensures
            *final(self) == next_seq(*old(self), byte),
    {
        *self =
        match *self {
            SeqState::Ground => match byte {
                0x1b => SeqState::Escape,
                _ => SeqState::Ground,
            },
            SeqState::Escape => match byte {
                // Intermediates move to the escape-intermediate state.
                0x20..=0x2f => SeqState::EscapeIntermediate,
                // ESC P
                0x50 => SeqState::DcsEntry,
                // ESC X, ESC ^, ESC _
                0x58 | 0x5e | 0x5f => SeqState::SosPmApc,
                // ESC [
                0x5b => SeqState::Csi,
                // ESC ]
                0x5d => SeqState::Osc,
                // Final bytes dispatch and return to ground.
                0x30..=0x7e => SeqState::Ground,
                _ => self.anywhere(byte),
            },
            // Any final byte (including `[` or `P`, which only start CSI/DCS
            // directly after ESC) dispatches to ground.
            SeqState::EscapeIntermediate => match byte {
                0x30..=0x7e => SeqState::Ground,
                _ => self.anywhere(byte),
            },
            SeqState::Csi => match byte {
                0x40..=0x7e => SeqState::Ground,
                _ => self.anywhere(byte),
            },
            SeqState::Osc => match byte {
                0x07 => SeqState::Ground,
                _ => self.anywhere(byte),
            },
            SeqState::DcsEntry => match byte {
                0x20..=0x2f => SeqState::DcsIntermediate,
                0x30..=0x3f => SeqState::DcsParam,
                0x40..=0x7e => SeqState::DcsPassthrough,
                _ => self.anywhere(byte),
            },
            SeqState::DcsParam => match byte {
                0x20..=0x2f => SeqState::DcsIntermediate,
                0x3c..=0x3f => SeqState::DcsIgnore,
                0x40..=0x7e => SeqState::DcsPassthrough,
                _ => self.anywhere(byte),
            },
            SeqState::DcsIntermediate => match byte {
                0x30..=0x3f => SeqState::DcsIgnore,
                0x40..=0x7e => SeqState::DcsPassthrough,
                _ => self.anywhere(byte),
            },
            SeqState::DcsPassthrough => match byte {
                0x9c => SeqState::Ground,
                _ => self.anywhere(byte),
            },
            SeqState::DcsIgnore => self.anywhere(byte),
            SeqState::SosPmApc => self.anywhere(byte),
        };
    }
}

} // verus!
