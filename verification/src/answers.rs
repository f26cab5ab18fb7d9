//! What a grid answers to queries and hands on to the outer terminal, byte by
//! byte.

use crate::bytes::{decimal, hex_byte};
use crate::cell::LinkV;
use crate::passthrough::{encoded, PassV};
use crate::state::{
    apply, csi_bytes, csi_other, decrqm, digits_value, grid_wf, is_digit, osc_code,
    osc_event, osc_joined, params_bytes, subparam_bytes, without_id, EventV, GridV,
};
use vstd::prelude::*;
use vstd::utf8::{decode_utf8, encode_utf8, is_ascii_chars, is_ascii_chars_encode_utf8, valid_utf8};

verus! {

/// ASCII text is one byte per character.
pub(crate) proof fn ascii_bytes(text: Seq<char>)
    requires
        is_ascii_chars(text),
    ensures
        encode_utf8(text).len() == text.len(),
        forall|i: int| 0 <= i < text.len() ==> #[trigger] encode_utf8(text)[i] == text[i] as u8,
{
    is_ascii_chars_encode_utf8(text);
}

// ── Numbers ─────────────────────────────────────────────────────────────────

/// The number that a run of digits in base ten spells.
pub open spec fn spelled(digits: Seq<u8>) -> int
    decreases digits.len(),
{
    if digits.len() == 0 {
        0
    } else {
        10 * spelled(digits.drop_last()) + (digits.last() - 48)
    }
}

/// A number is written in decimal digits that spell it, without leading zeros.
pub proof fn decimal_spells_the_number(n: nat)
    ensures
        spelled(decimal(n)) == n,
        decimal(n).len() >= 1,
        n > 0 ==> decimal(n)[0] != 48,
        n == 0 ==> decimal(n).len() == 1,
        forall|i: int| 0 <= i < decimal(n).len() ==> 48 <= #[trigger] decimal(n)[i] <= 57,
    decreases n,
{
    reveal_with_fuel(spelled, 2);
    if n < 10 {
        let d = seq![(0x30 + n) as u8];
        assert(d.drop_last() =~= Seq::empty());
        assert(decimal(n) == d);
    } else {
        decimal_spells_the_number(n / 10);
        let last = (0x30 + n % 10) as u8;
        assert(decimal(n).drop_last() =~= decimal(n / 10));
        assert(decimal(n).last() == last);
    }
}

/// The value of a lower-case hexadecimal digit.
pub open spec fn hex_value(digit: u8) -> int {
    if 48 <= digit <= 57 {
        digit - 48
    } else if 97 <= digit <= 102 {
        digit - 97 + 10
    } else {
        -1
    }
}

/// A byte is written as two hexadecimal digits, the high one first.
pub proof fn hex_spells_the_byte(b: u8)
    ensures
        hex_byte(b).len() == 2,
        hex_value(hex_byte(b)[0]) == b / 16,
        hex_value(hex_byte(b)[1]) == b % 16,
{
}

proof fn spelled_is_value(digits: Seq<u8>)
    requires
        forall|i: int| 0 <= i < digits.len() ==> 48 <= #[trigger] digits[i] <= 57,
    ensures
        digits_value(digits) == spelled(digits),
        spelled(digits) >= 0,
    decreases digits.len(),
{
    if digits.len() > 0 {
        let rest = digits.drop_last();
        assert forall|i: int| 0 <= i < rest.len() implies 48 <= #[trigger] rest[i] <= 57 by {
            assert(rest[i] == digits[i]);
        }
        spelled_is_value(rest);
        assert(48 <= digits[digits.len() - 1] <= 57);
    }
}

/// The code of an OSC sequence is the number below 256 that its first parameter
/// spells, with a plus sign before it or not; anything else is no code.
pub proof fn codes_are_numbers(digits: Seq<u8>)
    ensures
        ({
            let plain = digits.len() > 0 && forall|i: int|
                0 <= i < digits.len() ==> 48 <= #[trigger] digits[i] <= 57;
            &&& plain && spelled(digits) <= 255 ==> osc_code(digits) == Some(spelled(digits) as u8)
                && osc_code(seq![0x2bu8] + digits) == Some(spelled(digits) as u8)
            &&& plain && spelled(digits) > 255 ==> osc_code(digits) is None && osc_code(
                seq![0x2bu8] + digits,
            ) is None
            &&& !plain && (digits.len() == 0 || digits[0] != 0x2b) ==> osc_code(digits) is None
                && osc_code(seq![0x2bu8] + digits) is None
        }),
{
    let signed = seq![0x2bu8] + digits;
    assert(signed[0] == 0x2b);
    assert(signed.skip(1) =~= digits);
    let plain = digits.len() > 0 && forall|i: int|
        0 <= i < digits.len() ==> 48 <= #[trigger] digits[i] <= 57;
    if plain {
        spelled_is_value(digits);
        assert(48 <= digits[0] <= 57);
        assert forall|i: int| 0 <= i < digits.len() implies is_digit(#[trigger] digits[i]) by {}
    } else if digits.len() > 0 {
        let i = choose|i: int| 0 <= i < digits.len() && !(48 <= #[trigger] digits[i] <= 57);
        assert(!is_digit(digits[i]));
    }
}

// ── Replies ─────────────────────────────────────────────────────────────────

/// Whether exactly these bytes went back to the program, and nothing else
/// happened.
pub open spec fn replied(g: GridV, h: GridV, bytes: Seq<u8>) -> bool {
    h == (GridV { events: g.events.push(PassV::Reply(bytes)), joinable: false, ..g })
}

/// The device attributes, the kitty keyboard query and the status report have
/// fixed answers; a version query, and any other form of the first, has none.
pub proof fn identity_replies(g: GridV, params: Seq<Seq<u16>>, other: Seq<u8>)
    ensures
        other.len() > 0 && other != seq![0x3eu8] ==> apply(
            g,
            EventV::Csi { params, intermediates: other, action: 'c' },
        ) == (GridV { joinable: false, ..g }),
        replied(
            g,
            apply(g, EventV::Csi { params, intermediates: Seq::empty(), action: 'c' }),
            seq![0x1bu8, 0x5b, 0x3f, 0x36, 0x32, 0x63],
        ),
        replied(
            g,
            apply(g, EventV::Csi { params, intermediates: seq![0x3eu8], action: 'c' }),
            seq![0x1bu8, 0x5b, 0x3e, 0x30, 0x3b, 0x30, 0x3b, 0x30, 0x63],
        ),
        replied(
            g,
            apply(g, EventV::Csi { params, intermediates: seq![0x3fu8], action: 'u' }),
            seq![0x1bu8, 0x5b, 0x3f, 0x30, 0x75],
        ),
        apply(g, EventV::Csi { params, intermediates: seq![0x3eu8], action: 'q' }) == (GridV {
            joinable: false,
            ..g
        }),
{
    reveal(csi_other);
    assert(seq![0x3eu8][0] == 0x3e && seq![0x3fu8][0] == 0x3f && seq![0x3cu8][0] == 0x3c
        && seq![0x20u8][0] == 0x20);
    reveal_strlit("\x1b[?62c");
    ascii_bytes("\x1b[?62c"@);
    assert(encode_utf8("\x1b[?62c"@) =~= seq![0x1bu8, 0x5b, 0x3f, 0x36, 0x32, 0x63]);
    reveal_strlit("\x1b[>0;0;0c");
    ascii_bytes("\x1b[>0;0;0c"@);
    assert(encode_utf8("\x1b[>0;0;0c"@) =~= seq![
        0x1bu8,
        0x5b,
        0x3e,
        0x30,
        0x3b,
        0x30,
        0x3b,
        0x30,
        0x63,
    ]);
    reveal_strlit("\x1b[?0u");
    ascii_bytes("\x1b[?0u"@);
    assert(encode_utf8("\x1b[?0u"@) =~= seq![0x1bu8, 0x5b, 0x3f, 0x30, 0x75]);
}

/// The text of a literal in ASCII as bytes.
proof fn literal_bytes()
    ensures
        encode_utf8("\x1b["@) == seq![0x1bu8, 0x5bu8],
        encode_utf8("\x1b[?"@) == seq![0x1bu8, 0x5bu8, 0x3fu8],
        encode_utf8("\x1b[>"@) == seq![0x1bu8, 0x5bu8, 0x3eu8],
        encode_utf8("\x1b[<"@) == seq![0x1bu8, 0x5bu8, 0x3cu8],
        encode_utf8("\x1b]"@) == seq![0x1bu8, 0x5du8],
        encode_utf8("\x1b\\"@) == seq![0x1bu8, 0x5cu8],
        encode_utf8("\x07"@) == seq![0x07u8],
        encode_utf8(";"@) == seq![0x3bu8],
        encode_utf8("/"@) == seq![0x2fu8],
        encode_utf8("R"@) == seq![0x52u8],
        encode_utf8("u"@) == seq![0x75u8],
        encode_utf8(";1R"@) == seq![0x3bu8, 0x31u8, 0x52u8],
        encode_utf8("$y"@) == seq![0x24u8, 0x79u8],
        encode_utf8("\x1b[0n"@) == seq![0x1bu8, 0x5bu8, 0x30u8, 0x6eu8],
        encode_utf8(";rgb:"@) == seq![0x3bu8, 0x72u8, 0x67u8, 0x62u8, 0x3au8],
{
    reveal_strlit("\x1b[");
    ascii_bytes("\x1b["@);
    assert(encode_utf8("\x1b["@) =~= seq![0x1bu8, 0x5bu8]);
    reveal_strlit("\x1b[?");
    ascii_bytes("\x1b[?"@);
    assert(encode_utf8("\x1b[?"@) =~= seq![0x1bu8, 0x5bu8, 0x3fu8]);
    reveal_strlit("\x1b[>");
    ascii_bytes("\x1b[>"@);
    assert(encode_utf8("\x1b[>"@) =~= seq![0x1bu8, 0x5bu8, 0x3eu8]);
    reveal_strlit("\x1b[<");
    ascii_bytes("\x1b[<"@);
    assert(encode_utf8("\x1b[<"@) =~= seq![0x1bu8, 0x5bu8, 0x3cu8]);
    reveal_strlit("\x1b]");
    ascii_bytes("\x1b]"@);
    assert(encode_utf8("\x1b]"@) =~= seq![0x1bu8, 0x5du8]);
    reveal_strlit("\x1b\\");
    ascii_bytes("\x1b\\"@);
    assert(encode_utf8("\x1b\\"@) =~= seq![0x1bu8, 0x5cu8]);
    reveal_strlit("\x07");
    ascii_bytes("\x07"@);
    assert(encode_utf8("\x07"@) =~= seq![0x07u8]);
    reveal_strlit(";");
    ascii_bytes(";"@);
    assert(encode_utf8(";"@) =~= seq![0x3bu8]);
    reveal_strlit("/");
    ascii_bytes("/"@);
    assert(encode_utf8("/"@) =~= seq![0x2fu8]);
    reveal_strlit("R");
    ascii_bytes("R"@);
    assert(encode_utf8("R"@) =~= seq![0x52u8]);
    reveal_strlit("u");
    ascii_bytes("u"@);
    assert(encode_utf8("u"@) =~= seq![0x75u8]);
    reveal_strlit(";1R");
    ascii_bytes(";1R"@);
    assert(encode_utf8(";1R"@) =~= seq![0x3bu8, 0x31u8, 0x52u8]);
    reveal_strlit("$y");
    ascii_bytes("$y"@);
    assert(encode_utf8("$y"@) =~= seq![0x24u8, 0x79u8]);
    reveal_strlit("\x1b[0n");
    ascii_bytes("\x1b[0n"@);
    assert(encode_utf8("\x1b[0n"@) =~= seq![0x1bu8, 0x5bu8, 0x30u8, 0x6eu8]);
    reveal_strlit(";rgb:");
    ascii_bytes(";rgb:"@);
    assert(encode_utf8(";rgb:"@) =~= seq![0x3bu8, 0x72u8, 0x67u8, 0x62u8, 0x3au8]);
}

/// A status report says that all is well, or where the cursor is, one-based: a
/// parked one on the last column. The DEC form has a page number behind it. Any
/// other number is not answered.
pub proof fn status_replies(g: GridV, n: u16, rest: Seq<Seq<u16>>, dec: bool)
    requires
        grid_wf(g),
    ensures
        ({
            let h = apply(
                g,
                EventV::Csi {
                    params: seq![seq![n]] + rest,
                    intermediates: if dec {
                        seq![0x3fu8]
                    } else {
                        Seq::empty()
                    },
                    action: 'n',
                },
            );
            let row = (if g.row + 1 <= 65535 {
                g.row + 1
            } else {
                65535
            }) as nat;
            let col = (if g.col == g.cols {
                g.cols
            } else {
                g.col + 1
            }) as nat;
            &&& n == 5 ==> replied(g, h, seq![0x1bu8, 0x5b, 0x30, 0x6e])
            &&& n == 6 && !dec ==> replied(
                g,
                h,
                seq![0x1bu8, 0x5b] + decimal(row) + seq![0x3bu8] + decimal(col) + seq![0x52u8],
            )
            &&& n == 6 && dec ==> replied(
                g,
                h,
                seq![0x1bu8, 0x5b, 0x3f] + decimal(row) + seq![0x3bu8] + decimal(col) + seq![
                    0x3bu8,
                    0x31,
                    0x52,
                ],
            )
            &&& n != 5 && n != 6 ==> h == (GridV { joinable: false, ..g })
        }),
{
    reveal(csi_other);
    literal_bytes();
    assert((seq![seq![n]] + rest)[0] == seq![n]);
    assert(seq![0x3fu8][0] == 0x3f && seq![0x3eu8][0] == 0x3e && seq![0x3cu8][0] == 0x3c);
}

/// A mode query is answered with the mode and its status; the ANSI form always
/// with "not known".
pub proof fn mode_query_replies(g: GridV, n: u16, rest: Seq<Seq<u16>>, dec: bool)
    ensures
        ({
            let h = apply(
                g,
                EventV::Csi {
                    params: seq![seq![n]] + rest,
                    intermediates: if dec {
                        seq![0x3fu8, 0x24u8]
                    } else {
                        seq![0x24u8]
                    },
                    action: 'p',
                },
            );
            &&& dec ==> replied(
                g,
                h,
                seq![0x1bu8, 0x5b, 0x3f] + decimal(n as nat) + seq![0x3bu8] + decimal(
                    decrqm(g, n) as nat,
                ) + seq![0x24u8, 0x79],
            )
            &&& !dec ==> replied(
                g,
                h,
                seq![0x1bu8, 0x5b] + decimal(n as nat) + seq![0x3bu8] + seq![0x30u8] + seq![
                    0x24u8,
                    0x79,
                ],
            )
        }),
{
    reveal(csi_other);
    literal_bytes();
    assert((seq![seq![n]] + rest)[0] == seq![n]);
    assert(seq![0x3fu8, 0x24u8][1] == 0x24 && seq![0x3fu8, 0x24u8][0] == 0x3f);
    assert(seq![0x24u8][0] == 0x24);
    assert(!seq![0x24u8].contains(0x3f));
    assert(decimal(0) =~= seq![0x30u8]);
}

// ── Kitty keyboard ──────────────────────────────────────────────────────────

/// A push puts its flags (one where it says nothing) on top, unless there are as
/// many levels as are kept, and is handed on; a pop takes as many levels as it
/// says, as far as there are any, and is handed on.
pub proof fn kitty_levels(g: GridV, n: u16, rest: Seq<Seq<u16>>)
    ensures
        ({
            let k: int = if n == 0 {
                1
            } else {
                n as int
            };
            let params = seq![seq![n]] + rest;
            let pushed = apply(g, EventV::Csi { params, intermediates: seq![0x3eu8], action: 'u' });
            let popped = apply(g, EventV::Csi { params, intermediates: seq![0x3cu8], action: 'u' });
            &&& pushed == (GridV {
                kitty: pushed.kitty,
                events: g.events.push(
                    PassV::UnhandledCsi(
                        seq![0x1bu8, 0x5b, 0x3e] + decimal(k as nat) + seq![0x75u8],
                    ),
                ),
                joinable: false,
                ..g
            })
            &&& g.kitty.len() < 64 ==> pushed.kitty == g.kitty.push(k as u32)
            &&& g.kitty.len() >= 64 ==> pushed.kitty == g.kitty
            &&& popped == (GridV {
                kitty: popped.kitty,
                events: g.events.push(
                    PassV::UnhandledCsi(
                        seq![0x1bu8, 0x5b, 0x3c] + decimal(k as nat) + seq![0x75u8],
                    ),
                ),
                joinable: false,
                ..g
            })
            &&& k <= g.kitty.len() ==> popped.kitty == g.kitty.take(g.kitty.len() - k)
            &&& k > g.kitty.len() ==> popped.kitty.len() == 0
        }),
{
    reveal(csi_other);
    literal_bytes();
    assert((seq![seq![n]] + rest)[0] == seq![n]);
    assert(seq![0x3eu8][0] == 0x3e && seq![0x3cu8][0] == 0x3c && seq![0x3fu8][0] == 0x3f);
}

// ── Sequences that are handed on ────────────────────────────────────────────

/// A CSI sequence is put together from its bytes: the opening, the intermediates,
/// the parameters, and the final byte.
pub proof fn sequences_are_rebuilt(
    params: Seq<Seq<u16>>,
    intermediates: Seq<u8>,
    last: u8,
    param: Seq<u16>,
    n: u16,
)
    ensures
        csi_bytes(params, intermediates, last) == seq![0x1bu8, 0x5bu8] + intermediates
            + params_bytes(params) + seq![last],
        params_bytes(Seq::empty()) == Seq::<u8>::empty(),
        params_bytes(seq![param]) == subparam_bytes(param),
        params.len() > 0 ==> params_bytes(params.push(param)) == params_bytes(params) + seq![0x3bu8]
            + subparam_bytes(param),
        subparam_bytes(Seq::empty()) == Seq::<u8>::empty(),
        subparam_bytes(seq![n]) == decimal(n as nat),
        param.len() > 0 ==> subparam_bytes(param.push(n)) == subparam_bytes(param) + seq![0x3au8]
            + decimal(n as nat),
{
    assert(csi_bytes(params, intermediates, last) =~= seq![0x1bu8, 0x5bu8] + intermediates
        + params_bytes(params) + seq![last]);
    assert(params.push(param).drop_last() =~= params);
    assert(param.push(n).drop_last() =~= param);
    assert(params_bytes(params) + seq![0x3bu8] =~= params_bytes(params).push(0x3b));
    assert(subparam_bytes(param) + seq![0x3au8] =~= subparam_bytes(param).push(0x3a));
}

/// A sequence that the grid does not know is reported as dropped, with its bytes,
/// and does nothing; the key modifier sequence is handed on as it came.
pub proof fn unknown_sequences_are_dropped(
    g: GridV,
    params: Seq<Seq<u16>>,
    intermediates: Seq<u8>,
    action: char,
)
    requires
        '@' <= action && action <= '~',
        !crate::state::moves_cursor(action),
        !crate::state::edits_screen(action),
        action != 'm' && action != 'h' && action != 'l' && action != 's' && action != 'u' && action
            != 'c' && action != 'n' && action != 'p' && action != 'q',
    ensures
        apply(g, EventV::Csi { params, intermediates, action }) == (GridV {
            events: g.events.push(
                PassV::DroppedCsi(csi_bytes(params, intermediates, action as u8)),
            ),
            joinable: false,
            ..g
        }),
{
    reveal(csi_other);
}

/// Known final characters with intermediates that give them no meaning are
/// dropped as well, but for the key modifier sequence, which is handed on.
pub proof fn misused_sequences_are_dropped(
    g: GridV,
    params: Seq<Seq<u16>>,
    intermediates: Seq<u8>,
)
    requires
        params.len() > 0,
        params[0].len() > 0,
    ensures
        ({
            let bare = intermediates.len() == 0;
            let question = intermediates == seq![0x3fu8];
            let greater = intermediates == seq![0x3eu8];
            let less = intermediates == seq![0x3cu8];
            let dropped = |action: char, byte: u8|
                apply(g, EventV::Csi { params, intermediates, action }) == (GridV {
                    events: g.events.push(
                        PassV::DroppedCsi(csi_bytes(params, intermediates, byte)),
                    ),
                    joinable: false,
                    ..g
                });
            &&& !question ==> dropped('h', 0x68) && dropped('l', 0x6c)
            &&& !bare && !(greater && params[0][0] == 4) ==> dropped('m', 0x6d)
            &&& !bare && !question && !greater && !less ==> dropped('u', 0x75)
            &&& !bare && !question ==> dropped('n', 0x6e)
            &&& intermediates != seq![0x20u8] && !greater ==> dropped('q', 0x71)
            &&& !intermediates.contains(0x24) && intermediates != seq![0x21u8] ==> dropped('p', 0x70)
            &&& greater && params[0][0] == 4 ==> apply(
                g,
                EventV::Csi { params, intermediates, action: 'm' },
            ) == (GridV {
                events: g.events.push(
                    PassV::UnhandledCsi(csi_bytes(params, intermediates, 0x6d)),
                ),
                joinable: false,
                ..g
            })
        }),
{
    reveal(csi_other);
    assert(seq![0x3eu8].len() == 1 && seq![0x3eu8][0] == 0x3e);
    assert(seq![0x3fu8][0] == 0x3f && seq![0x3cu8][0] == 0x3c && seq![0x20u8][0] == 0x20
        && seq![0x21u8][0] == 0x21);
}

/// BEL is handed on, once for each byte; controls without a meaning do nothing.
pub proof fn bells_ring(g: GridV, byte: u8)
    ensures
        apply(g, EventV::Execute(0x07)) == (GridV {
            events: g.events.push(PassV::Bell),
            joinable: false,
            ..g
        }),
        byte < 7 || byte > 13 ==> apply(g, EventV::Execute(byte)) == (GridV {
            joinable: false,
            ..g
        }),
{
}

/// Escape sequences without a meaning do nothing.
pub proof fn other_escapes_do_nothing(g: GridV, byte: u8)
    requires
        byte != 0x4d && byte != 0x37 && byte != 0x38 && byte != 0x3d && byte != 0x3e && byte != 0x63,
    ensures
        apply(g, EventV::Esc { byte }) == (GridV { joinable: false, ..g }),
{
}

// ── OSC ─────────────────────────────────────────────────────────────────────

/// The number that the first parameter of an OSC sequence spells, which is below
/// 256.
pub open spec fn names_code(params: Seq<Seq<u8>>, code: int) -> bool {
    &&& params.len() > 0
    &&& params[0].len() > 0
    &&& forall|i: int| 0 <= i < params[0].len() ==> 48 <= #[trigger] params[0][i] <= 57
    &&& spelled(params[0]) == code
    &&& 0 <= code <= 255
}

/// Titles, icon names, directories and notifications are handed on with the text
/// of the sequence. Without a text that is valid UTF-8 nothing is. No other code
/// but those of the clipboard, the links and the color queries does anything.
pub proof fn texts_are_handed_on(g: GridV, params: Seq<Seq<u8>>, bell: bool, code: int)
    requires
        names_code(params, code),
    ensures
        ({
            let h = apply(g, EventV::Osc { params, bell });
            let valid = params.len() >= 2 && valid_utf8(params[1]);
            let text = decode_utf8(params[1]);
            let sent = |event: PassV|
                h == (GridV { events: g.events.push(event), joinable: false, ..g });
            &&& valid && (code == 0 || code == 2) ==> sent(PassV::TitleChanged(text))
            &&& valid && code == 1 ==> sent(PassV::IconNameChanged(text))
            &&& valid && code == 7 ==> sent(PassV::CwdChanged(text))
            &&& valid && (code == 9 || code == 99) ==> sent(PassV::Notification(text))
            &&& !valid && code != 8 ==> h == (GridV { joinable: false, ..g })
            &&& code != 0 && code != 1 && code != 2 && code != 7 && code != 8 && code != 9 && code
                != 10 && code != 11 && code != 52 && code != 99 ==> h == (GridV {
                joinable: false,
                ..g
            })
        }),
{
    codes_are_numbers(params[0]);
    reveal(osc_event);
}

/// A sequence whose first parameter is no code does nothing.
pub proof fn codeless_sequences_do_nothing(g: GridV, params: Seq<Seq<u8>>, bell: bool)
    requires
        params.len() == 0 || osc_code(params[0]) is None,
    ensures
        apply(g, EventV::Osc { params, bell }) == (GridV { joinable: false, ..g }),
{
    reveal(osc_event);
}

/// A clipboard write is handed on with its selection and its data, joined again.
pub proof fn clipboard_is_handed_on(g: GridV, params: Seq<Seq<u8>>, bell: bool)
    requires
        names_code(params, 52),
        params.len() == 3,
        valid_utf8(params[1]),
        valid_utf8(params[2]),
    ensures
        apply(g, EventV::Osc { params, bell }) == (GridV {
            events: g.events.push(
                PassV::ClipboardWrite(
                    decode_utf8(params[1]) + seq![';'] + decode_utf8(params[2]),
                ),
            ),
            joinable: false,
            ..g
        }),
{
    codes_are_numbers(params[0]);
    reveal(osc_event);
    reveal_with_fuel(osc_joined, 3);
    let rest = params.skip(1);
    assert(rest.len() == 2);
    assert(rest[0] == params[1] && rest[1] == params[2]);
    assert(rest.drop_last() =~= seq![params[1]]);
    assert(rest.drop_last().drop_last() =~= Seq::empty());
    reveal_strlit(";");
    assert(";"@ =~= seq![';']);
    assert(osc_joined(seq![params[1]]) == decode_utf8(params[1]));
    assert(!(forall|i: int| 0 <= i < rest.len() - 1 ==> !valid_utf8(#[trigger] rest[i]))) by {
        assert(valid_utf8(rest[0]));
    }
}

/// One more valid part of a clipboard write stands behind a semicolon; a part that
/// is not valid is left out.
pub proof fn clipboard_parts_are_joined(params: Seq<Seq<u8>>, part: Seq<u8>)
    ensures
        !valid_utf8(part) ==> osc_joined(params.push(part)) == osc_joined(params),
        valid_utf8(part) && (exists|i: int| 0 <= i < params.len() && valid_utf8(#[trigger] params[i]))
            ==> osc_joined(params.push(part)) == osc_joined(params) + seq![';'] + decode_utf8(part),
        valid_utf8(part) && (forall|i: int|
            0 <= i < params.len() ==> !valid_utf8(#[trigger] params[i])) ==> osc_joined(
            params.push(part),
        ) == decode_utf8(part),
{
    let all = params.push(part);
    assert(all.drop_last() =~= params);
    reveal_strlit(";");
    assert(";"@ =~= seq![';']);
    assert forall|i: int| 0 <= i < params.len() implies #[trigger] all[i] == params[i] by {}
    if exists|i: int| 0 <= i < params.len() && valid_utf8(#[trigger] params[i]) {
        let i = choose|i: int| 0 <= i < params.len() && valid_utf8(#[trigger] params[i]);
        assert(valid_utf8(all[i]));
    }
}

/// A color query is answered with the stored color, each channel as four
/// hexadecimal digits, and ends as the query did. Setting a color does nothing.
pub proof fn color_queries_are_answered(g: GridV, params: Seq<Seq<u8>>, bell: bool, code: int)
    requires
        names_code(params, code),
        code == 10 || code == 11,
        params.len() >= 2,
        valid_utf8(params[1]),
    ensures
        ({
            let h = apply(g, EventV::Osc { params, bell });
            let c = if code == 10 {
                g.fg
            } else {
                g.bg
            };
            let asked = decode_utf8(params[1]) == seq!['?'];
            &&& asked ==> replied(
                g,
                h,
                seq![0x1bu8, 0x5d] + decimal(code as nat) + seq![0x3bu8, 0x72, 0x67, 0x62, 0x3a]
                    + hex_byte(c.0) + hex_byte(c.0) + seq![0x2fu8] + hex_byte(c.1) + hex_byte(c.1)
                    + seq![0x2fu8] + hex_byte(c.2) + hex_byte(c.2) + if bell {
                    seq![0x07u8]
                } else {
                    seq![0x1bu8, 0x5c]
                },
            )
            &&& !asked ==> h == (GridV { joinable: false, ..g })
        }),
{
    codes_are_numbers(params[0]);
    reveal(osc_event);
    literal_bytes();
    reveal_strlit("?");
    assert("?"@ =~= seq!['?']);
}

/// A link sequence with a target opens a region: what is printed then carries its
/// target and its id, and a number of its own that no other recent region has.
/// Without a target it closes the region.
pub proof fn links_open_and_close(g: GridV, params: Seq<Seq<u8>>, bell: bool)
    requires
        names_code(params, 8),
        params.len() >= 3,
        valid_utf8(params[1]),
        valid_utf8(params[2]),
    ensures
        ({
            let h = apply(g, EventV::Osc { params, bell });
            let uri = decode_utf8(params[2]);
            &&& uri.len() == 0 ==> h == (GridV { link: None, link_id: 0, joinable: false, ..g })
            &&& uri.len() > 0 ==> {
                &&& h == (GridV {
                    link: h.link,
                    link_id: h.link_id,
                    link_serial: h.link_serial,
                    joinable: false,
                    ..g
                })
                &&& h.link == Some(LinkV { id: without_id(decode_utf8(params[1])), uri })
                &&& h.link_id == h.link_serial
                &&& h.link_id != 0
                &&& h.link_id != g.link_serial
                &&& g.link_serial < u32::MAX ==> h.link_id == g.link_serial + 1
            }
        }),
{
    codes_are_numbers(params[0]);
    reveal(osc_event);
}

/// A link sequence without a valid target closes the region; an id that is not
/// valid counts as none.
pub proof fn incomplete_links(g: GridV, params: Seq<Seq<u8>>, bell: bool)
    requires
        names_code(params, 8),
    ensures
        ({
            let h = apply(g, EventV::Osc { params, bell });
            &&& params.len() < 3 || !valid_utf8(params[2]) ==> h == (GridV {
                link: None,
                link_id: 0,
                joinable: false,
                ..g
            })
            &&& params.len() >= 3 && valid_utf8(params[2]) && decode_utf8(params[2]).len() > 0
                && !valid_utf8(params[1]) ==> h.link == Some(
                LinkV { id: Seq::empty(), uri: decode_utf8(params[2]) },
            )
        }),
{
    codes_are_numbers(params[0]);
    reveal(osc_event);
    assert(without_id(Seq::<char>::empty()) =~= Seq::<char>::empty());
}

/// The id of a link is what stands behind its `id=` prefix.
pub proof fn link_ids_lose_their_prefix(text: Seq<char>)
    ensures
        without_id(seq!['i', 'd', '='] + text) == without_id(text),
        text.len() < 3 || text[0] != 'i' || text[1] != 'd' || text[2] != '=' ==> without_id(text)
            == text,
{
    reveal_strlit("id=");
    let prefixed = seq!['i', 'd', '='] + text;
    assert("id="@ =~= seq!['i', 'd', '=']);
    assert(prefixed.take(3) =~= "id="@);
    assert(prefixed.skip(3) =~= text);
    if text.len() >= 3 && text.take(3) == "id="@ {
        assert(text.take(3)[0] == 'i' && text.take(3)[1] == 'd' && text.take(3)[2] == '=');
    }
}

// ── Encoding ────────────────────────────────────────────────────────────────

/// The bytes in which each event reaches the outer terminal. Dropped sequences,
/// replies and the clear of the scrollback do not reach it.
pub proof fn events_are_encoded(text: Seq<char>, uri: Seq<char>, bytes: Seq<u8>, on: bool)
    ensures
        ({
            let end: u8 = if on {
                0x68
            } else {
                0x6c
            };
            let t = encode_utf8(text);
            &&& encoded(PassV::TitleChanged(text)) == Some(
                seq![0x1bu8, 0x5d, 0x30, 0x3b] + t + seq![0x07u8],
            )
            &&& encoded(PassV::IconNameChanged(text)) == Some(
                seq![0x1bu8, 0x5d, 0x31, 0x3b] + t + seq![0x07u8],
            )
            &&& encoded(PassV::ClipboardWrite(text)) == Some(
                seq![0x1bu8, 0x5d, 0x35, 0x32, 0x3b] + t + seq![0x07u8],
            )
            &&& encoded(PassV::CwdChanged(text)) == Some(
                seq![0x1bu8, 0x5d, 0x37, 0x3b] + t + seq![0x07u8],
            )
            &&& encoded(PassV::Notification(text)) == Some(
                seq![0x1bu8, 0x5d, 0x39, 0x3b] + t + seq![0x07u8],
            )
            &&& encoded(PassV::ApplicationCursorKeys(on)) == Some(
                seq![0x1bu8, 0x5b, 0x3f, 0x31, end],
            )
            &&& encoded(PassV::FocusEvents(on)) == Some(
                seq![0x1bu8, 0x5b, 0x3f, 0x31, 0x30, 0x30, 0x34, end],
            )
            &&& encoded(PassV::BracketedPaste(on)) == Some(
                seq![0x1bu8, 0x5b, 0x3f, 0x32, 0x30, 0x30, 0x34, end],
            )
            &&& encoded(PassV::Bell) == Some(seq![0x07u8])
            &&& encoded(PassV::UnhandledCsi(bytes)) == Some(bytes)
            &&& encoded(PassV::DroppedCsi(bytes)) is None
            &&& encoded(PassV::Reply(bytes)) is None
            &&& encoded(PassV::ScrollbackClear) is None
            &&& encoded(PassV::Hyperlink { id: text, uri }) == Some(
                if uri.len() == 0 {
                    seq![0x1bu8, 0x5d, 0x38, 0x3b, 0x3b, 0x07]
                } else {
                    seq![0x1bu8, 0x5d, 0x38, 0x3b] + t + seq![0x3bu8] + encode_utf8(uri) + seq![
                        0x07u8,
                    ]
                },
            )
        }),
{
    literal_bytes();
    openings();
    switches_encoded();
}

proof fn openings()
    ensures
        encode_utf8("\x1b]0;"@) == seq![0x1bu8, 0x5d, 0x30, 0x3b],
        encode_utf8("\x1b]1;"@) == seq![0x1bu8, 0x5d, 0x31, 0x3b],
        encode_utf8("\x1b]52;"@) == seq![0x1bu8, 0x5d, 0x35, 0x32, 0x3b],
        encode_utf8("\x1b]7;"@) == seq![0x1bu8, 0x5d, 0x37, 0x3b],
        encode_utf8("\x1b]9;"@) == seq![0x1bu8, 0x5d, 0x39, 0x3b],
        encode_utf8("\x1b]8;"@) == seq![0x1bu8, 0x5d, 0x38, 0x3b],
        encode_utf8("\x1b]8;;\x07"@) == seq![0x1bu8, 0x5d, 0x38, 0x3b, 0x3b, 0x07],
{
    reveal_strlit("\x1b]0;");
    ascii_bytes("\x1b]0;"@);
    assert(encode_utf8("\x1b]0;"@) =~= seq![0x1bu8, 0x5d, 0x30, 0x3b]);
    reveal_strlit("\x1b]1;");
    ascii_bytes("\x1b]1;"@);
    assert(encode_utf8("\x1b]1;"@) =~= seq![0x1bu8, 0x5d, 0x31, 0x3b]);
    reveal_strlit("\x1b]52;");
    ascii_bytes("\x1b]52;"@);
    assert(encode_utf8("\x1b]52;"@) =~= seq![0x1bu8, 0x5d, 0x35, 0x32, 0x3b]);
    reveal_strlit("\x1b]7;");
    ascii_bytes("\x1b]7;"@);
    assert(encode_utf8("\x1b]7;"@) =~= seq![0x1bu8, 0x5d, 0x37, 0x3b]);
    reveal_strlit("\x1b]9;");
    ascii_bytes("\x1b]9;"@);
    assert(encode_utf8("\x1b]9;"@) =~= seq![0x1bu8, 0x5d, 0x39, 0x3b]);
    reveal_strlit("\x1b]8;");
    ascii_bytes("\x1b]8;"@);
    assert(encode_utf8("\x1b]8;"@) =~= seq![0x1bu8, 0x5d, 0x38, 0x3b]);
    reveal_strlit("\x1b]8;;\x07");
    ascii_bytes("\x1b]8;;\x07"@);
    assert(encode_utf8("\x1b]8;;\x07"@) =~= seq![0x1bu8, 0x5d, 0x38, 0x3b, 0x3b, 0x07]);
}

proof fn switches_encoded()
    ensures
        encode_utf8("\x1b[?1h"@) == seq![0x1bu8, 0x5b, 0x3f, 0x31, 0x68],
        encode_utf8("\x1b[?1l"@) == seq![0x1bu8, 0x5b, 0x3f, 0x31, 0x6c],
        encode_utf8("\x1b[?1004h"@) == seq![0x1bu8, 0x5b, 0x3f, 0x31, 0x30, 0x30, 0x34, 0x68],
        encode_utf8("\x1b[?1004l"@) == seq![0x1bu8, 0x5b, 0x3f, 0x31, 0x30, 0x30, 0x34, 0x6c],
        encode_utf8("\x1b[?2004h"@) == seq![0x1bu8, 0x5b, 0x3f, 0x32, 0x30, 0x30, 0x34, 0x68],
        encode_utf8("\x1b[?2004l"@) == seq![0x1bu8, 0x5b, 0x3f, 0x32, 0x30, 0x30, 0x34, 0x6c],
{
    reveal_strlit("\x1b[?1h");
    ascii_bytes("\x1b[?1h"@);
    assert(encode_utf8("\x1b[?1h"@) =~= seq![0x1bu8, 0x5b, 0x3f, 0x31, 0x68]);
    reveal_strlit("\x1b[?1l");
    ascii_bytes("\x1b[?1l"@);
    assert(encode_utf8("\x1b[?1l"@) =~= seq![0x1bu8, 0x5b, 0x3f, 0x31, 0x6c]);
    reveal_strlit("\x1b[?1004h");
    ascii_bytes("\x1b[?1004h"@);
    assert(encode_utf8("\x1b[?1004h"@) =~= seq![0x1bu8, 0x5b, 0x3f, 0x31, 0x30, 0x30, 0x34, 0x68]);
    reveal_strlit("\x1b[?1004l");
    ascii_bytes("\x1b[?1004l"@);
    assert(encode_utf8("\x1b[?1004l"@) =~= seq![0x1bu8, 0x5b, 0x3f, 0x31, 0x30, 0x30, 0x34, 0x6c]);
    reveal_strlit("\x1b[?2004h");
    ascii_bytes("\x1b[?2004h"@);
    assert(encode_utf8("\x1b[?2004h"@) =~= seq![0x1bu8, 0x5b, 0x3f, 0x32, 0x30, 0x30, 0x34, 0x68]);
    reveal_strlit("\x1b[?2004l");
    ascii_bytes("\x1b[?2004l"@);
    assert(encode_utf8("\x1b[?2004l"@) =~= seq![0x1bu8, 0x5b, 0x3f, 0x32, 0x30, 0x30, 0x34, 0x6c]);
}

} // verus!
