//! OSC sequences.

use crate::bytes::{push_text, utf8_text, write_hex, write_u16};
use crate::cell::Hyperlink;
use crate::grid::DamageGrid;
use crate::passthrough::PassthroughEvent;
use crate::state::{
    color_report, digits_code, digits_value, emit, is_digit, or_empty, osc_code, osc_event,
    osc_joined, osc_text, set_link, without_id,
};
use crate::vt::osc_params_view;
use vstd::prelude::*;
use vstd::string::{StrSliceExecFns, StringExecFns};
use vstd::utf8::{decode_utf8, encode_utf8_decode_utf8, valid_utf8};

verus! {

/// A digit more makes the number no smaller.
proof fn digits_grow(digits: Seq<u8>, n: int)
    requires
        0 <= n <= digits.len(),
        forall|i: int| 0 <= i < digits.len() ==> is_digit(#[trigger] digits[i]),
    ensures
        digits_value(digits.take(n)) <= digits_value(digits),
    decreases digits.len() - n,
{
    if n < digits.len() {
        digits_grow(digits, n + 1);
        let more = digits.take(n + 1);
        assert(more.drop_last() =~= digits.take(n));
        assert(more.last() == digits[n]);
    } else {
        assert(digits.take(n) =~= digits);
    }
}

/// The code that an OSC sequence starts with.
pub fn parse_osc_code(bytes: &[u8]) -> (r: Option<u8>)
    ensures
        r == osc_code(bytes@),
{
    let start: usize = if bytes.len() > 0 && bytes[0] == 0x2b {
        1
    } else {
        0
    };
    let ghost digits = bytes@.skip(start as int);
    assert(start == 0 ==> digits =~= bytes@);
    assert(osc_code(bytes@) == digits_code(digits));
    if start >= bytes.len() {
        return None;
    }
    let mut value: u32 = 0;
    let mut i: usize = start;
    assert(digits.take(0) =~= Seq::empty());
    while i < bytes.len()
        invariant
            start <= i <= bytes@.len(),
            start < bytes@.len(),
            digits == bytes@.skip(start as int),
            osc_code(bytes@) == digits_code(digits),
            forall|k: int| 0 <= k < i - start ==> is_digit(#[trigger] digits[k]),
            value == digits_value(digits.take(i - start)),
            value <= 255,
        decreases bytes@.len() - i,
    {
        let b: u8 = bytes[i];
        assert(digits[i - start] == b);
        if b < 0x30 || b > 0x39 {
            return None;
        }
        let ghost more = digits.take(i - start + 1);
        proof {
            assert(more.drop_last() =~= digits.take(i - start));
            assert(more.last() == b);
        }
        value = value * 10 + (b - 0x30) as u32;
        i = i + 1;
        if value > 255 {
            proof {
                if forall|k: int| 0 <= k < digits.len() ==> is_digit(#[trigger] digits[k]) {
                    digits_grow(digits, i - start);
                }
            }
            return None;
        }
    }
    assert(digits.take(i - start) =~= digits);
    Some(value as u8)
}

/// The text of parameter `i`, where there is one and it is valid UTF-8.
fn param_text(params: &[Vec<u8>], i: usize) -> (r: Option<&str>)
    ensures
        match r {
            Some(text) => osc_text(osc_params_view(params@), i as int) == Some(text@),
            None => osc_text(osc_params_view(params@), i as int) is None,
        },
{
    if i >= params.len() {
        return None;
    }
    match utf8_text(params[i].as_slice()) {
        Ok(text) => {
            proof {
                encode_utf8_decode_utf8(text@);
            }
            Some(text)
        },
        Err(_) => None,
    }
}

/// The texts of the parameters from the second on that are valid UTF-8, joined
/// with semicolons.
fn join_texts(params: &[Vec<u8>]) -> (r: String)
    requires
        params@.len() >= 1,
    ensures
        r@ == osc_joined(osc_params_view(params@).skip(1)),
{
    let ghost all = osc_params_view(params@).skip(1);
    let mut out = String::new();
    let mut first = true;
    let mut i: usize = 1;
    assert(all.take(0) =~= Seq::empty());
    assert(out@ =~= Seq::empty());
    while i < params.len()
        invariant
            1 <= i <= params@.len(),
            all == osc_params_view(params@).skip(1),
            first == (forall|k: int| 0 <= k < i - 1 ==> !valid_utf8(#[trigger] all[k])),
            out@ == osc_joined(all.take(i - 1)),
        decreases params@.len() - i,
    {
        let ghost now = all.take(i as int);
        let ghost was = out@;
        proof {
            assert(now.drop_last() =~= all.take(i - 1));
            assert(now.last() == params@[i as int]@);
            assert(forall|k: int| 0 <= k < i - 1 ==> now[k] == all[k]);
            assert(all[i - 1] == params@[i as int]@);
        }
        match utf8_text(params[i].as_slice()) {
            Ok(text) => {
                proof {
                    encode_utf8_decode_utf8(text@);
                }
                if first {
                    assert(forall|k: int| 0 <= k < now.len() - 1 ==> !valid_utf8(
                        #[trigger] now[k],
                    ));
                    proof {
                        joined_of_invalid(all.take(i - 1));
                    }
                    out.append(text);
                    assert(out@ =~= decode_utf8(now.last()));
                } else {
                    assert(exists|k: int| 0 <= k < now.len() - 1 && valid_utf8(#[trigger] now[k]));
                    out.append(";");
                    out.append(text);
                }
                first = false;
                assert(valid_utf8(all[i - 1]));
            },
            Err(_) => {},
        }
        i = i + 1;
    }
    assert(all.take(i - 1) =~= all);
    out
}

proof fn joined_of_invalid(params: Seq<Seq<u8>>)
    requires
        forall|k: int| 0 <= k < params.len() ==> !valid_utf8(#[trigger] params[k]),
    ensures
        osc_joined(params) == Seq::<char>::empty(),
    decreases params.len(),
{
    if params.len() > 0 {
        joined_of_invalid(params.drop_last());
    }
}

/// The text without the `id=` prefixes at its start.
fn strip_id(text: &str) -> (r: String)
    ensures
        r@ == without_id(text@),
{
    proof {
        reveal_strlit("id=");
    }
    let n: usize = text.unicode_len();
    let mut start: usize = 0;
    assert(text@.skip(0) =~= text@);
    while n - start >= 3 && text.get_char(start) == 'i' && text.get_char(start + 1) == 'd'
        && text.get_char(start + 2) == '='
        invariant
            n == text@.len(),
            start <= n,
            without_id(text@.skip(start as int)) == without_id(text@),
            "id="@.len() == 3,
            "id="@[0] == 'i',
            "id="@[1] == 'd',
            "id="@[2] == '=',
        decreases n - start,
    {
        proof {
            let rest = text@.skip(start as int);
            assert(rest.take(3) =~= "id="@);
            assert(rest.skip(3) =~= text@.skip(start + 3));
        }
        start = start + 3;
    }
    proof {
        let rest = text@.skip(start as int);
        if rest.len() >= 3 && rest.take(3) == "id="@ {
            assert(rest.take(3)[0] == 'i' && rest.take(3)[1] == 'd' && rest.take(3)[2] == '=');
            assert(false);
        }
        assert(text@.subrange(start as int, n as int) =~= rest);
    }
    text.substring_char(start, n).to_owned()
}

/// Whether the text is a question mark.
fn is_question(text: &str) -> (r: bool)
    ensures
        r == (text@ == "?"@),
{
    proof {
        reveal_strlit("?");
    }
    let r = text.unicode_len() == 1 && text.get_char(0) == '?';
    assert(r ==> text@ =~= "?"@);
    r
}

/// Encode an OSC 10/11 color reply. xterm convention: 16-bit channels
/// (`rgb:RRRR/GGGG/BBBB`, 8-bit value doubled into both bytes), reply
/// terminator mirrors the query's (BEL stays BEL, ST stays ST).
fn osc_color_reply(code: u8, rgb: (u8, u8, u8), bell_terminated: bool) -> (r: Vec<u8>)
    ensures
        r@ == color_report(code, rgb, bell_terminated),
{
    let mut out: Vec<u8> = Vec::new();
    push_text(&mut out, "\x1b]");
    write_u16(&mut out, code as u16);
    push_text(&mut out, ";rgb:");
    write_hex(&mut out, rgb.0);
    write_hex(&mut out, rgb.0);
    push_text(&mut out, "/");
    write_hex(&mut out, rgb.1);
    write_hex(&mut out, rgb.1);
    push_text(&mut out, "/");
    write_hex(&mut out, rgb.2);
    write_hex(&mut out, rgb.2);
    push_text(
        &mut out,
        if bell_terminated {
            "\x07"
        } else {
            "\x1b\\"
        },
    );
    assert(out@ =~= color_report(code, rgb, bell_terminated));
    out
}

impl DamageGrid {
    /// OSC 8: opens a hyperlink region, or closes it where the URI is empty.
    fn set_hyperlink(&mut self, id: String, uri: String)
        ensures
            final(self).dirty == old(self).dirty,
            final(self).same_stream(*old(self)),
            final(self)@ == set_link(old(self)@, id@, uri@),
    {
        let ghost before = self@;
        if uri.as_str().unicode_len() == 0 {
            self.active_hyperlink = None;
            self.hyperlink_id = 0;
        } else {
            let serial: u32 = if self.hyperlink_serial == u32::MAX {
                1
            } else {
                self.hyperlink_serial + 1
            };
            self.active_hyperlink = Some(Hyperlink { id, uri });
            self.hyperlink_id = serial;
            self.hyperlink_serial = serial;
        }
        assert(self@ =~= set_link(before, id@, uri@));
    }

    /// An OSC sequence.
    pub(crate) fn handle_osc(&mut self, params: &[Vec<u8>], bell_terminated: bool)
        requires
            old(self).dirty.wf(),
        ensures
            final(self).dirty.wf(),
            final(self).same_stream(*old(self)),
            final(self)@ == osc_event(old(self)@, osc_params_view(params@), bell_terminated),
    {
        let ghost before = self@;
        let ghost all = osc_params_view(params@);
        proof {
            reveal(osc_event);
        }
        if params.len() == 0 {
            return ;
        }
        let code: u8 = match parse_osc_code(params[0].as_slice()) {
            Some(code) => code,
            None => return ,
        };
        let value = param_text(params, 1);
        if code == 8 {
            // Hyperlinks are cell metadata, not passthrough.
            let id: String = match value {
                Some(text) => strip_id(text),
                None => String::new(),
            };
            let uri: String = match param_text(params, 2) {
                Some(text) => text.to_owned(),
                None => String::new(),
            };
            proof {
                assert(Seq::<char>::empty() =~= without_id(Seq::<char>::empty()));
                assert(id@ =~= without_id(or_empty(osc_text(all, 1))));
                assert(uri@ =~= or_empty(osc_text(all, 2)));
            }
            self.set_hyperlink(id, uri);
            return ;
        }
        let text: &str = match value {
            Some(text) => text,
            None => return ,
        };
        let event = match code {
            0 | 2 => PassthroughEvent::TitleChanged(text.to_owned()),
            1 => PassthroughEvent::IconNameChanged(text.to_owned()),
            // The whole payload after the code, `<selection>;<base64>`.
            52 => PassthroughEvent::ClipboardWrite(join_texts(params)),
            7 => PassthroughEvent::CwdChanged(text.to_owned()),
            9 | 99 => PassthroughEvent::Notification(text.to_owned()),
            // Color queries are answered from the stored defaults; set forms
            // are dropped like any other unhandled OSC.
            10 => {
                if !is_question(text) {
                    return ;
                }
                PassthroughEvent::Reply(osc_color_reply(10, self.reported_fg, bell_terminated))
            },
            11 => {
                if !is_question(text) {
                    return ;
                }
                PassthroughEvent::Reply(osc_color_reply(11, self.reported_bg, bell_terminated))
            },
            _ => return ,
        };
        self.passthrough.push(event);
        assert(self@ =~= emit(before, event@));
    }
}

} // verus!
