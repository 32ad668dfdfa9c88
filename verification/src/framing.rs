//! The framing engine: the wire format of the line protocol as plain-value
//! computation.
//!
//! Outbound, a command is framed by appending the strict terminator `"\r\n"`.
//! Inbound, a reply line is whatever was accumulated up to and including the
//! first `'\n'` (or up to end of stream); decoding strips exactly one
//! trailing `'\n'` and, if the byte before it is `'\r'`, that `'\r'` too.
//! This asymmetry — strict on write, tolerant on read — is a deliberate
//! interoperability decision: peers disagree on which terminator they emit.

use crate::error::Error;
use vstd::prelude::*;
use vstd::string::{StrSliceExecFns, StringExecFns};
use vstd::utf8::{
    char_u32_cast, decode_utf8, encode_utf8, encode_utf8_decode_utf8, encode_utf8_valid_utf8,
    is_ascii_chars, is_ascii_chars_encode_utf8, is_ascii_chars_nat_bound, valid_utf8,
};

verus! {

/// The strict outbound line terminator, as characters.
pub open spec fn line_terminator() -> Seq<char> {
    seq!['\r', '\n']
}

/// The inbound stripping rule: drop exactly one trailing `'\n'`, and if the
/// character before it is `'\r'`, drop that too; anything else is returned
/// unchanged (a reply that arrived without a terminator is still valid data).
pub open spec fn strip_line_terminator(s: Seq<char>) -> Seq<char> {
    if s.len() >= 1 && s[s.len() - 1] == '\n' {
        if s.len() >= 2 && s[s.len() - 2] == '\r' {
            s.take(s.len() - 2)
        } else {
            s.take(s.len() - 1)
        }
    } else {
        s
    }
}

/// How many bytes of `bytes` belong to its first line: everything up to and
/// including the first `'\n'` byte, or all of `bytes` if none occurs. This is
/// what one inbound read loop accumulates before decoding.
pub open spec fn line_length(bytes: Seq<u8>) -> int
    decreases bytes.len(),
{
    if bytes.len() == 0 {
        0
    } else if bytes[0] == 10u8 {
        1
    } else {
        1 + line_length(bytes.drop_first())
    }
}

/// The first line of `bytes`: the prefix of [`line_length`] bytes.
pub open spec fn first_line(bytes: Seq<u8>) -> Seq<u8> {
    bytes.take(line_length(bytes))
}

/// Strips one line terminator from the end of `text`, in place, following
/// [`strip_line_terminator`].
pub fn remove_newline(text: &mut String)
    ensures
        final(text)@ == strip_line_terminator(old(text)@),
{
    let n: usize = text.as_str().unicode_len();
    if n >= 1 && text.as_str().get_char(n - 1) == '\n' {
        let keep: usize = if n >= 2 && text.as_str().get_char(n - 2) == '\r' {
            n - 2
        } else {
            n - 1
        };
        let shortened = String::from_str(text.as_str().substring_char(0, keep));
        *text = shortened;
    }
}

/// Frames a command for sending: the command text followed by the strict
/// terminator `"\r\n"`. The caller writes the UTF-8 bytes of the result to
/// the transport and flushes.
pub fn frame_command(command: &str) -> (framed: String)
    ensures
        framed@ == command@ + line_terminator(),
{
    let mut framed = String::from_str(command);
    framed.append("\r\n");
    proof {
        reveal_strlit("\r\n");
        assert(framed@ =~= command@ + line_terminator());
    }
    framed
}

/// What `String::from_utf8_lossy` makes of a byte sequence: the replacement
/// of invalid sequences depends on the bytes alone.
pub uninterp spec fn lossy_decoded(bytes: Seq<u8>) -> Seq<char>;

/// Relies on `str::from_utf8`: it returns `Ok` exactly when the bytes are a
/// valid UTF-8 encoding, and then decodes them; vstd's `decode_utf8` is that
/// decoding.
#[verifier::external_body]
fn bytes_to_text(bytes: &[u8]) -> (r: Option<String>)
    ensures
        r is Some <==> valid_utf8(bytes@),
        r matches Some(text) ==> text@ == decode_utf8(bytes@),
{
    match std::str::from_utf8(bytes) {
        Ok(text) => Some(text.to_string()),
        Err(_) => None,
    }
}

/// Relies on `String::from_utf8_lossy`: its replacement of invalid sequences
/// with U+FFFD is a function of the bytes alone.
#[verifier::external_body]
fn lossy_text(bytes: &[u8]) -> (r: String)
    ensures
        r@ == lossy_decoded(bytes@),
{
    String::from_utf8_lossy(bytes).into_owned()
}

/// Decodes one accumulated reply line (terminator included, if one arrived
/// before the stream closed) into text.
///
/// Valid UTF-8 decodes to the text with one trailing terminator stripped; an
/// empty or terminator-less accumulation is still valid data. Invalid UTF-8
/// is reported as [`Error::ResponseDataInvalid`] carrying the lossily decoded
/// text of the whole accumulation — never as a transport failure.
pub fn decode_reply(reply: Vec<u8>) -> (r: Result<String, Error>)
    ensures
        valid_utf8(reply@) ==> (r matches Ok(text) && text@ == strip_line_terminator(
            decode_utf8(reply@),
        )),
        !valid_utf8(reply@) ==> (r matches Err(e) && e matches Error::ResponseDataInvalid(lossy)
            && lossy@ == lossy_decoded(reply@)),
{
    match bytes_to_text(reply.as_slice()) {
        Some(mut text) => {
            remove_newline(&mut text);
            Ok(text)
        },
        None => Err(Error::ResponseDataInvalid(lossy_text(reply.as_slice()))),
    }
}

proof fn lemma_line_length_terminated(bytes: Seq<u8>)
    requires
        bytes.len() > 0,
        bytes[bytes.len() - 1] == 10u8,
        forall|i: int| 0 <= i < bytes.len() - 1 ==> bytes[i] != 10u8,
    ensures
        line_length(bytes) == bytes.len(),
    decreases bytes.len(),
{
    if bytes.len() == 1 {
    } else {
        let rest = bytes.drop_first();
        assert(bytes[0] != 10u8);
        assert(rest[rest.len() - 1] == bytes[bytes.len() - 1]);
        assert forall|i: int| 0 <= i < rest.len() - 1 implies rest[i] != 10u8 by {
            assert(rest[i] == bytes[i + 1]);
        }
        lemma_line_length_terminated(rest);
    }
}

/// Law: a frame whose only `'\n'` is its last byte is one complete line: an
/// inbound split on `'\n'` hands the whole frame back, losing nothing.
pub proof fn lemma_first_line_terminated(bytes: Seq<u8>)
    requires
        bytes.len() > 0,
        bytes[bytes.len() - 1] == 10u8,
        forall|i: int| 0 <= i < bytes.len() - 1 ==> bytes[i] != 10u8,
    ensures
        first_line(bytes) == bytes,
{
    lemma_line_length_terminated(bytes);
    assert(first_line(bytes) =~= bytes);
}

/// Law: inbound parsing is tolerant of the terminator form. A line body
/// without terminator characters followed by a bare `"\n"` or by the strict
/// `"\r\n"` strips back to the body either way.
pub proof fn lemma_strip_tolerant(s: Seq<char>)
    requires
        forall|i: int| 0 <= i < s.len() ==> s[i] != '\n' && s[i] != '\r',
    ensures
        strip_line_terminator(s + seq!['\n']) == s,
        strip_line_terminator(s + line_terminator()) == s,
{
    let bare = s + seq!['\n'];
    assert(bare[bare.len() - 1] == '\n');
    if s.len() >= 1 {
        assert(bare[bare.len() - 2] == s[s.len() - 1]);
    }
    assert(strip_line_terminator(bare) =~= s);
    let strict = s + line_terminator();
    assert(strict[strict.len() - 1] == '\n');
    assert(strict[strict.len() - 2] == '\r');
    assert(strip_line_terminator(strict) =~= s);
}

/// Law: the send/receive round trip is the identity on command text. For an
/// ASCII command without terminator characters, the framed wire bytes are
/// valid UTF-8 and form exactly one line — so a peer that echoes them back
/// hands the receive path one complete frame, and decoding then stripping
/// restores the command unchanged.
pub proof fn lemma_command_round_trip(s: Seq<char>)
    requires
        is_ascii_chars(s),
        forall|i: int| 0 <= i < s.len() ==> s[i] != '\n' && s[i] != '\r',
    ensures
        valid_utf8(encode_utf8(s + line_terminator())),
        first_line(encode_utf8(s + line_terminator())) == encode_utf8(s + line_terminator()),
        strip_line_terminator(decode_utf8(encode_utf8(s + line_terminator()))) == s,
{
    let w = s + line_terminator();
    let bytes = encode_utf8(w);
    assert(is_ascii_chars(w)) by {
        assert forall|i: int| 0 <= i < w.len() implies '\0' <= #[trigger] w[i] <= '\u{7f}' by {
            if i < s.len() {
                assert(w[i] == s[i]);
            } else {
                assert(w[i] == line_terminator()[i - s.len()]);
            }
        }
    }
    is_ascii_chars_encode_utf8(w);
    is_ascii_chars_nat_bound(w);
    encode_utf8_valid_utf8(w);
    encode_utf8_decode_utf8(w);
    assert(w[w.len() - 1] == '\n');
    assert(bytes[bytes.len() - 1] == 10u8);
    assert forall|i: int| 0 <= i < bytes.len() - 1 implies bytes[i] != 10u8 by {
        if i < s.len() {
            let c = s[i];
            assert(w[i] == c);
            assert(bytes[i] == c as u8);
            if c as u8 == 10u8 {
                assert((c as nat) < 128);
                assert(c as u32 == 10);
                char_u32_cast(c, c as u32);
                char_u32_cast('\n', '\n' as u32);
                assert(c == '\n');
            }
        } else {
            assert(w[i] == '\r');
            assert(bytes[i] == '\r' as u8);
        }
    }
    lemma_first_line_terminated(bytes);
    lemma_strip_tolerant(s);
}

} // verus!
