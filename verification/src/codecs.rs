//! Encoding-aware codecs: `LineCodec` frames bytes into text lines under a
//! WHATWG encoding label, and `MessageCodec` bridges lines and typed
//! messages.

use crate::encodings::{decode_bytes, encode_str, encoded_bytes, decoded_text, lookup_encoding,
    whatwg_encoding};
use crate::error::{LineCodecError, MessageParseError, ProtocolError};
use crate::line::{cursor_ok, frame_of, FrameStep, IrcCodec};
use crate::bufio::{bm_put, bytes_of};
use crate::message::{spec_message_text, spec_parse_message, Message};
use crate::text::{find_crlf, lemma_find_crlf, str_find_crlf};
use vstd::prelude::*;
use vstd::string::StringExecFns;

verus! {

/// Relies on `std::io::Error::new`: builds an error value of kind
/// `InvalidInput` carrying the given text.
#[verifier::external_body]
fn io_invalid_input(msg: &str) -> (r: std::io::Error) {
    std::io::Error::new(std::io::ErrorKind::InvalidInput, msg.to_string())
}

/// Frames a byte stream into character strings under a configurable WHATWG
/// encoding label and a maximum line length.
#[derive(Debug)]
pub struct LineCodec {
    label: String,
    name: String,
    framer: IrcCodec,
}

impl LineCodec {
    /// The label the codec was built with.
    pub closed spec fn enc_label(&self) -> Seq<char> {
        self.label@
    }

    /// The canonical name of the encoding.
    pub closed spec fn enc_name(&self) -> Seq<char> {
        self.name@
    }

    /// The scan cursor of the framing layer.
    pub closed spec fn cursor(&self) -> int {
        self.framer.cursor()
    }

    /// The maximum line length.
    pub closed spec fn max_len(&self) -> int {
        self.framer.max_len()
    }

    /// The codec's label resolves to its encoding.
    pub closed spec fn wf(&self) -> bool {
        whatwg_encoding(self.label@) == Some(self.name@)
    }

    /// A codec for the labelled encoding with the default maximum line
    /// length of 512; an unknown label is rejected.
    pub fn new(label: &str) -> (r: Result<LineCodec, LineCodecError>)
        ensures
            match r {
                Ok(c) => whatwg_encoding(label@) is Some && c.wf() && c.enc_label() == label@
                    && c.cursor() == 0 && c.max_len() == 512,
                Err(e) => whatwg_encoding(label@) is None && (e matches
                    LineCodecError::InvalidEncoding(l) && l@ == label@),
            },
    {
        match lookup_encoding(label) {
            Some(name) => Ok(
                LineCodec { label: String::from_str(label), name, framer: IrcCodec::new() },
            ),
            None => Err(LineCodecError::InvalidEncoding(String::from_str(label))),
        }
    }

    /// A codec for the labelled encoding with the given maximum line
    /// length; an unknown label is rejected.
    pub fn new_max_length(label: &str, max_length: usize) -> (r: Result<LineCodec, LineCodecError>)
        ensures
            match r {
                Ok(c) => whatwg_encoding(label@) is Some && c.wf() && c.enc_label() == label@
                    && c.cursor() == 0 && c.max_len() == max_length,
                Err(e) => whatwg_encoding(label@) is None && (e matches
                    LineCodecError::InvalidEncoding(l) && l@ == label@),
            },
    {
        match lookup_encoding(label) {
            Some(name) => Ok(
                LineCodec {
                    label: String::from_str(label),
                    name,
                    framer: IrcCodec::new_break_length(max_length),
                },
            ),
            None => Err(LineCodecError::InvalidEncoding(String::from_str(label))),
        }
    }

    /// The canonical name of the codec's encoding.
    pub fn name(&self) -> (r: &str)
        ensures
            r@ == self.enc_name(),
    {
        self.name.as_str()
    }

    /// Whether the scan cursor is valid for the given buffer.
    pub fn cursor_valid(&self, src: &bytes::BytesMut) -> (r: bool)
        ensures
            r == (cursor_ok(self.cursor(), bytes_of(*src)) && self.cursor() <= self.max_len()),
    {
        self.framer.cursor_valid(src)
    }

    /// Frames and decodes the next line out of the accumulated buffer, as
    /// `frame_of` says: a complete line is removed from the buffer, decoded
    /// under the codec's encoding, and is never longer than the maximum; on
    /// overflow the error consumes nothing; otherwise the buffer is kept
    /// and the cursor advances to its end.
    pub fn decode(&mut self, src: &mut bytes::BytesMut) -> (r: Result<Option<String>, LineCodecError
    >)
        requires
            old(self).wf(),
            cursor_ok(old(self).cursor(), bytes_of(*old(src))),
            old(self).cursor() <= old(self).max_len(),
        ensures
            final (self).wf(),
            final (self).enc_label() == old(self).enc_label(),
            final (self).enc_name() == old(self).enc_name(),
            final (self).max_len() == old(self).max_len(),
            cursor_ok(final (self).cursor(), bytes_of(*final (src))),
            final (self).cursor() <= final (self).max_len(),
            match frame_of(bytes_of(*old(src)), old(self).max_len()) {
                FrameStep::Empty => r matches Ok(ro) && ro is None && bytes_of(*final (src))
                    == bytes_of(*old(src)) && final (self).cursor() == old(self).cursor(),
                FrameStep::More => r matches Ok(ro) && ro is None && bytes_of(*final (src))
                    == bytes_of(*old(src)) && final (self).cursor() == bytes_of(
                    *old(src),
                ).len() as int,
                FrameStep::Line(line, rem) => r matches Ok(ro) && ro matches Some(v) && v@
                    == decoded_text(old(self).enc_label(), line) && line.len() <= old(
                    self,
                ).max_len() && bytes_of(*final (src)) == rem && final (self).cursor() == 0,
                FrameStep::Overflow => r matches Err(e) && e is MaxLineLengthExceeded && bytes_of(
                    *final (src),
                ) == bytes_of(*old(src)) && final (self).cursor() == old(self).cursor(),
            },
    {
        match self.framer.decode(src) {
            Ok(Some(v)) => Ok(Some(decode_bytes(self.label.as_str(), &v))),
            Ok(None) => Ok(None),
            Err(_) => Err(LineCodecError::MaxLineLengthExceeded),
        }
    }

    /// Encodes one line under the codec's encoding and appends it to the
    /// output buffer, unless the encoded bytes would exceed the maximum
    /// line length; the caller supplies the terminator.
    pub fn encode(&mut self, msg: String, dst: &mut bytes::BytesMut) -> (r: Result<
        (),
        LineCodecError,
    >)
        requires
            old(self).wf(),
        ensures
            *final (self) == *old(self),
            match encoded_bytes(old(self).enc_label(), msg@) {
                Some(bs) => if bs.len() <= old(self).max_len() {
                    r is Ok && bytes_of(*final (dst)) == bytes_of(*old(dst)) + bs
                } else {
                    r matches Err(e) && e is MaxLineLengthExceeded && bytes_of(*final (dst))
                        == bytes_of(*old(dst))
                },
                None => r matches Err(e) && e is Io && bytes_of(*final (dst)) == bytes_of(
                    *old(dst),
                ),
            },
    {
        match encode_str(self.label.as_str(), msg.as_str()) {
            Some(data) => {
                if data.len() > self.framer_max() {
                    return Err(LineCodecError::MaxLineLengthExceeded);
                }
                bm_put(dst, &data);
                Ok(())
            },
            None => {
                let mut text = String::from_str("failed to encode line as ");
                text.append(self.name.as_str());
                Err(LineCodecError::Io(io_invalid_input(text.as_str())))
            },
        }
    }

    /// The maximum line length.
    fn framer_max(&self) -> (r: usize)
        ensures
            r == self.max_len(),
    {
        self.framer.max_length_value()
    }
}

/// Bridges typed messages and encoded lines: serialized messages are cut
/// after their CRLF terminator and passed through the line codec; decoded
/// lines are parsed into messages.
#[derive(Debug)]
pub struct MessageCodec {
    inner: LineCodec,
}

impl MessageCodec {
    /// The label the inner codec was built with.
    pub closed spec fn enc_label(&self) -> Seq<char> {
        self.inner.enc_label()
    }

    /// The scan cursor of the framing layer.
    pub closed spec fn cursor(&self) -> int {
        self.inner.cursor()
    }

    /// The maximum line length.
    pub closed spec fn max_len(&self) -> int {
        self.inner.max_len()
    }

    /// The inner codec's label resolves to its encoding.
    pub closed spec fn wf(&self) -> bool {
        self.inner.wf()
    }

    /// Whether the scan cursor is valid for the given buffer, so a caller
    /// outside the proof can check before decoding.
    pub fn cursor_valid(&self, src: &bytes::BytesMut) -> (r: bool)
        ensures
            r == (cursor_ok(self.cursor(), bytes_of(*src)) && self.cursor() <= self.max_len()),
    {
        self.inner.cursor_valid(src)
    }

    /// A message codec over the labelled encoding; an unknown label is
    /// rejected.
    pub fn new(label: &str) -> (r: Result<MessageCodec, MessageParseError>)
        ensures
            match r {
                Ok(c) => whatwg_encoding(label@) is Some && c.wf() && c.enc_label() == label@
                    && c.cursor() == 0 && c.max_len() == 512,
                Err(e) => whatwg_encoding(label@) is None && (e matches
                    MessageParseError::LineError { string, cause } && string@
                    == "failed to make codec"@ && (cause matches
                    LineCodecError::InvalidEncoding(l) && l@ == label@)),
            },
    {
        match LineCodec::new(label) {
            Ok(inner) => Ok(MessageCodec { inner }),
            Err(e) => Err(
                MessageParseError::LineError {
                    string: String::from_str("failed to make codec"),
                    cause: e,
                },
            ),
        }
    }

    /// Serializes a message, validates its CRLF terminator, cuts anything
    /// after the first CRLF, and appends the encoded line to the output
    /// buffer.
    pub fn encode(&mut self, msg: Message, dst: &mut bytes::BytesMut) -> (r: Result<
        (),
        ProtocolError,
    >)
        requires
            old(self).wf(),
        ensures
            *final (self) == *old(self),
            match find_crlf(spec_message_text(msg@)) {
                Some(i) => {
                    let l = spec_message_text(msg@).take(i + 2);
                    match encoded_bytes(old(self).enc_label(), l) {
                        Some(bs) => if bs.len() <= old(self).max_len() {
                            r is Ok && bytes_of(*final (dst)) == bytes_of(*old(dst)) + bs
                        } else {
                            (r matches Err(ProtocolError::InvalidMessage { string, cause })
                                && string@ == "line error"@ && (cause matches
                                MessageParseError::LineError { string: s2, cause: c2 } && c2
                                is MaxLineLengthExceeded)) && bytes_of(*final (dst)) == bytes_of(
                                *old(dst),
                            )
                        },
                        None => (r matches Err(ProtocolError::InvalidMessage { string, cause })
                            && string@ == "line error"@ && (cause matches
                            MessageParseError::LineError { string: s2, cause: c2 } && c2 is Io))
                            && bytes_of(*final (dst)) == bytes_of(*old(dst)),
                    }
                },
                None => r matches Err(ProtocolError::InvalidMessage { string, cause }) && string@
                    == "no CRLF delimiter"@ && cause is MissingCRLF && bytes_of(*final (dst))
                    == bytes_of(*old(dst)),
            },
    {
        let text = msg.to_string();
        let tl = text.as_str().unicode_len();
        match str_find_crlf(text.as_str()) {
            Some(i) => {
                proof {
                    lemma_find_crlf(text@);
                }
                let line = String::from_str(text.as_str().substring_char(0, i + 2));
                proof {
                    assert(text@.subrange(0, i + 2) =~= text@.take(i + 2));
                }
                match self.inner.encode(line, dst) {
                    Ok(u) => Ok(u),
                    Err(e) => {
                        let mut ctx = String::from_str("error encoding line with: ");
                        ctx.append(self.inner.name());
                        Err(
                            ProtocolError::InvalidMessage {
                                string: String::from_str("line error"),
                                cause: MessageParseError::LineError { string: ctx, cause: e },
                            },
                        )
                    },
                }
            },
            None => Err(
                ProtocolError::InvalidMessage {
                    string: String::from_str("no CRLF delimiter"),
                    cause: MessageParseError::MissingCRLF,
                },
            ),
        }
    }

    /// Frames, decodes and parses the next message out of the accumulated
    /// buffer; line-codec failures and parse failures are wrapped into
    /// `InvalidMessage`.
    pub fn decode(&mut self, src: &mut bytes::BytesMut) -> (r: Result<Option<Message>, ProtocolError
    >)
        requires
            old(self).wf(),
            cursor_ok(old(self).cursor(), bytes_of(*old(src))),
            old(self).cursor() <= old(self).max_len(),
        ensures
            final (self).wf(),
            final (self).enc_label() == old(self).enc_label(),
            final (self).max_len() == old(self).max_len(),
            cursor_ok(final (self).cursor(), bytes_of(*final (src))),
            final (self).cursor() <= final (self).max_len(),
            match frame_of(bytes_of(*old(src)), old(self).max_len()) {
                FrameStep::Empty => r matches Ok(ro) && ro is None && bytes_of(*final (src))
                    == bytes_of(*old(src)),
                FrameStep::More => r matches Ok(ro) && ro is None && bytes_of(*final (src))
                    == bytes_of(*old(src)),
                FrameStep::Line(line, rem) => bytes_of(*final (src)) == rem && match
                    spec_parse_message(decoded_text(old(self).enc_label(), line)) {
                    Ok(mv) => r matches Ok(ro) && ro matches Some(m) && m@ == mv,
                    Err(e) => r matches Err(ProtocolError::InvalidMessage { string, cause })
                        && string@ == decoded_text(old(self).enc_label(), line) && cause == e,
                },
                FrameStep::Overflow => (r matches Err(ProtocolError::InvalidMessage {
                    string,
                    cause,
                }) && string@ == "line error"@ && (cause matches MessageParseError::LineError {
                    string: s2,
                    cause: c2,
                } && c2 is MaxLineLengthExceeded)) && bytes_of(*final (src)) == bytes_of(*old(src)),
            },
    {
        match self.inner.decode(src) {
            Ok(Some(line)) => match Message::parse(line.as_str()) {
                Ok(m) => Ok(Some(m)),
                Err(e) => Err(e),
            },
            Ok(None) => Ok(None),
            Err(e) => {
                let mut ctx = String::from_str("failed to decode line with: ");
                ctx.append(self.inner.name());
                Err(
                    ProtocolError::InvalidMessage {
                        string: String::from_str("line error"),
                        cause: MessageParseError::LineError { string: ctx, cause: e },
                    },
                )
            },
        }
    }
}

} // verus!
