//! Packet framing: every packet starts with a 40-byte header naming the
//! command and the length of the body; every reply body ends with a status
//! footer.

use vstd::prelude::*;
use vstd::string::StringSliceAdditionalSpecFns;
use vstd::utf8::encode_utf8;

use crate::codec::allocating::string_encoding;
use crate::codec::fixed_string::{fixed_text_wf, nul_position, FixedString};
use crate::codec::primitives::{be32, lemma_be32_roundtrip};
use crate::codec::{Codec, CodecRead, CodecWrite};
use crate::commands::Command;
use crate::error::{IoError, NanonisTcpError, NanonisTcpResult};

verus! {

/// The number of bytes of a header on the wire.
pub const HEADER_LEN: usize = 40;

/// The fields of a header, in wire order: the 32-byte name field, the body
/// length, the response flag and the padding word.
pub type HeaderFields = (FixedString<32>, i32, u16, u16);

/// The header that starts every packet.
#[derive(Debug)]
pub struct Header {
    /// The command name.
    pub name: FixedString<32>,
    /// The number of body bytes that follow the header.
    pub body_len: i32,
    /// Whether the controller is asked to reply (1) or not (0).
    pub response: u16,
    /// Padding, always written as 0.
    pub _pad: u16,
}

impl DeepView for Header {
    type V = ((Seq<u8>, usize), i32, u16, u16);

    open spec fn deep_view(&self) -> Self::V {
        (self.name.deep_view(), self.body_len, self.response, self._pad)
    }
}

impl Header {

    /// A header for the command `name` with `body_len` body bytes, asking
    /// for a reply.
    pub fn new(name: &'static str, body_len: usize) -> (r: Self)
        requires
            name.spec_bytes().len() <= 32,
        ensures
            r.name.text() == name@,
            r.name.raw() == name.spec_bytes() + Seq::new(
                (32 - name.spec_bytes().len()) as nat,
                |i| 0u8,
            ),
            r.body_len == body_len as i32,
            r.response == 1,
            r._pad == 0,
    {
        Header {
            name: FixedString::from_name(name),
            body_len: body_len as i32,
            response: 1,
            _pad: 0,
        }
    }

    /// The header of a request for command `C` with `body_len` body bytes.
    pub fn new_for_command<C: Command>(body_len: usize) -> (r: Self)
        ensures
            r.name.text() == C::NAME@,
            r.name.raw() == C::NAME.spec_bytes() + Seq::new(
                (32 - C::NAME.spec_bytes().len()) as nat,
                |i| 0u8,
            ),
            r.body_len == body_len as i32,
            r.response == 1,
            r._pad == 0,
    {
        proof {
            C::lemma_name_fits();
        }
        Header {
            name: FixedString::<32>::new_command_name::<C>(),
            body_len: body_len as i32,
            response: 1,
            _pad: 0,
        }
    }
}

impl CodecWrite for Header {
    open spec fn spec_encode(v: ((Seq<u8>, usize), i32, u16, u16)) -> Seq<u8> {
        HeaderFields::spec_encode(v)
    }

    fn codec_write(&self, out: &mut Vec<u8>) {
        let ghost start = out@;
        self.name.codec_write(out);
        self.body_len.codec_write(out);
        self.response.codec_write(out);
        self._pad.codec_write(out);
        assert(out@ =~= start + Self::spec_encode(self.deep_view()));
    }

    fn codec_len(&self) -> usize {
        self.name.codec_len() + self.body_len.codec_len() + self.response.codec_len()
            + self._pad.codec_len()
    }
}

impl CodecRead for Header {
    open spec fn spec_decode(input: Seq<u8>) -> Result<(((Seq<u8>, usize), i32, u16, u16), nat), IoError> {
        HeaderFields::spec_decode(input)
    }

    proof fn lemma_decode_len(input: Seq<u8>) {
        HeaderFields::lemma_decode_len(input);
    }

    fn codec_read(input: &[u8], pos: usize) -> (r: Result<(Header, usize), IoError>) {
        match HeaderFields::codec_read(input, pos) {
            Ok(((name, body_len, response, _pad), end)) => Ok(
                (Header { name, body_len, response, _pad }, end),
            ),
            Err(e) => Err(e),
        }
    }
}

impl Codec for Header {
    /// The name field reads back: see `FixedString`.
    open spec fn spec_wf(v: ((Seq<u8>, usize), i32, u16, u16)) -> bool {
        &&& fixed_text_wf(v.0.0, 32)
        &&& v.0.1 == nul_position(v.0.0)
    }

    proof fn lemma_roundtrip(v: ((Seq<u8>, usize), i32, u16, u16), rest: Seq<u8>) {
        HeaderFields::lemma_roundtrip(v, rest);
    }
}

/// The character that stands for `c` in a reported error description:
/// line breaks become spaces.
pub open spec fn flatten_char(c: char) -> char {
    if c == '\n' || c == '\r' {
        ' '
    } else {
        c
    }
}

/// `s` with every line feed and carriage return replaced by a space.
pub open spec fn flatten_newlines(s: Seq<char>) -> Seq<char> {
    s.map_values(|c: char| flatten_char(c))
}

/// `String::push`: appends one character.
#[verifier::external_body]
fn string_push(s: &mut String, c: char)
    ensures
        final(s)@ == old(s)@.push(c),
{
    s.push(c);
}

/// Replaces every line feed and carriage return of `string` with a space.
pub fn newline_replace(string: &mut String)
    ensures
        final(string)@ == flatten_newlines(old(string)@),
{
    let mut out = String::new();
    let ghost orig = string@;
    for c in it: string.chars()
        invariant
            it.seq() == orig,
            out@ == flatten_newlines(it.seq().take(it.index() as int)),
    {
        let d = if c == '\n' || c == '\r' {
            ' '
        } else {
            c
        };
        string_push(&mut out, d);
        assert(it.seq().take(it.index() + 1) =~= it.seq().take(it.index() as int).push(c));
        assert(out@ =~= flatten_newlines(it.seq().take(it.index() + 1)));
    }
    assert(orig.take(orig.len() as int) =~= orig);
    *string = out;
}

/// The status footer that ends every reply body.
#[derive(Debug)]
pub struct Footer {
    /// The error description, when the controller reported an error.
    pub description: Option<String>,
}

impl DeepView for Footer {
    type V = Option<Seq<char>>;

    open spec fn deep_view(&self) -> Option<Seq<char>> {
        match self.description {
            Some(d) => Some(d@),
            None => None,
        }
    }
}

impl Footer {
    /// `Ok` when no error was reported, otherwise the reported description.
    pub fn into_result(self) -> (r: NanonisTcpResult<()>)
        ensures
            self.description is None <==> r is Ok,
            self.description matches Some(d) ==> (r matches Err(NanonisTcpError::Api(e))
                && e@ == d@),
    {
        match self.description {
            Some(desc) => Err(NanonisTcpError::Api(desc)),
            None => Ok(()),
        }
    }
}

impl CodecRead for Footer {
    /// A `u32` status; status 0 is followed by an ignored `i32`, any other
    /// status by the error description, whose line breaks become spaces.
    open spec fn spec_decode(input: Seq<u8>) -> Result<(Option<Seq<char>>, nat), IoError> {
        match u32::spec_decode(input) {
            Err(e) => Err(e),
            Ok((status, n)) => if status == 0 {
                match i32::spec_decode(input.skip(n as int)) {
                    Err(e) => Err(e),
                    Ok((_, m)) => Ok((None, n + m)),
                }
            } else {
                match String::spec_decode(input.skip(n as int)) {
                    Err(e) => Err(e),
                    Ok((d, m)) => Ok((Some(flatten_newlines(d)), n + m)),
                }
            },
        }
    }

    proof fn lemma_decode_len(input: Seq<u8>) {
        if input.len() >= 4 {
            String::lemma_decode_len(input.skip(4));
        }
    }

    fn codec_read(input: &[u8], pos: usize) -> (r: Result<(Footer, usize), IoError>) {
        let (status, at) = match u32::codec_read(input, pos) {
            Ok(x) => x,
            Err(e) => return Err(e),
        };
        assert(input@.skip(pos as int).skip(4) =~= input@.skip(at as int));
        if status == 0 {
            match i32::codec_read(input, at) {
                Ok((_, end)) => Ok((Footer { description: None }, end)),
                Err(e) => Err(e),
            }
        } else {
            match String::codec_read(input, at) {
                Ok((desc, end)) => {
                    let mut desc = desc;
                    newline_replace(&mut desc);
                    Ok((Footer { description: Some(desc) }, end))
                },
                Err(e) => Err(e),
            }
        }
    }
}

/// Every header takes 40 bytes on the wire.
pub proof fn lemma_header_len(v: ((Seq<u8>, usize), i32, u16, u16))
    requires
        v.0.0.len() == 32,
    ensures
        Header::spec_encode(v).len() == HEADER_LEN,
{
}

/// A header holds the 32 bytes of the name field, the body length, the
/// response flag and the padding word, in this order and each in its own
/// wire form; a header with a readable name field reads back as these
/// fields, whatever follows them, and takes its 40 bytes.
pub proof fn lemma_header_layout(
    name: (Seq<u8>, usize),
    body_len: i32,
    response: u16,
    pad: u16,
    rest: Seq<u8>,
)
    ensures
        Header::spec_encode((name, body_len, response, pad)) == name.0 + i32::spec_encode(body_len)
            + u16::spec_encode(response) + u16::spec_encode(pad),
        fixed_text_wf(name.0, 32) && name.1 == nul_position(name.0) ==> Header::spec_decode(
            name.0 + i32::spec_encode(body_len) + u16::spec_encode(response) + u16::spec_encode(pad)
                + rest,
        ) == Ok::<(((Seq<u8>, usize), i32, u16, u16), nat), IoError>(
            ((name, body_len, response, pad), 40),
        ),
{
    let fields = name.0 + i32::spec_encode(body_len) + u16::spec_encode(response) + u16::spec_encode(
        pad,
    );
    assert(fields =~= Header::spec_encode((name, body_len, response, pad)));
    if fixed_text_wf(name.0, 32) && name.1 == nul_position(name.0) {
        Header::lemma_roundtrip((name, body_len, response, pad), rest);
    }
}

/// Flattening keeps the length, leaves no line break, keeps every other
/// character in place, and changes nothing when done twice.
pub proof fn lemma_flatten_newlines(s: Seq<char>)
    ensures
        flatten_newlines(flatten_newlines(s)) == flatten_newlines(s),
        flatten_newlines(s).len() == s.len(),
        forall|i: int|
            0 <= i < s.len() ==> #[trigger] flatten_newlines(s)[i] != '\n' && flatten_newlines(
                s,
            )[i] != '\r',
        forall|i: int|
            0 <= i < s.len() && s[i] != '\n' && s[i] != '\r' ==> #[trigger] flatten_newlines(s)[i]
                == s[i],
{
    assert(flatten_newlines(flatten_newlines(s)) =~= flatten_newlines(s));
}

/// The footer of a reply that reports no error: status 0, then a word the
/// reader skips (the controller sends the empty description's length).
pub open spec fn ok_footer_bytes(word: i32) -> Seq<u8> {
    be32(0) + be32(word as u32)
}

/// The footer of a reply that reports error `status` with description `desc`.
pub open spec fn error_footer_bytes(status: u32, desc: Seq<char>) -> Seq<u8> {
    be32(status) + string_encoding(desc)
}

/// A footer that reports no error reads as no error and takes 8 bytes.
pub proof fn lemma_ok_footer(word: i32, rest: Seq<u8>)
    ensures
        Footer::spec_decode(ok_footer_bytes(word) + rest) == Ok::<(Option<Seq<char>>, nat), IoError>(
            (None, 8),
        ),
{
    let all = ok_footer_bytes(word) + rest;
    assert(all =~= be32(0) + (be32(word as u32) + rest));
    lemma_be32_roundtrip(0, be32(word as u32) + rest);
    assert(all.skip(4) =~= be32(word as u32) + rest);
}

/// A footer that reports an error reads as its description with line
/// breaks turned into spaces.
pub proof fn lemma_error_footer(status: u32, desc: Seq<char>, rest: Seq<u8>)
    requires
        status != 0,
        encode_utf8(desc).len() <= i32::MAX,
    ensures
        Footer::spec_decode(error_footer_bytes(status, desc) + rest) == Ok::<
            (Option<Seq<char>>, nat),
            IoError,
        >((Some(flatten_newlines(desc)), error_footer_bytes(status, desc).len())),
{
    let all = error_footer_bytes(status, desc) + rest;
    assert(all =~= be32(status) + (string_encoding(desc) + rest));
    lemma_be32_roundtrip(status, string_encoding(desc) + rest);
    assert(all.skip(4) =~= string_encoding(desc) + rest);
    String::lemma_roundtrip(desc, rest);
}

} // verus!
