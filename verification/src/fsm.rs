//! The request/response exchange as a state machine over one byte buffer.
//!
//! The machine never touches the connection: it fills the buffer with the
//! request, hands it out to be sent, hands out room for the reply header
//! and then for the reply body, and finally reads the reply. Each state is
//! a type, so the steps can only be taken in order.

use std::marker::PhantomData;

use vstd::prelude::*;
use vstd::string::StringSliceAdditionalSpecFns;
use vstd::utf8::encode_utf8;

use crate::codec::fixed_string::{
    field_text, fixed_text_wf, lemma_nul_position, lemma_nul_position_bound, nul_position,
};
use crate::codec::packet::{
    error_footer_bytes, flatten_newlines, lemma_error_footer, lemma_ok_footer, ok_footer_bytes,
    HEADER_LEN,
};
use crate::codec::{Codec, CodecRead, CodecWrite, Footer, Header};
use crate::commands::{nul_free, Command};
use crate::error::{CodecError, IoError, NanonisTcpError, NanonisTcpResult};

verus! {

/// The machine holds a complete request.
pub struct HasArgs;

/// The machine waits for the reply header.
pub struct WantsHeader;

/// The machine waits for the reply body.
pub struct WantsBody;

/// The 32-byte name field of command `C`: its name followed by NUL bytes,
/// with the name as its text.
pub open spec fn name_field<C: Command>() -> (Seq<u8>, usize) {
    (
        C::NAME.spec_bytes() + Seq::new((32 - C::NAME.spec_bytes().len()) as nat, |i| 0u8),
        C::NAME.spec_bytes().len() as usize,
    )
}

/// The bytes of a request for command `C` with arguments `args`: a header
/// naming `C`, giving the body length and asking for a reply, then the
/// arguments.
pub open spec fn request_bytes<C: Command>(args: <C::Args as DeepView>::V) -> Seq<u8> {
    Header::spec_encode(
        (name_field::<C>(), (C::Args::spec_encode(args).len() as int) as i32, 1u16, 0u16),
    ) + C::Args::spec_encode(args)
}

/// `s` cut or padded with zeros to length `n`.
pub open spec fn resized(s: Seq<u8>, n: nat) -> Seq<u8> {
    if n <= s.len() {
        s.take(n as int)
    } else {
        s + Seq::new((n - s.len()) as nat, |i| 0u8)
    }
}

/// The state machine of one exchange of command `C`, in state `S`.
pub struct NanonisTcpFsm<'b, C: Command, S = HasArgs> {
    buf: &'b mut Vec<u8>,
    _phantom: PhantomData<(C, S)>,
}

impl<'b, C: Command, S> NanonisTcpFsm<'b, C, S> {
    /// The bytes the machine currently holds.
    pub closed spec fn contents(&self) -> Seq<u8> {
        (*self.buf)@
    }
}

impl<'b, C: Command> NanonisTcpFsm<'b, C> {
    /// Fills `buf` with the request for `C` carrying `args`.
    pub fn new(buf: &'b mut Vec<u8>, args: &C::Args) -> (r: NanonisTcpResult<
        NanonisTcpFsm<'b, C, HasArgs>,
    >)
        requires
            C::Args::spec_encode(args.deep_view()).len() <= i32::MAX,
        ensures
            r matches Ok(m) && m.contents() == request_bytes::<C>(args.deep_view()),
    {
        let header = Header::new_for_command::<C>(args.codec_len());
        proof {
            C::lemma_name_fits();
        }
        let expected = header.codec_len() + header.body_len as usize;
        buf.clear();
        header.codec_write(buf);
        args.codec_write(buf);
        assert(buf@ =~= request_bytes::<C>(args.deep_view()));
        if buf.len() != expected {
            let wrote = buf.len();
            return Err(NanonisTcpError::Codec(CodecError::WriteLenMismatch { expected, wrote }));
        }
        Ok(NanonisTcpFsm { buf, _phantom: PhantomData })
    }
}

impl<'b, C: Command> NanonisTcpFsm<'b, C, HasArgs> {
    /// The request, to be sent.
    pub fn bytes_to_write(&self) -> (r: &[u8])
        ensures
            r@ == self.contents(),
    {
        self.buf.as_slice()
    }

    /// Makes room for the reply header.
    pub fn prepare_for_header(self) -> (r: NanonisTcpResult<NanonisTcpFsm<'b, C, WantsHeader>>)
        ensures
            r matches Ok(m) && m.contents() == resized(self.contents(), HEADER_LEN as nat),
    {
        let ghost before = self.contents();
        self.buf.resize(HEADER_LEN, 0u8);
        assert(self.buf@ =~= resized(before, HEADER_LEN as nat));
        Ok(NanonisTcpFsm { buf: self.buf, _phantom: PhantomData })
    }
}

impl<'b, C: Command> NanonisTcpFsm<'b, C, WantsHeader> {
    /// The room for the reply header, to be filled from the connection.
    pub fn bytes_to_read_mut(&mut self) -> (r: &mut [u8])
        ensures
            r@ == old(self).contents(),
            final(self).contents() == final(r)@,
    {
        self.buf.as_mut_slice()
    }

    /// Whether the reply header now held may be taken by `prepare_for_body`:
    /// a header that names `C` must not announce a negative body length.
    pub fn reply_header_acceptable(&self) -> (r: bool)
        ensures
            r == (Header::spec_decode(self.contents()) matches Ok((h, _)) ==> (field_text(h.0.0)
                == C::NAME@ ==> h.1 >= 0)),
    {
        let bytes = self.buf.as_slice();
        assert(bytes@.skip(0) =~= bytes@);
        match Header::codec_read(bytes, 0) {
            Err(_) => true,
            Ok((header, _)) => {
                proof {
                    lemma_nul_position_bound(header.name.raw());
                }
                !header.name.text_eq(C::NAME) || header.body_len >= 0
            },
        }
    }

    /// Reads the reply header and makes room for the reply body.
    pub fn prepare_for_body(self) -> (r: NanonisTcpResult<NanonisTcpFsm<'b, C, WantsBody>>)
        requires
            Header::spec_decode(self.contents()) matches Ok((h, _)) ==> (field_text(h.0.0)
                == C::NAME@ ==> h.1 >= 0),
        ensures
            match Header::spec_decode(self.contents()) {
                Err(e) => r matches Err(NanonisTcpError::Io(e2)) && e2 == e,
                Ok((h, _)) => if field_text(h.0.0) != C::NAME@ {
                    r matches Err(NanonisTcpError::Codec(CodecError::NameMismatch { expected, received }))
                        && expected@ == C::NAME@ && received@ == field_text(h.0.0)
                } else {
                    r matches Ok(m) && m.contents() == resized(self.contents(), h.1 as nat)
                },
            },
    {
        let ghost before = self.contents();
        let header = match Header::codec_read(self.buf.as_slice(), 0) {
            Ok((h, _)) => h,
            Err(e) => {
                assert(self.buf@.skip(0) =~= self.buf@);
                return Err(NanonisTcpError::Io(e));
            },
        };
        assert(self.buf@.skip(0) =~= self.buf@);
        proof {
            lemma_nul_position_bound(header.name.raw());
        }
        if !header.name.text_eq(C::NAME) {
            let expected = C::NAME.to_owned();
            let received = header.name.to_string();
            return Err(NanonisTcpError::Codec(CodecError::NameMismatch { expected, received }));
        }
        let len = header.body_len as usize;
        self.buf.resize(len, 0u8);
        assert(self.buf@ =~= resized(before, header.body_len as nat));
        Ok(NanonisTcpFsm { buf: self.buf, _phantom: PhantomData })
    }
}

impl<'b, C: Command> NanonisTcpFsm<'b, C, WantsBody> {
    /// The room for the reply body, to be filled from the connection.
    pub fn bytes_to_read_mut(&mut self) -> (r: &mut [u8])
        ensures
            r@ == old(self).contents(),
            final(self).contents() == final(r)@,
    {
        self.buf.as_mut_slice()
    }

    /// Reads the reply body: the response, then the status footer, which
    /// must end the body exactly; a reported error wins over the response.
    pub fn parse_response(self) -> (r: NanonisTcpResult<C::Response>)
        ensures
            match <(C::Response, Footer)>::spec_decode(self.contents()) {
                Err(e) => r matches Err(NanonisTcpError::Io(e2)) && e2 == e,
                Ok(((v, f), n)) => if n != self.contents().len() {
                    r matches Err(NanonisTcpError::Codec(CodecError::ReadLenMismatch { expected, parsed }))
                        && expected == self.contents().len() && parsed == n
                } else {
                    match f {
                        Some(d) => r matches Err(NanonisTcpError::Api(s)) && s@ == d,
                        None => r matches Ok(resp) && resp.deep_view() == v,
                    }
                },
            },
    {
        let bytes = self.buf.as_slice();
        assert(bytes@.skip(0) =~= bytes@);
        let expected = bytes.len();
        let ((response, footer), parsed) = match <(C::Response, Footer)>::codec_read(bytes, 0) {
            Ok(x) => x,
            Err(e) => return Err(NanonisTcpError::Io(e)),
        };
        if parsed != expected {
            return Err(NanonisTcpError::Codec(CodecError::ReadLenMismatch { expected, parsed }));
        }
        match footer.into_result() {
            Ok(()) => Ok(response),
            Err(e) => Err(e),
        }
    }
}

broadcast use vstd::utf8::group_utf8_lib;

/// The name field of a command is a readable 32-byte field whose text,
/// ending at the first NUL byte, is the command name.
pub proof fn lemma_name_field<C: Command>()
    requires
        nul_free(C::NAME),
    ensures
        fixed_text_wf(name_field::<C>().0, 32),
        name_field::<C>().1 == nul_position(name_field::<C>().0),
        field_text(name_field::<C>().0) == C::NAME@,
{
    C::lemma_name_fits();
    let b = name_field::<C>().0;
    let n = C::NAME.spec_bytes().len();
    lemma_nul_position(b, n as int);
    assert(b.take(n as int) =~= C::NAME.spec_bytes());
}

/// A header written for command `C`, whatever follows it, reads back as
/// naming `C` with the body length, reply flag and padding it was written
/// with.
pub proof fn lemma_reply_header<C: Command>(body_len: i32, response: u16, pad: u16, rest: Seq<u8>)
    requires
        nul_free(C::NAME),
    ensures
        Header::spec_decode(
            Header::spec_encode((name_field::<C>(), body_len, response, pad)) + rest,
        ) == Ok::<(((Seq<u8>, usize), i32, u16, u16), nat), IoError>(
            ((name_field::<C>(), body_len, response, pad), 40),
        ),
        field_text(name_field::<C>().0) == C::NAME@,
{
    lemma_name_field::<C>();
    Header::lemma_roundtrip((name_field::<C>(), body_len, response, pad), rest);
}

/// A request reads back as a header naming `C`, asking for a reply and
/// giving the length of the arguments, followed by exactly the arguments.
pub proof fn lemma_request_layout<C: Command>(args: <C::Args as DeepView>::V)
    requires
        C::Args::spec_encode(args).len() <= i32::MAX,
        nul_free(C::NAME),
    ensures
        ({
            let len = C::Args::spec_encode(args).len();
            &&& Header::spec_decode(request_bytes::<C>(args)) == Ok::<
                (((Seq<u8>, usize), i32, u16, u16), nat),
                IoError,
            >(((name_field::<C>(), len as i32, 1u16, 0u16), 40))
            &&& request_bytes::<C>(args).skip(40) == C::Args::spec_encode(args)
            &&& request_bytes::<C>(args).len() == 40 + len
        }),
{
    let len = C::Args::spec_encode(args).len();
    let e = C::Args::spec_encode(args);
    lemma_reply_header::<C>((len as int) as i32, 1u16, 0u16, e);
    assert(request_bytes::<C>(args).skip(40) =~= e);
}

/// A reply body made of a response and a footer that reports no error
/// reads back as that response, consuming the whole body.
pub proof fn lemma_reply_ok<C: Command>(v: <C::Response as DeepView>::V, word: i32)
    where C::Response: Codec,
    requires
        C::Response::spec_wf(v),
    ensures
        <(C::Response, Footer)>::spec_decode(C::Response::spec_encode(v) + ok_footer_bytes(word))
            == Ok::<((<C::Response as DeepView>::V, Option<Seq<char>>), nat), IoError>(
            ((v, None), (C::Response::spec_encode(v) + ok_footer_bytes(word)).len()),
        ),
{
    let e = C::Response::spec_encode(v);
    let f = ok_footer_bytes(word);
    C::Response::lemma_roundtrip(v, f);
    assert((e + f).skip(e.len() as int) =~= f + seq![]);
    lemma_ok_footer(word, seq![]);
}

/// A reply body made of a response and a footer that reports an error
/// reads back as the error, with line breaks turned into spaces,
/// consuming the whole body.
pub proof fn lemma_reply_error<C: Command>(
    v: <C::Response as DeepView>::V,
    status: u32,
    desc: Seq<char>,
)
    where C::Response: Codec,
    requires
        C::Response::spec_wf(v),
        status != 0,
        encode_utf8(desc).len() <= i32::MAX,
    ensures
        <(C::Response, Footer)>::spec_decode(
            C::Response::spec_encode(v) + error_footer_bytes(status, desc),
        ) == Ok::<((<C::Response as DeepView>::V, Option<Seq<char>>), nat), IoError>(
            (
                (v, Some(flatten_newlines(desc))),
                (C::Response::spec_encode(v) + error_footer_bytes(status, desc)).len(),
            ),
        ),
{
    let e = C::Response::spec_encode(v);
    let f = error_footer_bytes(status, desc);
    C::Response::lemma_roundtrip(v, f);
    assert((e + f).skip(e.len() as int) =~= f + seq![]);
    lemma_error_footer(status, desc, seq![]);
}

} // verus!
