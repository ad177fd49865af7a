//! Fixed-width text fields: exactly `N` bytes on the wire, holding UTF-8
//! text up to the first NUL byte (or all `N` bytes when there is none).

use vstd::prelude::*;
use vstd::string::StringSliceAdditionalSpecFns;
use vstd::utf8::{decode_utf8, valid_utf8};

use crate::codec::allocating::{copy_bytes, push_bytes, string_from_utf8};
use crate::codec::{Codec, CodecRead, CodecWrite};
use crate::commands::Command;
use crate::error::IoError;

verus! {

broadcast use vstd::utf8::group_utf8_lib;

/// The index of the first NUL byte of `b`, or its length when it has none.
pub open spec fn nul_position(b: Seq<u8>) -> nat
    decreases b.len(),
{
    if b.len() == 0 {
        0
    } else if b[0] == 0 {
        0
    } else {
        1 + nul_position(b.drop_first())
    }
}

/// The text never extends past the bytes.
pub proof fn lemma_nul_position_bound(b: Seq<u8>)
    ensures
        nul_position(b) <= b.len(),
    decreases b.len(),
{
    if b.len() > 0 && b[0] != 0 {
        lemma_nul_position_bound(b.drop_first());
    }
}

/// `i` is where the text of `b` ends: no NUL before it, and a NUL or the
/// end of `b` at it.
pub open spec fn ends_text_at(b: Seq<u8>, i: int) -> bool {
    &&& 0 <= i <= b.len()
    &&& forall|j: int| 0 <= j < i ==> b[j] != 0
    &&& (i == b.len() || b[i] == 0)
}

/// The text ends at the first NUL byte.
pub proof fn lemma_nul_position(b: Seq<u8>, i: int)
    requires
        ends_text_at(b, i),
    ensures
        nul_position(b) == i,
    decreases b.len(),
{
    if b.len() > 0 && b[0] != 0 {
        assert(i > 0);
        assert forall|j: int| 0 <= j < i - 1 implies b.drop_first()[j] != 0 by {
            assert(b.drop_first()[j] == b[j + 1]);
        }
        if i < b.len() {
            assert(b.drop_first()[i - 1] == b[i]);
        }
        lemma_nul_position(b.drop_first(), i - 1);
    }
}

/// The `N` bytes of a field whose text is readable.
pub open spec fn fixed_text_wf(b: Seq<u8>, n: nat) -> bool {
    &&& b.len() == n
    &&& valid_utf8(b.take(nul_position(b) as int))
}

/// The text held by the bytes `b` of a field: the UTF-8 text before the
/// first NUL byte.
pub open spec fn field_text(b: Seq<u8>) -> Seq<char> {
    decode_utf8(b.take(nul_position(b) as int))
}

/// A text field of exactly `N` bytes.
#[derive(Debug)]
pub struct FixedString<const N: usize> {
    bytes: Vec<u8>,
    len: usize,
}

/// The text of a field value: its first `len` bytes, decoded.
pub open spec fn value_text(v: (Seq<u8>, usize)) -> Seq<char> {
    decode_utf8(v.0.take(v.1 as int))
}

impl<const N: usize> FixedString<N> {
    #[verifier::type_invariant]
    spec fn inv(self) -> bool {
        &&& self.bytes@.len() == N
        &&& self.len <= N
        &&& valid_utf8(self.bytes@.take(self.len as int))
    }

    /// The `N` bytes of the field.
    pub closed spec fn raw(&self) -> Seq<u8> {
        self.bytes@
    }

    /// The number of bytes of the field that hold its text.
    pub closed spec fn text_len(&self) -> usize {
        self.len
    }

    /// The text of the field.
    pub open spec fn text(&self) -> Seq<char> {
        value_text(self.deep_view())
    }

    /// The field holding `name` followed by NUL bytes.
    pub(crate) fn from_name(name: &str) -> (r: Self)
        requires
            name.spec_bytes().len() <= N,
        ensures
            r.raw() == name.spec_bytes() + Seq::new((N - name.spec_bytes().len()) as nat, |i| 0u8),
            r.text_len() == name.spec_bytes().len(),
            r.text() == name@,
    {
        let src = name.as_bytes();
        let mut bytes: Vec<u8> = Vec::new();
        push_bytes(&mut bytes, src);
        let len = src.len();
        let mut i = len;
        while i < N
            invariant
                len == src@.len(),
                len <= i <= N,
                bytes@ == src@ + Seq::new((i - len) as nat, |k| 0u8),
            decreases N - i,
        {
            bytes.push(0u8);
            i = i + 1;
            assert(bytes@ =~= src@ + Seq::new((i - len) as nat, |k| 0u8));
        }
        assert(bytes@.take(len as int) =~= src@);
        FixedString { bytes, len }
    }

    /// The header name field of command `C`.
    pub fn new_command_name<C: Command>() -> (r: Self)
        requires
            C::NAME.spec_bytes().len() <= N,
        ensures
            r.raw() == C::NAME.spec_bytes() + Seq::new(
                (N - C::NAME.spec_bytes().len()) as nat,
                |i| 0u8,
            ),
            r.text_len() == C::NAME.spec_bytes().len(),
            r.text() == C::NAME@,
    {
        Self::from_name(C::NAME)
    }

    /// The text of the field as an owned string.
    pub fn to_string(self) -> (r: String)
        ensures
            r@ == self.text(),
    {
        proof {
            use_type_invariant(&self);
        }
        let prefix = copy_bytes(self.bytes.as_slice(), 0, self.len);
        assert(prefix@ =~= self.bytes@.take(self.len as int));
        match string_from_utf8(prefix) {
            Some(s) => s,
            None => {
                assert(false);
                String::new()
            },
        }
    }

    /// Whether the text of the field is `s`.
    pub fn text_eq(&self, s: &str) -> (r: bool)
        ensures
            r == (self.text() == s@),
    {
        proof {
            use_type_invariant(self);
        }
        let other = s.as_bytes();
        let ghost mine = self.bytes@.take(self.len as int);
        let ghost same = mine == other@;
        let mut eq = self.len == other.len();
        if eq {
            let mut i: usize = 0;
            while i < self.len
                invariant
                    self.len == other@.len(),
                    self.len <= self.bytes@.len(),
                    mine == self.bytes@.take(self.len as int),
                    i <= self.len,
                    eq == forall|j: int| 0 <= j < i ==> mine[j] == other@[j],
                decreases self.len - i,
            {
                assert(mine[i as int] == self.bytes@[i as int]);
                eq = eq && self.bytes[i] == other[i];
                i = i + 1;
            }
            if eq {
                assert(mine =~= other@);
            }
        }
        proof {
            if eq {
                assert(decode_utf8(other@) == s@);
            }
            if self.text() == s@ {
                assert(mine =~= other@);
            }
        }
        eq
    }
}

/// The abstract value of a field: its `N` bytes and the number of them
/// that hold its text.
impl<const N: usize> DeepView for FixedString<N> {
    type V = (Seq<u8>, usize);

    open spec fn deep_view(&self) -> (Seq<u8>, usize) {
        (self.raw(), self.text_len())
    }
}

impl<const N: usize> CodecWrite for FixedString<N> {
    /// All `N` bytes are written, whatever follows the text.
    open spec fn spec_encode(v: (Seq<u8>, usize)) -> Seq<u8> {
        v.0
    }

    fn codec_write(&self, out: &mut Vec<u8>) {
        push_bytes(out, self.bytes.as_slice());
    }

    fn codec_len(&self) -> usize {
        proof {
            use_type_invariant(self);
        }
        N
    }
}

impl<const N: usize> CodecRead for FixedString<N> {
    /// `N` bytes whose text ends at the first NUL byte, refused when that
    /// text is not valid UTF-8.
    open spec fn spec_decode(input: Seq<u8>) -> Result<((Seq<u8>, usize), nat), IoError> {
        if input.len() < N {
            Err(IoError::UnexpectedEof)
        } else if !fixed_text_wf(input.take(N as int), N as nat) {
            Err(IoError::InvalidUtf8)
        } else {
            Ok(((input.take(N as int), nul_position(input.take(N as int)) as usize), N as nat))
        }
    }

    proof fn lemma_decode_len(input: Seq<u8>) {
    }

    fn codec_read(input: &[u8], pos: usize) -> (r: Result<(FixedString<N>, usize), IoError>) {
        if input.len() - pos < N {
            return Err(IoError::UnexpectedEof);
        }
        let bytes = copy_bytes(input, pos, N);
        assert(bytes@ =~= input@.skip(pos as int).take(N as int));
        let mut len: usize = 0;
        while len < N && bytes[len] != 0
            invariant
                bytes@.len() == N,
                len <= N,
                forall|j: int| 0 <= j < len ==> bytes@[j] != 0,
            decreases N - len,
        {
            len = len + 1;
        }
        proof {
            lemma_nul_position(bytes@, len as int);
        }
        let prefix = copy_bytes(bytes.as_slice(), 0, len);
        assert(prefix@ =~= bytes@.take(len as int));
        match string_from_utf8(prefix) {
            Some(_) => Ok((FixedString { bytes, len }, pos + N)),
            None => Err(IoError::InvalidUtf8),
        }
    }
}

impl<const N: usize> Codec for FixedString<N> {
    /// The bytes are readable and the text ends at the first NUL byte.
    open spec fn spec_wf(v: (Seq<u8>, usize)) -> bool {
        &&& fixed_text_wf(v.0, N as nat)
        &&& v.1 == nul_position(v.0)
    }

    proof fn lemma_roundtrip(v: (Seq<u8>, usize), rest: Seq<u8>) {
        assert((v.0 + rest).take(N as int) =~= v.0);
    }
}

/// Reading a field and writing it back gives the bytes that were read, and
/// the text read is the one before the first NUL byte.
pub proof fn lemma_fixed_string_reencode<const N: usize>(input: Seq<u8>)
    ensures
        FixedString::<N>::spec_decode(input) matches Ok((v, n)) ==> {
            &&& FixedString::<N>::spec_encode(v) == input.take(n as int)
            &&& value_text(v) == field_text(input.take(N as int))
        },
{
    lemma_nul_position_bound(input.take(N as int));
}

} // verus!
