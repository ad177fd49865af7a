//! Strings, arrays and two-dimensional arrays.
//!
//! A string travels as the `i32` byte length of its UTF-8 encoding followed
//! by those bytes. An array travels as its `i32` element count followed by
//! the elements; a count of zero or below reads as the empty array. A
//! two-dimensional array travels as its two sizes, each a `usize`, followed
//! by the elements row after row, with no count of its own.

use vstd::prelude::*;
use vstd::string::StringSliceAdditionalSpecFns;
use vstd::utf8::{decode_utf8, encode_utf8, valid_utf8};

use crate::codec::primitives::{
    be32, from_be32, lemma_be32_roundtrip, lemma_u32_wire, lemma_usize_wire, usize_word,
};
use crate::codec::{Codec, CodecRead, CodecWrite};
use crate::error::IoError;

verus! {

broadcast use vstd::utf8::group_utf8_lib;

/// `String::from_utf8`: it succeeds exactly when the bytes are valid UTF-8,
/// and the string it then returns is the one those bytes encode.
#[verifier::external_body]
pub(crate) fn string_from_utf8(bytes: Vec<u8>) -> (r: Option<String>)
    ensures
        r is Some <==> valid_utf8(bytes@),
        r matches Some(s) ==> s@ == decode_utf8(bytes@),
{
    String::from_utf8(bytes).ok()
}

/// Appends `bytes` to `out`.
pub fn push_bytes(out: &mut Vec<u8>, bytes: &[u8])
    ensures
        final(out)@ == old(out)@ + bytes@,
{
    let ghost start = out@;
    let n = bytes.len();
    for i in 0..n
        invariant
            n == bytes@.len(),
            out@ == start + bytes@.take(i as int),
    {
        out.push(bytes[i]);
        assert(bytes@.take(i + 1) =~= bytes@.take(i as int).push(bytes@[i as int]));
    }
    assert(bytes@.take(n as int) =~= bytes@);
}

/// Copies `len` bytes of `input` starting at `pos`.
pub fn copy_bytes(input: &[u8], pos: usize, len: usize) -> (r: Vec<u8>)
    requires
        pos + len <= input@.len(),
    ensures
        r@ == input@.subrange(pos as int, pos + len),
{
    let mut r: Vec<u8> = Vec::new();
    let total = input.len();
    for i in 0..len
        invariant
            total == input@.len(),
            pos + len <= input@.len(),
            r@ == input@.subrange(pos as int, pos + i),
    {
        r.push(input[pos + i]);
        assert(input@.subrange(pos as int, pos + i + 1) =~= input@.subrange(pos as int, pos + i).push(
            input@[pos + i],
        ));
    }
    r
}

/// The bytes of a string on the wire.
pub open spec fn string_encoding(s: Seq<char>) -> Seq<u8> {
    be32(((encode_utf8(s).len() as int) as i32) as u32) + encode_utf8(s)
}

impl CodecWrite for String {
    open spec fn spec_encode(v: Seq<char>) -> Seq<u8> {
        string_encoding(v)
    }

    fn codec_write(&self, out: &mut Vec<u8>) {
        let bytes = self.as_str().as_bytes();
        ((bytes.len() as i32) as u32).codec_write(out);
        push_bytes(out, bytes);
        assert(out@ =~= old(out)@ + string_encoding(self@));
    }

    fn codec_len(&self) -> usize {
        4 + self.as_str().as_bytes().len()
    }
}

impl CodecRead for String {
    /// A negative length is refused.
    open spec fn spec_decode(input: Seq<u8>) -> Result<(Seq<char>, nat), IoError> {
        if input.len() < 4 {
            Err(IoError::UnexpectedEof)
        } else {
            let n = from_be32(input) as i32;
            if n < 0 {
                Err(IoError::NegativeSize(n))
            } else if input.len() - 4 < n {
                Err(IoError::UnexpectedEof)
            } else if !valid_utf8(input.subrange(4, 4 + n)) {
                Err(IoError::InvalidUtf8)
            } else {
                Ok((decode_utf8(input.subrange(4, 4 + n)), (4 + n) as nat))
            }
        }
    }

    proof fn lemma_decode_len(input: Seq<u8>) {
    }

    fn codec_read(input: &[u8], pos: usize) -> (r: Result<(String, usize), IoError>) {
        let (n, start) = match i32::codec_read(input, pos) {
            Ok(x) => x,
            Err(e) => return Err(e),
        };
        if n < 0 {
            return Err(IoError::NegativeSize(n));
        }
        let len = n as usize;
        if input.len() - start < len {
            return Err(IoError::UnexpectedEof);
        }
        let raw = copy_bytes(input, start, len);
        assert(raw@ =~= input@.skip(pos as int).subrange(4, 4 + n));
        match string_from_utf8(raw) {
            Some(s) => Ok((s, start + len)),
            None => Err(IoError::InvalidUtf8),
        }
    }
}

impl Codec for String {
    /// The UTF-8 length has to fit the `i32` length field.
    open spec fn spec_wf(v: Seq<char>) -> bool {
        encode_utf8(v).len() <= i32::MAX
    }

    proof fn lemma_roundtrip(v: Seq<char>, rest: Seq<u8>) {
        let b = encode_utf8(v);
        let n = b.len();
        let w = ((n as int) as i32) as u32;
        let all = string_encoding(v) + rest;
        assert(all =~= be32(w) + (b + rest));
        lemma_be32_roundtrip(w, b + rest);
        assert(n <= 0x7fff_ffff);
        assert((w as i32) as int == n);
        assert(all.subrange(4, 4 + n as int) =~= b);
    }
}

/// A string travels as the word of its UTF-8 length, then its UTF-8
/// bytes; the empty string is the four bytes of a zero length.
pub proof fn lemma_string_wire(s: Seq<char>)
    requires
        String::spec_wf(s),
    ensures
        String::spec_encode(s) == u32::spec_encode(encode_utf8(s).len() as u32) + encode_utf8(s),
        String::spec_encode(Seq::empty()) == seq![0u8, 0u8, 0u8, 0u8],
{
    let n = encode_utf8(s).len();
    assert(((n as int) as i32) as u32 == n as u32);
    lemma_u32_wire(0);
    assert(encode_utf8(Seq::<char>::empty()) =~= Seq::<u8>::empty());
    assert(String::spec_encode(Seq::empty()) =~= seq![0u8, 0u8, 0u8, 0u8]);
}

/// The bytes of a sequence of values, one after the other.
pub open spec fn encode_items<T: CodecWrite>(vs: Seq<<T as DeepView>::V>) -> Seq<u8>
    decreases vs.len(),
{
    if vs.len() == 0 {
        seq![]
    } else {
        encode_items::<T>(vs.drop_last()) + T::spec_encode(vs.last())
    }
}

/// The items of a sequence travel first to last: the first item's bytes,
/// then those of the rest.
pub proof fn lemma_encode_items_front<T: CodecWrite>(x: <T as DeepView>::V, vs: Seq<<T as DeepView>::V>)
    ensures
        encode_items::<T>(Seq::empty()) == Seq::<u8>::empty(),
        encode_items::<T>(seq![x] + vs) == T::spec_encode(x) + encode_items::<T>(vs),
    decreases vs.len(),
{
    let all = seq![x] + vs;
    if vs.len() == 0 {
        assert(all.drop_last() =~= Seq::<<T as DeepView>::V>::empty());
        assert(all.last() == x);
        assert(encode_items::<T>(all.drop_last()) =~= Seq::<u8>::empty());
        assert(encode_items::<T>(vs) =~= Seq::<u8>::empty());
        assert(encode_items::<T>(all) =~= T::spec_encode(x) + encode_items::<T>(vs));
    } else {
        assert(all.drop_last() =~= seq![x] + vs.drop_last());
        assert(all.last() == vs.last());
        lemma_encode_items_front::<T>(x, vs.drop_last());
        assert(encode_items::<T>(all) == encode_items::<T>(seq![x] + vs.drop_last())
            + T::spec_encode(vs.last()));
        assert(encode_items::<T>(vs) == encode_items::<T>(vs.drop_last()) + T::spec_encode(
            vs.last(),
        ));
        assert(encode_items::<T>(all) =~= T::spec_encode(x) + encode_items::<T>(vs));
    }
}

/// Reads `n` values one after the other from the front of `input`: the
/// values and the bytes they take, or the first failure.
pub open spec fn decode_items<T: CodecRead>(input: Seq<u8>, n: nat) -> Result<
    (Seq<<T as DeepView>::V>, nat),
    IoError,
>
    decreases n,
{
    if n == 0 {
        Ok((seq![], 0))
    } else {
        match decode_items::<T>(input, (n - 1) as nat) {
            Err(e) => Err(e),
            Ok((vs, m)) => match T::spec_decode(input.skip(m as int)) {
                Err(e) => Err(e),
                Ok((v, k)) => Ok((vs.push(v), m + k)),
            },
        }
    }
}

/// Reading `n` values yields `n` values and never goes past the input.
pub proof fn lemma_decode_items_len<T: CodecRead>(input: Seq<u8>, n: nat)
    ensures
        decode_items::<T>(input, n) matches Ok((vs, m)) ==> vs.len() == n && m <= input.len(),
    decreases n,
{
    if n > 0 {
        lemma_decode_items_len::<T>(input, (n - 1) as nat);
        if let Ok((vs, m)) = decode_items::<T>(input, (n - 1) as nat) {
            T::lemma_decode_len(input.skip(m as int));
        }
    }
}

/// Once reading fails, reading more values fails the same way.
pub proof fn lemma_decode_items_err<T: CodecRead>(input: Seq<u8>, n1: nat, n2: nat)
    requires
        n1 <= n2,
        decode_items::<T>(input, n1) is Err,
    ensures
        decode_items::<T>(input, n2) == decode_items::<T>(input, n1),
    decreases n2,
{
    if n1 < n2 {
        lemma_decode_items_err::<T>(input, n1, (n2 - 1) as nat);
    }
}

/// The encoding of a prefix is no longer than the encoding of the whole.
pub proof fn lemma_encode_items_prefix_len<T: CodecWrite>(vs: Seq<<T as DeepView>::V>, i: int)
    requires
        0 <= i <= vs.len(),
    ensures
        encode_items::<T>(vs.take(i)).len() <= encode_items::<T>(vs).len(),
    decreases vs.len(),
{
    if i < vs.len() {
        assert(vs.drop_last().take(i) =~= vs.take(i));
        lemma_encode_items_prefix_len::<T>(vs.drop_last(), i);
    } else {
        assert(vs.take(i) =~= vs);
    }
}

/// Reading back a sequence of written values gives the values.
pub proof fn lemma_items_roundtrip<T: Codec>(vs: Seq<<T as DeepView>::V>, rest: Seq<u8>)
    requires
        forall|i: int| 0 <= i < vs.len() ==> T::spec_wf(#[trigger] vs[i]),
    ensures
        decode_items::<T>(encode_items::<T>(vs) + rest, vs.len()) == Ok::<
            (Seq<<T as DeepView>::V>, nat),
            IoError,
        >((vs, encode_items::<T>(vs).len())),
    decreases vs.len(),
{
    if vs.len() > 0 {
        let init = vs.drop_last();
        let last = vs.last();
        let e_init = encode_items::<T>(init);
        let e_last = T::spec_encode(last);
        let all = encode_items::<T>(vs) + rest;
        assert(all =~= e_init + (e_last + rest));
        assert forall|i: int| 0 <= i < init.len() implies T::spec_wf(#[trigger] init[i]) by {
            assert(init[i] == vs[i]);
        }
        lemma_items_roundtrip::<T>(init, e_last + rest);
        assert(all.skip(e_init.len() as int) =~= e_last + rest);
        assert(T::spec_wf(vs[vs.len() - 1]));
        T::lemma_roundtrip(last, rest);
        assert(init.push(last) =~= vs);
    } else {
        assert(vs =~= seq![]);
    }
}

/// Reads `count` values one after the other, starting at `pos`.
pub fn read_items<T: CodecRead>(input: &[u8], pos: usize, count: u64) -> (r: Result<
    (Vec<T>, usize),
    IoError,
>)
    requires
        pos <= input@.len(),
    ensures
        match r {
            Ok((vs, end)) => {
                &&& pos <= end <= input@.len()
                &&& decode_items::<T>(input@.skip(pos as int), count as nat) == Ok::<
                    (Seq<<T as DeepView>::V>, nat),
                    IoError,
                >((vs.deep_view(), (end - pos) as nat))
            },
            Err(e) => decode_items::<T>(input@.skip(pos as int), count as nat) == Err::<
                (Seq<<T as DeepView>::V>, nat),
                IoError,
            >(e),
        },
{
    let ghost s = input@.skip(pos as int);
    let mut items: Vec<T> = Vec::new();
    let mut at = pos;
    let mut i: u64 = 0;
    assert(items.deep_view() =~= seq![]);
    while i < count
        invariant
            i <= count,
            pos <= at <= input@.len(),
            s == input@.skip(pos as int),
            decode_items::<T>(s, i as nat) == Ok::<(Seq<<T as DeepView>::V>, nat), IoError>(
                (items.deep_view(), (at - pos) as nat),
            ),
        decreases count - i,
    {
        assert(s.skip(at - pos) =~= input@.skip(at as int));
        match T::codec_read(input, at) {
            Ok((v, next)) => {
                let ghost before = items.deep_view();
                items.push(v);
                assert(items.deep_view() =~= before.push(v.deep_view()));
                at = next;
                i = i + 1;
            },
            Err(e) => {
                proof {
                    lemma_decode_items_err::<T>(s, (i + 1) as nat, count as nat);
                }
                return Err(e);
            },
        }
    }
    Ok((items, at))
}

/// Appends the values of `items`, one after the other.
pub fn write_items<T: CodecWrite>(items: &Vec<T>, out: &mut Vec<u8>)
    ensures
        final(out)@ == old(out)@ + encode_items::<T>(items.deep_view()),
{
    let ghost start = out@;
    let ghost dv = items.deep_view();
    let n = items.len();
    for i in 0..n
        invariant
            n == items@.len(),
            dv == items.deep_view(),
            out@ == start + encode_items::<T>(dv.take(i as int)),
    {
        let ghost before = out@;
        items[i].codec_write(out);
        assert(dv.take(i + 1).drop_last() =~= dv.take(i as int));
        assert(dv.take(i + 1).last() == items@[i as int].deep_view());
        assert(out@ =~= start + encode_items::<T>(dv.take(i + 1)));
    }
    assert(dv.take(n as int) =~= dv);
}

/// The number of bytes that `write_items` appends.
pub fn items_len<T: CodecWrite>(items: &Vec<T>) -> (n: usize)
    requires
        encode_items::<T>(items.deep_view()).len() <= usize::MAX,
    ensures
        n == encode_items::<T>(items.deep_view()).len(),
{
    let ghost dv = items.deep_view();
    let len = items.len();
    let mut total: usize = 0;
    for i in 0..len
        invariant
            len == items@.len(),
            dv == items.deep_view(),
            encode_items::<T>(dv).len() <= usize::MAX,
            total == encode_items::<T>(dv.take(i as int)).len(),
    {
        assert(dv.take(i + 1).drop_last() =~= dv.take(i as int));
        assert(dv.take(i + 1).last() == items@[i as int].deep_view());
        proof {
            lemma_encode_items_prefix_len::<T>(dv, i + 1);
        }
        total = total + items[i].codec_len();
    }
    assert(dv.take(len as int) =~= dv);
    total
}

impl<T: CodecWrite> CodecWrite for Vec<T> {
    open spec fn spec_encode(v: Seq<<T as DeepView>::V>) -> Seq<u8> {
        be32(((v.len() as int) as i32) as u32) + encode_items::<T>(v)
    }

    fn codec_write(&self, out: &mut Vec<u8>) {
        let ghost start = out@;
        ((self.len() as i32) as u32).codec_write(out);
        write_items(self, out);
        assert(out@ =~= start + Self::spec_encode(self.deep_view()));
    }

    fn codec_len(&self) -> usize {
        4 + items_len(self)
    }
}

impl<T: CodecRead> CodecRead for Vec<T> {
    open spec fn spec_decode(input: Seq<u8>) -> Result<(Seq<<T as DeepView>::V>, nat), IoError> {
        if input.len() < 4 {
            Err(IoError::UnexpectedEof)
        } else if (from_be32(input) as i32) <= 0 {
            Ok((seq![], 4))
        } else {
            match decode_items::<T>(input.skip(4), (from_be32(input) as i32) as nat) {
                Err(e) => Err(e),
                Ok((vs, m)) => Ok((vs, 4 + m)),
            }
        }
    }

    proof fn lemma_decode_len(input: Seq<u8>) {
        if input.len() >= 4 {
            lemma_decode_items_len::<T>(input.skip(4), (from_be32(input) as i32) as nat);
        }
    }

    fn codec_read(input: &[u8], pos: usize) -> (r: Result<(Vec<T>, usize), IoError>) {
        let (n, start) = match i32::codec_read(input, pos) {
            Ok(x) => x,
            Err(e) => return Err(e),
        };
        if n <= 0 {
            let empty: Vec<T> = Vec::new();
            assert(empty.deep_view() =~= seq![]);
            return Ok((empty, start));
        }
        assert(input@.skip(pos as int).skip(4) =~= input@.skip(start as int));
        match read_items(input, start, n as u64) {
            Ok((vs, end)) => Ok((vs, end)),
            Err(e) => Err(e),
        }
    }
}

impl<T: Codec> Codec for Vec<T> {
    /// The count has to fit the `i32` count field, and each element has to
    /// read back.
    open spec fn spec_wf(v: Seq<<T as DeepView>::V>) -> bool {
        &&& v.len() <= i32::MAX
        &&& forall|i: int| 0 <= i < v.len() ==> T::spec_wf(#[trigger] v[i])
    }

    proof fn lemma_roundtrip(v: Seq<<T as DeepView>::V>, rest: Seq<u8>) {
        let n = v.len();
        let w = ((n as int) as i32) as u32;
        let e = encode_items::<T>(v);
        let all = Self::spec_encode(v) + rest;
        assert(all =~= be32(w) + (e + rest));
        lemma_be32_roundtrip(w, e + rest);
        assert((w as i32) as int == n);
        assert(all.skip(4) =~= e + rest);
        lemma_items_roundtrip::<T>(v, rest);
        if n == 0 {
            assert(v =~= seq![]);
            assert(e =~= seq![]);
        }
    }
}

/// A two-dimensional array: `size` holds the two dimensions and `data`
/// the elements, row after row.
#[derive(Debug, Clone)]
pub struct Vec2D<T> {
    pub size: [usize; 2],
    pub data: Vec<T>,
}

impl<T: DeepView> DeepView for Vec2D<T> {
    type V = (usize, usize, Seq<<T as DeepView>::V>);

    open spec fn deep_view(&self) -> Self::V {
        (self.size@[0], self.size@[1], self.data.deep_view())
    }
}

impl<T> Default for Vec2D<T> {
    /// The empty array, of size zero by zero.
    fn default() -> (r: Self)
        ensures
            r.size@ == seq![0usize, 0usize],
            r.data@ == Seq::<T>::empty(),
    {
        Vec2D { size: [0, 0], data: Vec::new() }
    }
}

impl<T: CodecWrite> CodecWrite for Vec2D<T> {
    open spec fn spec_encode(v: (usize, usize, Seq<<T as DeepView>::V>)) -> Seq<u8> {
        be32(usize_word(v.0)) + be32(usize_word(v.1)) + encode_items::<T>(v.2)
    }

    fn codec_write(&self, out: &mut Vec<u8>) {
        let ghost start = out@;
        self.size[0].codec_write(out);
        self.size[1].codec_write(out);
        write_items(&self.data, out);
        assert(out@ =~= start + Self::spec_encode(self.deep_view()));
    }

    fn codec_len(&self) -> usize {
        8 + items_len(&self.data)
    }
}

impl<T: CodecRead> CodecRead for Vec2D<T> {
    /// Two sizes, each refused when negative, then as many elements as
    /// their product.
    open spec fn spec_decode(input: Seq<u8>) -> Result<
        ((usize, usize, Seq<<T as DeepView>::V>), nat),
        IoError,
    > {
        match <(usize, usize)>::spec_decode(input) {
            Err(e) => Err(e),
            Ok(((s0, s1), n)) => match decode_items::<T>(input.skip(n as int), (s0 * s1) as nat) {
                Err(e) => Err(e),
                Ok((vs, m)) => Ok(((s0, s1, vs), n + m)),
            },
        }
    }

    proof fn lemma_decode_len(input: Seq<u8>) {
        <(usize, usize)>::lemma_decode_len(input);
        if let Ok(((s0, s1), n)) = <(usize, usize)>::spec_decode(input) {
            lemma_decode_items_len::<T>(input.skip(n as int), (s0 * s1) as nat);
        }
    }

    fn codec_read(input: &[u8], pos: usize) -> (r: Result<(Vec2D<T>, usize), IoError>) {
        let ((s0, s1), start) = match <(usize, usize)>::codec_read(input, pos) {
            Ok(x) => x,
            Err(e) => return Err(e),
        };
        assert(s0 <= i32::MAX && s1 <= i32::MAX);
        assert((s0 as u64) * (s1 as u64) <= u64::MAX) by (nonlinear_arith)
            requires
                s0 <= 0x7fff_ffff,
                s1 <= 0x7fff_ffff,
        ;
        let count = (s0 as u64) * (s1 as u64);
        assert(input@.skip(pos as int).skip(start - pos) =~= input@.skip(start as int));
        match read_items(input, start, count) {
            Ok((data, end)) => {
                let v = Vec2D { size: [s0, s1], data };
                assert(v.deep_view() == (s0, s1, data.deep_view()));
                Ok((v, end))
            },
            Err(e) => Err(e),
        }
    }
}

impl<T: Codec> Codec for Vec2D<T> {
    /// Both sizes fit the `i32` size fields, the element count is their
    /// product, and each element reads back.
    open spec fn spec_wf(v: (usize, usize, Seq<<T as DeepView>::V>)) -> bool {
        &&& v.0 <= i32::MAX
        &&& v.1 <= i32::MAX
        &&& v.2.len() == v.0 * v.1
        &&& forall|i: int| 0 <= i < v.2.len() ==> T::spec_wf(#[trigger] v.2[i])
    }

    proof fn lemma_roundtrip(v: (usize, usize, Seq<<T as DeepView>::V>), rest: Seq<u8>) {
        let e = encode_items::<T>(v.2);
        let all = Self::spec_encode(v) + rest;
        let sizes = be32(usize_word(v.0)) + be32(usize_word(v.1));
        assert(all =~= sizes + (e + rest));
        <(usize, usize)>::lemma_roundtrip((v.0, v.1), e + rest);
        assert(all.skip(8) =~= e + rest);
        lemma_items_roundtrip::<T>(v.2, rest);
    }
}

/// A sequence travels as the word of its count, then its items; a
/// two-dimensional array as the words of its two sizes, then its items.
pub proof fn lemma_array_wire<T: CodecWrite>(vs: Seq<<T as DeepView>::V>, rows: usize, cols: usize)
    requires
        vs.len() <= i32::MAX,
        rows <= i32::MAX,
        cols <= i32::MAX,
    ensures
        <Vec<T>>::spec_encode(vs) == u32::spec_encode(vs.len() as u32) + encode_items::<T>(vs),
        <Vec2D<T>>::spec_encode((rows, cols, vs)) == u32::spec_encode(rows as u32) + u32::spec_encode(
            cols as u32,
        ) + encode_items::<T>(vs),
{
    let n = vs.len();
    assert(((n as int) as i32) as u32 == n as u32);
    lemma_usize_wire(rows);
    lemma_usize_wire(cols);
}

} // verus!
