//! Records: the fields of a record travel one after the other, in order.
//! A tuple of codec values is itself a codec value; the request and
//! response structures of the command catalogue are read and written
//! through the tuple of their fields.

use vstd::prelude::*;

use crate::codec::{Codec, CodecRead, CodecWrite};
use crate::error::IoError;

verus! {

impl<A: CodecWrite, B: CodecWrite> CodecWrite for (A, B) {
    open spec fn spec_encode(v: (<A as DeepView>::V, <B as DeepView>::V)) -> Seq<u8> {
        A::spec_encode(v.0) + B::spec_encode(v.1)
    }

    fn codec_write(&self, out: &mut Vec<u8>) {
        let ghost start = out@;
        self.0.codec_write(out);
        self.1.codec_write(out);
        assert(out@ =~= start + Self::spec_encode(self.deep_view()));
    }

    fn codec_len(&self) -> usize {
        self.0.codec_len() + self.1.codec_len()
    }
}

impl<A: CodecRead, B: CodecRead> CodecRead for (A, B) {
    open spec fn spec_decode(input: Seq<u8>) -> Result<
        ((<A as DeepView>::V, <B as DeepView>::V), nat),
        IoError,
    > {
        match A::spec_decode(input) {
            Err(e) => Err(e),
            Ok((a, n)) => match B::spec_decode(input.skip(n as int)) {
                Err(e) => Err(e),
                Ok((b, m)) => Ok(((a, b), n + m)),
            },
        }
    }

    proof fn lemma_decode_len(input: Seq<u8>) {
        A::lemma_decode_len(input);
        if let Ok((a, n)) = A::spec_decode(input) {
            B::lemma_decode_len(input.skip(n as int));
        }
    }

    fn codec_read(input: &[u8], pos: usize) -> (r: Result<((A, B), usize), IoError>) {
        let (a, mid) = match A::codec_read(input, pos) {
            Ok(x) => x,
            Err(e) => return Err(e),
        };
        proof {
            assert(input@.skip(pos as int).skip(mid - pos) =~= input@.skip(mid as int));
        }
        let (b, end) = match B::codec_read(input, mid) {
            Ok(x) => x,
            Err(e) => return Err(e),
        };
        Ok(((a, b), end))
    }
}

impl<A: Codec, B: Codec> Codec for (A, B) {
    open spec fn spec_wf(v: (<A as DeepView>::V, <B as DeepView>::V)) -> bool {
        A::spec_wf(v.0) && B::spec_wf(v.1)
    }

    proof fn lemma_roundtrip(v: (<A as DeepView>::V, <B as DeepView>::V), rest: Seq<u8>) {
        let ea = A::spec_encode(v.0);
        let eb = B::spec_encode(v.1);
        assert((ea + eb) + rest =~= ea + (eb + rest));
        A::lemma_roundtrip(v.0, eb + rest);
        assert((ea + (eb + rest)).skip(ea.len() as int) =~= eb + rest);
        B::lemma_roundtrip(v.1, rest);
    }
}

impl<A: CodecWrite, B: CodecWrite, C: CodecWrite> CodecWrite for (A, B, C) {
    open spec fn spec_encode(
        v: (<A as DeepView>::V, <B as DeepView>::V, <C as DeepView>::V),
    ) -> Seq<u8> {
        <(A, (B, C))>::spec_encode((v.0, (v.1, v.2)))
    }

    fn codec_write(&self, out: &mut Vec<u8>) {
        let ghost start = out@;
        self.0.codec_write(out);
        self.1.codec_write(out);
        self.2.codec_write(out);
        assert(out@ =~= start + Self::spec_encode(self.deep_view()));
    }

    fn codec_len(&self) -> usize {
        self.0.codec_len() + self.1.codec_len() + self.2.codec_len()
    }
}

impl<A: CodecRead, B: CodecRead, C: CodecRead> CodecRead for (A, B, C) {
    open spec fn spec_decode(input: Seq<u8>) -> Result<
        ((<A as DeepView>::V, <B as DeepView>::V, <C as DeepView>::V), nat),
        IoError,
    > {
        match <(A, (B, C))>::spec_decode(input) {
            Err(e) => Err(e),
            Ok(((a, (b, c)), n)) => Ok(((a, b, c), n)),
        }
    }

    proof fn lemma_decode_len(input: Seq<u8>) {
        <(A, (B, C))>::lemma_decode_len(input);
    }

    fn codec_read(input: &[u8], pos: usize) -> (r: Result<((A, B, C), usize), IoError>) {
        match <(A, (B, C))>::codec_read(input, pos) {
            Ok(((a, (b, c)), end)) => Ok(((a, b, c), end)),
            Err(e) => Err(e),
        }
    }
}

impl<A: Codec, B: Codec, C: Codec> Codec for (A, B, C) {
    open spec fn spec_wf(v: (<A as DeepView>::V, <B as DeepView>::V, <C as DeepView>::V)) -> bool {
        <(A, (B, C))>::spec_wf((v.0, (v.1, v.2)))
    }

    proof fn lemma_roundtrip(
        v: (<A as DeepView>::V, <B as DeepView>::V, <C as DeepView>::V),
        rest: Seq<u8>,
    ) {
        <(A, (B, C))>::lemma_roundtrip((v.0, (v.1, v.2)), rest);
    }
}

impl<A: CodecWrite, B: CodecWrite, C: CodecWrite, D: CodecWrite> CodecWrite for (A, B, C, D) {
    open spec fn spec_encode(
        v: (<A as DeepView>::V, <B as DeepView>::V, <C as DeepView>::V, <D as DeepView>::V),
    ) -> Seq<u8> {
        <(A, (B, C, D))>::spec_encode((v.0, (v.1, v.2, v.3)))
    }

    fn codec_write(&self, out: &mut Vec<u8>) {
        let ghost start = out@;
        self.0.codec_write(out);
        self.1.codec_write(out);
        self.2.codec_write(out);
        self.3.codec_write(out);
        assert(out@ =~= start + Self::spec_encode(self.deep_view()));
    }

    fn codec_len(&self) -> usize {
        self.0.codec_len() + self.1.codec_len() + self.2.codec_len() + self.3.codec_len()
    }
}

impl<A: CodecRead, B: CodecRead, C: CodecRead, D: CodecRead> CodecRead for (A, B, C, D) {
    open spec fn spec_decode(input: Seq<u8>) -> Result<
        (
            (<A as DeepView>::V, <B as DeepView>::V, <C as DeepView>::V, <D as DeepView>::V),
            nat,
        ),
        IoError,
    > {
        match <(A, (B, C, D))>::spec_decode(input) {
            Err(e) => Err(e),
            Ok(((a, (b, c, d)), n)) => Ok(((a, b, c, d), n)),
        }
    }

    proof fn lemma_decode_len(input: Seq<u8>) {
        <(A, (B, C, D))>::lemma_decode_len(input);
    }

    fn codec_read(input: &[u8], pos: usize) -> (r: Result<((A, B, C, D), usize), IoError>) {
        match <(A, (B, C, D))>::codec_read(input, pos) {
            Ok(((a, (b, c, d)), end)) => Ok(((a, b, c, d), end)),
            Err(e) => Err(e),
        }
    }
}

impl<A: Codec, B: Codec, C: Codec, D: Codec> Codec for (A, B, C, D) {
    open spec fn spec_wf(
        v: (<A as DeepView>::V, <B as DeepView>::V, <C as DeepView>::V, <D as DeepView>::V),
    ) -> bool {
        <(A, (B, C, D))>::spec_wf((v.0, (v.1, v.2, v.3)))
    }

    proof fn lemma_roundtrip(
        v: (<A as DeepView>::V, <B as DeepView>::V, <C as DeepView>::V, <D as DeepView>::V),
        rest: Seq<u8>,
    ) {
        <(A, (B, C, D))>::lemma_roundtrip((v.0, (v.1, v.2, v.3)), rest);
    }
}

impl<
    A: CodecWrite,
    B: CodecWrite,
    C: CodecWrite,
    D: CodecWrite,
    E: CodecWrite,
> CodecWrite for (A, B, C, D, E) {
    open spec fn spec_encode(
        v: (
            <A as DeepView>::V,
            <B as DeepView>::V,
            <C as DeepView>::V,
            <D as DeepView>::V,
            <E as DeepView>::V,
        ),
    ) -> Seq<u8> {
        <(A, (B, C, D, E))>::spec_encode((v.0, (v.1, v.2, v.3, v.4)))
    }

    fn codec_write(&self, out: &mut Vec<u8>) {
        let ghost start = out@;
        self.0.codec_write(out);
        self.1.codec_write(out);
        self.2.codec_write(out);
        self.3.codec_write(out);
        self.4.codec_write(out);
        assert(out@ =~= start + Self::spec_encode(self.deep_view()));
    }

    fn codec_len(&self) -> usize {
        self.0.codec_len() + self.1.codec_len() + self.2.codec_len() + self.3.codec_len()
            + self.4.codec_len()
    }
}

impl<
    A: CodecRead,
    B: CodecRead,
    C: CodecRead,
    D: CodecRead,
    E: CodecRead,
> CodecRead for (A, B, C, D, E) {
    open spec fn spec_decode(input: Seq<u8>) -> Result<
        (
            (
                <A as DeepView>::V,
                <B as DeepView>::V,
                <C as DeepView>::V,
                <D as DeepView>::V,
                <E as DeepView>::V,
            ),
            nat,
        ),
        IoError,
    > {
        match <(A, (B, C, D, E))>::spec_decode(input) {
            Err(e) => Err(e),
            Ok(((a, (b, c, d, e)), n)) => Ok(((a, b, c, d, e), n)),
        }
    }

    proof fn lemma_decode_len(input: Seq<u8>) {
        <(A, (B, C, D, E))>::lemma_decode_len(input);
    }

    fn codec_read(input: &[u8], pos: usize) -> (r: Result<((A, B, C, D, E), usize), IoError>) {
        match <(A, (B, C, D, E))>::codec_read(input, pos) {
            Ok(((a, (b, c, d, e)), end)) => Ok(((a, b, c, d, e), end)),
            Err(e) => Err(e),
        }
    }
}

impl<A: Codec, B: Codec, C: Codec, D: Codec, E: Codec> Codec for (A, B, C, D, E) {
    open spec fn spec_wf(
        v: (
            <A as DeepView>::V,
            <B as DeepView>::V,
            <C as DeepView>::V,
            <D as DeepView>::V,
            <E as DeepView>::V,
        ),
    ) -> bool {
        <(A, (B, C, D, E))>::spec_wf((v.0, (v.1, v.2, v.3, v.4)))
    }

    proof fn lemma_roundtrip(
        v: (
            <A as DeepView>::V,
            <B as DeepView>::V,
            <C as DeepView>::V,
            <D as DeepView>::V,
            <E as DeepView>::V,
        ),
        rest: Seq<u8>,
    ) {
        <(A, (B, C, D, E))>::lemma_roundtrip((v.0, (v.1, v.2, v.3, v.4)), rest);
    }
}

} // verus!
