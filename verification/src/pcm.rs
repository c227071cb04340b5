//! Sound samples: from the buffers of a decoder to one interleaved sequence.

use vstd::prelude::*;

use crate::bytes;
use crate::bytes::{read_i16, read_i32, read_u32, read_u64, ByteOrder};
use crate::timing::product;

verus! {

/// How a decoder writes one sample.
#[derive(Debug, Clone, Copy, PartialEq, Eq, Structural)]
pub enum SampleKind {
    U8,
    I16,
    I32,
    F32,
    F64,
    /// A format that is not played.
    Other,
}

/// A block of sound as a decoder leaves it.
pub struct SampleBuffers {
    pub kind: SampleKind,
    /// Each channel has its own buffer; otherwise the channels alternate in
    /// the first one.
    pub planar: bool,
    /// The order of the bytes of a sample.
    pub order: ByteOrder,
    pub channels: usize,
    /// Samples of each channel.
    pub samples: usize,
    pub planes: Vec<Vec<u8>>,
}

/// Interleaved samples.
pub enum Pcm {
    /// `values[i] / 2^shift` is sample `i`.
    Fixed { values: Vec<i32>, shift: u32 },
    /// The bit patterns of single-precision numbers.
    Single(Vec<u32>),
    /// The bit patterns of double-precision numbers.
    Double(Vec<u64>),
}

impl Pcm {
    /// How many samples there are, of all channels together.
    pub open spec fn len(self) -> int {
        match self {
            Pcm::Fixed { values, shift: _ } => values@.len() as int,
            Pcm::Single(words) => words@.len() as int,
            Pcm::Double(words) => words@.len() as int,
        }
    }
}

impl SampleKind {
    /// Bytes of one sample.
    pub open spec fn size(self) -> int {
        match self {
            SampleKind::U8 => 1,
            SampleKind::I16 => 2,
            SampleKind::I32 => 4,
            SampleKind::F32 => 4,
            SampleKind::F64 => 8,
            SampleKind::Other => 0,
        }
    }
}

impl SampleBuffers {
    /// Samples of all channels together.
    pub open spec fn total(self) -> int {
        self.samples * self.channels
    }

    /// The buffers hold the samples they announce. Those of a format that is
    /// not played may hold anything: they are not read.
    pub open spec fn complete(self) -> bool {
        self.kind != SampleKind::Other ==> {
            &&& self.channels > 0
            &&& self.total() <= usize::MAX
            &&& if self.planar {
                &&& self.planes@.len() >= self.channels
                &&& forall|c: int|
                    0 <= c < self.channels ==> #[trigger] self.planes@[c]@.len() >= self.samples
                        * self.kind.size()
            } else {
                &&& self.planes@.len() >= 1
                &&& self.planes@[0]@.len() >= self.total() * self.kind.size()
            }
        }
    }

    /// The buffer of interleaved sample `k`.
    pub open spec fn plane_of(self, k: int) -> Seq<u8> {
        if self.planar {
            self.planes@[k % (self.channels as int)]@
        } else {
            self.planes@[0]@
        }
    }

    /// Where interleaved sample `k` starts in its buffer.
    pub open spec fn offset_of(self, k: int) -> int {
        if self.planar {
            (k / (self.channels as int)) * self.kind.size()
        } else {
            k * self.kind.size()
        }
    }
}

impl SampleKind {
    fn bytes(self) -> (r: usize)
        ensures
            r == self.size(),
    {
        match self {
            SampleKind::U8 => 1,
            SampleKind::I16 => 2,
            SampleKind::I32 => 4,
            SampleKind::F32 => 4,
            SampleKind::F64 => 8,
            SampleKind::Other => 0,
        }
    }
}

impl SampleBuffers {
    /// Whether the buffers hold the samples they announce.
    pub fn is_complete(&self) -> (r: bool)
        ensures
            r == self.complete(),
    {
        if self.kind == SampleKind::Other {
            return true;
        }
        let size: usize = self.kind.bytes();
        let total: u128 = product(self.samples, self.channels);
        if self.channels == 0 || total > usize::MAX as u128 {
            return false;
        }
        if !self.planar {
            return self.planes.len() >= 1 && product(total as usize, size)
                <= self.planes[0].len() as u128;
        }
        if self.planes.len() < self.channels {
            return false;
        }
        let needed: u128 = product(self.samples, size);
        for c in 0..self.channels
            invariant
                self.kind != SampleKind::Other,
                self.planar,
                self.planes@.len() >= self.channels,
                needed == self.samples * self.kind.size(),
                forall|k: int| 0 <= k < c ==> #[trigger] self.planes@[k]@.len() >= needed,
        {
            if (self.planes[c].len() as u128) < needed {
                assert(self.planes@[c as int]@.len() < self.samples * self.kind.size());
                return false;
            }
        }
        true
    }
}

/// `pcm` holds the samples of `b`: sample `i` of channel `c` at place
/// `i * channels + c`.
pub open spec fn is_interleaved(pcm: Pcm, b: SampleBuffers) -> bool {
    match b.kind {
        SampleKind::U8 => {
            &&& pcm matches Pcm::Fixed { values, shift }
            &&& shift == 7
            &&& values@.len() == b.total()
            &&& forall|k: int|
                0 <= k < b.total() ==> #[trigger] values@[k] == b.plane_of(k)[b.offset_of(k)] - 128
        },
        SampleKind::I16 => {
            &&& pcm matches Pcm::Fixed { values, shift }
            &&& shift == 15
            &&& values@.len() == b.total()
            &&& forall|k: int|
                0 <= k < b.total() ==> #[trigger] values@[k] == bytes::signed16(
                    bytes::num16(b.plane_of(k), b.offset_of(k), b.order),
                )
        },
        SampleKind::I32 => {
            &&& pcm matches Pcm::Fixed { values, shift }
            &&& shift == 31
            &&& values@.len() == b.total()
            &&& forall|k: int|
                0 <= k < b.total() ==> #[trigger] values@[k] == bytes::signed32(
                    bytes::num32(b.plane_of(k), b.offset_of(k), b.order),
                )
        },
        SampleKind::F32 => {
            &&& pcm matches Pcm::Single(words)
            &&& words@.len() == b.total()
            &&& forall|k: int|
                0 <= k < b.total() ==> #[trigger] words@[k] == bytes::num32(b.plane_of(k), b.offset_of(k), b.order)
        },
        SampleKind::F64 => {
            &&& pcm matches Pcm::Double(words)
            &&& words@.len() == b.total()
            &&& forall|k: int|
                0 <= k < b.total() ==> #[trigger] words@[k] == bytes::num64(b.plane_of(k), b.offset_of(k), b.order)
        },
        SampleKind::Other => false,
    }
}

/// The buffer of interleaved sample `k`, and where the sample starts in it.
fn locate(b: &SampleBuffers, k: usize, size: usize) -> (r: (&Vec<u8>, usize))
    requires
        b.complete(),
        b.kind != SampleKind::Other,
        k < b.total(),
        size == b.kind.size(),
    ensures
        r.0@ == b.plane_of(k as int),
        r.1 == b.offset_of(k as int),
        r.1 + size <= r.0@.len(),
{
    let ch: usize = b.channels;
    if b.planar {
        let c: usize = k % ch;
        let i: usize = k / ch;
        let plane = &b.planes[c];
        let len: usize = plane.len();
        assert(i < b.samples) by (nonlinear_arith)
            requires
                k < b.samples * ch,
                i == k / ch,
                ch > 0,
        ;
        assert(i * size + size <= b.samples * size && i * size >= 0) by (nonlinear_arith)
            requires
                0 <= i < b.samples,
                size >= 0,
        ;
        assert(b.samples * size <= len);
        (plane, i * size)
    } else {
        let plane = &b.planes[0];
        let len: usize = plane.len();
        assert(k * size + size <= b.total() * size && k * size >= 0) by (nonlinear_arith)
            requires
                0 <= k < b.total(),
                size >= 0,
        ;
        assert(b.total() * size <= len);
        (plane, k * size)
    }
}

/// The samples of `b`, the channels alternating. Nothing for a format that is
/// not played.
pub fn interleave(b: &SampleBuffers) -> (r: Option<Pcm>)
    requires
        b.complete(),
    ensures
        r is Some == (b.kind != SampleKind::Other),
        r matches Some(pcm) ==> is_interleaved(pcm, *b),
{
    if b.kind == SampleKind::Other {
        return None;
    }
    assert(b.samples * b.channels >= 0) by (nonlinear_arith);
    let n: usize = b.samples * b.channels;
    match b.kind {
        SampleKind::U8 => {
            let mut values: Vec<i32> = Vec::new();
            for k in 0..n
                invariant
                    b.complete(),
                    b.kind == SampleKind::U8,
                    n == b.total(),
                    values@.len() == k,
                    forall|j: int|
                        0 <= j < k ==> #[trigger] values@[j] == b.plane_of(j)[b.offset_of(j)] - 128,
            {
                let (plane, at) = locate(b, k, 1);
                values.push(plane[at] as i32 - 128);
            }
            Some(Pcm::Fixed { values, shift: 7 })
        },
        SampleKind::I16 => {
            let mut values: Vec<i32> = Vec::new();
            for k in 0..n
                invariant
                    b.complete(),
                    b.kind == SampleKind::I16,
                    n == b.total(),
                    values@.len() == k,
                    forall|j: int|
                        0 <= j < k ==> #[trigger] values@[j] == bytes::signed16(
                            bytes::num16(b.plane_of(j), b.offset_of(j), b.order),
                        ),
            {
                let (plane, at) = locate(b, k, 2);
                values.push(read_i16(plane, at, b.order) as i32);
            }
            Some(Pcm::Fixed { values, shift: 15 })
        },
        SampleKind::I32 => {
            let mut values: Vec<i32> = Vec::new();
            for k in 0..n
                invariant
                    b.complete(),
                    b.kind == SampleKind::I32,
                    n == b.total(),
                    values@.len() == k,
                    forall|j: int|
                        0 <= j < k ==> #[trigger] values@[j] == bytes::signed32(
                            bytes::num32(b.plane_of(j), b.offset_of(j), b.order),
                        ),
            {
                let (plane, at) = locate(b, k, 4);
                values.push(read_i32(plane, at, b.order));
            }
            Some(Pcm::Fixed { values, shift: 31 })
        },
        SampleKind::F32 => {
            let mut words: Vec<u32> = Vec::new();
            for k in 0..n
                invariant
                    b.complete(),
                    b.kind == SampleKind::F32,
                    n == b.total(),
                    words@.len() == k,
                    forall|j: int|
                        0 <= j < k ==> #[trigger] words@[j] == bytes::num32(b.plane_of(j), b.offset_of(j), b.order),
            {
                let (plane, at) = locate(b, k, 4);
                words.push(read_u32(plane, at, b.order));
            }
            Some(Pcm::Single(words))
        },
        SampleKind::F64 => {
            let mut words: Vec<u64> = Vec::new();
            for k in 0..n
                invariant
                    b.complete(),
                    b.kind == SampleKind::F64,
                    n == b.total(),
                    words@.len() == k,
                    forall|j: int|
                        0 <= j < k ==> #[trigger] words@[j] == bytes::num64(b.plane_of(j), b.offset_of(j), b.order),
            {
                let (plane, at) = locate(b, k, 8);
                words.push(read_u64(plane, at, b.order));
            }
            Some(Pcm::Double(words))
        },
        SampleKind::Other => None,
    }
}

/// The single-precision numbers in `data`; bytes at the end that do not make
/// one are left out.
pub open spec fn single_words(data: Seq<u8>) -> Seq<u32> {
    Seq::new(data.len() / 4, |i: int| bytes::le32(data, 4 * i) as u32)
}

/// The single-precision numbers in `data`.
pub fn read_single_words(data: &Vec<u8>) -> (r: Vec<u32>)
    ensures
        r@ == single_words(data@),
{
    let len: usize = data.len();
    let n: usize = len / 4;
    let mut words: Vec<u32> = Vec::new();
    for i in 0..n
        invariant
            n == len / 4,
            len == data@.len(),
            words@.len() == i,
            forall|j: int| 0 <= j < i ==> #[trigger] words@[j] == bytes::le32(data@, 4 * j),
    {
        words.push(read_u32(data, 4 * i, ByteOrder::Little));
    }
    assert(words@ =~= single_words(data@));
    words
}

/// Sample `i` of channel `c` is at place `i * channels + c`, read from the
/// channel's own buffer when it has one.
pub proof fn law_channels_alternate(b: SampleBuffers, i: int, c: int)
    requires
        b.complete(),
        0 <= i < b.samples,
        0 <= c < b.channels,
    ensures
        0 <= i * b.channels + c < b.total(),
        b.planar ==> b.plane_of(i * b.channels + c) == b.planes@[c]@ && b.offset_of(
            i * b.channels + c,
        ) == i * b.kind.size(),
        !b.planar ==> b.plane_of(i * b.channels + c) == b.planes@[0]@ && b.offset_of(
            i * b.channels + c,
        ) == (i * b.channels + c) * b.kind.size(),
{
    let ch = b.channels as int;
    assert(0 <= i * ch + c < b.samples * ch) by (nonlinear_arith)
        requires
            0 <= i < b.samples,
            0 <= c < ch,
    ;
    vstd::arithmetic::div_mod::lemma_fundamental_div_mod_converse(i * ch + c, ch, i, c);
}

/// A sample of eight bits lies around 128: the silent byte is zero, and full
/// scale is 2 to the seventh.
pub proof fn law_eight_bit_samples(pcm: Pcm, b: SampleBuffers, i: int, c: int)
    requires
        b.kind == SampleKind::U8,
        is_interleaved(pcm, b),
        b.complete(),
        0 <= i < b.samples,
        0 <= c < b.channels,
    ensures
        ({
            let k = i * b.channels + c;
            let at = if b.planar {
                i
            } else {
                k
            };
            let byte = b.planes@[if b.planar {
                c
            } else {
                0
            }]@[at];
            pcm matches Pcm::Fixed { values, shift } && shift == 7 && values@.len() == b.samples
                * b.channels && values@[k] + 128 == byte
        }),
{
    law_channels_alternate(b, i, c);
}

/// Where the bytes of a sample stand: `size` of them, from place `i` of the
/// channel's own buffer, or from place `i * channels + c` of the one buffer.
pub open spec fn sample_byte(b: SampleBuffers, size: int, i: int, c: int, n: int) -> int {
    if b.planar {
        b.planes@[c]@[i * size + n] as int
    } else {
        b.planes@[0]@[(i * b.channels + c) * size + n] as int
    }
}

/// Byte `n` of a sample, counted from the lowest.
pub open spec fn low_byte(b: SampleBuffers, size: int, i: int, c: int, n: int) -> int {
    match b.order {
        ByteOrder::Little => sample_byte(b, size, i, c, n),
        ByteOrder::Big => sample_byte(b, size, i, c, size - 1 - n),
    }
}

/// A sample of 16 bits is the number that its two bytes write, with its sign:
/// it lies between -2 to the fifteenth and that, which is full scale.
pub proof fn law_sixteen_bit_samples(pcm: Pcm, b: SampleBuffers, i: int, c: int)
    requires
        b.kind == SampleKind::I16,
        is_interleaved(pcm, b),
        b.complete(),
        0 <= i < b.samples,
        0 <= c < b.channels,
    ensures
        ({
            let k = i * b.channels + c;
            let bits = low_byte(b, 2, i, c, 0) + 256 * low_byte(b, 2, i, c, 1);
            &&& pcm matches Pcm::Fixed { values, shift }
            &&& shift == 15
            &&& values@.len() == b.samples * b.channels
            &&& -32768 <= values@[k] < 32768
            &&& values@[k] == bits || values@[k] + 65536 == bits
        }),
{
    law_channels_alternate(b, i, c);
}

/// A sample of 32 bits is the number that its four bytes write, with its sign.
pub proof fn law_thirty_two_bit_samples(pcm: Pcm, b: SampleBuffers, i: int, c: int)
    requires
        b.kind == SampleKind::I32,
        is_interleaved(pcm, b),
        b.complete(),
        0 <= i < b.samples,
        0 <= c < b.channels,
    ensures
        ({
            let k = i * b.channels + c;
            let bits = low_byte(b, 4, i, c, 0) + 256 * low_byte(b, 4, i, c, 1) + 65536 * low_byte(
                b,
                4,
                i,
                c,
                2,
            ) + 16777216 * low_byte(b, 4, i, c, 3);
            &&& pcm matches Pcm::Fixed { values, shift }
            &&& shift == 31
            &&& values@.len() == b.samples * b.channels
            &&& values@[k] == bits || values@[k] + 4294967296 == bits
        }),
{
    law_channels_alternate(b, i, c);
}

/// A sample that is a floating-point number keeps its bits, of single or double
/// precision.
pub proof fn law_float_samples(pcm: Pcm, b: SampleBuffers, i: int, c: int)
    requires
        b.kind == SampleKind::F32 || b.kind == SampleKind::F64,
        is_interleaved(pcm, b),
        b.complete(),
        0 <= i < b.samples,
        0 <= c < b.channels,
    ensures
        ({
            let k = i * b.channels + c;
            let size: int = if b.kind == SampleKind::F32 {
                4
            } else {
                8
            };
            let low = low_byte(b, size, i, c, 0) + 256 * low_byte(b, size, i, c, 1) + 65536
                * low_byte(b, size, i, c, 2) + 16777216 * low_byte(b, size, i, c, 3);
            let high = low_byte(b, size, i, c, 4) + 256 * low_byte(b, size, i, c, 5) + 65536
                * low_byte(b, size, i, c, 6) + 16777216 * low_byte(b, size, i, c, 7);
            &&& b.kind == SampleKind::F32 ==> (pcm matches Pcm::Single(words) && words@.len()
                == b.samples * b.channels && words@[k] == low)
            &&& b.kind == SampleKind::F64 ==> (pcm matches Pcm::Double(words) && words@.len()
                == b.samples * b.channels && words@[k] == low + 4294967296 * high)
        }),
{
    law_channels_alternate(b, i, c);
}

/// Every sample that complete buffers announce can be read: `size` bytes for
/// each, in the channel's own buffer or in the one.
pub proof fn law_complete_buffers_hold_their_samples(b: SampleBuffers, i: int, c: int)
    requires
        b.complete(),
        b.kind != SampleKind::Other,
        0 <= i < b.samples,
        0 <= c < b.channels,
    ensures
        ({
            let size: int = match b.kind {
                SampleKind::U8 => 1,
                SampleKind::I16 => 2,
                SampleKind::I32 | SampleKind::F32 => 4,
                _ => 8,
            };
            &&& b.kind.size() == size
            &&& b.planar ==> c < b.planes@.len() && (i + 1) * size <= b.planes@[c]@.len()
            &&& !b.planar ==> b.planes@.len() > 0 && (i * b.channels + c + 1) * size
                <= b.planes@[0]@.len()
        }),
{
    law_channels_alternate(b, i, c);
    let size = b.kind.size();
    let n = b.samples as int;
    assert((i + 1) * size <= n * size) by (nonlinear_arith)
        requires
            i + 1 <= n,
            size >= 0,
    ;
    let k = i * b.channels + c;
    let t = b.total();
    assert((k + 1) * size <= t * size) by (nonlinear_arith)
        requires
            k + 1 <= t,
            size >= 0,
    ;
}

/// Buffers that hold every sample are complete, whatever else they hold; so are
/// those that are not read.
pub proof fn law_held_samples_are_enough(b: SampleBuffers)
    requires
        b.channels > 0,
        b.samples * b.channels <= usize::MAX,
        b.planes@.len() > 0,
    ensures
        ({
            let size: int = match b.kind {
                SampleKind::U8 => 1,
                SampleKind::I16 => 2,
                SampleKind::I32 | SampleKind::F32 => 4,
                _ => 8,
            };
            &&& b.planar && b.planes@.len() >= b.channels && (forall|c: int|
                0 <= c < b.channels ==> #[trigger] b.planes@[c]@.len() >= b.samples * size)
                ==> b.complete()
            &&& !b.planar && b.planes@[0]@.len() >= (b.samples * b.channels) * size ==> b.complete()
        }),
        b.kind == SampleKind::Other ==> b.complete(),
{
}

} // verus!
