//! The peak luminance of HDR content, from the metadata of a file.
//!
//! Tone mapping compresses highlights against the brightest light the content
//! holds. The stream may announce it twice: `MaxCLL`, measured when the content
//! was encoded, and the luminance of the display it was mastered on. The
//! measured value is preferred. Values outside 100 to 10000 nits are broken
//! metadata and count as none.

use vstd::prelude::*;

use crate::bytes;
use crate::bytes::{read_i32, read_u32, ByteOrder};
use crate::timing::Ratio;

verus! {

/// What a piece of side data describes.
#[derive(Debug, Clone, Copy, PartialEq, Eq, Structural)]
pub enum SideDataKind {
    ContentLightLevel,
    MasteringDisplay,
    Other,
}

/// A piece of side data, as it lies in memory.
pub struct SideData {
    pub kind: SideDataKind,
    pub bytes: Vec<u8>,
}

/// Size of a content light level record: `MaxCLL`, then `MaxFALL`.
pub const LIGHT_LEVEL_SIZE: usize = 8;

/// Size of a mastering display record: six primaries coordinates, two white
/// point coordinates, the lowest and the highest luminance, as fractions of
/// two 32-bit numbers each; then whether the primaries and whether the
/// luminances are set.
pub const MASTERING_SIZE: usize = 88;

/// `MaxCLL` in a content light level record, if it is set.
pub open spec fn light_level(b: Seq<u8>, order: ByteOrder) -> Option<Ratio> {
    if b.len() >= LIGHT_LEVEL_SIZE && bytes::num32(b, 0, order) > 0 {
        Some(Ratio { num: bytes::num32(b, 0, order) as i64, den: 1 })
    } else {
        None
    }
}

/// The highest luminance in a mastering display record, if it is set, over a
/// denominator above zero.
pub open spec fn mastering_luminance(b: Seq<u8>, order: ByteOrder) -> Option<Ratio> {
    let num = bytes::signed32(bytes::num32(b, 72, order));
    let den = bytes::signed32(bytes::num32(b, 76, order));
    if b.len() >= MASTERING_SIZE && bytes::num32(b, 84, order) != 0 && den != 0 {
        if den > 0 {
            Some(Ratio { num: num as i64, den: den as i64 })
        } else {
            Some(Ratio { num: (-num) as i64, den: (-den) as i64 })
        }
    } else {
        None
    }
}

/// `v` is between 100 and 10000.
pub open spec fn is_sane(v: Ratio) -> bool {
    v.den > 0 && 100 * v.den <= v.num <= 10000 * v.den
}

/// The peak that the two announcements give.
pub open spec fn peak_of(light: Option<Ratio>, master: Option<Ratio>) -> Option<Ratio> {
    let announced = if light is Some {
        light
    } else {
        master
    };
    match announced {
        Some(v) => if is_sane(v) {
            Some(v)
        } else {
            None
        },
        None => None,
    }
}

/// The last `MaxCLL` that `entries` set.
pub open spec fn last_light(entries: Seq<SideData>, order: ByteOrder) -> Option<Ratio>
    decreases entries.len(),
{
    if entries.len() == 0 {
        None
    } else if entries.last().kind == SideDataKind::ContentLightLevel && light_level(
        entries.last().bytes@,
        order,
    ) is Some {
        light_level(entries.last().bytes@, order)
    } else {
        last_light(entries.drop_last(), order)
    }
}

/// The last mastering luminance that `entries` set.
pub open spec fn last_mastering(entries: Seq<SideData>, order: ByteOrder) -> Option<Ratio>
    decreases entries.len(),
{
    if entries.len() == 0 {
        None
    } else if entries.last().kind == SideDataKind::MasteringDisplay && mastering_luminance(
        entries.last().bytes@,
        order,
    ) is Some {
        mastering_luminance(entries.last().bytes@, order)
    } else {
        last_mastering(entries.drop_last(), order)
    }
}

fn read_light_level(b: &[u8], order: ByteOrder) -> (r: Option<Ratio>)
    ensures
        r == light_level(b@, order),
{
    if b.len() >= LIGHT_LEVEL_SIZE {
        let cll: u32 = read_u32(b, 0, order);
        if cll > 0 {
            return Some(Ratio { num: cll as i64, den: 1 });
        }
    }
    None
}

fn read_mastering_luminance(b: &[u8], order: ByteOrder) -> (r: Option<Ratio>)
    ensures
        r == mastering_luminance(b@, order),
{
    if b.len() >= MASTERING_SIZE {
        let has_luminance: u32 = read_u32(b, 84, order);
        let num: i64 = read_i32(b, 72, order) as i64;
        let den: i64 = read_i32(b, 76, order) as i64;
        if has_luminance != 0 && den != 0 {
            return Some(
                if den > 0 {
                    Ratio { num, den }
                } else {
                    Ratio { num: -num, den: -den }
                },
            );
        }
    }
    None
}

/// `v` if it is a plausible peak. A broken value counts as none, rather than
/// being tone mapped on.
pub fn sane_peak(v: Ratio) -> (r: Option<Ratio>)
    requires
        v.den > 0,
    ensures
        r == (if is_sane(v) {
            Some(v)
        } else {
            None
        }),
{
    let num: i128 = v.num as i128;
    let den: i128 = v.den as i128;
    if 100 * den <= num && num <= 10000 * den {
        Some(v)
    } else {
        None
    }
}

/// The peak that the side data of a stream announces, in nits.
pub fn hdr_peak_nits(entries: &Vec<SideData>, order: ByteOrder) -> (r: Option<Ratio>)
    ensures
        r == peak_of(last_light(entries@, order), last_mastering(entries@, order)),
{
    let mut light: Option<Ratio> = None;
    let mut master: Option<Ratio> = None;
    for i in 0..entries.len()
        invariant
            light == last_light(entries@.take(i as int), order),
            master == last_mastering(entries@.take(i as int), order),
            light matches Some(v) ==> v.den > 0,
            master matches Some(v) ==> v.den > 0,
    {
        assert(entries@.take(i + 1).drop_last() =~= entries@.take(i as int));
        let entry = &entries[i];
        if entry.kind == SideDataKind::ContentLightLevel {
            let v = read_light_level(&entry.bytes, order);
            if v.is_some() {
                light = v;
            }
        } else if entry.kind == SideDataKind::MasteringDisplay {
            let v = read_mastering_luminance(&entry.bytes, order);
            if v.is_some() {
                master = v;
            }
        }
    }
    assert(entries@.take(entries@.len() as int) =~= entries@);
    pick_peak(light, master)
}

fn pick_peak(light: Option<Ratio>, master: Option<Ratio>) -> (r: Option<Ratio>)
    requires
        light matches Some(v) ==> v.den > 0,
        master matches Some(v) ==> v.den > 0,
    ensures
        r == peak_of(light, master),
{
    match (light, master) {
        (Some(v), _) => sane_peak(v),
        (None, Some(v)) => sane_peak(v),
        (None, None) => None,
    }
}

/// What `record` gives when it is there.
pub open spec fn light_of(record: Option<Vec<u8>>, order: ByteOrder) -> Option<Ratio> {
    match record {
        Some(b) => light_level(b@, order),
        None => None,
    }
}

/// What `record` gives when it is there.
pub open spec fn mastering_of(record: Option<Vec<u8>>, order: ByteOrder) -> Option<Ratio> {
    match record {
        Some(b) => mastering_luminance(b@, order),
        None => None,
    }
}

/// The peak that the side data of a decoded frame announces, in nits.
pub fn frame_peak_nits(
    light: &Option<Vec<u8>>,
    master: &Option<Vec<u8>>,
    order: ByteOrder,
) -> (r: Option<Ratio>)
    ensures
        r == peak_of(light_of(*light, order), mastering_of(*master, order)),
{
    let l = match light {
        Some(b) => read_light_level(b, order),
        None => None,
    };
    let m = match master {
        Some(b) => read_mastering_luminance(b, order),
        None => None,
    };
    pick_peak(l, m)
}

/// A peak is always between 100 and 10000 nits.
pub proof fn law_peak_is_plausible(light: Option<Ratio>, master: Option<Ratio>)
    ensures
        peak_of(light, master) matches Some(v) ==> is_sane(v),
{
}

/// A stream that announces `MaxCLL` is tone mapped on it or, when it is
/// broken, on nothing: the mastering display never stands in for it.
pub proof fn law_measured_peak_comes_first(light: Ratio, master: Option<Ratio>)
    ensures
        peak_of(Some(light), master) == peak_of(Some(light), None),
        is_sane(light) ==> peak_of(Some(light), master) == Some(light),
{
}

/// How far the search for the first frame of a video stream has come.
#[derive(Debug, Clone, Copy, PartialEq, Eq, Structural)]
pub struct FirstFrameSearch {
    /// The video stream.
    pub stream: usize,
    /// Packets of that stream that may still be decoded.
    pub budget: u32,
}

/// What to do with a packet during the search for the first frame.
#[derive(Debug, Clone, Copy, PartialEq, Eq, Structural)]
pub enum SearchStep {
    /// Not a packet of the video stream.
    Skip,
    /// Hand the packet to the decoder.
    Decode,
    /// Too many packets without a frame.
    GiveUp,
}

impl FirstFrameSearch {
    /// A search through the first sixty packets of `stream`.
    pub fn new(stream: usize) -> (r: FirstFrameSearch)
        ensures
            r == (FirstFrameSearch { stream, budget: 60 }),
    {
        FirstFrameSearch { stream, budget: 60 }
    }

    /// What to do with a packet, and the state it leaves.
    pub open spec fn step(self, packet_stream: usize) -> (FirstFrameSearch, SearchStep) {
        if packet_stream != self.stream {
            (self, SearchStep::Skip)
        } else if self.budget == 0 {
            (self, SearchStep::GiveUp)
        } else {
            (FirstFrameSearch { budget: (self.budget - 1) as u32, ..self }, SearchStep::Decode)
        }
    }

    /// How many of these packets go to the decoder while it gives no frame.
    pub open spec fn decoded(self, packets: Seq<usize>) -> int
        decreases packets.len(),
    {
        if packets.len() == 0 {
            0
        } else {
            let (next, step) = self.step(packets[0]);
            match step {
                SearchStep::GiveUp => 0,
                SearchStep::Skip => next.decoded(packets.skip(1)),
                SearchStep::Decode => 1 + next.decoded(packets.skip(1)),
            }
        }
    }

    /// What to do with the next packet.
    pub fn next(&mut self, packet_stream: usize) -> (r: SearchStep)
        ensures
            (*final(self), r) == old(self).step(packet_stream),
    {
        if packet_stream != self.stream {
            SearchStep::Skip
        } else if self.budget == 0 {
            SearchStep::GiveUp
        } else {
            self.budget -= 1;
            SearchStep::Decode
        }
    }
}

/// How many of these packets belong to `stream`.
pub open spec fn packets_of(stream: usize, packets: Seq<usize>) -> nat
    decreases packets.len(),
{
    if packets.len() == 0 {
        0
    } else {
        packets_of(stream, packets.skip(1)) + if packets[0] == stream {
            1nat
        } else {
            0nat
        }
    }
}

/// While no frame comes, the search hands every packet of the stream to the
/// decoder until the budget is spent, and not one more: however long a file
/// is, that is a bounded number of packets.
pub proof fn law_search_is_bounded(s: FirstFrameSearch, packets: Seq<usize>)
    ensures
        0 <= s.decoded(packets) <= s.budget,
        packets_of(s.stream, packets) >= s.budget ==> s.decoded(packets) == s.budget,
        packets_of(s.stream, packets) <= s.budget ==> s.decoded(packets) == packets_of(
            s.stream,
            packets,
        ),
    decreases packets.len(),
{
    if packets.len() > 0 {
        let (next, step) = s.step(packets[0]);
        if step != SearchStep::GiveUp {
            law_search_is_bounded(next, packets.skip(1));
        }
    }
}

/// `MaxCLL` is the first number of its record, written in four bytes, and set
/// when it is not zero.
pub proof fn law_light_levels_are_read(b: Seq<u8>)
    requires
        b.len() >= 8,
    ensures
        ({
            let n = b[0] + 256 * b[1] + 65536 * b[2] + 16777216 * b[3];
            &&& light_level(b, ByteOrder::Little) is Some <==> n > 0
            &&& light_level(b, ByteOrder::Little) matches Some(v) ==> v.num == n && v.den == 1
        }),
        ({
            let n = b[3] + 256 * b[2] + 65536 * b[1] + 16777216 * b[0];
            &&& light_level(b, ByteOrder::Big) is Some <==> n > 0
            &&& light_level(b, ByteOrder::Big) matches Some(v) ==> v.num == n && v.den == 1
        }),
{
}

/// A record that is too short says nothing.
pub proof fn law_short_records_say_nothing(b: Seq<u8>, order: ByteOrder)
    ensures
        b.len() < 8 ==> light_level(b, order) is None,
        b.len() < 88 ==> mastering_luminance(b, order) is None,
{
}

/// The luminance of the mastering display is the tenth fraction of its record,
/// and is told where the record says that luminances are set; its value is that
/// fraction, whatever its signs.
pub proof fn law_mastering_luminance_is_read(b: Seq<u8>, order: ByteOrder, num: int, den: int)
    requires
        b.len() >= 88,
        -0x8000_0000 <= num < 0x8000_0000,
        -0x8000_0000 <= den < 0x8000_0000,
        ({
            let at = |i: int|
                if order == ByteOrder::Little {
                    b[i] + 256 * b[i + 1] + 65536 * b[i + 2] + 16777216 * b[i + 3]
                } else {
                    b[i + 3] + 256 * b[i + 2] + 65536 * b[i + 1] + 16777216 * b[i]
                };
            &&& at(72) == num || at(72) == num + 0x1_0000_0000
            &&& at(76) == den || at(76) == den + 0x1_0000_0000
        }),
    ensures
        mastering_luminance(b, order) is Some <==> den != 0 && (b[84] != 0 || b[85] != 0 || b[86]
            != 0 || b[87] != 0),
        mastering_luminance(b, order) matches Some(v) ==> v.den > 0 && v.num * den == num * v.den,
{
    let n = bytes::signed32(bytes::num32(b, 72, order));
    let d = bytes::signed32(bytes::num32(b, 76, order));
    assert(n == num && d == den);
    if let Some(v) = mastering_luminance(b, order) {
        assert(v.num * den == num * v.den) by (nonlinear_arith)
            requires
                (v.num == num && v.den == den) || (v.num == -num && v.den == -den),
        ;
    }
}

/// Of two runs of entries the later one counts where it tells a `MaxCLL`, and an
/// entry tells what its record says, if it is of that kind.
pub proof fn law_the_last_light_level_counts(
    a: Seq<SideData>,
    b: Seq<SideData>,
    entry: SideData,
    order: ByteOrder,
)
    ensures
        last_light(a + b, order) == (if last_light(b, order) is Some {
            last_light(b, order)
        } else {
            last_light(a, order)
        }),
        last_light(seq![entry], order) == (if entry.kind == SideDataKind::ContentLightLevel {
            light_level(entry.bytes@, order)
        } else {
            None
        }),
        last_light(Seq::empty(), order) is None,
    decreases b.len(),
{
    assert(seq![entry].drop_last() =~= Seq::<SideData>::empty());
    assert(last_light(seq![entry].drop_last(), order) is None);
    if b.len() == 0 {
        assert(a + b =~= a);
    } else {
        assert((a + b).drop_last() =~= a + b.drop_last());
        law_the_last_light_level_counts(a, b.drop_last(), entry, order);
    }
}

/// Of two runs of entries the later one counts where it tells a mastering
/// luminance, and an entry tells what its record says, if it is of that kind.
pub proof fn law_the_last_mastering_luminance_counts(
    a: Seq<SideData>,
    b: Seq<SideData>,
    entry: SideData,
    order: ByteOrder,
)
    ensures
        last_mastering(a + b, order) == (if last_mastering(b, order) is Some {
            last_mastering(b, order)
        } else {
            last_mastering(a, order)
        }),
        last_mastering(seq![entry], order) == (if entry.kind == SideDataKind::MasteringDisplay {
            mastering_luminance(entry.bytes@, order)
        } else {
            None
        }),
        last_mastering(Seq::empty(), order) is None,
    decreases b.len(),
{
    assert(seq![entry].drop_last() =~= Seq::<SideData>::empty());
    assert(last_mastering(seq![entry].drop_last(), order) is None);
    if b.len() == 0 {
        assert(a + b =~= a);
    } else {
        assert((a + b).drop_last() =~= a + b.drop_last());
        law_the_last_mastering_luminance_counts(a, b.drop_last(), entry, order);
    }
}

/// The peak is the measured one where it is told, else that of the mastering
/// display, and it counts exactly from 100 to 10000 nits.
pub proof fn law_peaks_lie_between_100_and_10000(light: Option<Ratio>, master: Option<Ratio>)
    ensures
        ({
            let told = if light is Some {
                light
            } else {
                master
            };
            &&& peak_of(light, master) is Some ==> peak_of(light, master) == told
            &&& peak_of(light, master) is Some <==> (told matches Some(v) && v.den > 0 && 100
                * v.den <= v.num && v.num <= 10000 * v.den)
        }),
{
}

/// The records of a frame are read as those of a stream, and one that is not
/// there says nothing.
pub proof fn law_frames_are_read_like_streams(record: Vec<u8>, order: ByteOrder)
    ensures
        light_of(Some(record), order) == light_level(record@, order),
        mastering_of(Some(record), order) == mastering_luminance(record@, order),
        light_of(None, order) is None && mastering_of(None, order) is None,
{
}

/// Packets of other streams are passed over and cost nothing; a packet of the
/// stream is decoded as long as anything of the budget is left, and costs one.
pub proof fn law_only_the_stream_costs(s: FirstFrameSearch, packet: usize)
    ensures
        ({
            let (next, step) = s.step(packet);
            &&& step == SearchStep::Skip <==> packet != s.stream
            &&& step == SearchStep::Decode <==> packet == s.stream && s.budget > 0
            &&& step == SearchStep::GiveUp <==> packet == s.stream && s.budget == 0
            &&& next.stream == s.stream
            &&& s.budget - next.budget == (if step == SearchStep::Decode {
                1int
            } else {
                0int
            })
        }),
{
}

} // verus!
