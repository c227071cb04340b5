//! Pictures that go from the decoder to the screen without leaving the GPU.
//!
//! The video processor converts a decoded surface into one of a few textures
//! that decoder and renderer share. The textures take turns, so that one can be
//! read while the next is written, and a fence tells the renderer when a
//! conversion is over.

use vstd::prelude::*;

verus! {

/// How many textures take turns.
pub const SLOTS: usize = 3;

/// The identity of a graphics adapter.
#[derive(Debug, Clone, Copy, PartialEq, Eq, Structural)]
pub struct Luid {
    pub low: u32,
    pub high: i32,
}

/// The search for the adapter that the renderer runs on: decoder and renderer
/// can share textures only on one and the same adapter.
#[derive(Debug, Clone, Copy, PartialEq, Eq, Structural)]
pub struct AdapterSearch {
    pub wanted: Luid,
    /// The adapter to look at next.
    pub index: u32,
}

/// What became of looking at an adapter.
#[derive(Debug, Clone, Copy, PartialEq, Eq, Structural)]
pub enum AdapterReply {
    Found(Luid),
    /// There are no more adapters.
    End,
}

/// What the search does next.
#[derive(Debug, Clone, Copy, PartialEq, Eq, Structural)]
pub enum AdapterStep {
    /// Look at the next adapter.
    Next,
    /// This adapter is the one.
    Take(u32),
    /// The renderer's adapter is not among them.
    Missing,
}

/// A colour space of the video processor.
#[derive(Debug, Clone, Copy, PartialEq, Eq, Structural)]
pub enum VideoColorSpace {
    YcbcrStudioG2084LeftP2020,
    RgbFullG2084NoneP2020,
    YcbcrFullG22LeftP709,
    YcbcrStudioG22LeftP709,
    RgbFullG22NoneP709,
}

/// Why there is no conversion.
#[derive(Debug, Clone, Copy, PartialEq, Eq, Structural)]
pub enum BridgeError {
    /// The decoder's device is not known.
    UnknownDevice,
    /// There is no decoded surface.
    InvalidTexture,
}

/// A conversion to make.
#[derive(Debug, Clone, Copy, PartialEq, Eq, Structural)]
pub struct Conversion {
    /// The texture that takes the picture.
    pub slot: usize,
    pub input: VideoColorSpace,
    pub output: VideoColorSpace,
}

/// The state of the bridge. Devices and surfaces stand here by their address,
/// which is zero where there is none.
#[derive(Debug, Clone, Copy, PartialEq, Eq, Structural)]
pub struct ZeroCopyBridge {
    /// The texture that takes the next picture.
    pub next_slot: usize,
    /// The value that the fence got last.
    pub fence_value: u64,
    pub width: u32,
    pub height: u32,
    /// The decoder's device: another file may come with another.
    pub device: usize,
}

impl AdapterSearch {
    /// A search that has looked at nothing.
    pub fn new(wanted: Luid) -> (r: AdapterSearch)
        ensures
            r == (AdapterSearch { wanted, index: 0 }),
    {
        AdapterSearch { wanted, index: 0 }
    }

    /// What the search does after a reply, and the state it leaves.
    pub open spec fn step(self, reply: AdapterReply) -> (AdapterSearch, AdapterStep) {
        match reply {
            AdapterReply::Found(luid) => if luid == self.wanted {
                (self, AdapterStep::Take(self.index))
            } else {
                (
                    AdapterSearch { wanted: self.wanted, index: (self.index + 1) as u32 },
                    AdapterStep::Next,
                )
            },
            AdapterReply::End => (self, AdapterStep::Missing),
        }
    }

    /// Takes in what became of looking at an adapter.
    pub fn on_reply(&mut self, reply: AdapterReply) -> (r: AdapterStep)
        requires
            old(self).index < u32::MAX,
        ensures
            (*final(self), r) == old(self).step(reply),
    {
        match reply {
            AdapterReply::Found(luid) => {
                if luid.low == self.wanted.low && luid.high == self.wanted.high {
                    AdapterStep::Take(self.index)
                } else {
                    self.index = self.index + 1;
                    AdapterStep::Next
                }
            },
            AdapterReply::End => AdapterStep::Missing,
        }
    }

    /// How the search ends when these are the adapters that are left.
    pub open spec fn ending(self, left: Seq<Luid>) -> AdapterStep
        decreases left.len(),
    {
        if left.len() == 0 {
            self.step(AdapterReply::End).1
        } else {
            let (next, step) = self.step(AdapterReply::Found(left[0]));
            if step == AdapterStep::Next {
                next.ending(left.skip(1))
            } else {
                step
            }
        }
    }
}

/// The search ends at the first adapter with the wanted identity, and only
/// where there is none it ends without.
pub proof fn law_search_finds_the_first(s: AdapterSearch, left: Seq<Luid>, at: int)
    requires
        s.index + left.len() <= u32::MAX,
        0 <= at <= left.len(),
        forall|i: int| 0 <= i < at ==> left[i] != s.wanted,
        at < left.len() ==> left[at] == s.wanted,
    ensures
        s.ending(left) == (if at < left.len() {
            AdapterStep::Take((s.index + at) as u32)
        } else {
            AdapterStep::Missing
        }),
    decreases at,
{
    if at > 0 {
        assert(left[0] != s.wanted);
        let next = s.step(AdapterReply::Found(left[0])).0;
        let rest = left.skip(1);
        assert forall|i: int| 0 <= i < at - 1 implies rest[i] != next.wanted by {
            assert(rest[i] == left[i + 1]);
        }
        if at < left.len() {
            assert(rest[at - 1] == left[at]);
        }
        law_search_finds_the_first(next, rest, at - 1);
    }
}

impl ZeroCopyBridge {
    /// The next texture is one of those that take turns.
    pub open spec fn wf(self) -> bool {
        self.next_slot < SLOTS
    }

    /// A bridge for a decoder's device and pictures of a size.
    pub fn new(device: usize, width: u32, height: u32) -> (r: Result<ZeroCopyBridge, BridgeError>)
        ensures
            r == (if device == 0 {
                Err(BridgeError::UnknownDevice)
            } else {
                Ok(ZeroCopyBridge { next_slot: 0, fence_value: 0, width, height, device })
            }),
            r matches Ok(b) ==> b.wf(),
    {
        if device == 0 {
            return Err(BridgeError::UnknownDevice);
        }
        Ok(ZeroCopyBridge { next_slot: 0, fence_value: 0, width, height, device })
    }

    /// Whether the bridge serves a device and pictures of a size.
    pub fn matches(&self, device: usize, width: u32, height: u32) -> (r: bool)
        ensures
            r == (self.device == device && self.width == width && self.height == height),
    {
        self.device == device && self.width == width && self.height == height
    }

    /// The colour spaces of a conversion. The transfer function stays what it
    /// is: only the matrix is applied here.
    pub open spec fn spaces(hdr: bool, full_range: bool) -> (VideoColorSpace, VideoColorSpace) {
        if hdr {
            (VideoColorSpace::YcbcrStudioG2084LeftP2020, VideoColorSpace::RgbFullG2084NoneP2020)
        } else if full_range {
            (VideoColorSpace::YcbcrFullG22LeftP709, VideoColorSpace::RgbFullG22NoneP709)
        } else {
            (VideoColorSpace::YcbcrStudioG22LeftP709, VideoColorSpace::RgbFullG22NoneP709)
        }
    }

    /// The state after a texture was given out.
    pub open spec fn turned(self) -> ZeroCopyBridge {
        ZeroCopyBridge { next_slot: ((self.next_slot + 1) % (SLOTS as int)) as usize, ..self }
    }

    /// Starts the conversion of a decoded surface. The texture it gets is spent
    /// whatever becomes of the conversion.
    pub fn convert(&mut self, texture: usize, hdr: bool, full_range: bool) -> (r: Result<
        Conversion,
        BridgeError,
    >)
        requires
            old(self).wf(),
        ensures
            final(self).wf(),
            texture == 0 ==> r == Err::<Conversion, BridgeError>(BridgeError::InvalidTexture)
                && *final(self) == *old(self),
            texture != 0 ==> r == Ok::<Conversion, BridgeError>(
                Conversion {
                    slot: old(self).next_slot,
                    input: Self::spaces(hdr, full_range).0,
                    output: Self::spaces(hdr, full_range).1,
                },
            ) && *final(self) == old(self).turned(),
    {
        if texture == 0 {
            return Err(BridgeError::InvalidTexture);
        }
        let slot: usize = self.next_slot;
        self.next_slot = (self.next_slot + 1) % SLOTS;
        let (input, output) = if hdr {
            (VideoColorSpace::YcbcrStudioG2084LeftP2020, VideoColorSpace::RgbFullG2084NoneP2020)
        } else if full_range {
            (VideoColorSpace::YcbcrFullG22LeftP709, VideoColorSpace::RgbFullG22NoneP709)
        } else {
            (VideoColorSpace::YcbcrStudioG22LeftP709, VideoColorSpace::RgbFullG22NoneP709)
        };
        Ok(Conversion { slot, input, output })
    }

    /// The value that the decoder's side gives the fence after a conversion, and
    /// that the renderer's side waits for.
    pub fn signal(&mut self) -> (r: u64)
        requires
            old(self).fence_value < u64::MAX,
        ensures
            r == old(self).fence_value + 1,
            *final(self) == (ZeroCopyBridge { fence_value: r, ..*old(self) }),
    {
        self.fence_value = self.fence_value + 1;
        self.fence_value
    }
}

/// The textures take turns: three conversions in a row use three of them, and
/// the fourth comes back to the first.
pub proof fn law_textures_take_turns(b: ZeroCopyBridge)
    requires
        b.wf(),
    ensures
        b.turned().wf(),
        b.next_slot != b.turned().next_slot,
        b.turned().next_slot != b.turned().turned().next_slot,
        b.turned().turned().next_slot != b.next_slot,
        b.turned().turned().turned() == b,
{
}

/// A conversion never changes the transfer function: what comes in with the PQ
/// curve goes out with it, and nothing else does.
pub proof fn law_transfer_is_kept(hdr: bool, full_range: bool)
    ensures
        ({
            let (input, output) = ZeroCopyBridge::spaces(hdr, full_range);
            &&& hdr <==> input == VideoColorSpace::YcbcrStudioG2084LeftP2020
            &&& hdr <==> output == VideoColorSpace::RgbFullG2084NoneP2020
        }),
{
}

/// A picture without HDR keeps its range until it is converted: what comes in is
/// full range exactly when the stream is, and what goes out is plain RGB.
pub proof fn law_range_is_told(full_range: bool)
    ensures
        ({
            let (input, output) = ZeroCopyBridge::spaces(false, full_range);
            &&& full_range <==> input == VideoColorSpace::YcbcrFullG22LeftP709
            &&& !full_range <==> input == VideoColorSpace::YcbcrStudioG22LeftP709
            &&& output == VideoColorSpace::RgbFullG22NoneP709
        }),
{
}

/// Giving out a texture changes nothing but whose turn it is.
pub proof fn law_only_the_turn_changes(b: ZeroCopyBridge)
    requires
        b.wf(),
    ensures
        b.turned().fence_value == b.fence_value,
        b.turned().width == b.width && b.turned().height == b.height,
        b.turned().device == b.device,
        b.next_slot < 2 ==> b.turned().next_slot == b.next_slot + 1,
        b.next_slot == 2 ==> b.turned().next_slot == 0,
        b.wf() <==> b.next_slot == 0 || b.next_slot == 1 || b.next_slot == 2,
{
}

/// The search goes on past every adapter but the wanted one, which both halves of
/// an identity tell, and never looks for another.
pub proof fn law_both_halves_identify_an_adapter(s: AdapterSearch, luid: Luid)
    requires
        s.index < u32::MAX,
    ensures
        ({
            let (next, step) = s.step(AdapterReply::Found(luid));
            &&& step == AdapterStep::Take(s.index) <==> luid.low == s.wanted.low && luid.high
                == s.wanted.high
            &&& step == AdapterStep::Next <==> luid.low != s.wanted.low || luid.high
                != s.wanted.high
            &&& next.wanted == s.wanted
            &&& step == AdapterStep::Next ==> next.index == s.index + 1
            &&& step != AdapterStep::Next ==> next.index == s.index
        }),
        s.step(AdapterReply::End) == (s, AdapterStep::Missing),
{
}

} // verus!
