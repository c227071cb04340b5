//! Hardware decoding: which accelerator is tried, and how a codec is set up for
//! it. Nothing here ever stops playback: what cannot be accelerated is decoded
//! in software.

use vstd::prelude::*;

use crate::text::same_text;

verus! {

/// An accelerator.
#[derive(Debug, Clone, Copy, PartialEq, Eq, Structural)]
pub enum HwKind {
    Dxva2,
    D3D11Va,
    Cuda,
    /// Decoding on the processor.
    Software,
}

/// An accelerator that was set up.
#[derive(Debug, Clone, Copy, PartialEq, Eq, Structural)]
pub struct HwAccelContext {
    pub kind: HwKind,
    /// It holds a device of the GPU.
    pub has_device: bool,
}

/// How to set up an accelerator.
#[derive(Debug, Clone, Copy, PartialEq, Eq, Structural)]
pub enum HwInit {
    /// Nothing to do: software decoding.
    Ready(HwAccelContext),
    /// Create a device, then tell [`HwAccelContext::created`].
    Create(HwKind),
}

/// A device could not be created: the code returned.
#[derive(Debug, Clone, Copy, PartialEq, Eq, Structural)]
pub struct HwError {
    pub code: i32,
}

/// What to try for hardware decoding.
#[derive(Debug, Clone, Copy, PartialEq, Eq, Structural)]
pub enum HwAttempt {
    /// The device that the renderer uses.
    SharedDevice,
    /// A device of its own, by the name that was preferred.
    Named,
    /// None.
    Software,
}

/// How a codec is set up before it is opened.
#[derive(Debug, Clone, Copy, PartialEq, Eq, Structural)]
pub struct CodecSetup {
    /// Decode several frames at once, on so many threads.
    pub frame_threads: Option<usize>,
    /// Attach the device, and look for the pictures of this accelerator among
    /// those that the decoder offers.
    pub attach: Option<HwKind>,
}

/// The accelerator that a setting asks for: none, a given one, or the best that
/// the system has, which only Windows has.
pub open spec fn preference(setting: Seq<char>, windows: bool, d3d11va: bool) -> HwKind {
    if setting == "none"@ {
        HwKind::Software
    } else if setting == "d3d11va"@ {
        HwKind::D3D11Va
    } else if setting == "dxva2"@ {
        HwKind::Dxva2
    } else if !windows {
        HwKind::Software
    } else if d3d11va {
        HwKind::D3D11Va
    } else {
        HwKind::Dxva2
    }
}

/// The name under which an accelerator is set up; software has none.
pub open spec fn name_of(kind: HwKind) -> Option<Seq<char>> {
    match kind {
        HwKind::D3D11Va => Some("d3d11va"@),
        HwKind::Dxva2 => Some("dxva2"@),
        _ => None,
    }
}

/// The accelerator to try, by name. `setting` is what the user chose, `windows`
/// whether this is Windows, `d3d11va` whether Direct3D 11 decoding is there.
pub fn preferred_hw(setting: &str, windows: bool, d3d11va: bool) -> (r: Option<&'static str>)
    ensures
        r is Some == name_of(preference(setting@, windows, d3d11va)) is Some,
        r matches Some(name) ==> name@ == name_of(preference(setting@, windows, d3d11va))->0,
{
    if same_text(setting, "none") {
        None
    } else if same_text(setting, "d3d11va") {
        Some("d3d11va")
    } else if same_text(setting, "dxva2") {
        Some("dxva2")
    } else if !windows {
        None
    } else if d3d11va {
        Some("d3d11va")
    } else {
        Some("dxva2")
    }
}

/// Whether the driver has to be asked for Direct3D 11 decoding: only where the
/// answer matters. A setting that names its accelerator, or none, leaves the
/// driver alone.
pub fn asks_driver(setting: &str, windows: bool) -> (r: bool)
    ensures
        r == (preference(setting@, windows, true) != preference(setting@, windows, false)),
{
    windows && !same_text(setting, "none") && !same_text(setting, "d3d11va") && !same_text(
        setting,
        "dxva2",
    )
}

/// What is tried first for hardware decoding: nothing when no accelerator is
/// preferred, else the renderer's device when it gave one, the preferred
/// accelerator otherwise.
pub open spec fn opening_attempt(device_given: bool, windows: bool, preferred: bool) -> HwAttempt {
    if !preferred {
        HwAttempt::Software
    } else if device_given && windows {
        HwAttempt::SharedDevice
    } else {
        HwAttempt::Named
    }
}

/// What is tried after an attempt that failed.
pub open spec fn attempt_after(failed: HwAttempt, preferred: bool) -> HwAttempt {
    if failed == HwAttempt::SharedDevice && preferred {
        HwAttempt::Named
    } else {
        HwAttempt::Software
    }
}

/// What to try first for hardware decoding.
pub fn first_attempt(device_given: bool, windows: bool, preferred: bool) -> (r: HwAttempt)
    ensures
        r == opening_attempt(device_given, windows, preferred),
{
    if !preferred {
        HwAttempt::Software
    } else if device_given && windows {
        HwAttempt::SharedDevice
    } else {
        HwAttempt::Named
    }
}

/// What to try after an attempt that failed.
pub fn next_attempt(failed: HwAttempt, preferred: bool) -> (r: HwAttempt)
    ensures
        r == attempt_after(failed, preferred),
{
    match failed {
        HwAttempt::SharedDevice => if preferred {
            HwAttempt::Named
        } else {
            HwAttempt::Software
        },
        _ => HwAttempt::Software,
    }
}

/// The threads on which frames are decoded: one for each processor, from two to
/// eight; four when their number is not known.
pub open spec fn thread_count(available: Option<usize>) -> usize {
    let n = match available {
        Some(n) => n,
        None => 4,
    };
    if n < 2 {
        2
    } else if n > 8 {
        8
    } else {
        n
    }
}

/// The threads on which frames are decoded.
pub fn num_cpus(available: Option<usize>) -> (r: usize)
    ensures
        r == thread_count(available),
{
    let n: usize = match available {
        Some(n) => n,
        None => 4,
    };
    if n < 2 {
        2
    } else if n > 8 {
        8
    } else {
        n
    }
}

impl HwAccelContext {
    /// How to set up the accelerator `name`. On a system that is not Windows,
    /// and under any other name, there is nothing to set up.
    pub fn try_init(name: &str, windows: bool) -> (r: HwInit)
        ensures
            r == (if windows && name@ == "d3d11va"@ {
                HwInit::Create(HwKind::D3D11Va)
            } else if windows && name@ == "dxva2"@ {
                HwInit::Create(HwKind::Dxva2)
            } else {
                HwInit::Ready(HwAccelContext { kind: HwKind::Software, has_device: false })
            }),
    {
        if windows && same_text(name, "d3d11va") {
            HwInit::Create(HwKind::D3D11Va)
        } else if windows && same_text(name, "dxva2") {
            HwInit::Create(HwKind::Dxva2)
        } else {
            HwInit::Ready(HwAccelContext { kind: HwKind::Software, has_device: false })
        }
    }

    /// Takes in what creating a device returned, and whether there is one.
    pub fn created(kind: HwKind, code: i32, has_device: bool) -> (r: Result<
        HwAccelContext,
        HwError,
    >)
        ensures
            code >= 0 && has_device ==> r == Ok::<HwAccelContext, HwError>(
                HwAccelContext { kind, has_device: true },
            ),
            !(code >= 0 && has_device) ==> r == Err::<HwAccelContext, HwError>(HwError { code }),
    {
        if code < 0 || !has_device {
            Err(HwError { code })
        } else {
            Ok(HwAccelContext { kind, has_device: true })
        }
    }

    /// The accelerator.
    pub fn kind(&self) -> (r: HwKind)
        ensures
            r == self.kind,
    {
        self.kind
    }

    /// How a codec is set up for this accelerator. `available` is the number of
    /// processors, if it is known.
    pub fn apply_to_codec(&self, available: Option<usize>) -> (r: CodecSetup)
        ensures
            r.frame_threads == (if self.kind != HwKind::Software {
                Some(thread_count(available))
            } else {
                None
            }),
            r.attach == (if self.has_device && (self.kind == HwKind::D3D11Va || self.kind
                == HwKind::Dxva2) {
                Some(self.kind)
            } else {
                None
            }),
    {
        let frame_threads = match self.kind {
            HwKind::Software => None,
            _ => Some(num_cpus(available)),
        };
        let attach = match self.kind {
            HwKind::D3D11Va | HwKind::Dxva2 => if self.has_device {
                Some(self.kind)
            } else {
                None
            },
            _ => None,
        };
        CodecSetup { frame_threads, attach }
    }
}

/// The number that stands for no pixel layout.
pub const FORMAT_NONE: i32 = -1;

/// Picks a pixel layout among those that a decoder offers: `want` if it is one
/// of them, the first otherwise, which decodes in software.
pub fn select_hw_format(offered: &Vec<i32>, want: i32) -> (r: i32)
    ensures
        offered@.contains(want) ==> r == want,
        !offered@.contains(want) && offered@.len() > 0 ==> r == offered@[0],
        !offered@.contains(want) && offered@.len() == 0 ==> r == FORMAT_NONE,
        offered@.len() > 0 ==> offered@.contains(r),
{
    for i in 0..offered.len()
        invariant
            forall|k: int| 0 <= k < i ==> offered@[k] != want,
    {
        if offered[i] == want {
            return want;
        }
    }
    if offered.len() > 0 {
        offered[0]
    } else {
        FORMAT_NONE
    }
}

/// Every setting but `none` leads, on Windows, to an accelerator that can be
/// set up.
pub proof fn law_settings_lead_to_accelerators(setting: Seq<char>, d3d11va: bool)
    ensures
        name_of(preference(setting, true, d3d11va)) is None <==> setting == "none"@,
{
}

/// The setting `none` turns hardware decoding off: nothing is preferred, so
/// whether or not the renderer gave its device, none is attached, neither at
/// first nor after a failure.
pub proof fn law_none_attaches_no_device(device_given: bool, windows: bool, d3d11va: bool)
    ensures
        ({
            let preferred = name_of(preference("none"@, windows, d3d11va)) is Some;
            let first = opening_attempt(device_given, windows, preferred);
            &&& !preferred
            &&& first == HwAttempt::Software
            &&& forall|failed: HwAttempt|
                #[trigger] attempt_after(failed, preferred) == HwAttempt::Software
        }),
{
}

/// Whatever fails, decoding ends up in software after two attempts at most:
/// hardware never stops playback.
pub proof fn law_software_is_always_reached(device_given: bool, windows: bool, preferred: bool)
    ensures
        ({
            let first = opening_attempt(device_given, windows, preferred);
            let second = attempt_after(first, preferred);
            attempt_after(second, preferred) == HwAttempt::Software
        }),
        attempt_after(HwAttempt::Software, preferred) == HwAttempt::Software,
{
}

/// A setting that names an accelerator gets it on every system. Any other one but
/// `none` gets, on Windows, Direct3D 11 where it is there and DXVA 2 where it is
/// not, and elsewhere nothing.
pub proof fn law_settings_get_what_they_name(setting: Seq<char>, windows: bool, d3d11va: bool)
    ensures
        name_of(preference("d3d11va"@, windows, d3d11va)) == Some("d3d11va"@),
        name_of(preference("dxva2"@, windows, d3d11va)) == Some("dxva2"@),
        name_of(preference("none"@, windows, d3d11va)) is None,
        setting != "none"@ && setting != "d3d11va"@ && setting != "dxva2"@ ==> {
            let name = name_of(preference(setting, windows, d3d11va));
            &&& name == Some("d3d11va"@) <==> windows && d3d11va
            &&& name == Some("dxva2"@) <==> windows && !d3d11va
            &&& name is None <==> !windows
        },
{
    reveal_strlit("none");
    reveal_strlit("d3d11va");
    reveal_strlit("dxva2");
    assert("none"@.len() == 4 && "d3d11va"@.len() == 7 && "dxva2"@.len() == 5);
}

/// The driver's answer matters on Windows alone, and only to a setting that leaves
/// the choice open.
pub proof fn law_the_driver_is_asked_where_it_matters(setting: Seq<char>, windows: bool)
    ensures
        preference(setting, windows, true) != preference(setting, windows, false) <==> windows
            && setting != "none"@ && setting != "d3d11va"@ && setting != "dxva2"@,
{
}

/// Only the two accelerators that can be set up have a name, each its own.
pub proof fn law_accelerators_have_names(kind: HwKind)
    ensures
        name_of(kind) == Some("d3d11va"@) <==> kind == HwKind::D3D11Va,
        name_of(kind) == Some("dxva2"@) <==> kind == HwKind::Dxva2,
        name_of(kind) is None <==> kind == HwKind::Cuda || kind == HwKind::Software,
{
    reveal_strlit("d3d11va");
    reveal_strlit("dxva2");
    assert("d3d11va"@.len() == 7 && "dxva2"@.len() == 5);
}

/// The renderer's device is tried exactly when there is one, on Windows, and an
/// accelerator is wanted at all; it is tried once, and the accelerator of that
/// name after it.
pub proof fn law_attempts_come_in_order(
    device_given: bool,
    windows: bool,
    preferred: bool,
    failed: HwAttempt,
)
    ensures
        opening_attempt(device_given, windows, preferred) == HwAttempt::SharedDevice
            <==> device_given && windows && preferred,
        opening_attempt(device_given, windows, preferred) == HwAttempt::Software <==> !preferred,
        opening_attempt(device_given, windows, preferred) == HwAttempt::Named <==> preferred && !(
        device_given && windows),
        attempt_after(failed, preferred) == HwAttempt::Named <==> preferred && failed
            == HwAttempt::SharedDevice,
        attempt_after(failed, preferred) != HwAttempt::SharedDevice,
{
}

/// There is a thread for each processor, but never fewer than two or more than
/// eight, and four when the processors could not be counted.
pub proof fn law_threads_follow_the_processors(n: usize)
    ensures
        2 <= thread_count(Some(n)) <= 8,
        2 <= n <= 8 ==> thread_count(Some(n)) == n,
        n < 2 ==> thread_count(Some(n)) == 2,
        n > 8 ==> thread_count(Some(n)) == 8,
        thread_count(None) == 4,
{
}

} // verus!
