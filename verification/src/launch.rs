//! What the program does with its argument and its environment when it starts.

use vstd::prelude::*;

use crate::text;
use crate::text::{chars_of, contains, same_text};

verus! {

/// A way to reach the GPU.
#[derive(Debug, Clone, Copy, PartialEq, Eq, Structural)]
pub enum Backend {
    Vulkan,
    Dx12,
    /// Whatever the system has first.
    Primary,
}

/// Whether the argument names something to open: an address with a scheme, or
/// a file that exists.
pub fn opens(argument: &str, exists: bool) -> (r: bool)
    ensures
        r == (text::has_part(argument@, "://"@) || exists),
{
    contains(&chars_of(argument), &chars_of("://")) || exists
}

/// The way to the GPU. `FORGEPLAYER_BACKEND` forces one; otherwise Windows
/// takes the one through which decoded surfaces can be shared.
pub fn choose_backend(forced: Option<&str>, windows: bool) -> (r: Backend)
    ensures
        r == (match forced {
            Some(name) if name@ == "vulkan"@ => Backend::Vulkan,
            Some(name) if name@ == "dx12"@ => Backend::Dx12,
            _ => if windows {
                Backend::Dx12
            } else {
                Backend::Primary
            },
        }),
{
    if let Some(name) = forced {
        if same_text(name, "vulkan") {
            return Backend::Vulkan;
        }
        if same_text(name, "dx12") {
            return Backend::Dx12;
        }
    }
    if windows {
        Backend::Dx12
    } else {
        Backend::Primary
    }
}

} // verus!
