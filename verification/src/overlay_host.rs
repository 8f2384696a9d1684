//! The overlay's host: the texture sizes of its two layouts, rendering on
//! this platform, and whether SteamVR is running.
use vstd::prelude::*;

use crate::float_bits::F32;
use crate::presentation::PresentationContent;
use crate::text::{ascii_lower, ascii_lowercase, str_eq};

verus! {

/// The two overlays: a text band in the headset, a message panel on the wrist.
#[derive(Clone, Copy, Debug, PartialEq, Eq, Structural)]
pub enum Layout {
    Headset,
    Wrist,
}

/// A rendered overlay image.
#[derive(Clone, Debug)]
pub struct Texture {
    pub pixels: Vec<u8>,
    pub width: u32,
    pub height: u32,
}

/// The texture size of a layout, in pixels.
pub open spec fn dimensions_spec(layout: Layout) -> (u32, u32) {
    match layout {
        Layout::Headset => (1024, 192),
        Layout::Wrist => (768, 768),
    }
}

/// The texture size of a layout, as `dimensions_spec` says.
pub fn dimensions(layout: Layout) -> (r: (u32, u32))
    ensures
        r == dimensions_spec(layout),
{
    match layout {
        Layout::Headset => (1024, 192),
        Layout::Wrist => (768, 768),
    }
}

/// Renders overlay content. Text is drawn through the Windows graphics
/// interface only, so here every request is refused.
pub fn render(
    layout: Layout,
    content: &PresentationContent,
    font_size_px: u32,
    background_opacity: F32,
) -> (r: Result<Texture, String>)
    ensures
        r matches Err(e) && e@ == "VR Overlay rendering is only supported on Windows"@,
{
    Err(crate::text::owned("VR Overlay rendering is only supported on Windows"))
}

/// The process that shows SteamVR is running.
pub const STEAMVR_SERVER_PROCESS: &'static str = "vrserver.exe";

/// Whether an executable name is SteamVR's server, ignoring ASCII case.
pub fn is_steamvr_server(executable: &str) -> (r: bool)
    ensures
        r == (ascii_lower(executable@) == ascii_lower(STEAMVR_SERVER_PROCESS@)),
{
    let a = ascii_lowercase(executable);
    let b = ascii_lowercase(STEAMVR_SERVER_PROCESS);
    str_eq(a.as_str(), b.as_str())
}

/// Whether SteamVR's server is among the executables of the running processes.
pub fn steamvr_among(executables: &Vec<String>) -> (r: bool)
    ensures
        r == exists|i: int|
            0 <= i < executables@.len() && ascii_lower(#[trigger] executables@[i]@) == ascii_lower(
                STEAMVR_SERVER_PROCESS@,
            ),
{
    let mut i: usize = 0;
    while i < executables.len()
        invariant
            i <= executables@.len(),
            forall|j: int|
                0 <= j < i ==> ascii_lower(#[trigger] executables@[j]@) != ascii_lower(STEAMVR_SERVER_PROCESS@),
        decreases executables@.len() - i,
    {
        if is_steamvr_server(executables[i].as_str()) {
            return true;
        }
        i = i + 1;
    }
    false
}

/// Whether SteamVR is running. The process list is read through the Windows
/// tool-help interface only; elsewhere SteamVR is never reported running.
pub fn steamvr_running() -> (r: bool)
    ensures
        !r,
{
    false
}

} // verus!
