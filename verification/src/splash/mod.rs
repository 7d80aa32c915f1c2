//! The splash screen's public API as a build without the splash feature has
//! it, and the decisions that the splash feature's window code takes.

use vstd::prelude::*;
use vstd::string::StringSliceAdditionalSpecFns;

pub mod config;
pub mod window;

verus! {

/// Runs `work` and returns what it returns. Without the splash feature no
/// window is shown.
pub fn run_with_splash<F, R>(work: F) -> (result: R) where
    F: FnOnce() -> R + Send + 'static,
    R: Send + 'static,

    requires
        work.requires(()),
    ensures
        work.ensures((), result),
{
    work()
}

/// Shows a status line; without the splash feature there is nothing to show it in.
pub fn update_status(_status: &str) {
}

/// Closes the splash screen; without the splash feature there is none.
pub fn close() {
}

/// Whether a splash screen is shown: never without the splash feature.
pub fn is_enabled() -> (enabled: bool)
    ensures
        !enabled,
{
    false
}

/// Whether the build's splash flag turns the splash screen on: the build
/// writes the flag as `1` when it does.
pub fn is_enabled_flag(flag: &str) -> (enabled: bool)
    ensures
        enabled == (flag.spec_bytes() == seq![49u8]),
{
    let bytes = flag.as_bytes();
    let enabled = bytes.len() == 1 && bytes[0] == 49;
    assert(enabled ==> bytes@ =~= seq![49u8]);
    enabled
}

/// The renderers that the splash window can be drawn with.
#[derive(Debug, Clone, Copy, PartialEq, Eq, Structural)]
pub enum Renderer {
    Wgpu,
    Glow,
}

/// The renderer to try next, given the one tried last (none yet) and whether
/// its window ran: wgpu first, then OpenGL (glow) only if wgpu failed, then
/// nothing more.
pub fn next_renderer(last: Option<Renderer>, last_ran: bool) -> (next: Option<Renderer>)
    ensures
        next == match last {
            None => Some(Renderer::Wgpu),
            Some(Renderer::Wgpu) => if last_ran {
                None
            } else {
                Some(Renderer::Glow)
            },
            Some(Renderer::Glow) => None,
        },
{
    match last {
        None => Some(Renderer::Wgpu),
        Some(Renderer::Wgpu) => {
            if last_ran {
                None
            } else {
                Some(Renderer::Glow)
            }
        },
        Some(Renderer::Glow) => None,
    }
}

} // verus!
