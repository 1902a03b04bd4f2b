//! The names of the protocol interfaces.

use vstd::prelude::*;

verus! {

pub const WL_DISPLAY_INTERFACE: &'static str = "wl_display";

pub const WL_REGISTRY_INTERFACE: &'static str = "wl_registry";

pub const WL_COMPOSITOR_INTERFACE: &'static str = "wl_compositor";

pub const WL_SURFACE_INTERFACE: &'static str = "wl_surface";

pub const WL_SHM_INTERFACE: &'static str = "wl_shm";

pub const WL_SHM_POOL_INTERFACE: &'static str = "wl_shm_pool";

pub const WL_BUFFER_INTERFACE: &'static str = "wl_buffer";

pub const WL_OUTPUT_INTERFACE: &'static str = "wl_output";

pub const WL_SEAT_INTERFACE: &'static str = "wl_seat";

pub const WL_KEYBOARD_INTERFACE: &'static str = "wl_keyboard";

pub const WL_POINTER_INTERFACE: &'static str = "wl_pointer";

pub const COSMIC_SHELL_INTERFACE: &'static str = "cosmic_shell";

pub const COSMIC_WORKSPACE_INTERFACE: &'static str = "cosmic_workspace";

} // verus!
