//! Page geometry of a section.

use vstd::prelude::*;

verus! {

/// How pages are bound.
#[derive(Clone, Copy, Debug, PartialEq, Eq, Structural)]
pub enum BindingMethod {
    SingleSided,
    DuplexSided,
    TopFlip,
}

/// Paper size, orientation, binding and the seven margins (HWPUNIT).
#[derive(Clone, Copy, Debug, PartialEq, Eq)]
pub struct PageDef {
    pub width: u32,
    pub height: u32,
    pub margin_left: u32,
    pub margin_right: u32,
    pub margin_top: u32,
    pub margin_bottom: u32,
    pub margin_header: u32,
    pub margin_footer: u32,
    pub margin_gutter: u32,
    pub landscape: bool,
    pub binding: BindingMethod,
}

} // verus!
