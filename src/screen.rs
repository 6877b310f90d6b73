//! The `screen` entity.

use vstd::prelude::*;

verus! {

/// The native state of a screen object. Screens carry no native fields of
/// their own yet: their geometry lives on the host side.
#[derive(PartialEq, Eq, Structural, Debug, Clone, Copy)]
pub struct ScreenState {}

} // verus!
