//! What views and controllers ask of the application around them.
use vstd::prelude::*;

use crate::stencil::Stencil;

verus! {

/// Services that views and controllers ask of the application around them.
pub trait Mediator {
    /// Requests a repaint of the whole screen.
    fn repaint_all(&mut self);

    /// Requests that the application quit.
    fn quit(&mut self);

    /// The desktop bitmap.
    fn borrow_mut_desktop(&mut self) -> &mut Stencil;
}

} // verus!
