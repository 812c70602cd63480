//! Event sinks of applications and gadgets.
use vstd::prelude::*;

use crate::mediator::Mediator;
use crate::stencil::Point;

verus! {

/// Receives mouse events; each answers an event of type `T`.
pub trait MouseEventSink<T> {
    fn pointer_moved<M: Mediator>(&mut self, med: &mut M, to: Point) -> T;

    fn button_up<M: Mediator>(&mut self, med: &mut M) -> T;

    fn button_down<M: Mediator>(&mut self, med: &mut M) -> T;

    fn enter<M: Mediator>(&mut self, med: &mut M, at: Point) -> T;

    fn leave<M: Mediator>(&mut self, med: &mut M) -> T;
}

/// Application-level events.
pub trait AppEventSink {
    /// Whether the application may quit now.
    fn request_quit(&self) -> bool;
}

/// An application's top-level controller.
pub trait AppController: MouseEventSink<()> + AppEventSink {

}

} // verus!
