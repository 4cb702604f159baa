//! Delivery of application events to widgets through a handler that the
//! host implements and lends for the call.
use vstd::prelude::*;
use crate::view::Widget;

verus! {

/// What the host does when an application event reaches a widget; it may
/// change the widget and ask for a redraw.
pub trait EventHandler<W, E> {
    fn on_event(&mut self, widget: &mut W, event: &mut E);
}

impl<T> Widget<T> {
    /// Hand `event` and this widget to `handler`.
    pub fn event<E, H: EventHandler<Widget<T>, E>>(&mut self, handler: &mut H, event: &mut E) {
        handler.on_event(self, event);
    }
}

} // verus!
