//! Any leaf widget, so that one container can hold leaves of different kinds.
use vstd::prelude::*;
use crate::view::{Draw, DrawView, ViewTrait, Widget};
use crate::input::Input;
use crate::buffered::BufferedWin;
use crate::list_view::ListView;

verus! {

/// A line editor, a scrollback or a list.
pub enum Leaf {
    Input(Widget<Input>),
    Buffered(Widget<BufferedWin>),
    List(Widget<ListView>),
}

impl ViewTrait for Leaf {
    open spec fn spec_width(&self) -> Option<u16> {
        match self {
            Leaf::Input(v) => v.spec_width(),
            Leaf::Buffered(v) => v.spec_width(),
            Leaf::List(v) => v.spec_width(),
        }
    }

    open spec fn spec_height(&self) -> Option<u16> {
        match self {
            Leaf::Input(v) => v.spec_height(),
            Leaf::Buffered(v) => v.spec_height(),
            Leaf::List(v) => v.spec_height(),
        }
    }

    open spec fn spec_left(&self) -> u16 {
        match self {
            Leaf::Input(v) => v.spec_left(),
            Leaf::Buffered(v) => v.spec_left(),
            Leaf::List(v) => v.spec_left(),
        }
    }

    open spec fn spec_top(&self) -> u16 {
        match self {
            Leaf::Input(v) => v.spec_top(),
            Leaf::Buffered(v) => v.spec_top(),
            Leaf::List(v) => v.spec_top(),
        }
    }

    open spec fn spec_dirty(&self) -> bool {
        match self {
            Leaf::Input(v) => v.spec_dirty(),
            Leaf::Buffered(v) => v.spec_dirty(),
            Leaf::List(v) => v.spec_dirty(),
        }
    }

    open spec fn fills_width(&self) -> bool {
        match self {
            Leaf::Input(v) => v.fills_width(),
            Leaf::Buffered(v) => v.fills_width(),
            Leaf::List(v) => v.fills_width(),
        }
    }

    open spec fn fills_height(&self) -> bool {
        match self {
            Leaf::Input(v) => v.fills_height(),
            Leaf::Buffered(v) => v.fills_height(),
            Leaf::List(v) => v.fills_height(),
        }
    }

    open spec fn ready(&self) -> bool {
        match self {
            Leaf::Input(v) => v.ready(),
            Leaf::Buffered(v) => v.ready(),
            Leaf::List(v) => v.ready(),
        }
    }

    open spec fn keeps_state(&self, before: Self) -> bool {
        match (self, before) {
            (Leaf::Input(a), Leaf::Input(b)) => a.keeps_state(b),
            (Leaf::Buffered(a), Leaf::Buffered(b)) => a.keeps_state(b),
            (Leaf::List(a), Leaf::List(b)) => a.keeps_state(b),
            _ => false,
        }
    }

    open spec fn measure_post(&self, before: Self, width_spec: Option<u16>, height_spec: Option<u16>) -> bool {
        match (self, before) {
            (Leaf::Input(a), Leaf::Input(b)) => a.measure_post(b, width_spec, height_spec),
            (Leaf::Buffered(a), Leaf::Buffered(b)) => a.measure_post(b, width_spec, height_spec),
            (Leaf::List(a), Leaf::List(b)) => a.measure_post(b, width_spec, height_spec),
            _ => false,
        }
    }

    open spec fn layout_post(&self, before: Self, top: u16, left: u16) -> bool {
        match (self, before) {
            (Leaf::Input(a), Leaf::Input(b)) => a.layout_post(b, top, left),
            (Leaf::Buffered(a), Leaf::Buffered(b)) => a.layout_post(b, top, left),
            (Leaf::List(a), Leaf::List(b)) => a.layout_post(b, top, left),
            _ => false,
        }
    }

    open spec fn spec_redraw(&self) -> Seq<DrawView> {
        match self {
            Leaf::Input(v) => v.spec_redraw(),
            Leaf::Buffered(v) => v.spec_redraw(),
            Leaf::List(v) => v.spec_redraw(),
        }
    }

    fn measure(&mut self, width_spec: Option<u16>, height_spec: Option<u16>) {
        match self {
            Leaf::Input(v) => v.measure(width_spec, height_spec),
            Leaf::Buffered(v) => v.measure(width_spec, height_spec),
            Leaf::List(v) => v.measure(width_spec, height_spec),
        }
    }

    fn layout(&mut self, top: u16, left: u16) {
        match self {
            Leaf::Input(v) => v.layout(top, left),
            Leaf::Buffered(v) => v.layout(top, left),
            Leaf::List(v) => v.layout(top, left),
        }
    }

    fn is_dirty(&self) -> (r: bool) {
        match self {
            Leaf::Input(v) => v.is_dirty(),
            Leaf::Buffered(v) => v.is_dirty(),
            Leaf::List(v) => v.is_dirty(),
        }
    }

    fn get_measured_width(&self) -> (r: Option<u16>) {
        match self {
            Leaf::Input(v) => v.get_measured_width(),
            Leaf::Buffered(v) => v.get_measured_width(),
            Leaf::List(v) => v.get_measured_width(),
        }
    }

    fn get_measured_height(&self) -> (r: Option<u16>) {
        match self {
            Leaf::Input(v) => v.get_measured_height(),
            Leaf::Buffered(v) => v.get_measured_height(),
            Leaf::List(v) => v.get_measured_height(),
        }
    }

    fn redraw(&self) -> (r: Vec<Draw>) {
        match self {
            Leaf::Input(v) => v.redraw(),
            Leaf::Buffered(v) => v.redraw(),
            Leaf::List(v) => v.redraw(),
        }
    }
}

} // verus!
