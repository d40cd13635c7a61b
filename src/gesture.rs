//! Gesture recognition for user-interface elements.
//!
//! Every element has an [`Id`]. The [`Values`] carried between frames say which element is
//! active (pressed), which one the pointer hovers, and which one has focus. The
//! [`recognizer`] turns one gesture over one element into a [`Response`] and updates those
//! values; whether the pointer lies within the element's bounds is measured by the caller.
use vstd::prelude::*;

use crate::reducer::ActionRoute;

verus! {

/// The identity of a user-interface element: a non-zero 128-bit number.
#[derive(Clone, Copy, Debug, PartialEq, Eq, Structural)]
pub struct Id {
    value: u128,
}

impl Id {
    /// The number of the id.
    pub closed spec fn spec_value(&self) -> u128 {
        self.value
    }

    /// The id numbered `value`; there is none for zero.
    pub fn new(value: u128) -> (r: Option<Id>)
        ensures
            r is Some <==> value != 0,
            r matches Some(id) ==> id.spec_value() == value,
    {
        if value == 0 {
            None
        } else {
            Some(Id { value })
        }
    }

    /// The number of the id.
    pub fn get(&self) -> (r: u128)
        ensures
            r == self.spec_value(),
    {
        self.value
    }
}

/// The user-interface state carried between frames.
#[derive(Clone, Copy, Debug, PartialEq, Eq, Structural)]
pub struct Values {
    pub active: Option<Id>,
    pub hover: Option<Id>,
    pub focus: Option<Id>,
}

impl Default for Values {
    fn default() -> (r: Values)
        ensures
            r.active is None && r.hover is None && r.focus is None,
    {
        Values { active: None, hover: None, focus: None }
    }
}

/// What a gesture did to an element.
#[derive(Clone, Copy, Debug, PartialEq, Eq, Structural)]
pub enum Response {
    DownInside,
    UpInside,
    UpOutside,
    DragInside,
    DragExit,
    DragOutside,
    DragEnter,
}

/// Touches and buttons, by the number of the finger or button.
#[derive(Clone, Copy, Debug, PartialEq, Eq, Structural)]
pub enum Gesture {
    Began { n: u8 },
    Moved { n: u8 },
    Ended { n: u8 },
}

/// Events that a view handles.
#[derive(Clone, Copy, Debug, PartialEq, Eq, Structural)]
pub enum Event {
    Gesture(Gesture),
    Resize { width: u32, height: u32 },
    Redraw,
}

impl ActionRoute<Gesture> for Event {
    open spec fn from_child_spec(c: Gesture) -> Event {
        Event::Gesture(c)
    }

    open spec fn to_child_spec(&self) -> Option<Gesture> {
        match *self {
            Event::Gesture(g) => Some(g),
            _ => None,
        }
    }

    fn from_child(c: Gesture) -> (r: Event) {
        Event::Gesture(c)
    }

    fn to_child(&self) -> (r: Option<Gesture>) {
        match *self {
            Event::Gesture(g) => Some(g),
            _ => None,
        }
    }
}

/// The values after `gesture` over the element `id`, and the response, where `within`
/// says whether the pointer lies within the element's bounds.
///
/// The pointer counts as inside only if no other element is active. A press inside makes
/// the element active and hovered. A release by the active element ends the interaction,
/// inside or outside. A move of the active element reports a drag, and entering or leaving
/// its bounds changes the hover.
pub open spec fn recognize(values: Values, id: Id, gesture: Gesture, within: bool) -> (
    Values,
    Option<Response>,
) {
    let is_active = values.active == Some(id);
    let is_hover = values.hover == Some(id);
    let inside = (values.active is None || is_active) && within;
    match gesture {
        Gesture::Began { .. } => if inside {
            (Values { active: Some(id), hover: Some(id), ..values }, Some(Response::DownInside))
        } else {
            (values, None)
        },
        Gesture::Ended { .. } => if is_active {
            (
                Values { active: None, hover: None, ..values },
                Some(if inside { Response::UpInside } else { Response::UpOutside }),
            )
        } else {
            (values, None)
        },
        Gesture::Moved { .. } => if !is_active {
            (values, None)
        } else if is_hover && inside {
            (values, Some(Response::DragInside))
        } else if !is_hover && !inside {
            (values, Some(Response::DragOutside))
        } else if is_hover {
            (Values { hover: None, ..values }, Some(Response::DragExit))
        } else {
            (Values { hover: Some(id), ..values }, Some(Response::DragEnter))
        },
    }
}

/// Recognizes `gesture` over the element `id`, updating `values`.
pub fn recognizer(id: Id, gesture: Gesture, within: bool, values: &mut Values) -> (r: Option<
    Response,
>)
    ensures
        (*final(values), r) == recognize(*old(values), id, gesture, within),
{
    let is_active = values.active == Some(id);
    let is_hover = values.hover == Some(id);
    let inside = (values.active.is_none() || is_active) && within;
    match gesture {
        Gesture::Began { .. } => {
            if inside {
                values.active = Some(id);
                values.hover = Some(id);
                Some(Response::DownInside)
            } else {
                None
            }
        },
        Gesture::Ended { .. } => {
            if is_active {
                values.active = None;
                values.hover = None;
                if inside {
                    Some(Response::UpInside)
                } else {
                    Some(Response::UpOutside)
                }
            } else {
                None
            }
        },
        Gesture::Moved { .. } => {
            if !is_active {
                None
            } else if is_hover && inside {
                Some(Response::DragInside)
            } else if !is_hover && !inside {
                Some(Response::DragOutside)
            } else if is_hover {
                values.hover = None;
                Some(Response::DragExit)
            } else {
                values.hover = Some(id);
                Some(Response::DragEnter)
            }
        },
    }
}

} // verus!
