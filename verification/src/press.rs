use vstd::prelude::*;

verus! {

/// An event as an element that can be pressed (a button, a checkbox) sees it.
#[derive(Clone, Copy, PartialEq, Eq, Debug, Structural)]
pub enum PressEvent {
    /// a key combination: whether it is empty, and whether its first key is enter
    Keys { empty: bool, enter_first: bool },
    /// the left mouse button went down on the element
    LeftDown,
    /// the mouse moved over the element with the left button down
    LeftDrag,
    /// the left mouse button went up on the element
    LeftUp,
    /// any other mouse event on the element
    OtherMouse,
    /// a mouse event elsewhere
    ExternalMouse,
    /// anything else
    Other,
}

/// What an element that can be pressed does with an event: whether it is held down
/// afterwards, whether it is clicked, whether its drawing is redone, whether it captures the
/// event, and whether the responses of its pane are passed on (else it answers nothing).
#[derive(Clone, Copy, PartialEq, Eq, Debug, Structural)]
pub struct PressStep {
    pub clicked_down: bool,
    pub click: bool,
    pub redraw: bool,
    pub captured: bool,
    pub keep_responses: bool,
}

/// A step that changes nothing and captures nothing.
pub open spec fn pass(clicked_down: bool, keep: bool) -> PressStep {
    PressStep { clicked_down, click: false, redraw: false, captured: false, keep_responses: keep }
}

/// What a button does with `ev`, held down or not, selected or not, where its pane has
/// `pane_captured` the event already (it then keeps all as it is). Enter while selected
/// clicks; a left press holds it down; releasing a held button clicks it; a drag while held
/// changes nothing; any other mouse event, and a mouse event elsewhere, release it. Keys while
/// not selected pass the pane's responses on; otherwise an event that is not captured answers
/// nothing.
pub open spec fn button_step(clicked_down: bool, selected: bool, pane_captured: bool, ev: PressEvent) -> PressStep {
    if pane_captured {
        PressStep { clicked_down, click: false, redraw: false, captured: true, keep_responses: true }
    } else {
        match ev {
            PressEvent::Keys { empty, enter_first } => if !selected || empty {
                pass(clicked_down, true)
            } else if enter_first {
                PressStep { clicked_down, click: true, redraw: true, captured: true, keep_responses: true }
            } else {
                pass(clicked_down, false)
            },
            PressEvent::LeftDown => PressStep {
                clicked_down: true,
                click: false,
                redraw: true,
                captured: true,
                keep_responses: true,
            },
            PressEvent::LeftDrag => if clicked_down {
                pass(clicked_down, false)
            } else {
                PressStep { clicked_down: false, click: false, redraw: true, captured: false, keep_responses: false }
            },
            PressEvent::LeftUp => if clicked_down {
                PressStep { clicked_down: false, click: true, redraw: true, captured: true, keep_responses: true }
            } else {
                PressStep { clicked_down: false, click: false, redraw: true, captured: false, keep_responses: false }
            },
            PressEvent::OtherMouse => PressStep {
                clicked_down: false,
                click: false,
                redraw: true,
                captured: false,
                keep_responses: false,
            },
            PressEvent::ExternalMouse => PressStep {
                clicked_down: false,
                click: false,
                redraw: clicked_down,
                captured: false,
                keep_responses: false,
            },
            PressEvent::Other => pass(clicked_down, false),
        }
    }
}

/// What a checkbox does with `ev` (see `button_step`): the same, except that keys while not
/// selected answer nothing, that other events pass the pane's responses on, that it is never
/// redrawn here (a click redraws it), and that mouse events elsewhere change nothing.
pub open spec fn checkbox_step(clicked_down: bool, selected: bool, pane_captured: bool, ev: PressEvent) -> PressStep {
    if pane_captured {
        PressStep { clicked_down, click: false, redraw: false, captured: true, keep_responses: true }
    } else {
        match ev {
            PressEvent::Keys { empty, enter_first } => if !selected || empty {
                pass(clicked_down, false)
            } else if enter_first {
                PressStep { clicked_down, click: true, redraw: false, captured: true, keep_responses: true }
            } else {
                pass(clicked_down, true)
            },
            PressEvent::LeftDown => PressStep {
                clicked_down: true,
                click: false,
                redraw: false,
                captured: true,
                keep_responses: true,
            },
            PressEvent::LeftDrag => if clicked_down {
                pass(clicked_down, true)
            } else {
                pass(false, true)
            },
            PressEvent::LeftUp => if clicked_down {
                PressStep { clicked_down: false, click: true, redraw: false, captured: true, keep_responses: true }
            } else {
                pass(false, true)
            },
            PressEvent::OtherMouse => pass(false, true),
            PressEvent::ExternalMouse => pass(clicked_down, true),
            PressEvent::Other => pass(clicked_down, true),
        }
    }
}

/// Decides what a button does with an event (see `button_step`).
pub fn button_event(clicked_down: bool, selected: bool, pane_captured: bool, ev: PressEvent) -> (s: PressStep)
    ensures
        s == button_step(clicked_down, selected, pane_captured, ev),
{
    if pane_captured {
        return PressStep { clicked_down, click: false, redraw: false, captured: true, keep_responses: true };
    }
    let pass = PressStep { clicked_down, click: false, redraw: false, captured: false, keep_responses: false };
    match ev {
        PressEvent::Keys { empty, enter_first } => {
            if !selected || empty {
                PressStep { keep_responses: true, ..pass }
            } else if enter_first {
                PressStep { clicked_down, click: true, redraw: true, captured: true, keep_responses: true }
            } else {
                pass
            }
        },
        PressEvent::LeftDown => PressStep {
            clicked_down: true,
            click: false,
            redraw: true,
            captured: true,
            keep_responses: true,
        },
        PressEvent::LeftDrag if clicked_down => pass,
        PressEvent::LeftUp if clicked_down => PressStep {
            clicked_down: false,
            click: true,
            redraw: true,
            captured: true,
            keep_responses: true,
        },
        PressEvent::LeftDrag | PressEvent::LeftUp | PressEvent::OtherMouse => PressStep {
            clicked_down: false,
            click: false,
            redraw: true,
            captured: false,
            keep_responses: false,
        },
        PressEvent::ExternalMouse => PressStep {
            clicked_down: false,
            click: false,
            redraw: clicked_down,
            captured: false,
            keep_responses: false,
        },
        PressEvent::Other => pass,
    }
}

/// The state of a checkbox: whether it is checked and whether it is held down.
#[derive(Clone, Copy, PartialEq, Eq, Debug, Structural)]
pub struct CheckboxState {
    pub checked: bool,
    pub clicked_down: bool,
}

/// Decides what a checkbox does with an event (see `checkbox_step`); a click toggles whether
/// it is checked. Returns the new state and the step.
pub fn checkbox_event(st: CheckboxState, selected: bool, pane_captured: bool, ev: PressEvent) -> (r: (
    CheckboxState,
    PressStep,
))
    ensures
        r.1 == checkbox_step(st.clicked_down, selected, pane_captured, ev),
        r.0.clicked_down == r.1.clicked_down,
        r.0.checked == (st.checked != r.1.click),
{
    let clicked_down = st.clicked_down;
    let step = if pane_captured {
        PressStep { clicked_down, click: false, redraw: false, captured: true, keep_responses: true }
    } else {
        let pass = PressStep { clicked_down, click: false, redraw: false, captured: false, keep_responses: true };
        match ev {
            PressEvent::Keys { empty, enter_first } => {
                if !selected || empty {
                    PressStep { keep_responses: false, ..pass }
                } else if enter_first {
                    PressStep { clicked_down, click: true, redraw: false, captured: true, keep_responses: true }
                } else {
                    pass
                }
            },
            PressEvent::LeftDown => PressStep { clicked_down: true, captured: true, ..pass },
            PressEvent::LeftDrag if clicked_down => pass,
            PressEvent::LeftUp if clicked_down => PressStep {
                clicked_down: false,
                click: true,
                redraw: false,
                captured: true,
                keep_responses: true,
            },
            PressEvent::LeftDrag | PressEvent::LeftUp | PressEvent::OtherMouse => PressStep {
                clicked_down: false,
                ..pass
            },
            PressEvent::ExternalMouse | PressEvent::Other => pass,
        }
    };
    let checked = if step.click {
        checkbox_click(st.checked)
    } else {
        st.checked
    };
    (CheckboxState { checked, clicked_down: step.clicked_down }, step)
}

/// Clicking a checkbox: the new checked state.
pub fn checkbox_click(checked: bool) -> (r: bool)
    ensures
        r == !checked,
{
    !checked
}

/// What a checkbox shows: its checkmark where checked, else a space.
pub fn checkbox_text(checked: bool, checkmark: char) -> (c: char)
    ensures
        c == (if checked {
            checkmark
        } else {
            ' '
        }),
{
    if checked {
        checkmark
    } else {
        ' '
    }
}

/// A button or a checkbox is clicked only by enter while selected, or by releasing the left
/// button after pressing it on the element; and a click always releases a held element or
/// leaves it as it was.
pub proof fn lemma_click_needs_enter_or_release(clicked_down: bool, selected: bool, pane_captured: bool, ev: PressEvent)
    ensures
        button_step(clicked_down, selected, pane_captured, ev).click ==> !pane_captured && (
            (ev matches PressEvent::Keys { empty, enter_first } && !empty && enter_first && selected)
                || (ev is LeftUp && clicked_down)),
        checkbox_step(clicked_down, selected, pane_captured, ev).click ==> !pane_captured && (
            (ev matches PressEvent::Keys { empty, enter_first } && !empty && enter_first && selected)
                || (ev is LeftUp && clicked_down)),
        button_step(clicked_down, selected, pane_captured, ev).click ==> !button_step(
            clicked_down,
            selected,
            pane_captured,
            ev,
        ).clicked_down || clicked_down,
{
}

/// Pressing and then releasing the left button on an element that the pane lets through clicks
/// it exactly once, at the release, and leaves it released: both events are captured, and the
/// release passes the pane's responses on (with those of the click action).
pub proof fn lemma_press_release_clicks_once(clicked_down: bool, selected: bool)
    ensures
        ({
            let b1 = button_step(clicked_down, selected, false, PressEvent::LeftDown);
            let b2 = button_step(b1.clicked_down, selected, false, PressEvent::LeftUp);
            &&& !b1.click && b2.click && !b2.clicked_down
            &&& b1.captured && b2.captured && b2.keep_responses
        }),
        ({
            let c1 = checkbox_step(clicked_down, selected, false, PressEvent::LeftDown);
            let c2 = checkbox_step(c1.clicked_down, selected, false, PressEvent::LeftUp);
            &&& !c1.click && c2.click && !c2.clicked_down
            &&& c1.captured && c2.captured && c2.keep_responses
        }),
{
}

} // verus!
