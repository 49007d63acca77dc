//! Key bindings of the dashboard.

use crate::event::{Event, InputEvent};
use crate::list::ListNavEvent;
use crate::width::push_char;
use vstd::prelude::*;

verus! {

/// A key press, as the terminal reports it.
#[derive(Clone, Debug)]
pub enum Key {
    Char(char),
    /// A character typed with Control held.
    Ctrl(char),
    Up,
    Down,
    Left,
    Right,
    Enter,
    Backspace,
    Esc,
    /// Any other key, by its description.
    Other(String),
}

/// What a key press means, when it means more than itself.
pub open spec fn bound_input(k: Key) -> Option<InputEvent> {
    match k {
        Key::Char(c) => if '1' <= c && c <= '9' {
            Some(InputEvent::TabGoto((c as u32 - '0' as u32) as u8))
        } else if c == ' ' {
            Some(InputEvent::ToggleHold)
        } else if c == 't' {
            Some(InputEvent::TestLatency)
        } else if c == 's' {
            Some(InputEvent::Sort)
        } else {
            None
        },
        Key::Ctrl(c) => if c == 'd' {
            Some(InputEvent::ToggleDebug)
        } else {
            None
        },
        Key::Up => Some(InputEvent::List(ListNavEvent::Up)),
        Key::Down => Some(InputEvent::List(ListNavEvent::Down)),
        Key::Left => Some(InputEvent::List(ListNavEvent::Left)),
        Key::Right => Some(InputEvent::List(ListNavEvent::Right)),
        Key::Enter => Some(InputEvent::List(ListNavEvent::Enter)),
        Key::Backspace => Some(InputEvent::List(ListNavEvent::Back)),
        Key::Esc => Some(InputEvent::Esc),
        Key::Other(_) => None,
    }
}

/// The key quits the dashboard: `q`, or Control and `c`.
pub open spec fn quits(k: Key) -> bool {
    k == Key::Char('q') || k == Key::Ctrl('c')
}

/// The event a key press stands for. Keys without a binding become
/// `Other`, carrying their character or description.
pub fn key_event(k: Key) -> (r: Event)
    ensures
        quits(k) ==> r is Quit,
        !quits(k) && bound_input(k) is Some ==> r == Event::Input(bound_input(k)->0),
        !quits(k) && bound_input(k) is None ==> (r matches Event::Input(InputEvent::Other(s)) && match k {
            Key::Char(c) => s@ == seq![c],
            Key::Ctrl(c) => s@ == seq!['^', c],
            Key::Other(d) => s@ == d@,
            _ => false,
        }),
{
    let input = match k {
        Key::Char(c) => {
            if c == 'q' {
                return Event::Quit;
            } else if '1' <= c && c <= '9' {
                InputEvent::TabGoto((c as u32 - '0' as u32) as u8)
            } else if c == ' ' {
                InputEvent::ToggleHold
            } else if c == 't' {
                InputEvent::TestLatency
            } else if c == 's' {
                InputEvent::Sort
            } else {
                let mut s = String::new();
                push_char(&mut s, c);
                InputEvent::Other(s)
            }
        },
        Key::Ctrl(c) => {
            if c == 'c' {
                return Event::Quit;
            } else if c == 'd' {
                InputEvent::ToggleDebug
            } else {
                let mut s = String::new();
                push_char(&mut s, '^');
                push_char(&mut s, c);
                InputEvent::Other(s)
            }
        },
        Key::Up => InputEvent::List(ListNavEvent::Up),
        Key::Down => InputEvent::List(ListNavEvent::Down),
        Key::Left => InputEvent::List(ListNavEvent::Left),
        Key::Right => InputEvent::List(ListNavEvent::Right),
        Key::Enter => InputEvent::List(ListNavEvent::Enter),
        Key::Backspace => InputEvent::List(ListNavEvent::Back),
        Key::Esc => InputEvent::Esc,
        Key::Other(d) => InputEvent::Other(d),
    };
    Event::Input(input)
}

} // verus!
