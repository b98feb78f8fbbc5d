//! Translation of raw keyboard input into semantic dashboard events.
//!
//! The polling loop itself blocks on the terminal and lives outside the
//! library; it hands each key press to `keyboard_commands` and sends the
//! returned events into the channel, stopping itself when told to.

use vstd::prelude::*;
use crate::types::AppEvent;

verus! {

/// A key press, reduced to what the dashboard reacts to.
#[derive(Clone, Copy, Debug, PartialEq, Eq, Structural)]
pub enum KeyPress {
    /// A printable character.
    Character(char),
    /// The up arrow.
    Up,
    /// The down arrow.
    Down,
    /// The enter key.
    Enter,
    /// The escape key.
    Escape,
    /// Any other key.
    OtherKey,
}

/// The events one key press produces, and whether the input worker should
/// stop. `q`, and `c` or `q` with control held, quit; the arrows send both
/// a selection move and a scroll (the reducer keeps whichever applies to
/// the current view); enter opens and escape leaves the log view.
pub fn keyboard_commands(key: KeyPress, ctrl: bool) -> (r: (Vec<AppEvent>, bool))
    ensures
        match key {
            KeyPress::Character(c) => if c == 'q' || (c == 'c' && ctrl) {
                r.0@ =~= seq![AppEvent::Quit] && r.1 == true
            } else {
                r.0@ =~= Seq::<AppEvent>::empty() && r.1 == false
            },
            KeyPress::Up => r.0@ =~= seq![AppEvent::SelectPrevious, AppEvent::ScrollUp] && r.1
                == false,
            KeyPress::Down => r.0@ =~= seq![AppEvent::SelectNext, AppEvent::ScrollDown] && r.1
                == false,
            KeyPress::Enter => r.0@ =~= seq![AppEvent::EnterPressed] && r.1 == false,
            KeyPress::Escape => r.0@ =~= seq![AppEvent::ExitLogView] && r.1 == false,
            KeyPress::OtherKey => r.0@ =~= Seq::<AppEvent>::empty() && r.1 == false,
        },
{
    let mut events: Vec<AppEvent> = Vec::new();
    match key {
        KeyPress::Character(c) => {
            if c == 'q' || (c == 'c' && ctrl) {
                events.push(AppEvent::Quit);
                proof {
                    assert(events@ =~= seq![AppEvent::Quit]);
                }
                return (events, true);
            }
        },
        KeyPress::Up => {
            events.push(AppEvent::SelectPrevious);
            events.push(AppEvent::ScrollUp);
            proof {
                assert(events@ =~= seq![AppEvent::SelectPrevious, AppEvent::ScrollUp]);
            }
        },
        KeyPress::Down => {
            events.push(AppEvent::SelectNext);
            events.push(AppEvent::ScrollDown);
            proof {
                assert(events@ =~= seq![AppEvent::SelectNext, AppEvent::ScrollDown]);
            }
        },
        KeyPress::Enter => {
            events.push(AppEvent::EnterPressed);
            proof {
                assert(events@ =~= seq![AppEvent::EnterPressed]);
            }
        },
        KeyPress::Escape => {
            events.push(AppEvent::ExitLogView);
            proof {
                assert(events@ =~= seq![AppEvent::ExitLogView]);
            }
        },
        KeyPress::OtherKey => {},
    }
    (events, false)
}

} // verus!
