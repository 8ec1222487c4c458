//! The main menu's response to the controls, and the score display's clock.
use crate::mode::{DisplayState, Event, MenuState};
use crate::objects::Input;
use vstd::prelude::*;

verus! {

/// What `str::to_lowercase` makes of a string.
pub uninterp spec fn lower_of(s: Seq<char>) -> Seq<char>;

/// Relies on `str::to_lowercase`: the lower-case form of `s`, which depends
/// on the characters of `s` alone.
#[verifier::external_body]
fn lowercase(s: &str) -> (r: String)
    ensures
        r@ == lower_of(s@),
{
    s.to_lowercase()
}

/// The entry picked after one substep of `input`: up goes to the entry
/// before, down to the one after, each wrapping round the list.
pub open spec fn picked_after(selected: usize, n: usize, input: Input) -> usize {
    if input.menu_up {
        ((selected + n - 1) % (n as int)) as usize
    } else if input.menu_down {
        ((selected + 1) % (n as int)) as usize
    } else {
        selected
    }
}

/// `m2` and event `r` are what one substep of `input` makes of menu `m`:
/// the pick moves, and confirming reports the picked entry in lower case.
pub open spec fn menu_step(m: MenuState, input: Input, m2: MenuState, r: Option<Event>) -> bool {
    &&& m2.options == m.options
    &&& m2.selected == picked_after(m.selected, m.options@.len() as usize, input)
    &&& m2.wf()
    &&& match r {
        None => !input.enter,
        Some(Event::MenuSelected(s)) => input.enter && s@ == lower_of(
            m2.options@[m2.selected as int]@,
        ),
        Some(_) => false,
    }
}

/// Moves the menu's pick with the controls; on confirm, reports the picked
/// entry in lower case.
pub fn update_menu(menu: &mut MenuState, input: &Input) -> (r: Option<Event>)
    requires
        old(menu).wf(),
    ensures
        menu_step(*old(menu), *input, *final(menu), r),
{
    let n = menu.options.len();
    if input.menu_up {
        menu.selected = ((menu.selected as u128 + n as u128 - 1) % (n as u128)) as usize;
    } else if input.menu_down {
        menu.selected = ((menu.selected as u128 + 1) % (n as u128)) as usize;
    }
    if input.enter {
        let item = lowercase(menu.options[menu.selected].as_str());
        return Some(Event::MenuSelected(item));
    }
    None
}

/// How long a display message stays up, in milliseconds.
pub const MESSAGE_DURATION_MS: u64 = 1500;

/// `d2` is display `d` at time `now`: its message is taken down once it has
/// been up for longer than `MESSAGE_DURATION_MS`.
pub open spec fn display_step(d: DisplayState, now: u64, d2: DisplayState) -> bool {
    &&& d2.messages == d.messages
    &&& d2.start_time == d.start_time
    &&& d2.message == if d.message.is_some() && now > d.start_time + MESSAGE_DURATION_MS {
        None
    } else {
        d.message
    }
}

/// Takes the display's message down once it has been up for longer than
/// `MESSAGE_DURATION_MS` at time `now`.
pub fn update_display(display: &mut DisplayState, now: u64)
    ensures
        display_step(*old(display), now, *final(display)),
{
    if display.message.is_some() && now as u128 > display.start_time as u128 + MESSAGE_DURATION_MS as u128 {
        display.message = None;
    }
}

} // verus!
