//! Playback controls, sent to the media session as media-key presses.
use vstd::prelude::*;

use crate::text::{decimal, push_decimal, push_str};

verus! {

/// A playback control.
#[derive(Clone, Copy, Debug, PartialEq, Eq, Structural)]
pub enum MediaControl {
    Previous,
    PlayPause,
    Next,
}

/// `windows_sys::Win32::UI::Input::KeyboardAndMouse::VK_MEDIA_PREV_TRACK`,
/// which the crate defines as `177u16`.
#[verifier::external_body]
fn vk_media_prev_track() -> (k: u16)
    ensures
        k == 177,
{
    windows_sys::Win32::UI::Input::KeyboardAndMouse::VK_MEDIA_PREV_TRACK
}

/// `windows_sys::Win32::UI::Input::KeyboardAndMouse::VK_MEDIA_PLAY_PAUSE`,
/// which the crate defines as `179u16`.
#[verifier::external_body]
fn vk_media_play_pause() -> (k: u16)
    ensures
        k == 179,
{
    windows_sys::Win32::UI::Input::KeyboardAndMouse::VK_MEDIA_PLAY_PAUSE
}

/// `windows_sys::Win32::UI::Input::KeyboardAndMouse::VK_MEDIA_NEXT_TRACK`,
/// which the crate defines as `176u16`.
#[verifier::external_body]
fn vk_media_next_track() -> (k: u16)
    ensures
        k == 176,
{
    windows_sys::Win32::UI::Input::KeyboardAndMouse::VK_MEDIA_NEXT_TRACK
}

/// The Windows virtual-key code of a control's media key.
pub open spec fn virtual_key_spec(control: MediaControl) -> u16 {
    match control {
        MediaControl::Previous => 0xB1,
        MediaControl::PlayPause => 0xB3,
        MediaControl::Next => 0xB0,
    }
}

/// The Windows virtual-key code of a control's media key.
pub fn virtual_key(control: MediaControl) -> (k: u16)
    ensures
        k == virtual_key_spec(control),
{
    match control {
        MediaControl::Previous => vk_media_prev_track(),
        MediaControl::PlayPause => vk_media_play_pause(),
        MediaControl::Next => vk_media_next_track(),
    }
}

/// One keyboard event of a key press.
#[derive(Clone, Copy, Debug, PartialEq, Eq, Structural)]
pub struct KeyEvent {
    pub virtual_key: u16,
    pub key_up: bool,
}

/// The keyboard events that press a control's media key: key down, then
/// key up.
pub fn key_presses(control: MediaControl) -> (events: Vec<KeyEvent>)
    ensures
        events@ == seq![
            KeyEvent { virtual_key: virtual_key_spec(control), key_up: false },
            KeyEvent { virtual_key: virtual_key_spec(control), key_up: true },
        ],
{
    let key = virtual_key(control);
    let mut events: Vec<KeyEvent> = Vec::new();
    events.push(KeyEvent { virtual_key: key, key_up: false });
    events.push(KeyEvent { virtual_key: key, key_up: true });
    assert(events@ =~= seq![
        KeyEvent { virtual_key: virtual_key_spec(control), key_up: false },
        KeyEvent { virtual_key: virtual_key_spec(control), key_up: true },
    ]);
    events
}

/// The message for a rejected key press.
pub open spec fn rejection_message(sent: u32, expected: u32) -> Seq<char> {
    "Windows rejected the media control input (sent "@ + decimal(sent as nat) + " of "@ + decimal(
        expected as nat,
    ) + ")"@
}

/// The outcome of sending the key events: success when every event was
/// accepted, otherwise an error saying how many were.
pub fn send_outcome(sent: u32, expected: u32) -> (r: Result<(), String>)
    ensures
        sent == expected ==> r is Ok,
        sent != expected ==> (r matches Err(m) && m@ == rejection_message(sent, expected)),
{
    if sent == expected {
        Ok(())
    } else {
        let mut m = String::new();
        push_str(&mut m, "Windows rejected the media control input (sent ");
        push_decimal(&mut m, sent as u64);
        push_str(&mut m, " of ");
        push_decimal(&mut m, expected as u64);
        push_str(&mut m, ")");
        assert(m@ =~= rejection_message(sent, expected));
        Err(m)
    }
}

} // verus!
