//! Pasting with a virtual keyboard: the key events that make up Ctrl+V or
//! Ctrl+Shift+V, in order and with the pauses between them.

use vstd::prelude::*;
use vstd::string::*;

use crate::text::{append_decimal, describe_failure};

verus! {

/// The bit of Shift in a modifier mask.
pub const MOD_SHIFT: u32 = 1;

/// The bit of Control in a modifier mask.
pub const MOD_CONTROL: u32 = 4;

/// The bits of Control and Shift together.
pub const MOD_CONTROL_SHIFT: u32 = 5;

/// The key code of the left Control key in the paste keymap.
pub const KEY_CONTROL: u32 = 1;

/// The key code of V in the paste keymap.
pub const KEY_V: u32 = 2;

/// The key code of the left Shift key in the paste keymap.
pub const KEY_SHIFT: u32 = 3;

/// The points at which the events so far are sent and have to arrive.
#[derive(Clone, Copy, Debug, PartialEq, Eq, Structural)]
pub enum FlushPoint {
    ModifiersDown,
    VDown,
    VUp,
    Shortcut,
}

/// One step of a paste.
#[derive(Clone, Copy, Debug, PartialEq, Eq, Structural)]
pub enum KeyStep {
    /// Press or release a key.
    Key { code: u32, pressed: bool },
    /// Declare which modifiers are down.
    Modifiers(u32),
    /// Send what has been queued; a failure ends the paste.
    Flush(FlushPoint),
    /// Wait for so many milliseconds.
    Sleep(u64),
    /// Let the compositor catch up; a failure is ignored.
    Settle,
    /// Destroy the keyboard.
    Destroy,
    /// Remove the keymap file; a failure is ignored.
    RemoveKeymap,
    /// Send what has been queued; a failure is ignored.
    LastFlush,
}

/// The modifiers of the shortcut.
pub open spec fn shortcut_modifiers(use_shift: bool) -> u32 {
    if use_shift {
        MOD_CONTROL_SHIFT
    } else {
        MOD_CONTROL
    }
}

/// The key press or release in front of the others, if Shift takes part.
pub open spec fn shift_step(use_shift: bool, pressed: bool) -> Seq<KeyStep> {
    if use_shift {
        seq![KeyStep::Key { code: KEY_SHIFT, pressed }]
    } else {
        seq![]
    }
}

/// The steps of a paste: the modifiers go down, V is tapped, the modifiers come
/// up again in the opposite order, and the keyboard is taken down.
pub open spec fn paste_steps(use_shift: bool) -> Seq<KeyStep> {
    seq![KeyStep::Key { code: KEY_CONTROL, pressed: true }] + shift_step(use_shift, true) + seq![
        KeyStep::Modifiers(shortcut_modifiers(use_shift)),
        KeyStep::Flush(FlushPoint::ModifiersDown),
        KeyStep::Sleep(10),
        KeyStep::Key { code: KEY_V, pressed: true },
        KeyStep::Flush(FlushPoint::VDown),
        KeyStep::Sleep(6),
        KeyStep::Key { code: KEY_V, pressed: false },
        KeyStep::Flush(FlushPoint::VUp),
        KeyStep::Sleep(6),
        KeyStep::Modifiers(0),
    ] + shift_step(use_shift, false) + seq![
        KeyStep::Key { code: KEY_CONTROL, pressed: false },
        KeyStep::Flush(FlushPoint::Shortcut),
        KeyStep::Sleep(20),
        KeyStep::Settle,
        KeyStep::Destroy,
        KeyStep::RemoveKeymap,
        KeyStep::LastFlush,
    ]
}

/// The steps that paste: Ctrl+Shift+V if `use_shift` is set, as terminals want
/// it, and Ctrl+V otherwise.
pub fn paste_via_virtual_keyboard_shortcut(use_shift: bool) -> (steps: Vec<KeyStep>)
    ensures
        steps@ == paste_steps(use_shift),
        exists|press: int, release: int|
            0 <= press < release < steps@.len() && #[trigger] moves_v(steps@[press], true)
                && #[trigger] moves_v(steps@[release], false),
{
    let mods: u32 = if use_shift {
        MOD_CONTROL_SHIFT
    } else {
        MOD_CONTROL
    };
    let mut steps: Vec<KeyStep> = Vec::new();
    steps.push(KeyStep::Key { code: KEY_CONTROL, pressed: true });
    if use_shift {
        steps.push(KeyStep::Key { code: KEY_SHIFT, pressed: true });
    }
    steps.push(KeyStep::Modifiers(mods));
    steps.push(KeyStep::Flush(FlushPoint::ModifiersDown));
    steps.push(KeyStep::Sleep(10));
    steps.push(KeyStep::Key { code: KEY_V, pressed: true });
    steps.push(KeyStep::Flush(FlushPoint::VDown));
    steps.push(KeyStep::Sleep(6));
    steps.push(KeyStep::Key { code: KEY_V, pressed: false });
    steps.push(KeyStep::Flush(FlushPoint::VUp));
    steps.push(KeyStep::Sleep(6));
    steps.push(KeyStep::Modifiers(0));
    if use_shift {
        steps.push(KeyStep::Key { code: KEY_SHIFT, pressed: false });
    }
    steps.push(KeyStep::Key { code: KEY_CONTROL, pressed: false });
    steps.push(KeyStep::Flush(FlushPoint::Shortcut));
    steps.push(KeyStep::Sleep(20));
    steps.push(KeyStep::Settle);
    steps.push(KeyStep::Destroy);
    steps.push(KeyStep::RemoveKeymap);
    steps.push(KeyStep::LastFlush);
    assert(steps@ =~= paste_steps(use_shift));
    proof {
        law_v_is_tapped_once(use_shift);
    }
    steps
}

/// What is reported when the events cannot be sent at a point.
pub open spec fn flush_failure(point: FlushPoint) -> Seq<char> {
    match point {
        FlushPoint::ModifiersDown => "Failed to flush modifier keys down"@,
        FlushPoint::VDown => "Failed to flush V down"@,
        FlushPoint::VUp => "Failed to flush V up"@,
        FlushPoint::Shortcut => "Failed to flush virtual keyboard shortcut"@,
    }
}

/// What a failure of a step means for the paste: it ends with a message, or
/// goes on as if nothing had happened.
pub fn step_failed(step: KeyStep, reason: &str) -> (end: Option<String>)
    ensures
        match step {
            KeyStep::Flush(point) => end matches Some(message) && message@
                == crate::text::failure(flush_failure(point), reason@),
            _ => end is None,
        },
{
    match step {
        KeyStep::Flush(point) => {
            let what: &str = match point {
                FlushPoint::ModifiersDown => "Failed to flush modifier keys down",
                FlushPoint::VDown => "Failed to flush V down",
                FlushPoint::VUp => "Failed to flush V up",
                FlushPoint::Shortcut => "Failed to flush virtual keyboard shortcut",
            };
            Some(describe_failure(what, reason))
        },
        _ => None,
    }
}

/// The stages of setting a virtual keyboard up, each of which may fail.
#[derive(Clone, Copy, Debug, PartialEq, Eq, Structural)]
pub enum SetupStage {
    Connection,
    Registry,
    Seat,
    Manager,
    KeymapFile,
    KeymapWrite,
    KeymapFlush,
    Roundtrip,
}

/// What is reported when a stage fails.
pub open spec fn setup_failure(stage: SetupStage, reason: Seq<char>) -> Seq<char> {
    match stage {
        SetupStage::Connection => crate::text::failure(
            "Wayland connection failed"@,
            reason,
        ),
        SetupStage::Registry => reason,
        SetupStage::Seat => "No wl_seat found for virtual keyboard"@,
        SetupStage::Manager => "Compositor does not support zwp_virtual_keyboard_manager_v1"@,
        SetupStage::KeymapFile => crate::text::failure(
            "Failed to create temporary keymap file"@,
            reason,
        ),
        SetupStage::KeymapWrite => crate::text::failure("Failed to write keymap"@, reason),
        SetupStage::KeymapFlush => crate::text::failure("Failed to flush keymap"@, reason),
        SetupStage::Roundtrip => crate::text::failure("Wayland roundtrip failed"@, reason),
    }
}

/// The report of a stage that failed.
pub fn setup_failed(stage: SetupStage, reason: &str) -> (message: String)
    ensures
        message@ == setup_failure(stage, reason@),
{
    match stage {
        SetupStage::Connection => describe_failure("Wayland connection failed", reason),
        SetupStage::Registry => reason.to_owned(),
        SetupStage::Seat => "No wl_seat found for virtual keyboard".to_owned(),
        SetupStage::Manager =>
            "Compositor does not support zwp_virtual_keyboard_manager_v1".to_owned(),
        SetupStage::KeymapFile => describe_failure(
            "Failed to create temporary keymap file",
            reason,
        ),
        SetupStage::KeymapWrite => describe_failure("Failed to write keymap", reason),
        SetupStage::KeymapFlush => describe_failure("Failed to flush keymap", reason),
        SetupStage::Roundtrip => describe_failure("Wayland roundtrip failed", reason),
    }
}

/// The name of the temporary keymap file of a process at a point in time.
pub fn keymap_file_name(pid: u32, nanos: u128) -> (name: String)
    ensures
        name@ == "cursor-clip-keymap-"@ + crate::text::decimal(pid as nat) + "-"@
            + crate::text::decimal(nanos as nat) + ".xkb"@,
{
    let mut name = "cursor-clip-keymap-".to_owned();
    append_decimal(&mut name, pid as u128);
    name.append("-");
    append_decimal(&mut name, nanos);
    name.append(".xkb");
    name
}

/// The state of a keyboard: the keys that are held and the modifiers that have
/// been declared.
pub struct KeyboardModel {
    pub held: Set<u32>,
    pub modifiers: u32,
}

/// A keyboard on which nothing is held.
pub open spec fn idle_keyboard() -> KeyboardModel {
    KeyboardModel { held: Set::empty(), modifiers: 0 }
}

/// What one step does to a keyboard.
pub open spec fn after_step(keyboard: KeyboardModel, step: KeyStep) -> KeyboardModel {
    match step {
        KeyStep::Key { code, pressed } => KeyboardModel {
            held: if pressed {
                keyboard.held.insert(code)
            } else {
                keyboard.held.remove(code)
            },
            modifiers: keyboard.modifiers,
        },
        KeyStep::Modifiers(modifiers) => KeyboardModel { held: keyboard.held, modifiers },
        _ => keyboard,
    }
}

/// A keyboard that was idle, after the first `n` of some steps.
pub open spec fn after_steps(steps: Seq<KeyStep>, n: nat) -> KeyboardModel
    decreases n,
{
    if n == 0 {
        idle_keyboard()
    } else {
        after_step(after_steps(steps, (n - 1) as nat), steps[n - 1])
    }
}

/// Wherever V is pressed in a paste, Control is held, Shift is held exactly if
/// it takes part, nothing else is held, and just these are declared.
pub proof fn law_v_is_pressed_under_modifiers(use_shift: bool, n: nat)
    requires
        n < paste_steps(use_shift).len(),
        paste_steps(use_shift)[n as int] == (KeyStep::Key { code: KEY_V, pressed: true }),
    ensures
        after_steps(paste_steps(use_shift), n).held == if use_shift {
            set![KEY_CONTROL, KEY_SHIFT]
        } else {
            set![KEY_CONTROL]
        },
        after_steps(paste_steps(use_shift), n).modifiers == shortcut_modifiers(use_shift),
{
    reveal_with_fuel(after_steps, 6);
    let steps = paste_steps(use_shift);
    if use_shift {
        assert(n == 5);
        assert(after_steps(steps, 5).held =~= set![KEY_CONTROL, KEY_SHIFT]);
    } else {
        assert(n == 4);
        assert(after_steps(steps, 4).held =~= set![KEY_CONTROL]);
    }
}

/// A paste that ran to its end leaves the keyboard as it found it: no key is
/// held and no modifier is declared.
pub proof fn law_paste_leaves_nothing_held(use_shift: bool)
    ensures
        after_steps(paste_steps(use_shift), paste_steps(use_shift).len()) == idle_keyboard(),
{
    reveal_with_fuel(after_steps, 22);
    let steps = paste_steps(use_shift);
    assert(after_steps(steps, steps.len()).held =~= Set::empty());
}

/// Whether a step presses V, or releases it.
pub open spec fn moves_v(step: KeyStep, pressed: bool) -> bool {
    step == (KeyStep::Key { code: 2, pressed })
}

/// Every paste presses V once and releases it once, in this order, and sends what
/// was queued between the two and behind the second.
pub proof fn law_v_is_tapped_once(use_shift: bool)
    ensures
        exists|press: int, release: int, sent: int, sent_again: int|
            0 <= press < sent < release < sent_again < paste_steps(use_shift).len()
                && #[trigger] moves_v(paste_steps(use_shift)[press], true) && #[trigger] moves_v(
                paste_steps(use_shift)[release],
                false,
            ) && (#[trigger] paste_steps(use_shift)[sent]) is Flush && (
            #[trigger] paste_steps(use_shift)[sent_again]) is Flush,
        forall|i: int, j: int|
            0 <= i < j < paste_steps(use_shift).len() ==> !((#[trigger] moves_v(
                paste_steps(use_shift)[i],
                true,
            )) && (#[trigger] moves_v(paste_steps(use_shift)[j], true))),
        forall|i: int, j: int|
            0 <= i < j < paste_steps(use_shift).len() ==> !((#[trigger] moves_v(
                paste_steps(use_shift)[i],
                false,
            )) && (#[trigger] moves_v(paste_steps(use_shift)[j], false))),
{
    let steps = paste_steps(use_shift);
    let at: int = if use_shift {
        5
    } else {
        4
    };
    assert(moves_v(steps[at], true));
    assert(steps[at + 1] is Flush);
    assert(moves_v(steps[at + 3], false));
    assert(steps[at + 4] is Flush);
}

/// Wherever V is pressed, Control is held and declared, and Shift exactly if it
/// takes part; the steps name the keys of the keymap and the modifiers by their
/// bits.
pub proof fn law_v_is_tapped_under_control(use_shift: bool, n: nat)
    requires
        n < paste_steps(use_shift).len(),
        moves_v(paste_steps(use_shift)[n as int], true),
    ensures
        after_steps(paste_steps(use_shift), n).held == if use_shift {
            set![1u32, 3u32]
        } else {
            set![1u32]
        },
        after_steps(paste_steps(use_shift), n).modifiers == if use_shift {
            5u32
        } else {
            4u32
        },
{
    law_v_is_pressed_under_modifiers(use_shift, n);
}

/// The keyboard is destroyed once, near the end: behind the last key event that
/// was sent and after the compositor was given time to catch up.
pub proof fn law_keyboard_outlives_its_keys(use_shift: bool, i: int, j: int)
    requires
        0 <= i < paste_steps(use_shift).len(),
        0 <= j < paste_steps(use_shift).len(),
        paste_steps(use_shift)[j] == KeyStep::Destroy,
    ensures
        paste_steps(use_shift)[i] is Key ==> i < j,
        paste_steps(use_shift)[i] is Modifiers ==> i < j,
        paste_steps(use_shift)[i] is Flush ==> i < j,
        paste_steps(use_shift)[i] == KeyStep::Settle ==> i < j,
        paste_steps(use_shift)[i] == KeyStep::Destroy ==> i == j,
{
}

/// Each time that something was sent, the paste pauses: ten milliseconds after the
/// modifiers went down, six after V went down and after it came up, and twenty at the
/// end. What was sent last is followed by nothing but taking the keyboard down.
pub proof fn law_every_sending_is_followed_by_a_pause(use_shift: bool, i: int, point: FlushPoint)
    requires
        0 <= i < paste_steps(use_shift).len(),
        paste_steps(use_shift)[i] == KeyStep::Flush(point),
    ensures
        i + 1 < paste_steps(use_shift).len(),
        paste_steps(use_shift)[i + 1] == KeyStep::Sleep(
            match point {
                FlushPoint::ModifiersDown => 10,
                FlushPoint::VDown => 6,
                FlushPoint::VUp => 6,
                FlushPoint::Shortcut => 20,
            },
        ),
{
}

/// What a failure to send is reported as names the events that did not arrive.
pub proof fn law_sending_names_its_events(use_shift: bool, i: int, point: FlushPoint)
    requires
        0 <= i < paste_steps(use_shift).len(),
        paste_steps(use_shift)[i] == KeyStep::Flush(point),
    ensures
        i > 0,
        point == FlushPoint::ModifiersDown ==> paste_steps(use_shift)[i - 1] is Modifiers,
        point == FlushPoint::VDown ==> moves_v(paste_steps(use_shift)[i - 1], true),
        point == FlushPoint::VUp ==> moves_v(paste_steps(use_shift)[i - 1], false),
        point == FlushPoint::Shortcut ==> paste_steps(use_shift)[i - 1] == (KeyStep::Key {
            code: 1,
            pressed: false,
        }),
{
}

/// Whether a step sends what has been queued at a point.
pub open spec fn sends(step: KeyStep, point: FlushPoint) -> bool {
    step == KeyStep::Flush(point)
}

/// Every paste sends at each of its four points, and ends with the compositor catching
/// up, the keyboard destroyed, its keymap removed, and that sent.
pub proof fn law_paste_sends_everything_and_cleans_up(use_shift: bool, point: FlushPoint)
    ensures
        exists|i: int|
            0 <= i < paste_steps(use_shift).len() && #[trigger] sends(
                paste_steps(use_shift)[i],
                point,
            ),
        paste_steps(use_shift).len() >= 4,
        paste_steps(use_shift).skip(paste_steps(use_shift).len() - 4) == seq![
            KeyStep::Settle,
            KeyStep::Destroy,
            KeyStep::RemoveKeymap,
            KeyStep::LastFlush,
        ],
{
    let steps = paste_steps(use_shift);
    let at: int = if use_shift {
        3
    } else {
        2
    };
    assert(sends(steps[at], FlushPoint::ModifiersDown));
    assert(sends(steps[at + 3], FlushPoint::VDown));
    assert(sends(steps[at + 6], FlushPoint::VUp));
    assert(sends(steps[at + at + 8], FlushPoint::Shortcut));
    assert(steps.skip(steps.len() - 4) =~= seq![
        KeyStep::Settle,
        KeyStep::Destroy,
        KeyStep::RemoveKeymap,
        KeyStep::LastFlush,
    ]);
}

/// No key but Control, V and, if it takes part, Shift is ever touched, and each of
/// them is pressed before it is released.
pub proof fn law_only_the_shortcut_is_pressed(use_shift: bool, i: int, code: u32, pressed: bool)
    requires
        0 <= i < paste_steps(use_shift).len(),
        paste_steps(use_shift)[i] == (KeyStep::Key { code, pressed }),
    ensures
        code == 1 || code == 2 || use_shift && code == 3,
        exists|j: int|
            0 <= j < paste_steps(use_shift).len() && (if pressed {
                i < j
            } else {
                j < i
            }) && #[trigger] paste_steps(use_shift)[j] == (KeyStep::Key {
                code,
                pressed: !pressed,
            }),
{
    let steps = paste_steps(use_shift);
    let v: int = if use_shift {
        5
    } else {
        4
    };
    let end: int = if use_shift {
        13
    } else {
        11
    };
    assert(steps[0] == (KeyStep::Key { code: 1, pressed: true }));
    assert(steps[end] == (KeyStep::Key { code: 1, pressed: false }));
    assert(steps[v] == (KeyStep::Key { code: 2, pressed: true }));
    assert(steps[v + 3] == (KeyStep::Key { code: 2, pressed: false }));
    if use_shift {
        assert(steps[1] == (KeyStep::Key { code: 3, pressed: true }));
        assert(steps[12] == (KeyStep::Key { code: 3, pressed: false }));
    }
}

} // verus!
