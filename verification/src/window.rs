//! How the application reacts to its window.

use crate::engine::{ElementState, LogicalKey};
use vstd::prelude::*;

verus! {

/// Something that happened to the window.
pub enum WindowInput {
    CloseRequested,
    Resized(u32, u32),
    Keyboard(LogicalKey, ElementState),
    MouseButton,
    RedrawRequested,
    Other,
}

/// What the application does about it.
#[derive(Clone, Copy, PartialEq, Eq, Structural, Debug)]
pub enum Reaction {
    Nothing,
    Exit,
    /// The engine takes note of the new size.
    Resize(u32, u32),
    EnterFullscreen,
    LeaveFullscreen,
    /// The engine takes note of the button.
    MouseButton,
    /// The engine shows the next frame.
    Redraw,
}

/// What the application does about an event. Keys are noted by the engine besides.
pub open spec fn reaction_to(event: WindowInput, fullscreen: bool) -> Reaction {
    match event {
        WindowInput::CloseRequested => Reaction::Exit,
        WindowInput::Resized(width, height) => Reaction::Resize(width, height),
        WindowInput::Keyboard(LogicalKey::Escape, _) => Reaction::Exit,
        WindowInput::Keyboard(LogicalKey::F11, ElementState::Pressed) => if fullscreen {
            Reaction::LeaveFullscreen
        } else {
            Reaction::EnterFullscreen
        },
        WindowInput::Keyboard(_, _) => Reaction::Nothing,
        WindowInput::MouseButton => Reaction::MouseButton,
        WindowInput::RedrawRequested => Reaction::Redraw,
        WindowInput::Other => Reaction::Nothing,
    }
}

/// Decides what the application does about an event.
pub fn react(event: &WindowInput, fullscreen: bool) -> (reaction: Reaction)
    ensures
        reaction == reaction_to(*event, fullscreen),
{
    match event {
        WindowInput::CloseRequested => Reaction::Exit,
        WindowInput::Resized(width, height) => Reaction::Resize(*width, *height),
        WindowInput::Keyboard(key, state) => match key {
            LogicalKey::Escape => Reaction::Exit,
            LogicalKey::F11 => {
                if *state == ElementState::Pressed {
                    if fullscreen {
                        Reaction::LeaveFullscreen
                    } else {
                        Reaction::EnterFullscreen
                    }
                } else {
                    Reaction::Nothing
                }
            },
            _ => Reaction::Nothing,
        },
        WindowInput::MouseButton => Reaction::MouseButton,
        WindowInput::RedrawRequested => Reaction::Redraw,
        WindowInput::Other => Reaction::Nothing,
    }
}

/// A mode of a monitor.
#[derive(Clone, Copy, PartialEq, Eq, Structural, Debug)]
pub struct VideoMode {
    pub width: u32,
    pub height: u32,
    pub refresh_rate: u32,
}

/// A mode is at least as good as another: wider, or as wide and higher, or as large and no
/// slower.
pub open spec fn mode_le(a: VideoMode, b: VideoMode) -> bool {
    ||| a.width < b.width
    ||| a.width == b.width && a.height < b.height
    ||| a.width == b.width && a.height == b.height && a.refresh_rate <= b.refresh_rate
}

/// Finds the best mode of a monitor; the last of several that are equally good.
pub fn best_video_mode(modes: &Vec<VideoMode>) -> (best: Option<usize>)
    ensures
        match best {
            Some(b) => {
                &&& b < modes.len()
                &&& forall|i: int|
                    0 <= i < modes.len() ==> mode_le(#[trigger] modes@[i], modes@[b as int])
                &&& forall|i: int|
                    b < i < modes.len() ==> !mode_le(modes@[b as int], #[trigger] modes@[i])
            },
            None => modes.len() == 0,
        },
{
    if modes.len() == 0 {
        return None;
    }
    let mut best: usize = 0;
    let mut i: usize = 1;
    while i < modes.len()
        invariant
            best < i <= modes.len(),
            forall|k: int| 0 <= k < i ==> mode_le(#[trigger] modes@[k], modes@[best as int]),
            forall|k: int| best < k < i ==> !mode_le(modes@[best as int], #[trigger] modes@[k]),
        decreases modes.len() - i,
    {
        let a = modes[best];
        let b = modes[i];
        if a.width < b.width || (a.width == b.width && (a.height < b.height || (a.height
            == b.height && a.refresh_rate <= b.refresh_rate))) {
            best = i;
        }
        i += 1;
    }
    Some(best)
}

/// An event is looked at while the application runs and its window exists.
pub fn is_listening(exiting: bool, active: bool) -> (listening: bool)
    ensures
        listening == (!exiting && active),
{
    !exiting && active
}

/// The application ends when its window is closed or escape is used, and for nothing else. It is
/// pressing F11, not letting go of it, that changes between the window and the whole screen: it
/// leaves the whole screen where that is used, and enters it where it is not.
pub proof fn reactions_to_events(event: WindowInput, fullscreen: bool)
    ensures
        reaction_to(event, fullscreen) is Exit <==> event is CloseRequested || (
        event matches WindowInput::Keyboard(key, _) && key is Escape),
        reaction_to(event, fullscreen) is LeaveFullscreen <==> fullscreen && (
        event matches WindowInput::Keyboard(key, state) && key is F11 && state is Pressed),
        reaction_to(event, fullscreen) is EnterFullscreen <==> !fullscreen && (
        event matches WindowInput::Keyboard(key, state) && key is F11 && state is Pressed),
        reaction_to(event, fullscreen) is Redraw <==> event is RedrawRequested,
        reaction_to(event, fullscreen) is MouseButton <==> event is MouseButton,
        match reaction_to(event, fullscreen) {
            Reaction::Resize(width, height) => event == WindowInput::Resized(width, height),
            _ => !(event is Resized),
        },
{
}

/// Of two modes the one with more columns is better, then the one with more rows, then the faster
/// one; only equal modes are equally good.
pub proof fn larger_modes_are_better(a: VideoMode, b: VideoMode)
    ensures
        a.width < b.width ==> mode_le(a, b) && !mode_le(b, a),
        a.width == b.width && a.height < b.height ==> mode_le(a, b) && !mode_le(b, a),
        a.width == b.width && a.height == b.height && a.refresh_rate < b.refresh_rate ==> mode_le(
            a,
            b,
        ) && !mode_le(b, a),
        mode_le(a, b) && mode_le(b, a) <==> a.width == b.width && a.height == b.height
            && a.refresh_rate == b.refresh_rate,
{
}

} // verus!
