//! The decisions of the event loop: what each event does to the input state
//! and the clock, and what the loop must do next.
use crate::clock::{accumulated, elapsed_between, ClockState, GameClock};
use crate::input::{after_key_event, CursorPosition, ElementState, Input, KeyCode, KeyboardInput, Mouse};
use vstd::prelude::*;

verus! {

/// An event from the window's event source.
#[derive(Clone, Copy, Debug, PartialEq, Eq, Structural)]
pub enum Event {
    /// The window was asked to close.
    CloseRequested,
    /// A key went down or came up.
    Keyboard(KeyboardInput),
    /// The cursor moved to a position.
    CursorMoved(CursorPosition),
    /// The window is to be drawn.
    RedrawRequested,
    /// Every pending event has been delivered.
    MainEventsCleared,
    /// Anything else: ignored.
    Other,
}

/// What the event loop does after an event.
#[derive(Clone, Copy, Debug, PartialEq, Eq, Structural)]
pub enum Action {
    /// Wait for the next event.
    Continue,
    /// Leave the loop.
    Exit,
    /// Ask the window to be drawn.
    RequestRedraw,
    /// Run the fixed-step systems `fixed_steps` times, then the per-frame
    /// systems once.
    RunFrame { fixed_steps: u64 },
}

/// The state that the event loop owns: the frame clock and the input.
pub struct FrameLoop {
    pub clock: GameClock,
    pub input: Input,
}

impl FrameLoop {
    /// A loop whose clock starts now, with `fixed_update_steps_per_second`
    /// fixed steps to the second, and no input seen.
    pub fn new(fixed_update_steps_per_second: usize) -> (r: Self)
        requires
            1 <= fixed_update_steps_per_second <= crate::clock::NANOS_PER_SECOND,
        ensures
            r.input.wf(),
            r.input.keyboard@ == Set::<KeyCode>::empty(),
            r.input.mouse == Mouse::new_spec(),
            r.clock@ == (ClockState {
                current_frame: 0,
                last_frame_duration: 0,
                fixed_step: crate::clock::NANOS_PER_SECOND as nat / (
                fixed_update_steps_per_second as nat),
                accumulator: 0,
            }),
    {
        FrameLoop { clock: GameClock::new(fixed_update_steps_per_second), input: Input::new() }
    }

    /// Handles one event. A key event updates the keyboard, and Escape held
    /// ends the loop; a cursor event moves the cursor; a redraw measures the
    /// frame, feeds the accumulator and says how many fixed steps to run;
    /// once all events are delivered a redraw is asked for.
    pub fn handle_event(&mut self, event: &Event) -> (r: Action)
        requires
            old(self).input.wf(),
            event matches Event::Keyboard(k) ==> k.virtual_keycode.is_some(),
        ensures
            final(self).input.wf(),
            match *event {
                Event::Keyboard(k) => {
                    &&& final(self).input.keyboard@ == after_key_event(
                        old(self).input.keyboard@,
                        k.virtual_keycode.unwrap(),
                        k.state == ElementState::Pressed,
                    )
                    &&& final(self).input.mouse == old(self).input.mouse
                    &&& final(self).clock == old(self).clock
                    &&& r == if final(self).input.keyboard@.contains(KeyCode::Escape) {
                        Action::Exit
                    } else {
                        Action::Continue
                    }
                },
                Event::CursorMoved(p) => {
                    &&& final(self).input.keyboard == old(self).input.keyboard
                    &&& final(self).input.mouse == (Mouse { position: p, ..old(self).input.mouse })
                    &&& final(self).clock == old(self).clock
                    &&& r == Action::Continue
                },
                Event::RedrawRequested => {
                    let c = old(self).clock@;
                    let d = final(self).clock@.last_frame_duration;
                    let total = accumulated(c.accumulator, d);
                    &&& final(self).input == old(self).input
                    &&& d == elapsed_between(c.current_frame, final(self).clock@.current_frame)
                    &&& final(self).clock@ == (ClockState {
                        current_frame: final(self).clock@.current_frame,
                        last_frame_duration: d,
                        fixed_step: c.fixed_step,
                        accumulator: total % c.fixed_step,
                    })
                    &&& r == (Action::RunFrame { fixed_steps: (total / c.fixed_step) as u64 })
                },
                _ => {
                    &&& final(self).input == old(self).input
                    &&& final(self).clock == old(self).clock
                    &&& r == match *event {
                        Event::CloseRequested => Action::Exit,
                        Event::MainEventsCleared => Action::RequestRedraw,
                        _ => Action::Continue,
                    }
                },
            },
    {
        match event {
            Event::CloseRequested => Action::Exit,
            Event::Keyboard(k) => {
                self.input.process_keyboard(k);
                if self.input.key_held(KeyCode::Escape) {
                    Action::Exit
                } else {
                    Action::Continue
                }
            },
            Event::CursorMoved(p) => {
                self.input.mouse.position = *p;
                Action::Continue
            },
            Event::RedrawRequested => {
                let fixed_steps = self.clock.frame();
                Action::RunFrame { fixed_steps }
            },
            Event::MainEventsCleared => Action::RequestRedraw,
            Event::Other => Action::Continue,
        }
    }
}

} // verus!
