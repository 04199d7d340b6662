//! What a front end decides without looking at any energy: how a key press
//! changes the view onto the lattice, and how long its histories may grow.

use vstd::prelude::*;
use crate::types::VARS;

verus! {

/// What the user asked for.
#[derive(Clone, Copy, Debug, PartialEq, Eq, Hash, Structural)]
pub enum KeyCommand {
    /// Leave the program.
    Quit,
    /// Pause a running simulation, resume a paused one.
    TogglePause,
    /// Advance a paused simulation by one step.
    SingleStep,
    /// Start over.
    Reset,
    /// Make the time step smaller.
    DecreaseTimestep,
    /// Make the time step larger.
    IncreaseTimestep,
    /// Show the slice above the one shown.
    SliceUp,
    /// Show the slice below the one shown.
    SliceDown,
    /// Show the variable before the one shown, cyclically.
    PreviousVariable,
    /// Show the variable after the one shown, cyclically.
    NextVariable,
    /// A key that means nothing.
    Ignore,
}

/// What the front end has to do beyond updating the view.
#[derive(Clone, Copy, Debug, PartialEq, Eq, Hash, Structural)]
pub enum KeyAction {
    /// Nothing.
    Continue,
    /// Leave the program.
    Quit,
    /// Advance the simulation by one step.
    StepSimulation,
    /// Start the simulation over.
    ResetSimulation,
    /// Make the time step smaller.
    DecreaseTimestep,
    /// Make the time step larger.
    IncreaseTimestep,
}

/// The part of the lattice that is on screen, and whether time runs.
#[derive(Clone, Copy, Debug, PartialEq, Eq, Structural)]
pub struct ViewState {
    /// Whether the simulation advances by itself.
    pub is_running: bool,
    /// The z coordinate of the slice shown.
    pub current_z_slice: usize,
    /// The variable shown, below `VARS`.
    pub current_variable: usize,
}

/// The slice shown after moving up from `slice` in a lattice `depth` slices
/// deep: the next one, but never past the top.
pub open spec fn slice_above(slice: int, depth: int) -> int {
    if slice + 1 < depth {
        slice + 1
    } else if depth > 0 {
        depth - 1
    } else {
        0
    }
}

/// The view after `command`, in a lattice `depth` slices deep.
pub open spec fn view_after(view: ViewState, command: KeyCommand, depth: usize) -> ViewState {
    match command {
        KeyCommand::TogglePause => ViewState { is_running: !view.is_running, ..view },
        KeyCommand::SliceUp => ViewState {
            current_z_slice: slice_above(view.current_z_slice as int, depth as int) as usize,
            ..view
        },
        KeyCommand::SliceDown => ViewState {
            current_z_slice: if view.current_z_slice > 0 {
                (view.current_z_slice - 1) as usize
            } else {
                0
            },
            ..view
        },
        KeyCommand::PreviousVariable => ViewState {
            current_variable: ((view.current_variable + VARS - 1) % (VARS as int)) as usize,
            ..view
        },
        KeyCommand::NextVariable => ViewState {
            current_variable: ((view.current_variable + 1) % (VARS as int)) as usize,
            ..view
        },
        _ => view,
    }
}

/// What is left for the front end to do after `command`: a single step is
/// taken only while the simulation is paused.
pub open spec fn action_for(view: ViewState, command: KeyCommand) -> KeyAction {
    match command {
        KeyCommand::Quit => KeyAction::Quit,
        KeyCommand::SingleStep => if view.is_running {
            KeyAction::Continue
        } else {
            KeyAction::StepSimulation
        },
        KeyCommand::Reset => KeyAction::ResetSimulation,
        KeyCommand::DecreaseTimestep => KeyAction::DecreaseTimestep,
        KeyCommand::IncreaseTimestep => KeyAction::IncreaseTimestep,
        _ => KeyAction::Continue,
    }
}

impl ViewState {
    /// The view is onto a variable that exists.
    pub open spec fn wf(&self) -> bool {
        self.current_variable < VARS
    }

    /// The view that a front end starts with: running, on the middle slice of
    /// a lattice `depth` slices deep, showing the first variable.
    pub fn new(depth: usize) -> (view: ViewState)
        ensures
            view.wf(),
            view == (ViewState {
                is_running: true,
                current_z_slice: (depth / 2) as usize,
                current_variable: 0,
            }),
    {
        ViewState { is_running: true, current_z_slice: depth / 2, current_variable: 0 }
    }

    /// Applies `command` to the view, `depth` being the number of slices of
    /// the lattice, and says what else the front end has to do.
    pub fn handle_key(&mut self, command: KeyCommand, depth: usize) -> (action: KeyAction)
        ensures
            old(self).wf() ==> final(self).wf(),
            *final(self) == view_after(*old(self), command, depth),
            action == action_for(*old(self), command),
    {
        match command {
            KeyCommand::Quit => KeyAction::Quit,
            KeyCommand::TogglePause => {
                self.is_running = !self.is_running;
                KeyAction::Continue
            },
            KeyCommand::SingleStep => {
                if self.is_running {
                    KeyAction::Continue
                } else {
                    KeyAction::StepSimulation
                }
            },
            KeyCommand::Reset => KeyAction::ResetSimulation,
            KeyCommand::DecreaseTimestep => KeyAction::DecreaseTimestep,
            KeyCommand::IncreaseTimestep => KeyAction::IncreaseTimestep,
            KeyCommand::SliceUp => {
                if depth > 0 && self.current_z_slice < depth - 1 {
                    self.current_z_slice = self.current_z_slice + 1;
                } else if depth > 0 {
                    self.current_z_slice = depth - 1;
                } else {
                    self.current_z_slice = 0;
                }
                KeyAction::Continue
            },
            KeyCommand::SliceDown => {
                if self.current_z_slice > 0 {
                    self.current_z_slice = self.current_z_slice - 1;
                }
                KeyAction::Continue
            },
            KeyCommand::PreviousVariable => {
                self.current_variable = (self.current_variable % VARS + VARS - 1) % VARS;
                KeyAction::Continue
            },
            KeyCommand::NextVariable => {
                self.current_variable = (self.current_variable % VARS + 1) % VARS;
                KeyAction::Continue
            },
            KeyCommand::Ignore => KeyAction::Continue,
        }
    }
}

/// Appends `value` to `history` and, where that makes it longer than
/// `max_history`, drops its oldest entry.
pub fn push_bounded<T>(history: &mut Vec<T>, value: T, max_history: usize)
    ensures
        final(history)@ == if old(history)@.len() + 1 > max_history {
            old(history)@.push(value).subrange(1, old(history)@.len() as int + 1)
        } else {
            old(history)@.push(value)
        },
{
    history.push(value);
    if history.len() > max_history {
        history.remove(0);
    }
}

} // verus!
