//! The application around the grid: what a key press, a mouse event or a tick
//! of the clock does to it. The events are plain values, so that whoever reads
//! the terminal hands them over and carries out what comes back.

use vstd::prelude::*;

use crate::coord::{CoordError, Vec2};
use crate::particle::Cell;
use crate::simulation::{is_next_generation, paint, MaterialCanvas, Simulation};

verus! {

/// A button of the mouse.
#[derive(Clone, Copy, Debug, PartialEq, Eq, Structural)]
pub enum MouseButton {
    Left,
    Right,
    Middle,
}

/// What the mouse did.
#[derive(Clone, Copy, Debug, PartialEq, Eq, Structural)]
pub enum MouseEventKind {
    Down(MouseButton),
    Up(MouseButton),
    Drag(MouseButton),
    Moved,
    ScrollDown,
    ScrollUp,
    ScrollLeft,
    ScrollRight,
}

/// A mouse event at a column and row of the screen.
#[derive(Clone, Copy, Debug, PartialEq, Eq, Structural)]
pub struct MouseEvent {
    pub kind: MouseEventKind,
    pub column: u16,
    pub row: u16,
}

/// The key that was pressed, as far as the application tells keys apart.
#[derive(Clone, Copy, Debug, PartialEq, Eq, Structural)]
pub enum KeyCode {
    Esc,
    Enter,
    Char(char),
    Other,
}

/// A key press. `control` says that the control key, and no other modifier,
/// was held.
#[derive(Clone, Copy, Debug, PartialEq, Eq, Structural)]
pub struct KeyEvent {
    pub code: KeyCode,
    pub control: bool,
}

/// An event that the application sends to itself.
#[derive(Clone, Copy, Debug, PartialEq, Eq, Structural)]
pub enum AppEvent {
    Quit,
}

/// An event that reaches the application.
#[derive(Clone, Copy, Debug, PartialEq, Eq, Structural)]
pub enum Event {
    /// The clock ticked.
    Tick,
    Key(KeyEvent),
    Mouse(MouseEvent),
    /// Any other event of the terminal.
    Other,
    App(AppEvent),
}

/// The material that a mouse button paints.
pub open spec fn material_of(button: MouseButton) -> Cell {
    match button {
        MouseButton::Left => Cell::Sand,
        MouseButton::Right => Cell::Water,
        MouseButton::Middle => Cell::Fire,
    }
}

/// The material that a mouse event paints, if it paints: a button that is
/// released or dragged paints its material.
pub open spec fn painted_by(kind: MouseEventKind) -> Option<Cell> {
    match kind {
        MouseEventKind::Up(button) => Some(material_of(button)),
        MouseEventKind::Drag(button) => Some(material_of(button)),
        _ => None,
    }
}

/// The grid after a mouse event.
pub open spec fn after_mouse(grid: Map<u32, Cell>, event: MouseEvent) -> Map<u32, Cell> {
    match painted_by(event.kind) {
        Some(cell) => paint(grid, Vec2 { x: event.column as i32, y: event.row as i32 }, cell),
        None => grid,
    }
}

/// Whether a key press asks the application to quit: escape, `q`, or `c`
/// with the control key.
pub open spec fn asks_to_quit(key: KeyEvent) -> bool {
    ||| key.code == KeyCode::Esc
    ||| key.code == KeyCode::Char('q')
    ||| (key.code == KeyCode::Char('c') || key.code == KeyCode::Char('C')) && key.control
}

impl Simulation {
    /// A key press does nothing to the grid.
    pub fn handle_keyboard_event(&mut self, _event: &KeyEvent) -> (r: Result<(), CoordError>)
        ensures
            r == Ok::<(), CoordError>(()),
            final(self)@ == old(self)@,
            final(self).window() == old(self).window(),
    {
        Ok(())
    }

    /// A button that is released or dragged paints its material where the
    /// mouse is: the left button sand, the right one water, the middle one
    /// fire. No other mouse event does anything.
    pub fn handle_mouse_event(&mut self, event: &MouseEvent) -> (r: Result<(), CoordError>)
        ensures
            r == Ok::<(), CoordError>(()),
            final(self)@ == after_mouse(old(self)@, *event),
            final(self).window() == old(self).window(),
            old(self).wf() ==> final(self).wf(),
    {
        match event.kind {
            MouseEventKind::Up(button) | MouseEventKind::Drag(button) => {
                let cell = match button {
                    MouseButton::Left => Cell::Sand,
                    MouseButton::Right => Cell::Water,
                    MouseButton::Middle => Cell::Fire,
                };
                self.set_pixel(&Vec2::from((event.column, event.row)), cell)
            },
            _ => Ok(()),
        }
    }

    /// An event of the application does nothing to the grid.
    pub fn handle_app_event(&mut self, event: &AppEvent) -> (r: Result<(), CoordError>)
        ensures
            r == Ok::<(), CoordError>(()),
            final(self)@ == old(self)@,
            final(self).window() == old(self).window(),
    {
        match *event {
            AppEvent::Quit => {},
        }
        Ok(())
    }
}

/// The application: the grid, and whether it runs and whether it is paused.
pub struct App {
    /// Is the application running?
    pub running: bool,
    pub simulation_paused: bool,
    pub simulation_widget: Simulation,
}

impl Default for App {
    /// A running application that is not paused, with an empty grid.
    fn default() -> (app: Self)
        ensures
            app.running,
            !app.simulation_paused,
            app.simulation_widget@ == Map::<u32, Cell>::empty(),
            app.simulation_widget.window() is None,
            app.simulation_widget.wf(),
    {
        Self { running: true, simulation_paused: false, simulation_widget: Simulation::new() }
    }
}

impl App {
    /// Whether the grid after is what one tick makes of the grid before: the
    /// same grid when the application is paused, and a next generation
    /// otherwise.
    pub open spec fn ticked(before: App, after: App) -> bool {
        &&& after.running == before.running
        &&& after.simulation_paused == before.simulation_paused
        &&& after.simulation_widget.window() == before.simulation_widget.window()
        &&& if before.simulation_paused {
            after.simulation_widget@ == before.simulation_widget@
        } else {
            exists|coins: Set<u32>|
                is_next_generation(
                    before.simulation_widget@,
                    before.simulation_widget.columns(),
                    before.simulation_widget.rows(),
                    coins,
                    after.simulation_widget@,
                )
        }
    }

    /// Whether the application after is what `event` makes of the
    /// application before.
    pub open spec fn handled(before: App, event: Event, after: App) -> bool {
        match event {
            Event::Tick => App::ticked(before, after),
            Event::Key(key) => {
                &&& after.running == before.running
                &&& after.simulation_paused == (if key.code == KeyCode::Enter {
                    !before.simulation_paused
                } else {
                    before.simulation_paused
                })
                &&& after.simulation_widget@ == before.simulation_widget@
                &&& after.simulation_widget.window() == before.simulation_widget.window()
            },
            Event::Mouse(mouse) => {
                &&& after.running == before.running
                &&& after.simulation_paused == before.simulation_paused
                &&& after.simulation_widget@ == after_mouse(before.simulation_widget@, mouse)
                &&& after.simulation_widget.window() == before.simulation_widget.window()
            },
            Event::Other => {
                &&& after.running == before.running
                &&& after.simulation_paused == before.simulation_paused
                &&& after.simulation_widget@ == before.simulation_widget@
                &&& after.simulation_widget.window() == before.simulation_widget.window()
            },
            Event::App(AppEvent::Quit) => {
                &&& !after.running
                &&& after.simulation_paused == before.simulation_paused
                &&& after.simulation_widget@ == before.simulation_widget@
                &&& after.simulation_widget.window() == before.simulation_widget.window()
            },
        }
    }

    /// The event that the application sends to itself in answer to `event`,
    /// if any: a key press that asks to quit sends `Quit`.
    pub open spec fn sent(event: Event) -> Option<AppEvent> {
        match event {
            Event::Key(key) => if asks_to_quit(key) {
                Some(AppEvent::Quit)
            } else {
                None
            },
            _ => None,
        }
    }

    /// Constructs a new instance of [`App`].
    pub fn new() -> (app: Self)
        ensures
            app.running,
            !app.simulation_paused,
            app.simulation_widget@ == Map::<u32, Cell>::empty(),
            app.simulation_widget.window() is None,
            app.simulation_widget.wf(),
    {
        Self::default()
    }

    /// Handles one event, and returns the event that the application sends
    /// to itself in answer.
    ///
    /// A tick advances the grid unless the application is paused. Escape, `q`
    /// and control-`c` ask to quit, and enter pauses and resumes. The mouse
    /// paints. `Quit` stops the application.
    pub fn handle_events(&mut self, event: &Event) -> (sent: Option<AppEvent>)
        ensures
            App::handled(*old(self), *event, *final(self)),
            sent == App::sent(*event),
            old(self).simulation_widget.wf() ==> final(self).simulation_widget.wf(),
    {
        match event {
            Event::Tick => {
                self.tick();
                None
            },
            Event::Key(key_event) => {
                let _ = self.simulation_widget.handle_keyboard_event(key_event);
                match key_event.code {
                    KeyCode::Esc => Some(AppEvent::Quit),
                    KeyCode::Char(c) => {
                        if c == 'q' || ((c == 'c' || c == 'C') && key_event.control) {
                            Some(AppEvent::Quit)
                        } else {
                            None
                        }
                    },
                    KeyCode::Enter => {
                        self.simulation_paused = !self.simulation_paused;
                        None
                    },
                    _ => None,
                }
            },
            Event::Mouse(mouse_event) => {
                let _ = self.simulation_widget.handle_mouse_event(mouse_event);
                None
            },
            Event::Other => None,
            Event::App(app_event) => {
                let _ = self.simulation_widget.handle_app_event(app_event);
                match app_event {
                    AppEvent::Quit => self.quit(),
                }
                None
            },
        }
    }

    /// Advances the grid by one generation, unless the application is paused.
    pub fn tick(&mut self)
        ensures
            App::ticked(*old(self), *final(self)),
            old(self).simulation_widget.wf() ==> final(self).simulation_widget.wf(),
    {
        if self.simulation_paused {
            return ;
        }
        self.simulation_widget.handle_ticks()
    }

    /// Set running to false to quit the application.
    pub fn quit(&mut self)
        ensures
            !final(self).running,
            final(self).simulation_paused == old(self).simulation_paused,
            final(self).simulation_widget == old(self).simulation_widget,
    {
        self.running = false;
    }
}

} // verus!
