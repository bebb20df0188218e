//! The in-game menu's window: the hotkeys that show and hide it.
use vstd::prelude::*;
use crate::menu_console::Console;

verus! {

/// What one frame of the menu shows.
#[derive(Clone, Copy, Debug, PartialEq, Eq)]
pub enum MenuView {
    /// The menu's window.
    Window,
    /// The line telling how to open the menu.
    Tip,
    Nothing,
}

/// The menu: whether its window and the tip are open, and its console.
#[derive(Debug)]
pub struct Menu {
    pub opened: bool,
    pub tip_opened: bool,
    pub console: Console,
}

/// The tip shown while the menu is closed.
pub fn tip_text() -> (res: &'static str)
    ensures
        res@ == "Press F11 to open the Debug Menu, F9 to hide this text"@,
{
    "Press F11 to open the Debug Menu, F9 to hide this text"
}

/// The title of the menu's window.
pub fn window_title() -> (res: &'static str)
    ensures
        res@ == "Baldur's Gate 3 Debug Tool"@,
{
    "Baldur's Gate 3 Debug Tool"
}

/// What a frame shows after its hotkeys: F11 opens and closes the window;
/// while the window is closed, F9 shows and hides the tip.
pub open spec fn after_keys(opened: bool, tip_opened: bool, f11: bool, f9: bool) -> (bool, bool, MenuView) {
    let opened2 = opened != f11;
    let tip2 = if !opened2 && f9 {
        !tip_opened
    } else {
        tip_opened
    };
    let view = if opened2 {
        MenuView::Window
    } else if tip2 {
        MenuView::Tip
    } else {
        MenuView::Nothing
    };
    (opened2, tip2, view)
}

impl Menu {
    /// A menu with its window and the tip open.
    pub fn new() -> (res: Menu)
        ensures
            res.opened,
            res.tip_opened,
            res.console.wf(),
            res.console.text@ == Seq::<char>::empty(),
            res.console.output@ == Seq::<char>::empty(),
    {
        Menu { opened: true, tip_opened: true, console: Console::new() }
    }

    /// Takes a frame's hotkeys (whether F11 and F9 were pressed) and says what
    /// the frame shows.
    pub fn frame(&mut self, f11_pressed: bool, f9_pressed: bool) -> (res: MenuView)
        ensures
            (final(self).opened, final(self).tip_opened, res) == after_keys(
                old(self).opened,
                old(self).tip_opened,
                f11_pressed,
                f9_pressed,
            ),
            final(self).console == old(self).console,
    {
        if f11_pressed {
            self.opened = !self.opened;
        }
        if !self.opened {
            if f9_pressed {
                self.tip_opened = !self.tip_opened;
            }
            if self.tip_opened {
                MenuView::Tip
            } else {
                MenuView::Nothing
            }
        } else {
            MenuView::Window
        }
    }

    /// The window's close button was pressed.
    pub fn close(&mut self)
        ensures
            !final(self).opened,
            final(self).tip_opened == old(self).tip_opened,
            final(self).console == old(self).console,
    {
        self.opened = false;
    }
}

/// Pressing F11 twice, with no F9, gives back the same state.
pub proof fn lemma_f11_twice_restores(opened: bool, tip_opened: bool)
    ensures
        ({
            let (o1, t1, v1) = after_keys(opened, tip_opened, true, false);
            let (o2, t2, v2) = after_keys(o1, t1, true, false);
            o2 == opened && t2 == tip_opened
        }),
{
}

} // verus!
