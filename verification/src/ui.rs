//! Tray icon and the recording bubble: what the UI thread has to do about each message.
//!
//! The bubble is a native layered window, not a webview. The one property it must have is that it
//! **never takes focus** — the caret has to stay in the application the user is dictating into, or
//! the text lands nowhere. That is what [`BUBBLE_EX_STYLE`] and [`show_command`] are for.
//!
//! Commands arrive as window messages rather than thread messages: modal loops (an open tray menu)
//! silently drop thread messages, but window messages survive them.
use vstd::prelude::*;

verus! {

pub const WM_DESTROY: u32 = 0x0002;

pub const WM_PAINT: u32 = 0x000f;

pub const WM_ERASEBKGND: u32 = 0x0014;

pub const WM_CONTEXTMENU: u32 = 0x007b;

pub const WM_COMMAND: u32 = 0x0111;

pub const WM_TIMER: u32 = 0x0113;

pub const WM_RBUTTONUP: u32 = 0x0205;

pub const WM_APP: u32 = 0x8000;

pub const MSG_RECORDING: u32 = WM_APP + 1;

pub const MSG_TRANSCRIBING: u32 = WM_APP + 2;

pub const MSG_HIDE: u32 = WM_APP + 3;

pub const MSG_TRAY: u32 = WM_APP + 10;

pub const CMD_OPEN_CONFIG: usize = 1;

pub const CMD_EXIT: usize = 2;

pub const WS_EX_TOPMOST: u32 = 0x0000_0008;

pub const WS_EX_TRANSPARENT: u32 = 0x0000_0020;

pub const WS_EX_TOOLWINDOW: u32 = 0x0000_0080;

pub const WS_EX_LAYERED: u32 = 0x0008_0000;

pub const WS_EX_NOACTIVATE: u32 = 0x0800_0000;

/// NOACTIVATE + TOOLWINDOW + TRANSPARENT: never takes focus, never in Alt+Tab, clicks pass straight
/// through it. Above everything, and layered for its translucency.
pub const BUBBLE_EX_STYLE: u32 = 0x0808_00a8;

pub const SW_HIDE: i32 = 0;

pub const SW_SHOWNOACTIVATE: i32 = 4;

/// What the bubble shows.
#[derive(Clone, Copy, Debug, PartialEq, Eq, Structural)]
pub enum BubbleState {
    Hidden,
    Recording,
    Transcribing,
}

/// A window message on its way to the UI thread.
#[derive(Clone, Copy, Debug, PartialEq, Eq, Structural)]
pub struct Post {
    pub hwnd: isize,
    pub msg: u32,
}

/// Handle owned by the main loop. All methods are fire-and-forget: each one names the message that
/// is to be posted.
pub struct Ui {
    pub hwnd: isize,
}

impl Ui {
    /// The UI behind the window `hwnd`.
    pub fn new(hwnd: isize) -> (r: Ui)
        ensures
            r.hwnd == hwnd,
    {
        Ui { hwnd }
    }

    pub fn recording(&self) -> (r: Post)
        ensures
            r.hwnd == self.hwnd,
            r.msg == MSG_RECORDING,
    {
        self.post(MSG_RECORDING)
    }

    pub fn transcribing(&self) -> (r: Post)
        ensures
            r.hwnd == self.hwnd,
            r.msg == MSG_TRANSCRIBING,
    {
        self.post(MSG_TRANSCRIBING)
    }

    pub fn hide_bubble(&self) -> (r: Post)
        ensures
            r.hwnd == self.hwnd,
            r.msg == MSG_HIDE,
    {
        self.post(MSG_HIDE)
    }

    /// The command for a state of the bubble.
    pub fn show(&self, state: BubbleState) -> (r: Post)
        ensures
            r.hwnd == self.hwnd,
            commanded(r.msg) == Some(state),
    {
        match state {
            BubbleState::Recording => self.recording(),
            BubbleState::Transcribing => self.transcribing(),
            BubbleState::Hidden => self.hide_bubble(),
        }
    }

    fn post(&self, msg: u32) -> (r: Post)
        ensures
            r.hwnd == self.hwnd,
            r.msg == msg,
    {
        Post { hwnd: self.hwnd, msg }
    }
}

/// What the window has to do about a message.
#[derive(Clone, Copy, Debug, PartialEq, Eq, Structural)]
pub enum WindowStep {
    Nothing,
    /// Place the bubble, show it, start its timer and have it painted.
    Show,
    /// Stop the timer and hide the bubble.
    Hide,
    /// Open the menu of the tray icon.
    OpenMenu,
    /// Have the bubble painted again. Do not erase: the paint handler repaints the whole client
    /// area, so erasing first only adds flicker.
    Repaint,
    Paint,
    AddTrayIcon,
    RemoveTrayIcon,
}

/// What the window answers.
#[derive(Clone, Copy, Debug, PartialEq, Eq, Structural)]
pub enum Reply {
    Value(isize),
    /// What the system answers for windows that do not care.
    SystemDefault,
}

/// The bubble, as far as the paint handler reads it.
#[derive(Clone, Copy, Debug, PartialEq, Eq, Structural)]
pub struct Bubble {
    pub state: BubbleState,
    /// Animation frame, advanced by the window timer.
    pub frame: u32,
}

/// The state that a command asks for, if `msg` is one.
pub open spec fn commanded(msg: u32) -> Option<BubbleState> {
    if msg == MSG_RECORDING {
        Some(BubbleState::Recording)
    } else if msg == MSG_TRANSCRIBING {
        Some(BubbleState::Transcribing)
    } else if msg == MSG_HIDE {
        Some(BubbleState::Hidden)
    } else {
        None
    }
}

/// `msg` is one that the window knows by its number.
pub open spec fn has_handler(msg: u32) -> bool {
    ||| commanded(msg) is Some
    ||| msg == MSG_TRAY
    ||| msg == WM_TIMER
    ||| msg == WM_PAINT
    ||| msg == WM_ERASEBKGND
    ||| msg == WM_COMMAND
    ||| msg == WM_DESTROY
}

/// Explorer has restarted and says so.
pub open spec fn is_taskbar_created(msg: u32, taskbar_created: u32) -> bool {
    !has_handler(msg) && msg == taskbar_created && msg != 0
}

/// What is done about a message. `event` is what the tray icon reports, and `taskbar_created` the
/// number that the system gave to the broadcast of a new taskbar.
pub open spec fn window_step(msg: u32, event: u32, taskbar_created: u32) -> WindowStep {
    if commanded(msg) == Some(BubbleState::Hidden) {
        WindowStep::Hide
    } else if commanded(msg) is Some {
        WindowStep::Show
    } else if msg == MSG_TRAY && (event == WM_RBUTTONUP || event == WM_CONTEXTMENU) {
        WindowStep::OpenMenu
    } else if msg == WM_TIMER {
        WindowStep::Repaint
    } else if msg == WM_PAINT {
        WindowStep::Paint
    } else if msg == WM_DESTROY {
        WindowStep::RemoveTrayIcon
    } else if is_taskbar_created(msg, taskbar_created) {
        WindowStep::AddTrayIcon
    } else {
        WindowStep::Nothing
    }
}

/// What is answered to a message.
pub open spec fn window_reply(msg: u32, taskbar_created: u32) -> Reply {
    if msg == WM_ERASEBKGND {
        Reply::Value(1)
    } else if has_handler(msg) || is_taskbar_created(msg, taskbar_created) {
        Reply::Value(0)
    } else {
        Reply::SystemDefault
    }
}

/// The bubble after a message: a command sets its state and starts the animation over, and the
/// timer moves the animation on, from the last frame back to the first.
pub open spec fn bubble_after(bubble: Bubble, msg: u32) -> Bubble {
    match commanded(msg) {
        Some(BubbleState::Hidden) => Bubble { state: BubbleState::Hidden, frame: bubble.frame },
        Some(state) => Bubble { state, frame: 0 },
        None => if msg == WM_TIMER {
            Bubble {
                state: bubble.state,
                frame: if bubble.frame == u32::MAX {
                    0
                } else {
                    (bubble.frame + 1) as u32
                },
            }
        } else {
            bubble
        },
    }
}

impl Bubble {
    /// A bubble that nobody has asked for yet.
    pub fn new() -> (r: Bubble)
        ensures
            r == (Bubble { state: BubbleState::Hidden, frame: 0 }),
    {
        Bubble { state: BubbleState::Hidden, frame: 0 }
    }

    /// Sets the state; the animation of a bubble that is shown starts over.
    pub fn show_state(&mut self, state: BubbleState) -> (r: WindowStep)
        ensures
            final(self).state == state,
            final(self).frame == (if state == BubbleState::Hidden {
                old(self).frame
            } else {
                0
            }),
            r == (if state == BubbleState::Hidden {
                WindowStep::Hide
            } else {
                WindowStep::Show
            }),
    {
        self.state = state;
        if state == BubbleState::Hidden {
            WindowStep::Hide
        } else {
            self.frame = 0;
            WindowStep::Show
        }
    }

    /// Handles one window message.
    pub fn wndproc(&mut self, msg: u32, event: u32, taskbar_created: u32) -> (r: (
        WindowStep,
        Reply,
    ))
        ensures
            *final(self) == bubble_after(*old(self), msg),
            r.0 == window_step(msg, event, taskbar_created),
            r.1 == window_reply(msg, taskbar_created),
    {
        if msg == MSG_RECORDING {
            (self.show_state(BubbleState::Recording), Reply::Value(0))
        } else if msg == MSG_TRANSCRIBING {
            (self.show_state(BubbleState::Transcribing), Reply::Value(0))
        } else if msg == MSG_HIDE {
            (self.show_state(BubbleState::Hidden), Reply::Value(0))
        } else if msg == MSG_TRAY {
            if event == WM_RBUTTONUP || event == WM_CONTEXTMENU {
                (WindowStep::OpenMenu, Reply::Value(0))
            } else {
                (WindowStep::Nothing, Reply::Value(0))
            }
        } else if msg == WM_TIMER {
            self.frame = self.frame.wrapping_add(1);
            (WindowStep::Repaint, Reply::Value(0))
        } else if msg == WM_PAINT {
            (WindowStep::Paint, Reply::Value(0))
        } else if msg == WM_ERASEBKGND {
            (WindowStep::Nothing, Reply::Value(1))
        } else if msg == WM_COMMAND {
            (WindowStep::Nothing, Reply::Value(0))
        } else if msg == WM_DESTROY {
            (WindowStep::RemoveTrayIcon, Reply::Value(0))
        } else if msg == taskbar_created && msg != 0 {
            (WindowStep::AddTrayIcon, Reply::Value(0))
        } else {
            (WindowStep::Nothing, Reply::SystemDefault)
        }
    }
}

/// How the window is shown or hidden. SW_SHOWNOACTIVATE is the whole point: visible, but focus
/// stays where it was.
pub fn show_command(state: BubbleState) -> (r: i32)
    ensures
        r == (if state == BubbleState::Hidden {
            SW_HIDE
        } else {
            SW_SHOWNOACTIVATE
        }),
{
    if state == BubbleState::Hidden {
        SW_HIDE
    } else {
        SW_SHOWNOACTIVATE
    }
}

/// The bubble can never take the focus, never shows up in Alt+Tab, and lets clicks through.
pub proof fn law_bubble_never_takes_focus()
    ensures
        BUBBLE_EX_STYLE & WS_EX_NOACTIVATE == WS_EX_NOACTIVATE,
        BUBBLE_EX_STYLE & WS_EX_TOOLWINDOW == WS_EX_TOOLWINDOW,
        BUBBLE_EX_STYLE & WS_EX_TRANSPARENT == WS_EX_TRANSPARENT,
        BUBBLE_EX_STYLE == WS_EX_NOACTIVATE | WS_EX_TOOLWINDOW | WS_EX_TOPMOST | WS_EX_LAYERED
            | WS_EX_TRANSPARENT,
{
    assert(BUBBLE_EX_STYLE & WS_EX_NOACTIVATE == WS_EX_NOACTIVATE && BUBBLE_EX_STYLE
        & WS_EX_TOOLWINDOW == WS_EX_TOOLWINDOW && BUBBLE_EX_STYLE & WS_EX_TRANSPARENT
        == WS_EX_TRANSPARENT && BUBBLE_EX_STYLE == WS_EX_NOACTIVATE | WS_EX_TOOLWINDOW
        | WS_EX_TOPMOST | WS_EX_LAYERED | WS_EX_TRANSPARENT) by (bit_vector);
}

/// A command that the main loop posts arrives: the bubble shows what it was told to show, and is
/// hidden only when it was told to hide.
pub proof fn law_commands_reach_the_bubble(bubble: Bubble, event: u32, taskbar_created: u32)
    ensures
        bubble_after(bubble, MSG_RECORDING) == (Bubble {
            state: BubbleState::Recording,
            frame: 0,
        }),
        bubble_after(bubble, MSG_TRANSCRIBING) == (Bubble {
            state: BubbleState::Transcribing,
            frame: 0,
        }),
        bubble_after(bubble, MSG_HIDE).state == BubbleState::Hidden,
        window_step(MSG_RECORDING, event, taskbar_created) == WindowStep::Show,
        window_step(MSG_TRANSCRIBING, event, taskbar_created) == WindowStep::Show,
        window_step(MSG_HIDE, event, taskbar_created) == WindowStep::Hide,
{
}

/// Nothing but a command changes what the bubble shows.
pub proof fn law_only_commands_change_the_state(bubble: Bubble, msg: u32)
    requires
        commanded(msg) is None,
    ensures
        bubble_after(bubble, msg).state == bubble.state,
{
}

/// When Explorer restarts the tray icon is added again, or it would vanish.
pub proof fn law_tray_icon_survives_explorer(event: u32, taskbar_created: u32)
    requires
        taskbar_created != 0,
        !has_handler(taskbar_created),
    ensures
        window_step(taskbar_created, event, taskbar_created) == WindowStep::AddTrayIcon,
{
}

/// What the user chose in the menu of the tray icon.
#[derive(Clone, Copy, Debug, PartialEq, Eq, Structural)]
pub enum MenuChoice {
    OpenConfig,
    Exit,
    Nothing,
}

/// The choice behind the command number that the menu returns.
pub fn menu_choice(cmd: usize) -> (r: MenuChoice)
    ensures
        r == MenuChoice::OpenConfig <==> cmd == CMD_OPEN_CONFIG,
        r == MenuChoice::Exit <==> cmd == CMD_EXIT,
{
    if cmd == CMD_OPEN_CONFIG {
        MenuChoice::OpenConfig
    } else if cmd == CMD_EXIT {
        MenuChoice::Exit
    } else {
        MenuChoice::Nothing
    }
}

/// When each step is taken, by the numbers of the messages.
pub proof fn law_when_each_step_is_taken(msg: u32, event: u32, taskbar_created: u32)
    ensures
        window_step(msg, event, taskbar_created) == WindowStep::Show <==> msg == 0x8001 || msg
            == 0x8002,
        window_step(msg, event, taskbar_created) == WindowStep::Hide <==> msg == 0x8003,
        window_step(msg, event, taskbar_created) == WindowStep::OpenMenu <==> msg == 0x800a && (
        event == 0x205 || event == 0x7b),
        window_step(msg, event, taskbar_created) == WindowStep::Repaint <==> msg == 0x113,
        window_step(msg, event, taskbar_created) == WindowStep::Paint <==> msg == 0xf,
        window_step(msg, event, taskbar_created) == WindowStep::RemoveTrayIcon <==> msg == 2,
        window_step(msg, event, taskbar_created) == WindowStep::AddTrayIcon <==> {
            &&& msg == taskbar_created && msg != 0
            &&& !(0x8001 <= msg <= 0x8003) && msg != 0x800a && msg != 0x113 && msg != 0xf && msg
                != 0x14 && msg != 0x111 && msg != 2
        },
{
}

/// When the window answers by itself: one to the question whether it erases, zero to every other
/// message that it handles, and nothing to the rest.
pub proof fn law_what_is_answered(msg: u32, taskbar_created: u32)
    ensures
        window_reply(msg, taskbar_created) == Reply::Value(1) <==> msg == 0x14,
        window_reply(msg, taskbar_created) == Reply::Value(0) <==> msg != 0x14 && ((0x8001 <= msg
            <= 0x8003) || msg == 0x800a || msg == 0x113 || msg == 0xf || msg == 0x111 || msg == 2
            || (msg == taskbar_created && msg != 0)),
        window_reply(msg, taskbar_created) is Value || window_reply(msg, taskbar_created)
            == Reply::SystemDefault,
{
}

/// What a message does to the bubble: a command to show starts its animation over, a command to hide
/// leaves it, the timer moves it on by one frame, and no other message touches anything.
pub proof fn law_what_a_message_does_to_the_bubble(bubble: Bubble, msg: u32)
    ensures
        msg == 0x8001 ==> bubble_after(bubble, msg).state == BubbleState::Recording,
        msg == 0x8002 ==> bubble_after(bubble, msg).state == BubbleState::Transcribing,
        msg == 0x8001 || msg == 0x8002 ==> bubble_after(bubble, msg).frame == 0,
        msg == 0x8003 ==> bubble_after(bubble, msg).state == BubbleState::Hidden && bubble_after(
            bubble,
            msg,
        ).frame == bubble.frame,
        msg == 0x113 ==> bubble_after(bubble, msg).state == bubble.state && (bubble_after(
            bubble,
            msg,
        ).frame - bubble.frame - 1) % 0x1_0000_0000 == 0,
        !(0x8001 <= msg <= 0x8003) && msg != 0x113 ==> bubble_after(bubble, msg) == bubble,
{
}

/// Each state is asked for by one message, and no other message asks for any.
pub proof fn law_one_command_for_each_state(msg: u32)
    ensures
        commanded(msg) == Some(BubbleState::Recording) <==> msg == 0x8001,
        commanded(msg) == Some(BubbleState::Transcribing) <==> msg == 0x8002,
        commanded(msg) == Some(BubbleState::Hidden) <==> msg == 0x8003,
{
}

} // verus!
