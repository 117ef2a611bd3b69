use dictate::autostart::{apply, entry_value, is_gone, run_value, Removal, RunEntry, NAME, RUN_KEY};
use dictate::draw::{
    background, can_place, client_area, colorref, fit_tip, icon_pixels, paint, place, tip,
    tip_text, Rect, BARS, BAR_MAX_H, BAR_MIN_H, BAR_REST_H, BUBBLE_H, BUBBLE_W, ICON_SIZE,
};
use dictate::text::{decimal_text, is_white_space, to_wide, trim};
use dictate::ui::{
    menu_choice, show_command, Bubble, BubbleState, MenuChoice, Reply, Ui, WindowStep,
    BUBBLE_EX_STYLE, MSG_HIDE, MSG_RECORDING, MSG_TRANSCRIBING, MSG_TRAY, WM_COMMAND,
    WM_CONTEXTMENU, WM_DESTROY, WM_ERASEBKGND, WM_PAINT, WM_RBUTTONUP, WM_TIMER,
};

#[test]
fn commands_name_their_message() {
    let ui = Ui::new(42);
    assert_eq!((ui.recording().hwnd, ui.recording().msg), (42, 0x8001));
    assert_eq!((ui.transcribing().hwnd, ui.transcribing().msg), (42, 0x8002));
    assert_eq!((ui.hide_bubble().hwnd, ui.hide_bubble().msg), (42, 0x8003));
    assert_eq!(ui.show(BubbleState::Recording), ui.recording());
    assert_eq!(ui.show(BubbleState::Transcribing), ui.transcribing());
    assert_eq!(ui.show(BubbleState::Hidden), ui.hide_bubble());
}

#[test]
fn commands_reach_the_bubble() {
    let ui = Ui::new(7);
    let mut bubble = Bubble::new();
    for state in [BubbleState::Recording, BubbleState::Transcribing] {
        bubble.frame = 9;
        let step = bubble.wndproc(ui.show(state).msg, 0, 0xc123);
        assert_eq!(step, (WindowStep::Show, Reply::Value(0)));
        assert_eq!(bubble, Bubble { state, frame: 0 });
    }
    bubble.frame = 9;
    let step = bubble.wndproc(ui.hide_bubble().msg, 0, 0xc123);
    assert_eq!(step, (WindowStep::Hide, Reply::Value(0)));
    assert_eq!(bubble, Bubble { state: BubbleState::Hidden, frame: 9 });
}

#[test]
fn window_messages_are_handled() {
    let mut b = Bubble { state: BubbleState::Recording, frame: 3 };
    let taskbar = 0xc123;
    assert_eq!(b.wndproc(MSG_TRAY, WM_RBUTTONUP, taskbar), (WindowStep::OpenMenu, Reply::Value(0)));
    assert_eq!(
        b.wndproc(MSG_TRAY, WM_CONTEXTMENU, taskbar),
        (WindowStep::OpenMenu, Reply::Value(0))
    );
    assert_eq!(b.wndproc(MSG_TRAY, 0x200, taskbar), (WindowStep::Nothing, Reply::Value(0)));
    assert_eq!(b.wndproc(WM_PAINT, 0, taskbar), (WindowStep::Paint, Reply::Value(0)));
    assert_eq!(b.wndproc(WM_ERASEBKGND, 0, taskbar), (WindowStep::Nothing, Reply::Value(1)));
    assert_eq!(b.wndproc(WM_COMMAND, 0, taskbar), (WindowStep::Nothing, Reply::Value(0)));
    assert_eq!(b.wndproc(WM_DESTROY, 0, taskbar), (WindowStep::RemoveTrayIcon, Reply::Value(0)));
    assert_eq!(b.wndproc(taskbar, 0, taskbar), (WindowStep::AddTrayIcon, Reply::Value(0)));
    assert_eq!(b.wndproc(0, 0, 0), (WindowStep::Nothing, Reply::SystemDefault));
    assert_eq!(b.wndproc(1, 0, taskbar), (WindowStep::Nothing, Reply::SystemDefault));
    // None of these changes what is shown.
    assert_eq!(b, Bubble { state: BubbleState::Recording, frame: 3 });
    // A known message stays what it is, whatever number the broadcast has.
    assert_eq!(b.wndproc(WM_PAINT, 0, WM_PAINT), (WindowStep::Paint, Reply::Value(0)));
}

#[test]
fn the_timer_moves_the_animation_on() {
    let mut b = Bubble { state: BubbleState::Recording, frame: 3 };
    assert_eq!(b.wndproc(WM_TIMER, 0, 1), (WindowStep::Repaint, Reply::Value(0)));
    assert_eq!(b.frame, 4);
    b.frame = u32::MAX;
    b.wndproc(WM_TIMER, 0, 1);
    assert_eq!(b.frame, 0);
}

#[test]
fn the_bubble_never_takes_the_focus() {
    assert_eq!(BUBBLE_EX_STYLE, 0x0800_0000 | 0x80 | 0x8 | 0x8_0000 | 0x20);
    assert_eq!(show_command(BubbleState::Hidden), 0);
    assert_eq!(show_command(BubbleState::Recording), 4);
    assert_eq!(show_command(BubbleState::Transcribing), 4);
    assert_eq!((MSG_RECORDING, MSG_TRANSCRIBING, MSG_HIDE), (0x8001, 0x8002, 0x8003));
}

#[test]
fn the_menu_has_two_choices() {
    assert_eq!(menu_choice(1), MenuChoice::OpenConfig);
    assert_eq!(menu_choice(2), MenuChoice::Exit);
    assert_eq!(menu_choice(0), MenuChoice::Nothing);
    assert_eq!(menu_choice(usize::MAX), MenuChoice::Nothing);
}

#[test]
fn the_bubble_is_at_the_bottom_centre() {
    let area = Rect { left: 0, top: 0, right: 1920, bottom: 1040 };
    assert!(can_place(&area));
    assert_eq!(place(&area), (921, 988));
    let second = Rect { left: -1280, top: 0, right: -1, bottom: 700 };
    assert_eq!(place(&second), (-1280 + (1279 - 78) / 2, 648));
    // Less room than the bubble needs: it sticks out on both sides.
    let narrow = Rect { left: 10, top: 0, right: 15, bottom: 100 };
    assert_eq!(place(&narrow), (10 + (5 - 78) / 2, 48));
    assert!(!can_place(&Rect { left: i32::MIN, top: 0, right: i32::MAX, bottom: 0 }));
    assert!(!can_place(&Rect { left: 0, top: 0, right: 0, bottom: i32::MIN }));
}

#[test]
fn colours_are_packed_with_red_first() {
    assert_eq!(colorref(0x11, 0x22, 0x33), 0x0033_2211);
    assert_eq!(colorref(255, 255, 255), 0x00ff_ffff);
    assert_eq!(background(), 0x0018_1818);
}

#[test]
fn bars_follow_the_levels_while_recording() {
    let bars = paint(BubbleState::Recording, 7, &[3, 6, 14, 7, 5]);
    assert_eq!(bars.len(), BARS);
    let lefts: Vec<i32> = bars.iter().map(|b| b.rect.left).collect();
    assert_eq!(lefts, vec![21, 29, 37, 45, 53]);
    assert_eq!(bars[2].rect, Rect { left: 37, top: 8, right: 40, bottom: 22 });
    assert_eq!(bars[3].rect, Rect { left: 45, top: 12, right: 48, bottom: 18 });
    assert!(bars.iter().all(|b| b.color == 0x00d2_d2d2));
    assert_eq!(client_area(), Rect { left: 0, top: 0, right: BUBBLE_W, bottom: BUBBLE_H });
}

#[test]
fn bars_rest_without_a_recording() {
    let rest = (3.0f32 + 0.12 * (14.0 - 3.0)).round().max(3.0) as i32;
    assert_eq!((BAR_MIN_H, BAR_MAX_H, BAR_REST_H), (3, 14, rest));
    for frame in [0, 32, u32::MAX] {
        let bars = paint(BubbleState::Hidden, frame, &[0, 0, 0, 0, 0]);
        assert!(bars.iter().all(|b| (b.rect.top, b.rect.bottom) == (13, 17)));
        assert!(bars.iter().all(|b| b.color == 0x0096_9696));
    }
}

#[test]
fn bars_breathe_together_while_transcribing() {
    let edges = |frame: u32| {
        let bars = paint(BubbleState::Transcribing, frame, &[0, 0, 0, 0, 0]);
        assert_eq!(bars.len(), BARS);
        let (top, bottom) = (bars[0].rect.top, bars[0].rect.bottom);
        assert!(bars.iter().all(|b| (b.rect.top, b.rect.bottom) == (top, bottom)));
        assert!(bars.iter().all(|b| b.color == 0x0096_9696));
        assert_eq!(bars, paint(BubbleState::Transcribing, frame, &[14, 3, 14, 3, 14]));
        (top, bottom)
    };
    // From a height of 4 at the start to one of 8 in the middle, and back.
    assert_eq!(edges(0), (13, 17));
    assert_eq!(edges(15), (13, 17));
    assert_eq!(edges(16), (12, 18));
    assert_eq!(edges(32), (11, 19));
    assert_eq!(edges(48), (12, 18));
    assert_eq!(edges(63), (13, 17));
    assert_eq!(edges(64), edges(0));
    assert_eq!(edges(u32::MAX), edges(63));
    for frame in 0..200u32 {
        let step = edges(frame + 1).0 - edges(frame).0;
        assert!((-1..=1).contains(&step));
    }
}

#[test]
fn the_icon_is_a_soft_disc() {
    let pixels = icon_pixels();
    assert_eq!(pixels.len(), ICON_SIZE * ICON_SIZE * 4);
    for y in 0..ICON_SIZE {
        for x in 0..ICON_SIZE {
            let d = ((x as f32 - 15.5).powi(2) + (y as f32 - 15.5).powi(2)).sqrt();
            let a = ((12.0f32 - d + 0.5).clamp(0.0, 1.0) * 255.0) as u8;
            let v = (224u16 * a as u16 / 255) as u8;
            let i = (y * ICON_SIZE + x) * 4;
            assert_eq!(pixels[i..i + 4].to_vec(), vec![v, v, v, a]);
        }
    }
    // The middle is solid and the corners are clear.
    assert_eq!(pixels[(16 * 32 + 16) * 4 + 3], 255);
    assert_eq!(pixels[3], 0);
}

#[test]
fn the_tip_names_the_hotkey() {
    assert_eq!(tip_text("F13"), "dictate \u{2014} hold F13");
    let wide = tip("F13");
    let expected: Vec<u16> =
        "dictate \u{2014} hold F13".encode_utf16().chain(std::iter::once(0)).collect();
    assert_eq!(wide, expected);
    assert_eq!(fit_tip(&[1, 2, 3], 2), vec![1, 2]);
    assert_eq!(fit_tip(&[1, 2, 3], 5), vec![1, 2, 3, 0, 0]);
    assert_eq!(fit_tip(&[], 0), Vec::<u16>::new());
}

#[test]
fn wide_text_is_utf16_with_a_zero() {
    for text in ["", "plain", "caf\u{e9} \u{2603}", "\u{1f600}\u{10ffff}\u{10000}\u{ffff}\u{d7ff}"] {
        let expected: Vec<u16> = text.encode_utf16().chain(std::iter::once(0)).collect();
        assert_eq!(to_wide(text), expected);
    }
    assert_eq!(to_wide("\u{1f600}"), vec![0xd83d, 0xde00, 0]);
}

#[test]
fn blanks_are_those_of_unicode() {
    for c in '\0'..=char::MAX {
        assert_eq!(is_white_space(c), c.is_whitespace());
    }
}

#[test]
fn trimming_takes_blanks_off_both_ends() {
    for text in ["", " ", "a", "  a b  ", "\n\u{2003}x\u{85}", "\u{200b}y "] {
        assert_eq!(trim(text), text.trim());
        assert_eq!(trim(trim(text)), trim(text));
    }
}

#[test]
fn numbers_are_written_in_decimal() {
    for n in [0u128, 7, 10, 99, 100, 1234567890, u128::MAX] {
        assert_eq!(decimal_text(n), n.to_string());
    }
}

#[test]
fn the_run_entry_follows_the_config() {
    assert_eq!(apply(true), RunEntry::Present);
    assert_eq!(apply(false), RunEntry::Absent);
    let exe = "C:/my apps/dictate.exe";
    assert_eq!(entry_value(true, exe), Some("\"C:/my apps/dictate.exe\"".to_string()));
    assert_eq!(entry_value(false, exe), None);
    assert_eq!(run_value("C:\\My Apps\\dictate.exe"), "\"C:\\My Apps\\dictate.exe\"");
    assert_eq!(RUN_KEY, r"Software\Microsoft\Windows\CurrentVersion\Run");
    assert_eq!(NAME, "dictate");
}

#[test]
fn only_a_real_failure_to_remove_is_an_error() {
    assert!(is_gone(Removal::Removed));
    assert!(is_gone(Removal::NotFound));
    assert!(!is_gone(Removal::Failed));
}
