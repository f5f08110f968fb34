//! The display state machine.
use critical_section as _;
use srkos::ipc::{Command, CommandBus, FaceMood};
use srkos::tasks::http::answer;
use srkos::tasks::oled::{
    handle_command, handle_menu_select, menu_item_count, Framebuffer, MenuDepth, OledState,
    OledTask, FRAMEBUFFER_SIZE, FRAME_PERIOD_MS, MENU_INACTIVITY_SECS,
};

#[test]
fn framebuffer_constant_is_exactly_1kb() {
    assert_eq!(
        FRAMEBUFFER_SIZE, 1024,
        "SSD1306 128×64 1-bit framebuffer must be exactly 1 024 bytes"
    );
}

#[test]
fn framebuffer_static_has_correct_length() {
    assert_eq!(core::mem::size_of_val(&Framebuffer::new().bytes), FRAMEBUFFER_SIZE);
}

#[test]
fn framebuffer_is_zeroed_at_startup() {
    let framebuffer = Framebuffer::new();
    let sum: u32 = (0..FRAMEBUFFER_SIZE).map(|i| u32::from(framebuffer.bytes[i])).sum();
    assert_eq!(sum, 0, "framebuffer should start fully dark (all bits 0)");
}

#[test]
fn oled_state_new_is_neutral_face_menu_closed() {
    let state = OledState::new();
    assert_eq!(state.face_mood, FaceMood::Neutral);
    assert!(!state.menu_open);
    assert_eq!(state.menu_depth, MenuDepth::Main);
    assert_eq!(state.selected_item, 0);
}

#[test]
fn oled_state_default_matches_new() {
    assert_eq!(OledState::default(), OledState::new());
}

#[test]
fn oled_state_face_labels() {
    let cases = [
        (FaceMood::Happy, "Happy"),
        (FaceMood::Sad, "Sad"),
        (FaceMood::Neutral, "Neutral"),
        (FaceMood::Excited, "Excited"),
        (FaceMood::Mad, "Mad"),
        (FaceMood::Sleeping, "Sleeping"),
    ];
    for (mood, expected) in &cases {
        let s = OledState {
            face_mood: *mood,
            ..OledState::new()
        };
        assert_eq!(s.label(), *expected, "unexpected label for {mood:?}");
    }
}

#[test]
fn oled_state_menu_labels() {
    let base = OledState {
        menu_open: true,
        ..OledState::new()
    };
    assert_eq!(
        OledState {
            menu_depth: MenuDepth::Main,
            ..base
        }
        .label(),
        "Menu:Main"
    );
    assert_eq!(
        OledState {
            menu_depth: MenuDepth::Mood,
            ..base
        }
        .label(),
        "Menu:Mood"
    );
    assert_eq!(
        OledState {
            menu_depth: MenuDepth::Settings,
            ..base
        }
        .label(),
        "Menu:Settings"
    );
}

#[test]
fn handle_command_set_face_expression_updates_mood() {
    let state = OledState::new();
    let next = handle_command(state, &Command::SetFaceExpression(FaceMood::Happy));
    assert_eq!(next.face_mood, FaceMood::Happy);
    assert!(!next.menu_open);
}

#[test]
fn handle_command_set_face_changes_mood_while_menu_closed() {
    let state = OledState {
        face_mood: FaceMood::Sad,
        ..OledState::new()
    };
    let next = handle_command(state, &Command::SetFaceExpression(FaceMood::Mad));
    assert_eq!(next.face_mood, FaceMood::Mad);
}

#[test]
fn handle_command_all_moods_reachable() {
    let moods = [
        FaceMood::Happy,
        FaceMood::Sad,
        FaceMood::Neutral,
        FaceMood::Excited,
        FaceMood::Mad,
        FaceMood::Sleeping,
    ];
    for mood in &moods {
        let next =
            handle_command(OledState::new(), &Command::SetFaceExpression(*mood));
        assert_eq!(next.face_mood, *mood);
    }
}

#[test]
fn handle_command_non_display_command_preserves_state() {
    let state = OledState {
        face_mood: FaceMood::Excited,
        ..OledState::new()
    };
    let next = handle_command(state, &Command::MoveServo(0, 90));
    assert_eq!(next, state, "servo command must not change the OLED state");
}

#[test]
fn handle_command_stream_audio_preserves_state() {
    let state = OledState {
        face_mood: FaceMood::Sleeping,
        ..OledState::new()
    };
    let next = handle_command(state, &Command::StreamAudio(true));
    assert_eq!(next, state, "audio command must not change the OLED state");
}

#[test]
fn menu_next_item_no_op_when_menu_closed() {
    let state = OledState::new();
    let next = handle_command(state, &Command::MenuNextItem);
    assert_eq!(next, state, "MenuNextItem is a no-op when the menu is closed");
}

#[test]
fn menu_next_item_advances_selection() {
    let state = OledState {
        menu_open: true,
        menu_depth: MenuDepth::Main,
        selected_item: 0,
        ..OledState::new()
    };
    let next = handle_command(state, &Command::MenuNextItem);
    assert_eq!(next.selected_item, 1);
}

#[test]
fn menu_next_item_wraps_at_end_of_main_menu() {
    // Main menu has 4 items (0-3); after item 3 it wraps to 0.
    let state = OledState {
        menu_open: true,
        menu_depth: MenuDepth::Main,
        selected_item: 3,
        ..OledState::new()
    };
    let next = handle_command(state, &Command::MenuNextItem);
    assert_eq!(next.selected_item, 0);
}

#[test]
fn menu_next_item_wraps_at_end_of_mood_submenu() {
    // Mood sub-menu has 3 items (0-2).
    let state = OledState {
        menu_open: true,
        menu_depth: MenuDepth::Mood,
        selected_item: 2,
        ..OledState::new()
    };
    let next = handle_command(state, &Command::MenuNextItem);
    assert_eq!(next.selected_item, 0);
}

#[test]
fn menu_next_item_wraps_at_end_of_settings_submenu() {
    // Settings sub-menu has 3 items (0-2).
    let state = OledState {
        menu_open: true,
        menu_depth: MenuDepth::Settings,
        selected_item: 2,
        ..OledState::new()
    };
    let next = handle_command(state, &Command::MenuNextItem);
    assert_eq!(next.selected_item, 0);
}

#[test]
fn menu_select_opens_main_menu_when_closed() {
    let state = OledState::new();
    let next = handle_command(state, &Command::MenuSelect);
    assert!(next.menu_open, "long press must open the menu");
    assert_eq!(next.menu_depth, MenuDepth::Main);
    assert_eq!(next.selected_item, 0);
}

#[test]
fn menu_select_talk_is_noop_on_state() {
    let state = OledState {
        menu_open: true,
        menu_depth: MenuDepth::Main,
        selected_item: 0,
        ..OledState::new()
    };
    let next = handle_command(state, &Command::MenuSelect);
    assert_eq!(next, state, "Talk action has no local state change");
}

#[test]
fn menu_select_mood_enters_mood_submenu() {
    let state = OledState {
        menu_open: true,
        menu_depth: MenuDepth::Main,
        selected_item: 1,
        ..OledState::new()
    };
    let next = handle_command(state, &Command::MenuSelect);
    assert_eq!(next.menu_depth, MenuDepth::Mood);
    assert_eq!(next.selected_item, 0);
    assert!(next.menu_open);
}

#[test]
fn menu_select_settings_enters_settings_submenu() {
    let state = OledState {
        menu_open: true,
        menu_depth: MenuDepth::Main,
        selected_item: 2,
        ..OledState::new()
    };
    let next = handle_command(state, &Command::MenuSelect);
    assert_eq!(next.menu_depth, MenuDepth::Settings);
    assert_eq!(next.selected_item, 0);
    assert!(next.menu_open);
}

#[test]
fn menu_select_exit_closes_menu() {
    let state = OledState {
        menu_open: true,
        menu_depth: MenuDepth::Main,
        selected_item: 3,
        ..OledState::new()
    };
    let next = handle_command(state, &Command::MenuSelect);
    assert!(!next.menu_open, "Exit must close the menu");
    assert_eq!(next.menu_depth, MenuDepth::Main);
}

#[test]
fn mood_menu_set_happy_changes_face_and_returns_to_main() {
    let state = OledState {
        menu_open: true,
        menu_depth: MenuDepth::Mood,
        selected_item: 0,
        face_mood: FaceMood::Neutral,
        ..OledState::new()
    };
    let next = handle_command(state, &Command::MenuSelect);
    assert_eq!(next.face_mood, FaceMood::Happy);
    assert_eq!(next.menu_depth, MenuDepth::Main);
    assert_eq!(next.selected_item, 0);
    assert!(next.menu_open);
}

#[test]
fn mood_menu_set_sleep_changes_face_and_returns_to_main() {
    let state = OledState {
        menu_open: true,
        menu_depth: MenuDepth::Mood,
        selected_item: 1,
        face_mood: FaceMood::Neutral,
        ..OledState::new()
    };
    let next = handle_command(state, &Command::MenuSelect);
    assert_eq!(next.face_mood, FaceMood::Sleeping);
    assert_eq!(next.menu_depth, MenuDepth::Main);
    assert_eq!(next.selected_item, 0);
    assert!(next.menu_open);
}

#[test]
fn mood_menu_back_returns_to_main() {
    let state = OledState {
        menu_open: true,
        menu_depth: MenuDepth::Mood,
        selected_item: 2,
        ..OledState::new()
    };
    let next = handle_command(state, &Command::MenuSelect);
    assert_eq!(next.menu_depth, MenuDepth::Main);
    assert_eq!(next.selected_item, 0);
    assert!(next.menu_open);
}

#[test]
fn settings_menu_wifi_info_returns_to_main() {
    let state = OledState {
        menu_open: true,
        menu_depth: MenuDepth::Settings,
        selected_item: 0,
        ..OledState::new()
    };
    let next = handle_command(state, &Command::MenuSelect);
    assert_eq!(next.menu_depth, MenuDepth::Main);
    assert_eq!(next.selected_item, 0);
    assert!(next.menu_open);
}

#[test]
fn settings_menu_volume_returns_to_main() {
    let state = OledState {
        menu_open: true,
        menu_depth: MenuDepth::Settings,
        selected_item: 1,
        ..OledState::new()
    };
    let next = handle_command(state, &Command::MenuSelect);
    assert_eq!(next.menu_depth, MenuDepth::Main);
    assert_eq!(next.selected_item, 0);
    assert!(next.menu_open);
}

#[test]
fn settings_menu_back_returns_to_main() {
    let state = OledState {
        menu_open: true,
        menu_depth: MenuDepth::Settings,
        selected_item: 2,
        ..OledState::new()
    };
    let next = handle_command(state, &Command::MenuSelect);
    assert_eq!(next.menu_depth, MenuDepth::Main);
    assert_eq!(next.selected_item, 0);
    assert!(next.menu_open);
}

#[test]
fn full_navigation_open_mood_set_happy_close() {
    let s0 = OledState::new(); // face=Neutral, menu closed

    // Long press → open menu
    let s1 = handle_command(s0, &Command::MenuSelect);
    assert!(s1.menu_open);
    assert_eq!(s1.menu_depth, MenuDepth::Main);

    // Click → Mood (item 1)
    let s2 = handle_command(s1, &Command::MenuNextItem);
    assert_eq!(s2.selected_item, 1);

    // Select → enter Mood sub-menu
    let s3 = handle_command(s2, &Command::MenuSelect);
    assert_eq!(s3.menu_depth, MenuDepth::Mood);
    assert_eq!(s3.selected_item, 0);

    // Select Set Happy (item 0)
    let s4 = handle_command(s3, &Command::MenuSelect);
    assert_eq!(s4.face_mood, FaceMood::Happy);
    assert_eq!(s4.menu_depth, MenuDepth::Main);

    // Click × 3 → Exit (item 3)
    let s5 = handle_command(s4, &Command::MenuNextItem);
    let s6 = handle_command(s5, &Command::MenuNextItem);
    let s7 = handle_command(s6, &Command::MenuNextItem);
    assert_eq!(s7.selected_item, 3);

    // Select Exit → menu closes
    let s8 = handle_command(s7, &Command::MenuSelect);
    assert!(!s8.menu_open);
    assert_eq!(s8.face_mood, FaceMood::Happy);
}

#[test]
fn handle_command_chain_of_face_updates() {
    let s0 = OledState::new();
    let s1 = handle_command(s0, &Command::SetFaceExpression(FaceMood::Happy));
    let s2 = handle_command(s1, &Command::SetFaceExpression(FaceMood::Sad));
    let s3 = handle_command(s2, &Command::MoveServo(1, 45)); // no-op
    let s4 = handle_command(s3, &Command::SetFaceExpression(FaceMood::Neutral));
    assert_eq!(s4.face_mood, FaceMood::Neutral);
}

const TICKS_PER_SEC: u64 = 1_000;

fn open_at(menu_depth: MenuDepth, selected_item: u8) -> OledState {
    OledState { menu_open: true, menu_depth, selected_item, ..OledState::new() }
}

#[test]
fn display_timing_constants() {
    assert_eq!(FRAME_PERIOD_MS, 33);
    assert_eq!(MENU_INACTIVITY_SECS, 10);
}

#[test]
fn menu_item_counts() {
    assert_eq!(menu_item_count(MenuDepth::Main), 4);
    assert_eq!(menu_item_count(MenuDepth::Mood), 3);
    assert_eq!(menu_item_count(MenuDepth::Settings), 3);
}

#[test]
fn face_command_is_ignored_while_menu_is_open() {
    let state = open_at(MenuDepth::Main, 2);
    let next = handle_command(state, &Command::SetFaceExpression(FaceMood::Mad));
    assert_eq!(next, state);
}

#[test]
fn stream_video_keeps_the_display() {
    let state = open_at(MenuDepth::Mood, 1);
    assert_eq!(handle_command(state, &Command::StreamVideo(true)), state);
}

#[test]
fn select_beyond_the_items_leaves_the_level() {
    let main = handle_menu_select(open_at(MenuDepth::Main, 200));
    assert_eq!(main, OledState::new());
    let mood = handle_menu_select(open_at(MenuDepth::Mood, 200));
    assert_eq!(mood, open_at(MenuDepth::Main, 0));
    let settings = handle_menu_select(open_at(MenuDepth::Settings, 200));
    assert_eq!(settings, open_at(MenuDepth::Main, 0));
}

#[test]
fn click_beyond_the_items_comes_back_to_the_menu() {
    let next = handle_command(open_at(MenuDepth::Mood, 254), &Command::MenuNextItem);
    assert_eq!(next.selected_item, 0);
    let next = handle_command(open_at(MenuDepth::Main, 5), &Command::MenuNextItem);
    assert_eq!(next.selected_item, 2);
}

#[test]
fn as_many_clicks_as_items_come_full_circle() {
    for depth in [MenuDepth::Main, MenuDepth::Mood, MenuDepth::Settings] {
        let start = open_at(depth, 1);
        let mut state = start;
        for _ in 0..menu_item_count(depth) {
            state = handle_command(state, &Command::MenuNextItem);
        }
        assert_eq!(state, start);
    }
}

#[test]
fn frame_without_command_changes_nothing() {
    let mut task = OledTask::new(5);
    task.frame(None, 6, 7, TICKS_PER_SEC);
    assert_eq!(task, OledTask { state: OledState::new(), last_activity: 5 });
}

#[test]
fn frame_takes_up_the_command() {
    let mut task = OledTask::new(0);
    task.frame(Some(Command::SetFaceExpression(FaceMood::Sad)), 40, 41, TICKS_PER_SEC);
    assert_eq!(task.state.face_mood, FaceMood::Sad);
    assert_eq!(task.last_activity, 0, "a face command is no button activity");
    task.frame(Some(Command::MenuSelect), 50, 51, TICKS_PER_SEC);
    assert!(task.state.menu_open);
    assert_eq!(task.last_activity, 50);
}

#[test]
fn idle_menu_closes_after_ten_seconds_and_keeps_the_face() {
    let mut task = OledTask::new(0);
    task.frame(Some(Command::SetFaceExpression(FaceMood::Mad)), 0, 0, TICKS_PER_SEC);
    task.frame(Some(Command::MenuSelect), 100, 100, TICKS_PER_SEC);
    task.frame(Some(Command::MenuNextItem), 200, 200, TICKS_PER_SEC);
    task.frame(None, 10_200, 10_200, TICKS_PER_SEC);
    assert!(task.state.menu_open, "ten seconds exactly are not too long");
    assert_eq!(task.state.selected_item, 1);
    task.frame(None, 10_201, 10_201, TICKS_PER_SEC);
    assert_eq!(task.state, OledState { face_mood: FaceMood::Mad, ..OledState::new() });
}

#[test]
fn other_commands_do_not_keep_the_menu_open() {
    let mut task = OledTask::new(0);
    task.frame(Some(Command::MenuSelect), 0, 0, TICKS_PER_SEC);
    task.frame(Some(Command::StreamAudio(true)), 9_000, 9_000, TICKS_PER_SEC);
    assert!(task.state.menu_open);
    task.frame(Some(Command::StreamAudio(false)), 10_001, 10_001, TICKS_PER_SEC);
    assert!(!task.state.menu_open);
}

#[test]
fn button_keeps_the_menu_open() {
    let mut task = OledTask::new(0);
    task.frame(Some(Command::MenuSelect), 0, 0, TICKS_PER_SEC);
    task.frame(Some(Command::MenuNextItem), 10_001, 10_001, TICKS_PER_SEC);
    assert!(task.state.menu_open);
    assert_eq!(task.state.selected_item, 1);
}

#[test]
fn posted_face_is_shown() {
    let raw = b"POST /api/command HTTP/1.1\r\n\r\n{\"SetFaceExpression\":\"Sad\"}";
    let mut bus = CommandBus::new();
    bus.try_send(answer(raw).unwrap().command.unwrap()).unwrap();
    let next = handle_command(OledState::new(), &bus.try_receive().unwrap());
    assert_eq!(next, OledState { face_mood: FaceMood::Sad, ..OledState::new() });
}

#[test]
fn menu_does_over_a_run_what_it_does_without_other_commands() {
    let run = [
        (Some(Command::MenuSelect), 0),
        (Some(Command::SetFaceExpression(FaceMood::Mad)), 4_000),
        (Some(Command::MenuNextItem), 5_000),
        (Some(Command::StreamAudio(true)), 14_000),
        (Some(Command::MoveServo(0, 1)), 15_000),
        (Some(Command::StreamVideo(true)), 15_001),
        (Some(Command::SetFaceExpression(FaceMood::Sad)), 15_002),
    ];
    let mut all = OledTask::new(0);
    let mut buttons = OledTask::new(0);
    for (received, now) in run {
        all.frame(received, now, now, TICKS_PER_SEC);
        let from_button = match received {
            Some(Command::MenuSelect) | Some(Command::MenuNextItem) => received,
            _ => None,
        };
        buttons.frame(from_button, now, now, TICKS_PER_SEC);
        assert_eq!(all.state.menu_open, buttons.state.menu_open);
        assert_eq!(all.state.selected_item, buttons.state.selected_item);
        assert_eq!(all.last_activity, buttons.last_activity);
        assert_eq!(all.state.menu_open, now <= 15_000);
    }
    assert_eq!(all.state.face_mood, FaceMood::Sad);
}
