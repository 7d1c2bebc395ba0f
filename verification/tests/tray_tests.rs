use busyflag::config::Config;
use busyflag::manager::{Forced, Manager, State, TestCmd};
use busyflag::tray::{
    current_force_choice, force_options, icon_colour, menu_command, quick_label, MenuCommand, MenuEffect,
};

#[test]
fn quick_label_variants() {
    assert_eq!(quick_label(0), "Force busy");
    assert_eq!(quick_label(30), "Force busy (30 min)");
    assert_eq!(quick_label(60), "Force busy (1 h)");
    assert_eq!(quick_label(90), "Force busy (90 min)");
    assert_eq!(quick_label(120), "Force busy (2 h)");
}

#[test]
fn force_options_in_menu_order() {
    assert_eq!(force_options(), vec![5, 15, 30, 60, 120, 0]);
}

#[test]
fn force_choice_is_the_option_the_timer_started_with() {
    let mut m = Manager::start(Config::default());
    assert_eq!(current_force_choice(&m, 0), None);
    m.set_forced_minutes(Some(0), 0);
    assert_eq!(current_force_choice(&m, 0), Some(0));
    m.set_forced_minutes(Some(30), 0);
    assert_eq!(current_force_choice(&m, 0), Some(30));
    // 20 minutes into a 30 minute force, 30 is still the ticked option.
    assert_eq!(current_force_choice(&m, 20 * 60_000), Some(30));
    m.set_forced_minutes(Some(15), 0);
    assert_eq!(current_force_choice(&m, 360_000), Some(15));
    // durations that are not on the menu tick nothing
    m.set_forced_minutes(Some(200), 0);
    assert_eq!(current_force_choice(&m, 0), None);
    m.set_forced_minutes(Some(45), 0);
    assert_eq!(current_force_choice(&m, 0), None);
}

#[test]
fn clicking_running_option_late_still_clears() {
    let mut m = Manager::start(Config::default());
    m.on_menu(MenuCommand::ForceFor(30), 0);
    // 20 minutes later, 10 minutes left: clicking "30 minutes" clears.
    m.on_menu(MenuCommand::ForceFor(30), 20 * 60_000);
    assert_eq!(m.forced(), Forced::Off);
    m.on_menu(MenuCommand::ForceFor(0), 0);
    m.on_menu(MenuCommand::ForceFor(30), 5);
    assert_eq!(m.forced(), Forced::Until(5 + 30 * 60_000, 30));
    assert_eq!(m.forced_minutes_left(5), Some(30));
}

#[test]
fn menu_ids_parse() {
    assert!(matches!(menu_command("pause"), MenuCommand::TogglePause));
    assert!(matches!(menu_command("force_clear"), MenuCommand::ClearForce));
    assert!(matches!(menu_command("force_quick"), MenuCommand::QuickForce));
    assert!(matches!(menu_command("force_15"), MenuCommand::ForceFor(15)));
    assert!(matches!(menu_command("force_0"), MenuCommand::ForceFor(0)));
    assert!(matches!(menu_command("force_x"), MenuCommand::Unknown));
    assert!(matches!(menu_command("camera"), MenuCommand::ToggleCamera));
    assert!(matches!(menu_command("test_red"), MenuCommand::Test(TestCmd::Colour([255, 0, 0]))));
    assert!(matches!(menu_command("test_green"), MenuCommand::Test(TestCmd::Colour([0, 255, 0]))));
    assert!(matches!(menu_command("test_blue"), MenuCommand::Test(TestCmd::Colour([0, 0, 255]))));
    assert!(matches!(menu_command("test_blink"), MenuCommand::Test(TestCmd::Strobe([255, 255, 0]))));
    assert!(matches!(menu_command("test_off"), MenuCommand::Test(TestCmd::Off)));
    assert!(matches!(menu_command("settings"), MenuCommand::Settings));
    assert!(matches!(menu_command("quit"), MenuCommand::Quit));
    assert!(matches!(menu_command("status"), MenuCommand::Unknown));
}

#[test]
fn quick_force_toggles_default_duration() {
    let mut m = Manager::start(Config::default());
    assert_eq!(m.on_menu(MenuCommand::QuickForce, 0), MenuEffect::Done);
    assert_eq!(m.forced(), Forced::Until(30 * 60_000, 30));
    m.on_menu(MenuCommand::QuickForce, 1_000);
    assert_eq!(m.forced(), Forced::Off);
}

#[test]
fn clicking_active_force_option_turns_it_off() {
    let mut m = Manager::start(Config::default());
    m.on_menu(MenuCommand::ForceFor(15), 0);
    assert_eq!(m.forced(), Forced::Until(15 * 60_000, 15));
    m.on_menu(MenuCommand::ForceFor(15), 1_000);
    assert_eq!(m.forced(), Forced::Off);
    m.on_menu(MenuCommand::ForceFor(0), 0);
    assert_eq!(m.forced(), Forced::Indefinite);
    m.on_menu(MenuCommand::ForceFor(5), 0);
    assert_eq!(m.forced(), Forced::Until(5 * 60_000, 5));
    m.on_menu(MenuCommand::ForceFor(0), 0);
    assert_eq!(m.forced(), Forced::Indefinite);
    m.on_menu(MenuCommand::ForceFor(0), 0);
    assert_eq!(m.forced(), Forced::Off);
    m.on_menu(MenuCommand::ForceFor(5), 0);
    m.on_menu(MenuCommand::ClearForce, 0);
    assert_eq!(m.forced(), Forced::Off);
}

#[test]
fn menu_effects() {
    let mut m = Manager::start(Config::default());
    assert_eq!(m.on_menu(MenuCommand::TogglePause, 0), MenuEffect::Done);
    assert!(m.is_paused());
    m.on_menu(MenuCommand::TogglePause, 0);
    assert!(!m.is_paused());
    assert_eq!(m.on_menu(MenuCommand::ToggleCamera, 0), MenuEffect::SaveConfig);
    assert!(m.config().use_camera);
    assert_eq!(m.on_menu(MenuCommand::Test(TestCmd::Off), 0), MenuEffect::Done);
    assert!(matches!(m.take_test(), Some(TestCmd::Off)));
    assert_eq!(m.on_menu(MenuCommand::Settings, 0), MenuEffect::ShowSettings);
    assert_eq!(m.on_menu(MenuCommand::Unknown, 0), MenuEffect::Done);
    assert_eq!(m.on_menu(MenuCommand::Quit, 0), MenuEffect::Exit);
    assert!(m.quitting);
}

#[test]
fn very_long_force_is_accepted() {
    let mut m = Manager::start(Config::default());
    let now = u64::MAX - 5;
    m.on_menu(MenuCommand::ForceFor(1_000_000_000_000_000), now);
    assert_eq!(m.forced(), Forced::Until(now as u128 + 60_000_000_000_000_000_000, 1_000_000_000_000_000));
    assert_eq!(m.forced_minutes_left(now), Some(1_000_000_000_000_000));
    m.set_forced_minutes(Some(u64::MAX), now);
    assert_eq!(m.forced_minutes_left(now), Some(u64::MAX));
    m.expire_forced(u64::MAX);
    assert!(matches!(m.forced(), Forced::Until(_, _)));
}

#[test]
fn tray_dot_colours() {
    assert_eq!(icon_colour(State::Free), [52, 199, 89]);
    assert_eq!(icon_colour(State::Busy), [255, 59, 48]);
    assert_eq!(icon_colour(State::ForcedBusy), [255, 59, 48]);
    assert_eq!(icon_colour(State::Locked), [255, 170, 0]);
    assert_eq!(icon_colour(State::Paused), [142, 142, 147]);
}
