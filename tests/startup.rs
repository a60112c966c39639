use lcd_greeting::display::{
    greeting_commands, Command, Progress, Rgb, Startup, LCD_ADDRESS, RGB_ADDRESS,
};
use lcd_greeting::scan::{function_set_command, probe_payload, Scanner};

/// Scans a simulated bus on which exactly the addresses in `present` acknowledge.
fn scan_bus(present: &[u8]) -> Vec<u8> {
    let mut scanner = Scanner::new();
    while let Some(addr) = scanner.next_address() {
        scanner.record(present.contains(&addr));
    }
    assert!(scanner.is_complete());
    scanner.found().clone()
}

/// Whether the simulated bus acknowledges every write `c` makes.
fn acked_on(present: &[u8], c: &Command) -> bool {
    match c {
        Command::Init { lcd_address, rgb_address } => {
            present.contains(lcd_address) && present.contains(rgb_address)
        }
        Command::SetRgb(_) => present.contains(&RGB_ADDRESS),
        _ => present.contains(&LCD_ADDRESS),
    }
}

/// Runs the greeting session against the simulated bus.
fn bring_up(present: &[u8]) -> Startup {
    let mut session = Startup::greeting();
    loop {
        let ok = match session.next_command() {
            Some(c) => acked_on(present, c),
            None => break,
        };
        session.report(ok);
    }
    session
}

#[test]
fn probe_payload_is_control_byte_then_function_set() {
    assert_eq!(function_set_command(), 0x28);
    assert_eq!(probe_payload(), [0x80, 0x28]);
}

#[test]
fn scanner_walks_every_address_in_order() {
    let mut scanner = Scanner::new();
    assert!(!scanner.is_complete());
    for expected in 0..=255u8 {
        assert_eq!(scanner.next_address(), Some(expected));
        scanner.record(false);
    }
    assert_eq!(scanner.next_address(), None);
    assert!(scanner.is_complete());
    assert!(scanner.found().is_empty());
}

#[test]
fn scan_leaves_out_addresses_that_did_not_acknowledge() {
    let found = scan_bus(&[0x10, 0x20]);
    assert_eq!(found, vec![0x10, 0x20]);
    assert!(!found.contains(&0x11));
    assert!(!found.contains(&0x00));
}

#[test]
fn scan_lists_addresses_ascending_without_duplicates() {
    let found = scan_bus(&[0xFF, 0x00, 0x80, 0x00]);
    assert_eq!(found, vec![0x00, 0x80, 0xFF]);
    assert!(found.windows(2).all(|w| w[0] < w[1]));
}

#[test]
fn scan_covers_full_eight_bit_range() {
    let all: Vec<u8> = (0..=255u8).collect();
    assert_eq!(scan_bus(&all), all);
}

#[test]
fn greeting_commands_are_in_order() {
    let cmds = greeting_commands();
    assert_eq!(cmds.len(), 5);
    assert!(matches!(cmds[0], Command::Init { lcd_address: 0x3E, rgb_address: 0x60 }));
    assert!(matches!(cmds[1], Command::SetRgb(Rgb { r: 255, g: 255, b: 255 })));
    assert!(matches!(cmds[2], Command::SetCursor(true)));
    match &cmds[3] {
        Command::WriteText(t) => assert_eq!(t, "Hello, world!"),
        _ => panic!("fourth command should write the greeting"),
    }
    assert!(matches!(cmds[4], Command::SetBlink(true)));
}

#[test]
fn empty_bus_finds_nothing_and_display_init_fails() {
    let found = scan_bus(&[]);
    assert!(found.is_empty());
    let session = bring_up(&[]);
    assert_eq!(session.progress(), Progress::Failed { step: 0 });
    assert!(session.panel().is_none());
    assert!(session.next_command().is_none());
}

#[test]
fn display_and_backlight_present_shows_greeting() {
    let found = scan_bus(&[RGB_ADDRESS, LCD_ADDRESS]);
    assert_eq!(found, vec![0x3E, 0x60]);
    let session = bring_up(&[LCD_ADDRESS, RGB_ADDRESS]);
    assert_eq!(session.progress(), Progress::Done);
    let panel = session.panel().as_ref().expect("display initialised");
    assert_eq!(panel.lcd_address, 0x3E);
    assert_eq!(panel.rgb_address, 0x60);
    assert_eq!(panel.backlight, Some(Rgb { r: 255, g: 255, b: 255 }));
    assert!(panel.cursor);
    assert!(panel.blink);
    assert_eq!(panel.text, "Hello, world!");
}

#[test]
fn failure_stops_the_session_where_it_happened() {
    let mut session = Startup::greeting();
    session.report(true);
    session.report(true);
    session.report(true);
    assert_eq!(session.progress(), Progress::Pending);
    assert!(matches!(session.next_command(), Some(Command::WriteText(_))));
    session.report(false);
    assert_eq!(session.progress(), Progress::Failed { step: 3 });
    assert!(session.next_command().is_none());
    let panel = session.panel().as_ref().expect("display initialised");
    assert_eq!(panel.backlight, Some(Rgb { r: 255, g: 255, b: 255 }));
    assert!(panel.cursor);
    assert!(!panel.blink);
    assert_eq!(panel.text, "");
}

#[test]
fn commands_before_init_leave_display_uninitialised() {
    let mut session = Startup::new(vec![
        Command::SetRgb(Rgb { r: 1, g: 2, b: 3 }),
        Command::Init { lcd_address: 0x3E, rgb_address: 0x60 },
    ]);
    session.report(true);
    assert!(session.panel().is_none());
    assert_eq!(session.progress(), Progress::Pending);
    session.report(true);
    assert_eq!(session.progress(), Progress::Done);
    let panel = session.panel().as_ref().expect("display initialised");
    assert_eq!(panel.backlight, None);
    assert!(!panel.cursor);
}

#[test]
fn text_writes_append_and_init_clears() {
    let mut session = Startup::new(vec![
        Command::Init { lcd_address: 0x27, rgb_address: 0x62 },
        Command::WriteText(String::from("ab")),
        Command::WriteText(String::from("cd")),
        Command::SetCursor(true),
        Command::SetRgb(Rgb { r: 0, g: 128, b: 255 }),
    ]);
    for _ in 0..5 {
        session.report(true);
    }
    let panel = session.panel().as_ref().expect("display initialised");
    assert_eq!(panel.lcd_address, 0x27);
    assert_eq!(panel.rgb_address, 0x62);
    assert_eq!(panel.text, "abcd");
    assert_eq!(panel.backlight, Some(Rgb { r: 0, g: 128, b: 255 }));
    assert!(panel.cursor);

    let mut again = Startup::new(vec![
        Command::Init { lcd_address: 0x3E, rgb_address: 0x60 },
        Command::WriteText(String::from("x")),
        Command::SetBlink(true),
        Command::Init { lcd_address: 0x3E, rgb_address: 0x60 },
    ]);
    for _ in 0..4 {
        again.report(true);
    }
    let panel = again.panel().as_ref().expect("display initialised");
    assert_eq!(panel.text, "");
    assert!(!panel.blink);
}

#[test]
fn empty_script_is_done_at_once() {
    let session = Startup::new(Vec::new());
    assert_eq!(session.progress(), Progress::Done);
    assert!(session.next_command().is_none());
    assert!(session.panel().is_none());
}
