use herdr_gui::args::{desktop_command, parse_gui_args, parse_u16, str_eq, DesktopCommand, GuiCommand};

fn args(list: &[&str]) -> Vec<String> {
    list.iter().map(|s| s.to_string()).collect()
}

#[test]
fn parse_u16_matches_std() {
    for s in ["0", "42", "+7", "65535", "65536", "", "+", "-1", "12a", "007", "99999999999"] {
        assert_eq!(parse_u16(s), s.parse::<u16>().ok(), "input {s:?}");
    }
}

#[test]
fn gui_defaults() {
    match parse_gui_args(&[]).unwrap() {
        GuiCommand::Run(a) => {
            assert_eq!((a.cols, a.rows, a.mirror), (120, 34, false));
            assert!(a.snapshot.is_none());
        }
        GuiCommand::Help => panic!("unexpected help"),
    }
}

#[test]
fn gui_options() {
    match parse_gui_args(&args(&["--snapshot", "out.png", "--cols", "80", "--rows", "+24", "--mirror"])).unwrap() {
        GuiCommand::Run(a) => {
            assert_eq!(a.snapshot.as_deref(), Some("out.png"));
            assert_eq!((a.cols, a.rows, a.mirror), (80, 24, true));
        }
        GuiCommand::Help => panic!("unexpected help"),
    }
    assert!(matches!(parse_gui_args(&args(&["--mirror", "-h", "--bogus"])), Ok(GuiCommand::Help)));
}

#[test]
fn gui_errors() {
    assert_eq!(
        parse_gui_args(&args(&["--snapshot"])).unwrap_err(),
        "usage: herdr gui --snapshot <path.png> [--cols N --rows N]"
    );
    assert_eq!(parse_gui_args(&args(&["--cols"])).unwrap_err(), "--cols needs a value");
    assert_eq!(parse_gui_args(&args(&["--cols", "x"])).unwrap_err(), "--cols must be a number");
    assert_eq!(parse_gui_args(&args(&["--rows", "70000"])).unwrap_err(), "--rows must be a number");
    assert_eq!(parse_gui_args(&args(&["--rows"])).unwrap_err(), "--rows needs a value");
    assert_eq!(parse_gui_args(&args(&["--wat"])).unwrap_err(), "unknown gui option: --wat");
}

#[test]
fn desktop_dispatch() {
    assert_eq!(desktop_command(&[]), DesktopCommand::Help(2));
    assert_eq!(desktop_command(&args(&["snapshot"])), DesktopCommand::Snapshot);
    assert_eq!(desktop_command(&args(&["snapshot", "extra"])), DesktopCommand::Help(2));
    assert_eq!(desktop_command(&args(&["--help"])), DesktopCommand::Help(0));
    assert_eq!(desktop_command(&args(&["nope"])), DesktopCommand::Help(2));
}

#[test]
fn string_equality() {
    assert!(str_eq("abc", "abc"));
    assert!(!str_eq("abc", "abd"));
    assert!(!str_eq("ab", "abc"));
}
