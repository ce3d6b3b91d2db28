use firework::ps2::Ps2Event;
use firework::shell::{Shell, ShellCommand, ShellStep};

fn enter(sh: &mut Shell, text: &str) -> ShellStep {
    for c in text.chars() {
        assert_eq!(sh.step(Ps2Event::Pressed(c)), ShellStep::Typed(c));
    }
    sh.step(Ps2Event::Pressed('\n'))
}

#[test]
fn words_name_commands() {
    let mut sh = Shell::new();
    assert_eq!(enter(&mut sh, "osdt"), ShellStep::Entered(ShellCommand::PrintTree));
    assert!(sh.line.is_empty());
    assert_eq!(enter(&mut sh, "msgparent"), ShellStep::Entered(ShellCommand::MessageParent));
    assert_eq!(enter(&mut sh, "accessinvalid"), ShellStep::Entered(ShellCommand::AccessInvalid));
}

#[test]
fn message_command_parses_its_numbers() {
    let mut sh = Shell::new();
    assert_eq!(enter(&mut sh, "msg 5 258"), ShellStep::Entered(ShellCommand::Message { pid: 5, data: 258 }));
    assert_eq!(
        enter(&mut sh, "  msg  3   4 extra"),
        ShellStep::Entered(ShellCommand::Message { pid: 3, data: 4 })
    );
    assert_eq!(enter(&mut sh, "msg +7 1"), ShellStep::Entered(ShellCommand::Message { pid: 7, data: 1 }));
    assert_eq!(enter(&mut sh, "msg"), ShellStep::Entered(ShellCommand::ExpectedPid));
    assert_eq!(enter(&mut sh, "msg x 1"), ShellStep::Entered(ShellCommand::ExpectedPid));
    assert_eq!(enter(&mut sh, "msg 5"), ShellStep::Entered(ShellCommand::ExpectedData));
    assert_eq!(
        enter(&mut sh, "msg 5 99999999999999999999"),
        ShellStep::Entered(ShellCommand::ExpectedData)
    );
    assert_eq!(
        enter(&mut sh, "msg 5 18446744073709551615"),
        ShellStep::Entered(ShellCommand::Message { pid: 5, data: u64::MAX })
    );
    assert_eq!(enter(&mut sh, "msg 5 +"), ShellStep::Entered(ShellCommand::ExpectedData));
}

#[test]
fn other_lines_are_printed_back() {
    let mut sh = Shell::new();
    assert_eq!(enter(&mut sh, "hello"), ShellStep::Entered(ShellCommand::Echo("hello".chars().collect())));
    assert_eq!(enter(&mut sh, "msgx 1 2"), ShellStep::Entered(ShellCommand::Echo("msgx 1 2".chars().collect())));
    assert_eq!(enter(&mut sh, ""), ShellStep::Entered(ShellCommand::Echo(Vec::new())));
}

#[test]
fn only_presses_count() {
    let mut sh = Shell::new();
    assert_eq!(sh.step(Ps2Event::Released('a')), ShellStep::Ignore);
    assert_eq!(sh.step(Ps2Event::BackSpace), ShellStep::Ignore);
    assert_eq!(sh.step(Ps2Event::Other(0x99)), ShellStep::Ignore);
    assert!(sh.line.is_empty());
}
