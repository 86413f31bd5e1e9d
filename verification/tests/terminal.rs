use dtch::terminal::{restore_terminal_modes, RawMode, RestoreAction, RestorePhase};
use nix::sys::termios::{ControlFlags, LocalFlags, OutputFlags, Termios};

/// The settings of an ordinary terminal.
fn cooked() -> Termios {
    Termios::from(libc::termios {
        c_iflag: libc::ICRNL | libc::IXON,
        c_oflag: libc::OPOST | libc::ONLCR,
        c_cflag: libc::CS8 | libc::CREAD,
        c_lflag: libc::ICANON | libc::ECHO | libc::ISIG,
        c_line: 0,
        c_cc: [0; 32],
        c_ispeed: libc::B38400,
        c_ospeed: libc::B38400,
    })
}

#[test]
fn raw_mode_gives_the_settings_back() {
    let mode = RawMode::enable(cooked());
    assert_eq!(mode.original(), &cooked());
    assert_ne!(mode.raw(), mode.original());
}

#[test]
fn raw_mode_has_no_echo_and_no_lines() {
    let mode = RawMode::enable(cooked());
    let raw = mode.raw();
    assert!(!raw.local_flags.contains(LocalFlags::ECHO));
    assert!(!raw.local_flags.contains(LocalFlags::ICANON));
    assert!(!raw.output_flags.contains(OutputFlags::OPOST));
    assert!(raw.control_flags.contains(ControlFlags::CREAD));
}

#[test]
fn terminal_modes_are_restored() {
    assert_eq!(
        restore_terminal_modes(),
        b"\x1b[?1000l\x1b[?1002l\x1b[?1003l\x1b[?1004l\x1b[?1006l\x1b[?2004l\x1b[?1l\x1b>\x1b[0m\x1b[?25h"
            .to_vec()
    );
}

#[test]
fn settings_come_back_before_the_modes() {
    let mode = RawMode::enable(cooked());
    let saved = cooked();
    let mut phase = RestorePhase::Settings;
    for expected in [
        RestoreAction::Apply(&saved),
        RestoreAction::Write(restore_terminal_modes()),
        RestoreAction::Flush,
        RestoreAction::Finish,
        RestoreAction::Finish,
    ] {
        let (next, action) = mode.restore(phase);
        assert_eq!(action, expected);
        phase = next;
    }
    assert_eq!(phase, RestorePhase::Done);
}

#[test]
fn mode_switches_between_its_settings() {
    let mut other = cooked();
    other.local_flags.remove(LocalFlags::ECHO);
    let mode = RawMode::new(cooked(), other.clone());
    assert_eq!(mode.original(), &cooked());
    assert_eq!(mode.raw(), &other);
}
