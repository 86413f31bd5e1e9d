//! Taking the local terminal over, and leaving it as a shell expects it.

use nix::sys::termios::{cfmakeraw, Termios};
use vstd::prelude::*;

verus! {

/// The settings of a terminal, as the `nix` crate holds them. What is inside is
/// the platform's own.
#[verifier::external_type_specification]
#[verifier::external_body]
pub struct ExTermios(nix::sys::termios::Termios);

/// What `nix::sys::termios::cfmakeraw` makes of the settings of a terminal: the
/// settings of raw mode on the same terminal.
pub uninterp spec fn raw_settings(settings: Termios) -> Termios;

/// Calls `nix::sys::termios::cfmakeraw` on a copy of the settings. Its result
/// depends on nothing but these settings. The documentation promises that input
/// then comes character by character, without echo and without special
/// processing; in which flags that shows, the C library of the platform
/// decides, and it is not stated.
#[verifier::external_body]
fn raw_form(settings: &Termios) -> (raw: Termios)
    ensures
        raw == raw_settings(*settings),
{
    let mut raw = settings.clone();
    cfmakeraw(&mut raw);
    raw
}

/// A terminal that is switched to raw mode and back.
pub struct RawMode {
    original: Termios,
    raw: Termios,
}

/// What is left to do when raw mode ends.
#[derive(Clone, Copy, Debug, PartialEq, Eq, Structural)]
pub enum RestorePhase {
    /// The settings are to be given back.
    Settings,
    /// The modes that a program left active are to be switched off.
    Modes,
    /// The output is to be flushed.
    Flushing,
    /// Nothing.
    Done,
}

/// What is done next when raw mode ends. Whether it succeeds makes no
/// difference to what comes after it.
#[derive(Debug, PartialEq, Eq)]
pub enum RestoreAction<'a> {
    /// Give the terminal these settings.
    Apply(&'a Termios),
    /// Write these bytes to the terminal.
    Write(Vec<u8>),
    /// Flush what was written.
    Flush,
    /// Return.
    Finish,
}

/// What is done next when raw mode ends, as it is told.
#[verifier::ext_equal]
pub enum RestoreStep {
    Apply(Termios),
    Write(Seq<u8>),
    Flush,
    Finish,
}

impl<'a> View for RestoreAction<'a> {
    type V = RestoreStep;

    open spec fn view(&self) -> RestoreStep {
        match self {
            RestoreAction::Apply(settings) => RestoreStep::Apply(**settings),
            RestoreAction::Write(bytes) => RestoreStep::Write(bytes@),
            RestoreAction::Flush => RestoreStep::Flush,
            RestoreAction::Finish => RestoreStep::Finish,
        }
    }
}

/// What is done in some phase for a terminal that had the settings `saved`, and
/// what is left then.
pub open spec fn restore_next(saved: Termios, phase: RestorePhase) -> (RestorePhase, RestoreStep) {
    match phase {
        RestorePhase::Settings => (RestorePhase::Modes, RestoreStep::Apply(saved)),
        RestorePhase::Modes => (RestorePhase::Flushing, RestoreStep::Write(terminal_reset())),
        RestorePhase::Flushing => (RestorePhase::Done, RestoreStep::Flush),
        RestorePhase::Done => (RestorePhase::Done, RestoreStep::Finish),
    }
}

/// The first `n` things that are done from some phase on.
pub open spec fn restore_steps(saved: Termios, phase: RestorePhase, n: nat) -> Seq<RestoreStep>
    decreases n,
{
    if n == 0 {
        Seq::empty()
    } else {
        let (next, step) = restore_next(saved, phase);
        seq![step] + restore_steps(saved, next, (n - 1) as nat)
    }
}

impl RawMode {
    /// The settings that the terminal had, and gets back.
    pub closed spec fn saved(self) -> Termios {
        self.original
    }

    /// The settings of raw mode.
    pub closed spec fn entered(self) -> Termios {
        self.raw
    }

    /// A switch between these settings.
    pub fn new(original: Termios, raw: Termios) -> (mode: Self)
        ensures
            mode.saved() == original,
            mode.entered() == raw,
    {
        RawMode { original, raw }
    }

    /// Saves the current tty configuration and finds the one of raw mode.
    pub fn enable(original: Termios) -> (mode: Self)
        ensures
            mode.saved() == original,
            mode.entered() == raw_settings(original),
    {
        let raw: Termios = raw_form(&original);
        RawMode::new(original, raw)
    }

    /// The settings to switch to.
    pub fn raw(&self) -> (settings: &Termios)
        ensures
            *settings == self.entered(),
    {
        &self.raw
    }

    /// The settings to switch back to.
    pub fn original(&self) -> (settings: &Termios)
        ensures
            *settings == self.saved(),
    {
        &self.original
    }

    /// Restores tty settings and disables terminal modes a detached program may
    /// leave active, one thing after the other.
    pub fn restore(&self, phase: RestorePhase) -> (step: (RestorePhase, RestoreAction<'_>))
        ensures
            (step.0, step.1@) == restore_next(self.saved(), phase),
    {
        match phase {
            RestorePhase::Settings => (
                RestorePhase::Modes,
                RestoreAction::Apply(&self.original),
            ),
            RestorePhase::Modes => (
                RestorePhase::Flushing,
                RestoreAction::Write(restore_terminal_modes()),
            ),
            RestorePhase::Flushing => (RestorePhase::Done, RestoreAction::Flush),
            RestorePhase::Done => (RestorePhase::Done, RestoreAction::Finish),
        }
    }
}

/// When raw mode ends, the terminal first gets back the settings that it had,
/// and then the bytes that switch off what a program left active, which are
/// flushed; after that nothing is done.
pub proof fn law_settings_come_back_first(mode: RawMode, n: nat)
    ensures
        restore_steps(mode.saved(), RestorePhase::Settings, n + 3) == seq![
            RestoreStep::Apply(mode.saved()),
            RestoreStep::Write(terminal_reset()),
            RestoreStep::Flush,
        ] + Seq::new(n, |i: int| RestoreStep::Finish),
{
    let saved: Termios = mode.saved();
    reveal_with_fuel(restore_steps, 4);
    lemma_nothing_is_done_after(saved, n);
    assert(restore_steps(saved, RestorePhase::Settings, n + 3) =~= seq![
        RestoreStep::Apply(saved),
        RestoreStep::Write(terminal_reset()),
        RestoreStep::Flush,
    ] + Seq::new(n, |i: int| RestoreStep::Finish));
}

proof fn lemma_nothing_is_done_after(saved: Termios, n: nat)
    ensures
        restore_steps(saved, RestorePhase::Done, n) == Seq::new(n, |i: int| RestoreStep::Finish),
    decreases n,
{
    if n > 0 {
        lemma_nothing_is_done_after(saved, (n - 1) as nat);
    }
    assert(restore_steps(saved, RestorePhase::Done, n) =~= Seq::new(
        n,
        |i: int| RestoreStep::Finish,
    ));
}

/// The control sequence that starts a private mode: `ESC [ ?`.
pub open spec fn private_mode() -> Seq<u8> {
    seq![0x1bu8, 0x5bu8, 0x3fu8]
}

/// Turns off the private mode with these digits: `ESC [ ? digits l`.
pub open spec fn mode_off(digits: Seq<u8>) -> Seq<u8> {
    private_mode() + digits + seq![0x6cu8]
}

/// Turns on the private mode with these digits: `ESC [ ? digits h`.
pub open spec fn mode_on(digits: Seq<u8>) -> Seq<u8> {
    private_mode() + digits + seq![0x68u8]
}

/// The bytes that undo what a program may have left behind: mouse reporting
/// (1000, 1002, 1003, 1006), focus reporting (1004), bracketed paste (2004),
/// application cursor keys (1) and keypad, colours, and a hidden cursor (25).
pub open spec fn terminal_reset() -> Seq<u8> {
    mode_off(seq![0x31u8, 0x30u8, 0x30u8, 0x30u8]) + mode_off(
        seq![0x31u8, 0x30u8, 0x30u8, 0x32u8],
    ) + mode_off(seq![0x31u8, 0x30u8, 0x30u8, 0x33u8]) + mode_off(
        seq![0x31u8, 0x30u8, 0x30u8, 0x34u8],
    ) + mode_off(seq![0x31u8, 0x30u8, 0x30u8, 0x36u8]) + mode_off(
        seq![0x32u8, 0x30u8, 0x30u8, 0x34u8],
    ) + mode_off(seq![0x31u8]) + seq![0x1bu8, 0x3eu8] + seq![0x1bu8, 0x5bu8, 0x30u8, 0x6du8]
        + mode_on(seq![0x32u8, 0x35u8])
}

/// Appends `ESC [ ?`, four digits and the final byte.
fn push_mode(bytes: &mut Vec<u8>, a: u8, b: u8, c: u8, d: u8)
    ensures
        final(bytes)@ == old(bytes)@ + mode_off(seq![a, b, c, d]),
{
    bytes.push(0x1b);
    bytes.push(0x5b);
    bytes.push(0x3f);
    bytes.push(a);
    bytes.push(b);
    bytes.push(c);
    bytes.push(d);
    bytes.push(0x6c);
    assert(bytes@ =~= old(bytes)@ + mode_off(seq![a, b, c, d]));
}

/// The bytes that disable terminal modes a detached program may leave active.
pub fn restore_terminal_modes() -> (bytes: Vec<u8>)
    ensures
        bytes@ == terminal_reset(),
{
    let mut bytes: Vec<u8> = Vec::new();
    push_mode(&mut bytes, 0x31, 0x30, 0x30, 0x30);
    push_mode(&mut bytes, 0x31, 0x30, 0x30, 0x32);
    push_mode(&mut bytes, 0x31, 0x30, 0x30, 0x33);
    push_mode(&mut bytes, 0x31, 0x30, 0x30, 0x34);
    push_mode(&mut bytes, 0x31, 0x30, 0x30, 0x36);
    push_mode(&mut bytes, 0x32, 0x30, 0x30, 0x34);
    let ghost modes: Seq<u8> = bytes@;
    bytes.push(0x1b);
    bytes.push(0x5b);
    bytes.push(0x3f);
    bytes.push(0x31);
    bytes.push(0x6c);
    bytes.push(0x1b);
    bytes.push(0x3e);
    bytes.push(0x1b);
    bytes.push(0x5b);
    bytes.push(0x30);
    bytes.push(0x6d);
    bytes.push(0x1b);
    bytes.push(0x5b);
    bytes.push(0x3f);
    bytes.push(0x32);
    bytes.push(0x35);
    bytes.push(0x68);
    assert(bytes@ =~= modes + mode_off(seq![0x31u8]) + seq![0x1bu8, 0x3eu8] + seq![
        0x1bu8,
        0x5bu8,
        0x30u8,
        0x6du8,
    ] + mode_on(seq![0x32u8, 0x35u8]));
    assert(bytes@ =~= terminal_reset());
    bytes
}

/// When raw mode ends, each thing is done in its phase and leads to the next, and
/// the settings that the terminal gets back are those that it had, whatever they
/// were.
pub proof fn law_each_restoring_step_has_its_phase(
    saved: Termios,
    phase: RestorePhase,
    settings: Termios,
    bytes: Seq<u8>,
)
    ensures
        ({
            let (next, step) = restore_next(saved, phase);
            &&& step == RestoreStep::Apply(settings) <==> phase == RestorePhase::Settings
                && settings == saved
            &&& step == RestoreStep::Write(bytes) <==> phase == RestorePhase::Modes && bytes
                == terminal_reset()
            &&& step == RestoreStep::Flush <==> phase == RestorePhase::Flushing
            &&& step == RestoreStep::Finish <==> phase == RestorePhase::Done
            &&& step is Apply ==> next == RestorePhase::Modes
            &&& step is Write ==> next == RestorePhase::Flushing
            &&& step is Flush ==> next == RestorePhase::Done
            &&& step is Finish ==> next == RestorePhase::Done
        }),
{
}

/// An action is told as it is: with the settings that it gives and the bytes that
/// it writes.
pub proof fn law_restoring_action_is_told_as_it_is(settings: Termios, bytes: Vec<u8>)
    ensures
        RestoreAction::Apply(&settings)@ == RestoreStep::Apply(settings),
        RestoreAction::Write(bytes)@ == RestoreStep::Write(bytes@),
        RestoreAction::Flush@ == RestoreStep::Flush,
        RestoreAction::Finish@ == RestoreStep::Finish,
{
}

/// The sequence that switches a private mode off starts with escape, bracket and
/// question mark, holds the digits of the mode, and ends in a small `l`; the one
/// that switches it on ends in a small `h`.
pub proof fn law_mode_sequence_holds_its_digits(digits: Seq<u8>)
    ensures
        mode_off(digits).len() == digits.len() + 4,
        mode_off(digits).take(3) == seq![0x1bu8, 0x5bu8, 0x3fu8],
        mode_off(digits).subrange(3, 3int + digits.len()) == digits,
        mode_off(digits).last() as char == 'l',
        mode_on(digits).drop_last() == mode_off(digits).drop_last(),
        mode_on(digits).last() as char == 'h',
{
    assert(mode_off(digits).take(3) =~= seq![0x1bu8, 0x5bu8, 0x3fu8]);
    assert(mode_off(digits).subrange(3, 3int + digits.len()) =~= digits);
    assert(mode_on(digits).drop_last() =~= mode_off(digits).drop_last());
}

} // verus!
