use std::path::PathBuf;
use std::sync::mpsc::Receiver;

use vstd::prelude::*;

use crate::conductor::{Bank, Conductor};

verus! {

/// A file path, carried through unread.
#[verifier::external_type_specification]
#[verifier::external_body]
pub struct ExPathBuf(std::path::PathBuf);

/// The receiving end of the channel a background decode reports on, carried through unread.
#[verifier::external_type_specification]
#[verifier::external_body]
#[verifier::reject_recursive_types(T)]
pub struct ExReceiver<T>(std::sync::mpsc::Receiver<T>);

/// What the viewer does on its next frame.
#[derive(Copy, Clone, Debug, PartialEq, Eq, Structural)]
pub enum Step {
    /// No file is selected: invite the user to pick or drop one.
    AwaitFile,
    /// A decoded conductor is held: show it.
    Show,
    /// A decode is under way: check whether it has finished.
    Poll,
    /// A file is selected and nothing decodes it yet: start a decode.
    StartParse,
}

/// The viewer's state: the selected file, its decoded conductor once
/// available, and the channel of the decode in flight.
pub struct Main {
    conductor_path: Option<PathBuf>,
    pub conductor: Option<Conductor>,
    conductor_channel: Option<Receiver<Conductor>>,
}

/// The step a viewer takes, given whether a file is selected, a conductor
/// is held and a decode is in flight.
pub open spec fn step_of(has_path: bool, has_conductor: bool, parsing: bool) -> Step {
    if !has_path {
        Step::AwaitFile
    } else if has_conductor {
        Step::Show
    } else if parsing {
        Step::Poll
    } else {
        Step::StartParse
    }
}

impl Main {
    /// The selected file, if any.
    pub closed spec fn path(&self) -> Option<PathBuf> {
        self.conductor_path
    }

    /// The decoded conductor held for the selected file, if any.
    pub closed spec fn held_conductor(&self) -> Option<Conductor> {
        self.conductor
    }

    /// Whether a decode has been started for the selected file.
    pub closed spec fn parsing(&self) -> bool {
        self.conductor_channel is Some
    }

    /// A viewer with no file selected, nothing decoded and no decode running.
    pub fn new() -> (r: Main)
        ensures
            r.path() is None,
            r.held_conductor() is None,
            !r.parsing(),
    {
        Main { conductor_path: None, conductor: None, conductor_channel: None }
    }

    /// Selects a file (or none), dropping the previous conductor and any
    /// decode in flight.
    pub fn set_conductor_path(&mut self, conductor_path: Option<PathBuf>)
        ensures
            final(self).path() == conductor_path,
            final(self).held_conductor() is None,
            !final(self).parsing(),
    {
        self.conductor_path = conductor_path;
        self.conductor = None;
        self.conductor_channel = None;
    }

    /// The selected file, if any.
    pub fn conductor_path(&self) -> (r: Option<&PathBuf>)
        ensures
            r is Some <==> self.path() is Some,
            r matches Some(p) ==> *p == self.path()->0,
    {
        self.conductor_path.as_ref()
    }

    /// The channel of the decode in flight, if one was started.
    pub fn conductor_channel(&self) -> (r: Option<&Receiver<Conductor>>)
        ensures
            r is Some <==> self.parsing(),
    {
        self.conductor_channel.as_ref()
    }

    /// Decides the next frame's step from the current state.
    pub fn next_step(&self) -> (r: Step)
        ensures
            r == step_of(self.path() is Some, self.held_conductor() is Some, self.parsing()),
    {
        if self.conductor_path.is_none() {
            Step::AwaitFile
        } else if self.conductor.is_some() {
            Step::Show
        } else if self.conductor_channel.is_some() {
            Step::Poll
        } else {
            Step::StartParse
        }
    }

    /// Records that a decode of the selected file was started, reporting on `channel`.
    pub fn start_parse(&mut self, channel: Receiver<Conductor>)
        ensures
            final(self).path() == old(self).path(),
            final(self).held_conductor() == old(self).held_conductor(),
            final(self).parsing(),
    {
        self.conductor_channel = Some(channel);
    }

    /// Stores the conductor that the decode in flight produced.
    pub fn finish_parse(&mut self, conductor: Conductor)
        ensures
            final(self).path() == old(self).path(),
            final(self).held_conductor() == Some(conductor),
            final(self).parsing() == old(self).parsing(),
    {
        self.conductor = Some(conductor);
    }
}

/// What a louie swing value means as a note length, when it is a standard one.
pub fn timing_hint(louie_swing: u8) -> (r: &'static str)
    ensures
        louie_swing == 30 ==> r@ == "1/16th note"@,
        louie_swing == 60 ==> r@ == "1/8th note"@,
        louie_swing == 120 ==> r@ == "1/4th note"@,
        louie_swing != 30 && louie_swing != 60 && louie_swing != 120 ==> r@ == "Custom"@,
{
    match louie_swing {
        30 => "1/16th note",
        60 => "1/8th note",
        120 => "1/4th note",
        _ => "Custom",
    }
}

impl Bank {
    /// The bank's name as the viewer shows it.
    pub fn display_name(&self) -> (r: &'static str)
        ensures
            *self == Bank::Pikmin1SFX ==> r@ == "Pikmin 1 SFX"@,
            *self == Bank::WatanabeSFX ==> r@ == "Watanabe SFX"@,
            *self == Bank::TotakaSFX ==> r@ == "Totaka SFX"@,
            *self == Bank::HikinoSFX ==> r@ == "Hikino SFX"@,
            *self == Bank::WakaiInstruments ==> r@ == "Wakai Instruments"@,
            *self == Bank::TotakaInstruments ==> r@ == "Totaka Instruments"@,
    {
        match self {
            Bank::Pikmin1SFX => "Pikmin 1 SFX",
            Bank::WatanabeSFX => "Watanabe SFX",
            Bank::TotakaSFX => "Totaka SFX",
            Bank::HikinoSFX => "Hikino SFX",
            Bank::WakaiInstruments => "Wakai Instruments",
            Bank::TotakaInstruments => "Totaka Instruments",
        }
    }
}

} // verus!
