//! What the command line asks for.

use vstd::prelude::*;

verus! {

/// The buffer size, in frames, where all programs share one latency: a small
/// buffer would drag the others along.
pub const SHARED_BUFFER_SIZE: u32 = 1024;

/// The buffer size, in frames, where every program has its own latency.
pub const OWN_BUFFER_SIZE: u32 = 256;

/// The sample rate in Hz.
pub const SAMPLE_RATE: u32 = 48000;

/// The usual buffer size on a system where programs share one latency or do
/// not.
pub fn default_buffer_size(shared_latency: bool) -> (frames: u32)
    ensures
        frames == (if shared_latency {
            SHARED_BUFFER_SIZE
        } else {
            OWN_BUFFER_SIZE
        }),
{
    if shared_latency {
        SHARED_BUFFER_SIZE
    } else {
        OWN_BUFFER_SIZE
    }
}

/// The command line.
#[derive(Clone, Debug)]
pub struct Cli {
    /// Session file, or a new session.
    pub session: Option<String>,
    /// Audio output device, or the system's usual one.
    pub audio_device: Option<String>,
    /// What the name of a MIDI input must hold, or all inputs.
    pub midi_device: Option<String>,
    pub buffer_size: u32,
    pub sample_rate: u32,
    /// Show incoming MIDI on screen.
    pub debug: bool,
    pub command: Option<Command>,
}

/// A subcommand.
#[derive(Clone, Debug)]
pub enum Command {
    /// List inputs, outputs and plugins.
    Enumerate(EnumerateTarget),
    /// Describe a plugin.
    Describe { plugin: String },
    /// Play a session without the user interface.
    Play { session: Option<String> },
}

/// What to list.
#[derive(Clone, Copy, Debug, PartialEq, Eq, Structural)]
pub enum EnumerateTarget {
    Midi,
    Audio,
    Plugins,
    Builtins,
}

/// What is to be done.
#[derive(Clone, Debug)]
pub enum Task {
    /// Run a session, with or without the user interface.
    Run { session: Option<String>, interface: bool },
    List(EnumerateTarget),
    Describe { plugin: String },
}

/// What a command line asks for. Without a subcommand the session runs with
/// the user interface.
pub open spec fn task_of(cli: Cli) -> Task {
    match cli.command {
        None => Task::Run { session: cli.session, interface: true },
        Some(Command::Enumerate(target)) => Task::List(target),
        Some(Command::Describe { plugin }) => Task::Describe { plugin },
        Some(Command::Play { session }) => Task::Run { session, interface: false },
    }
}

impl Cli {
    /// What is to be done.
    pub fn task(self) -> (task: Task)
        ensures
            task == task_of(self),
    {
        match self.command {
            None => Task::Run { session: self.session, interface: true },
            Some(Command::Enumerate(target)) => Task::List(target),
            Some(Command::Describe { plugin }) => Task::Describe { plugin },
            Some(Command::Play { session }) => Task::Run { session, interface: false },
        }
    }
}

} // verus!
