use super::args::{Cli, Command, ConvertOptions, PlayCommand, ProbeCommand};
use vstd::prelude::*;

verus! {

/// The runner a command line goes to, with its options.
#[derive(Debug, Clone)]
pub enum Task {
    Probe(ProbeCommand),
    Play(PlayCommand),
    Convert(ConvertOptions),
}

/// Dispatches a command line to its runner: `probe`, `play` or a conversion.
pub fn runner(cli: Cli) -> (t: Task)
    ensures
        match cli {
            Cli::Command(Command::Probe(o)) => t == Task::Probe(o),
            Cli::Command(Command::Play(o)) => t == Task::Play(o),
            Cli::Convert(o) => t == Task::Convert(o),
        },
{
    match cli {
        Cli::Command(command) => match command {
            Command::Probe(options) => Task::Probe(options),
            Command::Play(options) => Task::Play(options),
        },
        Cli::Convert(options) => Task::Convert(options),
    }
}

} // verus!
