//! The command line: its arguments, and what a parsed command line asks for.

use vstd::prelude::*;

use crate::convert::ConvertOptions;
use crate::filters::{ColorFilter, Dither};

verus! {

/// Default frame rate.
pub const DEFAULT_FPS: u32 = 15;

/// Default width in pixels.
pub const DEFAULT_WIDTH: u32 = 1080;

/// Default largest number of palette colours.
pub const DEFAULT_COLORS: u32 = 256;

/// Default dithering method.
pub const DEFAULT_DITHER: Dither = Dither::Sierra2;

/// Default colour filter: none.
pub const DEFAULT_FILTER: ColorFilter = ColorFilter::Off;

/// Default loop count: endless.
pub const DEFAULT_LOOP: i32 = 0;

/// The parsed command line: an optional subcommand, and the conversion arguments.
pub struct Cli {
    pub command: Option<Command>,
    pub convert: ConvertArgs,
}

/// Subcommands.
pub enum Command {
    /// Starts the interactive terminal UI.
    Tui,
}

/// Conversion arguments.
pub struct ConvertArgs {
    /// Source video.
    pub input: Option<String>,
    /// Frames per second.
    pub fps: u32,
    /// Width in pixels (the height follows).
    pub width: u32,
    /// Start of the segment (`3` or `00:00:03`).
    pub start: Option<String>,
    /// Duration of the segment (`5` or `00:00:05`).
    pub duration: Option<String>,
    /// Largest number of palette colours (2-256).
    pub colors: u32,
    /// Dithering method.
    pub dither: Dither,
    /// Colour filter.
    pub filter: ColorFilter,
    /// Repetitions of the GIF (0 = forever, -1 = none).
    pub loop_count: i32,
    /// Output file (default: the source's name with `.gif`).
    pub output: Option<String>,
}

/// What a command line asks for.
pub enum Plan {
    /// Run the terminal UI.
    Tui,
    /// Convert the given video.
    Convert(String),
    /// Print the help text.
    Help,
}

/// A copy of an optional string.
pub fn clone_opt(o: &Option<String>) -> (r: Option<String>)
    ensures
        r == *o,
{
    match o {
        Some(s) => Some(s.clone()),
        None => None,
    }
}

impl ConvertArgs {
    /// The conversion options these arguments give, field for field.
    pub fn to_options(&self) -> (r: ConvertOptions)
        ensures
            r.fps == self.fps,
            r.width == self.width,
            r.start == self.start,
            r.duration == self.duration,
            r.colors == self.colors,
            r.dither == self.dither,
            r.filter == self.filter,
            r.loop_count == self.loop_count,
            r.output == self.output,
    {
        ConvertOptions {
            fps: self.fps,
            width: self.width,
            start: clone_opt(&self.start),
            duration: clone_opt(&self.duration),
            colors: self.colors,
            dither: self.dither,
            filter: self.filter,
            loop_count: self.loop_count,
            output: clone_opt(&self.output),
        }
    }
}

impl Cli {
    /// What the command line asks for: the `tui` subcommand runs the terminal UI;
    /// otherwise a given input is converted, and without one the help is printed.
    pub fn plan(&self) -> (r: Plan)
        ensures
            match self.command {
                Some(Command::Tui) => r is Tui,
                None => match self.convert.input {
                    Some(i) => r == Plan::Convert(i),
                    None => r is Help,
                },
            },
    {
        match &self.command {
            Some(Command::Tui) => Plan::Tui,
            None => match &self.convert.input {
                Some(i) => Plan::Convert(i.clone()),
                None => Plan::Help,
            },
        }
    }
}

} // verus!
