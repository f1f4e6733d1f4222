//! Where to read the shared library from and where to put what is found.

use vstd::prelude::*;

use crate::errors::BRError;

verus! {

/// The two paths that a run needs.
#[derive(Clone, Debug)]
pub struct Config {
    pub input_path: String,
    pub output_dir: String,
}

/// The mathematical value of a [`Config`].
pub struct ConfigView {
    pub input_path: Seq<char>,
    pub output_dir: Seq<char>,
}

impl View for Config {
    type V = ConfigView;

    open spec fn view(&self) -> ConfigView {
        ConfigView { input_path: self.input_path@, output_dir: self.output_dir@ }
    }
}

impl Default for Config {
    fn default() -> (r: Config)
        ensures
            r@ == (ConfigView { input_path: Seq::empty(), output_dir: Seq::empty() }),
    {
        Config { input_path: String::new(), output_dir: String::new() }
    }
}

/// What the error says when no input file was given.
pub open spec fn input_missing_message() -> Seq<char> {
    "Input file required"@
}

/// What the error says when no output directory was given.
pub open spec fn output_missing_message() -> Seq<char> {
    "Output directory required"@
}

impl Config {
    /// Makes a configuration of the values given on the command line.
    ///
    /// Both are needed; where both are missing it is the input file that is
    /// reported.
    pub fn from_arguments(input_file: Option<String>, output_dir: Option<String>) -> (r: Result<
        Config,
        BRError,
    >)
        ensures
            match (input_file, output_dir) {
                (Some(input), Some(output)) => r matches Ok(config) && config@ == (ConfigView {
                    input_path: input@,
                    output_dir: output@,
                }),
                (None, _) => r matches Err(BRError::UsageError(message)) && message@
                    == input_missing_message(),
                (Some(_), None) => r matches Err(BRError::UsageError(message)) && message@
                    == output_missing_message(),
            },
    {
        let input_path = match input_file {
            Some(path) => path,
            None => {
                return Err(BRError::UsageError("Input file required"));
            },
        };
        let output_dir = match output_dir {
            Some(path) => path,
            None => {
                return Err(BRError::UsageError("Output directory required"));
            },
        };
        Ok(Config { input_path, output_dir })
    }
}

} // verus!
