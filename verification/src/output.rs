//! How results are rendered: a JSON envelope for machines, plain text for
//! people at a terminal.
use vstd::prelude::*;

verus! {

#[derive(Clone, Copy, Debug, PartialEq, Eq)]
pub enum Format {
    Json,
    Human,
}

impl Format {
    /// JSON when asked for, or when standard output is not a terminal
    /// (a pipe or a file); human-readable text otherwise.
    pub fn detect(json_flag: bool, stdout_is_terminal: bool) -> (res: Format)
        ensures
            res == (if json_flag || !stdout_is_terminal {
                Format::Json
            } else {
                Format::Human
            }),
    {
        if json_flag || !stdout_is_terminal {
            Format::Json
        } else {
            Format::Human
        }
    }

    pub fn is_json(self) -> (res: bool)
        ensures
            res == (self == Format::Json),
    {
        match self {
            Format::Json => true,
            Format::Human => false,
        }
    }
}

} // verus!
