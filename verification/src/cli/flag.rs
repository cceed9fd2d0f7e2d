use crate::text::str_eq;
use vstd::prelude::*;

verus! {

/// A command-line flag.
#[derive(Debug, Clone, Copy, PartialEq, Eq)]
pub enum Flag {
    Input,
    Output,
    Audio,
    Video,
    Subtitle,
    Apply,
    Json,
}

/// The flag a token names, by its short or long form.
pub open spec fn flag_of(t: Seq<char>) -> Option<Flag> {
    if t == "-i"@ || t == "--input"@ {
        Some(Flag::Input)
    } else if t == "-o"@ || t == "--output"@ {
        Some(Flag::Output)
    } else if t == "-a"@ || t == "--audio"@ {
        Some(Flag::Audio)
    } else if t == "-v"@ || t == "--video"@ {
        Some(Flag::Video)
    } else if t == "-s"@ || t == "--subtitle"@ {
        Some(Flag::Subtitle)
    } else if t == "-t"@ || t == "--apply"@ {
        Some(Flag::Apply)
    } else if t == "--json"@ {
        Some(Flag::Json)
    } else {
        None
    }
}

impl Flag {
    /// The flag `token` names, if any.
    pub fn parse(token: &str) -> (f: Option<Flag>)
        ensures
            f == flag_of(token@),
    {
        if str_eq(token, "-i") || str_eq(token, "--input") {
            Some(Flag::Input)
        } else if str_eq(token, "-o") || str_eq(token, "--output") {
            Some(Flag::Output)
        } else if str_eq(token, "-a") || str_eq(token, "--audio") {
            Some(Flag::Audio)
        } else if str_eq(token, "-v") || str_eq(token, "--video") {
            Some(Flag::Video)
        } else if str_eq(token, "-s") || str_eq(token, "--subtitle") {
            Some(Flag::Subtitle)
        } else if str_eq(token, "-t") || str_eq(token, "--apply") {
            Some(Flag::Apply)
        } else if str_eq(token, "--json") {
            Some(Flag::Json)
        } else {
            None
        }
    }
}

} // verus!
