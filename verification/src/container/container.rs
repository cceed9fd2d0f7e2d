use vstd::prelude::*;

verus! {

/// A container format: its name and the file extensions it goes by.
#[derive(Debug, Clone, Copy, PartialEq, Eq, Hash)]
pub struct ContainerId {
    pub name: &'static str,
    pub extensions: &'static [&'static str],
}

impl ContainerId {
    /// The container `name`, with no extensions listed.
    pub fn new(name: &'static str) -> (c: Self)
        ensures
            c.name == name,
            c.extensions@.len() == 0,
    {
        ContainerId { name, extensions: &[] }
    }

    /// The same container with `exts` as its extensions.
    pub fn exts(self, exts: &'static [&'static str]) -> (c: Self)
        ensures
            c.name == self.name,
            c.extensions == exts,
    {
        let mut c = self;
        c.extensions = exts;
        c
    }
}

} // verus!
