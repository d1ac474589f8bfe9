//! Abstract-syntax data for the parsing helpers.

use vstd::prelude::*;

verus! {

/// A source span: start offset and length, both in Unicode scalar
/// values.
#[derive(Debug, Clone, Copy, PartialEq, Eq, Hash)]
pub struct FileLocation {
    pub start: usize,
    pub len: usize,
}

impl FileLocation {
    /// Builds a location from its start offset and length.
    pub fn make(start: usize, len: usize) -> (r: Self)
        ensures
            r.start == start,
            r.len == len,
    {
        FileLocation { start, len }
    }
}

/// `Model`:
///     'package' package=FQN   (the package name must not be a wildcard)
pub struct Model<'a> {
    pub package: FQN<'a>,
}

/// `FQN`:
///     Identifier ('.' Identifier)* ('.' '*')?
#[derive(Debug, Clone, PartialEq, Eq, Hash)]
pub struct FQN<'a> {
    pub location: FileLocation,
    pub components: Vec<(&'a str, usize)>,
    pub is_wildcard: bool,
}

} // verus!
