//! Error taxonomy: malformed description text, a specification too large to
//! lay out, and an unusable file path.

use vstd::prelude::*;

verus! {

/// Malformed description text. Recoverable; each variant carries the byte
/// position where parsing stopped.
#[derive(Clone, Copy, Debug, PartialEq, Eq, Structural)]
pub enum ParseError {
    /// The text holds a zero byte, which no native string can carry.
    IllegalNulByte { at: usize },
    /// A `<` was opened and the end of the text came before its `>`.
    UnterminatedTag { at: usize },
    /// A tag with an empty or unreadable element name.
    BadTagName { at: usize },
    /// An attribute without the shape `key="value"`.
    BadAttribute { at: usize },
    /// An attribute value whose closing quote is missing.
    UnterminatedAttribute { at: usize },
    /// A closing tag that does not match the open element.
    MismatchedClose { at: usize },
    /// The end of the text came while an element was still open.
    UnexpectedEnd,
    /// A joint declaration whose `type` attribute names no known kind.
    UnknownJointType { at: usize },
    /// The reader's recursion budget ran out. A whole text's budget covers
    /// its own nesting, so parsing a text never yields this.
    NestingTooDeep,
}

/// A specification that cannot be compiled. Recoverable.
#[derive(Clone, Copy, Debug, PartialEq, Eq, Structural)]
pub enum CompileError {
    /// A joint name holds a zero byte and cannot enter the name table.
    BadName { joint: usize },
    /// The summed layout does not fit the machine's address range.
    TooLarge,
}

/// A file that cannot be loaded. Recoverable.
#[derive(Debug, PartialEq, Eq)]
pub enum LoadError {
    /// The path cannot be represented as a valid native string.
    BadPath,
    /// The file could not be read.
    Unreadable,
    /// The file's contents failed to parse.
    Parse(ParseError),
    /// The file's contents parsed but failed to compile.
    Compile(CompileError),
}

} // verus!
