//! Line and column of a byte offset in a text, for reporting where an input
//! could not be read.

use vstd::prelude::*;
use vstd::string::StringSliceAdditionalSpecFns;

verus! {

/// A config format
#[derive(Debug, Clone, Copy, PartialEq, Eq, Structural)]
pub enum ConfigFormat {
    Machine,
    Style,
}

/// Where a repository of configs was loaded from
#[derive(Debug, Clone, Copy, PartialEq, Eq, Structural)]
pub enum RepositoryLoadSource {
    Bundled,
    UserDir,
}

/// Location information for reading errors
#[derive(Debug, Clone, Copy, PartialEq, Eq, Structural)]
pub struct ErrorLocation {
    /// Line number (1-based)
    pub line: usize,
    /// Column number (1-based)
    pub column: usize,
    /// Byte offset in the text
    pub offset: usize,
}

/// `b` starts a character in UTF-8 (it is no continuation byte).
pub open spec fn starts_char(b: u8) -> bool {
    b < 0x80 || b >= 0xc0
}

/// Line and column (both 1-based) after the first `n` bytes of `bytes`:
/// each character that starts there and is a line feed begins a new line,
/// every other one moves one column on.
pub open spec fn line_column(bytes: Seq<u8>, n: int) -> (int, int)
    decreases n,
{
    if n <= 0 {
        (1, 1)
    } else {
        let (line, column) = line_column(bytes, n - 1);
        let b = bytes[n - 1];
        if !starts_char(b) {
            (line, column)
        } else if b == 10 {
            (line + 1, 1)
        } else {
            (line, column + 1)
        }
    }
}

/// Line and column grow by at most one per byte.
proof fn lemma_line_column_bound(bytes: Seq<u8>, n: int)
    requires
        0 <= n,
    ensures
        line_column(bytes, n).0 + line_column(bytes, n).1 <= n + 2,
        line_column(bytes, n).0 >= 1,
        line_column(bytes, n).1 >= 1,
    decreases n,
{
    if n > 0 {
        lemma_line_column_bound(bytes, n - 1);
    }
}

impl ErrorLocation {
    /// Creates an [ErrorLocation] from a byte offset into `text`.
    pub fn from_offset(text: &str, offset: usize) -> (r: Self)
        requires
            text.spec_bytes().len() < usize::MAX,
        ensures
            r.offset == offset,
            (r.line as int, r.column as int) == line_column(
                text.spec_bytes(),
                if offset < text.spec_bytes().len() {
                    offset as int
                } else {
                    text.spec_bytes().len() as int
                },
            ),
    {
        let (line, column) = byte_offset_to_line_column(text, offset);
        ErrorLocation { line, column, offset }
    }
}

/// Converts a byte offset into `text` to line and column numbers (1-based):
/// the position after all characters that start before `offset`.
pub fn byte_offset_to_line_column(text: &str, offset: usize) -> (r: (usize, usize))
    requires
        text.spec_bytes().len() < usize::MAX,
    ensures
        (r.0 as int, r.1 as int) == line_column(
            text.spec_bytes(),
            if offset < text.spec_bytes().len() {
                offset as int
            } else {
                text.spec_bytes().len() as int
            },
        ),
{
    let bytes = text.as_bytes();
    let end = if offset < bytes.len() {
        offset
    } else {
        bytes.len()
    };
    let mut line: usize = 1;
    let mut column: usize = 1;
    let mut i: usize = 0;
    while i < end
        invariant
            0 <= i <= end <= bytes@.len(),
            bytes@ == text.spec_bytes(),
            bytes@.len() < usize::MAX,
            (line as int, column as int) == line_column(bytes@, i as int),
        decreases end - i,
    {
        proof {
            lemma_line_column_bound(bytes@, i as int);
        }
        let b = bytes[i];
        if b < 0x80 || b >= 0xc0 {
            if b == 10 {
                line = line + 1;
                column = 1;
            } else {
                column = column + 1;
            }
        }
        i = i + 1;
    }
    (line, column)
}

} // verus!
