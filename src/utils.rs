//! Choosing where input is read from.

use vstd::prelude::*;

use crate::text::text_eq;

verus! {

/// Whether an input name stands for standard input.
pub open spec fn names_stdin(input: Seq<char>) -> bool {
    input == "-"@
}

/// Reads the whole input that `input` names: standard input for `-`, else the
/// file of that name. The readers are handed in by the caller, which owns the
/// process's I/O; exactly one of them runs, and its result is returned as it is.
pub fn get_content<E, S, F>(input: &str, read_stdin: S, read_file: F) -> (r: Result<Vec<u8>, E>) where
    S: FnOnce() -> Result<Vec<u8>, E>,
    F: FnOnce(&str) -> Result<Vec<u8>, E>,

    requires
        names_stdin(input@) ==> read_stdin.requires(()),
        !names_stdin(input@) ==> read_file.requires((input,)),
    ensures
        names_stdin(input@) ==> read_stdin.ensures((), r),
        !names_stdin(input@) ==> read_file.ensures((input,), r),
{
    if text_eq(input, "-") {
        read_stdin()
    } else {
        read_file(input)
    }
}

} // verus!
