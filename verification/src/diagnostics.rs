//! Where a byte offset lies in a text that was split into lines.

use vstd::prelude::*;

verus! {

/// The line and the column of `offset`, counted from line `from`, in a
/// text whose lines have the lengths `lens` and are each followed by one
/// line end: the first line that is long enough for what is left of the
/// offset, or the origin where no line is.
pub open spec fn locate_from(lens: Seq<usize>, from: int, offset: int) -> (int, int)
    decreases lens.len() - from,
{
    if from < 0 || from >= lens.len() {
        (0, 0)
    } else if offset <= lens[from] {
        (from, offset)
    } else {
        locate_from(lens, from + 1, offset - lens[from] - 1)
    }
}

/// The line and the column of the byte at `offset`, both counted from
/// zero, in a text whose lines have the lengths `lens`.
pub fn locate(lens: &Vec<usize>, offset: usize) -> (at: (usize, usize))
    ensures
        (at.0 as int, at.1 as int) == locate_from(lens@, 0, offset as int),
{
    let mut rest = offset;
    let mut j: usize = 0;
    while j < lens.len()
        invariant
            j <= lens.len(),
            locate_from(lens@, 0, offset as int) == locate_from(lens@, j as int, rest as int),
        decreases lens.len() - j,
    {
        if rest <= lens[j] {
            return (j, rest);
        }
        rest = rest - lens[j] - 1;
        j += 1;
    }
    (0, 0)
}

} // verus!
