//! Process identity: the display name of a session's owning process.

use vstd::prelude::*;

verus! {

/// The character that separates the segments of an executable's path.
pub const SEPARATOR: char = '\\';

/// The position of the last separator of a path, or `-1` for a path without one.
pub open spec fn last_separator(path: Seq<char>) -> int
    decreases path.len(),
{
    if path.len() == 0 {
        -1
    } else if path.last() == SEPARATOR {
        path.len() - 1
    } else {
        last_separator(path.drop_last())
    }
}

/// The display name for the path of an executable: what follows the last
/// separator, and the word `Unknown` for a path without a separator.
pub open spec fn display_name_of(path: Seq<char>) -> Seq<char> {
    let at = last_separator(path);
    if at < 0 {
        "Unknown"@
    } else {
        path.subrange(at + 1, path.len() as int)
    }
}

/// The last separator is a separator, nothing behind it is one, and there is
/// none exactly where the path holds no separator.
pub proof fn lemma_last_separator(path: Seq<char>)
    ensures
        -1 <= last_separator(path) < path.len(),
        last_separator(path) >= 0 ==> path[last_separator(path)] == SEPARATOR,
        forall|j: int| last_separator(path) < j < path.len() ==> path[j] != SEPARATOR,
        last_separator(path) == -1 <==> !path.contains(SEPARATOR),
    decreases path.len(),
{
    if path.len() > 0 && path.last() != SEPARATOR {
        let front = path.drop_last();
        lemma_last_separator(front);
        assert forall|j: int| last_separator(path) < j < path.len() implies path[j]
            != SEPARATOR by {
            if j < front.len() {
                assert(front[j] == path[j]);
            }
        }
        if last_separator(path) >= 0 {
            assert(front[last_separator(front)] == path[last_separator(path)]);
        } else {
            assert forall|j: int| 0 <= j < path.len() implies path[j] != SEPARATOR by {}
        }
    } else if path.len() > 0 {
        assert(path[path.len() - 1] == SEPARATOR);
    }
}

/// The display name of the process whose executable has the given path.
pub fn display_name(path: &str) -> (name: String)
    ensures
        name@ == display_name_of(path@),
{
    let len: usize = path.unicode_len();
    let mut found: bool = false;
    let mut last: usize = 0;
    let mut at: usize = 0;
    for c in it: path.chars()
        invariant
            it.seq() == path@,
            len == path@.len(),
            at == it.index(),
            found ==> last == last_separator(path@.take(at as int)),
            !found ==> last_separator(path@.take(at as int)) == -1,
    {
        assert(path@.take(at + 1).drop_last() == path@.take(at as int));
        if c == SEPARATOR {
            found = true;
            last = at;
        }
        at = at + 1;
    }
    assert(path@.take(at as int) == path@);
    if found {
        proof {
            lemma_last_separator(path@);
        }
        path.substring_char(last + 1, len).to_owned()
    } else {
        "Unknown".to_owned()
    }
}

} // verus!
