//! Lookup of a one-character token in a symbol table. The scan runs over the
//! whole table and keeps the last match, so with duplicate symbols the last
//! matching index wins.

use vstd::prelude::*;
use vstd::string::StrSliceExecFns;

verus! {

/// Result of a table lookup: the index of the last matching entry, or nothing.
#[derive(PartialEq, Eq, Structural, Clone, Copy, Debug)]
pub enum FinderResult {
    NotFound,
    Index(usize),
}

/// The last index of `table` whose character, as a one-character string,
/// equals `target`; `NotFound` when no entry matches (in particular whenever
/// `target` is not exactly one character long).
pub open spec fn spec_find_last(table: Seq<char>, target: Seq<char>) -> FinderResult
    decreases table.len(),
{
    if table.len() == 0 {
        FinderResult::NotFound
    } else if target.len() == 1 && target[0] == table.last() {
        FinderResult::Index((table.len() - 1) as usize)
    } else {
        spec_find_last(table.drop_last(), target)
    }
}

/// What the lookup finds: a returned index is in range, matches the target,
/// and no later entry matches (last match wins); `NotFound` means no entry
/// matches at all.
pub proof fn lemma_find_last_characterization(table: Seq<char>, target: Seq<char>)
    requires
        table.len() <= usize::MAX,
    ensures
        match spec_find_last(table, target) {
            FinderResult::NotFound => target.len() != 1 || forall|j: int|
                0 <= j < table.len() ==> table[j] != target[0],
            FinderResult::Index(i) => {
                &&& i < table.len()
                &&& target.len() == 1
                &&& table[i as int] == target[0]
                &&& forall|j: int| i < j < table.len() ==> table[j] != target[0]
            },
        },
    decreases table.len(),
{
    if table.len() > 0 {
        let prefix = table.drop_last();
        lemma_find_last_characterization(prefix, target);
        assert(prefix.len() == table.len() - 1);
        assert(forall|j: int| 0 <= j < table.len() - 1 ==> prefix[j] == table[j]);
        if !(target.len() == 1 && target[0] == table.last()) {
            assert(spec_find_last(table, target) == spec_find_last(prefix, target));
            match spec_find_last(prefix, target) {
                FinderResult::NotFound => {
                    if target.len() == 1 {
                        assert forall|j: int| 0 <= j < table.len() implies table[j] != target[0] by {
                            if j < table.len() - 1 {
                                assert(prefix[j] != target[0]);
                            } else {
                                assert(table[j] == table.last());
                            }
                        }
                    }
                },
                FinderResult::Index(i) => {
                    assert forall|j: int| i < j < table.len() implies table[j] != target[0] by {
                        if j < table.len() - 1 {
                            assert(prefix[j] != target[0]);
                        } else {
                            assert(table[j] == table.last());
                        }
                    }
                },
            }
        }
    }
}

/// One step of the scan: extending the scanned prefix by the entry at `i`
/// keeps the old result unless that entry matches, in which case `i` wins.
pub proof fn lemma_find_last_extend(table: Seq<char>, target: Seq<char>, i: int)
    requires
        0 <= i < table.len(),
    ensures
        spec_find_last(table.take(i + 1), target) == (if target.len() == 1 && target[0] == table[i] {
            FinderResult::Index(i as usize)
        } else {
            spec_find_last(table.take(i), target)
        }),
{
    let ext = table.take(i + 1);
    assert(ext.len() == i + 1);
    assert(ext.last() == table[i]);
    assert(ext.drop_last() =~= table.take(i));
}

/// Scan a table for a one-character token, keeping the last match.
#[allow(non_snake_case)]
pub fn findStringInCharArray(array: &[char], c: &str) -> (spot: FinderResult)
    ensures
        spot == spec_find_last(array@, c@),
{
    let mut spot = FinderResult::NotFound;
    let target: Option<char> = if c.unicode_len() == 1 {
        Some(c.get_char(0))
    } else {
        None
    };
    let n = array.len();
    let mut i: usize = 0;
    while i < n
        invariant
            n == array@.len(),
            i <= n,
            spot == spec_find_last(array@.take(i as int), c@),
            target == (if c@.len() == 1 {
                Some(c@[0])
            } else {
                None::<char>
            }),
        decreases n - i,
    {
        proof {
            lemma_find_last_extend(array@, c@, i as int);
        }
        match target {
            Some(t) => {
                if array[i] == t {
                    spot = FinderResult::Index(i);
                }
            },
            None => {},
        }
        i = i + 1;
    }
    proof {
        assert(array@.take(n as int) =~= array@);
    }
    spot
}

} // verus!
