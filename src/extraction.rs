//! What extracting a native archive does with each of its entries.

use vstd::prelude::*;
use vstd::string::StrSliceExecFns;
use vstd::string::StringExecFns;

verus! {

/// The step for one archive entry.
#[derive(Clone, Debug)]
pub enum ExtractStep {
    /// The entry is excluded.
    Skip,
    /// The entry is a directory: make sure it exists at this path.
    MakeDir(String),
    /// The entry is a file: write its bytes at this path, over any file
    /// there, once its parent directory exists.
    WriteFile(String),
}

/// Whether one of the exclusion prefixes starts the entry name.
pub open spec fn is_excluded(name: Seq<char>, exclude: Seq<String>) -> bool {
    exists|i: int| 0 <= i < exclude.len() && #[trigger] exclude[i]@.is_prefix_of(name)
}

/// Whether an entry name denotes a directory: it ends with `/`.
pub open spec fn names_directory(name: Seq<char>) -> bool {
    name.len() > 0 && name.last() == '/'
}

fn starts_with(s: &str, prefix: &str) -> (r: bool)
    ensures
        r == prefix@.is_prefix_of(s@),
{
    let n = s.unicode_len();
    let m = prefix.unicode_len();
    if m > n {
        return false;
    }
    let mut j: usize = 0;
    while j < m
        invariant
            n == s@.len(),
            m == prefix@.len(),
            m <= n,
            j <= m,
            forall|k: int| 0 <= k < j ==> s@[k] == prefix@[k],
        decreases m - j,
    {
        if s.get_char(j) != prefix.get_char(j) {
            return false;
        }
        j = j + 1;
    }
    proof {
        assert(prefix@ =~= s@.subrange(0, m as int));
    }
    true
}

/// The step for an archive entry extracted into `target_dir`: excluded
/// entries are skipped; the others go to `target_dir/name`, as a directory
/// where the name ends with `/`, else as a file.
pub fn plan_entry(name: &str, exclude: &Vec<String>, target_dir: &str) -> (r: ExtractStep)
    ensures
        is_excluded(name@, exclude@) ==> r is Skip,
        !is_excluded(name@, exclude@) && names_directory(name@) ==> (r matches ExtractStep::MakeDir(
            p,
        ) && p@ == target_dir@ + "/"@ + name@),
        !is_excluded(name@, exclude@) && !names_directory(name@) ==> (r matches ExtractStep::WriteFile(
            p,
        ) && p@ == target_dir@ + "/"@ + name@),
{
    let mut i: usize = 0;
    while i < exclude.len()
        invariant
            i <= exclude@.len(),
            forall|k: int| 0 <= k < i ==> !(#[trigger] exclude@[k]@.is_prefix_of(name@)),
        decreases exclude@.len() - i,
    {
        if starts_with(name, exclude[i].as_str()) {
            return ExtractStep::Skip;
        }
        i = i + 1;
    }
    let mut path = String::from_str(target_dir);
    path.append("/");
    path.append(name);
    let n = name.unicode_len();
    if n > 0 && name.get_char(n - 1) == '/' {
        ExtractStep::MakeDir(path)
    } else {
        ExtractStep::WriteFile(path)
    }
}

} // verus!
