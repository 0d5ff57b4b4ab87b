use vstd::prelude::*;
use crate::record::owned;

verus! {

/// Where the file name of path `p` starts: after its last `/`.
pub open spec fn name_start(p: Seq<char>) -> int
    decreases p.len(),
{
    if p.len() == 0 {
        0
    } else if p.last() == '/' {
        p.len() as int
    } else {
        name_start(p.drop_last())
    }
}

/// The last `.` of `p` that stands after position `start` (and so not as
/// the first character of the file name), if any.
pub open spec fn last_dot_after(p: Seq<char>, start: int) -> Option<int>
    decreases p.len(),
{
    if p.len() == 0 || p.len() <= start + 1 {
        None
    } else if p.last() == '.' {
        Some(p.len() - 1)
    } else {
        last_dot_after(p.drop_last(), start)
    }
}

/// The path without the extension of its file name.
pub open spec fn without_extension(p: Seq<char>) -> Seq<char> {
    match last_dot_after(p, name_start(p)) {
        Some(k) => p.subrange(0, k),
        None => p,
    }
}

/// The path of the translated table: the input's extension replaced by
/// `translated.csv`.
pub open spec fn output_path_of(p: Seq<char>) -> Seq<char> {
    without_extension(p) + ".translated.csv"@
}

/// Names the output table after the input table: the final extension of
/// the file name is replaced by `translated.csv` (`data.csv` gives
/// `data.translated.csv`), and a name without one gets it added. A dot
/// that begins the file name starts no extension.
pub fn output_path(input: &str) -> (r: String)
    ensures
        r@ == output_path_of(input@),
{
    let ghost p = input@;
    let n = input.unicode_len();
    let mut i: usize = n;
    assert(p.subrange(0, n as int) =~= p);
    while i > 0 && input.get_char(i - 1) != '/'
        invariant
            i <= n,
            n == p.len(),
            p == input@,
            name_start(p) == name_start(p.subrange(0, i as int)),
        decreases i,
    {
        assert(p.subrange(0, i as int).drop_last() =~= p.subrange(0, i - 1));
        i = i - 1;
    }
    let start = i;
    assert(name_start(p) == start as int);
    let mut j: usize = n;
    while j > start && j - start > 1 && input.get_char(j - 1) != '.'
        invariant
            start <= j <= n,
            n == p.len(),
            p == input@,
            start as int == name_start(p),
            last_dot_after(p, start as int) == last_dot_after(p.subrange(0, j as int), start as int),
        decreases j,
    {
        assert(p.subrange(0, j as int).drop_last() =~= p.subrange(0, j - 1));
        j = j - 1;
    }
    let stem = if j > start && j - start > 1 {
        input.substring_char(0, j - 1)
    } else {
        input
    };
    assert(stem@ == without_extension(p));
    let r = owned(stem).concat(".translated.csv");
    r
}

} // verus!
