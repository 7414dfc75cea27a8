//! Labels and file names.
use vstd::prelude::*;

use crate::address::trim;
#[allow(unused_imports)]
use crate::address::trimmed;

verus! {

/// The first index from `i` on where two spaces stand side by side, or the end.
pub open spec fn double_space(s: Seq<char>, i: int) -> int
    decreases s.len() - i,
{
    if i + 1 >= s.len() {
        s.len() as int
    } else if s[i] == ' ' && s[i + 1] == ' ' {
        i
    } else {
        double_space(s, i + 1)
    }
}

/// A label without the hint that follows two spaces.
pub open spec fn bare_label(s: Seq<char>) -> Seq<char> {
    trimmed(s.take(double_space(s, 0)))
}

/// Drops the parenthetical hint from a dropdown label ("LZAN full  (…)" becomes
/// "LZAN full") for compact log and report lines.
pub fn short_label(label: &str) -> (r: &str)
    ensures
        r@ == bare_label(label@),
{
    let n = label.unicode_len();
    if n == 0 {
        assert(label@.take(0) =~= label@);
        return trim(label);
    }
    let mut i: usize = 0;
    while i < n - 1 && !(label.get_char(i) == ' ' && label.get_char(i + 1) == ' ')
        invariant
            i < n,
            n == label@.len(),
            double_space(label@, i as int) == double_space(label@, 0),
        decreases n - i,
    {
        i += 1;
    }
    let end = if i < n - 1 {
        i
    } else {
        n
    };
    let part = label.substring_char(0, end);
    assert(part@ =~= label@.take(end as int));
    trim(part)
}

/// Whether the text ends with `tail`.
pub open spec fn ends_with(s: Seq<char>, tail: Seq<char>) -> bool {
    s.len() >= tail.len() && s.skip(s.len() - tail.len()) == tail
}

/// A file stem without the mark of a crunched file.
pub open spec fn plain_stem(stem: Seq<char>) -> Seq<char> {
    if ends_with(stem, "-crunched"@) {
        stem.take(stem.len() - "-crunched"@.len())
    } else {
        stem
    }
}

/// A file stem without the mark of a crunched file.
fn strip_mark(stem: &str) -> (r: &str)
    ensures
        r@ == plain_stem(stem@),
{
    let mark = "-crunched";
    let n = stem.unicode_len();
    let m = mark.unicode_len();
    if n < m {
        return stem;
    }
    let mut i: usize = 0;
    while i < m
        invariant
            i <= m <= n,
            n == stem@.len(),
            m == mark@.len(),
            mark@ == "-crunched"@,
            forall|k: int| 0 <= k < i ==> stem@[n - m + k] == #[trigger] mark@[k],
        decreases m - i,
    {
        if stem.get_char(n - m + i) != mark.get_char(i) {
            assert(stem@.skip(n - m)[i as int] != mark@[i as int]);
            return stem;
        }
        i += 1;
    }
    assert(stem@.skip(n - m) =~= mark@);
    let r = stem.substring_char(0, n - m);
    assert(r@ =~= stem@.take(n - m));
    r
}

/// The default output name for a source file.
pub fn crunched_name(stem: &str) -> (r: String)
    ensures
        r@ == stem@ + "-crunched.prg"@,
{
    let mut s = stem.to_owned();
    s.append("-crunched.prg");
    s
}

/// The default name of an uncompressed export, from the output file's stem.
pub fn uncompressed_name(stem: &str) -> (r: String)
    ensures
        r@ == plain_stem(stem@) + "-uncompressed.prg"@,
{
    let mut s = strip_mark(stem).to_owned();
    s.append("-uncompressed.prg");
    s
}

/// The name of an exported stream.
pub open spec fn stream_file(stem: Option<Seq<char>>) -> Seq<char> {
    (match stem {
        Some(s) => plain_stem(s),
        None => "output"@,
    }) + "-crunched.bin"@
}

/// The default name of a stream export, from the output file's stem: an
/// existing "-crunched" is not doubled.
pub fn stream_name(stem: Option<&str>) -> (r: String)
    ensures
        r@ == stream_file(
            match stem {
                Some(s) => Some(s@),
                None => None,
            },
        ),
{
    let mut s = match stem {
        Some(s) => strip_mark(s).to_owned(),
        None => "output".to_owned(),
    };
    s.append("-crunched.bin");
    s
}

/// A stream export of a crunched program takes the program's own stem: the mark
/// never doubles up.
pub proof fn mark_never_doubles(stem: Seq<char>)
    ensures
        plain_stem(stem + "-crunched"@) == stem,
        stream_file(Some(stem + "-crunched"@)) == stem + "-crunched.bin"@,
{
    let s = stem + "-crunched"@;
    assert(s.skip(s.len() - "-crunched"@.len()) =~= "-crunched"@);
    assert(s.take(s.len() - "-crunched"@.len()) =~= stem);
}

/// A file name is kept but for its mark: without one the stem stays whole, and
/// with one or without, the names of a program's files start with the same
/// stem.
pub proof fn names_keep_the_stem(stem: Seq<char>)
    ensures
        !ends_with(stem, "-crunched"@) ==> plain_stem(stem) == stem,
        stream_file(None) == "output"@ + "-crunched.bin"@,
        !ends_with(stem, "-crunched"@) ==> stream_file(Some(stem)) == stem + "-crunched.bin"@,
        plain_stem(stem).len() <= stem.len(),
        stem.take(plain_stem(stem).len() as int) == plain_stem(stem),
{
    assert(stem.take(plain_stem(stem).len() as int) =~= plain_stem(stem));
}

proof fn lemma_double_space(s: Seq<char>, i: int, n: int)
    requires
        0 <= i <= n,
        n + 1 < s.len(),
        s[n] == ' ' && s[n + 1] == ' ',
        forall|k: int| i <= k < n ==> !((#[trigger] s[k]) == ' ' && s[k + 1] == ' '),
    ensures
        double_space(s, i) == n,
    decreases n - i,
{
    if i < n {
        assert(!(s[i] == ' ' && s[i + 1] == ' '));
        lemma_double_space(s, i + 1, n);
    }
}

/// A label is cut at its first two spaces: what stands in front of them is what
/// is kept, whatever follows.
pub proof fn labels_are_cut_at_two_spaces(label: Seq<char>, rest: Seq<char>)
    requires
        label.len() > 0,
        label[label.len() - 1] != ' ',
        forall|k: int|
            0 <= k < label.len() - 1 ==> !((#[trigger] label[k]) == ' ' && label[k + 1] == ' '),
    ensures
        bare_label(label + seq![' ', ' '] + rest) == trimmed(label),
{
    let s = label + seq![' ', ' '] + rest;
    let n = label.len() as int;
    assert forall|k: int| 0 <= k < n implies !((#[trigger] s[k]) == ' ' && s[k + 1] == ' ') by {
        if k < n - 1 {
            assert(s[k] == label[k] && s[k + 1] == label[k + 1]);
        } else {
            assert(s[k] == label[k]);
        }
    }
    lemma_double_space(s, 0, n);
    assert(s.take(n) =~= label);
}

} // verus!
