//! Paths as text: the final component, its directory, its stem and its
//! extension, told apart by the last separator and the last dot.
//!
//! A path is a sequence of characters in which `/` separates components.
//! Positions count characters, not bytes. Nothing here consults a file
//! system.

use vstd::prelude::*;
use vstd::string::*;

verus! {

/// The position of the last occurrence of `c` in `s`, or `-1` if `c` does not occur.
pub open spec fn last_index_of(s: Seq<char>, c: char) -> int
    decreases s.len(),
{
    if s.len() == 0 {
        -1
    } else if s.last() == c {
        s.len() - 1
    } else {
        last_index_of(s.drop_last(), c)
    }
}

/// Whether `i` is the position of the last `c` in `s` (`-1` standing for "none").
pub open spec fn is_last_index_of(s: Seq<char>, c: char, i: int) -> bool {
    &&& -1 <= i < s.len()
    &&& i >= 0 ==> s[i] == c
    &&& forall|j: int| i < j < s.len() ==> s[j] != c
}

/// `last_index_of` returns the last position, and only that.
pub proof fn lemma_last_index_of(s: Seq<char>, c: char)
    ensures
        is_last_index_of(s, c, last_index_of(s, c)),
    decreases s.len(),
{
    if s.len() != 0 && s.last() != c {
        let t = s.drop_last();
        lemma_last_index_of(t, c);
        let i = last_index_of(t, c);
        assert forall|j: int| i < j < s.len() implies s[j] != c by {
            if j < t.len() {
                assert(t[j] == s[j]);
            }
        }
        if i >= 0 {
            assert(t[i] == s[i]);
        }
    }
}

/// Any position that qualifies as the last one is the value of `last_index_of`.
pub proof fn lemma_last_index_unique(s: Seq<char>, c: char, i: int)
    requires
        is_last_index_of(s, c, i),
    ensures
        last_index_of(s, c) == i,
{
    lemma_last_index_of(s, c);
    let k = last_index_of(s, c);
    if k < i {
        assert(s[i] == c);
    } else if i < k {
        assert(s[k] == c);
    }
}

/// Where the final component of `p` begins: just past the last separator.
pub open spec fn name_start(p: Seq<char>) -> int {
    last_index_of(p, '/') + 1
}

/// The final component of `p`: everything after the last separator.
pub open spec fn file_name(p: Seq<char>) -> Seq<char> {
    p.skip(name_start(p))
}

/// The directory part of `p`: everything up to and including the last separator.
pub open spec fn directory(p: Seq<char>) -> Seq<char> {
    p.take(name_start(p))
}

/// Two paths are siblings when they name entries of one directory.
pub open spec fn siblings(p: Seq<char>, q: Seq<char>) -> bool {
    directory(p) == directory(q)
}

/// Whether the final component of `p` carries an extension: its last dot is
/// not its first character, and the component is not the parent marker `..`.
pub open spec fn has_extension(p: Seq<char>) -> bool {
    &&& last_index_of(p, '.') > name_start(p)
    &&& file_name(p) != seq!['.', '.']
}

/// The extension of `p`: the text after the last dot of its final component.
pub open spec fn extension(p: Seq<char>) -> Option<Seq<char>> {
    if has_extension(p) {
        Some(p.skip(last_index_of(p, '.') + 1))
    } else {
        None
    }
}

/// `p` without the dot and extension of its final component.
pub open spec fn stem_path(p: Seq<char>) -> Seq<char> {
    if has_extension(p) {
        p.take(last_index_of(p, '.'))
    } else {
        p
    }
}

/// The final component of `p` without its dot and extension.
pub open spec fn file_stem(p: Seq<char>) -> Seq<char> {
    stem_path(p).skip(name_start(p))
}

/// A path with an extension is its stem path, a dot, and the extension.
pub proof fn lemma_path_parts(p: Seq<char>)
    requires
        has_extension(p),
    ensures
        p == stem_path(p) + seq!['.'] + extension(p).unwrap(),
        stem_path(p) == directory(p) + file_stem(p),
        file_stem(p).len() > 0,
{
    lemma_last_index_of(p, '.');
    lemma_last_index_of(p, '/');
    assert(p =~= stem_path(p) + seq!['.'] + extension(p).unwrap());
    assert(stem_path(p) =~= directory(p) + file_stem(p));
}

/// Appending text without separators to a path keeps its directory, provided
/// the text is appended to the final component.
pub proof fn lemma_directory_of_extended(base: Seq<char>, cut: int, tail: Seq<char>)
    requires
        name_start(base) <= cut <= base.len(),
        forall|j: int| 0 <= j < tail.len() ==> tail[j] != '/',
    ensures
        name_start(base.take(cut) + tail) == name_start(base),
        directory(base.take(cut) + tail) == directory(base),
{
    let q = base.take(cut) + tail;
    lemma_last_index_of(base, '/');
    let i = last_index_of(base, '/');
    assert forall|j: int| i < j < q.len() implies q[j] != '/' by {
        if j < cut {
            assert(q[j] == base[j]);
        } else {
            assert(q[j] == tail[j - cut]);
        }
    }
    if i >= 0 {
        assert(q[i] == base[i]);
    }
    lemma_last_index_unique(q, '/', i);
    assert(q.take(i + 1) =~= base.take(i + 1));
}

/// The position of the last `c` in `s`, if there is one.
pub fn find_last(s: &str, c: char) -> (r: Option<usize>)
    ensures
        r is None <==> last_index_of(s@, c) == -1,
        r matches Some(i) ==> i == last_index_of(s@, c) && i < s@.len(),
{
    let n: usize = s.unicode_len();
    let mut i: usize = n;
    while i > 0
        invariant
            n == s@.len(),
            i <= n,
            forall|j: int| i <= j < n ==> s@[j] != c,
        decreases i,
    {
        i -= 1;
        if s.get_char(i) == c {
            proof {
                lemma_last_index_unique(s@, c, i as int);
            }
            return Some(i);
        }
    }
    proof {
        lemma_last_index_unique(s@, c, -1);
    }
    None
}

/// Where the extension of `path` begins, if it has one.
pub fn extension_start(path: &str) -> (r: Option<usize>)
    ensures
        r is Some <==> has_extension(path@),
        r matches Some(k) ==> k == last_index_of(path@, '.') + 1 && k <= path@.len(),
{
    let n: usize = path.unicode_len();
    let start: usize = match find_last(path, '/') {
        Some(i) => i + 1,
        None => 0,
    };
    proof {
        lemma_last_index_of(path@, '/');
        lemma_last_index_of(path@, '.');
    }
    match find_last(path, '.') {
        None => None,
        Some(dot) => {
            if dot <= start {
                None
            } else if n - start == 2 && path.get_char(start) == '.' {
                proof {
                    assert(file_name(path@) =~= seq!['.', '.']);
                }
                None
            } else {
                proof {
                    if file_name(path@) == seq!['.', '.'] {
                        assert(file_name(path@).len() == 2);
                        assert(file_name(path@)[0] == path@[start as int]);
                    }
                }
                Some(dot + 1)
            }
        },
    }
}

/// Whether the extension of `path` is exactly `wanted`, compared character by
/// character with case preserved.
pub fn has_extension_named(path: &str, wanted: &str) -> (r: bool)
    ensures
        r == (extension(path@) == Some(wanted@)),
{
    match extension_start(path) {
        None => false,
        Some(k) => {
            let n: usize = path.unicode_len();
            let tail = path.substring_char(k, n);
            crate::text::same_text(tail, wanted)
        },
    }
}

} // verus!
