//! Byte-level model of filesystem paths.
//!
//! A path is a sequence of bytes. The containment boundary of the sandbox is
//! expressed over *normalized* absolute paths: paths that begin with the
//! separator and have no empty, `.` or `..` components, so that a byte-wise
//! prefix match at a component boundary coincides with resolved-path
//! containment. A path that is not in this form is never accepted as
//! contained; the host is free to canonicalize before handing paths in.

use vstd::prelude::*;

verus! {

/// The path separator byte, `/`.
pub const SLASH: u8 = 47;

/// The dot byte, `.`.
pub const DOT: u8 = 46;

/// Two separator bytes in a row, beginning at position `i`.
pub open spec fn slash_pair_at(p: Seq<u8>, i: int) -> bool {
    p[i] == SLASH && p[i + 1] == SLASH
}

/// A `.` or `..` component begins right after the separator at position `i`.
pub open spec fn dot_component_at(p: Seq<u8>, i: int) -> bool {
    p[i] == SLASH && ((i + 1 < p.len() && p[i + 1] == DOT && (i + 2 == p.len() || p[i + 2]
        == SLASH)) || (i + 2 < p.len() && p[i + 1] == DOT && p[i + 2] == DOT && (i + 3 == p.len()
        || p[i + 3] == SLASH)))
}

/// A normalized absolute path: begins with the separator, has no empty, `.`
/// or `..` components, and — except for the root `/` itself — does not end
/// with a separator.
pub open spec fn is_normal_abs(p: Seq<u8>) -> bool {
    &&& p.len() >= 1
    &&& p[0] == SLASH
    &&& p.len() > 1 ==> p[p.len() - 1] != SLASH
    &&& forall|i: int| 0 <= i < p.len() - 1 ==> !slash_pair_at(p, i)
    &&& forall|i: int| 0 <= i < p.len() ==> !dot_component_at(p, i)
}

/// Decides `is_normal_abs` on a path given as bytes.
pub fn is_normal_path(p: &Vec<u8>) -> (b: bool)
    ensures
        b == is_normal_abs(p@),
{
    let n = p.len();
    if n == 0 || p[0] != SLASH {
        return false;
    }
    if n > 1 && p[n - 1] == SLASH {
        return false;
    }
    let mut i: usize = 0;
    while i < n
        invariant
            0 <= i <= n,
            n == p@.len(),
            p@[0] == SLASH,
            n > 1 ==> p@[n - 1] != SLASH,
            forall|j: int| 0 <= j < i && j < n - 1 ==> !slash_pair_at(p@, j),
            forall|j: int| 0 <= j < i ==> !dot_component_at(p@, j),
        decreases n - i,
    {
        if p[i] == SLASH {
            if i + 1 < n && p[i + 1] == SLASH {
                assert(slash_pair_at(p@, i as int));
                return false;
            }
            if i + 1 < n && p[i + 1] == DOT {
                if i + 2 == n || p[i + 2] == SLASH {
                    assert(dot_component_at(p@, i as int));
                    return false;
                }
                if p[i + 2] == DOT && (i + 3 == n || p[i + 3] == SLASH) {
                    assert(dot_component_at(p@, i as int));
                    return false;
                }
            }
        }
        i += 1;
    }
    true
}

/// Position in a contained file path where the suffix relative to `root`
/// begins: right after the root's bytes and the separator that follows them,
/// which for the root `/` itself is the same byte.
pub open spec fn suffix_start(root: Seq<u8>) -> int {
    if root.len() == 1 {
        1
    } else {
        root.len() as int + 1
    }
}

/// `file` resolves strictly below the directory `root`: both are normalized
/// absolute paths, the root's bytes are a prefix of the file's bytes at a
/// component boundary, and at least one byte of suffix follows.
pub open spec fn file_under_root(root: Seq<u8>, file: Seq<u8>) -> bool {
    &&& is_normal_abs(root)
    &&& is_normal_abs(file)
    &&& file.len() > suffix_start(root)
    &&& file.take(root.len() as int) == root
    &&& root.len() > 1 ==> file[root.len() as int] == SLASH
}

/// The path of `file` relative to `root`, without a leading separator.
pub open spec fn rel_suffix(root: Seq<u8>, file: Seq<u8>) -> Seq<u8> {
    file.skip(suffix_start(root))
}

/// Checks containment of `file` below the directory `root` and, when it
/// holds, returns the relative suffix.
pub fn strip_root(file: &Vec<u8>, root: &Vec<u8>) -> (r: Option<Vec<u8>>)
    ensures
        r is Some <==> file_under_root(root@, file@),
        r matches Some(rel) ==> rel@ == rel_suffix(root@, file@),
{
    if !is_normal_path(root) || !is_normal_path(file) {
        return None;
    }
    if file.len() <= root.len() {
        return None;
    }
    let start: usize = if root.len() == 1 {
        1
    } else {
        root.len() + 1
    };
    assert(start == suffix_start(root@));
    if file.len() <= start {
        return None;
    }
    let rl = root.len();
    let mut i: usize = 0;
    while i < rl
        invariant
            0 <= i <= rl,
            rl == root@.len(),
            file@.len() > rl,
            forall|j: int| 0 <= j < i ==> file@[j] == root@[j],
        decreases rl - i,
    {
        if file[i] != root[i] {
            proof {
                assert(file@.take(rl as int)[i as int] == file@[i as int]);
            }
            return None;
        }
        i += 1;
    }
    proof {
        assert(file@.take(rl as int) =~= root@);
    }
    if rl > 1 && file[rl] != SLASH {
        return None;
    }
    let fl = file.len();
    let mut rel: Vec<u8> = Vec::new();
    let mut k: usize = start;
    while k < fl
        invariant
            start <= k <= fl,
            fl == file@.len(),
            rel@ == file@.subrange(start as int, k as int),
        decreases fl - k,
    {
        rel.push(file[k]);
        proof {
            assert(file@.subrange(start as int, k as int + 1) =~= file@.subrange(
                start as int,
                k as int,
            ).push(file@[k as int]));
        }
        k += 1;
    }
    proof {
        assert(rel@ =~= rel_suffix(root@, file@));
    }
    Some(rel)
}

/// The path begins with a `.` or `..` component.
pub open spec fn leading_dot_component(p: Seq<u8>) -> bool {
    (p.len() >= 1 && p[0] == DOT && (p.len() == 1 || p[1] == SLASH)) || (p.len() >= 2 && p[0] == DOT
        && p[1] == DOT && (p.len() == 2 || p[2] == SLASH))
}

/// A well-formed relative path: non-empty, neither begins nor ends with the
/// separator, and has no empty, `.` or `..` components.
pub open spec fn is_normal_rel(p: Seq<u8>) -> bool {
    &&& p.len() >= 1
    &&& p[0] != SLASH
    &&& p[p.len() - 1] != SLASH
    &&& forall|i: int| 0 <= i < p.len() - 1 ==> !slash_pair_at(p, i)
    &&& forall|i: int| 0 <= i < p.len() ==> !dot_component_at(p, i)
    &&& !leading_dot_component(p)
}

/// The relative suffix of a contained file cannot escape: it is non-empty,
/// does not begin with the separator and has no `.` or `..` components, so
/// resolving it below a fresh sandbox directory stays inside that directory.
pub proof fn lemma_rel_suffix_normal(root: Seq<u8>, file: Seq<u8>)
    requires
        file_under_root(root, file),
    ensures
        is_normal_rel(rel_suffix(root, file)),
{
    let s = suffix_start(root);
    let rel = rel_suffix(root, file);
    assert(file[s - 1] == SLASH);
    assert(rel.len() == file.len() - s);
    assert(!slash_pair_at(file, s - 1));
    assert(rel[0] == file[s]);
    assert(rel[rel.len() - 1] == file[file.len() - 1]);
    assert forall|i: int| 0 <= i < rel.len() - 1 implies !slash_pair_at(rel, i) by {
        assert(rel[i] == file[s + i]);
        assert(rel[i + 1] == file[s + i + 1]);
        assert(!slash_pair_at(file, s + i));
    }
    assert forall|i: int| 0 <= i < rel.len() implies !dot_component_at(rel, i) by {
        assert(!dot_component_at(file, s + i));
        assert(rel[i] == file[s + i]);
        if i + 1 < rel.len() {
            assert(rel[i + 1] == file[s + i + 1]);
        }
        if i + 2 < rel.len() {
            assert(rel[i + 2] == file[s + i + 2]);
        }
        if i + 3 < rel.len() {
            assert(rel[i + 3] == file[s + i + 3]);
        }
    }
    if leading_dot_component(rel) {
        assert(rel[0] == file[s]);
        if rel.len() >= 2 {
            assert(rel[1] == file[s + 1]);
        }
        if rel.len() >= 3 {
            assert(rel[2] == file[s + 2]);
        }
        assert(dot_component_at(file, s - 1));
        assert(false);
    }
}

} // verus!
