//! Mapping of paths between the source and destination namespaces.
//!
//! A path is held as its ordered list of components, so that the mapping is
//! plain prefix arithmetic: an entry discovered under the source root is
//! expressed relative to that root by removing the root's components, and its
//! mirrored location is the destination root with those relative components
//! appended.

use vstd::prelude::*;

verus! {

/// A filesystem path, held as its ordered list of components.
#[derive(Debug, Clone, PartialEq, Eq)]
pub struct SyncPath {
    pub components: Vec<String>,
}

impl View for SyncPath {
    type V = Seq<Seq<char>>;

    open spec fn view(&self) -> Seq<Seq<char>> {
        self.components.deep_view()
    }
}

/// A path expressed relative to the source root; joined onto the destination
/// root it gives the mirrored location of a source entry.
#[derive(Debug, Clone, PartialEq, Eq)]
pub struct RelativePath {
    pub components: Vec<String>,
}

impl View for RelativePath {
    type V = Seq<Seq<char>>;

    open spec fn view(&self) -> Seq<Seq<char>> {
        self.components.deep_view()
    }
}

/// Why a discovered entry could not be mapped into the destination namespace.
/// Either failure is fatal for the whole run: an entry that traversal found
/// under the source root must always be mappable.
#[derive(Debug, Clone, Copy, PartialEq, Eq)]
pub enum PathError {
    /// The entry does not lie below the source root.
    NotRelative,
    /// The entry coincides with the source root, so it has no parent
    /// directory under the destination root.
    NoParent,
}

/// `prefix` is a (non-strict) component-wise prefix of `path`.
pub open spec fn starts_with(path: Seq<Seq<char>>, prefix: Seq<Seq<char>>) -> bool {
    &&& prefix.len() <= path.len()
    &&& forall|i: int| 0 <= i < prefix.len() ==> path[i] == prefix[i]
}

/// The components of `entry` with `root`'s prefix removed.
pub open spec fn rel_of(root: Seq<Seq<char>>, entry: Seq<Seq<char>>) -> Seq<Seq<char>> {
    entry.skip(root.len() as int)
}

/// Express `entry` relative to `root`: exactly when `root` is a prefix of
/// `entry`, the result is `entry`'s components with that prefix removed.
pub fn relative_path(root: &SyncPath, entry: &SyncPath) -> (r: Result<RelativePath, PathError>)
    ensures
        match r {
            Ok(rel) => starts_with(entry@, root@) && rel@ == rel_of(root@, entry@),
            Err(e) => e == PathError::NotRelative && !starts_with(entry@, root@),
        },
{
    let root_len: usize = root.components.len();
    if entry.components.len() < root_len {
        return Err(PathError::NotRelative);
    }
    let mut i: usize = 0;
    while i < root_len
        invariant
            0 <= i <= root_len,
            root_len == root.components@.len(),
            root@.len() == root.components@.len(),
            entry@.len() == entry.components@.len(),
            root_len <= entry.components@.len(),
            forall|j: int| 0 <= j < i ==> entry@[j] == root@[j],
        decreases root_len - i,
    {
        if !(entry.components[i] == root.components[i]) {
            assert(entry@[i as int] != root@[i as int]);
            return Err(PathError::NotRelative);
        }
        assert(entry@[i as int] == root@[i as int]);
        i = i + 1;
    }
    let entry_len: usize = entry.components.len();
    let mut rel: Vec<String> = Vec::new();
    let mut j: usize = root_len;
    while j < entry_len
        invariant
            root_len <= j <= entry_len,
            entry_len == entry.components@.len(),
            entry@.len() == entry.components@.len(),
            rel@.len() == j - root_len,
            forall|t: int| 0 <= t < rel@.len() ==> rel@[t]@ == entry@[root_len + t],
        decreases entry_len - j,
    {
        let c = entry.components[j].clone();
        rel.push(c);
        j = j + 1;
    }
    proof {
        assert forall|t: int| 0 <= t < rel@.len() implies rel.deep_view()[t] == rel_of(
            root@,
            entry@,
        )[t] by {
            assert(rel.deep_view()[t] == rel@[t]@);
            assert(rel@[t]@ == entry@[root_len + t]);
        }
        assert(rel.deep_view() =~= rel_of(root@, entry@));
    }
    Ok(RelativePath { components: rel })
}

/// The mirrored location of a relative path under `root`: a pure join, total.
pub fn destination_path(root: &SyncPath, rel: &RelativePath) -> (r: SyncPath)
    ensures
        r@ == root@ + rel@,
{
    let mut out: Vec<String> = Vec::new();
    let root_len: usize = root.components.len();
    let mut i: usize = 0;
    while i < root_len
        invariant
            0 <= i <= root_len,
            root_len == root.components@.len(),
            root@.len() == root.components@.len(),
            out@.len() == i,
            forall|t: int| 0 <= t < i ==> out@[t]@ == root@[t],
        decreases root_len - i,
    {
        let c = root.components[i].clone();
        out.push(c);
        i = i + 1;
    }
    let rel_len: usize = rel.components.len();
    let mut j: usize = 0;
    while j < rel_len
        invariant
            0 <= j <= rel_len,
            root_len == root.components@.len(),
            root@.len() == root.components@.len(),
            rel_len == rel.components@.len(),
            rel@.len() == rel.components@.len(),
            out@.len() == root_len + j,
            forall|t: int| 0 <= t < root_len ==> out@[t]@ == root@[t],
            forall|t: int| 0 <= t < j ==> out@[root_len + t]@ == rel@[t],
        decreases rel_len - j,
    {
        let c = rel.components[j].clone();
        out.push(c);
        j = j + 1;
    }
    proof {
        assert forall|t: int| 0 <= t < out@.len() implies out.deep_view()[t] == (root@ + rel@)[t] by {
            assert(out.deep_view()[t] == out@[t]@);
            if t < root_len {
                assert(out@[t]@ == root@[t]);
            } else {
                assert(out@[root_len + (t - root_len)]@ == rel@[t - root_len]);
            }
        }
        assert(out.deep_view() =~= root@ + rel@);
    }
    SyncPath { components: out }
}

/// The parent of a relative path: its components without the last one.
/// Exactly the empty relative path (the source root itself) has none.
pub fn parent_of(rel: &RelativePath) -> (r: Result<RelativePath, PathError>)
    ensures
        match r {
            Ok(parent) => rel@.len() > 0 && parent@ == rel@.drop_last(),
            Err(e) => e == PathError::NoParent && rel@.len() == 0,
        },
{
    let len: usize = rel.components.len();
    if len == 0 {
        return Err(PathError::NoParent);
    }
    let mut out: Vec<String> = Vec::new();
    let mut i: usize = 0;
    while i < len - 1
        invariant
            0 <= i <= len - 1,
            1 <= len,
            len == rel.components@.len(),
            rel@.len() == rel.components@.len(),
            out@.len() == i,
            forall|t: int| 0 <= t < i ==> out@[t]@ == rel@[t],
        decreases len - 1 - i,
    {
        let c = rel.components[i].clone();
        out.push(c);
        i = i + 1;
    }
    proof {
        assert forall|t: int| 0 <= t < out@.len() implies out.deep_view()[t] == rel@.drop_last()[t] by {
            assert(out.deep_view()[t] == out@[t]@);
            assert(out@[t]@ == rel@[t]);
        }
        assert(out.deep_view() =~= rel@.drop_last());
    }
    Ok(RelativePath { components: out })
}

/// Round-trip law: expressing a path relative to a root and joining the
/// result back onto that root reproduces the path.  Together with the
/// contracts of `relative_path` and `destination_path` this makes
/// `relative_path(root, entry)` a left-inverse of `destination_path(root, _)`:
/// for every `entry` under `root`,
/// `destination_path(root, relative_path(root, entry)) == entry`.
pub proof fn lemma_relative_path_round_trip(root: Seq<Seq<char>>, entry: Seq<Seq<char>>)
    requires
        starts_with(entry, root),
    ensures
        root + rel_of(root, entry) == entry,
{
    assert(root + rel_of(root, entry) =~= entry);
}

} // verus!
