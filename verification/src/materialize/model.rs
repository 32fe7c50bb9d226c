//! A model of the two directory trees of a copy, against which the
//! decisions of a [`Walk`](super::Walk) can be run.
//!
//! The source is a tree that the copy only reads. The destination is a map
//! from relative paths to what lies there. Each step of a walk is answered
//! the way a file system would answer it, and the destination changes as the
//! step says.

use vstd::prelude::*;
use super::{WalkModel, StepModel, ReportModel};

verus! {

/// An entry of the source: a regular file with its bytes, or a directory
/// with its entries in the order in which a listing gives them.
pub enum Tree {
    File(Seq<u8>),
    Dir(Seq<(Seq<char>, Tree)>),
}

/// What lies at a path of the destination.
pub enum Slot {
    File(Seq<u8>),
    Dir,
}

/// The names of the entries of a directory.
pub open spec fn names(entries: Seq<(Seq<char>, Tree)>) -> Seq<Seq<char>> {
    Seq::new(entries.len(), |i: int| entries[i].0)
}

/// No two entries of the directory have the same name.
pub open spec fn distinct(entries: Seq<(Seq<char>, Tree)>) -> bool {
    forall|i: int, j: int| 0 <= i < j < entries.len() ==> entries[i].0 != entries[j].0
}

/// Every directory of the tree names each of its entries once.
pub open spec fn well_formed(tree: Tree) -> bool
    decreases tree,
{
    match tree {
        Tree::File(_) => true,
        Tree::Dir(entries) => distinct(entries) && forall|i: int|
            0 <= i < entries.len() ==> well_formed(#[trigger] entries[i].1),
    }
}

/// The entry of a directory that has the given name.
pub open spec fn child(entries: Seq<(Seq<char>, Tree)>, name: Seq<char>) -> Option<Tree>
    decreases entries.len(),
{
    if entries.len() == 0 {
        None
    } else if entries.first().0 == name {
        Some(entries.first().1)
    } else {
        child(entries.drop_first(), name)
    }
}

/// What the tree holds at a relative path.
pub open spec fn at(tree: Tree, path: Seq<Seq<char>>) -> Option<Tree>
    decreases path.len(),
{
    if path.len() == 0 {
        Some(tree)
    } else {
        match tree {
            Tree::File(_) => None,
            Tree::Dir(entries) => match child(entries, path.first()) {
                Some(entry) => at(entry, path.drop_first()),
                None => None,
            },
        }
    }
}

/// The tree holds a regular file at the path.
pub open spec fn is_file(tree: Tree, path: Seq<Seq<char>>) -> bool {
    at(tree, path) is Some && at(tree, path)->0 is File
}

/// A directory can be created, with its ancestors, unless a file is in the way.
pub open spec fn can_create(disk: Map<Seq<Seq<char>>, Slot>, path: Seq<Seq<char>>) -> bool {
    forall|q: Seq<Seq<char>>|
        q.is_prefix_of(path) ==> !(disk.contains_key(q) && #[trigger] disk[q] is File)
}

/// The destination after a directory was created with its ancestors.
pub open spec fn created(disk: Map<Seq<Seq<char>>, Slot>, path: Seq<Seq<char>>) -> Map<
    Seq<Seq<char>>,
    Slot,
> {
    Map::new(
        |q: Seq<Seq<char>>| disk.contains_key(q) || q.is_prefix_of(path),
        |q: Seq<Seq<char>>|
            if q.is_prefix_of(path) {
                Slot::Dir
            } else {
                disk[q]
            },
    )
}

/// A file can be written where its directory exists and no directory has its path.
pub open spec fn can_copy(disk: Map<Seq<Seq<char>>, Slot>, path: Seq<Seq<char>>) -> bool {
    &&& path.len() > 0
    &&& disk.contains_key(path.drop_last())
    &&& disk[path.drop_last()] is Dir
    &&& !(disk.contains_key(path) && disk[path] is Dir)
}

/// How the two trees answer a step: the destination afterwards, and the report.
pub open spec fn respond(tree: Tree, disk: Map<Seq<Seq<char>>, Slot>, step: StepModel) -> (
    Map<Seq<Seq<char>>, Slot>,
    ReportModel,
) {
    match step {
        StepModel::CreateDir(p) => if can_create(disk, p) {
            (created(disk, p), ReportModel::Created)
        } else {
            (disk, ReportModel::Failed)
        },
        StepModel::ListDir(p) => match at(tree, p) {
            Some(Tree::Dir(entries)) => (disk, ReportModel::Listed(names(entries))),
            _ => (disk, ReportModel::Failed),
        },
        StepModel::Probe(p) => (disk, ReportModel::Probed(is_file(tree, p))),
        StepModel::CopyFile(p) => match at(tree, p) {
            Some(Tree::File(bytes)) => if can_copy(disk, p) {
                (disk.insert(p, Slot::File(bytes)), ReportModel::Copied)
            } else {
                (disk, ReportModel::Failed)
            },
            _ => (disk, ReportModel::Failed),
        },
        StepModel::Done => (disk, ReportModel::Failed),
        StepModel::Failed => (disk, ReportModel::Failed),
    }
}

/// Runs a walk against the two trees for at most `fuel` steps. The result is
/// the destination when the walk is done, and `None` when it failed or the
/// fuel ran out.
pub open spec fn run(
    tree: Tree,
    walk: WalkModel,
    disk: Map<Seq<Seq<char>>, Slot>,
    fuel: nat,
) -> Option<Map<Seq<Seq<char>>, Slot>>
    decreases fuel,
{
    match walk.asked {
        StepModel::Done => Some(disk),
        StepModel::Failed => None,
        _ => if fuel == 0 {
            None
        } else {
            let (after, report) = respond(tree, disk, walk.asked);
            run(tree, walk.next(report), after, (fuel - 1) as nat)
        },
    }
}

/// What copying the entries of a directory from the `i`-th on does to the
/// destination, stated by the shape of the tree: a file is written, a
/// directory is created and its entries copied in turn. `None` where an
/// operation fails.
pub open spec fn copy_from(
    entries: Seq<(Seq<char>, Tree)>,
    i: int,
    dir: Seq<Seq<char>>,
    disk: Map<Seq<Seq<char>>, Slot>,
) -> Option<Map<Seq<Seq<char>>, Slot>>
    decreases entries, entries.len() - i,
{
    if i < 0 || i >= entries.len() {
        Some(disk)
    } else {
        let path = dir.push(entries[i].0);
        match entries[i].1 {
            Tree::File(bytes) => if can_copy(disk, path) {
                copy_from(entries, i + 1, dir, disk.insert(path, Slot::File(bytes)))
            } else {
                None
            },
            Tree::Dir(inner) => if can_create(disk, path) {
                match copy_from(inner, 0, path, created(disk, path)) {
                    Some(after) => copy_from(entries, i + 1, dir, after),
                    None => None,
                }
            } else {
                None
            },
        }
    }
}

/// What copying a whole tree does to the destination.
pub open spec fn copy_tree(tree: Tree, disk: Map<Seq<Seq<char>>, Slot>) -> Option<
    Map<Seq<Seq<char>>, Slot>,
> {
    match tree {
        Tree::Dir(entries) => if can_create(disk, Seq::empty()) {
            copy_from(entries, 0, Seq::empty(), created(disk, Seq::empty()))
        } else {
            None
        },
        Tree::File(_) => None,
    }
}

/// The number of steps that copying the entries from the `i`-th on takes.
pub open spec fn steps_from(entries: Seq<(Seq<char>, Tree)>, i: int) -> nat
    decreases entries, entries.len() - i,
{
    if i < 0 || i >= entries.len() {
        0
    } else {
        match entries[i].1 {
            Tree::File(_) => 2 + steps_from(entries, i + 1),
            Tree::Dir(inner) => 3 + steps_from(inner, 0) + steps_from(entries, i + 1),
        }
    }
}

/// The number of steps that copying a whole tree takes.
pub open spec fn steps(tree: Tree) -> nat {
    match tree {
        Tree::Dir(entries) => 2 + steps_from(entries, 0),
        Tree::File(_) => 2,
    }
}


/// What an entry of the source puts at its path of the destination.
pub open spec fn slot_of(entry: Tree) -> Slot {
    match entry {
        Tree::File(bytes) => Slot::File(bytes),
        Tree::Dir(_) => Slot::Dir,
    }
}

/// The destination holds at this path what the entry cannot be copied over:
/// a directory where the entry is a file, a file where it is a directory.
pub open spec fn clashes(
    entry: Tree,
    disk: Map<Seq<Seq<char>>, Slot>,
    path: Seq<Seq<char>>,
) -> bool {
    disk.contains_key(path) && match entry {
        Tree::File(_) => disk[path] is Dir,
        Tree::Dir(_) => disk[path] is File,
    }
}

/// Nothing in the destination is in the way of the tree.
pub open spec fn fits(tree: Tree, disk: Map<Seq<Seq<char>>, Slot>) -> bool {
    forall|path: Seq<Seq<char>>|
        (#[trigger] at(tree, path)) is Some ==> !clashes(at(tree, path)->0, disk, path)
}

/// The destination with the tree laid over it: every path of the tree holds
/// what the tree holds there, every other path what it held before.
pub open spec fn overlay(tree: Tree, disk: Map<Seq<Seq<char>>, Slot>) -> Map<
    Seq<Seq<char>>,
    Slot,
> {
    Map::new(
        |path: Seq<Seq<char>>| disk.contains_key(path) || at(tree, path) is Some,
        |path: Seq<Seq<char>>|
            if at(tree, path) is Some {
                slot_of(at(tree, path)->0)
            } else {
                disk[path]
            },
    )
}

} // verus!
