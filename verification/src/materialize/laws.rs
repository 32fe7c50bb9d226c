//! What a finished copy has done, proved of every source tree and every
//! destination.

use vstd::prelude::*;
use super::{WalkModel, StepModel, ReportModel, LevelModel};
use super::model::{
    Tree, Slot, names, distinct, well_formed, child, at, can_create, created, can_copy, respond,
    run, copy_from, copy_tree, steps_from, steps, slot_of, clashes, fits, overlay,
};

verus! {

/// In a directory that names each entry once, a name finds its own entry.
proof fn lemma_child_found(entries: Seq<(Seq<char>, Tree)>, k: int)
    requires
        distinct(entries),
        0 <= k < entries.len(),
    ensures
        child(entries, entries[k].0) == Some(entries[k].1),
    decreases entries.len(),
{
    if k > 0 {
        let rest = entries.drop_first();
        assert(distinct(rest)) by {
            assert forall|i: int, j: int| 0 <= i < j < rest.len() implies rest[i].0
                != rest[j].0 by {
                assert(rest[i] == entries[i + 1]);
                assert(rest[j] == entries[j + 1]);
            }
        }
        assert(rest[k - 1] == entries[k]);
        lemma_child_found(rest, k - 1);
    }
}

/// One level further down a path: what lies there is found by name in the
/// directory that the path so far leads to.
proof fn lemma_at_push(tree: Tree, path: Seq<Seq<char>>, name: Seq<char>)
    ensures
        at(tree, path.push(name)) == match at(tree, path) {
            Some(Tree::Dir(entries)) => child(entries, name),
            _ => None,
        },
    decreases path.len(),
{
    let longer = path.push(name);
    if path.len() == 0 {
        assert(longer.first() == name);
        assert(longer.drop_first() =~= Seq::<Seq<char>>::empty());
        match tree {
            Tree::File(_) => {},
            Tree::Dir(entries) => {
                match child(entries, name) {
                    Some(entry) => {
                        assert(at(entry, Seq::empty()) == Some(entry));
                    },
                    None => {},
                }
            },
        }
    } else {
        assert(longer.first() == path.first());
        assert(longer.drop_first() =~= path.drop_first().push(name));
        match tree {
            Tree::File(_) => {},
            Tree::Dir(entries) => {
                match child(entries, path.first()) {
                    Some(entry) => {
                        lemma_at_push(entry, path.drop_first(), name);
                    },
                    None => {},
                }
            },
        }
    }
}

/// The claim of [`lemma_walk_copies_entries`]: a run from inside `dir`, with
/// the entries from the `i`-th on still to visit, fails where [`copy_from`]
/// fails or the fuel is short of [`steps_from`], and else goes on, with the
/// destination that [`copy_from`] gives, among the directories around `dir`.
spec fn walk_copies_entries(
    tree: Tree,
    outer: Seq<LevelModel>,
    dir: Seq<Seq<char>>,
    entries: Seq<(Seq<char>, Tree)>,
    i: int,
    disk: Map<Seq<Seq<char>>, Slot>,
    fuel: nat,
) -> bool {
    let walk = WalkModel::resume(
        outer.push(LevelModel { dir, rest: names(entries).subrange(i, entries.len() as int) }),
    );
    match copy_from(entries, i, dir, disk) {
        Some(after) => if fuel >= steps_from(entries, i) {
            run(tree, walk, disk, fuel) == run(
                tree,
                WalkModel::resume(outer),
                after,
                (fuel - steps_from(entries, i)) as nat,
            )
        } else {
            run(tree, walk, disk, fuel) is None
        },
        None => run(tree, walk, disk, fuel) is None,
    }
}

/// A walk that is inside the directory `dir` of the source, with the entries
/// from the `i`-th on still to visit, does to the destination what
/// [`copy_from`] says, in [`steps_from`] steps, and then goes on with the
/// directories around it.
proof fn lemma_walk_copies_entries(
    tree: Tree,
    outer: Seq<LevelModel>,
    dir: Seq<Seq<char>>,
    entries: Seq<(Seq<char>, Tree)>,
    i: int,
    disk: Map<Seq<Seq<char>>, Slot>,
    fuel: nat,
)
    requires
        at(tree, dir) == Some(Tree::Dir(entries)),
        well_formed(Tree::Dir(entries)),
        0 <= i <= entries.len(),
    ensures
        walk_copies_entries(tree, outer, dir, entries, i, disk, fuel),
    decreases entries, entries.len() - i,
{
    let rest = names(entries).subrange(i, entries.len() as int);
    let level = LevelModel { dir, rest };
    let levels = outer.push(level);
    let walk = WalkModel::resume(levels);
    assert(levels.last() == level);
    assert(levels.drop_last() =~= outer);
    if i == entries.len() {
        assert(rest.len() == 0);
        assert(walk == WalkModel::resume(outer));
        assert(copy_from(entries, i, dir, disk) == Some(disk));
        assert(steps_from(entries, i) == 0);
    } else {
        let name = entries[i].0;
        let path = dir.push(name);
        let later = LevelModel { dir, rest: names(entries).subrange(i + 1, entries.len() as int) };
        let inside = outer.push(later);
        assert(rest.first() == name);
        assert(rest.drop_first() =~= later.rest);
        assert(walk == WalkModel { levels: inside, asked: StepModel::Probe(path) });
        lemma_at_push(tree, dir, name);
        lemma_child_found(entries, i);
        assert(at(tree, path) == Some(entries[i].1));
        let probed = walk.next(respond(tree, disk, walk.asked).1);
        assert(respond(tree, disk, walk.asked).0 == disk);
        assert(fuel > 0 ==> run(tree, walk, disk, fuel) == run(
            tree,
            probed,
            disk,
            (fuel - 1) as nat,
        ));
        assert(fuel == 0 ==> run(tree, walk, disk, fuel) is None);
        match entries[i].1 {
            Tree::File(bytes) => {
                assert(probed == WalkModel { levels: inside, asked: StepModel::CopyFile(path) });
                assert(steps_from(entries, i) == 2 + steps_from(entries, i + 1));
                assert(fuel == 1 ==> run(tree, probed, disk, (fuel - 1) as nat) is None);
                if can_copy(disk, path) {
                    let written = disk.insert(path, Slot::File(bytes));
                    assert(copy_from(entries, i, dir, disk) == copy_from(
                        entries,
                        i + 1,
                        dir,
                        written,
                    ));
                    assert(respond(tree, disk, probed.asked) == (written, ReportModel::Copied));
                    assert(probed.next(ReportModel::Copied) == WalkModel::resume(inside));
                    if fuel >= 2 {
                        assert(run(tree, probed, disk, (fuel - 1) as nat) == run(
                            tree,
                            WalkModel::resume(inside),
                            written,
                            (fuel - 2) as nat,
                        ));
                        lemma_walk_copies_entries(
                            tree,
                            outer,
                            dir,
                            entries,
                            i + 1,
                            written,
                            (fuel - 2) as nat,
                        );
                    }
                } else {
                    assert(copy_from(entries, i, dir, disk) is None);
                    assert(respond(tree, disk, probed.asked) == (disk, ReportModel::Failed));
                    assert(probed.next(ReportModel::Failed) == WalkModel::failed());
                    if fuel >= 2 {
                        assert(run(tree, probed, disk, (fuel - 1) as nat) == run(
                            tree,
                            WalkModel::failed(),
                            disk,
                            (fuel - 2) as nat,
                        ));
                    }
                }
            },
            Tree::Dir(inner) => {
                assert(probed == WalkModel { levels: inside, asked: StepModel::CreateDir(path) });
                assert(well_formed(entries[i].1));
                assert(steps_from(entries, i) == 3 + steps_from(inner, 0) + steps_from(
                    entries,
                    i + 1,
                ));
                assert(fuel == 1 ==> run(tree, probed, disk, (fuel - 1) as nat) is None);
                if can_create(disk, path) {
                    let made = created(disk, path);
                    let listing = WalkModel { levels: inside, asked: StepModel::ListDir(path) };
                    let below = WalkModel::resume(
                        inside.push(LevelModel { dir: path, rest: names(inner) }),
                    );
                    assert(copy_from(entries, i, dir, disk) == match copy_from(
                        inner,
                        0,
                        path,
                        made,
                    ) {
                        Some(after) => copy_from(entries, i + 1, dir, after),
                        None => None,
                    });
                    assert(respond(tree, disk, probed.asked) == (made, ReportModel::Created));
                    assert(probed.next(ReportModel::Created) == listing);
                    assert(respond(tree, made, listing.asked) == (
                        made,
                        ReportModel::Listed(names(inner)),
                    ));
                    assert(listing.next(ReportModel::Listed(names(inner))) == below);
                    assert(fuel == 2 ==> run(tree, listing, made, (fuel - 2) as nat) is None);
                    if fuel >= 2 {
                        assert(run(tree, probed, disk, (fuel - 1) as nat) == run(
                            tree,
                            listing,
                            made,
                            (fuel - 2) as nat,
                        ));
                    }
                    if fuel >= 3 {
                        assert(run(tree, listing, made, (fuel - 2) as nat) == run(
                            tree,
                            below,
                            made,
                            (fuel - 3) as nat,
                        ));
                        assert(names(inner).subrange(0, inner.len() as int) =~= names(inner));
                        lemma_walk_copies_entries(
                            tree,
                            inside,
                            path,
                            inner,
                            0,
                            made,
                            (fuel - 3) as nat,
                        );
                        match copy_from(inner, 0, path, made) {
                            Some(after) => {
                                if fuel - 3 >= steps_from(inner, 0) {
                                    lemma_walk_copies_entries(
                                        tree,
                                        outer,
                                        dir,
                                        entries,
                                        i + 1,
                                        after,
                                        (fuel - 3 - steps_from(inner, 0)) as nat,
                                    );
                                }
                            },
                            None => {},
                        }
                    }
                } else {
                    assert(copy_from(entries, i, dir, disk) is None);
                    assert(respond(tree, disk, probed.asked) == (disk, ReportModel::Failed));
                    assert(probed.next(ReportModel::Failed) == WalkModel::failed());
                    if fuel >= 2 {
                        assert(run(tree, probed, disk, (fuel - 1) as nat) == run(
                            tree,
                            WalkModel::failed(),
                            disk,
                            (fuel - 2) as nat,
                        ));
                    }
                }
            },
        }
    }
}


/// What the entries of `dir` from the `i`-th on hold at a path of the destination.
spec fn hit(
    entries: Seq<(Seq<char>, Tree)>,
    i: int,
    dir: Seq<Seq<char>>,
    path: Seq<Seq<char>>,
) -> Option<Tree> {
    if dir.is_prefix_of(path) && path.len() > dir.len() {
        match child(entries.skip(i), path[dir.len() as int]) {
            Some(entry) => at(entry, path.skip((dir.len() + 1) as int)),
            None => None,
        }
    } else {
        None
    }
}

/// Nothing in the destination is in the way of the entries from the `i`-th on.
spec fn fits_from(
    entries: Seq<(Seq<char>, Tree)>,
    i: int,
    dir: Seq<Seq<char>>,
    disk: Map<Seq<Seq<char>>, Slot>,
) -> bool {
    forall|path: Seq<Seq<char>>|
        (#[trigger] hit(entries, i, dir, path)) is Some ==> !clashes(
            hit(entries, i, dir, path)->0,
            disk,
            path,
        )
}

/// The destination with the entries from the `i`-th on laid over it.
spec fn overlay_from(
    entries: Seq<(Seq<char>, Tree)>,
    i: int,
    dir: Seq<Seq<char>>,
    disk: Map<Seq<Seq<char>>, Slot>,
) -> Map<Seq<Seq<char>>, Slot> {
    Map::new(
        |path: Seq<Seq<char>>| disk.contains_key(path) || hit(entries, i, dir, path) is Some,
        |path: Seq<Seq<char>>|
            if hit(entries, i, dir, path) is Some {
                slot_of(hit(entries, i, dir, path)->0)
            } else {
                disk[path]
            },
    )
}

/// The directory and all above it exist in the destination.
spec fn dirs_down(disk: Map<Seq<Seq<char>>, Slot>, dir: Seq<Seq<char>>) -> bool {
    forall|q: Seq<Seq<char>>|
        q.is_prefix_of(dir) ==> disk.contains_key(q) && #[trigger] disk[q] is Dir
}

/// A name that no entry has finds nothing.
proof fn lemma_child_absent(entries: Seq<(Seq<char>, Tree)>, name: Seq<char>)
    requires
        forall|k: int| 0 <= k < entries.len() ==> entries[k].0 != name,
    ensures
        child(entries, name) is None,
    decreases entries.len(),
{
    if entries.len() > 0 {
        assert(entries.first() == entries[0]);
        let rest = entries.drop_first();
        assert forall|k: int| 0 <= k < rest.len() implies rest[k].0 != name by {
            assert(rest[k] == entries[k + 1]);
        }
        lemma_child_absent(rest, name);
    }
}

/// How the entries from the `i`-th on divide a path between the `i`-th entry and the later ones.
proof fn lemma_hit_step(
    entries: Seq<(Seq<char>, Tree)>,
    i: int,
    dir: Seq<Seq<char>>,
    path: Seq<Seq<char>>,
)
    requires
        distinct(entries),
        0 <= i < entries.len(),
    ensures
        ({
            let own = dir.push(entries[i].0);
            let later = hit(entries, i + 1, dir, path);
            let now = hit(entries, i, dir, path);
            if path == own {
                now == Some(entries[i].1) && later is None
            } else {
                match entries[i].1 {
                    Tree::File(_) => now == later,
                    Tree::Dir(inner) => {
                        let below = hit(inner, 0, own, path);
                        if below is Some {
                            now == below && later is None
                        } else {
                            now == later
                        }
                    },
                }
            }
        }),
{
    let name = entries[i].0;
    let own = dir.push(name);
    let from_i = entries.skip(i);
    let from_next = entries.skip(i + 1);
    assert(from_i.first() == entries[i]);
    assert(from_i.drop_first() =~= from_next);
    assert(child(from_next, name) is None) by {
        assert forall|k: int| 0 <= k < from_next.len() implies from_next[k].0 != name by {
            assert(from_next[k] == entries[i + 1 + k]);
        }
        lemma_child_absent(from_next, name);
    }
    if dir.is_prefix_of(path) && path.len() > dir.len() {
        let step = path[dir.len() as int];
        let rel = path.skip((dir.len() + 1) as int);
        if step == name {
            assert(child(from_i, step) == Some(entries[i].1));
            assert(own.is_prefix_of(path)) by {
                assert(path.subrange(0, own.len() as int) =~= own);
            }
            if path.len() == own.len() {
                assert(path =~= own);
                assert(rel =~= Seq::<Seq<char>>::empty());
            } else {
                assert(path != own);
                assert(rel.len() > 0);
                match entries[i].1 {
                    Tree::File(_) => {},
                    Tree::Dir(inner) => {
                        assert(inner.skip(0) =~= inner);
                        assert(rel.first() == path[own.len() as int]);
                        assert(rel.drop_first() =~= path.skip((own.len() + 1) as int));
                    },
                }
            }
        } else {
            assert(child(from_i, step) == child(from_next, step));
            assert(path != own) by {
                if path == own {
                    assert(own[dir.len() as int] == name);
                }
            }
            assert(!own.is_prefix_of(path)) by {
                if own.is_prefix_of(path) {
                    assert(path.subrange(0, own.len() as int)[dir.len() as int]
                        == own[dir.len() as int]);
                }
            }
        }
    } else {
        assert(path != own) by {
            if path == own {
                assert(own.subrange(0, dir.len() as int) =~= dir);
            }
        }
        assert(!(own.is_prefix_of(path) && path.len() > own.len())) by {
            if own.is_prefix_of(path) {
                assert(path.subrange(0, dir.len() as int) =~= path.subrange(
                    0,
                    own.len() as int,
                ).subrange(0, dir.len() as int));
                assert(own.subrange(0, dir.len() as int) =~= dir);
            }
        }
    }
}


/// Copying the entries of a directory from the `i`-th on succeeds where
/// nothing is in their way, and then lays them over the destination.
proof fn lemma_copy_from_overlays(
    entries: Seq<(Seq<char>, Tree)>,
    i: int,
    dir: Seq<Seq<char>>,
    disk: Map<Seq<Seq<char>>, Slot>,
)
    requires
        well_formed(Tree::Dir(entries)),
        0 <= i <= entries.len(),
        dirs_down(disk, dir),
    ensures
        copy_from(entries, i, dir, disk) == if fits_from(entries, i, dir, disk) {
            Some(overlay_from(entries, i, dir, disk))
        } else {
            None
        },
    decreases entries, entries.len() - i,
{
    if i == entries.len() {
        assert(entries.skip(i) =~= Seq::<(Seq<char>, Tree)>::empty());
        assert(overlay_from(entries, i, dir, disk) =~= disk);
    } else {
        let own = dir.push(entries[i].0);
        assert(own.drop_last() =~= dir);
        assert(dir.is_prefix_of(dir));
        assert forall|path: Seq<Seq<char>>| path.is_prefix_of(own) implies path == own
            || path.is_prefix_of(dir) by {
            if path.len() == own.len() {
                assert(path =~= own);
            } else {
                assert(path =~= dir.subrange(0, path.len() as int));
            }
        }
        assert(!own.is_prefix_of(dir));
        lemma_hit_step(entries, i, dir, own);
        match entries[i].1 {
            Tree::File(bytes) => {
                if can_copy(disk, own) {
                    let written = disk.insert(own, Slot::File(bytes));
                    assert(dirs_down(written, dir));
                    lemma_copy_from_overlays(entries, i + 1, dir, written);
                    if fits_from(entries, i + 1, dir, written) {
                        assert forall|path: Seq<Seq<char>>| (#[trigger] hit(
                            entries,
                            i,
                            dir,
                            path,
                        )) is Some implies !clashes(hit(entries, i, dir, path)->0, disk, path) by {
                            lemma_hit_step(entries, i, dir, path);
                            if path != own {
                                assert(hit(entries, i + 1, dir, path) is Some);
                            }
                        }
                        let whole = overlay_from(entries, i, dir, disk);
                        let rest = overlay_from(entries, i + 1, dir, written);
                        assert forall|path: Seq<Seq<char>>| #[trigger]
                            whole.contains_key(path) == rest.contains_key(path) && (
                            whole.contains_key(path) ==> whole[path] == rest[path]) by {
                            lemma_hit_step(entries, i, dir, path);
                        }
                        assert(whole =~= rest);
                    } else {
                        let bad = choose|path: Seq<Seq<char>>| (#[trigger] hit(
                            entries,
                            i + 1,
                            dir,
                            path,
                        )) is Some && clashes(hit(entries, i + 1, dir, path)->0, written, path);
                        lemma_hit_step(entries, i, dir, bad);
                        assert(hit(entries, i, dir, bad) is Some);
                        assert(clashes(hit(entries, i, dir, bad)->0, disk, bad));
                    }
                } else {
                    assert(hit(entries, i, dir, own) is Some);
                    assert(clashes(hit(entries, i, dir, own)->0, disk, own));
                }
            },
            Tree::Dir(inner) => {
                assert(well_formed(entries[i].1));
                if can_create(disk, own) {
                    let made = created(disk, own);
                    let put = disk.insert(own, Slot::Dir);
                    assert forall|q: Seq<Seq<char>>| #[trigger]
                        made.contains_key(q) == put.contains_key(q) && (made.contains_key(q)
                        ==> made[q] == put[q]) by {
                        if q.is_prefix_of(own) && q != own {
                            assert(q.is_prefix_of(dir));
                            assert(disk[q] is Dir);
                        }
                    }
                    assert(made =~= put);
                    assert(dirs_down(made, own));
                    lemma_copy_from_overlays(inner, 0, own, made);
                    if fits_from(inner, 0, own, made) {
                        let after = overlay_from(inner, 0, own, made);
                        assert(dirs_down(after, dir)) by {
                            assert forall|q: Seq<Seq<char>>|
                                q.is_prefix_of(dir) implies after.contains_key(q)
                                && #[trigger] after[q] is Dir by {
                                assert(!(own.is_prefix_of(q) && q.len() > own.len()));
                                assert(made[q] is Dir);
                            }
                        }
                        lemma_copy_from_overlays(entries, i + 1, dir, after);
                        if fits_from(entries, i + 1, dir, after) {
                            assert forall|path: Seq<Seq<char>>| (#[trigger] hit(
                                entries,
                                i,
                                dir,
                                path,
                            )) is Some implies !clashes(
                                hit(entries, i, dir, path)->0,
                                disk,
                                path,
                            ) by {
                                lemma_hit_step(entries, i, dir, path);
                                if path != own {
                                    if hit(inner, 0, own, path) is Some {
                                    } else {
                                        assert(hit(entries, i + 1, dir, path) is Some);
                                    }
                                }
                            }
                            let whole = overlay_from(entries, i, dir, disk);
                            let rest = overlay_from(entries, i + 1, dir, after);
                            assert forall|path: Seq<Seq<char>>| #[trigger]
                                whole.contains_key(path) == rest.contains_key(path) && (
                                whole.contains_key(path) ==> whole[path] == rest[path]) by {
                                lemma_hit_step(entries, i, dir, path);
                            }
                            assert(whole =~= rest);
                        } else {
                            let bad = choose|path: Seq<Seq<char>>| (#[trigger] hit(
                                entries,
                                i + 1,
                                dir,
                                path,
                            )) is Some && clashes(hit(entries, i + 1, dir, path)->0, after, path);
                            lemma_hit_step(entries, i, dir, bad);
                            assert(hit(entries, i, dir, bad) is Some);
                            assert(clashes(hit(entries, i, dir, bad)->0, disk, bad));
                        }
                    } else {
                        let bad = choose|path: Seq<Seq<char>>|
                            (#[trigger] hit(inner, 0, own, path)) is Some && clashes(
                                hit(inner, 0, own, path)->0,
                                made,
                                path,
                            );
                        lemma_hit_step(entries, i, dir, bad);
                        assert(hit(entries, i, dir, bad) is Some);
                        assert(clashes(hit(entries, i, dir, bad)->0, disk, bad));
                    }
                } else {
                    assert(hit(entries, i, dir, own) is Some);
                    assert(clashes(hit(entries, i, dir, own)->0, disk, own));
                }
            },
        }
    }
}


/// Copying a directory tree succeeds where nothing in the destination is in
/// its way, and then lays the tree over the destination.
pub proof fn lemma_copy_tree_overlays(tree: Tree, disk: Map<Seq<Seq<char>>, Slot>)
    requires
        well_formed(tree),
        tree is Dir,
    ensures
        copy_tree(tree, disk) == if fits(tree, disk) {
            Some(overlay(tree, disk))
        } else {
            None
        },
{
    let entries = tree->Dir_0;
    let root = Seq::<Seq<char>>::empty();
    assert(at(tree, root) == Some(tree));
    assert forall|q: Seq<Seq<char>>| q.is_prefix_of(root) implies q == root by {
        assert(q =~= root);
    }
    assert(root.is_prefix_of(root));
    assert forall|path: Seq<Seq<char>>| #[trigger]
        hit(entries, 0, root, path) == (if path.len() == 0 {
            None
        } else {
            at(tree, path)
        }) by {
        assert(entries.skip(0) =~= entries);
        if path.len() > 0 {
            assert(root.is_prefix_of(path)) by {
                assert(path.subrange(0, 0) =~= root);
            }
            assert(path.skip(1) =~= path.drop_first());
        }
    }
    if can_create(disk, root) {
        let made = created(disk, root);
        let put = disk.insert(root, Slot::Dir);
        assert forall|q: Seq<Seq<char>>| #[trigger]
            made.contains_key(q) == put.contains_key(q) && (made.contains_key(q) ==> made[q]
                == put[q]) by {}
        assert(made =~= put);
        assert(dirs_down(made, root));
        lemma_copy_from_overlays(entries, 0, root, made);
        if fits_from(entries, 0, root, made) {
            assert forall|path: Seq<Seq<char>>|
                (#[trigger] at(tree, path)) is Some implies !clashes(
                at(tree, path)->0,
                disk,
                path,
            ) by {
                if path.len() > 0 {
                    assert(hit(entries, 0, root, path) is Some);
                    assert(path != root);
                } else {
                    assert(path =~= root);
                }
            }
            let whole = overlay(tree, disk);
            let rest = overlay_from(entries, 0, root, made);
            assert forall|path: Seq<Seq<char>>| #[trigger]
                whole.contains_key(path) == rest.contains_key(path) && (whole.contains_key(path)
                    ==> whole[path] == rest[path]) by {
                assert(hit(entries, 0, root, path) == (if path.len() == 0 {
                    None
                } else {
                    at(tree, path)
                }));
                if path.len() == 0 {
                    assert(path =~= root);
                }
            }
            assert(whole =~= rest);
        } else {
            let bad = choose|path: Seq<Seq<char>>| (#[trigger] hit(entries, 0, root, path)) is Some
                && clashes(hit(entries, 0, root, path)->0, made, path);
            assert(bad.len() > 0);
            assert(bad != root);
            assert(at(tree, bad) is Some);
            assert(clashes(at(tree, bad)->0, disk, bad));
        }
    } else {
        assert(clashes(at(tree, root)->0, disk, root));
    }
}

/// A walk over a source tree does to the destination what [`copy_tree`]
/// says, in [`steps`] steps.
pub proof fn lemma_walk_copies_tree(tree: Tree, disk: Map<Seq<Seq<char>>, Slot>)
    requires
        well_formed(tree),
    ensures
        run(tree, WalkModel::start(), disk, steps(tree)) == copy_tree(tree, disk),
{
    let root = Seq::<Seq<char>>::empty();
    let start = WalkModel::start();
    assert(at(tree, root) == Some(tree));
    assert(steps(tree) >= 2);
    if can_create(disk, root) {
        let made = created(disk, root);
        let listing = WalkModel { levels: Seq::empty(), asked: StepModel::ListDir(root) };
        assert(respond(tree, disk, start.asked) == (made, ReportModel::Created));
        assert(start.next(ReportModel::Created) == listing);
        assert(run(tree, start, disk, steps(tree)) == run(
            tree,
            listing,
            made,
            (steps(tree) - 1) as nat,
        ));
        match tree {
            Tree::File(_) => {
                assert(respond(tree, made, listing.asked) == (made, ReportModel::Failed));
                assert(listing.next(ReportModel::Failed) == WalkModel::failed());
                assert(run(tree, listing, made, 1) == run(tree, WalkModel::failed(), made, 0));
            },
            Tree::Dir(entries) => {
                let outer = Seq::<LevelModel>::empty();
                let below = WalkModel::resume(
                    outer.push(LevelModel { dir: root, rest: names(entries) }),
                );
                assert(respond(tree, made, listing.asked) == (
                    made,
                    ReportModel::Listed(names(entries)),
                ));
                assert(listing.next(ReportModel::Listed(names(entries))) == below);
                assert(run(tree, listing, made, (steps(tree) - 1) as nat) == run(
                    tree,
                    below,
                    made,
                    (steps(tree) - 2) as nat,
                ));
                assert(names(entries).subrange(0, entries.len() as int) =~= names(entries));
                lemma_walk_copies_entries(
                    tree,
                    outer,
                    root,
                    entries,
                    0,
                    made,
                    (steps(tree) - 2) as nat,
                );
                assert(WalkModel::resume(outer).asked is Done);
                assert(steps(tree) - 2 == steps_from(entries, 0));
                match copy_from(entries, 0, root, made) {
                    Some(after) => {
                        assert(run(tree, WalkModel::resume(outer), after, 0) == Some(after));
                    },
                    None => {},
                }
            },
        }
    } else {
        assert(respond(tree, disk, start.asked) == (disk, ReportModel::Failed));
        assert(start.next(ReportModel::Failed) == WalkModel::failed());
        assert(run(tree, start, disk, steps(tree)) == run(
            tree,
            WalkModel::failed(),
            disk,
            (steps(tree) - 1) as nat,
        ));
    }
}

/// Copy fidelity.
///
/// A walk over a source tree, run to its end against a destination, comes
/// to a good end exactly where nothing in the destination is in the tree's
/// way: no file where the tree has a directory, no directory where it has a
/// file. Afterwards every path of the tree holds in the destination what
/// it holds in the source, a file with the same bytes or a directory; every
/// other path is as it was before; and a second walk over the same tree
/// leaves the destination as the first one left it.
pub proof fn law_copy_fidelity(tree: Tree, disk: Map<Seq<Seq<char>>, Slot>)
    requires
        well_formed(tree),
        tree is Dir,
    ensures
        run(tree, WalkModel::start(), disk, steps(tree)) is Some <==> fits(tree, disk),
        fits(tree, disk) ==> ({
            let after = run(tree, WalkModel::start(), disk, steps(tree))->0;
            &&& forall|path: Seq<Seq<char>>|
                (#[trigger] at(tree, path)) is Some ==> after.contains_key(path) && after[path]
                    == slot_of(at(tree, path)->0)
            &&& forall|path: Seq<Seq<char>>| (#[trigger] at(tree, path)) is None ==> (
                after.contains_key(path) <==> disk.contains_key(path)) && (disk.contains_key(path)
                    ==> after[path] == disk[path])
            &&& run(tree, WalkModel::start(), after, steps(tree)) == Some(after)
        }),
{
    lemma_walk_copies_tree(tree, disk);
    lemma_copy_tree_overlays(tree, disk);
    if fits(tree, disk) {
        let after = overlay(tree, disk);
        lemma_walk_copies_tree(tree, after);
        lemma_copy_tree_overlays(tree, after);
        assert(fits(tree, after));
        assert(overlay(tree, after) =~= after);
    }
}

/// Into an empty destination every tree can be copied, and the paths of the
/// destination are then the paths of the tree, no more and no fewer.
pub proof fn law_copy_into_empty(tree: Tree)
    requires
        well_formed(tree),
        tree is Dir,
    ensures
        run(tree, WalkModel::start(), Map::empty(), steps(tree)) is Some,
        forall|path: Seq<Seq<char>>|
            run(tree, WalkModel::start(), Map::empty(), steps(tree))->0.contains_key(path) <==> (
            #[trigger] at(tree, path)) is Some,
{
    let empty = Map::<Seq<Seq<char>>, Slot>::empty();
    assert(fits(tree, empty));
    law_copy_fidelity(tree, empty);
}

} // verus!
