use std::collections::BTreeMap;

use extension_site::materialize::{Report, Step, Walk};

/// An entry of a source tree that lives in memory.
#[derive(Clone, Debug)]
enum Node {
    File(Vec<u8>),
    Dir(Vec<(String, Node)>),
    /// Neither a file nor a directory: it cannot be listed.
    Other,
}

/// What lies at a path of a destination that lives in memory.
#[derive(Clone, Debug, PartialEq, Eq)]
enum Slot {
    File(Vec<u8>),
    Dir,
}

fn file(bytes: &str) -> Node {
    Node::File(bytes.as_bytes().to_vec())
}

fn dir(entries: Vec<(&str, Node)>) -> Node {
    Node::Dir(entries.into_iter().map(|(name, node)| (String::from(name), node)).collect())
}

fn path(names: &[&str]) -> Vec<String> {
    names.iter().map(|name| String::from(*name)).collect()
}

fn at<'a>(tree: &'a Node, path: &[String]) -> Option<&'a Node> {
    match path.split_first() {
        None => Some(tree),
        Some((name, rest)) => match tree {
            Node::Dir(entries) => {
                entries.iter().find(|(entry, _)| entry == name).and_then(|(_, node)| at(node, rest))
            }
            _ => None,
        },
    }
}

/// Does what a step asks for, the way a file system would.
fn perform(tree: &Node, disk: &mut BTreeMap<Vec<String>, Slot>, step: &Step) -> Report {
    match step {
        Step::CreateDir(target) => {
            for length in 0..=target.len() {
                if let Some(Slot::File(_)) = disk.get(&target[..length]) {
                    return Report::Failed;
                }
            }
            for length in 0..=target.len() {
                disk.insert(target[..length].to_vec(), Slot::Dir);
            }
            Report::Created
        }
        Step::ListDir(source) => match at(tree, source) {
            Some(Node::Dir(entries)) => {
                Report::Listed(entries.iter().map(|(name, _)| name.clone()).collect())
            }
            _ => Report::Failed,
        },
        Step::Probe(source) => Report::Probed(matches!(at(tree, source), Some(Node::File(_)))),
        Step::CopyFile(target) => match at(tree, target) {
            Some(Node::File(bytes)) => {
                let parent = &target[..target.len() - 1];
                if disk.get(parent) != Some(&Slot::Dir) || disk.get(target) == Some(&Slot::Dir) {
                    return Report::Failed;
                }
                disk.insert(target.clone(), Slot::File(bytes.clone()));
                Report::Copied
            }
            _ => Report::Failed,
        },
        Step::Done | Step::Failed => panic!("nothing is asked for"),
    }
}

/// Runs a walk to its end. Gives the steps that were asked for and whether the walk was done.
fn copy(tree: &Node, disk: &mut BTreeMap<Vec<String>, Slot>) -> (Vec<Step>, bool) {
    let mut walk = Walk::begin();
    let mut steps = Vec::new();
    for _ in 0..10_000 {
        if walk.is_over() {
            return (steps, matches!(walk.asked(), Step::Done));
        }
        let step = walk.asked().clone();
        let report = perform(tree, disk, &step);
        steps.push(step);
        walk.step(report);
    }
    panic!("the walk does not end");
}

fn sample() -> Node {
    dir(vec![
        ("style.css", file("body {}")),
        ("ext1", dir(vec![("ext1.js", file("run()")), ("img", dir(vec![("a.png", file("PNG"))]))])),
        ("empty", dir(vec![])),
        ("readme", file("")),
    ])
}

fn expected_of_sample() -> BTreeMap<Vec<String>, Slot> {
    let mut disk = BTreeMap::new();
    disk.insert(path(&[]), Slot::Dir);
    disk.insert(path(&["style.css"]), Slot::File(b"body {}".to_vec()));
    disk.insert(path(&["ext1"]), Slot::Dir);
    disk.insert(path(&["ext1", "ext1.js"]), Slot::File(b"run()".to_vec()));
    disk.insert(path(&["ext1", "img"]), Slot::Dir);
    disk.insert(path(&["ext1", "img", "a.png"]), Slot::File(b"PNG".to_vec()));
    disk.insert(path(&["empty"]), Slot::Dir);
    disk.insert(path(&["readme"]), Slot::File(Vec::new()));
    disk
}

#[test]
fn a_walk_begins_with_the_destination_root() {
    let walk = Walk::begin();
    assert_eq!(walk.asked(), &Step::CreateDir(vec![]));
    assert!(!walk.is_over());
}

#[test]
fn an_empty_directory_takes_two_steps() {
    let mut disk = BTreeMap::new();
    let (steps, done) = copy(&dir(vec![]), &mut disk);
    assert!(done);
    assert_eq!(steps, vec![Step::CreateDir(vec![]), Step::ListDir(vec![])]);
    assert_eq!(disk.len(), 1);
    assert_eq!(disk.get(&path(&[])), Some(&Slot::Dir));
}

#[test]
fn a_tree_is_walked_entry_by_entry() {
    let tree = dir(vec![("a.txt", file("a")), ("sub", dir(vec![("b.txt", file("b"))]))]);
    let mut disk = BTreeMap::new();
    let (steps, done) = copy(&tree, &mut disk);
    assert!(done);
    assert_eq!(
        steps,
        vec![
            Step::CreateDir(path(&[])),
            Step::ListDir(path(&[])),
            Step::Probe(path(&["a.txt"])),
            Step::CopyFile(path(&["a.txt"])),
            Step::Probe(path(&["sub"])),
            Step::CreateDir(path(&["sub"])),
            Step::ListDir(path(&["sub"])),
            Step::Probe(path(&["sub", "b.txt"])),
            Step::CopyFile(path(&["sub", "b.txt"])),
        ]
    );
}

#[test]
fn a_copy_into_an_empty_destination_mirrors_the_source() {
    let mut disk = BTreeMap::new();
    let (_, done) = copy(&sample(), &mut disk);
    assert!(done);
    assert_eq!(disk, expected_of_sample());
}

#[test]
fn a_second_copy_changes_nothing() {
    let mut disk = BTreeMap::new();
    assert!(copy(&sample(), &mut disk).1);
    let once = disk.clone();
    assert!(copy(&sample(), &mut disk).1);
    assert_eq!(disk, once);
}

#[test]
fn a_copy_overwrites_files_and_keeps_what_it_does_not_touch() {
    let mut disk = BTreeMap::new();
    disk.insert(path(&[]), Slot::Dir);
    disk.insert(path(&["style.css"]), Slot::File(b"old".to_vec()));
    disk.insert(path(&["index.html"]), Slot::File(b"<html>".to_vec()));
    disk.insert(path(&["ext1"]), Slot::Dir);
    disk.insert(path(&["ext1", "old.js"]), Slot::File(b"old()".to_vec()));
    let (_, done) = copy(&sample(), &mut disk);
    assert!(done);
    let mut expected = expected_of_sample();
    expected.insert(path(&["index.html"]), Slot::File(b"<html>".to_vec()));
    expected.insert(path(&["ext1", "old.js"]), Slot::File(b"old()".to_vec()));
    assert_eq!(disk, expected);
}

#[test]
fn the_extension_file_of_the_scenario_is_copied() {
    let tree = dir(vec![("ext1", dir(vec![("ext1.js", file("console.log(1)"))]))]);
    let mut disk = BTreeMap::new();
    let (steps, done) = copy(&tree, &mut disk);
    assert!(done);
    assert!(steps.contains(&Step::CopyFile(path(&["ext1", "ext1.js"]))));
    assert_eq!(
        disk.get(&path(&["ext1", "ext1.js"])),
        Some(&Slot::File(b"console.log(1)".to_vec()))
    );
}

#[test]
fn a_file_in_the_way_of_a_directory_fails_the_copy() {
    let mut disk = BTreeMap::new();
    disk.insert(path(&[]), Slot::Dir);
    disk.insert(path(&["ext1"]), Slot::File(b"in the way".to_vec()));
    let (steps, done) = copy(&sample(), &mut disk);
    assert!(!done);
    assert_eq!(steps.last(), Some(&Step::CreateDir(path(&["ext1"]))));
}

#[test]
fn a_directory_in_the_way_of_a_file_fails_the_copy() {
    let mut disk = BTreeMap::new();
    disk.insert(path(&[]), Slot::Dir);
    disk.insert(path(&["style.css"]), Slot::Dir);
    let (steps, done) = copy(&sample(), &mut disk);
    assert!(!done);
    assert_eq!(steps.last(), Some(&Step::CopyFile(path(&["style.css"]))));
}

#[test]
fn an_entry_that_is_no_file_is_taken_for_a_directory() {
    let tree = dir(vec![("pipe", Node::Other), ("later.txt", file("x"))]);
    let mut disk = BTreeMap::new();
    let (steps, done) = copy(&tree, &mut disk);
    assert!(!done);
    assert_eq!(
        steps,
        vec![
            Step::CreateDir(path(&[])),
            Step::ListDir(path(&[])),
            Step::Probe(path(&["pipe"])),
            Step::CreateDir(path(&["pipe"])),
            Step::ListDir(path(&["pipe"])),
        ]
    );
    assert_eq!(disk.get(&path(&["later.txt"])), None);
}

#[test]
fn a_source_that_is_no_directory_fails_the_copy() {
    let mut disk = BTreeMap::new();
    let (steps, done) = copy(&file("x"), &mut disk);
    assert!(!done);
    assert_eq!(steps, vec![Step::CreateDir(vec![]), Step::ListDir(vec![])]);
}

#[test]
fn a_failure_report_fails_the_walk_at_any_step() {
    let mut walk = Walk::begin();
    walk.step(Report::Failed);
    assert_eq!(walk.asked(), &Step::Failed);
    assert!(walk.is_over());

    let mut walk = Walk::begin();
    walk.step(Report::Created);
    walk.step(Report::Failed);
    assert_eq!(walk.asked(), &Step::Failed);

    let mut walk = Walk::begin();
    walk.step(Report::Created);
    walk.step(Report::Listed(path(&["a"])));
    assert_eq!(walk.asked(), &Step::Probe(path(&["a"])));
    walk.step(Report::Failed);
    assert_eq!(walk.asked(), &Step::Failed);

    let mut walk = Walk::begin();
    walk.step(Report::Created);
    walk.step(Report::Listed(path(&["a"])));
    walk.step(Report::Probed(true));
    assert_eq!(walk.asked(), &Step::CopyFile(path(&["a"])));
    walk.step(Report::Failed);
    assert_eq!(walk.asked(), &Step::Failed);
}

#[test]
fn a_report_that_does_not_answer_the_step_fails_the_walk() {
    let mut walk = Walk::begin();
    walk.step(Report::Copied);
    assert_eq!(walk.asked(), &Step::Failed);

    let mut walk = Walk::begin();
    walk.step(Report::Created);
    walk.step(Report::Probed(true));
    assert_eq!(walk.asked(), &Step::Failed);

    let mut walk = Walk::begin();
    walk.step(Report::Created);
    walk.step(Report::Listed(path(&["a"])));
    walk.step(Report::Listed(path(&["b"])));
    assert_eq!(walk.asked(), &Step::Failed);
}

#[test]
fn a_walk_that_is_over_stays_as_it_is() {
    let mut walk = Walk::begin();
    walk.step(Report::Created);
    walk.step(Report::Listed(vec![]));
    assert_eq!(walk.asked(), &Step::Done);
    walk.step(Report::Failed);
    assert_eq!(walk.asked(), &Step::Done);
    walk.step(Report::Copied);
    assert_eq!(walk.asked(), &Step::Done);

    let mut walk = Walk::begin();
    walk.step(Report::Failed);
    walk.step(Report::Created);
    assert_eq!(walk.asked(), &Step::Failed);
}

#[test]
fn directories_with_nothing_left_are_left_behind() {
    let tree = dir(vec![("a", dir(vec![("b", dir(vec![("c", dir(vec![]))]))])), ("z", file("z"))]);
    let mut disk = BTreeMap::new();
    let (steps, done) = copy(&tree, &mut disk);
    assert!(done);
    assert_eq!(
        &steps[steps.len() - 3..],
        &[
            Step::ListDir(path(&["a", "b", "c"])),
            Step::Probe(path(&["z"])),
            Step::CopyFile(path(&["z"])),
        ]
    );
    assert_eq!(disk.get(&path(&["a", "b", "c"])), Some(&Slot::Dir));
}
