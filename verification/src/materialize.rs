//! Copying a directory tree, one file system operation at a time.
//!
//! [`Walk`] decides what a recursive copy does next; the caller does it and
//! reports back. Paths are relative: a sequence of names that is joined onto
//! the source root to read and onto the destination root to write, so an
//! entry lands in the destination under the names it has in the source.

use vstd::prelude::*;
use crate::text::{texts, copy_strings};

pub mod model;
pub mod laws;

verus! {

/// A file system operation, as the model sees it.
pub enum StepModel {
    CreateDir(Seq<Seq<char>>),
    ListDir(Seq<Seq<char>>),
    Probe(Seq<Seq<char>>),
    CopyFile(Seq<Seq<char>>),
    Done,
    Failed,
}

/// What the caller of a [`Walk`] is to do next.
#[derive(Clone, Debug, PartialEq, Eq)]
pub enum Step {
    /// Create this directory of the destination, and its ancestors where they are missing.
    CreateDir(Vec<String>),
    /// Read the names of the entries of this directory of the source.
    ListDir(Vec<String>),
    /// Find out whether this entry of the source is a regular file.
    Probe(Vec<String>),
    /// Copy this file of the source over the file of the same path in the destination.
    CopyFile(Vec<String>),
    /// The whole tree has been copied.
    Done,
    /// The copy was given up: an operation failed, or a report did not answer the step asked.
    Failed,
}

impl View for Step {
    type V = StepModel;

    open spec fn view(&self) -> StepModel {
        match self {
            Step::CreateDir(p) => StepModel::CreateDir(texts(p@)),
            Step::ListDir(p) => StepModel::ListDir(texts(p@)),
            Step::Probe(p) => StepModel::Probe(texts(p@)),
            Step::CopyFile(p) => StepModel::CopyFile(texts(p@)),
            Step::Done => StepModel::Done,
            Step::Failed => StepModel::Failed,
        }
    }
}

/// The outcome of a step, as the model sees it.
pub enum ReportModel {
    Created,
    Listed(Seq<Seq<char>>),
    Probed(bool),
    Copied,
    Failed,
}

/// What came of the step that a [`Walk`] asked for.
#[derive(Clone, Debug, PartialEq, Eq)]
pub enum Report {
    /// The directory exists now.
    Created,
    /// The directory holds entries of these names, in the order in which they are to be visited.
    Listed(Vec<String>),
    /// Whether the entry is a regular file.
    Probed(bool),
    /// The file has been copied.
    Copied,
    /// The operation failed.
    Failed,
}

impl View for Report {
    type V = ReportModel;

    open spec fn view(&self) -> ReportModel {
        match self {
            Report::Created => ReportModel::Created,
            Report::Listed(names) => ReportModel::Listed(texts(names@)),
            Report::Probed(is_file) => ReportModel::Probed(*is_file),
            Report::Copied => ReportModel::Copied,
            Report::Failed => ReportModel::Failed,
        }
    }
}

/// A directory that the walk is inside of: its path and the entries it has yet to visit.
pub struct LevelModel {
    pub dir: Seq<Seq<char>>,
    pub rest: Seq<Seq<char>>,
}

/// A directory that the walk is inside of.
#[derive(Debug)]
pub struct Level {
    dir: Vec<String>,
    names: Vec<String>,
    next: usize,
}

impl View for Level {
    type V = LevelModel;

    closed spec fn view(&self) -> LevelModel {
        LevelModel {
            dir: texts(self.dir@),
            rest: if self.next <= self.names@.len() {
                texts(self.names@).subrange(self.next as int, self.names@.len() as int)
            } else {
                Seq::empty()
            },
        }
    }
}

/// The state of a copy: the directories it is inside of, outermost first, and the step it waits on.
pub struct WalkModel {
    pub levels: Seq<LevelModel>,
    pub asked: StepModel,
}

impl WalkModel {
    /// A copy starts by creating the destination root.
    pub open spec fn start() -> WalkModel {
        WalkModel { levels: Seq::empty(), asked: StepModel::CreateDir(Seq::empty()) }
    }

    /// The state in which nothing more is asked for.
    pub open spec fn failed() -> WalkModel {
        WalkModel { levels: Seq::empty(), asked: StepModel::Failed }
    }

    /// Goes on with the innermost directory that still has an entry to visit:
    /// asks whether that entry is a file. Directories with nothing left are
    /// left behind; when none remains the copy is done.
    pub open spec fn resume(levels: Seq<LevelModel>) -> WalkModel
        decreases levels.len(),
    {
        if levels.len() == 0 {
            WalkModel { levels: Seq::empty(), asked: StepModel::Done }
        } else {
            let top = levels.last();
            if top.rest.len() == 0 {
                Self::resume(levels.drop_last())
            } else {
                WalkModel {
                    levels: levels.drop_last().push(
                        LevelModel { dir: top.dir, rest: top.rest.drop_first() },
                    ),
                    asked: StepModel::Probe(top.dir.push(top.rest.first())),
                }
            }
        }
    }

    /// The state after a report.
    ///
    /// A created directory is listed next. A listing opens a new level. An
    /// entry that is a file is copied; one that is not is taken for a
    /// directory and created in the destination. A finished or failed copy
    /// stays as it is. A failure report, or a report that does not answer
    /// the step asked, fails the copy.
    pub open spec fn next(self, report: ReportModel) -> WalkModel {
        match (self.asked, report) {
            (StepModel::Done, _) => self,
            (StepModel::Failed, _) => self,
            (StepModel::CreateDir(p), ReportModel::Created) => WalkModel {
                levels: self.levels,
                asked: StepModel::ListDir(p),
            },
            (StepModel::ListDir(p), ReportModel::Listed(names)) => Self::resume(
                self.levels.push(LevelModel { dir: p, rest: names }),
            ),
            (StepModel::Probe(p), ReportModel::Probed(is_file)) => WalkModel {
                levels: self.levels,
                asked: if is_file {
                    StepModel::CopyFile(p)
                } else {
                    StepModel::CreateDir(p)
                },
            },
            (StepModel::CopyFile(_), ReportModel::Copied) => Self::resume(self.levels),
            _ => Self::failed(),
        }
    }
}

/// The decisions of a recursive directory copy.
#[derive(Debug)]
pub struct Walk {
    levels: Vec<Level>,
    asked: Step,
}

impl View for Walk {
    type V = WalkModel;

    closed spec fn view(&self) -> WalkModel {
        WalkModel {
            levels: Seq::new(self.levels@.len(), |i: int| self.levels@[i]@),
            asked: self.asked@,
        }
    }
}

impl Walk {
    /// A copy that has not begun: it asks for the destination root.
    pub fn begin() -> (walk: Walk)
        ensures
            walk@ == WalkModel::start(),
    {
        let walk = Walk { levels: Vec::new(), asked: Step::CreateDir(Vec::new()) };
        assert(walk@.levels =~= Seq::empty());
        assert(texts(Seq::<String>::empty()) =~= Seq::empty());
        walk
    }

    /// The step that the walk waits on.
    pub fn asked(&self) -> (step: &Step)
        ensures
            step@ == self@.asked,
    {
        &self.asked
    }

    /// Whether the walk has come to an end, done or failed.
    pub fn is_over(&self) -> (over: bool)
        ensures
            over == (self@.asked is Done || self@.asked is Failed),
    {
        match self.asked {
            Step::Done => true,
            Step::Failed => true,
            _ => false,
        }
    }

    /// Gives the copy up.
    fn fail(&mut self)
        ensures
            final(self)@ == WalkModel::failed(),
    {
        self.levels = Vec::new();
        self.asked = Step::Failed;
        assert(self@.levels =~= Seq::empty());
    }

    /// Goes on with the innermost directory that still has an entry to visit.
    fn resume(&mut self)
        ensures
            final(self)@ == WalkModel::resume(old(self)@.levels),
    {
        loop
            invariant
                WalkModel::resume(self@.levels) == WalkModel::resume(old(self)@.levels),
            decreases self.levels@.len(),
        {
            let ghost before = self@.levels;
            match self.levels.pop() {
                None => {
                    self.asked = Step::Done;
                    assert(self@.levels =~= Seq::empty());
                    return;
                },
                Some(level) => {
                    assert(self@.levels =~= before.drop_last());
                    assert(level@ == before.last());
                    if level.next < level.names.len() {
                        let mut entry = copy_strings(&level.dir);
                        entry.push(level.names[level.next].clone());
                        let rest = Level {
                            dir: level.dir,
                            names: level.names,
                            next: level.next + 1,
                        };
                        assert(rest@.dir == before.last().dir);
                        assert(rest@.rest =~= before.last().rest.drop_first());
                        assert(texts(entry@) =~= before.last().dir.push(
                            before.last().rest.first(),
                        ));
                        self.levels.push(rest);
                        self.asked = Step::Probe(entry);
                        assert(self@.levels =~= before.drop_last().push(rest@));
                        return;
                    }
                    assert(before.last().rest.len() == 0);
                },
            }
        }
    }

    /// Takes the report of the step asked for and decides the next one.
    pub fn step(&mut self, report: Report)
        ensures
            final(self)@ == old(self)@.next(report@),
    {
        let ghost before = self@;
        let mut asked = Step::Failed;
        std::mem::swap(&mut self.asked, &mut asked);
        assert(asked@ == before.asked);
        assert(self@.levels == before.levels);
        match (asked, report) {
            (Step::Done, _) => {
                self.asked = Step::Done;
            },
            (Step::Failed, _) => {},
            (Step::CreateDir(p), Report::Created) => {
                self.asked = Step::ListDir(p);
            },
            (Step::ListDir(p), Report::Listed(names)) => {
                let level = Level { dir: p, names, next: 0 };
                assert(level@.rest =~= texts(names@));
                self.levels.push(level);
                assert(self@.levels =~= before.levels.push(level@));
                self.resume();
            },
            (Step::Probe(p), Report::Probed(is_file)) => {
                if is_file {
                    self.asked = Step::CopyFile(p);
                } else {
                    self.asked = Step::CreateDir(p);
                }
            },
            (Step::CopyFile(_), Report::Copied) => {
                self.resume();
            },
            _ => {
                self.fail();
            },
        }
    }
}

} // verus!
