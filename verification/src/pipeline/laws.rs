//! What holds of the order of a build, for every configuration.

use vstd::prelude::*;
use crate::config::ConfigModel;
use crate::document::Doc;
use crate::schema::decode::decode_catalog;
use super::{BuildModel, EventModel, TaskModel, FailureModel, Stage};

verus! {

/// The task asks for something to be written: a copy, or the index page.
pub open spec fn writes(task: TaskModel) -> bool {
    task is Copy || task is WriteIndex
}

/// Nothing is written without a catalog.
///
/// The first task of a build writes nothing. Where the document that was
/// loaded is no catalog, the build is given up at once, for the reason that
/// the schema gives; so it is where the text was no document at all. A
/// build that was given up stays so: whatever event follows, it asks for
/// nothing to be written.
pub proof fn law_no_catalog_no_output(
    config: ConfigModel,
    document: Doc,
    detail: Seq<char>,
    later: EventModel,
)
    requires
        decode_catalog(document) is Err,
    ensures
        !writes(BuildModel::first_task(config)),
        ({
            let (build, task) = BuildModel::start(config).next(EventModel::Catalog(document));
            &&& task == TaskModel::Abort(FailureModel::Catalog(decode_catalog(document)->Err_0))
            &&& build.stage == Stage::Aborted
            &&& build.next(later).0.stage == Stage::Aborted
            &&& !writes(build.next(later).1)
        }),
        ({
            let (build, task) = BuildModel::start(config).next(EventModel::Malformed(detail));
            &&& task == TaskModel::Abort(FailureModel::Syntax(detail))
            &&& build.stage == Stage::Aborted
            &&& build.next(later).0.stage == Stage::Aborted
            &&& !writes(build.next(later).1)
        }),
{
}

/// A failure ends the build.
///
/// Whatever the stage, a failure of the outside work is answered by giving
/// the build up, unless the build is done already; and that is no task that
/// writes.
pub proof fn law_failure_ends_build(build: BuildModel)
    ensures
        !writes(build.next(EventModel::Failed).1),
        build.stage != Stage::Finished ==> build.next(EventModel::Failed).0.stage
            == Stage::Aborted && build.next(EventModel::Failed).1 is Abort,
{
}

} // verus!
