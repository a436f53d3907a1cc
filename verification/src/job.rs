//! Storing a monitor on the server, which takes several calls.
use crate::error::result_view;
use crate::error::Error;
use crate::error::ErrorView;
use crate::model::tag_views;
use crate::model::value_option;
use crate::model::Monitor;
use crate::model::MonitorCommonView;
use crate::model::MonitorView;
use crate::model::Tag;
use crate::model::TagView;
use crate::monitors::distinct;
use crate::monitors::law_first_entry_is_found;
use crate::monitors::law_get_after_insert;
use crate::monitors::law_insert_keeps_distinct;
use crate::monitors::lookup;
use crate::monitors::with_entry;
use crate::json::JsonView;
use crate::request::argument_views;
use crate::request::call_for_id;
use crate::request::call_for_ok;
use crate::request::fails_with;
use crate::request::settled_id;
use crate::request::settled_ok;
use crate::request::verified_call;
use crate::request::Argument;
use crate::request::ArgumentView;
use crate::request::CallOutcome;
use crate::request::CallOutcomeView;
use crate::request::Request;
use crate::request::RequestView;
use crate::tags::change_views;
use crate::tags::changes_between;
use crate::tags::changes_to;
use crate::tags::is_repeated;
use crate::tags::law_changes_reach_wanted;
use crate::tags::law_no_change_when_settled;
use crate::tags::law_repeated_stands_twice;
use crate::tags::law_unknown_gets_every_tag;
use crate::tags::tag_changes;
use crate::tags::value_after;
use crate::tags::value_of;
use crate::tags::TagChange;
use crate::tags::TagChangeView;
use crate::text::decimal;
use crate::text::decimal_of;
use crate::worker::group_verdict;
use crate::worker::monitor_tag_call;
use crate::worker::with_group;
use crate::worker::Worker;
use crate::worker::WorkerView;
use serde_json::Value;
use vstd::prelude::*;

verus! {

/// How far a job has come.
#[derive(Debug)]
enum Stage {
    /// The monitor is being added.
    Adding,
    /// The monitor is being stored.
    Editing,
    /// The tags are being changed, at the change `next`.
    Tagging { monitor_id: i32, changes: Vec<TagChange>, next: usize },
    /// The job is over.
    Finished(Result<(), Error>),
}

/// How far a job has come.
pub enum StageView {
    Adding,
    Editing,
    /// The changes that are still to be made to the tags of a monitor.
    Tagging { monitor_id: i32, left: Seq<TagChangeView> },
    Finished(Result<(), ErrorView>),
}

/// A job that adds a monitor, or changes one. It makes one call after the other: what is to be sent
/// is `pending`, and `step` takes in what became of it.
#[derive(Debug)]
pub struct MonitorJob {
    monitor: Monitor,
    /// The tags that the monitor gets back at the end.
    tags: Vec<Tag>,
    /// The notifications that the monitor gets back once it is added.
    notifications: Option<Value>,
    /// The id that the monitor was added under.
    added: Option<i32>,
    stage: Stage,
}

/// What a `MonitorJob` holds.
pub struct JobView {
    pub monitor: MonitorView,
    pub tags: Seq<TagView>,
    pub notifications: Option<JsonView>,
    pub added: Option<i32>,
    pub stage: StageView,
}

impl JobView {
    /// Whether there is something left to be done as long as the tags are being changed.
    pub open spec fn well_formed(self) -> bool {
        self.stage matches StageView::Tagging { left, .. } ==> left.len() > 0
    }

    /// Whether the job is over.
    pub open spec fn is_finished(self) -> bool {
        self.stage is Finished
    }
}

impl View for MonitorJob {
    type V = JobView;

    closed spec fn view(&self) -> JobView {
        JobView {
            monitor: self.monitor@,
            tags: tag_views(self.tags@),
            notifications: value_option(self.notifications),
            added: self.added,
            stage: match self.stage {
                Stage::Adding => StageView::Adding,
                Stage::Editing => StageView::Editing,
                Stage::Tagging { monitor_id, changes, next } => StageView::Tagging {
                    monitor_id,
                    left: change_views(changes@).skip(next as int),
                },
                Stage::Finished(result) => StageView::Finished(result_view(result)),
            },
        }
    }
}

/// The call that adds a monitor.
pub open spec fn add_call(monitor: MonitorView) -> RequestView {
    verified_call("add"@, seq![ArgumentView::Monitor(monitor)], "/monitorID"@)
}

/// The call that stores a monitor.
pub open spec fn edit_call(monitor: MonitorView) -> RequestView {
    verified_call("editMonitor"@, seq![ArgumentView::Monitor(monitor)], "/monitorID"@)
}

/// The call that makes a change to the tags of a monitor.
pub open spec fn change_call(monitor_id: i32, change: TagChangeView) -> RequestView {
    match change {
        TagChangeView::Add { tag_id, value } => monitor_tag_call(
            "addMonitorTag"@,
            monitor_id,
            tag_id,
            value,
        ),
        TagChangeView::Edit { tag_id, value } => monitor_tag_call(
            "editMonitorTag"@,
            monitor_id,
            tag_id,
            value,
        ),
        TagChangeView::Delete { tag_id, value } => monitor_tag_call(
            "deleteMonitorTag"@,
            monitor_id,
            tag_id,
            value,
        ),
    }
}

/// The call that a job has to make next.
pub open spec fn pending_call(job: JobView) -> Option<RequestView> {
    match job.stage {
        StageView::Adding => Some(add_call(job.monitor)),
        StageView::Editing => Some(edit_call(job.monitor)),
        StageView::Tagging { monitor_id, left } => Some(change_call(monitor_id, left[0])),
        StageView::Finished(_) => None,
    }
}

/// A monitor with these tags.
pub open spec fn with_tags(monitor: MonitorView, tags: Seq<TagView>) -> MonitorView {
    MonitorView { common: MonitorCommonView { tags, ..monitor.common }, ..monitor }
}

/// A monitor with these notifications.
pub open spec fn with_notification_ids(
    monitor: MonitorView,
    notification_id_list: Option<JsonView>,
) -> MonitorView {
    MonitorView {
        common: MonitorCommonView { notification_id_list, ..monitor.common },
        ..monitor
    }
}

/// A monitor with this id.
pub open spec fn with_id(monitor: MonitorView, id: i32) -> MonitorView {
    MonitorView { common: MonitorCommonView { id: Some(id), ..monitor.common }, ..monitor }
}

/// A job that is over before it began.
pub open spec fn failed_job(monitor: MonitorView, added: Option<i32>, error: ErrorView) -> JobView {
    JobView {
        monitor,
        tags: Seq::empty(),
        notifications: None,
        added,
        stage: StageView::Finished(Err(error)),
    }
}

/// A job that adds a monitor: its group is looked up, and it goes out without tags and
/// notifications.
pub open spec fn add_job(worker: WorkerView, monitor: MonitorView) -> JobView {
    let resolved = with_group(worker.monitors, monitor);
    match group_verdict(worker.monitors, monitor) {
        Ok(_) => JobView {
            monitor: with_notification_ids(with_tags(resolved, Seq::empty()), None),
            tags: resolved.common.tags,
            notifications: resolved.common.notification_id_list,
            added: None,
            stage: StageView::Adding,
        },
        Err(error) => failed_job(resolved, None, error),
    }
}

/// A job that stores a monitor: its group is looked up, and it goes out without tags. Where it was
/// just added, `added` is the id that it got.
pub open spec fn edit_job(
    worker: WorkerView,
    monitor: MonitorView,
    added: Option<i32>,
) -> JobView {
    let resolved = with_group(worker.monitors, monitor);
    match group_verdict(worker.monitors, monitor) {
        Ok(_) => JobView {
            monitor: with_tags(resolved, Seq::empty()),
            tags: resolved.common.tags,
            notifications: None,
            added,
            stage: StageView::Editing,
        },
        Err(error) => failed_job(resolved, added, error),
    }
}

/// The changes that give a monitor its tags, by what is known of that monitor.
pub open spec fn tag_plan(
    worker: WorkerView,
    monitor_id: i32,
    tags: Seq<TagView>,
) -> Seq<TagChangeView> {
    let current = match lookup(worker.monitors, decimal(monitor_id as int)) {
        Some(monitor) => Some(monitor.common.tags),
        None => None,
    };
    changes_to(current, tags)
}

/// A job that goes on with some changes to the tags. Without any it is over: the monitor has its
/// tags back, and one that was added is among the known monitors.
pub open spec fn tag_job(
    job: JobView,
    worker: WorkerView,
    monitor_id: i32,
    left: Seq<TagChangeView>,
) -> (JobView, WorkerView) {
    if left.len() > 0 {
        (JobView { stage: StageView::Tagging { monitor_id, left }, ..job }, worker)
    } else {
        let monitor = with_tags(job.monitor, job.tags);
        let known = match job.added {
            Some(id) => WorkerView {
                monitors: with_entry(worker.monitors, decimal(id as int), monitor),
                ..worker
            },
            None => worker,
        };
        (
            JobView { monitor, tags: Seq::empty(), stage: StageView::Finished(Ok(())), ..job },
            known,
        )
    }
}

/// A job after its call came to `outcome`.
pub open spec fn job_step(
    job: JobView,
    worker: WorkerView,
    outcome: CallOutcomeView,
) -> (JobView, WorkerView) {
    match job.stage {
        StageView::Adding => match settled_id(add_call(job.monitor), outcome) {
            Ok(id) => {
                let monitor = with_tags(
                    with_notification_ids(with_id(job.monitor, id), job.notifications),
                    job.tags,
                );
                (edit_job(worker, monitor, Some(id)), worker)
            },
            Err(error) => (
                JobView { stage: StageView::Finished(Err(error)), ..job },
                worker,
            ),
        },
        StageView::Editing => match settled_id(edit_call(job.monitor), outcome) {
            Ok(id) => tag_job(job, worker, id, tag_plan(worker, id, job.tags)),
            Err(error) => (
                JobView { stage: StageView::Finished(Err(error)), ..job },
                worker,
            ),
        },
        StageView::Tagging { monitor_id, left } => match settled_ok(
            change_call(monitor_id, left[0]),
            outcome,
        ) {
            Ok(_) => tag_job(job, worker, monitor_id, left.skip(1)),
            Err(error) => (
                JobView { stage: StageView::Finished(Err(error)), ..job },
                worker,
            ),
        },
        StageView::Finished(_) => (job, worker),
    }
}

/// The call that sends a monitor.
fn monitor_call(method: &str, monitor: &Monitor) -> (r: Request)
    ensures
        r@ == verified_call(method@, seq![ArgumentView::Monitor(monitor@)], "/monitorID"@),
{
    let args = vec![Argument::Monitor(monitor.clone())];
    assert(argument_views(args@) =~= seq![ArgumentView::Monitor(monitor@)]);
    Request::verified(method, args, "/monitorID")
}

/// The call that makes a change to the tags of a monitor.
fn call_for_change(worker: &Worker, monitor_id: i32, change: &TagChange) -> (r: Request)
    ensures
        r@ == change_call(monitor_id, change@),
{
    match change {
        TagChange::Add { tag_id, value } => worker.add_monitor_tag(monitor_id, *tag_id, value),
        TagChange::Edit { tag_id, value } => worker.edit_monitor_tag(monitor_id, *tag_id, value),
        TagChange::Delete { tag_id, value } => worker.delete_monitor_tag(
            monitor_id,
            *tag_id,
            value,
        ),
    }
}

impl Worker {
    /// The changes that give a monitor its tags, by what is known of that monitor.
    pub fn update_monitor_tags(&self, monitor_id: i32, tags: &Vec<Tag>) -> (r: Vec<TagChange>)
        ensures
            change_views(r@) == tag_plan(self@, monitor_id, tag_views(tags@)),
    {
        let key = decimal_of(monitor_id);
        match self.monitors.get(key.as_str()) {
            Some(monitor) => tag_changes(Some(&monitor.common.tags), tags),
            None => tag_changes(None, tags),
        }
    }

    /// Starts to add a monitor.
    pub fn add_monitor(&self, monitor: Monitor) -> (r: MonitorJob)
        ensures
            r@ == add_job(self@, monitor@),
            r@.well_formed(),
    {
        let ghost given = monitor@;
        let mut monitor = monitor;
        let resolved = self.resolve_group(&mut monitor);
        let mut tags: Vec<Tag> = Vec::new();
        let mut notifications: Option<Value> = None;
        let stage = match resolved {
            Ok(_) => {
                std::mem::swap(&mut tags, &mut monitor.common.tags);
                std::mem::swap(&mut notifications, &mut monitor.common.notification_id_list);
                Stage::Adding
            },
            Err(error) => Stage::Finished(Err(error)),
        };
        let job = MonitorJob { monitor, tags, notifications, added: None, stage };
        assert(job@.monitor.common.tags =~= add_job(self@, given).monitor.common.tags);
        assert(job@.tags =~= add_job(self@, given).tags);
        job
    }

    /// Starts to change a monitor.
    pub fn edit_monitor(&self, monitor: Monitor) -> (r: MonitorJob)
        ensures
            r@ == edit_job(self@, monitor@, None),
            r@.well_formed(),
    {
        MonitorJob::edit(self, monitor, None)
    }
}

impl MonitorJob {
    /// The next change is one of the changes, as long as the tags are being changed.
    #[verifier::type_invariant]
    spec fn valid(self) -> bool {
        self.stage matches Stage::Tagging { changes, next, .. } ==> next < changes@.len()
    }

    /// Starts to store a monitor, which may just have been added.
    fn edit(worker: &Worker, monitor: Monitor, added: Option<i32>) -> (r: MonitorJob)
        ensures
            r@ == edit_job(worker@, monitor@, added),
            r@.well_formed(),
    {
        let ghost given = monitor@;
        let mut monitor = monitor;
        let resolved = worker.resolve_group(&mut monitor);
        let mut tags: Vec<Tag> = Vec::new();
        let stage = match resolved {
            Ok(_) => {
                std::mem::swap(&mut tags, &mut monitor.common.tags);
                Stage::Editing
            },
            Err(error) => Stage::Finished(Err(error)),
        };
        let job = MonitorJob { monitor, tags, notifications: None, added, stage };
        assert(job@.monitor.common.tags =~= edit_job(worker@, given, added).monitor.common.tags);
        assert(job@.tags =~= edit_job(worker@, given, added).tags);
        job
    }

    /// Goes on with the changes from `next` on.
    fn tag(
        self,
        worker: &mut Worker,
        monitor_id: i32,
        changes: Vec<TagChange>,
        next: usize,
    ) -> (r: MonitorJob)
        requires
            next <= changes@.len(),
        ensures
            (r@, final(worker)@) == tag_job(
                self@,
                old(worker)@,
                monitor_id,
                change_views(changes@).skip(next as int),
            ),
            r@.well_formed(),
    {
        proof {
            use_type_invariant(&self);
        }
        let mut job = self;
        if next < changes.len() {
            job.stage = Stage::Tagging { monitor_id, changes, next };
        } else {
            job.monitor.common.tags = job.tags;
            job.tags = Vec::new();
            assert(tag_views(job.tags@) =~= Seq::<TagView>::empty());
            if let Some(id) = job.added {
                worker.monitors.insert(decimal_of(id), job.monitor.clone());
            }
            job.stage = Stage::Finished(Ok(()));
        }
        job
    }

    /// The job after its call failed.
    fn fail(self, error: Error) -> (r: MonitorJob)
        ensures
            r@ == (JobView { stage: StageView::Finished(Err(error@)), ..self@ }),
            r@.well_formed(),
    {
        let mut job = self;
        job.stage = Stage::Finished(Err(error));
        job
    }

    /// The call that is to be made next, nothing where the job is over.
    pub fn pending(&self, worker: &Worker) -> (r: Option<Request>)
        ensures
            match r {
                Some(request) => pending_call(self@) == Some(request@),
                None => pending_call(self@) is None,
            },
            self@.well_formed(),
    {
        proof {
            use_type_invariant(self);
        }
        match &self.stage {
            Stage::Adding => Some(monitor_call("add", &self.monitor)),
            Stage::Editing => Some(monitor_call("editMonitor", &self.monitor)),
            Stage::Tagging { monitor_id, changes, next } => {
                assert(change_views(changes@).skip(*next as int)[0] == changes@[*next as int]@);
                Some(call_for_change(worker, *monitor_id, &changes[*next]))
            },
            Stage::Finished(_) => None,
        }
    }

    /// Takes in what became of the call that was made.
    pub fn step(self, worker: &mut Worker, outcome: CallOutcome) -> (r: MonitorJob)
        ensures
            (r@, final(worker)@) == job_step(self@, old(worker)@, outcome@),
            r@.well_formed(),
    {
        proof {
            use_type_invariant(&self);
        }
        let request = match self.pending(worker) {
            Some(request) => request,
            None => {
                return self;
            },
        };
        let mut job = self;
        let mut stage = Stage::Adding;
        std::mem::swap(&mut stage, &mut job.stage);
        match stage {
            Stage::Adding => match call_for_id(&request, outcome) {
                Ok(id) => {
                    let mut monitor = job.monitor;
                    monitor.common.id = Some(id);
                    monitor.common.notification_id_list = job.notifications;
                    monitor.common.tags = job.tags;
                    MonitorJob::edit(worker, monitor, Some(id))
                },
                Err(error) => job.fail(error),
            },
            Stage::Editing => match call_for_id(&request, outcome) {
                Ok(id) => {
                    let changes = worker.update_monitor_tags(id, &job.tags);
                    assert(change_views(changes@).skip(0) =~= change_views(changes@));
                    job.tag(worker, id, changes, 0)
                },
                Err(error) => job.fail(error),
            },
            Stage::Tagging { monitor_id, changes, next } => match call_for_ok(&request, outcome) {
                Ok(_) => {
                    assert(change_views(changes@).skip(next as int).skip(1) =~= change_views(
                        changes@,
                    ).skip(next + 1));
                    assert(changes@.len() == changes.len());
                    job.tag(worker, monitor_id, changes, next + 1)
                },
                Err(error) => job.fail(error),
            },
            Stage::Finished(result) => {
                job.stage = Stage::Finished(result);
                job
            },
        }
    }

    /// The monitor as it stands.
    pub fn monitor(&self) -> (r: &Monitor)
        ensures
            r@ == self@.monitor,
            self@.well_formed(),
    {
        proof {
            use_type_invariant(self);
        }
        &self.monitor
    }

    /// What the job came to, with the monitor as the job leaves it.
    pub fn finish(self) -> (r: (Monitor, Result<(), Error>))
        requires
            self@.is_finished(),
        ensures
            r.0@ == self@.monitor,
            StageView::Finished(result_view(r.1)) == self@.stage,
    {
        let result = match self.stage {
            Stage::Finished(result) => result,
            _ => Ok(()),
        };
        (self.monitor, result)
    }
}

/// A job changes the monitor `resolved`, whose group was looked up: as long as it runs, and where it
/// failed, the monitor is without its tags; once it has succeeded the monitor is `resolved` again.
pub open spec fn edits(job: JobView, resolved: MonitorView) -> bool {
    let stripped = with_tags(resolved, Seq::empty());
    match job.stage {
        StageView::Adding => false,
        StageView::Editing => {
            job.monitor == stripped && job.tags == resolved.common.tags && job.added is None
        },
        StageView::Tagging { .. } => {
            job.monitor == stripped && job.tags == resolved.common.tags && job.added is None
        },
        StageView::Finished(Ok(_)) => job.monitor == resolved,
        StageView::Finished(Err(_)) => job.monitor == stripped,
    }
}

/// Where the group of a monitor is found, or it names none, the job that changes it is as `edits`
/// says; else the job is over at once, and the monitor keeps its tags.
pub proof fn law_edit_begins(worker: WorkerView, monitor: MonitorView)
    ensures
        ({
            let job = edit_job(worker, monitor, None);
            let resolved = with_group(worker.monitors, monitor);
            match group_verdict(worker.monitors, monitor) {
                Ok(_) => edits(job, resolved) && pending_call(job) == Some(
                    edit_call(with_tags(resolved, Seq::empty())),
                ),
                Err(error) => {
                    &&& job.stage == StageView::Finished(Err(error))
                    &&& job.monitor == resolved
                    &&& job.monitor.common.tags == monitor.common.tags
                },
            }
        }),
{
}

/// Whatever becomes of its calls, a job that changes a monitor goes on as `edits` says, and touches
/// nothing that is known of the server.
pub proof fn law_edit_goes_on(
    job: JobView,
    resolved: MonitorView,
    worker: WorkerView,
    outcome: CallOutcomeView,
)
    requires
        edits(job, resolved),
    ensures
        edits(job_step(job, worker, outcome).0, resolved),
        job_step(job, worker, outcome).1 == worker,
{
    assert(with_tags(with_tags(resolved, Seq::empty()), resolved.common.tags) == resolved);
}

/// A monitor that belongs to no group and names none.
pub open spec fn ungrouped(monitor: MonitorView) -> MonitorView {
    MonitorView {
        common: MonitorCommonView { parent: None, parent_name: None, ..monitor.common },
        ..monitor
    }
}

/// A job adds the monitor `resolved`, whose group was looked up. It goes out to be added without tags
/// and notifications. Once it is added it has its id and its notifications, belongs to no group, and
/// is without its tags until the job has succeeded. A job that failed leaves it without tags.
pub open spec fn adds(job: JobView, resolved: MonitorView) -> bool {
    match job.stage {
        StageView::Adding => {
            &&& job.monitor == with_notification_ids(with_tags(resolved, Seq::empty()), None)
            &&& job.tags == resolved.common.tags
            &&& job.notifications == resolved.common.notification_id_list
            &&& job.added is None
        },
        StageView::Finished(Ok(_)) => {
            job.added is Some && job.monitor == with_id(ungrouped(resolved), job.added->0)
        },
        StageView::Finished(Err(_)) => {
            &&& job.monitor.common.tags == Seq::<TagView>::empty()
            &&& job.added is None ==> job.monitor == with_notification_ids(
                with_tags(resolved, Seq::empty()),
                None,
            )
            &&& job.added is Some ==> job.monitor == with_tags(
                with_id(ungrouped(resolved), job.added->0),
                Seq::empty(),
            )
        },
        _ => {
            &&& job.added is Some
            &&& job.monitor == with_tags(
                with_id(ungrouped(resolved), job.added->0),
                Seq::empty(),
            )
            &&& job.tags == resolved.common.tags
        },
    }
}

/// Where the group of a monitor is found, or it names none, the job that adds it is as `adds` says;
/// else the job is over at once, and the monitor keeps its tags and notifications.
pub proof fn law_add_begins(worker: WorkerView, monitor: MonitorView)
    ensures
        ({
            let job = add_job(worker, monitor);
            let resolved = with_group(worker.monitors, monitor);
            match group_verdict(worker.monitors, monitor) {
                Ok(_) => adds(job, resolved) && job.stage is Adding && resolved.common.parent_name
                    is None,
                Err(error) => {
                    &&& job.stage == StageView::Finished(Err(error))
                    &&& job.monitor == resolved
                    &&& job.monitor.common.tags == monitor.common.tags
                    &&& job.monitor.common.notification_id_list
                        == monitor.common.notification_id_list
                },
            }
        }),
{
}

/// Whatever becomes of its calls, a job that adds a monitor goes on as `adds` says.
pub proof fn law_add_goes_on(
    job: JobView,
    resolved: MonitorView,
    worker: WorkerView,
    outcome: CallOutcomeView,
)
    requires
        adds(job, resolved),
        resolved.common.parent_name is None,
    ensures
        adds(job_step(job, worker, outcome).0, resolved),
{
    match job.stage {
        StageView::Adding => {
            match settled_id(add_call(job.monitor), outcome) {
                Ok(id) => {
                    let monitor = with_tags(
                        with_notification_ids(with_id(job.monitor, id), job.notifications),
                        job.tags,
                    );
                    assert(monitor == with_id(resolved, id));
                    assert(with_group(worker.monitors, monitor) == with_id(ungrouped(resolved), id));
                },
                Err(_) => {},
            }
        },
        _ => {},
    }
}

/// A monitor is among the known ones, under its id, from the step on in which the job that adds it
/// succeeds, and every other monitor stays as it was known. No other step changes what is known.
pub proof fn law_added_monitor_is_known(
    job: JobView,
    worker: WorkerView,
    outcome: CallOutcomeView,
    other: Seq<char>,
)
    requires
        !job.is_finished(),
    ensures
        ({
            let (after, known) = job_step(job, worker, outcome);
            if after.stage == StageView::Finished(Ok::<(), ErrorView>(())) && after.added is Some {
                &&& lookup(known.monitors, decimal(after.added->0 as int)) == Some(after.monitor)
                &&& other != decimal(after.added->0 as int) ==> lookup(known.monitors, other)
                    == lookup(worker.monitors, other)
                &&& known == (WorkerView { monitors: known.monitors, ..worker })
            } else {
                known == worker
            }
        }),
{
    let (after, known) = job_step(job, worker, outcome);
    if after.added is Some {
        let key = decimal(after.added->0 as int);
        law_get_after_insert(worker.monitors, key, after.monitor, key);
        law_get_after_insert(worker.monitors, key, after.monitor, other);
    }
}

/// Whatever becomes of its calls, a job keeps every key of the known monitors to one entry.
pub proof fn law_known_keys_stay_distinct(
    job: JobView,
    worker: WorkerView,
    outcome: CallOutcomeView,
)
    requires
        distinct(worker.monitors),
    ensures
        distinct(job_step(job, worker, outcome).1.monitors),
{
    let (after, _) = job_step(job, worker, outcome);
    if after.added is Some {
        let key = decimal(after.added->0 as int);
        law_insert_keeps_distinct(worker.monitors, key, after.monitor);
    }
}

/// The changes to the tags are made one after the other: one that is acknowledged is done with, and
/// the first that is not ends the job.
pub proof fn law_changes_made_in_order(
    job: JobView,
    worker: WorkerView,
    outcome: CallOutcomeView,
    monitor_id: i32,
    left: Seq<TagChangeView>,
)
    requires
        job.stage == (StageView::Tagging { monitor_id, left }),
        left.len() > 0,
    ensures
        pending_call(job) == Some(change_call(monitor_id, left[0])),
        ({
            let after = job_step(job, worker, outcome).0;
            match settled_ok(change_call(monitor_id, left[0]), outcome) {
                Ok(_) => if left.len() > 1 {
                    after.stage == (StageView::Tagging { monitor_id, left: left.skip(1) })
                } else {
                    after.stage == StageView::Finished(Ok::<(), ErrorView>(()))
                },
                Err(error) => after.stage == StageView::Finished(Err::<(), ErrorView>(error)),
            }
        }),
{
}

/// A job that is over stays as it is, and one whose call is not answered is over.
pub proof fn law_job_ends(job: JobView, worker: WorkerView, outcome: CallOutcomeView)
    ensures
        job.is_finished() ==> job_step(job, worker, outcome) == (job, worker),
        !(outcome is Answered) ==> job_step(job, worker, outcome).0.is_finished(),
        job.is_finished() <==> pending_call(job) is None,
{
}

/// A job always has something left to do while the tags are being changed: so it begins, and so it
/// goes on.
pub proof fn law_job_stays_well_formed(
    job: JobView,
    worker: WorkerView,
    monitor: MonitorView,
    added: Option<i32>,
    outcome: CallOutcomeView,
)
    ensures
        add_job(worker, monitor).well_formed(),
        edit_job(worker, monitor, added).well_formed(),
        job.well_formed() ==> job_step(job, worker, outcome).0.well_formed(),
{
}

/// A job, and what is known of the server, after its calls came to `outcomes`.
pub open spec fn run(
    job: JobView,
    worker: WorkerView,
    outcomes: Seq<CallOutcomeView>,
) -> (JobView, WorkerView)
    decreases outcomes.len(),
{
    if outcomes.len() == 0 {
        (job, worker)
    } else {
        let (next, known) = job_step(job, worker, outcomes[0]);
        run(next, known, outcomes.skip(1))
    }
}

/// The calls that a job makes, given what they come to.
pub open spec fn sent(
    job: JobView,
    worker: WorkerView,
    outcomes: Seq<CallOutcomeView>,
) -> Seq<RequestView>
    decreases outcomes.len(),
{
    if outcomes.len() == 0 {
        Seq::empty()
    } else {
        match pending_call(job) {
            Some(call) => {
                let (next, known) = job_step(job, worker, outcomes[0]);
                seq![call] + sent(next, known, outcomes.skip(1))
            },
            None => Seq::empty(),
        }
    }
}

/// The calls that make some changes to the tags of a monitor.
pub open spec fn change_calls(monitor_id: i32, changes: Seq<TagChangeView>) -> Seq<RequestView> {
    changes.map_values(|change: TagChangeView| change_call(monitor_id, change))
}

/// Whether a run ends in success.
pub open spec fn succeeds(
    job: JobView,
    worker: WorkerView,
    outcomes: Seq<CallOutcomeView>,
) -> bool {
    run(job, worker, outcomes).0.stage == StageView::Finished(Ok::<(), ErrorView>(()))
}

/// A job that is over makes no calls and stays as it is.
proof fn lemma_finished_run(job: JobView, worker: WorkerView, outcomes: Seq<CallOutcomeView>)
    requires
        job.is_finished(),
    ensures
        run(job, worker, outcomes) == (job, worker),
        sent(job, worker, outcomes) == Seq::<RequestView>::empty(),
    decreases outcomes.len(),
{
    if outcomes.len() > 0 {
        lemma_finished_run(job, worker, outcomes.skip(1));
    }
}

/// A job that goes on with some changes to the tags and succeeds has made the calls for all of them.
proof fn lemma_tag_run(
    job: JobView,
    worker: WorkerView,
    monitor_id: i32,
    left: Seq<TagChangeView>,
    outcomes: Seq<CallOutcomeView>,
)
    requires
        ({
            let (start, known) = tag_job(job, worker, monitor_id, left);
            succeeds(start, known, outcomes)
        }),
    ensures
        ({
            let (start, known) = tag_job(job, worker, monitor_id, left);
            sent(start, known, outcomes) == change_calls(monitor_id, left)
        }),
    decreases left.len(),
{
    let (start, known) = tag_job(job, worker, monitor_id, left);
    if left.len() == 0 {
        lemma_finished_run(start, known, outcomes);
        assert(change_calls(monitor_id, left) =~= Seq::<RequestView>::empty());
    } else {
        assert(outcomes.len() > 0);
        let rest = outcomes.skip(1);
        match settled_ok(change_call(monitor_id, left[0]), outcomes[0]) {
            Ok(_) => {
                assert(tag_job(start, known, monitor_id, left.skip(1)) == tag_job(
                    job,
                    worker,
                    monitor_id,
                    left.skip(1),
                ));
                lemma_tag_run(job, worker, monitor_id, left.skip(1), rest);
                assert(change_calls(monitor_id, left) =~= seq![change_call(monitor_id, left[0])]
                    + change_calls(monitor_id, left.skip(1)));
            },
            Err(_) => {
                let (next, after) = job_step(start, known, outcomes[0]);
                lemma_finished_run(next, after, rest);
            },
        }
    }
}

/// A change of a monitor that succeeds sends the monitor without its tags, and then the changes that
/// give the tags to the monitor whose id the server answered, one after the other and nothing else.
pub proof fn law_edit_sends_monitor_then_tags(
    worker: WorkerView,
    monitor: MonitorView,
    added: Option<i32>,
    outcomes: Seq<CallOutcomeView>,
)
    requires
        succeeds(edit_job(worker, monitor, added), worker, outcomes),
    ensures
        ({
            let resolved = with_group(worker.monitors, monitor);
            let call = edit_call(with_tags(resolved, Seq::empty()));
            &&& group_verdict(worker.monitors, monitor) is Ok
            &&& outcomes.len() > 0
            &&& settled_id(call, outcomes[0]) matches Ok(id) && sent(
                edit_job(worker, monitor, added),
                worker,
                outcomes,
            ) == seq![call] + change_calls(id, tag_plan(worker, id, monitor.common.tags))
        }),
{
    let job = edit_job(worker, monitor, added);
    if group_verdict(worker.monitors, monitor) is Err {
        lemma_finished_run(job, worker, outcomes);
    } else {
        assert(outcomes.len() > 0);
        let rest = outcomes.skip(1);
        match settled_id(edit_call(job.monitor), outcomes[0]) {
            Ok(id) => {
                lemma_tag_run(job, worker, id, tag_plan(worker, id, job.tags), rest);
            },
            Err(_) => {
                let (next, known) = job_step(job, worker, outcomes[0]);
                lemma_finished_run(next, known, rest);
            },
        }
    }
}

/// An addition of a monitor that succeeds sends the monitor without tags and notifications to be
/// added, and goes on as a change of the monitor with the id that it got, with its tags and
/// notifications, and without a group.
pub proof fn law_add_sends_add_then_edit(
    worker: WorkerView,
    monitor: MonitorView,
    outcomes: Seq<CallOutcomeView>,
)
    requires
        succeeds(add_job(worker, monitor), worker, outcomes),
    ensures
        ({
            let resolved = with_group(worker.monitors, monitor);
            let call = add_call(with_notification_ids(with_tags(resolved, Seq::empty()), None));
            &&& group_verdict(worker.monitors, monitor) is Ok
            &&& outcomes.len() > 0
            &&& settled_id(call, outcomes[0]) matches Ok(id) && {
                let edit = edit_job(worker, with_id(ungrouped(monitor), id), Some(id));
                &&& succeeds(edit, worker, outcomes.skip(1))
                &&& sent(add_job(worker, monitor), worker, outcomes) == seq![call] + sent(
                    edit,
                    worker,
                    outcomes.skip(1),
                )
            }
        }),
{
    let job = add_job(worker, monitor);
    if group_verdict(worker.monitors, monitor) is Err {
        lemma_finished_run(job, worker, outcomes);
    } else {
        assert(outcomes.len() > 0);
        let rest = outcomes.skip(1);
        match settled_id(add_call(job.monitor), outcomes[0]) {
            Ok(id) => {
                let given = with_tags(
                    with_notification_ids(with_id(job.monitor, id), job.notifications),
                    job.tags,
                );
                assert(given == with_id(with_group(worker.monitors, monitor), id));
                assert(with_group(worker.monitors, given) == with_group(
                    worker.monitors,
                    with_id(ungrouped(monitor), id),
                ));
                assert(edit_job(worker, given, Some(id)) == edit_job(
                    worker,
                    with_id(ungrouped(monitor), id),
                    Some(id),
                ));
            },
            Err(_) => {
                let (next, known) = job_step(job, worker, outcomes[0]);
                lemma_finished_run(next, known, rest);
            },
        }
    }
}

/// Where the known monitors hold a monitor under the numeral of the id, the first one under it, the
/// planned changes are those between the tags of that monitor and the wanted ones, whatever other
/// monitors are known.
pub proof fn law_plan_starts_from_monitor(
    worker: WorkerView,
    monitor_id: i32,
    wanted: Seq<TagView>,
    at: int,
)
    requires
        0 <= at < worker.monitors.len(),
        worker.monitors[at].0 == decimal(monitor_id as int),
        forall|k: int|
            0 <= k < at ==> (#[trigger] worker.monitors[k]).0 != decimal(monitor_id as int),
    ensures
        tag_plan(worker, monitor_id, wanted) == changes_between(
            worker.monitors[at].1.common.tags,
            wanted,
        ),
{
    law_first_entry_is_found(worker.monitors, decimal(monitor_id as int), at);
}

/// The plan for a known monitor leaves, under every tag id that the monitor does not carry twice, what
/// is wanted there.
pub proof fn law_plan_reaches_wanted(
    worker: WorkerView,
    monitor_id: i32,
    wanted: Seq<TagView>,
    at: int,
    tag_id: i32,
)
    requires
        distinct(worker.monitors),
        0 <= at < worker.monitors.len(),
        worker.monitors[at].0 == decimal(monitor_id as int),
        !is_repeated(worker.monitors[at].1.common.tags, tag_id),
    ensures
        value_after(
            value_of(worker.monitors[at].1.common.tags, tag_id),
            tag_plan(worker, monitor_id, wanted),
            tag_id,
        ) == value_of(wanted, tag_id),
{
    assert forall|k: int| 0 <= k < at implies (#[trigger] worker.monitors[k]).0 != decimal(
        monitor_id as int,
    ) by {
        assert(worker.monitors[k].0 != worker.monitors[at].0);
    }
    law_plan_starts_from_monitor(worker, monitor_id, wanted, at);
    law_changes_reach_wanted(worker.monitors[at].1.common.tags, wanted, tag_id);
}

/// A known monitor that carries no tag twice and already has the wanted tags needs no change: storing
/// it makes no further call.
pub proof fn law_settled_monitor_needs_no_change(
    worker: WorkerView,
    monitor_id: i32,
    wanted: Seq<TagView>,
    at: int,
)
    requires
        distinct(worker.monitors),
        0 <= at < worker.monitors.len(),
        worker.monitors[at].0 == decimal(monitor_id as int),
        worker.monitors[at].1.common.tags == wanted,
        forall|a: int, b: int|
            0 <= a < b < wanted.len() && (#[trigger] wanted[a]).tag_id is Some ==> wanted[a].tag_id != (
            #[trigger] wanted[b]).tag_id,
    ensures
        tag_plan(worker, monitor_id, wanted).len() == 0,
{
    assert forall|k: int| 0 <= k < at implies (#[trigger] worker.monitors[k]).0 != decimal(
        monitor_id as int,
    ) by {
        assert(worker.monitors[k].0 != worker.monitors[at].0);
    }
    law_plan_starts_from_monitor(worker, monitor_id, wanted, at);
    assert forall|id: i32| !is_repeated(wanted, id) by {
        law_repeated_stands_twice(wanted, id);
    }
    law_no_change_when_settled(wanted);
}

/// Where no known monitor stands under the numeral of the id, the plan puts on every wanted tag that has
/// an id, in order and with its value, and does nothing else.
pub proof fn law_plan_for_unknown_monitor(
    worker: WorkerView,
    monitor_id: i32,
    wanted: Seq<TagView>,
    tag: TagView,
)
    requires
        forall|k: int|
            0 <= k < worker.monitors.len() ==> (#[trigger] worker.monitors[k]).0 != decimal(
                monitor_id as int,
            ),
    ensures
        tag_plan(worker, monitor_id, Seq::empty()).len() == 0,
        tag.tag_id matches Some(id) ==> tag_plan(worker, monitor_id, wanted.push(tag)) == tag_plan(
            worker,
            monitor_id,
            wanted,
        ).push(TagChangeView::Add { tag_id: id, value: tag.value }),
        tag.tag_id is None ==> tag_plan(worker, monitor_id, wanted.push(tag)) == tag_plan(
            worker,
            monitor_id,
            wanted,
        ),
{
    law_first_entry_is_found(
        worker.monitors,
        decimal(monitor_id as int),
        worker.monitors.len() as int,
    );
    law_unknown_gets_every_tag(wanted, tag);
}

/// What is planned for a monitor depends on nothing that is known but that monitor.
pub proof fn law_plan_ignores_the_rest(
    worker: WorkerView,
    other: WorkerView,
    monitor_id: i32,
    wanted: Seq<TagView>,
)
    requires
        lookup(worker.monitors, decimal(monitor_id as int)) == lookup(
            other.monitors,
            decimal(monitor_id as int),
        ),
    ensures
        tag_plan(worker, monitor_id, wanted) == tag_plan(other, monitor_id, wanted),
{
}

/// A change is sent as a call of the method for its kind, with the id of the tag, the id of the monitor
/// and the value, the empty text where there is none; and it has to be acknowledged.
pub proof fn law_change_is_sent(monitor_id: i32, tag_id: i32, value: Option<Seq<char>>)
    ensures
        change_call(monitor_id, TagChangeView::Add { tag_id, value }).method == "addMonitorTag"@,
        change_call(monitor_id, TagChangeView::Edit { tag_id, value }).method == "editMonitorTag"@,
        change_call(monitor_id, TagChangeView::Delete { tag_id, value }).method
            == "deleteMonitorTag"@,
        sends_tag(
            change_call(monitor_id, TagChangeView::Add { tag_id, value }),
            monitor_id,
            tag_id,
            value,
        ),
        sends_tag(
            change_call(monitor_id, TagChangeView::Edit { tag_id, value }),
            monitor_id,
            tag_id,
            value,
        ),
        sends_tag(
            change_call(monitor_id, TagChangeView::Delete { tag_id, value }),
            monitor_id,
            tag_id,
            value,
        ),
{
}

/// Whether a call sends a tag of a monitor, and has to be acknowledged.
pub open spec fn sends_tag(
    call: RequestView,
    monitor_id: i32,
    tag_id: i32,
    value: Option<Seq<char>>,
) -> bool {
    &&& call.result_ptr == "/ok"@
    &&& call.verify
    &&& call.args.len() == 3
    &&& call.args[0] == ArgumentView::Json(JsonView::Int(tag_id as int))
    &&& call.args[1] == ArgumentView::Json(JsonView::Int(monitor_id as int))
    &&& value matches Some(text) ==> call.args[2] == ArgumentView::Json(JsonView::Text(text))
    &&& value is None ==> call.args[2] == ArgumentView::Json(JsonView::Text(Seq::empty()))
}

/// A monitor is added, and changed, by a call that sends that monitor and nothing else, and whose
/// answer has to have succeeded and hold the id of the monitor.
pub proof fn law_monitor_is_sent(monitor: MonitorView)
    ensures
        add_call(monitor).method == "add"@,
        edit_call(monitor).method == "editMonitor"@,
        add_call(monitor).args == seq![ArgumentView::Monitor(monitor)],
        edit_call(monitor).args == seq![ArgumentView::Monitor(monitor)],
        add_call(monitor).result_ptr == "/monitorID"@,
        edit_call(monitor).result_ptr == "/monitorID"@,
        add_call(monitor).verify,
        edit_call(monitor).verify,
{
}

/// Whether two monitors agree in everything but the id, the group, the tags and the notifications.
pub open spec fn alike(a: MonitorView, b: MonitorView) -> bool {
    a.monitor_type == b.monitor_type && a.details == b.details
}

/// Giving a monitor tags, notifications or an id sets that and keeps everything else.
pub proof fn law_setting_keeps_the_rest(
    monitor: MonitorView,
    tags: Seq<TagView>,
    notifications: Option<JsonView>,
    id: i32,
)
    ensures
        ({
            let tagged = with_tags(monitor, tags);
            let notified = with_notification_ids(monitor, notifications);
            let named = with_id(monitor, id);
            &&& tagged.common.tags == tags
            &&& tagged.common.id == monitor.common.id
            &&& tagged.common.parent == monitor.common.parent
            &&& tagged.common.parent_name == monitor.common.parent_name
            &&& tagged.common.notification_id_list == monitor.common.notification_id_list
            &&& alike(tagged, monitor)
            &&& notified.common.notification_id_list == notifications
            &&& notified.common.id == monitor.common.id
            &&& notified.common.parent == monitor.common.parent
            &&& notified.common.parent_name == monitor.common.parent_name
            &&& notified.common.tags == monitor.common.tags
            &&& alike(notified, monitor)
            &&& named.common.id == Some(id)
            &&& named.common.parent == monitor.common.parent
            &&& named.common.parent_name == monitor.common.parent_name
            &&& named.common.tags == monitor.common.tags
            &&& named.common.notification_id_list == monitor.common.notification_id_list
            &&& alike(named, monitor)
        }),
{
}

/// A monitor whose group is found goes out to be added without tags and notifications, and with its
/// group; the tags and the notifications are kept for later.
pub proof fn law_addition_goes_out_bare(worker: WorkerView, monitor: MonitorView)
    requires
        group_verdict(worker.monitors, monitor) is Ok,
    ensures
        ({
            let job = add_job(worker, monitor);
            &&& job.tags == monitor.common.tags
            &&& job.notifications == monitor.common.notification_id_list
            &&& job.added is None
            &&& pending_call(job) matches Some(call)
            &&& call.method == "add"@
            &&& call.args.len() == 1
            &&& call.args[0] matches ArgumentView::Monitor(sent)
            &&& sent.common.tags.len() == 0
            &&& sent.common.notification_id_list is None
            &&& sent.common.id == monitor.common.id
            &&& sent.common.parent == with_group(worker.monitors, monitor).common.parent
            &&& sent.common.parent_name is None
            &&& alike(sent, monitor)
        }),
{
}

/// A monitor whose group is found goes out to be changed without tags, with its notifications and its
/// group; the tags are kept for later.
pub proof fn law_change_goes_out_without_tags(
    worker: WorkerView,
    monitor: MonitorView,
    added: Option<i32>,
)
    requires
        group_verdict(worker.monitors, monitor) is Ok,
    ensures
        ({
            let job = edit_job(worker, monitor, added);
            &&& job.tags == monitor.common.tags
            &&& job.added == added
            &&& pending_call(job) matches Some(call)
            &&& call.method == "editMonitor"@
            &&& call.args.len() == 1
            &&& call.args[0] matches ArgumentView::Monitor(sent)
            &&& sent.common.tags.len() == 0
            &&& sent.common.notification_id_list == monitor.common.notification_id_list
            &&& sent.common.id == monitor.common.id
            &&& sent.common.parent == with_group(worker.monitors, monitor).common.parent
            &&& sent.common.parent_name is None
            &&& alike(sent, monitor)
        }),
{
}

/// A monitor whose group is not found is not sent at all: the job is over with the error of the lookup,
/// and the monitor keeps its tags, its notifications and its id.
pub proof fn law_without_group_nothing_is_sent(
    worker: WorkerView,
    monitor: MonitorView,
    added: Option<i32>,
    error: ErrorView,
)
    requires
        group_verdict(worker.monitors, monitor) == Err::<(), _>(error),
    ensures
        pending_call(add_job(worker, monitor)) is None,
        pending_call(edit_job(worker, monitor, added)) is None,
        add_job(worker, monitor).stage == StageView::Finished(Err::<(), _>(error)),
        edit_job(worker, monitor, added).stage == StageView::Finished(Err::<(), _>(error)),
        ({
            let left = add_job(worker, monitor).monitor;
            &&& left == edit_job(worker, monitor, added).monitor
            &&& left.common.tags == monitor.common.tags
            &&& left.common.notification_id_list == monitor.common.notification_id_list
            &&& left.common.id == monitor.common.id
            &&& alike(left, monitor)
        }),
{
}

/// A call that fails ends the job with exactly its error; the monitor stays as it stands, and nothing
/// that is known of the server changes.
pub proof fn law_failed_call_ends_job(
    job: JobView,
    worker: WorkerView,
    outcome: CallOutcomeView,
    error: ErrorView,
)
    requires
        pending_call(job) matches Some(call) && fails_with(call, outcome, error),
    ensures
        ({
            let (after, known) = job_step(job, worker, outcome);
            &&& after.stage == StageView::Finished(Err::<(), _>(error))
            &&& after.monitor == job.monitor
            &&& known == worker
        }),
{
}

/// An answer that does not hold an id ends a job that adds or stores the monitor.
pub proof fn law_unread_id_ends_job(
    job: JobView,
    worker: WorkerView,
    outcome: CallOutcomeView,
    error: ErrorView,
)
    requires
        job.stage is Adding || job.stage is Editing,
        pending_call(job) matches Some(call) && settled_id(call, outcome) == Err::<i32, _>(error),
    ensures
        ({
            let (after, known) = job_step(job, worker, outcome);
            &&& after.stage == StageView::Finished(Err::<(), _>(error))
            &&& after.monitor == job.monitor
            &&& known == worker
        }),
{
}

/// Once a monitor is added, it goes out to be changed with the id that the server answered, with its
/// notifications, in no group and without tags; the tags are still kept for later, and the monitor is
/// not yet known.
pub proof fn law_added_monitor_goes_out_again(
    job: JobView,
    worker: WorkerView,
    outcome: CallOutcomeView,
    id: i32,
)
    requires
        job.stage is Adding,
        job.monitor.common.parent_name is None,
        pending_call(job) matches Some(call) && settled_id(call, outcome) == Ok::<_, ErrorView>(id),
    ensures
        ({
            let (after, known) = job_step(job, worker, outcome);
            &&& known == worker
            &&& after.added == Some(id)
            &&& after.tags == job.tags
            &&& pending_call(after) matches Some(call)
            &&& call.method == "editMonitor"@
            &&& call.args.len() == 1
            &&& call.args[0] matches ArgumentView::Monitor(sent)
            &&& sent == after.monitor
            &&& sent.common.id == Some(id)
            &&& sent.common.tags.len() == 0
            &&& sent.common.notification_id_list == job.notifications
            &&& sent.common.parent is None
            &&& sent.common.parent_name is None
            &&& alike(sent, job.monitor)
        }),
{
}

/// Once a monitor is stored, the changes that are planned for the monitor of the id that the server
/// answered are made, from the first one on; where none are planned, the job is over, and the monitor
/// has its tags back.
pub proof fn law_stored_monitor_gets_tags(
    job: JobView,
    worker: WorkerView,
    outcome: CallOutcomeView,
    id: i32,
)
    requires
        job.stage is Editing,
        pending_call(job) matches Some(call) && settled_id(call, outcome) == Ok::<_, ErrorView>(id),
    ensures
        ({
            let (after, known) = job_step(job, worker, outcome);
            let plan = tag_plan(worker, id, job.tags);
            &&& after.added == job.added
            &&& plan.len() > 0 ==> {
                &&& after.stage == (StageView::Tagging { monitor_id: id, left: plan })
                &&& pending_call(after) == Some(change_call(id, plan[0]))
                &&& after.monitor == job.monitor
                &&& after.tags == job.tags
                &&& known == worker
            }
            &&& plan.len() == 0 ==> after.stage == StageView::Finished(Ok::<(), ErrorView>(()))
        }),
{
}

/// A job that comes to success gives the monitor the tags that were kept for it and changes nothing
/// else of it.
pub proof fn law_success_gives_tags_back(
    job: JobView,
    worker: WorkerView,
    outcome: CallOutcomeView,
)
    requires
        job.stage is Editing || job.stage is Tagging,
        job_step(job, worker, outcome).0.stage == StageView::Finished(Ok::<(), ErrorView>(())),
    ensures
        ({
            let after = job_step(job, worker, outcome).0;
            &&& after.monitor.common.tags == job.tags
            &&& after.monitor.common.id == job.monitor.common.id
            &&& after.monitor.common.parent == job.monitor.common.parent
            &&& after.monitor.common.parent_name == job.monitor.common.parent_name
            &&& after.monitor.common.notification_id_list
                == job.monitor.common.notification_id_list
            &&& alike(after.monitor, job.monitor)
            &&& after.added == job.added
        }),
{
}

} // verus!
