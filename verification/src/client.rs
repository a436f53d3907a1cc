//! The client.
use crate::config::Config;
use crate::connect::connecting;
use crate::error::Error;
use crate::error::ErrorView;
use crate::job::add_job;
use crate::job::edit_job;
use crate::job::MonitorJob;
use crate::json::json;
use crate::model::copy_notifications;
use crate::model::definition_views;
use crate::model::notification_views;
use crate::model::Monitor;
use crate::model::MonitorView;
use crate::model::Notification;
use crate::model::NotificationView;
use crate::model::TagDefinition;
use crate::model::TagDefinitionView;
use crate::monitors::distinct;
use crate::monitors::MonitorList;
use crate::request::verified_call;
use crate::request::ArgumentView;
use crate::request::Request;
use crate::search::find;
use crate::search::law_found_first;
use crate::search::lemma_first_where;
use crate::search::lemma_first_where_is;
use crate::worker::initial;
use crate::worker::int_arg;
use crate::worker::notification_call;
use crate::worker::with_monitors;
use crate::worker::with_notifications;
use crate::worker::Worker;
use crate::worker::WorkerView;
use serde_json::Value;
use vstd::prelude::*;

verus! {

/// A client of the server.
#[derive(Debug)]
pub struct Client {
    pub worker: Worker,
}

impl View for Client {
    type V = WorkerView;

    open spec fn view(&self) -> WorkerView {
        self.worker@
    }
}

/// Whether a tag definition has the id.
pub open spec fn is_tag(tag_id: i32) -> spec_fn(TagDefinitionView) -> bool {
    |tag: TagDefinitionView| tag.tag_id == Some(tag_id)
}

/// Whether a notification has the id.
pub open spec fn is_notification(notification_id: i32) -> spec_fn(NotificationView) -> bool {
    |notification: NotificationView| notification.id == Some(notification_id)
}

/// The monitors of the server, once its lists have arrived.
pub open spec fn known_monitors(worker: WorkerView) -> Result<
    Seq<(Seq<char>, MonitorView)>,
    ErrorView,
> {
    if worker.is_ready.complete() {
        Ok(worker.monitors)
    } else {
        Err(ErrorView::NotReady)
    }
}

/// The notifications of the server, once its lists have arrived.
pub open spec fn known_notifications(worker: WorkerView) -> Result<
    Seq<NotificationView>,
    ErrorView,
> {
    if worker.is_ready.complete() {
        Ok(worker.notifications)
    } else {
        Err(ErrorView::NotReady)
    }
}

/// The first tag definition with the id.
pub open spec fn chosen_tag(tags: Seq<TagDefinitionView>, tag_id: i32) -> Result<
    TagDefinitionView,
    ErrorView,
> {
    match find(tags, is_tag(tag_id)) {
        Some(tag) => Ok(tag),
        None => Err(ErrorView::IdNotFound("Tag"@, tag_id)),
    }
}

/// The first notification with the id, once the lists of the server have arrived.
pub open spec fn chosen_notification(worker: WorkerView, notification_id: i32) -> Result<
    NotificationView,
    ErrorView,
> {
    match known_notifications(worker) {
        Ok(notifications) => match find(notifications, is_notification(notification_id)) {
            Some(notification) => Ok(notification),
            None => Err(ErrorView::IdNotFound("Notification"@, notification_id)),
        },
        Err(error) => Err(error),
    }
}

impl Client {
    /// A client that is about to connect.
    pub fn connect(config: Config) -> (r: Client)
        ensures
            r@ == connecting(initial(config@)),
    {
        let mut worker = Worker::new(config);
        worker.connect();
        Client { worker }
    }

    /// The monitors of the server, once its lists have arrived.
    pub fn get_monitors(&self) -> (r: Result<MonitorList, Error>)
        ensures
            match r {
                Ok(monitors) => {
                    &&& known_monitors(self@) == Ok::<_, ErrorView>(monitors@)
                    &&& distinct(monitors@)
                },
                Err(error) => known_monitors(self@) == Err::<
                    Seq<(Seq<char>, MonitorView)>,
                    _,
                >(error@),
            },
    {
        if self.worker.is_ready() {
            Ok(self.worker.monitors.clone())
        } else {
            Err(Error::NotReady)
        }
    }

    /// The call that asks for a monitor.
    pub fn get_monitor(&self, monitor_id: i32) -> (r: Request)
        ensures
            r@ == verified_call("getMonitor"@, seq![int_arg(monitor_id)], "/monitor"@),
    {
        self.worker.get_monitor(monitor_id)
    }

    /// Starts to add a monitor.
    pub fn add_monitor(&self, monitor: Monitor) -> (r: MonitorJob)
        ensures
            r@ == add_job(self@, monitor@),
            r@.well_formed(),
    {
        self.worker.add_monitor(monitor)
    }

    /// Starts to change a monitor.
    pub fn edit_monitor(&self, monitor: Monitor) -> (r: MonitorJob)
        ensures
            r@ == edit_job(self@, monitor@, None),
            r@.well_formed(),
    {
        self.worker.edit_monitor(monitor)
    }

    /// The call that deletes a monitor.
    pub fn delete_monitor(&self, monitor_id: i32) -> (r: Request)
        ensures
            r@ == verified_call("deleteMonitor"@, seq![int_arg(monitor_id)], "/ok"@),
    {
        self.worker.delete_monitor(monitor_id)
    }

    /// The call that asks for all tag definitions.
    pub fn get_tags(&self) -> (r: Request)
        ensures
            r@ == verified_call("getTags"@, Seq::empty(), "/tags"@),
    {
        self.worker.get_tags()
    }

    /// The tag definition with the id, given the answer to `get_tags`.
    pub fn get_tag(&self, tag_id: i32, answer: Result<Vec<TagDefinition>, Error>) -> (r: Result<
        TagDefinition,
        Error,
    >)
        ensures
            match answer {
                Ok(tags) => match r {
                    Ok(tag) => chosen_tag(definition_views(tags@), tag_id) == Ok::<_, ErrorView>(
                        tag@,
                    ),
                    Err(error) => chosen_tag(definition_views(tags@), tag_id) == Err::<
                        TagDefinitionView,
                        _,
                    >(error@),
                },
                Err(error) => r == Err::<TagDefinition, Error>(error),
            },
    {
        match answer {
            Ok(tags) => {
                let ghost views = definition_views(tags@);
                let ghost wanted = is_tag(tag_id);
                let mut i: usize = 0;
                while i < tags.len() && !Client::is_id(tags[i].tag_id, tag_id)
                    invariant
                        i <= tags.len(),
                        views == definition_views(tags@),
                        wanted == is_tag(tag_id),
                        forall|k: int| 0 <= k < i ==> !wanted(#[trigger] views[k]),
                    decreases tags.len() - i,
                {
                    i = i + 1;
                }
                proof {
                    lemma_first_where_is(views, wanted, i as int);
                }
                if i < tags.len() {
                    Ok(tags[i].clone())
                } else {
                    Err(Error::IdNotFound("Tag".to_owned(), tag_id))
                }
            },
            Err(error) => Err(error),
        }
    }

    /// Whether an optional id is this one.
    fn is_id(found: Option<i32>, id: i32) -> (r: bool)
        ensures
            r == (found == Some(id)),
    {
        match found {
            Some(found) => found == id,
            None => false,
        }
    }

    /// The call that adds a tag definition.
    pub fn add_tag(&self, tag: &TagDefinition) -> (r: Request)
        ensures
            r@ == verified_call("addTag"@, seq![ArgumentView::Tag(tag@)], "/tag"@),
    {
        self.worker.add_tag(tag)
    }

    /// The call that changes a tag definition.
    pub fn edit_tag(&self, tag: &TagDefinition) -> (r: Request)
        ensures
            r@ == verified_call("editTag"@, seq![ArgumentView::Tag(tag@)], "/tag"@),
    {
        self.worker.edit_tag(tag)
    }

    /// The call that deletes a tag definition.
    pub fn delete_tag(&self, tag_id: i32) -> (r: Request)
        ensures
            r@ == verified_call("deleteTag"@, seq![int_arg(tag_id)], "/ok"@),
    {
        self.worker.delete_tag(tag_id)
    }

    /// The notifications of the server, once its lists have arrived.
    pub fn get_notifications(&self) -> (r: Result<Vec<Notification>, Error>)
        ensures
            match r {
                Ok(notifications) => known_notifications(self@) == Ok::<_, ErrorView>(
                    notification_views(notifications@),
                ),
                Err(error) => known_notifications(self@) == Err::<Seq<NotificationView>, _>(
                    error@,
                ),
            },
    {
        if self.worker.is_ready() {
            Ok(copy_notifications(&self.worker.notifications))
        } else {
            Err(Error::NotReady)
        }
    }

    /// The notification with the id, once the lists of the server have arrived.
    pub fn get_notification(&self, notification_id: i32) -> (r: Result<Notification, Error>)
        ensures
            match r {
                Ok(notification) => chosen_notification(self@, notification_id) == Ok::<
                    _,
                    ErrorView,
                >(notification@),
                Err(error) => chosen_notification(self@, notification_id) == Err::<
                    NotificationView,
                    _,
                >(error@),
            },
    {
        match self.get_notifications() {
            Ok(notifications) => {
                let ghost views = notification_views(notifications@);
                let ghost wanted = is_notification(notification_id);
                let mut i: usize = 0;
                while i < notifications.len() && !Client::is_id(
                    notifications[i].id,
                    notification_id,
                )
                    invariant
                        i <= notifications.len(),
                        views == notification_views(notifications@),
                        wanted == is_notification(notification_id),
                        forall|k: int| 0 <= k < i ==> !wanted(#[trigger] views[k]),
                    decreases notifications.len() - i,
                {
                    i = i + 1;
                }
                proof {
                    lemma_first_where_is(views, wanted, i as int);
                }
                if i < notifications.len() {
                    Ok(notifications[i].clone())
                } else {
                    Err(Error::IdNotFound("Notification".to_owned(), notification_id))
                }
            },
            Err(error) => Err(error),
        }
    }

    /// The call that adds a notification, which is encoded as `encoded`.
    pub fn add_notification(&self, notification: &Notification, encoded: &Value) -> (r: Request)
        requires
            json(notification.config) is Object,
            json(*encoded) is Object,
        ensures
            r@ == notification_call(notification@, json(*encoded)),
    {
        self.worker.add_notification(notification, encoded)
    }

    /// The call that changes a notification, which is encoded as `encoded`.
    pub fn edit_notification(&self, notification: &Notification, encoded: &Value) -> (r: Request)
        requires
            json(notification.config) is Object,
            json(*encoded) is Object,
        ensures
            r@ == notification_call(notification@, json(*encoded)),
    {
        self.worker.edit_notification(notification, encoded)
    }

    /// The call that adds or changes a notification, nothing where its configuration or its encoding
    /// is no object.
    pub fn store_notification(&self, notification: &Notification, encoded: &Value) -> (r: Option<
        Request,
    >)
        ensures
            match r {
                Some(request) => {
                    &&& json(notification.config) is Object
                    &&& json(*encoded) is Object
                    &&& request@ == notification_call(notification@, json(*encoded))
                },
                None => !(json(notification.config) is Object && json(*encoded) is Object),
            },
    {
        self.worker.store_notification(notification, encoded)
    }

    /// The call that deletes a notification.
    pub fn delete_notification(&self, notification_id: i32) -> (r: Request)
        ensures
            r@ == verified_call("deleteNotification"@, seq![int_arg(notification_id)], "/ok"@),
    {
        self.worker.delete_notification(notification_id)
    }
}

/// The lists that come in over a new connection are what is read back, whichever comes first; with
/// only one of them there, or none, reading fails.
pub proof fn law_lists_are_read_back(
    worker: WorkerView,
    monitors: Seq<(Seq<char>, MonitorView)>,
    notifications: Seq<NotificationView>,
)
    ensures
        ({
            let start = connecting(worker);
            let both = with_notifications(with_monitors(start, monitors), notifications);
            let swapped = with_monitors(with_notifications(start, notifications), monitors);
            &&& known_monitors(both) == Ok::<_, ErrorView>(monitors)
            &&& known_notifications(both) == Ok::<_, ErrorView>(notifications)
            &&& both == swapped
        }),
        known_monitors(connecting(worker)) is Err,
        known_monitors(with_monitors(connecting(worker), monitors)) is Err,
        known_notifications(with_notifications(connecting(worker), notifications)) is Err,
{
}

/// A notification that is found has the id that was asked for and is one of those that the server
/// has; where one of them has the id, one is found.
pub proof fn law_found_notification_has_id(worker: WorkerView, notification_id: i32)
    requires
        worker.is_ready.complete(),
    ensures
        chosen_notification(worker, notification_id) matches Ok(notification) ==> notification.id
            == Some(notification_id) && worker.notifications.contains(notification),
        chosen_notification(worker, notification_id) is Ok <==> exists|i: int|
            0 <= i < worker.notifications.len() && (#[trigger] worker.notifications[i]).id == Some(
                notification_id,
            ),
{
    let wanted = is_notification(notification_id);
    lemma_first_where(worker.notifications, wanted);
    if exists|i: int|
        0 <= i < worker.notifications.len() && (#[trigger] worker.notifications[i]).id == Some(
            notification_id,
        ) {
        let i = choose|i: int|
            0 <= i < worker.notifications.len() && (#[trigger] worker.notifications[i]).id == Some(
                notification_id,
            );
        assert(wanted(worker.notifications[i]));
    }
}

/// A tag definition that is found has the id that was asked for and is one of those given; where one
/// of them has the id, one is found.
pub proof fn law_found_tag_has_id(tags: Seq<TagDefinitionView>, tag_id: i32)
    ensures
        chosen_tag(tags, tag_id) matches Ok(tag) ==> tag.tag_id == Some(tag_id) && tags.contains(
            tag,
        ),
        chosen_tag(tags, tag_id) is Ok <==> exists|i: int|
            0 <= i < tags.len() && (#[trigger] tags[i]).tag_id == Some(tag_id),
{
    let wanted = is_tag(tag_id);
    lemma_first_where(tags, wanted);
    if exists|i: int| 0 <= i < tags.len() && (#[trigger] tags[i]).tag_id == Some(tag_id) {
        let i = choose|i: int| 0 <= i < tags.len() && (#[trigger] tags[i]).tag_id == Some(tag_id);
        assert(wanted(tags[i]));
    }
}

/// In every state the lists are read back exactly if both have arrived, as they are known; else the
/// client is not ready.
pub proof fn law_reading_needs_both_lists(worker: WorkerView)
    ensures
        worker.is_ready.monitor_list && worker.is_ready.notification_list ==> known_monitors(worker)
            == Ok::<_, ErrorView>(worker.monitors) && known_notifications(worker) == Ok::<_, ErrorView>(
            worker.notifications,
        ),
        !(worker.is_ready.monitor_list && worker.is_ready.notification_list) ==> known_monitors(worker)
            == Err::<Seq<(Seq<char>, MonitorView)>, _>(ErrorView::NotReady) && known_notifications(
            worker,
        ) == Err::<Seq<NotificationView>, _>(ErrorView::NotReady),
{
}

/// A list that comes in while the client is ready is what is read from then on, however many came
/// before; the other list is read as before.
pub proof fn law_latest_list_is_read(
    worker: WorkerView,
    monitors: Seq<(Seq<char>, MonitorView)>,
    notifications: Seq<NotificationView>,
)
    requires
        worker.is_ready.monitor_list,
        worker.is_ready.notification_list,
    ensures
        known_monitors(with_monitors(worker, monitors)) == Ok::<_, ErrorView>(monitors),
        known_notifications(with_monitors(worker, monitors)) == Ok::<_, ErrorView>(
            worker.notifications,
        ),
        known_notifications(with_notifications(worker, notifications)) == Ok::<_, ErrorView>(
            notifications,
        ),
        known_monitors(with_notifications(worker, notifications)) == Ok::<_, ErrorView>(
            worker.monitors,
        ),
{
}

/// The tag definition that is chosen is the first that has the id, wherever it stands; where none has
/// it, there is no such tag.
pub proof fn law_first_tag_is_chosen(tags: Seq<TagDefinitionView>, tag_id: i32, at: int)
    requires
        0 <= at <= tags.len(),
        at < tags.len() ==> tags[at].tag_id == Some(tag_id),
        forall|k: int| 0 <= k < at ==> (#[trigger] tags[k]).tag_id != Some(tag_id),
    ensures
        at < tags.len() ==> chosen_tag(tags, tag_id) == Ok::<_, ErrorView>(tags[at]),
        at == tags.len() ==> chosen_tag(tags, tag_id) == Err::<TagDefinitionView, _>(
            ErrorView::IdNotFound("Tag"@, tag_id),
        ),
{
    assert forall|k: int| 0 <= k < at implies !is_tag(tag_id)(#[trigger] tags[k]) by {
        assert(tags[k].tag_id != Some(tag_id));
    }
    law_found_first(tags, is_tag(tag_id), at);
}

/// The notification that is chosen is the first that has the id, wherever it stands; where none has
/// it, there is no such notification; and before both lists have arrived nothing is chosen.
pub proof fn law_first_notification_is_chosen(worker: WorkerView, notification_id: i32, at: int)
    requires
        0 <= at <= worker.notifications.len(),
        at < worker.notifications.len() ==> worker.notifications[at].id == Some(notification_id),
        forall|k: int|
            0 <= k < at ==> (#[trigger] worker.notifications[k]).id != Some(notification_id),
    ensures
        ({
            let ready = worker.is_ready.monitor_list && worker.is_ready.notification_list;
            let chosen = chosen_notification(worker, notification_id);
            &&& ready && at < worker.notifications.len() ==> chosen == Ok::<_, ErrorView>(
                worker.notifications[at],
            )
            &&& ready && at == worker.notifications.len() ==> chosen == Err::<NotificationView, _>(
                ErrorView::IdNotFound("Notification"@, notification_id),
            )
            &&& !ready ==> chosen == Err::<NotificationView, _>(ErrorView::NotReady)
        }),
{
    let wanted = is_notification(notification_id);
    assert forall|k: int| 0 <= k < at implies !wanted(#[trigger] worker.notifications[k]) by {
        assert(worker.notifications[k].id != Some(notification_id));
    }
    law_found_first(worker.notifications, wanted, at);
}

} // verus!
