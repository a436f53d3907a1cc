//! The state of a connection to the server, and the operations on it.
use crate::config::Config;
use crate::config::ConfigView;
use crate::error::result_view;
use crate::error::Error;
use crate::error::ErrorView;
use crate::events::Update;
use crate::json::integer;
use crate::json::json;
use crate::json::members;
use crate::json::merge;
use crate::json::null;
use crate::json::object;
use crate::json::overlay;
use crate::json::text;
use crate::json::JsonView;
use crate::model::notification_views;
use crate::model::text_option;
use crate::model::text_or_empty;
use crate::model::LoginResponse;
use crate::model::Monitor;
use crate::model::MonitorCommonView;
use crate::model::MonitorType;
use crate::model::MonitorTypeView;
use crate::model::MonitorView;
use crate::model::Notification;
use crate::model::NotificationView;
use crate::model::TagDefinition;
use crate::model::TagView;
use crate::monitors::MonitorList;
use crate::ready::Ready;
use crate::request::answers_with;
use crate::request::argument_views;
use crate::request::call_for_id;
use crate::request::law_answer_is_read_at_pointer;
use crate::request::law_call_gives_member;
use crate::request::law_result_is_taken_as_asked;
use crate::request::settled;
use crate::request::settled_id;
use crate::request::verified_call;
use crate::request::Argument;
use crate::request::ArgumentView;
use crate::request::CallOutcome;
use crate::request::CallOutcomeView;
use crate::request::Request;
use crate::request::RequestView;
use crate::search::find;
use crate::search::law_found_first;
use crate::search::first_where;
use crate::search::lemma_first_where;
use crate::search::lemma_first_where_is;
use crate::text::contains;
use crate::text::contains_text;
use crate::text::law_contained_text;
use serde_json::Value;
use vstd::prelude::*;

verus! {

/// What the client knows of the server.
#[derive(Debug)]
pub struct Worker {
    pub config: Config,
    pub monitors: MonitorList,
    pub notifications: Vec<Notification>,
    pub is_connected: bool,
    pub is_ready: Ready,
    pub is_logged_in: bool,
}

/// What a `Worker` holds.
pub struct WorkerView {
    pub config: ConfigView,
    pub monitors: Seq<(Seq<char>, MonitorView)>,
    pub notifications: Seq<NotificationView>,
    pub is_connected: bool,
    pub is_ready: Ready,
    pub is_logged_in: bool,
}

impl View for Worker {
    type V = WorkerView;

    open spec fn view(&self) -> WorkerView {
        WorkerView {
            config: self.config@,
            monitors: self.monitors@,
            notifications: notification_views(self.notifications@),
            is_connected: self.is_connected,
            is_ready: self.is_ready,
            is_logged_in: self.is_logged_in,
        }
    }
}

/// The state before a connection is made.
pub open spec fn initial(config: ConfigView) -> WorkerView {
    WorkerView {
        config,
        monitors: Seq::empty(),
        notifications: Seq::empty(),
        is_connected: false,
        is_ready: Ready::none(),
        is_logged_in: false,
    }
}

/// The state after the list of monitors has arrived.
pub open spec fn with_monitors(
    worker: WorkerView,
    monitors: Seq<(Seq<char>, MonitorView)>,
) -> WorkerView {
    WorkerView {
        monitors,
        is_ready: Ready { monitor_list: true, ..worker.is_ready },
        ..worker
    }
}

/// The state after the list of notifications has arrived.
pub open spec fn with_notifications(
    worker: WorkerView,
    notifications: Seq<NotificationView>,
) -> WorkerView {
    WorkerView {
        notifications,
        is_ready: Ready { notification_list: true, ..worker.is_ready },
        ..worker
    }
}

/// The call that logs in.
pub open spec fn login_call(
    username: Seq<char>,
    password: Seq<char>,
    token: Option<Seq<char>>,
) -> RequestView {
    let token = match token {
        Some(token) => JsonView::Text(token),
        None => JsonView::Null,
    };
    let credentials = Map::<Seq<char>, JsonView>::empty().insert(
        "username"@,
        JsonView::Text(username),
    ).insert("password"@, JsonView::Text(password)).insert("token"@, token);
    RequestView {
        method: "login"@,
        args: seq![ArgumentView::Json(JsonView::Object(credentials))],
        result_ptr: ""@,
        verify: false,
    }
}

/// The login that the server's greeting calls for: one is due where the name and the password are
/// known and the client is not logged in.
pub open spec fn login_due(worker: WorkerView) -> Option<RequestView> {
    match (worker.config.username, worker.config.password) {
        (Some(username), Some(password)) => if worker.is_logged_in {
            None
        } else {
            Some(login_call(username, password, worker.config.mfa_token))
        },
        _ => None,
    }
}

/// What a login comes to, given the server's answer.
pub open spec fn login_verdict(answer: Result<LoginResponse, Error>) -> Result<(), ErrorView> {
    match answer {
        Ok(response) => if response.ok {
            Ok(())
        } else {
            match response.msg {
                Some(msg) => Err(ErrorView::LoginError(msg@)),
                None => Err(ErrorView::LoginError("Unexpect login response"@)),
            }
        },
        Err(error) => Err(error@),
    }
}

/// Whether the client is logged in after that answer, where `before` tells whether it was: an
/// answer that refuses with a message leaves it as it was.
pub open spec fn logged_in_after(before: bool, answer: Result<LoginResponse, Error>) -> bool {
    match answer {
        Ok(response) => if response.ok {
            true
        } else {
            response.msg is Some && before
        },
        Err(_) => false,
    }
}

/// An integer as an argument.
pub open spec fn int_arg(n: i32) -> ArgumentView {
    ArgumentView::Json(JsonView::Int(n as int))
}

/// The call of a method that changes one tag of a monitor.
pub open spec fn monitor_tag_call(
    method: Seq<char>,
    monitor_id: i32,
    tag_id: i32,
    value: Option<Seq<char>>,
) -> RequestView {
    verified_call(
        method,
        seq![
            int_arg(tag_id),
            int_arg(monitor_id),
            ArgumentView::Json(JsonView::Text(text_or_empty(value))),
        ],
        "/ok"@,
    )
}

/// The call that stores a notification: its configuration overlaid with its fields, and its id.
pub open spec fn notification_call(
    notification: NotificationView,
    encoded: JsonView,
) -> RequestView {
    let merged = overlay(notification.config->Object_0, encoded->Object_0);
    let id = match notification.id {
        Some(id) => JsonView::Int(id as int),
        None => JsonView::Null,
    };
    verified_call(
        "addNotification"@,
        seq![ArgumentView::Json(JsonView::Object(merged)), ArgumentView::Json(id)],
        "/id"@,
    )
}

/// What asking for a monitor comes to: that the server failed on a missing record means that there
/// is no monitor of that id.
pub open spec fn monitor_error(monitor_id: i32, error: ErrorView) -> ErrorView {
    match error {
        ErrorView::ServerError(msg) => if contains_text(msg, "Cannot read properties of null"@) {
            ErrorView::IdNotFound("Monitor"@, monitor_id)
        } else {
            error
        },
        _ => error,
    }
}

/// Whether a tag marks a group as the one of this name.
pub open spec fn marks_group(tag: TagView, name: Seq<char>) -> bool {
    tag.name == Some("AutoKuma"@) && tag.value == Some(name)
}

/// Whether a monitor is the group of this name.
pub open spec fn is_group_named(monitor: MonitorView, name: Seq<char>) -> bool {
    monitor.monitor_type == MonitorTypeView::Group && exists|i: int|
        0 <= i < monitor.common.tags.len() && marks_group(#[trigger] monitor.common.tags[i], name)
}

/// Whether the monitor of an entry is the group of this name.
pub open spec fn is_group(name: Seq<char>) -> spec_fn((Seq<char>, MonitorView)) -> bool {
    |entry: (Seq<char>, MonitorView)| is_group_named(entry.1, name)
}

/// The id of the first group of this name, where there is one that has an id.
pub open spec fn group_id(
    monitors: Seq<(Seq<char>, MonitorView)>,
    name: Seq<char>,
) -> Option<i32> {
    match find(monitors, is_group(name)) {
        Some(entry) => entry.1.common.id,
        None => None,
    }
}

/// A monitor whose group has been looked up: the name is gone, and the id of the group stands in
/// its place. Where there is no name the monitor belongs to no group; where there is no such group
/// the parent stays as it was.
pub open spec fn with_group(
    monitors: Seq<(Seq<char>, MonitorView)>,
    monitor: MonitorView,
) -> MonitorView {
    let parent = match monitor.common.parent_name {
        Some(name) => match group_id(monitors, name) {
            Some(id) => Some(id),
            None => monitor.common.parent,
        },
        None => None,
    };
    MonitorView {
        common: MonitorCommonView { parent, parent_name: None, ..monitor.common },
        ..monitor
    }
}

/// What looking up the group of a monitor comes to.
pub open spec fn group_verdict(
    monitors: Seq<(Seq<char>, MonitorView)>,
    monitor: MonitorView,
) -> Result<(), ErrorView> {
    match monitor.common.parent_name {
        Some(name) => match group_id(monitors, name) {
            Some(_) => Ok(()),
            None => Err(ErrorView::GroupNotFound(name)),
        },
        None => Ok(()),
    }
}

/// Whether a text is `AutoKuma`.
fn is_group_tag(name: &Option<String>) -> (r: bool)
    ensures
        r == (text_option(*name) == Some("AutoKuma"@)),
{
    match name {
        Some(name) => *name == "AutoKuma".to_owned(),
        None => false,
    }
}

/// Whether a monitor is the group of this name.
fn is_group_of(monitor: &Monitor, name: &String) -> (r: bool)
    ensures
        r == is_group_named(monitor@, name@),
{
    let is_type = match &monitor.monitor_type {
        MonitorType::Group => true,
        MonitorType::Other(_) => false,
    };
    if !is_type {
        return false;
    }
    let mut i: usize = 0;
    while i < monitor.common.tags.len()
        invariant
            i <= monitor.common.tags.len(),
            monitor@.monitor_type == MonitorTypeView::Group,
            forall|k: int|
                0 <= k < i ==> !marks_group(#[trigger] monitor@.common.tags[k], name@),
        decreases monitor.common.tags.len() - i,
    {
        let tag = &monitor.common.tags[i];
        assert(monitor@.common.tags[i as int] == tag@);
        let has_value = match &tag.value {
            Some(value) => *value == *name,
            None => false,
        };
        if is_group_tag(&tag.name) && has_value {
            assert(marks_group(monitor@.common.tags[i as int], name@));
            return true;
        }
        i = i + 1;
    }
    false
}

impl Worker {
    /// The state before a connection is made.
    pub fn new(config: Config) -> (r: Self)
        ensures
            r@ == initial(config@),
    {
        let r = Worker {
            config,
            monitors: MonitorList::new(),
            notifications: Vec::new(),
            is_connected: false,
            is_ready: Ready::new(),
            is_logged_in: false,
        };
        assert(r@.notifications =~= Seq::<NotificationView>::empty());
        r
    }

    /// Takes in the list of monitors.
    pub fn on_monitor_list(&mut self, monitor_list: MonitorList)
        ensures
            final(self)@ == with_monitors(old(self)@, monitor_list@),
    {
        self.monitors = monitor_list;
        self.is_ready.monitor_list = true;
    }

    /// Takes in the list of notifications.
    pub fn on_notification_list(&mut self, notification_list: Vec<Notification>)
        ensures
            final(self)@ == with_notifications(
                old(self)@,
                notification_views(notification_list@),
            ),
    {
        self.notifications = notification_list;
        self.is_ready.notification_list = true;
    }

    /// Takes note that the server is reached. The result is the login that is due.
    pub fn on_info(&mut self) -> (r: Option<Request>)
        ensures
            final(self)@ == (WorkerView { is_connected: true, ..old(self)@ }),
            match r {
                Some(request) => login_due(old(self)@) == Some(request@),
                None => login_due(old(self)@) is None,
            },
    {
        self.is_connected = true;
        match (&self.config.username, &self.config.password) {
            (Some(username), Some(password)) => if self.is_logged_in {
                None
            } else {
                Some(self.login(username.as_str(), password.as_str(), &self.config.mfa_token))
            },
            _ => None,
        }
    }

    /// Takes note that the server lets the client in without a login.
    pub fn on_auto_login(&mut self)
        ensures
            final(self)@ == (WorkerView { is_logged_in: true, ..old(self)@ }),
    {
        self.is_logged_in = true;
    }

    /// Takes in an event. The result is the login that is due.
    pub fn on_event(&mut self, update: Update) -> (r: Option<Request>)
        ensures
            match update {
                Update::MonitorList(list) => {
                    r is None && final(self)@ == with_monitors(old(self)@, list@)
                },
                Update::NotificationList(list) => {
                    r is None && final(self)@ == with_notifications(
                        old(self)@,
                        notification_views(list@),
                    )
                },
                Update::Info => {
                    &&& final(self)@ == (WorkerView { is_connected: true, ..old(self)@ })
                    &&& r is Some <==> login_due(old(self)@) is Some
                    &&& r is Some ==> login_due(old(self)@) == Some(r->0@)
                },
                Update::AutoLogin => {
                    r is None && final(self)@ == (WorkerView { is_logged_in: true, ..old(self)@ })
                },
            },
    {
        match update {
            Update::MonitorList(list) => {
                self.on_monitor_list(list);
                None
            },
            Update::NotificationList(list) => {
                self.on_notification_list(list);
                None
            },
            Update::Info => self.on_info(),
            Update::AutoLogin => {
                self.on_auto_login();
                None
            },
        }
    }

    /// The call that logs in.
    pub fn login(&self, username: &str, password: &str, token: &Option<String>) -> (r: Request)
        ensures
            r@ == login_call(username@, password@, text_option(*token)),
    {
        let token_value = match token {
            Some(token) => text(token.as_str()),
            None => null(),
        };
        let entries = vec![
            ("username", text(username)),
            ("password", text(password)),
            ("token", token_value),
        ];
        proof {
            reveal_with_fuel(members, 4);
            assert(entries@.drop_last().drop_last().drop_last() =~= Seq::empty());
        }
        let request = Request {
            method: "login".to_owned(),
            args: vec![Argument::Json(object(entries))],
            result_ptr: "".to_owned(),
            verify: false,
        };
        assert(request@.args =~= login_call(username@, password@, text_option(*token)).args);
        request
    }

    /// Takes in the answer to a login.
    pub fn login_answered(&mut self, answer: Result<LoginResponse, Error>) -> (r: Result<(), Error>)
        ensures
            result_view(r) == login_verdict(answer),
            final(self)@ == (WorkerView {
                is_logged_in: logged_in_after(old(self)@.is_logged_in, answer),
                ..old(self)@
            }),
    {
        match answer {
            Ok(response) => if response.ok {
                self.is_logged_in = true;
                Ok(())
            } else {
                match response.msg {
                    Some(msg) => Err(Error::LoginError(msg)),
                    None => {
                        self.is_logged_in = false;
                        Err(Error::LoginError("Unexpect login response".to_owned()))
                    },
                }
            },
            Err(error) => {
                self.is_logged_in = false;
                Err(error)
            },
        }
    }

    /// The call that asks for all tag definitions.
    pub fn get_tags(&self) -> (r: Request)
        ensures
            r@ == verified_call("getTags"@, Seq::empty(), "/tags"@),
    {
        let args: Vec<Argument> = Vec::new();
        assert(argument_views(args@) =~= Seq::empty());
        Request::verified("getTags", args, "/tags")
    }

    /// The call that adds a tag definition.
    pub fn add_tag(&self, tag: &TagDefinition) -> (r: Request)
        ensures
            r@ == verified_call("addTag"@, seq![ArgumentView::Tag(tag@)], "/tag"@),
    {
        let args = vec![Argument::Tag(tag.clone())];
        assert(argument_views(args@) =~= seq![ArgumentView::Tag(tag@)]);
        Request::verified("addTag", args, "/tag")
    }

    /// The call that changes a tag definition.
    pub fn edit_tag(&self, tag: &TagDefinition) -> (r: Request)
        ensures
            r@ == verified_call("editTag"@, seq![ArgumentView::Tag(tag@)], "/tag"@),
    {
        let args = vec![Argument::Tag(tag.clone())];
        assert(argument_views(args@) =~= seq![ArgumentView::Tag(tag@)]);
        Request::verified("editTag", args, "/tag")
    }

    /// Takes over the tag definition that the server answers an addition or a change with; without
    /// one the definition stays as it is.
    pub fn tag_answered(tag: &mut TagDefinition, answer: Result<TagDefinition, Error>) -> (r: Result<
        (),
        Error,
    >)
        ensures
            match answer {
                Ok(stored) => r is Ok && *final(tag) == stored,
                Err(error) => r == Err::<(), Error>(error) && *final(tag) == *old(tag),
            },
    {
        match answer {
            Ok(stored) => {
                *tag = stored;
                Ok(())
            },
            Err(error) => Err(error),
        }
    }

    /// The call of a method on an id that is answered with an acknowledgement.
    fn call_on_id(method: &str, id: i32) -> (r: Request)
        ensures
            r@ == verified_call(method@, seq![int_arg(id)], "/ok"@),
    {
        let args = vec![Argument::Json(integer(id))];
        assert(argument_views(args@) =~= seq![int_arg(id)]);
        Request::verified(method, args, "/ok")
    }

    /// The call that deletes a tag definition.
    pub fn delete_tag(&self, tag_id: i32) -> (r: Request)
        ensures
            r@ == verified_call("deleteTag"@, seq![int_arg(tag_id)], "/ok"@),
    {
        Worker::call_on_id("deleteTag", tag_id)
    }

    /// The call that adds a notification, which is encoded as `encoded`.
    pub fn add_notification(&self, notification: &Notification, encoded: &Value) -> (r: Request)
        requires
            json(notification.config) is Object,
            json(*encoded) is Object,
        ensures
            r@ == notification_call(notification@, json(*encoded)),
    {
        self.edit_notification(notification, encoded)
    }

    /// The call that changes a notification, which is encoded as `encoded`.
    pub fn edit_notification(&self, notification: &Notification, encoded: &Value) -> (r: Request)
        requires
            json(notification.config) is Object,
            json(*encoded) is Object,
        ensures
            r@ == notification_call(notification@, json(*encoded)),
    {
        let merged = merge(&notification.config, encoded).unwrap();
        let id = match notification.id {
            Some(id) => integer(id),
            None => null(),
        };
        let args = vec![Argument::Json(merged), Argument::Json(id)];
        assert(argument_views(args@) =~= notification_call(notification@, json(*encoded)).args);
        Request::verified("addNotification", args, "/id")
    }

    /// The call that adds or changes a notification, nothing where its configuration or its encoding
    /// is no object.
    pub fn store_notification(&self, notification: &Notification, encoded: &Value) -> (r: Option<
        Request,
    >)
        ensures
            match r {
                Some(request) => {
                    &&& json(notification.config) is Object
                    &&& json(*encoded) is Object
                    &&& request@ == notification_call(notification@, json(*encoded))
                },
                None => !(json(notification.config) is Object && json(*encoded) is Object),
            },
    {
        if notification.config.is_object() && encoded.is_object() {
            Some(self.edit_notification(notification, encoded))
        } else {
            None
        }
    }

    /// Takes in what became of the call that stores a notification: on success the notification has
    /// the id that the server gave it, else it stays as it is.
    pub fn notification_answered(
        notification: &mut Notification,
        request: &Request,
        outcome: CallOutcome,
    ) -> (r: Result<(), Error>)
        ensures
            match settled_id(request@, outcome@) {
                Ok(id) => {
                    &&& r is Ok
                    &&& final(notification)@ == (NotificationView {
                        id: Some(id),
                        ..old(notification)@
                    })
                },
                Err(error) => {
                    &&& result_view(r) == Err::<(), ErrorView>(error)
                    &&& *final(notification) == *old(notification)
                },
            },
    {
        match call_for_id(request, outcome) {
            Ok(id) => {
                notification.id = Some(id);
                Ok(())
            },
            Err(error) => Err(error),
        }
    }

    /// The call that deletes a notification.
    pub fn delete_notification(&self, notification_id: i32) -> (r: Request)
        ensures
            r@ == verified_call("deleteNotification"@, seq![int_arg(notification_id)], "/ok"@),
    {
        Worker::call_on_id("deleteNotification", notification_id)
    }

    /// The call of a method that changes one tag of a monitor.
    fn call_on_monitor_tag(method: &str, monitor_id: i32, tag_id: i32, value: &Option<String>) -> (r:
        Request)
        ensures
            r@ == monitor_tag_call(method@, monitor_id, tag_id, text_option(*value)),
    {
        let value_text = match value {
            Some(value) => text(value.as_str()),
            None => {
                let none = String::new();
                text(none.as_str())
            },
        };
        let args = vec![
            Argument::Json(integer(tag_id)),
            Argument::Json(integer(monitor_id)),
            Argument::Json(value_text),
        ];
        assert(argument_views(args@) =~= monitor_tag_call(
            method@,
            monitor_id,
            tag_id,
            text_option(*value),
        ).args);
        Request::verified(method, args, "/ok")
    }

    /// The call that puts a tag on a monitor.
    pub fn add_monitor_tag(&self, monitor_id: i32, tag_id: i32, value: &Option<String>) -> (r:
        Request)
        ensures
            r@ == monitor_tag_call("addMonitorTag"@, monitor_id, tag_id, text_option(*value)),
    {
        Worker::call_on_monitor_tag("addMonitorTag", monitor_id, tag_id, value)
    }

    /// The call that changes the value of a tag on a monitor.
    pub fn edit_monitor_tag(&self, monitor_id: i32, tag_id: i32, value: &Option<String>) -> (r:
        Request)
        ensures
            r@ == monitor_tag_call("editMonitorTag"@, monitor_id, tag_id, text_option(*value)),
    {
        Worker::call_on_monitor_tag("editMonitorTag", monitor_id, tag_id, value)
    }

    /// The call that takes a tag off a monitor.
    pub fn delete_monitor_tag(&self, monitor_id: i32, tag_id: i32, value: &Option<String>) -> (r:
        Request)
        ensures
            r@ == monitor_tag_call("deleteMonitorTag"@, monitor_id, tag_id, text_option(*value)),
    {
        Worker::call_on_monitor_tag("deleteMonitorTag", monitor_id, tag_id, value)
    }

    /// The call that deletes a monitor.
    pub fn delete_monitor(&self, monitor_id: i32) -> (r: Request)
        ensures
            r@ == verified_call("deleteMonitor"@, seq![int_arg(monitor_id)], "/ok"@),
    {
        Worker::call_on_id("deleteMonitor", monitor_id)
    }

    /// Replaces the name of a monitor's group by the id of the group.
    pub fn resolve_group(&self, monitor: &mut Monitor) -> (r: Result<(), Error>)
        ensures
            result_view(r) == group_verdict(self@.monitors, old(monitor)@),
            final(monitor)@ == with_group(self@.monitors, old(monitor)@),
    {
        let mut parent_name: Option<String> = None;
        std::mem::swap(&mut parent_name, &mut monitor.common.parent_name);
        match parent_name {
            Some(name) => {
                let ghost wanted = is_group(name@);
                let mut i: usize = 0;
                while i < self.monitors.len() && !is_group_of(self.monitors.monitor(i), &name)
                    invariant
                        i <= self.monitors@.len(),
                        wanted == is_group(name@),
                        forall|k: int| 0 <= k < i ==> !wanted(#[trigger] self.monitors@[k]),
                    decreases self.monitors@.len() - i,
                {
                    i = i + 1;
                }
                proof {
                    lemma_first_where_is(self.monitors@, wanted, i as int);
                }
                if i < self.monitors.len() {
                    match self.monitors.monitor(i).common.id {
                        Some(id) => {
                            monitor.common.parent = Some(id);
                            Ok(())
                        },
                        None => Err(Error::GroupNotFound(name)),
                    }
                } else {
                    Err(Error::GroupNotFound(name))
                }
            },
            None => {
                monitor.common.parent = None;
                Ok(())
            },
        }
    }

    /// The call that asks for a monitor.
    pub fn get_monitor(&self, monitor_id: i32) -> (r: Request)
        ensures
            r@ == verified_call("getMonitor"@, seq![int_arg(monitor_id)], "/monitor"@),
    {
        let args = vec![Argument::Json(integer(monitor_id))];
        assert(argument_views(args@) =~= seq![int_arg(monitor_id)]);
        Request::verified("getMonitor", args, "/monitor")
    }

    /// Takes in the answer to the call for a monitor.
    pub fn monitor_answered(monitor_id: i32, answer: Result<Monitor, Error>) -> (r: Result<
        Monitor,
        Error,
    >)
        ensures
            match answer {
                Ok(monitor) => r == Ok::<Monitor, Error>(monitor),
                Err(error) => result_view(r) == Err::<Monitor, ErrorView>(
                    monitor_error(monitor_id, error@),
                ),
            },
    {
        match answer {
            Ok(monitor) => Ok(monitor),
            Err(Error::ServerError(msg)) => if contains(
                msg.as_str(),
                "Cannot read properties of null",
            ) {
                Err(Error::IdNotFound("Monitor".to_owned(), monitor_id))
            } else {
                Err(Error::ServerError(msg))
            },
            Err(error) => Err(error),
        }
    }

    /// Whether the lists of the server have arrived.
    pub fn is_ready(&self) -> (r: bool)
        ensures
            r == self@.is_ready.complete(),
    {
        self.is_ready.is_ready()
    }
}

/// After a login that was accepted, or where the server lets the client in without one, none is due;
/// after the connection was lost one is due where the name and the password are known.
pub proof fn law_login_once(worker: WorkerView)
    ensures
        login_due(WorkerView { is_logged_in: true, ..worker }) is None,
        login_due(crate::connect::connecting(worker)) is Some <==> worker.config.username is Some
            && worker.config.password is Some,
{
}

/// The client counts as logged in after an answer only if that answer accepts the login, or if it
/// refuses with a message and the client was logged in before; and a login comes to success only if
/// the answer accepts it.
pub proof fn law_login_needs_acceptance(before: bool, answer: Result<LoginResponse, Error>)
    ensures
        login_verdict(answer) is Ok <==> (answer matches Ok(response) && response.ok),
        login_verdict(answer) is Ok ==> logged_in_after(before, answer),
        logged_in_after(before, answer) ==> login_verdict(answer) is Ok || before,
{
}

/// Looking up the group of a monitor a second time always succeeds, and takes the monitor out of its
/// group: the name is gone after the first time.
pub proof fn law_second_lookup_ungroups(
    first: Seq<(Seq<char>, MonitorView)>,
    second: Seq<(Seq<char>, MonitorView)>,
    monitor: MonitorView,
)
    ensures
        group_verdict(second, with_group(first, monitor)) is Ok,
        with_group(second, with_group(first, monitor)).common.parent is None,
        with_group(second, with_group(first, monitor)).common.parent_name is None,
{
}

/// Looking up a group touches nothing of a monitor but its parent and the name of its group.
pub proof fn law_lookup_keeps_the_rest(
    monitors: Seq<(Seq<char>, MonitorView)>,
    monitor: MonitorView,
)
    ensures
        with_group(monitors, monitor).common.parent_name is None,
        with_group(monitors, monitor) == (MonitorView {
            common: MonitorCommonView {
                parent: with_group(monitors, monitor).common.parent,
                parent_name: None,
                ..monitor.common
            },
            ..monitor
        }),
{
}

/// A group that is found is one of the known monitors, is a group, and carries the name; and where
/// no known monitor is such a group, looking it up fails.
pub proof fn law_group_is_known(
    monitors: Seq<(Seq<char>, MonitorView)>,
    name: Seq<char>,
)
    ensures
        group_id(monitors, name) matches Some(id) ==> exists|i: int|
            0 <= i < monitors.len() && is_group_named((#[trigger] monitors[i]).1, name)
                && monitors[i].1.common.id == Some(id),
        (forall|i: int|
            0 <= i < monitors.len() ==> !is_group_named((#[trigger] monitors[i]).1, name))
            ==> group_id(monitors, name) is None,
{
    lemma_first_where(monitors, is_group(name));
    let at = first_where(monitors, is_group(name));
    if at < monitors.len() {
        assert(is_group(name)(monitors[at]));
        assert(is_group_named(monitors[at].1, name));
    }
}

/// At first nothing is known of the server but how to reach it.
pub proof fn law_nothing_is_known_at_first(config: ConfigView)
    ensures
        initial(config).config == config,
        initial(config).monitors.len() == 0,
        initial(config).notifications.len() == 0,
        !initial(config).is_connected,
        !initial(config).is_ready.monitor_list,
        !initial(config).is_ready.notification_list,
        !initial(config).is_logged_in,
{
}

/// In every state the known monitors are, after a list of monitors has come in, exactly that list,
/// whatever was known and however many lists came before; nothing else changes but that the list has
/// arrived.
pub proof fn law_monitor_list_replaces(
    worker: WorkerView,
    earlier: Seq<(Seq<char>, MonitorView)>,
    list: Seq<(Seq<char>, MonitorView)>,
)
    ensures
        with_monitors(worker, list).monitors == list,
        with_monitors(worker, list).is_ready.monitor_list,
        with_monitors(worker, list).is_ready.notification_list == worker.is_ready.notification_list,
        with_monitors(worker, list).config == worker.config,
        with_monitors(worker, list).notifications == worker.notifications,
        with_monitors(worker, list).is_connected == worker.is_connected,
        with_monitors(worker, list).is_logged_in == worker.is_logged_in,
        with_monitors(with_monitors(worker, earlier), list) == with_monitors(worker, list),
{
}

/// In every state the known notifications are, after a list of notifications has come in, exactly
/// that list, whatever was known and however many lists came before; nothing else changes but that
/// the list has arrived.
pub proof fn law_notification_list_replaces(
    worker: WorkerView,
    earlier: Seq<NotificationView>,
    list: Seq<NotificationView>,
)
    ensures
        with_notifications(worker, list).notifications == list,
        with_notifications(worker, list).is_ready.notification_list,
        with_notifications(worker, list).is_ready.monitor_list == worker.is_ready.monitor_list,
        with_notifications(worker, list).config == worker.config,
        with_notifications(worker, list).monitors == worker.monitors,
        with_notifications(worker, list).is_connected == worker.is_connected,
        with_notifications(worker, list).is_logged_in == worker.is_logged_in,
        with_notifications(with_notifications(worker, earlier), list) == with_notifications(
            worker,
            list,
        ),
{
}

/// Two states that count as the same are set up the same, know the same of the server, and are as far
/// with the connection.
pub proof fn law_worker_view_is_faithful(a: Worker, b: Worker)
    requires
        a@ == b@,
    ensures
        a.config@ == b.config@,
        a.monitors@ == b.monitors@,
        notification_views(a.notifications@) == notification_views(b.notifications@),
        a.is_connected == b.is_connected,
        a.is_ready.monitor_list == b.is_ready.monitor_list,
        a.is_ready.notification_list == b.is_ready.notification_list,
        a.is_logged_in == b.is_logged_in,
{
}

/// A login sends one object: the name, the password and the token, which is null where there is none,
/// and nothing else. Its answer is taken whole, whether it accepts or not.
pub proof fn law_login_sends_credentials(
    username: Seq<char>,
    password: Seq<char>,
    token: Option<Seq<char>>,
)
    ensures
        ({
            let call = login_call(username, password, token);
            &&& call.method == "login"@
            &&& call.result_ptr == Seq::<char>::empty()
            &&& !call.verify
            &&& call.args.len() == 1
            &&& call.args[0] matches ArgumentView::Json(JsonView::Object(sent)) && {
                &&& forall|key: Seq<char>| #[trigger]
                    sent.contains_key(key) <==> key == "username"@ || key == "password"@ || key
                        == "token"@
                &&& sent["username"@] == JsonView::Text(username)
                &&& sent["password"@] == JsonView::Text(password)
                &&& token matches Some(t) ==> sent["token"@] == JsonView::Text(t)
                &&& token is None ==> sent["token"@] is Null
            }
        }),
{
    reveal_strlit("");
    reveal_strlit("username");
    reveal_strlit("password");
    reveal_strlit("token");
    assert(""@ =~= Seq::<char>::empty());
    assert("username"@[0] != "password"@[0]);
    assert("token"@.len() == 5);
    assert("username"@.len() == 8);
    assert("password"@.len() == 8);
}

/// A login is due exactly where the name and the password are known and the client is not logged in,
/// and it is made with the name, the password and the token that the client is set up with.
pub proof fn law_login_is_due(worker: WorkerView)
    ensures
        login_due(worker) is Some <==> worker.config.username is Some && worker.config.password is Some
            && !worker.is_logged_in,
        login_due(worker) matches Some(call) ==> call == login_call(
            worker.config.username->0,
            worker.config.password->0,
            worker.config.mfa_token,
        ),
{
}

/// What the server answers decides a login: accepted, the client is logged in; refused with a message,
/// that message is the error and the client stays as it was; refused without one, or not answered, the
/// client is not logged in, and the error of a call that failed is passed on.
pub proof fn law_login_follows_answer(before: bool, response: LoginResponse, error: Error)
    ensures
        response.ok ==> login_verdict(Ok(response)) is Ok && logged_in_after(before, Ok(response)),
        !response.ok && response.msg is Some ==> login_verdict(Ok(response)) == Err::<(), _>(
            ErrorView::LoginError(response.msg->0@),
        ) && logged_in_after(before, Ok(response)) == before,
        !response.ok && response.msg is None ==> login_verdict(Ok(response)) == Err::<(), _>(
            ErrorView::LoginError("Unexpect login response"@),
        ) && !logged_in_after(before, Ok(response)),
        login_verdict(Err(error)) == Err::<(), _>(error@),
        !logged_in_after(before, Err(error)),
{
}

/// A number is sent as the integer that it is.
pub proof fn law_number_is_sent(n: i32)
    ensures
        int_arg(n) == ArgumentView::Json(JsonView::Int(n as int)),
{
}

/// A change to a tag of a monitor sends the id of the tag, then that of the monitor, then the value,
/// which is the empty text where there is none, and has to be acknowledged.
pub proof fn law_monitor_tag_arguments(
    method: Seq<char>,
    monitor_id: i32,
    tag_id: i32,
    value: Option<Seq<char>>,
)
    ensures
        ({
            let call = monitor_tag_call(method, monitor_id, tag_id, value);
            &&& call.method == method
            &&& call.result_ptr == "/ok"@
            &&& call.verify
            &&& call.args.len() == 3
            &&& call.args[0] == ArgumentView::Json(JsonView::Int(tag_id as int))
            &&& call.args[1] == ArgumentView::Json(JsonView::Int(monitor_id as int))
            &&& value matches Some(text) ==> call.args[2] == ArgumentView::Json(
                JsonView::Text(text),
            )
            &&& value is None ==> call.args[2] == ArgumentView::Json(
                JsonView::Text(Seq::empty()),
            )
        }),
{
}

/// A notification is sent as one object, together with its id, which is null where it has none. Under
/// every key the object holds what the encoding of the notification has there, unless that is null or
/// missing; then it holds what the configuration has there.
pub proof fn law_notification_is_sent_merged(
    notification: NotificationView,
    config: Map<Seq<char>, JsonView>,
    encoded: Map<Seq<char>, JsonView>,
    key: Seq<char>,
)
    requires
        notification.config == JsonView::Object(config),
    ensures
        ({
            let call = notification_call(notification, JsonView::Object(encoded));
            let given = encoded.contains_key(key) && !(encoded[key] is Null);
            &&& call.method == "addNotification"@
            &&& call.result_ptr == "/id"@
            &&& call.verify
            &&& call.args.len() == 2
            &&& call.args[0] matches ArgumentView::Json(JsonView::Object(sent)) && {
                &&& given ==> sent.contains_key(key) && sent[key] == encoded[key]
                &&& !given && config.contains_key(key) ==> sent.contains_key(key) && sent[key]
                    == config[key]
                &&& !given && !config.contains_key(key) ==> !sent.contains_key(key)
            }
            &&& notification.id matches Some(id) ==> call.args[1] == ArgumentView::Json(
                JsonView::Int(id as int),
            )
            &&& notification.id is None ==> call.args[1] == ArgumentView::Json(JsonView::Null)
        }),
{
}

/// That the server failed on a missing record, whatever stands around it in the message, means that
/// there is no monitor of the id that was asked for.
pub proof fn law_missing_monitor(monitor_id: i32, before: Seq<char>, behind: Seq<char>)
    ensures
        monitor_error(
            monitor_id,
            ErrorView::ServerError(before + "Cannot read properties of null"@ + behind),
        ) == ErrorView::IdNotFound("Monitor"@, monitor_id),
{
    let message = before + "Cannot read properties of null"@ + behind;
    law_contained_text(message, "Cannot read properties of null"@);
}

/// Every other error of asking for a monitor is passed on as it is.
pub proof fn law_other_errors_stay(monitor_id: i32, error: ErrorView)
    requires
        error matches ErrorView::ServerError(message) ==> forall|before: Seq<char>, behind: Seq<char>|
            message != #[trigger] (before + "Cannot read properties of null"@ + behind),
    ensures
        monitor_error(monitor_id, error) == error,
{
    if let ErrorView::ServerError(message) = error {
        law_contained_text(message, "Cannot read properties of null"@);
    }
}

/// A monitor is the group of a name exactly if it is a group and one of its tags, at whichever position
/// it stands, is called `AutoKuma` and has that name as its value.
pub proof fn law_any_tag_names_group(monitor: MonitorView, name: Seq<char>)
    ensures
        is_group_named(monitor, name) <==> monitor.monitor_type is Group && exists|i: int|
            0 <= i < monitor.common.tags.len() && (#[trigger] monitor.common.tags[i]).name == Some(
                "AutoKuma"@,
            ) && monitor.common.tags[i].value == Some(name),
{
    if is_group_named(monitor, name) {
        let i = choose|i: int|
            0 <= i < monitor.common.tags.len() && marks_group(
                #[trigger] monitor.common.tags[i],
                name,
            );
        assert(monitor.common.tags[i].name == Some("AutoKuma"@));
    }
    if exists|i: int|
        0 <= i < monitor.common.tags.len() && (#[trigger] monitor.common.tags[i]).name == Some(
            "AutoKuma"@,
        ) && monitor.common.tags[i].value == Some(name) {
        let i = choose|i: int|
            0 <= i < monitor.common.tags.len() && (#[trigger] monitor.common.tags[i]).name == Some(
                "AutoKuma"@,
            ) && monitor.common.tags[i].value == Some(name);
        assert(marks_group(monitor.common.tags[i], name));
    }
}

/// Where the known monitor at `at` is a group with a tag that carries the name, and none before it is,
/// a monitor that names the group belongs to it: its parent is the id of that group. Where that group
/// has no id, the lookup fails and the parent stays.
pub proof fn law_first_group_is_taken(
    monitors: Seq<(Seq<char>, MonitorView)>,
    monitor: MonitorView,
    name: Seq<char>,
    at: int,
    tag: int,
)
    requires
        monitor.common.parent_name == Some(name),
        0 <= at < monitors.len(),
        monitors[at].1.monitor_type is Group,
        0 <= tag < monitors[at].1.common.tags.len(),
        monitors[at].1.common.tags[tag].name == Some("AutoKuma"@),
        monitors[at].1.common.tags[tag].value == Some(name),
        forall|k: int, t: int|
            0 <= k < at && monitors[k].1.monitor_type is Group && 0 <= t
                < monitors[k].1.common.tags.len() ==> !((
            #[trigger] monitors[k].1.common.tags[t]).name == Some("AutoKuma"@)
                && monitors[k].1.common.tags[t].value == Some(name)),
    ensures
        group_id(monitors, name) == monitors[at].1.common.id,
        monitors[at].1.common.id matches Some(id) ==> group_verdict(monitors, monitor) is Ok
            && with_group(monitors, monitor).common.parent == Some(id),
        monitors[at].1.common.id is None ==> group_verdict(monitors, monitor) == Err::<(), _>(
            ErrorView::GroupNotFound(name),
        ) && with_group(monitors, monitor).common.parent == monitor.common.parent,
{
    law_any_tag_names_group(monitors[at].1, name);
    assert(is_group(name)(monitors[at]));
    assert forall|k: int| 0 <= k < at implies !is_group(name)(#[trigger] monitors[k]) by {
        law_any_tag_names_group(monitors[k].1, name);
    }
    law_found_first(monitors, is_group(name), at);
}

/// Where no known monitor is a group with a tag that carries the name, looking it up fails with that
/// name, and the parent stays.
pub proof fn law_unknown_group_is_an_error(
    monitors: Seq<(Seq<char>, MonitorView)>,
    monitor: MonitorView,
    name: Seq<char>,
)
    requires
        monitor.common.parent_name == Some(name),
        forall|k: int, t: int|
            0 <= k < monitors.len() && monitors[k].1.monitor_type is Group && 0 <= t
                < monitors[k].1.common.tags.len() ==> !((
            #[trigger] monitors[k].1.common.tags[t]).name == Some("AutoKuma"@)
                && monitors[k].1.common.tags[t].value == Some(name)),
    ensures
        group_id(monitors, name) is None,
        group_verdict(monitors, monitor) == Err::<(), _>(ErrorView::GroupNotFound(name)),
        with_group(monitors, monitor).common.parent == monitor.common.parent,
{
    assert forall|k: int| 0 <= k < monitors.len() implies !is_group(name)(#[trigger] monitors[k]) by {
        law_any_tag_names_group(monitors[k].1, name);
    }
    law_found_first(monitors, is_group(name), monitors.len() as int);
}

/// A monitor that names no group belongs to none afterwards, whatever is known.
pub proof fn law_no_name_no_group(
    monitors: Seq<(Seq<char>, MonitorView)>,
    monitor: MonitorView,
)
    requires
        monitor.common.parent_name is None,
    ensures
        group_verdict(monitors, monitor) is Ok,
        with_group(monitors, monitor).common.parent is None,
{
}

/// What the server answers a login with is read as it is, the first item of the answer whole, whether
/// it accepts the login or not.
pub proof fn law_login_answer_is_read_whole(
    username: Seq<char>,
    password: Seq<char>,
    token: Option<Seq<char>>,
    response: Seq<JsonView>,
    items: Seq<JsonView>,
)
    requires
        response.len() > 0,
        response[0] == JsonView::List(items),
        items.len() > 0,
    ensures
        settled(login_call(username, password, token), CallOutcomeView::Answered(response))
            == Ok::<_, ErrorView>(items[0]),
{
    law_login_sends_credentials(username, password, token);
    law_answer_is_read_at_pointer(login_call(username, password, token), response, items);
}

/// A notification that is stored gets the id that the server answers with, where its `ok` is true.
pub proof fn law_stored_notification_gets_id(
    notification: NotificationView,
    encoded: JsonView,
    response: Seq<JsonView>,
    members: Map<Seq<char>, JsonView>,
    id: i32,
)
    requires
        answers_with(response, members),
        members.contains_key("ok"@),
        members["ok"@] == JsonView::Bool(true),
        members.contains_key("id"@),
        members["id"@] == JsonView::Int(id as int),
    ensures
        settled_id(
            notification_call(notification, encoded),
            CallOutcomeView::Answered(response),
        ) == Ok::<_, ErrorView>(id),
{
    let call = notification_call(notification, encoded);
    reveal_strlit("/id");
    reveal_strlit("id");
    assert("/id"@ =~= seq!['/'] + "id"@);
    law_call_gives_member(call, response, members, "id"@);
    law_result_is_taken_as_asked(call, response);
}

} // verus!
