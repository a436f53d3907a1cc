//! What the client exchanges with the server: monitors, tags and notifications.
use crate::json::json;
use crate::json::JsonView;
use serde_json::Value;
use vstd::prelude::*;

verus! {

/// The text of an optional string.
pub open spec fn text_option(text: Option<String>) -> Option<Seq<char>> {
    match text {
        Some(text) => Some(text@),
        None => None,
    }
}

/// The text of an optional string, empty where there is none.
pub open spec fn text_or_empty(text: Option<Seq<char>>) -> Seq<char> {
    match text {
        Some(text) => text,
        None => Seq::empty(),
    }
}

/// The contents of an optional value.
pub open spec fn value_option(value: Option<Value>) -> Option<JsonView> {
    match value {
        Some(value) => Some(json(value)),
        None => None,
    }
}

/// Whether two optional strings hold the same text.
pub(crate) fn same_text(a: &Option<String>, b: &Option<String>) -> (r: bool)
    ensures
        r == (text_option(*a) == text_option(*b)),
{
    match (a, b) {
        (Some(a), Some(b)) => *a == *b,
        (None, None) => true,
        _ => false,
    }
}

/// A copy of an optional string.
pub(crate) fn copy_text(text: &Option<String>) -> (r: Option<String>)
    ensures
        text_option(r) == text_option(*text),
{
    match text {
        Some(text) => Some(text.clone()),
        None => None,
    }
}

/// A copy of an optional value.
fn copy_value(value: &Option<Value>) -> (r: Option<Value>)
    ensures
        value_option(r) == value_option(*value),
{
    match value {
        Some(value) => Some(value.clone()),
        None => None,
    }
}

/// A tag as it stands on a monitor.
#[derive(Debug)]
pub struct Tag {
    /// The tag definition that it stands for.
    pub tag_id: Option<i32>,
    pub name: Option<String>,
    pub value: Option<String>,
    /// The other fields.
    pub details: Value,
}

/// What a `Tag` holds.
pub struct TagView {
    pub tag_id: Option<i32>,
    pub name: Option<Seq<char>>,
    pub value: Option<Seq<char>>,
    pub details: JsonView,
}

impl View for Tag {
    type V = TagView;

    open spec fn view(&self) -> TagView {
        TagView {
            tag_id: self.tag_id,
            name: text_option(self.name),
            value: text_option(self.value),
            details: json(self.details),
        }
    }
}

impl Clone for Tag {
    fn clone(&self) -> (r: Self)
        ensures
            r@ == self@,
    {
        Tag {
            tag_id: self.tag_id,
            name: copy_text(&self.name),
            value: copy_text(&self.value),
            details: self.details.clone(),
        }
    }
}

/// What several tags hold, in order.
pub open spec fn tag_views(tags: Seq<Tag>) -> Seq<TagView> {
    tags.map_values(|tag: Tag| tag@)
}

/// A copy of several tags.
pub(crate) fn copy_tags(tags: &Vec<Tag>) -> (r: Vec<Tag>)
    ensures
        tag_views(r@) == tag_views(tags@),
{
    let mut copies: Vec<Tag> = Vec::new();
    let mut i: usize = 0;
    while i < tags.len()
        invariant
            i <= tags.len(),
            copies@.len() == i,
            forall|k: int| 0 <= k < i ==> #[trigger] copies@[k]@ == tags@[k]@,
        decreases tags.len() - i,
    {
        copies.push(tags[i].clone());
        i = i + 1;
    }
    assert(tag_views(copies@) =~= tag_views(tags@));
    copies
}

/// A tag that monitors can be given.
#[derive(Debug)]
pub struct TagDefinition {
    pub tag_id: Option<i32>,
    /// The other fields.
    pub details: Value,
}

/// What a `TagDefinition` holds.
pub struct TagDefinitionView {
    pub tag_id: Option<i32>,
    pub details: JsonView,
}

impl View for TagDefinition {
    type V = TagDefinitionView;

    open spec fn view(&self) -> TagDefinitionView {
        TagDefinitionView { tag_id: self.tag_id, details: json(self.details) }
    }
}

impl Clone for TagDefinition {
    fn clone(&self) -> (r: Self)
        ensures
            r@ == self@,
    {
        TagDefinition { tag_id: self.tag_id, details: self.details.clone() }
    }
}

/// What several tag definitions hold, in order.
pub open spec fn definition_views(tags: Seq<TagDefinition>) -> Seq<TagDefinitionView> {
    tags.map_values(|tag: TagDefinition| tag@)
}

/// A way to send out alerts.
#[derive(Debug)]
pub struct Notification {
    pub id: Option<i32>,
    pub config: Value,
    /// The other fields.
    pub details: Value,
}

/// What a `Notification` holds.
pub struct NotificationView {
    pub id: Option<i32>,
    pub config: JsonView,
    pub details: JsonView,
}

impl View for Notification {
    type V = NotificationView;

    open spec fn view(&self) -> NotificationView {
        NotificationView { id: self.id, config: json(self.config), details: json(self.details) }
    }
}

impl Clone for Notification {
    fn clone(&self) -> (r: Self)
        ensures
            r@ == self@,
    {
        Notification {
            id: self.id,
            config: self.config.clone(),
            details: self.details.clone(),
        }
    }
}

/// What several notifications hold, in order.
pub open spec fn notification_views(notifications: Seq<Notification>) -> Seq<NotificationView> {
    notifications.map_values(|notification: Notification| notification@)
}

/// A copy of several notifications.
pub(crate) fn copy_notifications(notifications: &Vec<Notification>) -> (r: Vec<Notification>)
    ensures
        notification_views(r@) == notification_views(notifications@),
{
    let mut copies: Vec<Notification> = Vec::new();
    let mut i: usize = 0;
    while i < notifications.len()
        invariant
            i <= notifications.len(),
            copies@.len() == i,
            forall|k: int| 0 <= k < i ==> #[trigger] copies@[k]@ == notifications@[k]@,
        decreases notifications.len() - i,
    {
        copies.push(notifications[i].clone());
        i = i + 1;
    }
    assert(notification_views(copies@) =~= notification_views(notifications@));
    copies
}

/// The kind of a monitor.
#[derive(Debug)]
pub enum MonitorType {
    /// A monitor that other monitors can belong to.
    Group,
    /// Any other kind, by its name.
    Other(String),
}

/// What a `MonitorType` holds.
pub enum MonitorTypeView {
    Group,
    Other(Seq<char>),
}

impl View for MonitorType {
    type V = MonitorTypeView;

    open spec fn view(&self) -> MonitorTypeView {
        match *self {
            MonitorType::Group => MonitorTypeView::Group,
            MonitorType::Other(name) => MonitorTypeView::Other(name@),
        }
    }
}

impl Clone for MonitorType {
    fn clone(&self) -> (r: Self)
        ensures
            r@ == self@,
    {
        match self {
            MonitorType::Group => MonitorType::Group,
            MonitorType::Other(name) => MonitorType::Other(name.clone()),
        }
    }
}

/// What every kind of monitor has and the client works with.
#[derive(Debug)]
pub struct MonitorCommon {
    pub id: Option<i32>,
    /// The group that the monitor belongs to.
    pub parent: Option<i32>,
    /// The name of that group, until it is resolved to `parent`.
    pub parent_name: Option<String>,
    pub tags: Vec<Tag>,
    /// Which notifications are switched on, as the server encodes it.
    pub notification_id_list: Option<Value>,
}

/// What a `MonitorCommon` holds.
pub struct MonitorCommonView {
    pub id: Option<i32>,
    pub parent: Option<i32>,
    pub parent_name: Option<Seq<char>>,
    pub tags: Seq<TagView>,
    pub notification_id_list: Option<JsonView>,
}

impl View for MonitorCommon {
    type V = MonitorCommonView;

    open spec fn view(&self) -> MonitorCommonView {
        MonitorCommonView {
            id: self.id,
            parent: self.parent,
            parent_name: text_option(self.parent_name),
            tags: tag_views(self.tags@),
            notification_id_list: value_option(self.notification_id_list),
        }
    }
}

impl Clone for MonitorCommon {
    fn clone(&self) -> (r: Self)
        ensures
            r@ == self@,
    {
        MonitorCommon {
            id: self.id,
            parent: self.parent,
            parent_name: copy_text(&self.parent_name),
            tags: copy_tags(&self.tags),
            notification_id_list: copy_value(&self.notification_id_list),
        }
    }
}

/// Something that the server watches.
#[derive(Debug)]
pub struct Monitor {
    pub monitor_type: MonitorType,
    pub common: MonitorCommon,
    /// The other fields.
    pub details: Value,
}

/// What a `Monitor` holds.
pub struct MonitorView {
    pub monitor_type: MonitorTypeView,
    pub common: MonitorCommonView,
    pub details: JsonView,
}

impl View for Monitor {
    type V = MonitorView;

    open spec fn view(&self) -> MonitorView {
        MonitorView {
            monitor_type: self.monitor_type@,
            common: self.common@,
            details: json(self.details),
        }
    }
}

impl Clone for Monitor {
    fn clone(&self) -> (r: Self)
        ensures
            r@ == self@,
    {
        Monitor {
            monitor_type: self.monitor_type.clone(),
            common: self.common.clone(),
            details: self.details.clone(),
        }
    }
}

/// The server's answer to a login.
#[derive(Debug)]
pub struct LoginResponse {
    pub ok: bool,
    pub msg: Option<String>,
}

/// Whether both or neither is there, with the same text.
pub open spec fn same_option(a: Option<String>, b: Option<String>) -> bool {
    match (a, b) {
        (Some(x), Some(y)) => x@ == y@,
        (None, None) => true,
        _ => false,
    }
}

/// Two tags that count as the same have the same id, name, value and other fields.
pub proof fn law_tag_view_is_faithful(a: Tag, b: Tag)
    requires
        a@ == b@,
    ensures
        a.tag_id == b.tag_id,
        same_option(a.name, b.name),
        same_option(a.value, b.value),
        json(a.details) == json(b.details),
{
}

/// Two lists of tags that count as the same have the same tags, in order.
pub proof fn law_tags_view_is_faithful(a: Seq<Tag>, b: Seq<Tag>)
    requires
        tag_views(a) == tag_views(b),
    ensures
        a.len() == b.len(),
        forall|i: int| 0 <= i < a.len() ==> (#[trigger] a[i])@ == b[i]@,
{
    assert(tag_views(a).len() == a.len());
    assert(tag_views(b).len() == b.len());
    assert forall|i: int| 0 <= i < a.len() implies (#[trigger] a[i])@ == b[i]@ by {
        assert(tag_views(a)[i] == a[i]@);
        assert(tag_views(b)[i] == b[i]@);
    }
}

/// Two tag definitions that count as the same have the same id and other fields; and lists of them
/// that count as the same have the same definitions, in order.
pub proof fn law_definition_view_is_faithful(a: Seq<TagDefinition>, b: Seq<TagDefinition>)
    requires
        definition_views(a) == definition_views(b),
    ensures
        a.len() == b.len(),
        forall|i: int|
            0 <= i < a.len() ==> (#[trigger] a[i]).tag_id == b[i].tag_id && json(a[i].details)
                == json(b[i].details),
{
    assert(definition_views(a).len() == a.len());
    assert(definition_views(b).len() == b.len());
    assert forall|i: int| 0 <= i < a.len() implies (#[trigger] a[i]).tag_id == b[i].tag_id && json(
        a[i].details,
    ) == json(b[i].details) by {
        assert(definition_views(a)[i] == a[i]@);
        assert(definition_views(b)[i] == b[i]@);
    }
}

/// Two lists of notifications that count as the same have the same notifications, in order, each with
/// the same id, configuration and other fields.
pub proof fn law_notification_view_is_faithful(a: Seq<Notification>, b: Seq<Notification>)
    requires
        notification_views(a) == notification_views(b),
    ensures
        a.len() == b.len(),
        forall|i: int|
            0 <= i < a.len() ==> (#[trigger] a[i]).id == b[i].id && json(a[i].config) == json(
                b[i].config,
            ) && json(a[i].details) == json(b[i].details),
{
    assert(notification_views(a).len() == a.len());
    assert(notification_views(b).len() == b.len());
    assert forall|i: int| 0 <= i < a.len() implies (#[trigger] a[i]).id == b[i].id && json(
        a[i].config,
    ) == json(b[i].config) && json(a[i].details) == json(b[i].details) by {
        assert(notification_views(a)[i] == a[i]@);
        assert(notification_views(b)[i] == b[i]@);
    }
}

/// Two monitors that count as the same are of the same kind, and have the same id, group, tags,
/// notifications and other fields.
pub proof fn law_monitor_view_is_faithful(a: Monitor, b: Monitor)
    requires
        a@ == b@,
    ensures
        a.monitor_type is Group <==> b.monitor_type is Group,
        a.monitor_type matches MonitorType::Other(x) ==> b.monitor_type matches MonitorType::Other(y)
            && x@ == y@,
        a.common.id == b.common.id,
        a.common.parent == b.common.parent,
        same_option(a.common.parent_name, b.common.parent_name),
        tag_views(a.common.tags@) == tag_views(b.common.tags@),
        a.common.notification_id_list is Some <==> b.common.notification_id_list is Some,
        a.common.notification_id_list matches Some(x) ==> json(x) == json(
            b.common.notification_id_list->0,
        ),
        json(a.details) == json(b.details),
{
}

} // verus!
