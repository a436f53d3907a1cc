//! What the server sends on its own accord.
use crate::json::json;
use crate::json::null;
use crate::json::JsonView;
use crate::model::Notification;
use crate::monitors::MonitorList;
use serde_json::Value;
use vstd::prelude::*;

verus! {

/// An event that the client acts upon.
#[derive(Clone, Copy, Debug, PartialEq, Eq, Structural)]
pub enum Event {
    MonitorList,
    NotificationList,
    Info,
    AutoLogin,
}

impl Event {
    /// The event of a name.
    pub open spec fn named(name: Seq<char>) -> Option<Event> {
        if name == "monitorList"@ {
            Some(Event::MonitorList)
        } else if name == "notificationList"@ {
            Some(Event::NotificationList)
        } else if name == "info"@ {
            Some(Event::Info)
        } else if name == "autoLogin"@ {
            Some(Event::AutoLogin)
        } else {
            None
        }
    }

    /// The event of a name, nothing where the client does not act upon it.
    pub fn from_name(name: &str) -> (r: Option<Event>)
        ensures
            r == Event::named(name@),
    {
        let name = name.to_owned();
        if name == "monitorList".to_owned() {
            Some(Event::MonitorList)
        } else if name == "notificationList".to_owned() {
            Some(Event::NotificationList)
        } else if name == "info".to_owned() {
            Some(Event::Info)
        } else if name == "autoLogin".to_owned() {
            Some(Event::AutoLogin)
        } else {
            None
        }
    }
}

/// Something that came in on the connection.
#[derive(Debug)]
pub enum Incoming {
    /// A plain message, whose first parameter names the event.
    Message(Vec<Value>),
    /// An event under a name of its own, with its parameters.
    Named(String, Vec<Value>),
    /// Anything that is not text.
    Binary,
}

/// The name of the event that a plain message carries.
pub open spec fn message_name(params: Seq<Value>) -> Seq<char> {
    match json(params[0]) {
        JsonView::Text(name) => name,
        _ => ""@,
    }
}

/// The event that came in, if it is one that the client acts upon.
pub open spec fn event_in(incoming: Incoming) -> Option<Event> {
    match incoming {
        Incoming::Message(params) => Event::named(message_name(params@)),
        Incoming::Named(name, _) => Event::named(name@),
        Incoming::Binary => None,
    }
}

/// Whether what came in has the parameters that are read: a plain message always has one, and so
/// has an event that the client acts upon.
pub open spec fn has_params(incoming: Incoming) -> bool {
    match incoming {
        Incoming::Message(params) => params@.len() > 0,
        Incoming::Named(name, params) => Event::named(name@) is Some ==> params@.len() > 0,
        Incoming::Binary => true,
    }
}

/// The event that came in, with what it carries: nothing in a plain message, the first parameter of
/// an event under its own name.
pub fn dispatch(incoming: Incoming) -> (r: Option<(Event, Value)>)
    requires
        has_params(incoming),
    ensures
        match r {
            Some((event, payload)) => {
                &&& event_in(incoming) == Some(event)
                &&& incoming is Message ==> json(payload) == JsonView::Null
                &&& incoming matches Incoming::Named(_, params) ==> payload == params@[0]
            },
            None => event_in(incoming) is None,
        },
{
    match incoming {
        Incoming::Message(params) => {
            let name = match params[0].as_str() {
                Some(name) => name,
                None => "",
            };
            match Event::from_name(name) {
                Some(event) => Some((event, null())),
                None => None,
            }
        },
        Incoming::Named(name, params) => match Event::from_name(name.as_str()) {
            Some(event) => {
                let mut params = params;
                Some((event, params.remove(0)))
            },
            None => None,
        },
        Incoming::Binary => None,
    }
}

/// An event together with what it carries.
#[derive(Debug)]
pub enum Update {
    MonitorList(MonitorList),
    NotificationList(Vec<Notification>),
    Info,
    AutoLogin,
}

/// The client acts upon the events of four names, each of its own, and upon no other.
pub proof fn law_events_by_name(name: Seq<char>)
    ensures
        Event::named(name) == Some(Event::MonitorList) <==> name == "monitorList"@,
        Event::named(name) == Some(Event::NotificationList) <==> name == "notificationList"@,
        Event::named(name) == Some(Event::Info) <==> name == "info"@,
        Event::named(name) == Some(Event::AutoLogin) <==> name == "autoLogin"@,
{
    reveal_strlit("monitorList");
    reveal_strlit("notificationList");
    reveal_strlit("info");
    reveal_strlit("autoLogin");
    assert("monitorList"@[0] != "autoLogin"@[0]);
    assert("monitorList"@.len() == 11);
    assert("notificationList"@.len() == 16);
    assert("info"@.len() == 4);
    assert("autoLogin"@.len() == 9);
}

/// A plain message carries the event that its first parameter names, whatever comes behind; one whose
/// first parameter is no text carries none, and neither does what is not text.
pub proof fn law_message_names_its_event(params: Vec<Value>)
    requires
        params@.len() > 0,
    ensures
        has_params(Incoming::Message(params)),
        json(params@[0]) matches JsonView::Text(name) ==> event_in(Incoming::Message(params))
            == Event::named(name),
        !(json(params@[0]) is Text) ==> event_in(Incoming::Message(params)) is None,
        event_in(Incoming::Binary) is None,
        has_params(Incoming::Binary),
{
    reveal_strlit("");
    reveal_strlit("monitorList");
    reveal_strlit("notificationList");
    reveal_strlit("info");
    reveal_strlit("autoLogin");
    assert(""@.len() == 0);
    law_events_by_name(""@);
}

/// An event under a name of its own is the event of that name, whatever its parameters; only one that
/// the client acts upon has to have any.
pub proof fn law_event_under_its_name(name: String, params: Vec<Value>)
    ensures
        event_in(Incoming::Named(name, params)) == Event::named(name@),
        has_params(Incoming::Named(name, params)) <==> params@.len() > 0 || Event::named(name@) is None,
{
}

} // verus!
