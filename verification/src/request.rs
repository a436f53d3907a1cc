//! Calls to the server: what is sent, what comes back, and how it is read.
use crate::error::result_view;
use crate::error::Error;
use crate::error::ErrorView;
use crate::json::as_i32;
use crate::json::as_truth;
use crate::json::at;
use crate::json::descend;
use crate::json::json;
use crate::json::jsons;
use crate::json::law_pointer_behind_first_item;
use crate::json::law_pointer_into_nothing;
use crate::json::lemma_child_zero;
use crate::json::lemma_tokens_first;
use crate::json::lemma_tokens_last;
use crate::json::lemma_unescaped_plain;
use crate::json::list_of;
use crate::json::to_bool;
use crate::json::to_i32;
use crate::json::tokens;
use crate::json::JsonView;
use crate::model::Monitor;
use crate::model::MonitorView;
use crate::model::TagDefinition;
use crate::model::TagDefinitionView;
use crate::worker::Worker;
use serde_json::Value;
use vstd::prelude::*;
use vstd::string::*;

verus! {

/// An argument of a call: a value, or a record that is encoded on the way out.
#[derive(Debug)]
pub enum Argument {
    Json(Value),
    Tag(TagDefinition),
    Monitor(Monitor),
}

/// What an `Argument` holds.
pub enum ArgumentView {
    Json(JsonView),
    Tag(TagDefinitionView),
    Monitor(MonitorView),
}

impl View for Argument {
    type V = ArgumentView;

    open spec fn view(&self) -> ArgumentView {
        match *self {
            Argument::Json(value) => ArgumentView::Json(json(value)),
            Argument::Tag(tag) => ArgumentView::Tag(tag@),
            Argument::Monitor(monitor) => ArgumentView::Monitor(monitor@),
        }
    }
}

/// What several arguments hold, in order.
pub open spec fn argument_views(args: Seq<Argument>) -> Seq<ArgumentView> {
    args.map_values(|arg: Argument| arg@)
}

/// A call to be made: the method, its arguments, where in the answer the result stands, and whether
/// the answer has to say that the call succeeded.
#[derive(Debug)]
pub struct Request {
    pub method: String,
    pub args: Vec<Argument>,
    pub result_ptr: String,
    pub verify: bool,
}

/// What a `Request` holds.
pub struct RequestView {
    pub method: Seq<char>,
    pub args: Seq<ArgumentView>,
    pub result_ptr: Seq<char>,
    pub verify: bool,
}

impl View for Request {
    type V = RequestView;

    open spec fn view(&self) -> RequestView {
        RequestView {
            method: self.method@,
            args: argument_views(self.args@),
            result_ptr: self.result_ptr@,
            verify: self.verify,
        }
    }
}

/// A call whose answer is verified.
pub open spec fn verified_call(
    method: Seq<char>,
    args: Seq<ArgumentView>,
    result_ptr: Seq<char>,
) -> RequestView {
    RequestView { method, args, result_ptr, verify: true }
}

impl Request {
    /// A call whose answer is verified.
    pub(crate) fn verified(method: &str, args: Vec<Argument>, result_ptr: &str) -> (r: Self)
        ensures
            r@ == verified_call(method@, argument_views(args@), result_ptr@),
    {
        Request {
            method: method.to_owned(),
            args,
            result_ptr: result_ptr.to_owned(),
            verify: true,
        }
    }
}

/// What became of a call.
#[derive(Debug)]
pub enum CallOutcome {
    /// There was no connection to make it on.
    Disconnected,
    /// It could not be sent.
    EmitFailed(String),
    /// No answer came in time.
    TimedOut,
    /// The answer was not text.
    Unsupported,
    /// The answer.
    Answered(Vec<Value>),
}

/// What a `CallOutcome` holds.
pub enum CallOutcomeView {
    Disconnected,
    EmitFailed(Seq<char>),
    TimedOut,
    Unsupported,
    Answered(Seq<JsonView>),
}

impl View for CallOutcome {
    type V = CallOutcomeView;

    open spec fn view(&self) -> CallOutcomeView {
        match *self {
            CallOutcome::Disconnected => CallOutcomeView::Disconnected,
            CallOutcome::EmitFailed(message) => CallOutcomeView::EmitFailed(message@),
            CallOutcome::TimedOut => CallOutcomeView::TimedOut,
            CallOutcome::Unsupported => CallOutcomeView::Unsupported,
            CallOutcome::Answered(response) => CallOutcomeView::Answered(jsons(response@)),
        }
    }
}

/// The message of an answer that refuses, `Unknown error` where it has none.
pub open spec fn refusal(response: Seq<JsonView>) -> Seq<char> {
    match at(JsonView::List(response), "/0/0/msg"@) {
        Some(JsonView::Text(message)) => message,
        _ => "Unknown error"@,
    }
}

/// The value under `result_ptr` in the first item of an answer; where the answer is verified, only
/// if its `ok` is true.
pub open spec fn extracted(
    response: Seq<JsonView>,
    result_ptr: Seq<char>,
    verify: bool,
) -> Result<JsonView, ErrorView> {
    let ok = at(JsonView::List(response), "/0/0/ok"@);
    if verify && ok is None {
        Err(ErrorView::InvalidResponse(response, result_ptr))
    } else if verify && ok != Some(JsonView::Bool(true)) {
        Err(ErrorView::ServerError(refusal(response)))
    } else {
        match at(JsonView::List(response), "/0/0"@ + result_ptr) {
            Some(value) => Ok(value),
            None => Err(ErrorView::InvalidResponse(response, result_ptr)),
        }
    }
}

/// What a call comes to.
pub open spec fn settled(request: RequestView, outcome: CallOutcomeView) -> Result<JsonView, ErrorView> {
    match outcome {
        CallOutcomeView::Disconnected => Err(ErrorView::Disconnected),
        CallOutcomeView::EmitFailed(message) => Err(ErrorView::CommunicationError(message)),
        CallOutcomeView::TimedOut => Err(ErrorView::CallTimeout(request.method)),
        CallOutcomeView::Unsupported => Err(ErrorView::UnsupportedResponse),
        CallOutcomeView::Answered(response) => extracted(
            response,
            request.result_ptr,
            request.verify,
        ),
    }
}

/// The error of a result that cannot be read as what was asked for.
pub open spec fn unreadable(request: RequestView, outcome: CallOutcomeView) -> ErrorView {
    ErrorView::InvalidResponse(outcome->Answered_0, request.result_ptr)
}

/// What a call for an id comes to.
pub open spec fn settled_id(request: RequestView, outcome: CallOutcomeView) -> Result<i32, ErrorView> {
    match settled(request, outcome) {
        Ok(value) => match as_i32(value) {
            Some(id) => Ok(id),
            None => Err(unreadable(request, outcome)),
        },
        Err(error) => Err(error),
    }
}

/// What a call for an acknowledgement comes to: it is one whichever boolean is read.
pub open spec fn settled_ok(request: RequestView, outcome: CallOutcomeView) -> Result<(), ErrorView> {
    match settled(request, outcome) {
        Ok(value) => match as_truth(value) {
            Some(_) => Ok(()),
            None => Err(unreadable(request, outcome)),
        },
        Err(error) => Err(error),
    }
}

/// A result found in an answer, to be read as what was asked for.
#[derive(Debug)]
pub struct Extracted {
    pub value: Value,
    /// The answer that it stands in.
    pub response: Vec<Value>,
    /// Where in the answer it stands.
    pub result_ptr: String,
}

impl Extracted {
    /// The result, given what it was read as: an error where it could not be read.
    pub fn decoded<T>(self, parsed: Option<T>) -> (r: Result<T, Error>)
        ensures
            result_view(r) == (match parsed {
                Some(value) => Ok(value),
                None => Err(
                    ErrorView::InvalidResponse(jsons(self.response@), self.result_ptr@),
                ),
            }),
    {
        match parsed {
            Some(value) => Ok(value),
            None => Err(Error::InvalidResponse(self.response, self.result_ptr)),
        }
    }
}

impl Worker {
    /// Finds the result of a call in its answer.
    pub fn extract_response(response: Vec<Value>, result_ptr: &str, verify: bool) -> (r: Result<
        Extracted,
        Error,
    >)
        ensures
            match r {
                Ok(found) => {
                    &&& extracted(jsons(response@), result_ptr@, verify) == Ok::<_, ErrorView>(
                        json(found.value),
                    )
                    &&& found.response == response
                    &&& found.result_ptr@ == result_ptr@
                },
                Err(error) => extracted(jsons(response@), result_ptr@, verify) == Err::<
                    JsonView,
                    _,
                >(error@),
            },
    {
        let document = list_of(&response);
        if verify {
            match document.pointer("/0/0/ok") {
                None => {
                    return Err(Error::InvalidResponse(response, result_ptr.to_owned()));
                },
                Some(ok) => {
                    let accepted = match ok.as_bool() {
                        Some(accepted) => accepted,
                        None => false,
                    };
                    if !accepted {
                        let message = match document.pointer("/0/0/msg") {
                            Some(message) => match message.as_str() {
                                Some(message) => message,
                                None => "Unknown error",
                            },
                            None => "Unknown error",
                        };
                        return Err(Error::ServerError(message.to_owned()));
                    }
                },
            }
        }
        let path = "/0/0".to_owned().concat(result_ptr);
        match document.pointer(path.as_str()) {
            Some(value) => Ok(
                Extracted { value: value.clone(), response, result_ptr: result_ptr.to_owned() },
            ),
            None => Err(Error::InvalidResponse(response, result_ptr.to_owned())),
        }
    }

    /// What became of a call: its result, still to be read, or why there is none.
    pub fn call(request: &Request, outcome: CallOutcome) -> (r: Result<Extracted, Error>)
        ensures
            match r {
                Ok(found) => {
                    &&& settled(request@, outcome@) == Ok::<_, ErrorView>(json(found.value))
                    &&& outcome == CallOutcome::Answered(found.response)
                    &&& found.result_ptr@ == request@.result_ptr
                },
                Err(error) => settled(request@, outcome@) == Err::<JsonView, _>(error@),
            },
    {
        match outcome {
            CallOutcome::Disconnected => Err(Error::Disconnected),
            CallOutcome::EmitFailed(message) => Err(Error::CommunicationError(message)),
            CallOutcome::TimedOut => Err(Error::CallTimeout(request.method.clone())),
            CallOutcome::Unsupported => Err(Error::UnsupportedResponse),
            CallOutcome::Answered(response) => Worker::extract_response(
                response,
                request.result_ptr.as_str(),
                request.verify,
            ),
        }
    }
}

/// What became of a call whose result is an id.
pub fn call_for_id(request: &Request, outcome: CallOutcome) -> (r: Result<i32, Error>)
    ensures
        result_view(r) == settled_id(request@, outcome@),
{
    match Worker::call(request, outcome) {
        Ok(found) => {
            let parsed = to_i32(found.value.clone());
            found.decoded(parsed)
        },
        Err(error) => Err(error),
    }
}

/// What became of a call whose result is an acknowledgement.
pub fn call_for_ok(request: &Request, outcome: CallOutcome) -> (r: Result<(), Error>)
    ensures
        result_view(r) == settled_ok(request@, outcome@),
{
    match Worker::call(request, outcome) {
        Ok(found) => {
            let parsed = to_bool(found.value.clone());
            match found.decoded(parsed) {
                Ok(_) => Ok(()),
                Err(error) => Err(error),
            }
        },
        Err(error) => Err(error),
    }
}

/// The answer of the server to a call has the members of an object as its first item.
pub open spec fn answers_with(response: Seq<JsonView>, members: Map<Seq<char>, JsonView>) -> bool {
    &&& response.len() > 0
    &&& response[0] matches JsonView::List(items) && items.len() > 0 && items[0]
        == JsonView::Object(members)
}

/// The pointer `/0/0/name` leads to the member of that name in the object that the server answers
/// with.
pub proof fn law_answer_member(
    response: Seq<JsonView>,
    members: Map<Seq<char>, JsonView>,
    name: Seq<char>,
)
    requires
        answers_with(response, members),
        !name.contains('/'),
        !name.contains('~'),
    ensures
        at(JsonView::List(response), "/0/0"@ + seq!['/'] + name) == if members.contains_key(name) {
            Some(members[name])
        } else {
            None
        },
{
    reveal_strlit("/0/0");
    let pointer = "/0/0"@ + seq!['/'] + name;
    let zero = seq!['0'];
    assert(!zero.contains('/') && !zero.contains('~'));
    lemma_tokens_last(name);
    lemma_tokens_first(zero, name);
    lemma_tokens_first(zero, zero + seq!['/'] + name);
    assert(pointer.skip(1) =~= zero + seq!['/'] + (zero + seq!['/'] + name));
    let path = tokens(pointer.skip(1));
    assert(path =~= seq![zero, zero, name]);
    lemma_unescaped_plain(zero);
    lemma_unescaped_plain(name);
    lemma_child_zero(response);
    let items = response[0]->List_0;
    lemma_child_zero(items);
    assert(path.skip(1) =~= seq![zero, name]);
    assert(path.skip(1).skip(1) =~= seq![name]);
    assert(path.skip(1).skip(1).skip(1) =~= Seq::<Seq<char>>::empty());
    reveal_with_fuel(descend, 4);
}

/// A call that is acknowledged by `ok` succeeds exactly if the server answers that it is true. An
/// answer with another `ok` fails with the message of the server, and one without it is invalid.
pub proof fn law_acknowledged(
    method: Seq<char>,
    args: Seq<ArgumentView>,
    response: Seq<JsonView>,
    members: Map<Seq<char>, JsonView>,
)
    requires
        answers_with(response, members),
    ensures
        ({
            let result = settled_ok(
                verified_call(method, args, "/ok"@),
                CallOutcomeView::Answered(response),
            );
            if !members.contains_key("ok"@) {
                result == Err::<(), _>(ErrorView::InvalidResponse(response, "/ok"@))
            } else if members["ok"@] == JsonView::Bool(true) {
                result is Ok
            } else {
                result == Err::<(), _>(
                    ErrorView::ServerError(
                        if members.contains_key("msg"@) && members["msg"@] is Text {
                            members["msg"@]->Text_0
                        } else {
                            "Unknown error"@
                        },
                    ),
                )
            }
        }),
{
    reveal_strlit("/0/0");
    reveal_strlit("/0/0/ok");
    reveal_strlit("/0/0/msg");
    reveal_strlit("/ok");
    reveal_strlit("ok");
    reveal_strlit("msg");
    assert("/0/0/ok"@ =~= "/0/0"@ + seq!['/'] + "ok"@);
    assert("/0/0/msg"@ =~= "/0/0"@ + seq!['/'] + "msg"@);
    assert("/0/0"@ + "/ok"@ =~= "/0/0"@ + seq!['/'] + "ok"@);
    law_answer_member(response, members, "ok"@);
    law_answer_member(response, members, "msg"@);
}

/// A call fails with the error, whatever its result would have been read as.
pub open spec fn fails_with(
    request: RequestView,
    outcome: CallOutcomeView,
    error: ErrorView,
) -> bool {
    &&& settled(request, outcome) == Err::<JsonView, _>(error)
    &&& settled_id(request, outcome) == Err::<i32, _>(error)
    &&& settled_ok(request, outcome) == Err::<(), _>(error)
}

/// A call without an answer in text fails, whatever it asks for, with the error of what happened: that
/// there is no connection, why it could not be sent, which call was not answered in time, or that the
/// answer is of no use.
pub proof fn law_unanswered_call_fails(request: RequestView, outcome: CallOutcomeView)
    ensures
        outcome is Disconnected ==> fails_with(request, outcome, ErrorView::Disconnected),
        outcome matches CallOutcomeView::EmitFailed(message) ==> fails_with(
            request,
            outcome,
            ErrorView::CommunicationError(message),
        ),
        outcome is TimedOut ==> fails_with(
            request,
            outcome,
            ErrorView::CallTimeout(request.method),
        ),
        outcome is Unsupported ==> fails_with(request, outcome, ErrorView::UnsupportedResponse),
{
}

/// The message that an answer refuses with: its `msg` where that is text, `Unknown error` else.
pub open spec fn message_of(first: JsonView) -> Seq<char> {
    match at(first, "/msg"@) {
        Some(JsonView::Text(message)) => message,
        _ => "Unknown error"@,
    }
}

/// What an answer comes to depends on the first item in it alone. Where the call need not be verified,
/// or the `ok` of that item is true, the result is exactly the value that the call's pointer leads to
/// from there, whatever value it is. An answer that has to be verified and has another `ok` fails with
/// its message, one without `ok` is invalid, and so is one in which the pointer leads nowhere.
pub proof fn law_answer_is_read_at_pointer(
    request: RequestView,
    response: Seq<JsonView>,
    items: Seq<JsonView>,
)
    requires
        response.len() > 0,
        response[0] == JsonView::List(items),
        items.len() > 0,
        request.result_ptr.len() > 0 ==> request.result_ptr[0] == '/',
    ensures
        ({
            let result = settled(request, CallOutcomeView::Answered(response));
            let invalid = ErrorView::InvalidResponse(response, request.result_ptr);
            let ok = at(items[0], "/ok"@);
            let accepted = !request.verify || ok == Some(JsonView::Bool(true));
            let addressed = at(items[0], request.result_ptr);
            &&& accepted && addressed is Some ==> result == Ok::<_, ErrorView>(addressed->0)
            &&& accepted && addressed is None ==> result == Err::<JsonView, _>(invalid)
            &&& !accepted && ok is None ==> result == Err::<JsonView, _>(invalid)
            &&& !accepted && ok is Some ==> result == Err::<JsonView, _>(
                ErrorView::ServerError(message_of(items[0])),
            )
        }),
{
    reveal_strlit("/0/0");
    reveal_strlit("/0/0/ok");
    reveal_strlit("/0/0/msg");
    reveal_strlit("/ok");
    reveal_strlit("/msg");
    assert("/0/0/ok"@ =~= "/0/0"@ + "/ok"@);
    assert("/0/0/msg"@ =~= "/0/0"@ + "/msg"@);
    law_pointer_behind_first_item(response, items, "/ok"@);
    law_pointer_behind_first_item(response, items, "/msg"@);
    law_pointer_behind_first_item(response, items, request.result_ptr);
}

/// An answer without items is invalid.
pub proof fn law_empty_answer_is_invalid(request: RequestView, response: Seq<JsonView>)
    requires
        response.len() == 0 || response[0] == JsonView::List(Seq::empty()),
        request.result_ptr.len() > 0 ==> request.result_ptr[0] == '/',
    ensures
        settled(request, CallOutcomeView::Answered(response)) == Err::<JsonView, _>(
            ErrorView::InvalidResponse(response, request.result_ptr),
        ),
{
    reveal_strlit("/0/0");
    reveal_strlit("/0/0/ok");
    reveal_strlit("/ok");
    assert("/0/0/ok"@ =~= "/0/0"@ + "/ok"@);
    law_pointer_into_nothing(response, "/ok"@);
    law_pointer_into_nothing(response, request.result_ptr);
}

/// A verified call for a member of the object that the server answers with settles to exactly that
/// member, whatever it holds, if the object's `ok` is true; it fails with the message of the server if
/// `ok` is anything else, and is invalid if `ok` or the member is missing. A call that is not verified
/// settles to the member whatever `ok` is.
pub proof fn law_call_gives_member(
    request: RequestView,
    response: Seq<JsonView>,
    members: Map<Seq<char>, JsonView>,
    name: Seq<char>,
)
    requires
        answers_with(response, members),
        request.result_ptr == seq!['/'] + name,
        !name.contains('/'),
        !name.contains('~'),
    ensures
        ({
            let result = settled(request, CallOutcomeView::Answered(response));
            let invalid = ErrorView::InvalidResponse(response, request.result_ptr);
            let accepted = !request.verify || (members.contains_key("ok"@) && members["ok"@]
                == JsonView::Bool(true));
            &&& accepted && members.contains_key(name) ==> result == Ok::<_, ErrorView>(
                members[name],
            )
            &&& accepted && !members.contains_key(name) ==> result == Err::<JsonView, _>(invalid)
            &&& !accepted && !members.contains_key("ok"@) ==> result == Err::<JsonView, _>(invalid)
            &&& !accepted && members.contains_key("ok"@) && members.contains_key("msg"@)
                && members["msg"@] is Text ==> result == Err::<JsonView, _>(
                ErrorView::ServerError(members["msg"@]->Text_0),
            )
            &&& !accepted && members.contains_key("ok"@) && !(members.contains_key("msg"@)
                && members["msg"@] is Text) ==> result == Err::<JsonView, _>(
                ErrorView::ServerError("Unknown error"@),
            )
        }),
{
    reveal_strlit("/0/0");
    reveal_strlit("/0/0/ok");
    reveal_strlit("/0/0/msg");
    reveal_strlit("ok");
    reveal_strlit("msg");
    assert("/0/0/ok"@ =~= "/0/0"@ + seq!['/'] + "ok"@);
    assert("/0/0/msg"@ =~= "/0/0"@ + seq!['/'] + "msg"@);
    assert("/0/0"@ + request.result_ptr =~= "/0/0"@ + seq!['/'] + name);
    law_answer_member(response, members, "ok"@);
    law_answer_member(response, members, "msg"@);
    law_answer_member(response, members, name);
}

/// A result is taken as an id exactly if it is an integer of the range, and then it is that integer; it
/// is taken as an acknowledgement exactly if it is a boolean; else the answer is invalid. Where there is
/// no result, its error is passed on.
pub proof fn law_result_is_taken_as_asked(request: RequestView, response: Seq<JsonView>)
    ensures
        ({
            let outcome = CallOutcomeView::Answered(response);
            let invalid = ErrorView::InvalidResponse(response, request.result_ptr);
            match settled(request, outcome) {
                Ok(JsonView::Int(n)) => {
                    &&& i32::MIN <= n <= i32::MAX ==> (settled_id(request, outcome) matches Ok(id)
                        && id == n)
                    &&& !(i32::MIN <= n <= i32::MAX) ==> settled_id(request, outcome) == Err::<i32, _>(
                        invalid,
                    )
                    &&& settled_ok(request, outcome) == Err::<(), _>(invalid)
                },
                Ok(JsonView::Bool(_)) => {
                    &&& settled_id(request, outcome) == Err::<i32, _>(invalid)
                    &&& settled_ok(request, outcome) is Ok
                },
                Ok(_) => {
                    &&& settled_id(request, outcome) == Err::<i32, _>(invalid)
                    &&& settled_ok(request, outcome) == Err::<(), _>(invalid)
                },
                Err(error) => fails_with(request, outcome, error),
            }
        }),
{
}

/// A call that is verified names its method, its arguments and where its result stands, as given.
pub proof fn law_verified_call(method: Seq<char>, args: Seq<ArgumentView>, result_ptr: Seq<char>)
    ensures
        verified_call(method, args, result_ptr).method == method,
        verified_call(method, args, result_ptr).args == args,
        verified_call(method, args, result_ptr).result_ptr == result_ptr,
        verified_call(method, args, result_ptr).verify,
{
}

/// Two requests that count as the same are calls of the same method with the same arguments, in order,
/// whose answers are read the same way.
pub proof fn law_request_view_is_faithful(a: Request, b: Request)
    requires
        a@ == b@,
    ensures
        a.method@ == b.method@,
        a.result_ptr@ == b.result_ptr@,
        a.verify == b.verify,
        a.args@.len() == b.args@.len(),
        forall|i: int|
            0 <= i < a.args@.len() ==> match (#[trigger] a.args@[i], b.args@[i]) {
                (Argument::Json(x), Argument::Json(y)) => json(x) == json(y),
                (Argument::Tag(x), Argument::Tag(y)) => x@ == y@,
                (Argument::Monitor(x), Argument::Monitor(y)) => x@ == y@,
                _ => false,
            },
{
    assert(a@.args.len() == a.args@.len());
    assert(b@.args.len() == b.args@.len());
    assert forall|i: int| 0 <= i < a.args@.len() implies match (#[trigger] a.args@[i], b.args@[i]) {
        (Argument::Json(x), Argument::Json(y)) => json(x) == json(y),
        (Argument::Tag(x), Argument::Tag(y)) => x@ == y@,
        (Argument::Monitor(x), Argument::Monitor(y)) => x@ == y@,
        _ => false,
    } by {
        assert(a@.args[i] == a.args@[i]@);
        assert(b@.args[i] == b.args@[i]@);
    }
}

/// An argument holds what it is made of: a value, a tag definition or a monitor.
pub proof fn law_argument_view_keeps_kind(value: Value, tag: TagDefinition, monitor: Monitor)
    ensures
        Argument::Json(value)@ == ArgumentView::Json(json(value)),
        Argument::Tag(tag)@ == ArgumentView::Tag(tag@),
        Argument::Monitor(monitor)@ == ArgumentView::Monitor(monitor@),
{
}

/// What became of a call is taken as what it is.
pub proof fn law_outcome_view_keeps_kind(message: String, response: Vec<Value>)
    ensures
        CallOutcome::Disconnected@ is Disconnected,
        CallOutcome::EmitFailed(message)@ == CallOutcomeView::EmitFailed(message@),
        CallOutcome::TimedOut@ is TimedOut,
        CallOutcome::Unsupported@ is Unsupported,
        CallOutcome::Answered(response)@ matches CallOutcomeView::Answered(values) && values.len()
            == response@.len() && forall|i: int|
            0 <= i < values.len() ==> #[trigger] values[i] == json(response@[i]),
{
}

} // verus!
