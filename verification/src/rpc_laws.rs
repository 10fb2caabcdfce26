use vstd::prelude::*;

use crate::json::{lemma_get_with, JsonView};
use crate::protocol_words::lemma_words;
use crate::errors::Failure;
use crate::parse::parsed_json;
use crate::rpc::{
    awaited_ok, heard_ok, initialize_params_view, listen_step_ok, notification_message_view,
    rejection_view, request_step_ok, request_view, response_for_id, rpc_error_text, Incoming,
    ListenStep, ParsedResponseView, RequestError, RequestStep,
};
use crate::session::{input_step, resume_params_view, InputActionView, InputPhase, InputView};
use crate::text::decimal;
use crate::turns::poll::TurnFault;
use crate::words::stands_at;

verus! {

/// A request has its id and its method, and its parameters unless they are null; a notification
/// has the same but for the id.
pub proof fn law_request_carries_method_and_params(id: i64, method: Seq<char>, params: JsonView)
    ensures
        ({
            let request = request_view(id, method, params);
            &&& request.field("id"@).as_i64() == Some(id)
            &&& request.field("method"@) == JsonView::Str(method)
            &&& params is Null ==> request.get("params"@) is None
            &&& !(params is Null) ==> request.get("params"@) == Some(params)
        }),
        ({
            let message = notification_message_view(method, params);
            &&& message.get("id"@) is None
            &&& message.field("method"@) == JsonView::Str(method)
            &&& params is Null ==> message.get("params"@) is None
            &&& !(params is Null) ==> message.get("params"@) == Some(params)
        }),
{
    broadcast use lemma_get_with;

    lemma_words();
    assert(forall|key: Seq<char>| (#[trigger] JsonView::empty_object().get(key)) is None);
}

/// The answer to a request of the server goes to that request, and says that no such method is
/// served.
pub proof fn law_rejection_answers_the_request(request: JsonView)
    ensures
        ({
            let answer = rejection_view(request);
            &&& answer.field("id"@) == request.field("id"@)
            &&& answer.get("result"@) is None
            &&& answer.field("error"@).field("code"@).as_i64() == Some(-32601i64)
            &&& answer.field("error"@).field("message"@) is Str
            &&& request.field("method"@) is Str ==> answer.field("error"@).field("message"@).text()
                == "unsupported server request `"@ + request.field("method"@).text() + "`"@
        }),
{
    broadcast use lemma_get_with;

    lemma_words();
    assert(forall|key: Seq<char>| (#[trigger] JsonView::empty_object().get(key)) is None);
}

/// A message answers a request just where it has its id. It gives a result where it has one and
/// no error, and the server's error where it has one, with an integer code and a text, and no
/// result; anything else is a fault.
pub proof fn law_response_is_result_or_error(value: JsonView, id: i64)
    ensures
        ({
            let response = response_for_id(value, id);
            let own = value.field("id"@).as_i64() == Some(id);
            let result = value.get("result"@);
            let error = value.get("error"@);
            let code = error->0.field("code"@).as_i64();
            let message = error->0.field("message"@);
            &&& !own <==> response == Ok::<Option<ParsedResponseView>, Seq<char>>(None)
            &&& own && result is Some && error is None ==> response == Ok::<
                Option<ParsedResponseView>,
                Seq<char>,
            >(Some(ParsedResponseView::Success(result->0)))
            &&& own && result is None && error is Some && code is Some && message is Str
                ==> response == Ok::<Option<ParsedResponseView>, Seq<char>>(
                Some(ParsedResponseView::Failure { code: code->0, message: message.text() }),
            )
            &&& own && result is None && error is Some && !(code is Some && message is Str)
                ==> response is Err
            &&& own && (result is Some <==> error is Some) ==> response is Err
        }),
{
}

/// While a request is awaited, a message with a method is handed on where it has no id, and
/// rejected where it has one; a message without a method ends the wait just where it answers the
/// request.
pub proof fn law_messages_are_told_apart(
    step: RequestStep,
    value: JsonView,
    id: i64,
    method: Seq<char>,
)
    requires
        request_step_ok(step, value, id, method),
    ensures
        ({
            let named = value.field("method"@) is Str;
            let own = value.field("id"@).as_i64() == Some(id);
            &&& named && value.get("id"@) is None ==> (step matches RequestStep::Notify(heard)
                && heard@.method == value.field("method"@).text() && heard@.params == value.field(
                "params"@,
            ))
            &&& named && value.get("id"@) is Some ==> (step matches RequestStep::Reject(answer)
                && answer@.field("id"@) == value.field("id"@))
            &&& !named && !own ==> step is Ignore
            &&& !named && own && value.get("result"@) is Some && value.get("error"@) is None ==> (
            step matches RequestStep::Done(result) && result@ == value.field("result"@))
            &&& !named && own && value.get("error"@) is Some ==> step is Fail
            &&& !named && own && value.get("result"@) is None ==> step is Fail
            &&& step matches RequestStep::Fail(RequestError::Rpc(error)) ==> {
                &&& error.method@ == method
                &&& value.field("error"@).field("code"@).as_i64() == Some(error.error.code)
                &&& value.field("error"@).field("message"@) == JsonView::Str(
                    error.error.message@,
                )
            }
        }),
{
    law_rejection_answers_the_request(value);
    law_response_is_result_or_error(value, id);
}

/// While nothing is awaited, a message with a method is handed on where it has no id, and one
/// with both is rejected; anything else is ignored.
pub proof fn law_heard_messages_are_told_apart(step: ListenStep, value: JsonView)
    requires
        listen_step_ok(step, value),
    ensures
        value.get("id"@) is Some && value.get("method"@) is Some ==> (step matches
            ListenStep::Reject(answer) && answer@.field("id"@) == value.field("id"@)),
        value.get("id"@) is None && value.field("method"@) is Str ==> (step matches
            ListenStep::Notify(heard) && heard@.method == value.field("method"@).text()
            && heard@.params == value.field("params"@)),
        value.get("method"@) is None ==> step is Ignore,
{
    law_rejection_answers_the_request(value);
}

/// A connection that ends, fails or falls silent fails the request that is awaited, and says so;
/// a message that is no text is passed over; and a text is what it says, where it is JSON, and
/// otherwise fails the request.
pub proof fn law_silence_fails_a_request(
    step: RequestStep,
    incoming: Result<Incoming, Failure>,
    id: i64,
    method: Seq<char>,
)
    requires
        awaited_ok(step, incoming, id, method),
    ensures
        incoming matches Err(elapsed) ==> (step matches RequestStep::Fail(RequestError::Failed(
            failure,
        )) && failure@.len() == elapsed@.len() + 1 && failure@.drop_first() == elapsed@
            && failure@[0] == "timed out waiting for app-server `"@ + method + "` response"@),
        incoming matches Ok(Incoming::Closed) ==> (step matches RequestStep::Fail(
            RequestError::Failed(failure),
        ) && failure@ == seq![
            "app-server connection closed while waiting for `"@ + method + "`"@,
        ]),
        incoming matches Ok(Incoming::Broken(cause)) ==> (step matches RequestStep::Fail(
            RequestError::Failed(failure),
        ) && failure@.len() == cause@.len() + 1 && failure@.drop_first() == cause@),
        incoming matches Ok(Incoming::Other) ==> step is Ignore,
        incoming matches Ok(Incoming::Text(text)) ==> {
            &&& parsed_json(text@) matches Ok(value) ==> request_step_ok(step, value, id, method)
            &&& parsed_json(text@) matches Err(message) ==> (step matches RequestStep::Fail(
                RequestError::Failed(failure),
            ) && failure@.last() == message && failure@.len() == 2)
        },
{
    if let RequestStep::Fail(RequestError::Failed(failure)) = step {
        match incoming {
            Err(elapsed) => {
                assert(failure@.drop_first() =~= elapsed@);
            },
            Ok(Incoming::Broken(cause)) => {
                assert(failure@.drop_first() =~= cause@);
            },
            _ => {},
        }
    }
}

/// So it is while nothing is awaited, but that there is no time limit.
pub proof fn law_closed_connection_ends_listening(step: ListenStep, incoming: Incoming)
    requires
        heard_ok(step, incoming),
    ensures
        incoming is Closed ==> step is Fail,
        incoming is Broken ==> step is Fail,
        incoming is Other ==> step is Ignore,
        incoming matches Incoming::Text(text) ==> {
            &&& parsed_json(text@) matches Ok(value) ==> listen_step_ok(step, value)
            &&& parsed_json(text@) is Err ==> step is Fail
        },
{
}

/// The text of a server's error names the method, and the code and message that the server gave,
/// unless it is about the experimental protocol, which it then says is missing.
pub proof fn law_error_text_says_what_the_server_said(
    method: Seq<char>,
    code: i64,
    message: Seq<char>,
    at: int,
)
    ensures
        0 <= at && at + 15 <= message.len() && message.subrange(at, at + 15)
            == "experimentalApi"@ ==> rpc_error_text(method, code, message)
            == "app-server rejected `"@ + method
            + "` because it requires experimentalApi capability"@,
        message.len() < 15 ==> rpc_error_text(method, code, message) == "app-server `"@ + method
            + "` error "@ + decimal(code as int) + ": "@ + message,
{
    reveal_strlit("experimentalApi");
    if 0 <= at && at + 15 <= message.len() && message.subrange(at, at + 15)
        == "experimentalApi"@ {
        assert(stands_at(message, "experimentalApi"@, at));
    }
}

/// The client introduces itself by its name and version, and asks for the experimental protocol.
pub proof fn law_client_introduces_itself()
    ensures
        ({
            let params = initialize_params_view();
            let client = params.field("clientInfo"@);
            &&& client.field("name"@) == JsonView::Str("codex-tamer"@)
            &&& client.field("title"@) == JsonView::Str("codex-tamer"@)
            &&& client.field("version"@) == JsonView::Str("0.3.3"@)
            &&& params.field("capabilities"@).field("experimentalApi"@) == JsonView::Bool(true)
        }),
{
    broadcast use lemma_get_with;

    lemma_words();
}

/// A request to resume a thread names it, says whether its turns are wanted, and leaves
/// everything to the agent just where that was asked for.
pub proof fn law_resume_request_carries_what_was_asked(
    thread_id: Seq<char>,
    yolo: bool,
    exclude_turns: bool,
)
    ensures
        ({
            let params = resume_params_view(thread_id, yolo, exclude_turns);
            &&& params.field("threadId"@) == JsonView::Str(thread_id)
            &&& params.field("excludeTurns"@) == JsonView::Bool(exclude_turns)
            &&& yolo ==> {
                &&& params.field("approvalPolicy"@) == JsonView::Str("never"@)
                &&& params.field("sandbox"@) == JsonView::Str("danger-full-access"@)
            }
            &&& !yolo ==> {
                &&& params.get("approvalPolicy"@) is None
                &&& params.get("sandbox"@) is None
            }
        }),
{
    broadcast use lemma_get_with;

    lemma_words();
    assert(forall|key: Seq<char>| (#[trigger] JsonView::empty_object().get(key)) is None);
}

/// Input goes to a thread unless the thread says, at first or when it is resumed, that it takes
/// none; what the request comes to then is what the submission comes to.
pub proof fn law_input_is_submitted_unless_refused(input: InputView, result: crate::json::Json)
    ensures
        ({
            let (after, action) = input_step(input, Ok(result));
            let refused = result@.field("thread"@).field("canAcceptDirectInput"@)
                == JsonView::Bool(false);
            &&& input.phase == InputPhase::Checking && !refused ==> action is Submit && after.phase
                == InputPhase::Submitting
            &&& input.phase == InputPhase::Resuming && !refused ==> action is Resubmit
                && after.phase == InputPhase::Resubmitting
            &&& (input.phase == InputPhase::Checking || input.phase == InputPhase::Resuming)
                && refused ==> (action matches InputActionView::Fail(TurnFault::AppServer(_)))
                && after.phase == InputPhase::Ended
            &&& input.phase == InputPhase::Submitting || input.phase == InputPhase::Resubmitting
                ==> action == InputActionView::Done(result@)
            &&& after.thread_id == input.thread_id
            &&& after.may_resume == input.may_resume
            &&& after.yolo == input.yolo
        }),
{
}

/// A request that fails ends the submission with that failure. The one exception is a first
/// submission that may resume, to a thread that the server says, in just these words and under
/// this code, not to have loaded: that thread is resumed, without its turns.
pub proof fn law_thread_is_resumed_once_where_it_is_not_loaded(
    input: InputView,
    error: RequestError,
)
    ensures
        ({
            let (after, action) = input_step(input, Err(error));
            let unloaded = error matches RequestError::Rpc(request) && request.error.code == -32600
                && request.error.message@ == "thread not found: "@ + input.thread_id;
            let resumed = input.phase == InputPhase::Submitting && input.may_resume && unloaded;
            &&& resumed ==> {
                &&& after.phase == InputPhase::Resuming
                &&& action matches InputActionView::Resume { params } && {
                    &&& params.field("threadId"@) == JsonView::Str(input.thread_id)
                    &&& params.field("excludeTurns"@) == JsonView::Bool(true)
                    &&& params.get("approvalPolicy"@) is Some <==> input.yolo
                }
            }
            &&& !resumed ==> action == InputActionView::Fail(TurnFault::Request(error))
                && after.phase == InputPhase::Ended
        }),
{
    law_resume_request_carries_what_was_asked(input.thread_id, input.yolo, true);
}

} // verus!
