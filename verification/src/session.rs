use vstd::prelude::*;

use crate::errors::AppServerError;
use crate::json::{Json, JsonView};
use crate::rpc::RequestError;
use crate::text::{concat3, same_text};
use crate::turns::poll::{TurnError, TurnFault};

verus! {

/// The parameters with which a thread is resumed.
pub open spec fn resume_params_view(
    thread_id: Seq<char>,
    yolo: bool,
    exclude_turns: bool,
) -> JsonView {
    let bare = JsonView::empty_object().with("threadId"@, JsonView::Str(thread_id)).with(
        "excludeTurns"@,
        JsonView::Bool(exclude_turns),
    );
    if yolo {
        bare.with("approvalPolicy"@, JsonView::Str("never"@)).with(
            "sandbox"@,
            JsonView::Str("danger-full-access"@),
        )
    } else {
        bare
    }
}

pub fn resume_params(thread_id: &str, yolo: bool, exclude_turns: bool) -> (params: Json)
    ensures
        params@ == resume_params_view(thread_id@, yolo, exclude_turns),
{
    let mut params = Json::object().with("threadId", Json::string(thread_id)).with(
        "excludeTurns",
        Json::Bool(exclude_turns),
    );
    if yolo {
        params.set("approvalPolicy", Json::string("never"));
        params.set("sandbox", Json::string("danger-full-access"));
    }
    params
}

/// Whether a request failed only because the server has not loaded the thread.
pub open spec fn is_unloaded(error: RequestError, thread_id: Seq<char>) -> bool {
    match error {
        RequestError::Rpc(request) => {
            &&& request.error.code == -32600
            &&& request.error.message@ == "thread not found: "@ + thread_id
        },
        RequestError::Failed(_) => false,
    }
}

pub fn is_unloaded_thread_error(error: &RequestError, thread_id: &str) -> (unloaded: bool)
    ensures
        unloaded == is_unloaded(*error, thread_id@),
{
    match error {
        RequestError::Rpc(request) => {
            let mut expected = "thread not found: ".to_owned();
            expected.append(thread_id);
            request.error.code == -32600 && same_text(
                request.error.message.as_str(),
                expected.as_str(),
            )
        },
        RequestError::Failed(_) => false,
    }
}

/// Whether a thread says that it takes no input.
pub open spec fn refuses_input(result: JsonView) -> bool {
    result.field("thread"@).field("canAcceptDirectInput"@) == JsonView::Bool(false)
}

fn thread_refuses_input(result: &Json) -> (refuses: bool)
    ensures
        refuses == refuses_input(result@),
{
    match result.field("thread").field("canAcceptDirectInput") {
        Json::Bool(accepts) => !*accepts,
        _ => false,
    }
}

/// What input to a thread that takes none is refused with.
pub open spec fn refused_message(thread_id: Seq<char>) -> Seq<char> {
    "thread `"@ + thread_id + "` does not accept direct input"@
}

fn refused_error(thread_id: &str) -> (error: TurnError)
    ensures
        error@ == TurnFault::AppServer(refused_message(thread_id@)),
{
    TurnError::AppServer(
        AppServerError {
            message: concat3("thread `", thread_id, "` does not accept direct input"),
        },
    )
}

/// Where a submission of input to a thread is.
#[derive(Debug, Clone, Copy, PartialEq, Eq, Structural)]
pub enum InputPhase {
    /// Asking whether the thread takes input.
    Checking,
    /// Submitting the input.
    Submitting,
    /// Loading the thread.
    Resuming,
    /// Submitting the input once more.
    Resubmitting,
    Ended,
}

/// A submission of input to a thread.
pub struct DirectInput {
    pub thread_id: String,
    /// Whether a thread that is not loaded may be resumed.
    pub may_resume: bool,
    pub yolo: bool,
    pub phase: InputPhase,
}

/// The mathematical value of a [`DirectInput`].
#[verifier::ext_equal]
pub struct InputView {
    pub thread_id: Seq<char>,
    pub may_resume: bool,
    pub yolo: bool,
    pub phase: InputPhase,
}

impl View for DirectInput {
    type V = InputView;

    open spec fn view(&self) -> InputView {
        InputView {
            thread_id: self.thread_id@,
            may_resume: self.may_resume,
            yolo: self.yolo,
            phase: self.phase,
        }
    }
}

/// What a submission asks for.
pub enum InputAction {
    /// Read the thread.
    Read { params: Json },
    /// Send the request.
    Submit,
    /// Resume the thread.
    Resume { params: Json },
    /// Forget the notifications so far, and send the request again.
    Resubmit,
    /// The request has its result.
    Done(Json),
    Fail(TurnError),
}

/// The mathematical value of an [`InputAction`].
pub enum InputActionView {
    Read { params: JsonView },
    Submit,
    Resume { params: JsonView },
    Resubmit,
    Done(JsonView),
    Fail(TurnFault),
}

impl View for InputAction {
    type V = InputActionView;

    open spec fn view(&self) -> InputActionView {
        match *self {
            InputAction::Read { params } => InputActionView::Read { params: params@ },
            InputAction::Submit => InputActionView::Submit,
            InputAction::Resume { params } => InputActionView::Resume { params: params@ },
            InputAction::Resubmit => InputActionView::Resubmit,
            InputAction::Done(result) => InputActionView::Done(result@),
            InputAction::Fail(error) => InputActionView::Fail(error@),
        }
    }
}

/// A submission after the answer to what it asked for, and what it asks for next. A thread
/// that takes no input is sent none; a thread that is not loaded is resumed at most once.
pub open spec fn input_step(input: InputView, answer: Result<Json, RequestError>) -> (
    InputView,
    InputActionView,
) {
    let ended = InputView { phase: InputPhase::Ended, ..input };
    match (input.phase, answer) {
        (InputPhase::Ended, Ok(result)) => (ended, InputActionView::Done(result@)),
        (InputPhase::Checking, Ok(result)) => if refuses_input(result@) {
            (
                ended,
                InputActionView::Fail(TurnFault::AppServer(refused_message(input.thread_id))),
            )
        } else {
            (InputView { phase: InputPhase::Submitting, ..input }, InputActionView::Submit)
        },
        (InputPhase::Resuming, Ok(result)) => if refuses_input(result@) {
            (
                ended,
                InputActionView::Fail(TurnFault::AppServer(refused_message(input.thread_id))),
            )
        } else {
            (InputView { phase: InputPhase::Resubmitting, ..input }, InputActionView::Resubmit)
        },
        (InputPhase::Submitting, Ok(result)) => (ended, InputActionView::Done(result@)),
        (InputPhase::Resubmitting, Ok(result)) => (ended, InputActionView::Done(result@)),
        (phase, Err(error)) => if phase == InputPhase::Submitting && input.may_resume
            && is_unloaded(error, input.thread_id) {
            (
                InputView { phase: InputPhase::Resuming, ..input },
                InputActionView::Resume {
                    params: resume_params_view(input.thread_id, input.yolo, true),
                },
            )
        } else {
            (ended, InputActionView::Fail(TurnFault::Request(error)))
        },
    }
}

impl DirectInput {
    /// Begins a submission, which first asks whether the thread takes input.
    pub fn new(thread_id: &str, may_resume: bool, yolo: bool) -> (begun: (DirectInput, InputAction))
        ensures
            begun.0@ == (InputView {
                thread_id: thread_id@,
                may_resume,
                yolo,
                phase: InputPhase::Checking,
            }),
            begun.1@ == (InputActionView::Read {
                params: JsonView::empty_object().with("threadId"@, JsonView::Str(thread_id@)),
            }),
    {
        (
            DirectInput {
                thread_id: thread_id.to_owned(),
                may_resume,
                yolo,
                phase: InputPhase::Checking,
            },
            InputAction::Read {
                params: Json::object().with("threadId", Json::string(thread_id)),
            },
        )
    }

    /// Takes in the answer to what the submission asked for and says what it asks for next.
    pub fn step(&mut self, answer: Result<Json, RequestError>) -> (action: InputAction)
        ensures
            (final(self)@, action@) == input_step(old(self)@, answer),
    {
        let phase = self.phase;
        match answer {
            Ok(result) => {
                if phase == InputPhase::Checking || phase == InputPhase::Resuming {
                    if thread_refuses_input(&result) {
                        self.phase = InputPhase::Ended;
                        return InputAction::Fail(refused_error(self.thread_id.as_str()));
                    }
                    if phase == InputPhase::Checking {
                        self.phase = InputPhase::Submitting;
                        return InputAction::Submit;
                    }
                    self.phase = InputPhase::Resubmitting;
                    return InputAction::Resubmit;
                }
                self.phase = InputPhase::Ended;
                InputAction::Done(result)
            },
            Err(error) => {
                if phase == InputPhase::Submitting && self.may_resume && is_unloaded_thread_error(
                    &error,
                    self.thread_id.as_str(),
                ) {
                    self.phase = InputPhase::Resuming;
                    return InputAction::Resume {
                        params: resume_params(self.thread_id.as_str(), self.yolo, true),
                    };
                }
                self.phase = InputPhase::Ended;
                InputAction::Fail(TurnError::Request(error))
            },
        }
    }
}

/// Nothing is submitted to a thread that says it takes no input, whether it says so at first
/// or when it is resumed.
pub proof fn law_no_input_to_a_thread_that_refuses_it(input: InputView, result: Json)
    requires
        input.phase == InputPhase::Checking || input.phase == InputPhase::Resuming,
        refuses_input(result@),
    ensures
        ({
            let (after, action) = input_step(input, Ok(result));
            &&& after.phase == InputPhase::Ended
            &&& action == InputActionView::Fail(
                TurnFault::AppServer(refused_message(input.thread_id)),
            )
        }),
{
}

/// A submission that may not resume a thread never does.
pub proof fn law_no_resume_unless_allowed(input: InputView, answer: Result<Json, RequestError>)
    requires
        !input.may_resume,
    ensures
        !(input_step(input, answer).1 is Resume),
{
}

} // verus!
