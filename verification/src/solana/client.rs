use crate::solana::domain::{
    baselines, expected_response, version_request, DataReceive, DataReceiveError,
    DataReceiveErrorView, DataReceiveView, DataSend, DataSendView,
};
use vstd::prelude::*;
use vstd::string::StringExecFns;

verus! {

/// Why an exchange ended in [`SolanaClientError::UnexpectedError`].
#[derive(Debug, PartialEq)]
pub enum UnexpectedCause {
    /// The request got no response: connection, timeout or I/O failure.
    /// Holds the transport's account of it.
    Transport(String),
    /// A response came with status 200 and its body could not be read.
    /// Holds the transport's account of it.
    BodyRead(String),
    /// The body has the success shape and is not a known-good response.
    UnknownVersion,
    /// The body has neither the success shape nor the error shape. Holds the
    /// decoder's account of why it is no error response.
    Unrecognized(String),
}

/// An [`UnexpectedCause`] as mathematical values.
pub enum UnexpectedCauseView {
    Transport(Seq<char>),
    BodyRead(Seq<char>),
    UnknownVersion,
    Unrecognized(Seq<char>),
}

impl View for UnexpectedCause {
    type V = UnexpectedCauseView;

    open spec fn view(&self) -> UnexpectedCauseView {
        match self {
            UnexpectedCause::Transport(cause) => UnexpectedCauseView::Transport(cause@),
            UnexpectedCause::BodyRead(cause) => UnexpectedCauseView::BodyRead(cause@),
            UnexpectedCause::UnknownVersion => UnexpectedCauseView::UnknownVersion,
            UnexpectedCause::Unrecognized(detail) => UnexpectedCauseView::Unrecognized(detail@),
        }
    }
}

impl UnexpectedCauseView {
    /// The sentence that describes the cause.
    pub open spec fn message(self) -> Seq<char> {
        match self {
            UnexpectedCauseView::Transport(_) => "Failed to get response from the remote node"@,
            UnexpectedCauseView::BodyRead(_) => "Something went wrong with extracting data"@,
            UnexpectedCauseView::UnknownVersion =>
                "Unexpected data returned from remote node, possibly corrupted"@,
            UnexpectedCauseView::Unrecognized(detail) =>
                "Unexpected error response provided from the node: "@ + detail,
        }
    }
}

impl UnexpectedCause {
    /// The sentence that describes the cause.
    pub fn message(&self) -> (text: String)
        ensures
            text@ == self@.message(),
    {
        match self {
            UnexpectedCause::Transport(_) => "Failed to get response from the remote node".to_owned(),
            UnexpectedCause::BodyRead(_) => "Something went wrong with extracting data".to_owned(),
            UnexpectedCause::UnknownVersion =>
                "Unexpected data returned from remote node, possibly corrupted".to_owned(),
            UnexpectedCause::Unrecognized(detail) =>
                "Unexpected error response provided from the node: ".to_owned().concat(
                    detail.as_str(),
                ),
        }
    }
}

/// How an exchange with a node can fail.
#[derive(Debug, PartialEq)]
pub enum SolanaClientError {
    /// The node answered with a status other than 200.
    HttpResponseError,
    /// The node answered with a well-formed JSON-RPC error: it refused what
    /// was sent.
    SentDataError,
    /// Anything else.
    UnexpectedError(UnexpectedCause),
}

/// A [`SolanaClientError`] as mathematical values.
pub enum SolanaClientErrorView {
    HttpResponseError,
    SentDataError,
    UnexpectedError(UnexpectedCauseView),
}

impl View for SolanaClientError {
    type V = SolanaClientErrorView;

    open spec fn view(&self) -> SolanaClientErrorView {
        match self {
            SolanaClientError::HttpResponseError => SolanaClientErrorView::HttpResponseError,
            SolanaClientError::SentDataError => SolanaClientErrorView::SentDataError,
            SolanaClientError::UnexpectedError(cause) => SolanaClientErrorView::UnexpectedError(
                cause@,
            ),
        }
    }
}

impl SolanaClientErrorView {
    /// The sentence that describes the error.
    pub open spec fn message(self) -> Seq<char> {
        match self {
            SolanaClientErrorView::HttpResponseError =>
                "HTTP Response error: Remote node did not return 200 OK"@,
            SolanaClientErrorView::SentDataError =>
                "Sent data error: Sent data to remote node is not valid"@,
            SolanaClientErrorView::UnexpectedError(cause) => cause.message(),
        }
    }
}

impl SolanaClientError {
    /// The sentence that describes the error.
    pub fn message(&self) -> (text: String)
        ensures
            text@ == self@.message(),
    {
        match self {
            SolanaClientError::HttpResponseError =>
                "HTTP Response error: Remote node did not return 200 OK".to_owned(),
            SolanaClientError::SentDataError =>
                "Sent data error: Sent data to remote node is not valid".to_owned(),
            SolanaClientError::UnexpectedError(cause) => cause.message(),
        }
    }
}

/// The only status with which a response is read further.
pub const STATUS_OK: u16 = 200;

/// What is to be put on the wire: `data` as the JSON body of a POST to `uri`,
/// the whole exchange bounded by `timeout` milliseconds.
#[derive(Debug, PartialEq)]
pub struct Request {
    pub uri: String,
    pub timeout: u64,
    pub data: DataSend,
}

/// A [`Request`] as mathematical values.
pub struct RequestView {
    pub uri: Seq<char>,
    pub timeout: u64,
    pub data: DataSendView,
}

impl View for Request {
    type V = RequestView;

    open spec fn view(&self) -> RequestView {
        RequestView { uri: self.uri@, timeout: self.timeout, data: self.data@ }
    }
}

/// A response body after decoding. The decoder reads the text once as the
/// success shape and once as the error shape; which of the two readings
/// counts is decided here, not by the decoder.
#[derive(Debug, PartialEq)]
pub struct Payload {
    /// The body read as the success shape, if it has that shape.
    pub as_success: Option<DataReceive>,
    /// The body read as the error shape, or the decoder's account of why it
    /// has not that shape.
    pub as_error: Result<DataReceiveError, String>,
}

/// A [`Payload`] as mathematical values.
pub struct PayloadView {
    pub as_success: Option<DataReceiveView>,
    pub as_error: Result<DataReceiveErrorView, Seq<char>>,
}

impl View for Payload {
    type V = PayloadView;

    open spec fn view(&self) -> PayloadView {
        PayloadView {
            as_success: match self.as_success {
                Some(response) => Some(response@),
                None => None,
            },
            as_error: match self.as_error {
                Ok(refusal) => Ok(refusal@),
                Err(detail) => Err(detail@),
            },
        }
    }
}

/// The judgement of a decoded body. The success shape is tried first: a body
/// that has it is accepted if it is known good and is otherwise unexpected,
/// whatever its reading as an error would be. Only a body without the success
/// shape is read as an error: a well-formed error means that the node refused
/// the request, and a body of neither shape is unexpected.
pub open spec fn verdict(payload: PayloadView) -> Result<DataReceiveView, SolanaClientErrorView> {
    match payload.as_success {
        Some(response) => if response.is_known_good() {
            Ok(response)
        } else {
            Err(SolanaClientErrorView::UnexpectedError(UnexpectedCauseView::UnknownVersion))
        },
        None => match payload.as_error {
            Ok(_) => Err(SolanaClientErrorView::SentDataError),
            Err(detail) => Err(
                SolanaClientErrorView::UnexpectedError(UnexpectedCauseView::Unrecognized(detail)),
            ),
        },
    }
}

/// The view of the result of an exchange.
pub open spec fn result_view(result: Result<DataReceive, SolanaClientError>) -> Result<
    DataReceiveView,
    SolanaClientErrorView,
> {
    match result {
        Ok(response) => Ok(response@),
        Err(error) => Err(error@),
    }
}

/// What the transport reports of an exchange, one event at a time.
#[derive(Debug, PartialEq)]
pub enum Event {
    /// The request got no response within the timeout, or the connection
    /// failed. Holds the transport's account of it.
    TransportFailed(String),
    /// A response arrived with this HTTP status.
    Responded(u16),
    /// The body of the response could not be read. Holds the transport's
    /// account of it.
    BodyFailed(String),
    /// The body of the response was read and decoded.
    BodyRead(Payload),
}

/// An [`Event`] as mathematical values.
pub enum EventView {
    TransportFailed(Seq<char>),
    Responded(u16),
    BodyFailed(Seq<char>),
    BodyRead(PayloadView),
}

impl View for Event {
    type V = EventView;

    open spec fn view(&self) -> EventView {
        match self {
            Event::TransportFailed(cause) => EventView::TransportFailed(cause@),
            Event::Responded(status) => EventView::Responded(*status),
            Event::BodyFailed(cause) => EventView::BodyFailed(cause@),
            Event::BodyRead(payload) => EventView::BodyRead(payload@),
        }
    }
}

/// A run of events as mathematical values.
pub open spec fn events_view(events: Seq<Event>) -> Seq<EventView> {
    events.map_values(|event: Event| event@)
}

/// Where one exchange with a node stands. The state says what the transport
/// is to do next: wait for the response, read its body, or nothing more.
#[derive(Debug, PartialEq)]
pub enum Exchange {
    /// The request is on its way; its response is awaited.
    AwaitingResponse,
    /// A response with status 200 arrived; its body is to be read and decoded.
    AwaitingBody,
    /// The exchange is over, with this result.
    Finished(Result<DataReceive, SolanaClientError>),
}

/// An [`Exchange`] as mathematical values.
pub enum ExchangeView {
    AwaitingResponse,
    AwaitingBody,
    Finished(Result<DataReceiveView, SolanaClientErrorView>),
}

impl View for Exchange {
    type V = ExchangeView;

    open spec fn view(&self) -> ExchangeView {
        match self {
            Exchange::AwaitingResponse => ExchangeView::AwaitingResponse,
            Exchange::AwaitingBody => ExchangeView::AwaitingBody,
            Exchange::Finished(result) => ExchangeView::Finished(result_view(*result)),
        }
    }
}

impl ExchangeView {
    /// The state after `event`.
    ///
    /// While the response is awaited, a transport failure ends the exchange as
    /// unexpected, a status other than 200 ends it as an HTTP error without a
    /// look at the body, and status 200 asks for the body. While the body is
    /// awaited, a failure to read it ends the exchange as unexpected, and a
    /// decoded body ends it with its [`verdict`]. An event that does not
    /// answer what is awaited changes nothing, and nothing changes a
    /// finished exchange.
    pub open spec fn next(self, event: EventView) -> ExchangeView {
        match (self, event) {
            (ExchangeView::AwaitingResponse, EventView::TransportFailed(cause)) =>
                ExchangeView::Finished(
                    Err(SolanaClientErrorView::UnexpectedError(UnexpectedCauseView::Transport(cause))),
                ),
            (ExchangeView::AwaitingResponse, EventView::Responded(status)) => if status
                == STATUS_OK {
                ExchangeView::AwaitingBody
            } else {
                ExchangeView::Finished(Err(SolanaClientErrorView::HttpResponseError))
            },
            (ExchangeView::AwaitingBody, EventView::BodyFailed(cause)) => ExchangeView::Finished(
                Err(SolanaClientErrorView::UnexpectedError(UnexpectedCauseView::BodyRead(cause))),
            ),
            (ExchangeView::AwaitingBody, EventView::BodyRead(payload)) => ExchangeView::Finished(
                verdict(payload),
            ),
            (state, _) => state,
        }
    }

    /// The state after all of `events`, in order.
    pub open spec fn after(self, events: Seq<EventView>) -> ExchangeView
        decreases events.len(),
    {
        if events.len() == 0 {
            self
        } else {
            self.after(events.drop_last()).next(events.last())
        }
    }

    /// The result of the exchange, once it is over.
    pub open spec fn outcome(self) -> Option<Result<DataReceiveView, SolanaClientErrorView>> {
        match self {
            ExchangeView::Finished(result) => Some(result),
            _ => None,
        }
    }

    /// The result of the exchange as a handshake, which keeps no data: once it
    /// is over, success or the error.
    pub open spec fn completed(self) -> Option<Result<(), SolanaClientErrorView>> {
        match self {
            ExchangeView::Finished(Ok(_)) => Some(Ok(())),
            ExchangeView::Finished(Err(error)) => Some(Err(error)),
            _ => None,
        }
    }
}

impl Exchange {
    /// Takes one event and moves on.
    pub fn step(self, event: Event) -> (next: Exchange)
        ensures
            next@ == self@.next(event@),
    {
        match self {
            Exchange::AwaitingResponse => match event {
                Event::TransportFailed(cause) => Exchange::Finished(
                    Err(SolanaClientError::UnexpectedError(UnexpectedCause::Transport(cause))),
                ),
                Event::Responded(status) => if status == STATUS_OK {
                    Exchange::AwaitingBody
                } else {
                    Exchange::Finished(Err(SolanaClientError::HttpResponseError))
                },
                _ => Exchange::AwaitingResponse,
            },
            Exchange::AwaitingBody => match event {
                Event::BodyFailed(cause) => Exchange::Finished(
                    Err(SolanaClientError::UnexpectedError(UnexpectedCause::BodyRead(cause))),
                ),
                Event::BodyRead(payload) => Exchange::Finished(
                    SolanaClient::verify_returned_data(payload),
                ),
                _ => Exchange::AwaitingBody,
            },
            Exchange::Finished(result) => Exchange::Finished(result),
        }
    }

    /// Takes a recorded run of events, in order.
    pub fn replay(self, events: Vec<Event>) -> (last: Exchange)
        ensures
            last@ == self@.after(events_view(events@)),
    {
        let ghost start = self@;
        let ghost record = events_view(events@);
        let mut state = self;
        for event in it: events
            invariant
                it.seq() == events@,
                record == events_view(events@),
                state@ == start.after(record.take(it.index() as int)),
        {
            proof {
                let seen = it.index() as int;
                assert(record.take(seen + 1).drop_last() == record.take(seen));
                assert(record.take(seen + 1).last() == event@);
            }
            state = state.step(event);
        }
        proof {
            assert(record.take(record.len() as int) == record);
        }
        state
    }

    /// The result of the exchange, once it is over; `None` while an event is
    /// still awaited.
    pub fn outcome(self) -> (result: Option<Result<DataReceive, SolanaClientError>>)
        ensures
            match result {
                Some(result) => self@.outcome() == Some(result_view(result)),
                None => self@.outcome() is None,
            },
    {
        match self {
            Exchange::Finished(result) => Some(result),
            _ => None,
        }
    }

    /// The result of the exchange as a handshake; `None` while an event is
    /// still awaited.
    pub fn completed(self) -> (result: Option<Result<(), SolanaClientError>>)
        ensures
            match result {
                Some(Ok(())) => self@.completed() == Some(Ok::<(), SolanaClientErrorView>(())),
                Some(Err(error)) => self@.completed() == Some(
                    Err::<(), SolanaClientErrorView>(error@),
                ),
                None => self@.completed() is None,
            },
    {
        match self {
            Exchange::Finished(Ok(_)) => Some(Ok(())),
            Exchange::Finished(Err(error)) => Some(Err(error)),
            _ => None,
        }
    }
}

/// The client of one node: where the node is and how long it may take.
#[derive(Debug, PartialEq)]
pub struct SolanaClient {
    uri: String,
    timeout: u64,
}

/// A [`SolanaClient`] as mathematical values.
pub struct SolanaClientView {
    pub uri: Seq<char>,
    pub timeout: u64,
}

impl View for SolanaClient {
    type V = SolanaClientView;

    closed spec fn view(&self) -> SolanaClientView {
        SolanaClientView { uri: self.uri@, timeout: self.timeout }
    }
}

impl SolanaClient {
    /// A client for the node at `uri` that allows each request `timeout`
    /// milliseconds.
    pub fn new(uri: String, timeout: u64) -> (client: Self)
        ensures
            client@ == (SolanaClientView { uri: uri@, timeout }),
    {
        Self { uri, timeout }
    }

    /// The request that carries `data` to this client's node.
    pub fn send_request(&self, data: DataSend) -> (request: Request)
        ensures
            request@ == (RequestView { uri: self@.uri, timeout: self@.timeout, data: data@ }),
    {
        Request { uri: self.uri.clone(), timeout: self.timeout, data }
    }

    /// Starts an exchange that sends `data`: the request to put on the wire,
    /// and the exchange in the state that awaits its response.
    pub fn get_version(&self, data: DataSend) -> (started: (Request, Exchange))
        ensures
            started.0@ == (RequestView { uri: self@.uri, timeout: self@.timeout, data: data@ }),
            started.1@ == ExchangeView::AwaitingResponse,
    {
        (self.send_request(data), Exchange::AwaitingResponse)
    }

    /// Starts a handshake: an exchange that sends the `getVersion` request.
    pub fn handshake(&self) -> (started: (Request, Exchange))
        ensures
            started.0@ == (RequestView {
                uri: self@.uri,
                timeout: self@.timeout,
                data: version_request(),
            }),
            started.1@ == ExchangeView::AwaitingResponse,
    {
        self.get_version(DataSend::default())
    }

    /// Judges a decoded response body.
    pub fn verify_returned_data(data: Payload) -> (result: Result<DataReceive, SolanaClientError>)
        ensures
            result_view(result) == verdict(data@),
    {
        match data.as_success {
            Some(data_json) => {
                if !data_json.verify() {
                    return Err(SolanaClientError::UnexpectedError(UnexpectedCause::UnknownVersion));
                }
                Ok(data_json)
            },
            None => match data.as_error {
                Ok(_) => Err(SolanaClientError::SentDataError),
                Err(detail) => Err(
                    SolanaClientError::UnexpectedError(UnexpectedCause::Unrecognized(detail)),
                ),
            },
        }
    }
}

/// The result of a `get_version` exchange in which the transport reports
/// `events`, in order: `None` while the exchange awaits an event.
pub open spec fn get_version_result(events: Seq<EventView>) -> Option<
    Result<DataReceiveView, SolanaClientErrorView>,
> {
    ExchangeView::AwaitingResponse.after(events).outcome()
}

/// The result of a handshake in which the transport reports `events`, in
/// order: `None` while the handshake awaits an event.
pub open spec fn handshake_result(events: Seq<EventView>) -> Option<
    Result<(), SolanaClientErrorView>,
> {
    ExchangeView::AwaitingResponse.after(events).completed()
}

/// Events taken in two runs lead where the same events lead in one.
pub proof fn lemma_after_concat(state: ExchangeView, first: Seq<EventView>, rest: Seq<EventView>)
    ensures
        state.after(first + rest) == state.after(first).after(rest),
    decreases rest.len(),
{
    if rest.len() == 0 {
        assert(first + rest == first);
    } else {
        assert((first + rest).drop_last() == first + rest.drop_last());
        lemma_after_concat(state, first, rest.drop_last());
    }
}

/// Once an exchange is over, no event changes its result.
pub proof fn lemma_finished_is_final(
    result: Result<DataReceiveView, SolanaClientErrorView>,
    events: Seq<EventView>,
)
    ensures
        ExchangeView::Finished(result).after(events) == ExchangeView::Finished(result),
    decreases events.len(),
{
    if events.len() > 0 {
        lemma_finished_is_final(result, events.drop_last());
    }
}

/// An exchange that `opening` brings to an end has the same result however
/// many events follow.
pub proof fn lemma_settled(
    opening: Seq<EventView>,
    later: Seq<EventView>,
    result: Result<DataReceiveView, SolanaClientErrorView>,
)
    requires
        ExchangeView::AwaitingResponse.after(opening) == ExchangeView::Finished(result),
    ensures
        ExchangeView::AwaitingResponse.after(opening + later) == ExchangeView::Finished(result),
{
    lemma_after_concat(ExchangeView::AwaitingResponse, opening, later);
    lemma_finished_is_final(result, later);
}

/// A response is known good exactly when its envelope is protocol version
/// "2.0" with id 1 and its result is one of the baselines.
pub proof fn lemma_known_good_by_parts(response: DataReceiveView)
    ensures
        response.is_known_good() <==> (response.jsonrpc == "2.0"@ && response.id == 1
            && baselines().contains(response.result)),
{
    if response.is_known_good() {
        let i = choose|i: int|
            0 <= i < baselines().len() && response == expected_response(#[trigger] baselines()[i]);
        assert(baselines()[i] == response.result);
    }
    if response.jsonrpc == "2.0"@ && response.id == 1 && baselines().contains(response.result) {
        let i = choose|i: int| 0 <= i < baselines().len() && baselines()[i] == response.result;
        assert(response == expected_response(baselines()[i]));
    }
}

/// The events of an exchange in which the node answers with status 200 and
/// the body decodes to `payload`.
pub open spec fn answered(payload: PayloadView) -> Seq<EventView> {
    seq![EventView::Responded(STATUS_OK), EventView::BodyRead(payload)]
}

/// An answered exchange ends with the verdict on its body.
pub proof fn lemma_answered(payload: PayloadView)
    ensures
        ExchangeView::AwaitingResponse.after(answered(payload)) == ExchangeView::Finished(
            verdict(payload),
        ),
{
    let events = answered(payload);
    assert(events.drop_last() == seq![EventView::Responded(STATUS_OK)]);
    assert(events.drop_last().drop_last() == Seq::<EventView>::empty());
    reveal_with_fuel(ExchangeView::after, 3);
}

/// A handshake succeeds whenever the node answers with status 200 and a
/// body of the success shape whose result is one of the baselines, in the
/// envelope of protocol version "2.0" and id 1. The exchange yields that
/// response, and nothing the transport reports later changes it.
pub proof fn law_baseline_response_is_accepted(
    response: DataReceiveView,
    payload: PayloadView,
    later: Seq<EventView>,
)
    requires
        payload.as_success == Some(response),
        baselines().contains(response.result),
        response.jsonrpc == "2.0"@,
        response.id == 1,
    ensures
        get_version_result(answered(payload) + later) == Some(
            Ok::<DataReceiveView, SolanaClientErrorView>(response),
        ),
        handshake_result(answered(payload) + later) == Some(Ok::<(), SolanaClientErrorView>(())),
{
    lemma_known_good_by_parts(response);
    lemma_answered(payload);
    lemma_settled(answered(payload), later, verdict(payload));
}

/// A handshake never succeeds on a body of the success shape whose result
/// is none of the baselines: it ends as unexpected, for an unknown version.
pub proof fn law_unknown_version_is_rejected(
    response: DataReceiveView,
    payload: PayloadView,
    later: Seq<EventView>,
)
    requires
        payload.as_success == Some(response),
        !baselines().contains(response.result),
    ensures
        handshake_result(answered(payload) + later) == Some(
            Err::<(), SolanaClientErrorView>(
                SolanaClientErrorView::UnexpectedError(UnexpectedCauseView::UnknownVersion),
            ),
        ),
{
    lemma_known_good_by_parts(response);
    lemma_answered(payload);
    lemma_settled(answered(payload), later, verdict(payload));
}

/// A baseline in a foreign envelope is not trusted: a body of the success
/// shape whose protocol version is not "2.0", or whose id is not 1, ends the
/// handshake as unexpected even where its result is one of the baselines.
pub proof fn law_foreign_envelope_is_rejected(
    response: DataReceiveView,
    payload: PayloadView,
    later: Seq<EventView>,
)
    requires
        payload.as_success == Some(response),
        response.jsonrpc != "2.0"@ || response.id != 1,
    ensures
        handshake_result(answered(payload) + later) == Some(
            Err::<(), SolanaClientErrorView>(
                SolanaClientErrorView::UnexpectedError(UnexpectedCauseView::UnknownVersion),
            ),
        ),
{
    lemma_known_good_by_parts(response);
    lemma_answered(payload);
    lemma_settled(answered(payload), later, verdict(payload));
}

/// A body that has not the success shape and is a well-formed error
/// response ends the handshake with `SentDataError`, which is no
/// `UnexpectedError`.
pub proof fn law_error_response_is_sent_data_error(payload: PayloadView, later: Seq<EventView>)
    requires
        payload.as_success is None,
        payload.as_error is Ok,
    ensures
        handshake_result(answered(payload) + later) == Some(
            Err::<(), SolanaClientErrorView>(SolanaClientErrorView::SentDataError),
        ),
        !(SolanaClientErrorView::SentDataError is UnexpectedError),
{
    lemma_answered(payload);
    lemma_settled(answered(payload), later, verdict(payload));
}

/// A body of neither shape ends the handshake as unexpected, with the
/// decoder's account of it.
pub proof fn law_unrecognized_body_is_unexpected(
    payload: PayloadView,
    detail: Seq<char>,
    later: Seq<EventView>,
)
    requires
        payload.as_success is None,
        payload.as_error == Err::<DataReceiveErrorView, Seq<char>>(detail),
    ensures
        handshake_result(answered(payload) + later) == Some(
            Err::<(), SolanaClientErrorView>(
                SolanaClientErrorView::UnexpectedError(UnexpectedCauseView::Unrecognized(detail)),
            ),
        ),
{
    lemma_answered(payload);
    lemma_settled(answered(payload), later, verdict(payload));
}

/// A status other than 200 ends the handshake with `HttpResponseError`,
/// whatever the transport reports after it, a body included.
pub proof fn law_other_status_is_http_error(status: u16, later: Seq<EventView>)
    requires
        status != STATUS_OK,
    ensures
        handshake_result(seq![EventView::Responded(status)] + later) == Some(
            Err::<(), SolanaClientErrorView>(SolanaClientErrorView::HttpResponseError),
        ),
{
    let opening = seq![EventView::Responded(status)];
    assert(opening.drop_last() == Seq::<EventView>::empty());
    reveal_with_fuel(ExchangeView::after, 2);
    lemma_settled(opening, later, Err(SolanaClientErrorView::HttpResponseError));
}

/// When the transport gets no response, be it for the timeout or for the
/// connection, the handshake ends as unexpected with the transport's cause,
/// and never in success.
pub proof fn law_transport_failure_is_unexpected(cause: Seq<char>, later: Seq<EventView>)
    ensures
        handshake_result(seq![EventView::TransportFailed(cause)] + later) == Some(
            Err::<(), SolanaClientErrorView>(
                SolanaClientErrorView::UnexpectedError(UnexpectedCauseView::Transport(cause)),
            ),
        ),
{
    let opening = seq![EventView::TransportFailed(cause)];
    assert(opening.drop_last() == Seq::<EventView>::empty());
    reveal_with_fuel(ExchangeView::after, 2);
    lemma_settled(
        opening,
        later,
        Err(SolanaClientErrorView::UnexpectedError(UnexpectedCauseView::Transport(cause))),
    );
}

/// When the body of a response with status 200 cannot be read, the handshake
/// ends as unexpected with the transport's cause.
pub proof fn law_body_failure_is_unexpected(cause: Seq<char>, later: Seq<EventView>)
    ensures
        handshake_result(
            seq![EventView::Responded(STATUS_OK), EventView::BodyFailed(cause)] + later,
        ) == Some(
            Err::<(), SolanaClientErrorView>(
                SolanaClientErrorView::UnexpectedError(UnexpectedCauseView::BodyRead(cause)),
            ),
        ),
{
    let opening = seq![EventView::Responded(STATUS_OK), EventView::BodyFailed(cause)];
    assert(opening.drop_last() == seq![EventView::Responded(STATUS_OK)]);
    assert(opening.drop_last().drop_last() == Seq::<EventView>::empty());
    reveal_with_fuel(ExchangeView::after, 3);
    lemma_settled(
        opening,
        later,
        Err(SolanaClientErrorView::UnexpectedError(UnexpectedCauseView::BodyRead(cause))),
    );
}

/// The success shape is tried first: once a body reads as a success
/// response, how it reads as an error response has no part in the verdict.
pub proof fn law_success_shape_comes_first(payload: PayloadView, other: PayloadView)
    requires
        payload.as_success is Some,
        other.as_success == payload.as_success,
    ensures
        verdict(payload) == verdict(other),
        !(verdict(payload) == Err::<DataReceiveView, SolanaClientErrorView>(
            SolanaClientErrorView::SentDataError,
        )),
{
}

} // verus!
