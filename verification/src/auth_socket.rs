//! The authentication endpoint: one state machine per connection.
//!
//! A connection waits for the start command, opens a disclosure session with
//! the credential server, forwards every status of that session to the
//! client, and ends in exactly one way: the client stops or leaves, the
//! server cancels or times out, the proof is verified and a bearer token is
//! sent, or the proof is refused and an error is sent.
//!
//! The machine takes what happened as an [`AuthEvent`] and answers with the
//! [`AuthAction`]s to carry out, in order. It never blocks: reading the
//! socket, talking to the credential server and writing the answers are the
//! caller's.

use crate::clock::CLOCK_END;
use crate::errors::Error;
use crate::irma::SessionStatus;
use crate::irma_session::{IrmaSession, IrmaSessionView};
use crate::json::json_string_text;
use crate::jwt::{hs256_token, signed};
use crate::session_jwt::{SessionJwt, SESSION_LIFETIME};
use crate::socket_request::{SocketRequest, SocketRequestView};
use crate::socket_response::{Action, SocketResponse, SocketResponseView};
use vstd::prelude::*;
use vstd::string::*;

verus! {

/// Where a connection stands.
#[derive(Clone, Copy, Debug, PartialEq, Eq, Structural)]
pub enum AuthState {
    /// Nothing has been read yet; only the start command is welcome.
    AwaitingStart,
    /// The credential server has been asked for a session.
    Starting,
    /// The session runs: frames of the client and statuses of the session
    /// are taken as they come.
    Active,
    /// The session is done and its proof is being verified.
    Finishing,
    /// The connection is over. Nothing is taken any more.
    Terminated,
}

/// Something that happened on a connection.
#[derive(Debug)]
pub enum AuthEvent {
    /// A frame of the client has been read.
    Frame(SocketRequest),
    /// Nothing can arrive any more: before the start command the client has
    /// left, after it both the client and the status stream have ended.
    Exhausted,
    /// The credential server has opened the session that was asked for.
    Started(IrmaSession),
    /// The status stream has reported a status.
    Status(SessionStatus),
    /// The proof has been verified and gives this identity, or could not be.
    Proof(Result<String, Error>),
    /// Something that was asked for could not be done.
    Failed(Error),
}

/// Something for the caller to carry out.
#[derive(Debug)]
pub enum AuthAction {
    /// Ask the credential server for a session and report it as
    /// [`AuthEvent::Started`].
    StartSession,
    /// Write this message to the client.
    Send(SocketResponse),
    /// Subscribe to the status stream of the session and report what it
    /// gives as [`AuthEvent::Status`].
    Subscribe,
    /// Cancel the session at the credential server.
    StopSession,
    /// Fetch and verify the proof of the session and report the outcome as
    /// [`AuthEvent::Proof`].
    VerifyProof,
    /// Close the connection. The error, if there is one, is why the session
    /// failed; it is for the log, not for the client.
    Close(Option<Error>),
}

/// An [`AuthEvent`] as contracts see it.
pub enum AuthEventView {
    Frame(SocketRequestView),
    Exhausted,
    Started(IrmaSessionView),
    Status(SessionStatus),
    Proof(Result<Seq<char>, Error>),
    Failed(Error),
}

/// An [`AuthAction`] as contracts see it.
pub enum AuthActionView {
    StartSession,
    Send(SocketResponseView),
    Subscribe,
    StopSession,
    VerifyProof,
    Close(Option<Error>),
}

/// The outcome of signing a token, as contracts see it.
pub type Minted = Option<Result<Seq<char>, Error>>;

/// A result that holds a text, as contracts see it.
pub open spec fn text_result(r: Result<String, Error>) -> Result<Seq<char>, Error> {
    match r {
        Ok(text) => Ok(text@),
        Err(e) => Err(e),
    }
}

/// The outcome of signing a token, as contracts see it.
pub open spec fn minted_view(minted: Option<Result<String, Error>>) -> Minted {
    match minted {
        Some(r) => Some(text_result(r)),
        None => None,
    }
}

impl View for AuthEvent {
    type V = AuthEventView;

    open spec fn view(&self) -> AuthEventView {
        match self {
            AuthEvent::Frame(request) => AuthEventView::Frame(request@),
            AuthEvent::Exhausted => AuthEventView::Exhausted,
            AuthEvent::Started(session) => AuthEventView::Started(session@),
            AuthEvent::Status(status) => AuthEventView::Status(*status),
            AuthEvent::Proof(outcome) => AuthEventView::Proof(text_result(*outcome)),
            AuthEvent::Failed(e) => AuthEventView::Failed(*e),
        }
    }
}

impl View for AuthAction {
    type V = AuthActionView;

    open spec fn view(&self) -> AuthActionView {
        match self {
            AuthAction::StartSession => AuthActionView::StartSession,
            AuthAction::Send(response) => AuthActionView::Send(response@),
            AuthAction::Subscribe => AuthActionView::Subscribe,
            AuthAction::StopSession => AuthActionView::StopSession,
            AuthAction::VerifyProof => AuthActionView::VerifyProof,
            AuthAction::Close(failure) => AuthActionView::Close(*failure),
        }
    }
}

/// A list of actions as contracts see it.
pub open spec fn action_views(actions: Seq<AuthAction>) -> Seq<AuthActionView> {
    actions.map_values(|action: AuthAction| action@)
}

/// What the client is told when the proof could not be verified. Why it
/// could not is not for the client to know.
pub open spec fn refusal_text() -> Seq<char> {
    "Could not verify claim"@
}

/// A message to the client, as contracts see it.
pub open spec fn send(action: Action, payload: Seq<char>) -> AuthActionView {
    AuthActionView::Send(SocketResponseView { action, payload })
}

/// A connection as contracts see it: where it stands, and its session once
/// it has one.
pub struct AuthSessionView {
    pub state: AuthState,
    pub session: Option<IrmaSessionView>,
}

impl AuthSessionView {
    /// A connection has a session exactly from the moment the credential
    /// server has opened one.
    pub open spec fn wf(self) -> bool {
        match self.state {
            AuthState::AwaitingStart | AuthState::Starting => self.session is None,
            AuthState::Active | AuthState::Finishing => self.session is Some,
            AuthState::Terminated => true,
        }
    }
}

/// Whether a frame is the start command: the text `start` in a frame that
/// does not close the connection.
pub open spec fn starts(request: SocketRequestView) -> bool {
    request.is_start() && !request.close
}

/// Whether a frame ends a running session: the text `stop`, or a frame that
/// closes the connection.
pub open spec fn stops(request: SocketRequestView) -> bool {
    request.close || request.is_stop()
}

/// The identity that a token has to be signed for before the event can be
/// taken: that of a verified proof, while one is waited for.
pub open spec fn identity_to_mint(state: AuthState, event: AuthEventView) -> Option<Seq<char>> {
    if state == AuthState::Finishing {
        match event {
            AuthEventView::Proof(Ok(identity)) => Some(identity),
            _ => None,
        }
    } else {
        None
    }
}

/// What ends a session whose proof has been looked at: the token, if the
/// proof was verified and the token could be signed, and the refusal, if the
/// proof was not verified. A token that could not be signed, or that there
/// is none of, ends the session without a word to the client.
pub open spec fn finish_actions(verdict: Result<Seq<char>, Error>, minted: Minted) -> Seq<
    AuthActionView,
> {
    match verdict {
        Err(e) => seq![send(Action::Error, refusal_text()), AuthActionView::Close(Some(e))],
        Ok(_) => match minted {
            Some(Ok(token)) => seq![send(Action::Jwt, token), AuthActionView::Close(None)],
            Some(Err(e)) => seq![AuthActionView::Close(Some(e))],
            None => seq![AuthActionView::Close(None)],
        },
    }
}

/// What a status of the session leads to. The status is always forwarded
/// first. A cancelled or timed out session ends the connection, a session
/// that is done has its proof verified, any other status changes nothing.
pub open spec fn status_step(session: Option<IrmaSessionView>, status: SessionStatus) -> (
    AuthSessionView,
    Seq<AuthActionView>,
) {
    let forward = send(Action::Status, status.name_text());
    if status.is_abandoned() {
        (
            AuthSessionView { state: AuthState::Terminated, session },
            seq![forward, AuthActionView::Close(None)],
        )
    } else if status == SessionStatus::Done {
        (
            AuthSessionView { state: AuthState::Finishing, session },
            seq![forward, AuthActionView::VerifyProof],
        )
    } else {
        (AuthSessionView { state: AuthState::Active, session }, seq![forward])
    }
}

/// The connection after an event, and what is to be carried out for it.
///
/// An event that the state does not wait for changes nothing. A failure
/// ends the connection from any state but the last.
pub open spec fn step(before: AuthSessionView, event: AuthEventView, minted: Minted) -> (
    AuthSessionView,
    Seq<AuthActionView>,
) {
    let over = AuthSessionView { state: AuthState::Terminated, session: before.session };
    let ignored = (before, Seq::<AuthActionView>::empty());
    match before.state {
        AuthState::Terminated => ignored,
        _ => match event {
            AuthEventView::Failed(e) => (over, seq![AuthActionView::Close(Some(e))]),
            _ => match before.state {
                AuthState::AwaitingStart => match event {
                    AuthEventView::Frame(request) => if starts(request) {
                        (
                            AuthSessionView { state: AuthState::Starting, session: before.session },
                            seq![AuthActionView::StartSession],
                        )
                    } else {
                        (over, seq![AuthActionView::Close(None)])
                    },
                    AuthEventView::Exhausted => (over, seq![AuthActionView::Close(None)]),
                    _ => ignored,
                },
                AuthState::Starting => match event {
                    AuthEventView::Started(session) => (
                        AuthSessionView { state: AuthState::Active, session: Some(session) },
                        seq![send(Action::Qr, session.qr), AuthActionView::Subscribe],
                    ),
                    _ => ignored,
                },
                AuthState::Active => match event {
                    AuthEventView::Frame(request) => if stops(request) {
                        (over, seq![AuthActionView::StopSession, AuthActionView::Close(None)])
                    } else {
                        ignored
                    },
                    AuthEventView::Status(status) => status_step(before.session, status),
                    AuthEventView::Exhausted => (over, seq![AuthActionView::Close(None)]),
                    _ => ignored,
                },
                AuthState::Finishing => match event {
                    AuthEventView::Proof(verdict) => (over, finish_actions(verdict, minted)),
                    _ => ignored,
                },
                AuthState::Terminated => ignored,
            },
        },
    }
}

/// The claims of the bearer token for an identity that expires at `exp`, as
/// the JSON text that is signed.
pub open spec fn bearer_claims(identity: Seq<char>, exp: int) -> Seq<char> {
    SessionJwt::frame_text(exp, json_string_text(identity))
}

/// Whether `minted` can be what signing the bearer token for an identity
/// gave, under the secret `key`: for some expiry, an hour after a second that
/// the clock can show, the token of the claims where the signing crate makes
/// one, and its error where it makes none.
pub open spec fn minted_by(
    key: Seq<char>,
    identity: Seq<char>,
    minted: Result<Seq<char>, Error>,
) -> bool {
    exists|exp: int|
        SESSION_LIFETIME <= exp < CLOCK_END + SESSION_LIFETIME && match minted {
            Ok(token) => #[trigger] hs256_token(key, bearer_claims(identity, exp)) == Some(token),
            Err(e) => e is JWTError && hs256_token(key, bearer_claims(identity, exp)) is None,
        }
}

/// Whether `minted` can be what signing a token for the event gave, under
/// the secret `key`. Where no token is to be signed there is none.
pub open spec fn minted_for(
    key: Seq<char>,
    state: AuthState,
    event: AuthEventView,
    minted: Minted,
) -> bool {
    match identity_to_mint(state, event) {
        None => minted is None,
        Some(identity) => minted matches Some(outcome) && minted_by(key, identity, outcome),
    }
}

/// One connection to the authentication endpoint.
#[derive(Debug)]
pub struct AuthSession {
    state: AuthState,
    session: Option<IrmaSession>,
    key: String,
}

impl View for AuthSession {
    type V = AuthSessionView;

    closed spec fn view(&self) -> AuthSessionView {
        AuthSessionView {
            state: self.state,
            session: match self.session {
                Some(session) => Some(session@),
                None => None,
            },
        }
    }
}

/// Ends a session whose proof has been looked at. `minted` is what signing
/// the token gave, if the proof was verified.
pub fn finish_session(
    verdict: Result<String, Error>,
    minted: Option<Result<String, Error>>,
) -> (actions: Vec<AuthAction>)
    ensures
        action_views(actions@) == finish_actions(text_result(verdict), minted_view(minted)),
{
    let mut actions: Vec<AuthAction> = Vec::new();
    match verdict {
        Err(e) => {
            let refusal = SocketResponse::error("Could not verify claim".to_owned());
            actions.push(AuthAction::Send(refusal));
            actions.push(AuthAction::Close(Some(e)));
        },
        Ok(_) => match minted {
            Some(Ok(token)) => {
                actions.push(AuthAction::Send(SocketResponse::jwt(token)));
                actions.push(AuthAction::Close(None));
            },
            Some(Err(e)) => {
                actions.push(AuthAction::Close(Some(e)));
            },
            None => {
                actions.push(AuthAction::Close(None));
            },
        },
    }
    assert(action_views(actions@) =~= finish_actions(text_result(verdict), minted_view(minted)));
    actions
}

impl AuthSession {
    /// The secret that tokens are signed under.
    pub closed spec fn key_spec(&self) -> Seq<char> {
        self.key@
    }

    /// A connection that has just been accepted. `key` is the secret that
    /// bearer tokens are signed under.
    pub fn new(key: String) -> (r: Self)
        ensures
            r@ == (AuthSessionView { state: AuthState::AwaitingStart, session: None }),
            r@.wf(),
            r.key_spec() == key@,
    {
        AuthSession { state: AuthState::AwaitingStart, session: None, key }
    }

    /// Where the connection stands.
    pub fn state(&self) -> (r: AuthState)
        ensures
            r == self@.state,
    {
        self.state
    }

    /// Whether the connection is over.
    pub fn is_terminated(&self) -> (r: bool)
        ensures
            r == (self@.state == AuthState::Terminated),
    {
        self.state == AuthState::Terminated
    }

    /// The session with the credential server, once it has been opened.
    pub fn session(&self) -> (r: Option<&IrmaSession>)
        ensures
            match r {
                Some(session) => self@.session == Some(session@),
                None => self@.session is None,
            },
    {
        self.session.as_ref()
    }

    /// Signs the bearer token for an identity, good for an hour from now. It
    /// succeeds exactly where the signing crate makes a token of the secret
    /// and the claims.
    pub fn mint(&self, identity: &str) -> (r: Result<String, Error>)
        ensures
            minted_by(self.key_spec(), identity@, text_result(r)),
    {
        let claims = SessionJwt::new(identity.to_owned());
        let r = claims.as_jwt(self.key.as_str());
        proof {
            let exp = claims.exp as int;
            assert(claims.claims_text() == bearer_claims(identity@, exp));
            assert(signed(r, hs256_token(self.key_spec(), bearer_claims(identity@, exp))));
        }
        r
    }

    /// Takes an event, with what signing the token gave where the event
    /// called for one, and returns what is to be carried out, in order.
    pub fn apply(
        &mut self,
        event: AuthEvent,
        minted: Option<Result<String, Error>>,
    ) -> (actions: Vec<AuthAction>)
        ensures
            (final(self)@, action_views(actions@)) == step(old(self)@, event@, minted_view(minted)),
            old(self)@.wf() ==> final(self)@.wf(),
            final(self).key_spec() == old(self).key_spec(),
    {
        let ghost before = self@;
        let mut actions: Vec<AuthAction> = Vec::new();
        if self.state == AuthState::Terminated {
            assert(action_views(actions@) =~= Seq::<AuthActionView>::empty());
            return actions;
        }
        match event {
            AuthEvent::Failed(e) => {
                self.state = AuthState::Terminated;
                actions.push(AuthAction::Close(Some(e)));
            },
            AuthEvent::Frame(request) => {
                if self.state == AuthState::AwaitingStart {
                    if request.is_start() && !request.is_close() {
                        self.state = AuthState::Starting;
                        actions.push(AuthAction::StartSession);
                    } else {
                        self.state = AuthState::Terminated;
                        actions.push(AuthAction::Close(None));
                    }
                } else if self.state == AuthState::Active {
                    if request.is_close() || request.is_stop() {
                        self.state = AuthState::Terminated;
                        actions.push(AuthAction::StopSession);
                        actions.push(AuthAction::Close(None));
                    }
                }
            },
            AuthEvent::Exhausted => {
                if self.state == AuthState::AwaitingStart || self.state == AuthState::Active {
                    self.state = AuthState::Terminated;
                    actions.push(AuthAction::Close(None));
                }
            },
            AuthEvent::Started(session) => {
                if self.state == AuthState::Starting {
                    actions.push(AuthAction::Send(SocketResponse::qr(session.qr.clone())));
                    actions.push(AuthAction::Subscribe);
                    self.state = AuthState::Active;
                    self.session = Some(session);
                }
            },
            AuthEvent::Status(status) => {
                if self.state == AuthState::Active {
                    actions.push(AuthAction::Send(SocketResponse::status(status.to_string())));
                    if status == SessionStatus::Cancelled || status == SessionStatus::Timeout {
                        self.state = AuthState::Terminated;
                        actions.push(AuthAction::Close(None));
                    } else if status == SessionStatus::Done {
                        self.state = AuthState::Finishing;
                        actions.push(AuthAction::VerifyProof);
                    }
                }
            },
            AuthEvent::Proof(verdict) => {
                if self.state == AuthState::Finishing {
                    self.state = AuthState::Terminated;
                    actions = finish_session(verdict, minted);
                }
            },
        }
        assert(action_views(actions@) =~= step(before, event@, minted_view(minted)).1);
        actions
    }

    /// Takes an event and returns what is to be carried out, in order.
    ///
    /// A verified proof has its bearer token signed here, with the clock
    /// read at this moment; everything else is decided by the state and the
    /// event alone.
    pub fn handle(&mut self, event: AuthEvent) -> (actions: Vec<AuthAction>)
        ensures
            exists|minted: Minted|
                minted_for(old(self).key_spec(), old(self)@.state, event@, minted) && (
                    final(self)@,
                    action_views(actions@),
                ) == #[trigger] step(old(self)@, event@, minted),
            old(self)@.wf() ==> final(self)@.wf(),
            final(self).key_spec() == old(self).key_spec(),
    {
        let minted = if self.state == AuthState::Finishing {
            match &event {
                AuthEvent::Proof(Ok(identity)) => Some(self.mint(identity.as_str())),
                _ => None,
            }
        } else {
            None
        };
        assert(minted_for(self.key_spec(), self@.state, event@, minted_view(minted)));
        self.apply(event, minted)
    }
}

/// One thing that happened on a connection, with what signing the token
/// gave where it called for one.
pub type AuthInput = (AuthEventView, Minted);

/// A connection after a sequence of events, and everything that was to be
/// carried out for them, in order.
pub open spec fn run(start: AuthSessionView, inputs: Seq<AuthInput>) -> (
    AuthSessionView,
    Seq<AuthActionView>,
)
    decreases inputs.len(),
{
    if inputs.len() == 0 {
        (start, Seq::empty())
    } else {
        let (next, first) = step(start, inputs[0].0, inputs[0].1);
        let (end, rest) = run(next, inputs.drop_first());
        (end, first + rest)
    }
}

/// Whether an action tells the client how the session ended: with a token or
/// with an error.
pub open spec fn is_verdict(action: AuthActionView) -> bool {
    action matches AuthActionView::Send(response) && (response.action == Action::Jwt
        || response.action == Action::Error)
}

/// How many of the actions tell the client how the session ended.
pub open spec fn verdicts(actions: Seq<AuthActionView>) -> nat {
    actions.filter(|action: AuthActionView| is_verdict(action)).len()
}

proof fn lemma_verdicts_add(a: Seq<AuthActionView>, b: Seq<AuthActionView>)
    ensures
        verdicts(a + b) == verdicts(a) + verdicts(b),
{
    Seq::filter_distributes_over_add(a, b, |action: AuthActionView| is_verdict(action));
}

proof fn lemma_verdicts_of_step(before: AuthSessionView, event: AuthEventView, minted: Minted)
    ensures
        verdicts(step(before, event, minted).1) <= 1,
        verdicts(step(before, event, minted).1) == 1 ==> step(before, event, minted).0.state
            == AuthState::Terminated,
{
    let actions = step(before, event, minted).1;
    let verdict = |action: AuthActionView| is_verdict(action);
    reveal_with_fuel(Seq::filter, 3);
    if actions.len() == 2 {
        assert(actions.drop_last().drop_last() =~= Seq::<AuthActionView>::empty());
        assert(actions.drop_last().filter(verdict).len() <= 1);
    } else if actions.len() == 1 {
        assert(actions.drop_last() =~= Seq::<AuthActionView>::empty());
    }
}

/// A connection that is over takes nothing: whatever happens, it stays as it
/// is and nothing is to be carried out.
pub proof fn lemma_terminated_is_final(start: AuthSessionView, inputs: Seq<AuthInput>)
    requires
        start.state == AuthState::Terminated,
    ensures
        run(start, inputs) == (start, Seq::<AuthActionView>::empty()),
    decreases inputs.len(),
{
    if inputs.len() > 0 {
        lemma_terminated_is_final(start, inputs.drop_first());
        assert(Seq::<AuthActionView>::empty() + Seq::<AuthActionView>::empty()
            =~= Seq::<AuthActionView>::empty());
    }
}

/// Whatever happens on a connection, and in whatever order, the client is
/// told at most once how the session ended: it gets a token or an error,
/// never both, and neither twice.
pub proof fn lemma_at_most_one_verdict(start: AuthSessionView, inputs: Seq<AuthInput>)
    ensures
        verdicts(run(start, inputs).1) <= 1,
    decreases inputs.len(),
{
    if inputs.len() > 0 {
        let (next, first) = step(start, inputs[0].0, inputs[0].1);
        let rest = run(next, inputs.drop_first()).1;
        lemma_verdicts_of_step(start, inputs[0].0, inputs[0].1);
        lemma_verdicts_add(first, rest);
        if verdicts(first) == 1 {
            lemma_terminated_is_final(next, inputs.drop_first());
        } else {
            lemma_at_most_one_verdict(next, inputs.drop_first());
        }
    }
}

/// A connection closes at most once, and nothing is carried out after it has
/// closed: an action that closes the connection is the last of all.
pub proof fn lemma_close_is_last(start: AuthSessionView, inputs: Seq<AuthInput>, i: int)
    requires
        0 <= i < run(start, inputs).1.len(),
        run(start, inputs).1[i] is Close,
    ensures
        i == run(start, inputs).1.len() - 1,
        run(start, inputs).0.state == AuthState::Terminated,
    decreases inputs.len(),
{
    if inputs.len() > 0 {
        let (next, first) = step(start, inputs[0].0, inputs[0].1);
        let rest = run(next, inputs.drop_first());
        if i < first.len() {
            assert(first[i] is Close);
            assert(next.state == AuthState::Terminated);
            assert(i == first.len() - 1);
            lemma_terminated_is_final(next, inputs.drop_first());
        } else {
            assert(rest.1[i - first.len()] is Close);
            lemma_close_is_last(next, inputs.drop_first(), i - first.len());
        }
    }
}

/// A connection that has come to its end, other than by starting there, has
/// closed.
pub proof fn lemma_terminated_has_closed(start: AuthSessionView, inputs: Seq<AuthInput>)
    requires
        start.state != AuthState::Terminated,
        run(start, inputs).0.state == AuthState::Terminated,
    ensures
        run(start, inputs).1.len() > 0,
        run(start, inputs).1.last() is Close,
    decreases inputs.len(),
{
    if inputs.len() > 0 {
        let (next, first) = step(start, inputs[0].0, inputs[0].1);
        let rest = run(next, inputs.drop_first());
        if next.state == AuthState::Terminated {
            lemma_terminated_is_final(next, inputs.drop_first());
            assert(first + rest.1 =~= first);
            assert(first.last() is Close);
        } else {
            lemma_terminated_has_closed(next, inputs.drop_first());
        }
    }
}

/// A status is forwarded to the client before anything that follows from
/// it.
pub proof fn lemma_status_is_forwarded_first(
    before: AuthSessionView,
    status: SessionStatus,
    minted: Minted,
)
    requires
        before.state == AuthState::Active,
    ensures
        step(before, AuthEventView::Status(status), minted).1[0] == send(
            Action::Status,
            status.name_text(),
        ),
{
}

/// The session at the credential server is cancelled only because the
/// client asked for it or left, while the session was running.
pub proof fn lemma_stop_is_the_clients(
    before: AuthSessionView,
    event: AuthEventView,
    minted: Minted,
    i: int,
)
    requires
        0 <= i < step(before, event, minted).1.len(),
        step(before, event, minted).1[i] is StopSession,
    ensures
        before.state == AuthState::Active,
        event matches AuthEventView::Frame(request) && stops(request),
{
}

/// A connection stays well formed, whatever happens.
pub proof fn lemma_run_keeps_wf(start: AuthSessionView, inputs: Seq<AuthInput>)
    requires
        start.wf(),
    ensures
        run(start, inputs).0.wf(),
    decreases inputs.len(),
{
    if inputs.len() > 0 {
        let (next, first) = step(start, inputs[0].0, inputs[0].1);
        lemma_run_keeps_wf(next, inputs.drop_first());
    }
}

/// Once a connection has a session, it keeps that session to its end.
pub proof fn lemma_session_is_kept(start: AuthSessionView, inputs: Seq<AuthInput>)
    requires
        start.wf(),
        start.session is Some,
    ensures
        run(start, inputs).0.session == start.session,
    decreases inputs.len(),
{
    if inputs.len() > 0 {
        let (next, first) = step(start, inputs[0].0, inputs[0].1);
        lemma_session_is_kept(next, inputs.drop_first());
    }
}

} // verus!
