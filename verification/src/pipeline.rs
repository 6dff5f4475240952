//! The upload protocol sequence: a state machine that orders the six
//! protocol stages, builds every request the protocol sends, and
//! classifies every failure.
//!
//! The machine never performs I/O. The caller starts it with [`start`],
//! performs the [`Action`] it hands out, reports what happened as an
//! [`Event`], and advances it with [`step`] until the action is
//! [`Action::Finish`]; the final state then carries the
//! [`PipelineOutcome`]. A transport failure at any stage aborts the rest;
//! a completed final transfer with a status outside the 2xx class is a
//! rejection, not an error.

use vstd::prelude::*;

use crate::encode::{
    anonymous_signin_body, auth_header_value, content_range_of, content_range_value,
    exchange_body_of, exchange_endpoint, name_exchange_body, permission_url, permission_url_of,
    session_request_body, session_url, session_url_of, token_endpoint,
};
use crate::resolve::{
    find_char_from, resolve_share, resolve_spec, ResolutionCause, ShareContext,
};
use crate::session::{find_upload_url, upload_url_of};
use crate::token::{parse_token_body, token_of, TokenCause};

verus! {

/// The command-line surface: a file to upload, the share URL, and the
/// optional submitter name and target filename.
pub struct Command {
    /// File to upload.
    pub file: String,
    /// File request URL shared by the source.
    pub url: String,
    /// Name of the submitter (given name, one space, family name).
    pub name: Option<String>,
    /// Name the file is to carry in the shared folder.
    pub filename: Option<String>,
}

/// Everything one upload needs, fixed before the pipeline starts.
#[derive(Debug)]
pub struct UploadRequest {
    /// The public share URL the pipeline resolves.
    pub source_url: String,
    /// Where the file lives locally; only the caller reads it.
    pub local_path: String,
    /// The name the file is to carry in the shared folder.
    pub target_filename: String,
    /// The submitter's given name.
    pub given_name: String,
    /// The submitter's family name.
    pub family_name: String,
    /// The file's exact byte length.
    pub file_size: u64,
}

/// The lifecycle of a bearer token: issued anonymously, then upgraded
/// with the submitter's name. Only the upgraded token may open an upload
/// session.
#[derive(Clone, Copy, PartialEq, Eq, Structural, Debug)]
pub enum TokenKind {
    /// Issued by the anonymous sign-in; usable once activated.
    Anonymous,
    /// Tied to a submitter name; supersedes the anonymous token.
    Upgraded,
}

/// An opaque bearer token together with its lifecycle tag.
pub struct BearerToken {
    /// The token text, sent with the `badger ` prefix.
    pub value: String,
    /// Where in its lifecycle the token stands.
    pub kind: TokenKind,
}

/// The one-time upload endpoint a negotiated session delivers; it lives
/// only between session negotiation and the byte transfer.
pub struct UploadSession {
    /// Where the file's bytes are to be PUT.
    pub upload_endpoint: String,
}

/// Which of the two token calls failed.
#[derive(Clone, Copy, PartialEq, Eq, Structural, Debug)]
pub enum TokenPhase {
    /// The anonymous issuance.
    Issue,
    /// The name-bound upgrade.
    Upgrade,
}

/// Why the permission activation failed. Only transport counts: the
/// activation response's status and body are deliberately ignored, since
/// some valid redemption flows still report non-success statuses.
#[derive(Clone, Copy, PartialEq, Eq, Structural, Debug)]
pub enum ActivationCause {
    /// The request could not be sent or produced no response.
    RequestFailed,
}

/// Why the upload session could not be negotiated.
#[derive(Clone, Copy, PartialEq, Eq, Structural, Debug)]
pub enum SessionCause {
    /// The request could not be sent or produced no response.
    RequestFailed,
    /// The response body carries no upload endpoint.
    MissingUploadUrl,
}

/// Why the byte transfer failed outright (as opposed to being rejected).
#[derive(Clone, Copy, PartialEq, Eq, Structural, Debug)]
pub enum TransferCause {
    /// The file could not be read or the request produced no response.
    RequestFailed,
}

/// The first failure of the pipeline: one kind per stage, each carrying
/// its cause.
#[derive(Clone, Copy, PartialEq, Eq, Structural, Debug)]
pub enum StageError {
    /// The share URL could not be resolved.
    Resolution { cause: ResolutionCause },
    /// A token could not be obtained.
    Token { phase: TokenPhase, cause: TokenCause },
    /// The permission grant could not be redeemed.
    Activation { cause: ActivationCause },
    /// The upload session could not be opened.
    Session { cause: SessionCause },
    /// The bytes could not be delivered.
    Transfer { cause: TransferCause },
}

/// How one run of the pipeline ends.
#[derive(Clone, Copy, PartialEq, Eq, Structural, Debug)]
pub enum PipelineOutcome {
    /// The transfer completed with a 2xx status.
    Accepted,
    /// The transfer completed, but the service answered outside the 2xx
    /// class. This is a non-exceptional rejection, not an error.
    Rejected { status: u16 },
    /// A stage failed; the remaining stages never ran.
    Failed { error: StageError },
}

/// Where the pipeline stands: which exchange is in flight and what has
/// been accumulated for the stages behind it.
pub enum State {
    /// The share URL has been sent; awaiting the redirect's terminal URL.
    Resolving { req: UploadRequest },
    /// The anonymous sign-in has been sent; awaiting the token body.
    IssuingToken { req: UploadRequest, ctx: ShareContext },
    /// The permission redemption has been sent; awaiting any response.
    Activating { req: UploadRequest, ctx: ShareContext, anon: BearerToken },
    /// The token exchange has been sent; awaiting the upgraded token.
    Upgrading { req: UploadRequest, ctx: ShareContext, anon: BearerToken },
    /// The session creation has been sent; awaiting the upload endpoint.
    Negotiating { req: UploadRequest, ctx: ShareContext, token: BearerToken },
    /// The bytes have been sent; awaiting the final status.
    Transferring,
    /// The pipeline is over.
    Finished { outcome: PipelineOutcome },
}

/// What happened to the exchange the pipeline last asked for.
pub enum Event {
    /// The request could not be sent or produced no response.
    TransportFailed,
    /// A response came back: its status, the URL the exchange ended at
    /// after redirects, and the response body.
    Completed { status: u16, final_url: String, body: String },
}

/// What the caller must do next.
pub enum Action {
    /// Send a GET, following redirects.
    Get { url: String, headers: Vec<(String, String)> },
    /// Send a POST with the given body.
    Post { url: String, headers: Vec<(String, String)>, body: String },
    /// PUT the whole local file to the session's endpoint.
    PutFile { session: UploadSession, headers: Vec<(String, String)> },
    /// Nothing: the state carries the outcome.
    Finish,
}

/// A status in the 2xx class: the one definition of transfer success.
pub open spec fn is_2xx(status: u16) -> bool {
    200 <= status <= 299
}

impl State {
    /// Whether the pipeline is over.
    pub open spec fn is_finished(self) -> bool {
        self is Finished
    }

    /// What every reachable state satisfies: a positive file size while
    /// the transfer is still ahead, and tokens carried under the right
    /// lifecycle tag.
    pub open spec fn inv(self) -> bool {
        match self {
            State::Resolving { req } => req.file_size >= 1,
            State::IssuingToken { req, .. } => req.file_size >= 1,
            State::Activating { req, ctx: _, anon } => req.file_size >= 1 && anon.kind
                is Anonymous,
            State::Upgrading { req, ctx: _, anon } => req.file_size >= 1 && anon.kind
                is Anonymous,
            State::Negotiating { req, ctx: _, token } => req.file_size >= 1 && token.kind
                is Upgraded,
            State::Transferring => true,
            State::Finished { .. } => true,
        }
    }
}

/// A single `Content-Type: application/json` header.
pub open spec fn headers_content_json(h: Seq<(String, String)>) -> bool {
    h.len() == 1 && h[0].0@ == "Content-Type"@ && h[0].1@ == "application/json"@
}

/// The badger authorization header followed by the redemption preference.
pub open spec fn headers_auth_prefer(h: Seq<(String, String)>, token: Seq<char>) -> bool {
    &&& h.len() == 2
    &&& h[0].0@ == "Authorization"@
    &&& h[0].1@ == "badger "@ + token
    &&& h[1].0@ == "Prefer"@
    &&& h[1].1@ == "redeemsharinglink"@
}

/// The badger authorization header followed by the JSON content type.
pub open spec fn headers_auth_json(h: Seq<(String, String)>, token: Seq<char>) -> bool {
    &&& h.len() == 2
    &&& h[0].0@ == "Authorization"@
    &&& h[0].1@ == "badger "@ + token
    &&& h[1].0@ == "Content-Type"@
    &&& h[1].1@ == "application/json"@
}

/// A single `Content-Range` header announcing the whole file.
pub open spec fn headers_content_range(h: Seq<(String, String)>, size: nat) -> bool {
    h.len() == 1 && h[0].0@ == "Content-Range"@ && h[0].1@ == content_range_of(size)
}

/// The pipeline has ended with the given stage failure, and nothing is
/// left to do.
pub open spec fn finish_failed(s2: State, a: Action, err: StageError) -> bool {
    &&& s2 == (State::Finished { outcome: PipelineOutcome::Failed { error: err } })
    &&& a is Finish
}

/// The transition out of [`State::Resolving`].
pub open spec fn step_resolving(req: UploadRequest, e: Event, s2: State, a: Action) -> bool {
    match e {
        Event::TransportFailed => finish_failed(
            s2,
            a,
            StageError::Resolution { cause: ResolutionCause::RequestFailed },
        ),
        Event::Completed { final_url, .. } => match resolve_spec(final_url@) {
            Err(c) => finish_failed(s2, a, StageError::Resolution { cause: c }),
            Ok(p) => {
                &&& s2 matches State::IssuingToken { req: r2, ctx } && r2 == req
                    && ctx.share_id@ == p.0 && ctx.service_base@ == p.1
                &&& a matches Action::Post { url, headers, body } && url@
                    == "https://api.badgerp.svc.ms/v1.0/token"@ && body@
                    == "{\"appid\":\"FileRequestAnonymousUserSignInOnODB\"}"@
                    && headers_content_json(headers@)
            },
        },
    }
}

/// The transition out of [`State::IssuingToken`].
pub open spec fn step_issuing(
    req: UploadRequest,
    ctx: ShareContext,
    e: Event,
    s2: State,
    a: Action,
) -> bool {
    match e {
        Event::TransportFailed => finish_failed(
            s2,
            a,
            StageError::Token { phase: TokenPhase::Issue, cause: TokenCause::RequestFailed },
        ),
        Event::Completed { body, .. } => match token_of(body@) {
            Err(c) => finish_failed(s2, a, StageError::Token { phase: TokenPhase::Issue, cause: c }),
            Ok(v) => {
                &&& s2 matches State::Activating { req: r2, ctx: c2, anon } && r2 == req && c2
                    == ctx && anon.value@ == v && anon.kind is Anonymous
                &&& a matches Action::Get { url, headers } && url@ == permission_url_of(
                    ctx.service_base@,
                    ctx.share_id@,
                ) && headers_auth_prefer(headers@, v)
            },
        },
    }
}

/// The transition out of [`State::Activating`]. Any response at all,
/// whatever its status or body, counts as a successful redemption; only
/// transport failure is an error here.
pub open spec fn step_activating(
    req: UploadRequest,
    ctx: ShareContext,
    anon: BearerToken,
    e: Event,
    s2: State,
    a: Action,
) -> bool {
    match e {
        Event::TransportFailed => finish_failed(
            s2,
            a,
            StageError::Activation { cause: ActivationCause::RequestFailed },
        ),
        Event::Completed { .. } => {
            &&& s2 matches State::Upgrading { req: r2, ctx: c2, anon: a2 } && r2 == req && c2
                == ctx && a2 == anon
            &&& a matches Action::Post { url, headers, body } && url@
                == "https://api.badgerp.svc.ms/v1.0/tokenexchange"@ && body@ == exchange_body_of(
                req.given_name@,
                req.family_name@,
            ) && headers_auth_json(headers@, anon.value@)
        },
    }
}

/// The transition out of [`State::Upgrading`].
pub open spec fn step_upgrading(
    req: UploadRequest,
    ctx: ShareContext,
    e: Event,
    s2: State,
    a: Action,
) -> bool {
    match e {
        Event::TransportFailed => finish_failed(
            s2,
            a,
            StageError::Token { phase: TokenPhase::Upgrade, cause: TokenCause::RequestFailed },
        ),
        Event::Completed { body, .. } => match token_of(body@) {
            Err(c) => finish_failed(
                s2,
                a,
                StageError::Token { phase: TokenPhase::Upgrade, cause: c },
            ),
            Ok(v) => {
                &&& s2 matches State::Negotiating { req: r2, ctx: c2, token } && r2 == req && c2
                    == ctx && token.value@ == v && token.kind is Upgraded
                &&& a matches Action::Post { url, headers, body } && url@ == session_url_of(
                    ctx.service_base@,
                    ctx.share_id@,
                    req.target_filename@,
                ) && body@ == "{\"item\":{\"@name.conflictBehavior\":\"rename\"}}"@
                    && headers_auth_json(headers@, v)
            },
        },
    }
}

/// The transition out of [`State::Negotiating`].
pub open spec fn step_negotiating(req: UploadRequest, e: Event, s2: State, a: Action) -> bool {
    match e {
        Event::TransportFailed => finish_failed(
            s2,
            a,
            StageError::Session { cause: SessionCause::RequestFailed },
        ),
        Event::Completed { body, .. } => match upload_url_of(body@) {
            None => finish_failed(s2, a, StageError::Session { cause: SessionCause::MissingUploadUrl }),
            Some(u) => {
                &&& s2 is Transferring
                &&& a matches Action::PutFile { session, headers } && session.upload_endpoint@
                    == u && headers_content_range(headers@, req.file_size as nat)
            },
        },
    }
}

/// The transition out of [`State::Transferring`]: a completed PUT ends
/// the pipeline, accepted exactly on a 2xx status and rejected — not
/// failed — on any other.
pub open spec fn step_transferring(e: Event, s2: State, a: Action) -> bool {
    match e {
        Event::TransportFailed => finish_failed(
            s2,
            a,
            StageError::Transfer { cause: TransferCause::RequestFailed },
        ),
        Event::Completed { status, .. } => {
            &&& s2 == (State::Finished {
                outcome: if is_2xx(status) {
                    PipelineOutcome::Accepted
                } else {
                    PipelineOutcome::Rejected { status }
                },
            })
            &&& a is Finish
        },
    }
}

/// The whole transition relation of the pipeline.
pub open spec fn step_ok(s: State, e: Event, s2: State, a: Action) -> bool {
    match s {
        State::Resolving { req } => step_resolving(req, e, s2, a),
        State::IssuingToken { req, ctx } => step_issuing(req, ctx, e, s2, a),
        State::Activating { req, ctx, anon } => step_activating(req, ctx, anon, e, s2, a),
        State::Upgrading { req, ctx, anon } => step_upgrading(req, ctx, e, s2, a),
        State::Negotiating { req, ctx: _, token: _ } => step_negotiating(req, e, s2, a),
        State::Transferring => step_transferring(e, s2, a),
        State::Finished { .. } => false,
    }
}

fn content_json_headers() -> (h: Vec<(String, String)>)
    ensures
        headers_content_json(h@),
{
    let mut h: Vec<(String, String)> = Vec::new();
    h.push((String::from_str("Content-Type"), String::from_str("application/json")));
    h
}

fn auth_prefer_headers(token: &str) -> (h: Vec<(String, String)>)
    ensures
        headers_auth_prefer(h@, token@),
{
    let mut h: Vec<(String, String)> = Vec::new();
    h.push((String::from_str("Authorization"), auth_header_value(token)));
    h.push((String::from_str("Prefer"), String::from_str("redeemsharinglink")));
    h
}

fn auth_json_headers(token: &str) -> (h: Vec<(String, String)>)
    ensures
        headers_auth_json(h@, token@),
{
    let mut h: Vec<(String, String)> = Vec::new();
    h.push((String::from_str("Authorization"), auth_header_value(token)));
    h.push((String::from_str("Content-Type"), String::from_str("application/json")));
    h
}

fn content_range_headers(size: u64) -> (h: Vec<(String, String)>)
    requires
        size >= 1,
    ensures
        headers_content_range(h@, size as nat),
{
    let mut h: Vec<(String, String)> = Vec::new();
    h.push((String::from_str("Content-Range"), content_range_value(size)));
    h
}

fn fail(err: StageError) -> (r: (State, Action))
    ensures
        finish_failed(r.0, r.1, err),
        r.0.inv(),
        r.0 is Finished,
{
    (State::Finished { outcome: PipelineOutcome::Failed { error: err } }, Action::Finish)
}

/// Starts the pipeline: the first exchange is a plain GET of the share
/// URL, following its redirect.
pub fn start(req: UploadRequest) -> (r: (State, Action))
    requires
        req.file_size >= 1,
    ensures
        r.0 == (State::Resolving { req }),
        r.0.inv(),
        !r.0.is_finished(),
        r.1 matches Action::Get { url, headers } && url@ == req.source_url@ && headers@.len()
            == 0,
{
    let url = req.source_url.clone();
    (State::Resolving { req }, Action::Get { url, headers: Vec::new() })
}

/// Advances the pipeline by one exchange: consumes the state and the
/// event the caller observed, and yields the next state and the next
/// action. The pipeline fails fast: every stage failure yields a
/// [`State::Finished`] and [`Action::Finish`], so no later endpoint is
/// ever asked for.
pub fn step(state: State, event: Event) -> (r: (State, Action))
    requires
        !state.is_finished(),
        state.inv(),
    ensures
        step_ok(state, event, r.0, r.1),
        r.0.inv(),
        r.0 is Finished <==> r.1 is Finish,
{
    match state {
        State::Resolving { req } => match event {
            Event::TransportFailed => fail(
                StageError::Resolution { cause: ResolutionCause::RequestFailed },
            ),
            Event::Completed { status: _, final_url, body: _ } => {
                match resolve_share(final_url.as_str()) {
                    Err(c) => fail(StageError::Resolution { cause: c }),
                    Ok(ctx) => {
                        let action = Action::Post {
                            url: token_endpoint(),
                            headers: content_json_headers(),
                            body: anonymous_signin_body(),
                        };
                        (State::IssuingToken { req, ctx }, action)
                    },
                }
            },
        },
        State::IssuingToken { req, ctx } => match event {
            Event::TransportFailed => fail(
                StageError::Token { phase: TokenPhase::Issue, cause: TokenCause::RequestFailed },
            ),
            Event::Completed { status: _, final_url: _, body } => {
                match parse_token_body(body.as_str()) {
                    Err(c) => fail(StageError::Token { phase: TokenPhase::Issue, cause: c }),
                    Ok(value) => {
                        let url = permission_url(ctx.service_base.as_str(), ctx.share_id.as_str());
                        let headers = auth_prefer_headers(value.as_str());
                        let anon = BearerToken { value, kind: TokenKind::Anonymous };
                        (State::Activating { req, ctx, anon }, Action::Get { url, headers })
                    },
                }
            },
        },
        State::Activating { req, ctx, anon } => match event {
            Event::TransportFailed => fail(
                StageError::Activation { cause: ActivationCause::RequestFailed },
            ),
            Event::Completed { .. } => {
                let body = name_exchange_body(req.given_name.as_str(), req.family_name.as_str());
                let headers = auth_json_headers(anon.value.as_str());
                let action = Action::Post { url: exchange_endpoint(), headers, body };
                (State::Upgrading { req, ctx, anon }, action)
            },
        },
        State::Upgrading { req, ctx, anon: _ } => match event {
            Event::TransportFailed => fail(
                StageError::Token {
                    phase: TokenPhase::Upgrade,
                    cause: TokenCause::RequestFailed,
                },
            ),
            Event::Completed { status: _, final_url: _, body } => {
                match parse_token_body(body.as_str()) {
                    Err(c) => fail(StageError::Token { phase: TokenPhase::Upgrade, cause: c }),
                    Ok(value) => {
                        let url = session_url(
                            ctx.service_base.as_str(),
                            ctx.share_id.as_str(),
                            req.target_filename.as_str(),
                        );
                        let headers = auth_json_headers(value.as_str());
                        let token = BearerToken { value, kind: TokenKind::Upgraded };
                        let action = Action::Post { url, headers, body: session_request_body() };
                        (State::Negotiating { req, ctx, token }, action)
                    },
                }
            },
        },
        State::Negotiating { req, ctx: _, token: _ } => match event {
            Event::TransportFailed => fail(
                StageError::Session { cause: SessionCause::RequestFailed },
            ),
            Event::Completed { status: _, final_url: _, body } => {
                match find_upload_url(body.as_str()) {
                    None => fail(StageError::Session { cause: SessionCause::MissingUploadUrl }),
                    Some(endpoint) => {
                        let session = UploadSession { upload_endpoint: endpoint };
                        let headers = content_range_headers(req.file_size);
                        (State::Transferring, Action::PutFile { session, headers })
                    },
                }
            },
        },
        State::Transferring => match event {
            Event::TransportFailed => fail(
                StageError::Transfer { cause: TransferCause::RequestFailed },
            ),
            Event::Completed { status, final_url: _, body: _ } => {
                let outcome = if 200 <= status && status <= 299 {
                    PipelineOutcome::Accepted
                } else {
                    PipelineOutcome::Rejected { status }
                };
                (State::Finished { outcome }, Action::Finish)
            },
        },
        State::Finished { .. } => vstd::pervasive::unreached(),
    }
}

/// Law: every stage fails fast. A transport failure at any stage ends
/// the pipeline at once with a stage failure, and nothing further is
/// asked for.
pub proof fn lemma_transport_failure_fails_fast(s: State, s2: State, a: Action)
    requires
        !s.is_finished(),
        step_ok(s, Event::TransportFailed, s2, a),
    ensures
        a is Finish,
        s2 matches State::Finished { outcome: PipelineOutcome::Failed { .. } },
{
}

/// Law: the permission activation tolerates every status. Any completed
/// response, whatever its status or body, advances the pipeline to the
/// token upgrade; only a transport failure stops it there.
pub proof fn lemma_activation_tolerates_any_status(
    req: UploadRequest,
    ctx: ShareContext,
    anon: BearerToken,
    status: u16,
    final_url: String,
    body: String,
    s2: State,
    a: Action,
)
    requires
        step_ok(
            State::Activating { req, ctx, anon },
            Event::Completed { status, final_url, body },
            s2,
            a,
        ),
    ensures
        s2 is Upgrading,
        !(a is Finish),
{
}

/// Why a command could not be turned into an upload request.
#[derive(Clone, Copy, PartialEq, Eq, Structural, Debug)]
pub enum CommandError {
    /// The submitter name is not two space-separated parts.
    NameFormat,
}

/// The two parts of a submitter name: the text before the space and the
/// text after it. `None` unless the name holds exactly one space.
pub open spec fn name_parts(n: Seq<char>) -> Option<(Seq<char>, Seq<char>)> {
    match find_char_from(n, ' ', 0) {
        None => None,
        Some(p) => match find_char_from(n, ' ', p + 1) {
            Some(_) => None,
            None => Some((n.subrange(0, p), n.subrange(p + 1, n.len() as int))),
        },
    }
}

/// Splits a submitter name into its given and family part.
fn split_name(n: &str) -> (r: Option<(String, String)>)
    ensures
        match r {
            Some(pair) => name_parts(n@) matches Some(p) && pair.0@ == p.0 && pair.1@ == p.1,
            None => name_parts(n@) is None,
        },
{
    let len = n.unicode_len();
    match crate::resolve::find_char(n, ' ', 0) {
        None => None,
        Some(p) => match crate::resolve::find_char(n, ' ', p + 1) {
            Some(_) => None,
            None => Some(
                (
                    String::from_str(n.substring_char(0, p)),
                    String::from_str(n.substring_char(p + 1, len)),
                ),
            ),
        },
    }
}

/// `p` without its trailing `/` characters.
pub open spec fn trimmed_end(p: Seq<char>) -> Seq<char>
    decreases p.len(),
{
    if p.len() > 0 && p.last() == '/' {
        trimmed_end(p.drop_last())
    } else {
        p
    }
}

/// The characters of `t` after its last `/`; all of `t` when it has
/// none.
pub open spec fn tail_segment(t: Seq<char>) -> Seq<char>
    decreases t.len(),
{
    if t.len() == 0 {
        Seq::empty()
    } else if t.last() == '/' {
        Seq::empty()
    } else {
        tail_segment(t.drop_last()).push(t.last())
    }
}

/// The base name of a path: the segment after the last `/`, trailing
/// slashes ignored. `None` when that segment is empty, `.` or `..`.
pub open spec fn base_name_of(p: Seq<char>) -> Option<Seq<char>> {
    let s = tail_segment(trimmed_end(p));
    if s.len() == 0 || s == seq!['.'] || s == seq!['.', '.'] {
        None
    } else {
        Some(s)
    }
}

proof fn lemma_tail_segment(t: Seq<char>, start: int)
    requires
        0 <= start <= t.len(),
        forall|k: int| start <= k < t.len() ==> t[k] != '/',
        start == 0 || t[start - 1] == '/',
    ensures
        tail_segment(t) == t.subrange(start, t.len() as int),
    decreases t.len(),
{
    if t.len() == start {
        assert(t.subrange(start, t.len() as int) =~= Seq::<char>::empty());
    } else {
        assert(t.last() != '/');
        lemma_tail_segment(t.drop_last(), start);
        assert(t.subrange(start, t.len() as int) =~= t.drop_last().subrange(
            start,
            t.len() - 1,
        ).push(t.last()));
    }
}

/// Derives the base name of a local path, if it has a usable one.
pub fn base_name(p: &str) -> (r: Option<String>)
    ensures
        match r {
            Some(b) => base_name_of(p@) == Some(b@),
            None => base_name_of(p@) is None,
        },
{
    let n = p.unicode_len();
    proof {
        assert(p@.subrange(0, n as int) =~= p@);
    }
    let mut end = n;
    while end > 0 && p.get_char(end - 1) == '/'
        invariant
            end <= n,
            n == p@.len(),
            trimmed_end(p@) == trimmed_end(p@.subrange(0, end as int)),
        decreases end,
    {
        proof {
            let sub = p@.subrange(0, end as int);
            assert(sub.last() == p@[end - 1]);
            assert(sub.drop_last() =~= p@.subrange(0, end - 1));
        }
        end = end - 1;
    }
    let ghost t = p@.subrange(0, end as int);
    proof {
        assert(trimmed_end(t) == t);
        assert(trimmed_end(p@) == t);
    }
    let mut start = end;
    while start > 0 && p.get_char(start - 1) != '/'
        invariant
            start <= end <= n,
            n == p@.len(),
            forall|j: int| start <= j < end ==> p@[j] != '/',
        decreases start,
    {
        start = start - 1;
    }
    proof {
        assert(forall|k: int| start <= k < t.len() ==> t[k] == p@[k]);
        if start > 0 {
            assert(t[start - 1] == p@[start - 1]);
        }
        lemma_tail_segment(t, start as int);
    }
    let seg = p.substring_char(start, end);
    proof {
        assert(seg@ =~= t.subrange(start as int, t.len() as int));
        assert(tail_segment(trimmed_end(p@)) == seg@);
    }
    let seg_len = end - start;
    if seg_len == 0 {
        return None;
    }
    if seg_len == 1 && seg.get_char(0) == '.' {
        proof {
            assert(seg@ =~= seq!['.']);
        }
        return None;
    }
    if seg_len == 2 && seg.get_char(0) == '.' && seg.get_char(1) == '.' {
        proof {
            assert(seg@ =~= seq!['.', '.']);
        }
        return None;
    }
    proof {
        assert(seg@ != seq!['.'] && seg@ != seq!['.', '.']) by {
            if seg@ == seq!['.'] {
                assert(seg@.len() == 1 && seg@[0] == '.');
            }
            if seg@ == seq!['.', '.'] {
                assert(seg@.len() == 2 && seg@[0] == '.' && seg@[1] == '.');
            }
        }
    }
    Some(String::from_str(seg))
}

/// Fixes everything one upload needs from the command surface: the
/// submitter name falls back to a placeholder pair when absent and must
/// otherwise be two space-separated parts, and the target filename falls
/// back to the local path's base name, or to a fixed placeholder when
/// the path has no usable one.
pub fn build_request(cmd: Command, file_size: u64) -> (r: Result<UploadRequest, CommandError>)
    requires
        file_size >= 1,
    ensures
        match r {
            Ok(req) => {
                &&& req.source_url == cmd.url
                &&& req.local_path == cmd.file
                &&& req.file_size == file_size
                &&& match cmd.name {
                    None => req.given_name@ == "Unknown"@ && req.family_name@ == "User"@,
                    Some(n) => name_parts(n@) matches Some(p) && req.given_name@ == p.0
                        && req.family_name@ == p.1,
                }
                &&& match cmd.filename {
                    Some(f) => req.target_filename == f,
                    None => match base_name_of(cmd.file@) {
                        Some(b) => req.target_filename@ == b,
                        None => req.target_filename@ == "untitled"@,
                    },
                }
            },
            Err(e) => {
                &&& e == CommandError::NameFormat
                &&& cmd.name matches Some(n) && name_parts(n@) is None
            },
        },
{
    let Command { file, url, name, filename } = cmd;
    let (given, family) = match name {
        None => (String::from_str("Unknown"), String::from_str("User")),
        Some(n) => match split_name(n.as_str()) {
            Some(pair) => pair,
            None => {
                return Err(CommandError::NameFormat);
            },
        },
    };
    let target = match filename {
        Some(f) => f,
        None => match base_name(file.as_str()) {
            Some(b) => b,
            None => String::from_str("untitled"),
        },
    };
    Ok(
        UploadRequest {
            source_url: url,
            local_path: file,
            target_filename: target,
            given_name: given,
            family_name: family,
            file_size,
        },
    )
}

/// The description each failure surfaces: which stage failed and the
/// proximate cause.
pub open spec fn message_of(e: StageError) -> Seq<char> {
    match e {
        StageError::Resolution { cause } => match cause {
            ResolutionCause::RequestFailed => "cannot open provided url"@,
            ResolutionCause::NoQuery => "no query params"@,
            ResolutionCause::NoShareId => "found no id in page url"@,
            ResolutionCause::NoServiceBase => "found no url base for upload"@,
        },
        StageError::Token { phase, cause } => match phase {
            TokenPhase::Issue => match cause {
                TokenCause::RequestFailed => "failed to obtain single use token endpoint"@,
                TokenCause::MalformedBody => "single use token response could not be parsed"@,
                TokenCause::MissingTokenField
                    => "single use token request did not contain anonymous token"@,
            },
            TokenPhase::Upgrade => match cause {
                TokenCause::RequestFailed => "failed to upgrade temporary token with name"@,
                TokenCause::MalformedBody => "token upgrade response could not be parsed"@,
                TokenCause::MissingTokenField
                    => "token upgrade request did not contain anonymous token"@,
            },
        },
        StageError::Activation { cause } => match cause {
            ActivationCause::RequestFailed => "failed to activate permissions on token"@,
        },
        StageError::Session { cause } => match cause {
            SessionCause::RequestFailed => "failed to start upload session"@,
            SessionCause::MissingUploadUrl => "session creation did not return upload url"@,
        },
        StageError::Transfer { cause } => match cause {
            TransferCause::RequestFailed => "failed to upload file to upload url"@,
        },
    }
}

impl StageError {
    /// Describes the failing stage and its proximate cause.
    pub fn message(&self) -> (m: String)
        ensures
            m@ == message_of(*self),
    {
        match *self {
            StageError::Resolution { cause } => match cause {
                ResolutionCause::RequestFailed => String::from_str("cannot open provided url"),
                ResolutionCause::NoQuery => String::from_str("no query params"),
                ResolutionCause::NoShareId => String::from_str("found no id in page url"),
                ResolutionCause::NoServiceBase => String::from_str(
                    "found no url base for upload",
                ),
            },
            StageError::Token { phase, cause } => match phase {
                TokenPhase::Issue => match cause {
                    TokenCause::RequestFailed => String::from_str(
                        "failed to obtain single use token endpoint",
                    ),
                    TokenCause::MalformedBody => String::from_str(
                        "single use token response could not be parsed",
                    ),
                    TokenCause::MissingTokenField => String::from_str(
                        "single use token request did not contain anonymous token",
                    ),
                },
                TokenPhase::Upgrade => match cause {
                    TokenCause::RequestFailed => String::from_str(
                        "failed to upgrade temporary token with name",
                    ),
                    TokenCause::MalformedBody => String::from_str(
                        "token upgrade response could not be parsed",
                    ),
                    TokenCause::MissingTokenField => String::from_str(
                        "token upgrade request did not contain anonymous token",
                    ),
                },
            },
            StageError::Activation { cause } => match cause {
                ActivationCause::RequestFailed => String::from_str(
                    "failed to activate permissions on token",
                ),
            },
            StageError::Session { cause } => match cause {
                SessionCause::RequestFailed => String::from_str("failed to start upload session"),
                SessionCause::MissingUploadUrl => String::from_str(
                    "session creation did not return upload url",
                ),
            },
            StageError::Transfer { cause } => match cause {
                TransferCause::RequestFailed => String::from_str(
                    "failed to upload file to upload url",
                ),
            },
        }
    }
}

} // verus!
