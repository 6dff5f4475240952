use filereq::pipeline::{
    build_request, start, step, Action, Command, CommandError, Event, PipelineOutcome,
    StageError, State, TokenPhase, UploadRequest,
};
use filereq::resolve::ResolutionCause;
use filereq::token::TokenCause;

fn request() -> UploadRequest {
    build_request(
        Command {
            file: "/tmp/data/report.txt".to_string(),
            url: "https://short.link/r/abc".to_string(),
            name: Some("Ann Lee".to_string()),
            filename: None,
        },
        42,
    )
    .unwrap()
}

fn ok(status: u16, final_url: &str, body: &str) -> Event {
    Event::Completed { status, final_url: final_url.to_string(), body: body.to_string() }
}

const TERMINAL: &str = "https://host.sharepoint.com/sub/view.aspx?s=AbCd1234";

/// Drives the machine through the five exchanges before the PUT and
/// checks every request on the way.
fn drive_to_transfer() -> State {
    let (state, action) = start(request());
    match &action {
        Action::Get { url, headers } => {
            assert_eq!(url, "https://short.link/r/abc");
            assert!(headers.is_empty());
        },
        _ => panic!("expected the share URL GET"),
    }

    // the share URL redirected to the terminal URL
    let (state, action) = step(state, ok(200, TERMINAL, ""));
    match &action {
        Action::Post { url, headers, body } => {
            assert_eq!(url, "https://api.badgerp.svc.ms/v1.0/token");
            assert_eq!(body, "{\"appid\":\"FileRequestAnonymousUserSignInOnODB\"}");
            assert_eq!(headers.len(), 1);
            assert_eq!(headers[0].0, "Content-Type");
            assert_eq!(headers[0].1, "application/json");
        },
        _ => panic!("expected the token issuance POST"),
    }

    // the anonymous token came back
    let (state, action) = step(state, ok(200, "", "{\"token\":\"anon1\"}"));
    match &action {
        Action::Get { url, headers } => {
            assert_eq!(url, "https://host.sharepoint.com/_api/v2.0/shares/u!AbCd1234/permission");
            assert_eq!(headers.len(), 2);
            assert_eq!(headers[0].0, "Authorization");
            assert_eq!(headers[0].1, "badger anon1");
            assert_eq!(headers[1].0, "Prefer");
            assert_eq!(headers[1].1, "redeemsharinglink");
        },
        _ => panic!("expected the permission GET"),
    }

    // activation tolerates a non-2xx status
    let (state, action) = step(state, ok(400, "", "ignored"));
    match &action {
        Action::Post { url, headers, body } => {
            assert_eq!(url, "https://api.badgerp.svc.ms/v1.0/tokenexchange");
            assert_eq!(body, "{\"givenName\":\"Ann\",\"familyName\":\"Lee\"}");
            assert_eq!(headers[0].1, "badger anon1");
            assert_eq!(headers[1].0, "Content-Type");
        },
        _ => panic!("expected the token exchange POST"),
    }

    // the upgraded token came back
    let (state, action) = step(state, ok(200, "", "{\"token\":\"upg2\"}"));
    match &action {
        Action::Post { url, headers, body } => {
            assert_eq!(
                url,
                "https://host.sharepoint.com/_api/v2.1/shares/u!AbCd1234/driveItem:/report.txt:/oneDrive.createUploadSession"
            );
            assert_eq!(body, "{\"item\":{\"@name.conflictBehavior\":\"rename\"}}");
            assert_eq!(headers[0].1, "badger upg2");
        },
        _ => panic!("expected the session creation POST"),
    }

    // the session body is malformed JSON around the one needed field
    let session_body = "xx{\"uploadUrl\":\"https://upload.example/abc\"}yy";
    let (state, action) = step(state, ok(200, "", session_body));
    match &action {
        Action::PutFile { session, headers } => {
            assert_eq!(session.upload_endpoint, "https://upload.example/abc");
            assert_eq!(headers.len(), 1);
            assert_eq!(headers[0].0, "Content-Range");
            assert_eq!(headers[0].1, "bytes 0-41/42");
        },
        _ => panic!("expected the file PUT"),
    }
    state
}

#[test]
fn end_to_end_accepted() {
    let state = drive_to_transfer();
    let (state, action) = step(state, ok(201, "", ""));
    assert!(matches!(action, Action::Finish));
    match state {
        State::Finished { outcome } => assert_eq!(outcome, PipelineOutcome::Accepted),
        _ => panic!("expected the pipeline to be over"),
    }
}

#[test]
fn end_to_end_rejected_on_403() {
    let state = drive_to_transfer();
    let (state, action) = step(state, ok(403, "", ""));
    assert!(matches!(action, Action::Finish));
    match state {
        State::Finished { outcome } => {
            assert_eq!(outcome, PipelineOutcome::Rejected { status: 403 })
        },
        _ => panic!("expected the pipeline to be over"),
    }
}

#[test]
fn empty_token_body_stops_the_pipeline() {
    let (state, _) = start(request());
    let (state, _) = step(state, ok(200, TERMINAL, ""));
    // the token endpoint answered with an empty object
    let (state, action) = step(state, ok(200, "", "{}"));
    // nothing further is asked for: the very next action already finishes
    assert!(matches!(action, Action::Finish));
    match state {
        State::Finished { outcome } => assert_eq!(
            outcome,
            PipelineOutcome::Failed {
                error: StageError::Token {
                    phase: TokenPhase::Issue,
                    cause: TokenCause::MissingTokenField,
                },
            }
        ),
        _ => panic!("expected the pipeline to be over"),
    }
}

#[test]
fn transport_failure_while_resolving() {
    let (state, _) = start(request());
    let (state, action) = step(state, Event::TransportFailed);
    assert!(matches!(action, Action::Finish));
    match state {
        State::Finished { outcome } => assert_eq!(
            outcome,
            PipelineOutcome::Failed {
                error: StageError::Resolution { cause: ResolutionCause::RequestFailed },
            }
        ),
        _ => panic!("expected the pipeline to be over"),
    }
}

#[test]
fn terminal_url_without_query_fails_resolution() {
    let (state, _) = start(request());
    let (state, action) = step(state, ok(200, "https://host.tld/plain", ""));
    assert!(matches!(action, Action::Finish));
    match state {
        State::Finished { outcome } => assert_eq!(
            outcome,
            PipelineOutcome::Failed {
                error: StageError::Resolution { cause: ResolutionCause::NoQuery },
            }
        ),
        _ => panic!("expected the pipeline to be over"),
    }
}

#[test]
fn session_body_without_upload_url_fails() {
    let state = {
        let (state, _) = start(request());
        let (state, _) = step(state, ok(200, TERMINAL, ""));
        let (state, _) = step(state, ok(200, "", "{\"token\":\"anon1\"}"));
        let (state, _) = step(state, ok(204, "", ""));
        let (state, _) = step(state, ok(200, "", "{\"token\":\"upg2\"}"));
        state
    };
    let (state, action) = step(state, ok(200, "", "{\"nothing\":\"here\"}"));
    assert!(matches!(action, Action::Finish));
    match state {
        State::Finished { outcome } => match outcome {
            PipelineOutcome::Failed { error } => {
                assert_eq!(error.message(), "session creation did not return upload url")
            },
            _ => panic!("expected a session failure"),
        },
        _ => panic!("expected the pipeline to be over"),
    }
}

#[test]
fn build_request_splits_the_name() {
    let req = request();
    assert_eq!(req.given_name, "Ann");
    assert_eq!(req.family_name, "Lee");
    assert_eq!(req.target_filename, "report.txt");
    assert_eq!(req.source_url, "https://short.link/r/abc");
    assert_eq!(req.file_size, 42);
}

#[test]
fn build_request_defaults_the_name() {
    let req = build_request(
        Command {
            file: "data.bin".to_string(),
            url: "u".to_string(),
            name: None,
            filename: Some("given.bin".to_string()),
        },
        1,
    )
    .unwrap();
    assert_eq!(req.given_name, "Unknown");
    assert_eq!(req.family_name, "User");
    assert_eq!(req.target_filename, "given.bin");
}

#[test]
fn build_request_rejects_one_part_names() {
    let err = build_request(
        Command {
            file: "f".to_string(),
            url: "u".to_string(),
            name: Some("Single".to_string()),
            filename: None,
        },
        1,
    )
    .unwrap_err();
    assert_eq!(err, CommandError::NameFormat);
}

#[test]
fn build_request_rejects_three_part_names() {
    let err = build_request(
        Command {
            file: "f".to_string(),
            url: "u".to_string(),
            name: Some("One Two Three".to_string()),
            filename: None,
        },
        1,
    )
    .unwrap_err();
    assert_eq!(err, CommandError::NameFormat);
}

#[test]
fn build_request_filename_fallbacks() {
    let named = |file: &str| {
        build_request(
            Command {
                file: file.to_string(),
                url: "u".to_string(),
                name: None,
                filename: None,
            },
            1,
        )
        .unwrap()
        .target_filename
    };
    assert_eq!(named("dir/sub/file.bin"), "file.bin");
    assert_eq!(named("plain"), "plain");
    assert_eq!(named("dir/"), "dir");
    assert_eq!(named("."), "untitled");
    assert_eq!(named(".."), "untitled");
    assert_eq!(named("/"), "untitled");
    assert_eq!(named(""), "untitled");
}

#[test]
fn transport_failure_at_each_later_stage() {
    let failed = |state: State| match step(state, Event::TransportFailed).0 {
        State::Finished { outcome: PipelineOutcome::Failed { error } } => error,
        _ => panic!("expected a failure"),
    };

    let (after_start, _) = start(request());
    let (issuing, _) = step(after_start, ok(200, TERMINAL, ""));
    let issuing_copy = || {
        let (s, _) = start(request());
        let (s, _) = step(s, ok(200, TERMINAL, ""));
        s
    };
    assert_eq!(
        failed(issuing),
        StageError::Token { phase: TokenPhase::Issue, cause: TokenCause::RequestFailed }
    );

    let (activating, _) = step(issuing_copy(), ok(200, "", "{\"token\":\"anon1\"}"));
    let activating_copy = || {
        let (s, _) = step(issuing_copy(), ok(200, "", "{\"token\":\"anon1\"}"));
        s
    };
    assert_eq!(
        failed(activating),
        StageError::Activation { cause: filereq::pipeline::ActivationCause::RequestFailed }
    );

    let (upgrading, _) = step(activating_copy(), ok(200, "", ""));
    let upgrading_copy = || {
        let (s, _) = step(activating_copy(), ok(200, "", ""));
        s
    };
    assert_eq!(
        failed(upgrading),
        StageError::Token { phase: TokenPhase::Upgrade, cause: TokenCause::RequestFailed }
    );

    let (negotiating, _) = step(upgrading_copy(), ok(200, "", "{\"token\":\"upg2\"}"));
    let negotiating_copy = || {
        let (s, _) = step(upgrading_copy(), ok(200, "", "{\"token\":\"upg2\"}"));
        s
    };
    assert_eq!(
        failed(negotiating),
        StageError::Session { cause: filereq::pipeline::SessionCause::RequestFailed }
    );

    let (transferring, _) =
        step(negotiating_copy(), ok(200, "", "{\"uploadUrl\":\"https://u/x\"}"));
    assert_eq!(
        failed(transferring),
        StageError::Transfer { cause: filereq::pipeline::TransferCause::RequestFailed }
    );
}

#[test]
fn build_request_accepts_empty_family_name() {
    // one space with nothing after it still splits into two parts
    let req = build_request(
        Command {
            file: "f".to_string(),
            url: "u".to_string(),
            name: Some("Ann ".to_string()),
            filename: Some("t".to_string()),
        },
        1,
    )
    .unwrap();
    assert_eq!(req.given_name, "Ann");
    assert_eq!(req.family_name, "");
}

#[test]
fn failure_messages_name_the_stage() {
    assert_eq!(
        StageError::Resolution { cause: ResolutionCause::RequestFailed }.message(),
        "cannot open provided url"
    );
    assert_eq!(
        StageError::Token { phase: TokenPhase::Issue, cause: TokenCause::MissingTokenField }
            .message(),
        "single use token request did not contain anonymous token"
    );
    assert_eq!(
        StageError::Token { phase: TokenPhase::Upgrade, cause: TokenCause::MissingTokenField }
            .message(),
        "token upgrade request did not contain anonymous token"
    );
}
