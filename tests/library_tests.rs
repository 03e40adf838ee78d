use rusty_cassowary::{
    anon_claims, bearer_token, content_range_value, error_response, extract_user_id,
    parse_range_spec, plan_track_response, prefetch_tracks, random_track, require_auth,
    resolve_range, stream_track, track_file_name, track_id_from_file_name,
    track_ids_from_file_names, user_info, verify_supabase_token, worker_start, worker_step,
    ApiError, AuthError, ByteRange, Claims, FileProbe, PrefetchQueue, PrefetchRequest,
    RangeOutcome, WorkerAction, WorkerEvent, WorkerState, CHUNK_SIZE, POLL_INTERVAL_MS,
};

use jsonwebtoken::{Algorithm, DecodingKey, EncodingKey, Header, Validation};

const SECRET: &str = "test_jwt_secret";

fn strings(items: &[&str]) -> Vec<String> {
    items.iter().map(|s| s.to_string()).collect()
}

fn signed_token(sub: &str, exp: u64, secret: &str) -> String {
    let mut claims = serde_json::Map::new();
    claims.insert("sub".to_string(), serde_json::Value::String(sub.to_string()));
    claims.insert("exp".to_string(), serde_json::Value::from(exp));
    let header = Header::new(Algorithm::HS256);
    jsonwebtoken::encode(&header, &serde_json::Value::Object(claims), &EncodingKey::from_secret(secret.as_bytes()))
        .expect("encodes")
}

fn decode(token: &str) -> Option<Claims> {
    let mut validation = Validation::new(Algorithm::HS256);
    validation.validate_exp = true;
    validation.required_spec_claims.clear();
    let key = DecodingKey::from_secret(SECRET.as_bytes());
    let data = jsonwebtoken::decode::<serde_json::Value>(token, &key, &validation).ok()?;
    let sub = data.claims.get("sub")?.as_str()?.to_string();
    let exp = data.claims.get("exp")?.as_u64()? as usize;
    Some(Claims { sub, email: None, role: None, exp, aud: None, iss: None })
}

fn authenticate(authorization: Option<&str>, apikey: Option<&str>) -> Result<Claims, AuthError> {
    let decoded = bearer_token(authorization).and_then(|t| decode(&t));
    verify_supabase_token(authorization, apikey, decoded)
}

fn far_future() -> u64 {
    4_000_000_000
}

#[test]
fn valid_signed_token_is_admitted_with_its_subject() {
    let token = signed_token("user-42", far_future(), SECRET);
    let header = format!("Bearer {}", token);
    let claims = require_auth(authenticate(Some(&header), None)).ok().expect("admitted");
    assert_eq!(claims.sub, "user-42");
    assert_eq!(extract_user_id(&claims), "user-42");
}

#[test]
fn expired_token_is_rejected() {
    let token = signed_token("user-42", 1_000, SECRET);
    let header = format!("Bearer {}", token);
    assert_eq!(authenticate(Some(&header), None).err(), Some(AuthError::InvalidToken));
}

#[test]
fn token_signed_with_another_secret_is_rejected() {
    let token = signed_token("user-42", far_future(), "another_secret");
    let header = format!("Bearer {}", token);
    let reply = require_auth(authenticate(Some(&header), None)).err().expect("rejected");
    assert_eq!(reply.status, 401);
    assert_eq!(reply.body.error, "Authentication required");
}

#[test]
fn api_key_admits_anonymous_identity() {
    let claims = authenticate(None, Some("anything")).ok().expect("admitted");
    assert_eq!(claims.sub, "anon-user");
    assert_eq!(claims.role.as_deref(), Some("anon"));
    assert_eq!(claims.email, None);
    assert_eq!(claims.exp, usize::MAX);
}

#[test]
fn api_key_with_non_bearer_authorization_is_admitted() {
    let claims = authenticate(Some("Basic abc"), Some("k")).ok().expect("admitted");
    assert_eq!(claims.sub, "anon-user");
}

#[test]
fn invalid_bearer_token_wins_over_api_key() {
    assert_eq!(authenticate(Some("Bearer junk"), Some("k")).err(), Some(AuthError::InvalidToken));
}

#[test]
fn empty_api_key_is_rejected() {
    assert_eq!(authenticate(None, Some("")).err(), Some(AuthError::MissingCredentials));
}

#[test]
fn no_credentials_are_rejected() {
    assert_eq!(authenticate(None, None).err(), Some(AuthError::MissingCredentials));
}

#[test]
fn bearer_token_extraction() {
    assert_eq!(bearer_token(Some("Bearer abc.def")), Some("abc.def".to_string()));
    assert_eq!(bearer_token(Some("Bearer ")), Some(String::new()));
    assert_eq!(bearer_token(Some("bearer abc")), None);
    assert_eq!(bearer_token(Some("Bearer")), None);
    assert_eq!(bearer_token(None), None);
}

#[test]
fn anon_claims_are_fixed() {
    let c = anon_claims();
    assert_eq!(c.sub, "anon-user");
    assert_eq!(c.role.as_deref(), Some("anon"));
    assert_eq!(c.aud, None);
    assert_eq!(c.iss, None);
}

#[test]
fn user_info_defaults_role() {
    let c = Claims {
        sub: "u1".to_string(),
        email: Some("u1@example.com".to_string()),
        role: None,
        exp: 10,
        aud: None,
        iss: None,
    };
    let info = user_info(&c);
    assert_eq!(info.user_id, "u1");
    assert_eq!(info.email.as_deref(), Some("u1@example.com"));
    assert_eq!(info.role, "authenticated");
    let anon = user_info(&anon_claims());
    assert_eq!(anon.role, "anon");
}

#[test]
fn range_ten_to_nineteen_is_partial() {
    let data: Vec<u8> = (0..100u8).collect();
    let plan = plan_track_response(data.len() as u64, Some("bytes=10-19")).ok().expect("served");
    assert_eq!(plan.status, 206);
    assert_eq!(plan.content_range.as_deref(), Some("bytes 10-19/100"));
    assert_eq!(plan.content_length, 10);
    assert_eq!(plan.content_type, "audio/mpeg");
    assert_eq!(plan.accept_ranges, "bytes");
    let start = plan.offset as usize;
    let body = &data[start..start + plan.count as usize];
    assert_eq!(body, &data[10..=19]);
}

#[test]
fn no_range_serves_whole_resource() {
    let data: Vec<u8> = b"test mp3 data".to_vec();
    let plan = plan_track_response(data.len() as u64, None).ok().expect("served");
    assert_eq!(plan.status, 200);
    assert_eq!(plan.content_length, 13);
    assert_eq!(plan.content_range, None);
    assert_eq!(plan.accept_ranges, "bytes");
    let start = plan.offset as usize;
    assert_eq!(&data[start..start + plan.count as usize], &data[..]);
}

#[test]
fn open_ended_range_runs_to_last_byte() {
    let plan = plan_track_response(50, Some("bytes=5-")).ok().expect("served");
    assert_eq!(plan.status, 206);
    assert_eq!(plan.content_range.as_deref(), Some("bytes 5-49/50"));
    assert_eq!(plan.content_length, 45);
    assert_eq!((plan.offset, plan.count), (5, 45));
}

#[test]
fn range_end_past_resource_is_clamped() {
    assert_eq!(
        resolve_range(Some("bytes=10-19"), 15),
        RangeOutcome::Partial(ByteRange { start: 10, end: 14 })
    );
    let plan = plan_track_response(15, Some("bytes=10-19")).ok().expect("served");
    assert_eq!(plan.content_range.as_deref(), Some("bytes 10-14/15"));
    assert_eq!(plan.content_length, 5);
}

#[test]
fn range_start_past_resource_is_not_satisfiable() {
    assert_eq!(resolve_range(Some("bytes=10-19"), 10), RangeOutcome::NotSatisfiable);
    assert_eq!(resolve_range(Some("bytes=0-"), 0), RangeOutcome::NotSatisfiable);
    let err = plan_track_response(10, Some("bytes=10-19")).err().expect("refused");
    assert_eq!(err, ApiError::RangeNotSatisfiable);
    assert_eq!(err.status(), 416);
}

#[test]
fn malformed_ranges_serve_whole_resource() {
    for spec in ["bytes=abc", "bytes=-5", "bytes=19-10", "bytes 1-2", "items=1-2", "bytes=1-2x", "", "bytes=99999999999999999999-"] {
        assert_eq!(resolve_range(Some(spec), 100), RangeOutcome::Whole, "{}", spec);
    }
    assert_eq!(resolve_range(None, 100), RangeOutcome::Whole);
}

#[test]
fn range_spec_parsing() {
    assert_eq!(parse_range_spec("bytes=0-0"), Some((0, Some(0))));
    assert_eq!(parse_range_spec("bytes=007-12"), Some((7, Some(12))));
    assert_eq!(parse_range_spec("bytes=5-"), Some((5, None)));
    assert_eq!(parse_range_spec("bytes=18446744073709551615-"), Some((u64::MAX, None)));
    assert_eq!(parse_range_spec("bytes=18446744073709551616-"), None);
    assert_eq!(parse_range_spec("bytes=3-2"), None);
    assert_eq!(parse_range_spec("bytes=0-1,4-5"), None);
}

#[test]
fn single_byte_range() {
    let plan = plan_track_response(1, Some("bytes=0-0")).ok().expect("served");
    assert_eq!(plan.status, 206);
    assert_eq!(plan.content_range.as_deref(), Some("bytes 0-0/1"));
    assert_eq!(plan.content_length, 1);
}

#[test]
fn content_range_text_is_decimal() {
    let r = ByteRange { start: 0, end: 18446744073709551614 };
    assert_eq!(content_range_value(r, u64::MAX), "bytes 0-18446744073709551614/18446744073709551615");
    assert_eq!(content_range_value(ByteRange { start: 100, end: 1009 }, 2048), "bytes 100-1009/2048");
}

#[test]
fn missing_track_is_not_found_for_any_credential() {
    let token = signed_token("user-42", far_future(), SECRET);
    let header = format!("Bearer {}", token);
    for identity in [authenticate(Some(&header), None), authenticate(None, Some("key"))] {
        assert!(identity.is_ok());
        let err = stream_track(&identity, FileProbe::Missing, Some("bytes=0-1")).err().expect("missing");
        assert_eq!(err, ApiError::TrackNotFound);
        assert_eq!(err.status(), 404);
    }
}

#[test]
fn unreadable_track_is_internal_failure() {
    let identity = authenticate(None, Some("key"));
    let err = stream_track(&identity, FileProbe::Unreadable, None).err().expect("fails");
    assert_eq!(err.status(), 500);
}

#[test]
fn unauthenticated_track_request_is_refused_first() {
    let identity = authenticate(None, None);
    let err = stream_track(&identity, FileProbe::Missing, None).err().expect("refused");
    assert_eq!(err, ApiError::AuthenticationRequired);
}

#[test]
fn prefetch_queue_drains_in_order() {
    let identity = authenticate(None, Some("key"));
    let mut queue = PrefetchQueue::new();
    let request = PrefetchRequest { track_ids: strings(&["a", "b", "c"]) };
    assert!(prefetch_tracks(&identity, &mut queue, Some(request)).is_ok());
    let mut out = Vec::new();
    while let Some(id) = queue.pop_front() {
        out.push(id);
    }
    assert_eq!(out, strings(&["a", "b", "c"]));
    assert_eq!(queue.pop_front(), None);
}

#[test]
fn prefetch_keeps_duplicates_and_earlier_entries() {
    let identity = authenticate(None, Some("key"));
    let mut queue = PrefetchQueue::new();
    queue.push_back("x".to_string());
    let request = PrefetchRequest { track_ids: strings(&["y", "y"]) };
    assert!(prefetch_tracks(&identity, &mut queue, Some(request)).is_ok());
    assert_eq!(queue.len(), 3);
    assert_eq!(queue.pop_front().as_deref(), Some("x"));
    assert_eq!(queue.pop_front().as_deref(), Some("y"));
    assert_eq!(queue.pop_front().as_deref(), Some("y"));
}

#[test]
fn rejected_prefetch_leaves_queue_alone() {
    let mut queue = PrefetchQueue::new();
    queue.push_back("x".to_string());
    let request = PrefetchRequest { track_ids: strings(&["y"]) };
    let result = prefetch_tracks(&authenticate(None, None), &mut queue, Some(request));
    assert_eq!(result, Err(ApiError::AuthenticationRequired));
    assert_eq!(queue.len(), 1);
}

#[test]
fn random_track_picks_among_tracks() {
    let names = strings(&["test1.mp3", "test2.mp3", "test3.mp3", "notes.txt"]);
    for _ in 0..20 {
        let picked = random_track(&names).ok().expect("tracks present").track_id;
        assert!(["test1", "test2", "test3"].contains(&picked.as_str()));
    }
}

#[test]
fn random_track_with_single_track() {
    let names = strings(&["cover.jpg", "only.mp3"]);
    assert_eq!(random_track(&names).ok().map(|t| t.track_id).as_deref(), Some("only"));
}

#[test]
fn random_track_without_mp3_files_is_not_found() {
    let err = random_track(&strings(&["a.txt", "b.wav"])).err().expect("none");
    assert_eq!(err, ApiError::NoTracks);
    let reply = err.reply();
    assert_eq!(reply.status, 404);
    assert_eq!(reply.body.error, "No tracks found");
}

#[test]
fn track_ids_from_names() {
    let names = strings(&["b.mp3", "x.wav", ".mp3", "a.mp3.mp3", "mp3"]);
    assert_eq!(track_ids_from_file_names(&names), strings(&["b", "", "a.mp3"]));
    assert_eq!(track_id_from_file_name("song.mp3").as_deref(), Some("song"));
    assert_eq!(track_id_from_file_name("song.MP3"), None);
    assert_eq!(track_file_name("test1"), "test1.mp3");
}

#[test]
fn worker_round_with_file() {
    let (state, action) = worker_start();
    assert!(matches!(action, WorkerAction::Dequeue));
    let (state, action) = worker_step(state, WorkerEvent::Dequeued(Some("t".to_string())));
    assert!(matches!(state, WorkerState::Opening));
    assert!(matches!(action, WorkerAction::OpenTrack(ref id) if id == "t"));
    let (state, action) = worker_step(state, WorkerEvent::Opened(true));
    assert!(matches!(action, WorkerAction::ReadChunk(n) if n == CHUNK_SIZE));
    let (state, action) = worker_step(state, WorkerEvent::ChunkRead(8192));
    assert!(matches!(action, WorkerAction::ReadChunk(_)));
    let (state, action) = worker_step(state, WorkerEvent::ChunkRead(0));
    assert!(matches!(state, WorkerState::Resting));
    assert!(matches!(action, WorkerAction::Sleep(ms) if ms == POLL_INTERVAL_MS));
    let (state, action) = worker_step(state, WorkerEvent::Woke);
    assert!(matches!(state, WorkerState::Polling));
    assert!(matches!(action, WorkerAction::Dequeue));
}

#[test]
fn worker_skips_missing_files_and_failed_reads() {
    let (state, action) = worker_step(WorkerState::Opening, WorkerEvent::Opened(false));
    assert!(matches!(state, WorkerState::Resting));
    assert!(matches!(action, WorkerAction::Sleep(100)));
    let (state, _) = worker_step(WorkerState::Warming, WorkerEvent::ReadFailed);
    assert!(matches!(state, WorkerState::Resting));
    let (state, action) = worker_step(WorkerState::Polling, WorkerEvent::Dequeued(None));
    assert!(matches!(state, WorkerState::Resting));
    assert!(matches!(action, WorkerAction::Sleep(_)));
}

#[test]
fn error_statuses_and_messages() {
    let cases = [
        (ApiError::AuthenticationRequired, 401, "Authentication required"),
        (ApiError::TrackNotFound, 404, "Track not found"),
        (ApiError::NoTracks, 404, "No tracks found"),
        (ApiError::MalformedRequest, 400, "Invalid request body"),
        (ApiError::RangeNotSatisfiable, 416, "Range not satisfiable"),
        (ApiError::Internal, 500, "Internal server error"),
    ];
    for (err, status, message) in cases {
        assert_eq!(err.status(), status);
        assert_eq!(err.message(), message);
        let reply = err.reply();
        assert_eq!(reply.status, status);
        assert_eq!(reply.body.error, message);
    }
    let reply = error_response(418, "teapot");
    assert_eq!(reply.status, 418);
    assert_eq!(reply.body.error, "teapot");
}
