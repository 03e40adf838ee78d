//! An audio track service core: credential checks, byte-range resolution,
//! response planning, and a prefetch queue with the decisions of its warming worker.
use vstd::prelude::*;

pub mod auth;
pub mod error;
pub mod prefetch;
pub mod range;
pub mod text;
pub mod tracks;

pub use auth::{
    anon_claims, bearer_token, extract_user_id, require_auth, user_info, verify_supabase_token,
    AuthError, Claims, UserInfo,
};
pub use error::{error_response, ApiError, ErrorReply, ErrorResponse};
pub use prefetch::{
    prefetch_tracks, worker_start, worker_step, PrefetchQueue, PrefetchRequest, WorkerAction,
    WorkerEvent, WorkerState, CHUNK_SIZE, POLL_INTERVAL_MS,
};
pub use range::{parse_range_spec, resolve_range, ByteRange, RangeOutcome};
pub use tracks::{
    content_range_value, plan_track_response, random_track, stream_track, track_file_name,
    track_id_from_file_name, track_ids_from_file_names, FileProbe, RandomTrack, TrackResponse,
};

verus! {

} // verus!
