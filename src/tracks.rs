//! Track retrieval: the partial-content responder, the track listing and the random pick.
use vstd::prelude::*;

use crate::auth::{AuthError, Claims};
use crate::error::ApiError;
use crate::range::{resolve_range, resolve_spec, ByteRange, RangeOutcome};
use crate::text::{decimal_text, opt_string_view, opt_view, push_decimal, string_views};

use rand::seq::SliceRandom;

verus! {

/// The headers and body window of a successful track response. The body is the
/// `count` bytes of the stored file that start at `offset`.
#[derive(Clone, Debug)]
pub struct TrackResponse {
    pub status: u16,
    pub content_type: String,
    pub content_length: u64,
    pub content_range: Option<String>,
    pub accept_ranges: String,
    pub offset: u64,
    pub count: u64,
}

pub ghost struct TrackResponseView {
    pub status: u16,
    pub content_type: Seq<char>,
    pub content_length: nat,
    pub content_range: Option<Seq<char>>,
    pub accept_ranges: Seq<char>,
    pub offset: nat,
    pub count: nat,
}

impl View for TrackResponse {
    type V = TrackResponseView;

    open spec fn view(&self) -> TrackResponseView {
        TrackResponseView {
            status: self.status,
            content_type: self.content_type@,
            content_length: self.content_length as nat,
            content_range: match self.content_range {
                Some(r) => Some(r@),
                None => None,
            },
            accept_ranges: self.accept_ranges@,
            offset: self.offset as nat,
            count: self.count as nat,
        }
    }
}

pub open spec fn result_view(r: Result<TrackResponse, ApiError>) -> Result<TrackResponseView, ApiError> {
    match r {
        Ok(t) => Ok(t@),
        Err(e) => Err(e),
    }
}

/// `bytes <start>-<end>/<total>`
pub open spec fn content_range_text(b: ByteRange, total: nat) -> Seq<char> {
    seq!['b', 'y', 't', 'e', 's', ' '] + decimal_text(b.start as nat) + seq!['-'] + decimal_text(
        b.end as nat,
    ) + seq!['/'] + decimal_text(total)
}

/// The response to a request for a stored track of `total` bytes with the given range
/// specifier.
pub open spec fn planned_response(total: nat, spec: Option<Seq<char>>) -> Result<TrackResponseView, ApiError> {
    match resolve_spec(spec, total) {
        RangeOutcome::Whole => Ok(
            TrackResponseView {
                status: 200,
                content_type: "audio/mpeg"@,
                content_length: total,
                content_range: None,
                accept_ranges: "bytes"@,
                offset: 0,
                count: total,
            },
        ),
        RangeOutcome::Partial(b) => Ok(
            TrackResponseView {
                status: 206,
                content_type: "audio/mpeg"@,
                content_length: (b.end - b.start + 1) as nat,
                content_range: Some(content_range_text(b, total)),
                accept_ranges: "bytes"@,
                offset: b.start as nat,
                count: (b.end - b.start + 1) as nat,
            },
        ),
        RangeOutcome::NotSatisfiable => Err(ApiError::RangeNotSatisfiable),
    }
}

/// What opening the stored file of a track found.
#[derive(Clone, Copy, Debug, PartialEq, Eq, Structural)]
pub enum FileProbe {
    /// No file backs the track.
    Missing,
    /// The file exists, but its length could not be read.
    Unreadable,
    /// The file exists and holds this many bytes.
    Found(u64),
}

/// Track retrieval: credentials first, then the stored file, then the range.
pub open spec fn track_outcome(admitted: bool, probe: FileProbe, spec: Option<Seq<char>>) -> Result<
    TrackResponseView,
    ApiError,
> {
    if !admitted {
        Err(ApiError::AuthenticationRequired)
    } else {
        match probe {
            FileProbe::Missing => Err(ApiError::TrackNotFound),
            FileProbe::Unreadable => Err(ApiError::Internal),
            FileProbe::Found(total) => planned_response(total as nat, spec),
        }
    }
}

/// The `Content-Range` value for an interval of a resource of `total` bytes.
pub fn content_range_value(b: ByteRange, total: u64) -> (r: String)
    ensures
        r@ == content_range_text(b, total as nat),
{
    proof {
        reveal_strlit("bytes ");
        reveal_strlit("-");
        reveal_strlit("/");
    }
    let mut out = String::from_str("bytes ");
    push_decimal(&mut out, b.start);
    out.append("-");
    push_decimal(&mut out, b.end);
    out.append("/");
    push_decimal(&mut out, total);
    assert(out@ =~= content_range_text(b, total as nat));
    out
}

/// Plans the response for a stored track of `total_length` bytes and an optional
/// `Range` specifier: the whole file with status 200, or the requested interval with
/// status 206 and its `Content-Range`, or the range-not-satisfiable failure.
pub fn plan_track_response(total_length: u64, range: Option<&str>) -> (r: Result<TrackResponse, ApiError>)
    ensures
        result_view(r) == planned_response(total_length as nat, opt_view(range)),
        r matches Ok(t) ==> t.offset + t.count <= total_length,
{
    match resolve_range(range, total_length) {
        RangeOutcome::Whole => Ok(
            TrackResponse {
                status: 200,
                content_type: String::from_str("audio/mpeg"),
                content_length: total_length,
                content_range: None,
                accept_ranges: String::from_str("bytes"),
                offset: 0,
                count: total_length,
            },
        ),
        RangeOutcome::Partial(b) => {
            let count = b.end - b.start + 1;
            Ok(
                TrackResponse {
                    status: 206,
                    content_type: String::from_str("audio/mpeg"),
                    content_length: count,
                    content_range: Some(content_range_value(b, total_length)),
                    accept_ranges: String::from_str("bytes"),
                    offset: b.start,
                    count,
                },
            )
        },
        RangeOutcome::NotSatisfiable => Err(ApiError::RangeNotSatisfiable),
    }
}

/// Serves a track request: `identity` is the credential verdict, `probe` what opening
/// the track's file found, `range` the `Range` header value.
pub fn stream_track(identity: &Result<Claims, AuthError>, probe: FileProbe, range: Option<&str>) -> (r: Result<
    TrackResponse,
    ApiError,
>)
    ensures
        result_view(r) == track_outcome(identity is Ok, probe, opt_view(range)),
{
    if identity.is_err() {
        return Err(ApiError::AuthenticationRequired);
    }
    match probe {
        FileProbe::Missing => Err(ApiError::TrackNotFound),
        FileProbe::Unreadable => Err(ApiError::Internal),
        FileProbe::Found(total) => plan_track_response(total, range),
    }
}

pub open spec fn mp3_suffix() -> Seq<char> {
    seq!['.', 'm', 'p', '3']
}

/// The track identifier of a file name: the name without its `.mp3` extension.
pub open spec fn track_id_of(name: Seq<char>) -> Option<Seq<char>> {
    if name.len() >= 4 && name.subrange(name.len() - 4, name.len() as int) == mp3_suffix() {
        Some(name.subrange(0, name.len() - 4))
    } else {
        None
    }
}

/// The identifiers of the tracks among the file names, in their order.
pub open spec fn track_ids_of(names: Seq<Seq<char>>) -> Seq<Seq<char>>
    decreases names.len(),
{
    if names.len() == 0 {
        Seq::empty()
    } else {
        let rest = track_ids_of(names.drop_last());
        match track_id_of(names.last()) {
            Some(id) => rest.push(id),
            None => rest,
        }
    }
}

/// The name of the file that stores a track.
pub fn track_file_name(track_id: &str) -> (r: String)
    ensures
        r@ == track_id@ + mp3_suffix(),
{
    proof {
        reveal_strlit(".mp3");
    }
    let mut name = String::from_str(track_id);
    name.append(".mp3");
    name
}

/// The track identifier of a file name, where it ends in `.mp3`.
pub fn track_id_from_file_name(name: &str) -> (r: Option<String>)
    ensures
        opt_string_view(r) == track_id_of(name@),
{
    let n = name.unicode_len();
    if n < 4 {
        return None;
    }
    proof {
        reveal_strlit(".mp3");
    }
    let suffix = ".mp3";
    let mut i: usize = 0;
    while i < 4
        invariant
            0 <= i <= 4,
            n == name@.len(),
            n >= 4,
            suffix@ == mp3_suffix(),
            name@.subrange(n - 4, n - 4 + i) == mp3_suffix().subrange(0, i as int),
        decreases 4 - i,
    {
        let got = name.get_char(n - 4 + i);
        let want = suffix.get_char(i);
        if got != want {
            assert(name@.subrange(n - 4, n as int)[i as int] == got);
            assert(mp3_suffix()[i as int] == want);
            assert(name@.subrange(n - 4, n as int) != mp3_suffix());
            return None;
        }
        assert(name@.subrange(n - 4, n - 4 + i + 1) =~= mp3_suffix().subrange(0, i + 1));
        i = i + 1;
    }
    assert(mp3_suffix().subrange(0, 4) =~= mp3_suffix());
    Some(String::from_str(name.substring_char(0, n - 4)))
}

/// The identifiers of the tracks among the names of the files in the track directory.
pub fn track_ids_from_file_names(names: &Vec<String>) -> (r: Vec<String>)
    ensures
        string_views(r@) == track_ids_of(string_views(names@)),
{
    let mut ids: Vec<String> = Vec::new();
    let mut i: usize = 0;
    assert(string_views(names@).subrange(0, 0) =~= Seq::<Seq<char>>::empty());
    assert(string_views(ids@) =~= Seq::<Seq<char>>::empty());
    while i < names.len()
        invariant
            0 <= i <= names@.len(),
            string_views(ids@) == track_ids_of(string_views(names@).subrange(0, i as int)),
        decreases names@.len() - i,
    {
        let ghost prefix = string_views(names@).subrange(0, i + 1);
        assert(prefix.drop_last() =~= string_views(names@).subrange(0, i as int));
        assert(prefix.last() == names@[i as int]@);
        match track_id_from_file_name(names[i].as_str()) {
            Some(id) => {
                let ghost before = ids@;
                ids.push(id);
                assert(string_views(ids@) =~= string_views(before).push(id@));
            },
            None => {},
        }
        i = i + 1;
    }
    assert(string_views(names@).subrange(0, names@.len() as int) =~= string_views(names@));
    ids
}

/// Relies on rand's `SliceRandom::choose` with `thread_rng`: `None` for an empty slice,
/// otherwise a copy of one of its elements.
#[verifier::external_body]
fn choose_track(ids: &Vec<String>) -> (r: Option<String>)
    ensures
        r is None <==> ids@.len() == 0,
        r matches Some(id) ==> exists|i: int| 0 <= i < ids@.len() && id@ == ids@[i]@,
{
    ids.choose(&mut rand::thread_rng()).cloned()
}

/// The body of a successful random pick.
#[derive(Clone, Debug)]
pub struct RandomTrack {
    pub track_id: String,
}

/// Picks a track at random among the names of the files in the track directory, or
/// reports that there is none.
pub fn random_track(file_names: &Vec<String>) -> (r: Result<RandomTrack, ApiError>)
    ensures
        r is Err <==> track_ids_of(string_views(file_names@)).len() == 0,
        r matches Err(e) ==> e == ApiError::NoTracks,
        r matches Ok(t) ==> track_ids_of(string_views(file_names@)).contains(t.track_id@),
{
    let ids = track_ids_from_file_names(file_names);
    assert(string_views(ids@).len() == ids@.len());
    match choose_track(&ids) {
        Some(id) => {
            proof {
                let i = choose|i: int| 0 <= i < ids@.len() && id@ == ids@[i]@;
                assert(string_views(ids@)[i] == id@);
            }
            Ok(RandomTrack { track_id: id })
        },
        None => Err(ApiError::NoTracks),
    }
}

/// A request for `bytes=10-19` of a resource of at least 20 bytes is answered with
/// status 206, `Content-Range: bytes 10-19/<total>`, a length of 10, and the ten bytes
/// that start at offset 10.
pub proof fn lemma_ten_byte_range(total: u64)
    requires
        total >= 20,
    ensures
        planned_response(total as nat, Some("bytes=10-19"@)) == Ok::<TrackResponseView, ApiError>(
            TrackResponseView {
                status: 206,
                content_type: "audio/mpeg"@,
                content_length: 10,
                content_range: Some("bytes 10-19/"@ + decimal_text(total as nat)),
                accept_ranges: "bytes"@,
                offset: 10,
                count: 10,
            },
        ),
{
    reveal_strlit("bytes=10-19");
    reveal_strlit("bytes 10-19/");
    let s = "bytes=10-19"@;
    assert(s.subrange(0, 6) =~= crate::range::units_prefix());
    assert(s.subrange(6, 8) =~= seq!['1', '0']);
    assert(s.subrange(9, 11) =~= seq!['1', '9']);
    assert(crate::range::dash_at(s, 8));
    let k = choose|k: int| crate::range::dash_at(s, k);
    crate::range::lemma_dash_unique(s, k, 8);
    assert(seq!['1', '0'].drop_last() =~= seq!['1']);
    assert(seq!['1', '9'].drop_last() =~= seq!['1']);
    assert(seq!['1'].drop_last() =~= Seq::<char>::empty());
    assert(seq!['1'].last() == '1');
    assert(crate::range::digit_value('1') == 1);
    assert(crate::range::decimal_value(Seq::<char>::empty()) == 0);
    assert(crate::range::decimal_value(seq!['1']) == 1);
    assert(crate::range::decimal_value(seq!['1', '0']) == 10);
    assert(crate::range::decimal_value(seq!['1', '9']) == 19);
    let b = ByteRange { start: 10, end: 19 };
    assert(resolve_spec(Some(s), total as nat) == RangeOutcome::Partial(b));
    assert(decimal_text(1) =~= seq!['1']);
    assert(decimal_text(10) =~= seq!['1', '0']);
    assert(decimal_text(19) =~= seq!['1', '9']);
    assert(content_range_text(b, total as nat) =~= "bytes 10-19/"@ + decimal_text(total as nat));
}

/// A request without a `Range` header is answered with status 200, the full length, and
/// the whole file from its first byte.
pub proof fn lemma_whole_resource(total: u64)
    ensures
        planned_response(total as nat, None) == Ok::<TrackResponseView, ApiError>(
            TrackResponseView {
                status: 200,
                content_type: "audio/mpeg"@,
                content_length: total as nat,
                content_range: None,
                accept_ranges: "bytes"@,
                offset: 0,
                count: total as nat,
            },
        ),
{
}

/// A track with no stored file is answered with not-found, whichever credential
/// admitted the request.
pub proof fn lemma_missing_track(identity: Result<Claims, AuthError>, spec: Option<Seq<char>>)
    requires
        identity is Ok,
    ensures
        track_outcome(identity is Ok, FileProbe::Missing, spec) == Err::<TrackResponseView, ApiError>(
            ApiError::TrackNotFound,
        ),
{
}

} // verus!
