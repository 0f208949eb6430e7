use nen_core::http::{HttpError, HttpHeader, HttpRequest};
use nen_core::playback::capability::Capability;
use nen_core::playback::error::{LoadFailure, Operation, PlaybackError};
use nen_core::playback::geometry::VideoGeometry;
use nen_core::playback::media::MediaSource;
use nen_core::playback::track::{TrackDescriptor, TrackId, TrackKind};
use nen_core::renderer::capability::Capabilities as RenderCapabilities;
use nen_core::renderer::error::{Operation as RenderOperation, RenderError};

const SENTINEL_BODY: &str = "super-secret-provider-payload-Zzqxvun";
const SENTINEL_AUTH: &str = "Bearer Zzqxvun-api-key";

fn forbidden(output: &str) {
    assert!(!output.contains(SENTINEL_BODY), "body leaked: {output}");
    assert!(!output.contains(SENTINEL_AUTH), "auth header leaked: {output}");
}

#[test]
fn a_post_requests_debug_never_prints_its_body_or_authorization_header() {
    let request = HttpRequest::post_json(
        "https://api.openai.com/v1/responses",
        vec![HttpHeader { name: "Authorization".into(), value: SENTINEL_AUTH.into() }],
        SENTINEL_BODY.as_bytes().to_vec(),
        1024 * 1024,
        60_000,
    );
    forbidden(&request.debug_text());
    assert!(request.debug_text().contains("body_length"));
    for error in [HttpError::Transport, HttpError::ResponseTooLarge] {
        forbidden(&format!("{error:?} {}", error.display_text()));
    }
}

#[test]
fn the_guard_is_not_blind_to_a_derived_debug_twin() {
    #[derive(Debug)]
    #[allow(dead_code)]
    struct LeakyTwin {
        body: String,
        authorization: String,
    }
    let leaked = format!("{:?}", LeakyTwin { body: SENTINEL_BODY.into(), authorization: SENTINEL_AUTH.into() });
    assert!(leaked.contains(SENTINEL_BODY));
    assert!(leaked.contains(SENTINEL_AUTH));
}

const MEDIA_URL: &str = "https://cdn.example.com/stream.mkv?token=SECRETTOKEN";
const PRIVATE_PATH: &str = "/Users/someone/Movies/Private/film.mkv";
const PRIVATE_TITLE: &str = "The.Film.2019.1080p.WEB-DL.PRIVATEGROUP";
const DIALOGUE: &str = "Bunu kimseye söyleme";

fn forbidden_fragments() -> Vec<&'static str> {
    vec![
        "cdn.example.com",
        "stream.mkv",
        "SECRETTOKEN",
        "token=",
        "/Users/someone",
        "Private",
        "film.mkv",
        "PRIVATEGROUP",
        "WEB-DL",
        DIALOGUE,
    ]
}

fn assert_clean(what: &str, printed: &str) {
    for fragment in forbidden_fragments() {
        assert!(!printed.contains(fragment), "{what} leaked {fragment:?}: {printed}");
    }
}

fn assert_leaks(what: &str, printed: &str, fragment: &str) {
    assert!(printed.contains(fragment), "{what} was expected to leak {fragment:?} but did not: {printed}");
}

#[test]
fn media_source_never_prints_its_locator() {
    for locator in [MEDIA_URL, PRIVATE_PATH] {
        let source = MediaSource::new(locator);
        assert_clean("MediaSource", &source.debug_text());
    }
}

#[test]
fn video_geometry_prints_its_numbers_and_nothing_else() {
    let geometry = VideoGeometry::new(1_024, 576).expect("a valid size");
    let printed = format!("{geometry:?}");
    assert_clean("VideoGeometry", &printed);
    assert!(printed.contains("1024"), "width missing: {printed}");
    assert!(printed.contains("576"), "height missing: {printed}");
}

#[test]
fn no_playback_error_variant_carries_private_data() {
    let errors = [
        PlaybackError::Unsupported { operation: Operation::SetRate, capability: Capability::PlaybackRate },
        PlaybackError::ReentrantCall { operation: Operation::Play },
        PlaybackError::NotLoaded { operation: Operation::Seek },
        PlaybackError::ShutDown { operation: Operation::Load },
        PlaybackError::UnknownTrack { kind: TrackKind::Subtitle },
        PlaybackError::RateOutOfRange { requested: 4_000, min: 500, max: 2_000 },
        PlaybackError::LoadFailed { reason: LoadFailure::NotFound },
        PlaybackError::InsetOutOfRange { operation: Operation::SetSubtitleBottomInset },
        PlaybackError::EngineFailure { code: -22 },
    ];
    for error in errors {
        assert_clean("PlaybackError", &format!("{error:?}"));
        assert_clean("PlaybackError (Display)", &error.display_text());
    }
}

#[derive(Debug)]
#[allow(dead_code)]
struct DerivedMediaSource {
    locator: String,
}

#[derive(Debug)]
#[allow(dead_code)]
struct DerivedTrackDescriptor {
    id: u32,
    codec: String,
    title: Option<String>,
}

#[derive(Debug)]
#[allow(dead_code)]
enum LeakyPlaybackError {
    LoadFailed { locator: String },
    ExtractFailed { dialogue: String },
}

#[test]
fn a_derived_media_source_really_does_leak() {
    let twin = DerivedMediaSource { locator: MEDIA_URL.to_string() };
    let printed = format!("{twin:?}");
    assert_leaks("DerivedMediaSource", &printed, "SECRETTOKEN");
    assert_leaks("DerivedMediaSource", &printed, "cdn.example.com");
}

#[test]
fn a_derived_track_descriptor_really_does_leak() {
    let twin = DerivedTrackDescriptor { id: 0, codec: "subrip".to_string(), title: Some(PRIVATE_TITLE.to_string()) };
    assert_leaks("DerivedTrackDescriptor", &format!("{twin:?}"), "PRIVATEGROUP");
}

#[test]
fn an_error_holding_strings_really_does_leak() {
    assert_leaks(
        "LeakyPlaybackError",
        &format!("{:?}", LeakyPlaybackError::LoadFailed { locator: PRIVATE_PATH.to_string() }),
        "/Users/someone",
    );
    assert_leaks(
        "LeakyPlaybackError",
        &format!("{:?}", LeakyPlaybackError::ExtractFailed { dialogue: DIALOGUE.to_string() }),
        DIALOGUE,
    );
}

const PRIVATE_DIALOGUE: &str = "Bunu kimseye söyleme.";

#[test]
fn a_derived_renderer_really_does_leak() {
    #[derive(Debug)]
    #[allow(dead_code)]
    struct DerivedTwin {
        capabilities: String,
        last_drawn: Option<String>,
    }
    let twin = DerivedTwin {
        capabilities: RenderCapabilities::all().debug_text().to_string(),
        last_drawn: Some(PRIVATE_DIALOGUE.to_string()),
    };
    let printed = format!("{twin:?}");
    assert!(printed.contains(PRIVATE_DIALOGUE), "the control does not leak, so the guard above proves nothing: {printed}");
}

#[test]
fn no_render_error_variant_carries_private_data() {
    for error in [
        RenderError::Unavailable { operation: RenderOperation::Show },
        RenderError::NoMedia { operation: RenderOperation::Show },
        RenderError::ShutDown { operation: RenderOperation::Clear },
        RenderError::ReentrantCall { operation: RenderOperation::Show },
        RenderError::SurfaceFailure { operation: RenderOperation::Show, code: -42 },
    ] {
        let printed = format!("{error:?}");
        assert!(!printed.contains('/'), "a path could appear here: {printed}");
        assert!(!printed.contains(PRIVATE_DIALOGUE), "dialogue could appear here: {printed}");
    }
}

#[test]
fn track_descriptor_never_prints_its_title() {
    let track = TrackDescriptor::new(TrackId(0), TrackKind::Subtitle, "subrip").with_title(Some(PRIVATE_TITLE.to_string()));
    assert_clean("TrackDescriptor", &track.debug_text());
}

#[test]
fn track_descriptor_still_prints_what_is_safe() {
    let track = TrackDescriptor::new(TrackId(7), TrackKind::Subtitle, "subrip").with_title(Some(PRIVATE_TITLE.to_string()));
    let printed = track.debug_text();
    assert!(printed.contains("subrip"), "codec missing: {printed}");
    assert!(printed.contains('7'), "track id missing: {printed}");
    assert!(printed.contains("has_title: true"), "{printed}");
}
