use nen_core::filename_normalization::{FilenameNormalization, FilenameNormalizationError, FilenameNormalizationRequest, FilenameNormalizationResult};
use nen_core::http::{ByteRange, HttpError, HttpHeader, HttpRequest, HttpResponse};
use nen_core::identity::{IdentityLookup, IdentityLookupError, MediaHash, VerifiedMediaIdentity};
use nen_core::persistence::hex::{CacheKey, ContentAddress, ContentAddressError, ADDRESS_HEX_LEN};
use nen_core::subtitle_candidates::{check, FakeSubtitleCandidateSearch, SubtitleCandidate, SubtitleCandidateSearchQuery, SubtitleCandidateSearchRequest};
use nen_core::subtitle_download::{DownloadedSubtitle, SubtitleDownloadError, SubtitleDownloadRequest, MAX_DOWNLOAD_BYTES};

#[test]
fn request_debug_redacts_filename_stem() {
    let request = FilenameNormalizationRequest::new("Private Film.2024").expect("request");
    let printed = request.debug_text();
    assert!(!printed.contains("Private Film"));
    assert!(printed.contains("stem_len"));
}

#[test]
fn normalized_result_debug_redacts_title() {
    let normalized = FilenameNormalization::new("Private Film".into(), Some(2024), None, None).expect("result");
    let printed = normalized.debug_text();
    assert!(!printed.contains("Private Film"));
    assert!(!printed.contains("2024"));
    let result = FilenameNormalizationResult::Normalized(normalized);
    assert!(!result.debug_text().contains("Private Film"));
    assert!(!result.debug_text().contains("2024"));
}

#[test]
fn request_rejects_path_and_control_data() {
    assert!(matches!(
        FilenameNormalizationRequest::new("../Private Film"),
        Err(FilenameNormalizationError::InvalidRequest)
    ));
    assert!(matches!(
        FilenameNormalizationRequest::new("Private\nFilm"),
        Err(FilenameNormalizationError::InvalidRequest)
    ));
}

#[test]
fn a_stem_is_trimmed_and_bounded() {
    assert_eq!(FilenameNormalizationRequest::new("  Film 2024  ").expect("request").stem(), "Film 2024");
    assert!(FilenameNormalizationRequest::new(&"x".repeat(257)).is_err());
    assert!(FilenameNormalizationRequest::new(&"x".repeat(256)).is_ok());
    assert!(FilenameNormalizationRequest::new("a\\b").is_err());
}

#[test]
fn normalization_results_are_bounded() {
    assert!(FilenameNormalization::new("Film".into(), Some(1899), None, None).is_err());
    assert!(FilenameNormalization::new("Film".into(), Some(3000), None, None).is_err());
    assert!(FilenameNormalization::new("Film".into(), None, Some(100), None).is_err());
    assert!(FilenameNormalization::new("Film".into(), None, None, Some(1000)).is_err());
    let ok = FilenameNormalization::new("  Film  ".into(), Some(1900), Some(99), Some(999)).expect("valid");
    assert_eq!(ok.title, "Film");
    assert!(matches!(
        FilenameNormalization::new(" ".into(), None, None, None),
        Err(FilenameNormalizationError::InvalidResponse)
    ));
}

#[test]
fn request_debug_redacts_url_and_response_debug_redacts_headers() {
    let request = HttpRequest::head("https://private.example/stream.mkv?token=secret");
    let response = HttpResponse {
        status_code: 200,
        headers: vec![HttpHeader {
            name: "Content-Disposition".into(),
            value: "attachment; filename=private.mkv".into(),
        }],
        body: vec![1, 2, 3],
    };
    let request_debug = request.debug_text();
    let response_debug = response.debug_text();
    assert!(!request_debug.contains("private.example"));
    assert!(!request_debug.contains("secret"));
    assert!(!response_debug.contains("private.mkv"));
    assert!(response_debug.contains("body_length"));
}

#[test]
fn header_lookup_is_case_insensitive() {
    let response = HttpResponse {
        status_code: 200,
        headers: vec![HttpHeader { name: "cOnTeNt-LeNgTh".into(), value: "131072".into() }],
        body: Vec::new(),
    };
    assert_eq!(response.header("content-length"), Some("131072"));
}

#[test]
fn the_first_matching_header_wins_and_a_missing_one_is_none() {
    let response = HttpResponse {
        status_code: 200,
        headers: vec![
            HttpHeader { name: "Retry-After".into(), value: "3".into() },
            HttpHeader { name: "retry-after".into(), value: "9".into() },
        ],
        body: Vec::new(),
    };
    assert_eq!(response.header("RETRY-AFTER"), Some("3"));
    assert_eq!(response.header("Location"), None);
}

#[test]
fn debug_texts_have_the_exact_shape() {
    let request = HttpRequest::range("https://x.example/a", ByteRange::Inclusive { start: 0, end: 1023 });
    assert_eq!(
        request.debug_text(),
        "HttpRequest { method: Get, url: \"<redacted>\", range: Some(Inclusive { start: 0, end: 1023 }), header_count: 0, max_body_bytes: 65536, body_length: None, timeout_ms: None }"
    );
    assert_eq!(HttpError::ResponseTooLarge.display_text(), "response too large");
    assert_eq!(
        HttpHeader { name: "Api-Key".into(), value: "k".into() }.debug_text(),
        "HttpHeader { name: \"Api-Key\", value: \"<redacted>\" }"
    );
}

#[test]
fn identity_debug_and_errors_carry_no_provider_payload() {
    let identity = VerifiedMediaIdentity {
        title: "Private Filename.mkv".into(),
        year: Some(2020),
        season: None,
        episode: None,
    };
    assert!(!identity.debug_text().contains("Private Filename"));
    assert!(!IdentityLookup::Match(identity).debug_text().contains("Private Filename"));
    assert_eq!(IdentityLookupError::InvalidResponse.display_text(), "provider response was invalid");
    assert!(!format!("{:?}", IdentityLookupError::InvalidResponse).contains("Filename"));
}

#[test]
fn a_media_hash_is_never_shown() {
    let hash = MediaHash::from_bytes([0, 1, 2, 3, 4, 5, 6, 7]);
    assert_eq!(hash.as_bytes(), &[0, 1, 2, 3, 4, 5, 6, 7]);
    assert_eq!(hash.debug_text(), "MediaHash(<redacted>)");
    assert_eq!(hash.display_text(), "<redacted>");
}

#[test]
fn hex_covers_every_nibble() {
    let mut bytes = [0u8; 32];
    for (index, byte) in bytes.iter_mut().enumerate() {
        *byte = (index as u8) * 8;
    }
    let address = ContentAddress::from_bytes(bytes);
    assert!(ContentAddress::from_hex(&address.to_hex()) == Ok(address));
}

#[test]
fn hex_round_trips_for_both_kinds_of_digest() {
    let address = ContentAddress::from_bytes([0xab; 32]);
    let hex = address.to_hex();
    assert_eq!(hex.len(), 64);
    assert_eq!(&hex[..4], "abab");
    assert!(ContentAddress::from_hex(&hex) == Ok(address));
    let key = CacheKey::from_bytes([0x0f; 32]);
    assert!(CacheKey::from_hex(&key.to_hex()) == Ok(key));
}

#[test]
fn a_traversal_string_is_not_an_address() {
    for candidate in ["../../etc/passwd", "..", "/etc/passwd", "%2e%2e%2f", "..\\windows"] {
        assert!(ContentAddress::from_hex(candidate).is_err(), "traversal candidate parsed as an address: {candidate}");
    }
}

#[test]
fn only_exactly_64_lowercase_hex_characters_parse() {
    let valid = "0".repeat(64);
    assert!(ContentAddress::from_hex(&valid).is_ok());
    assert!(ContentAddress::from_hex(&"0".repeat(63)) == Err(ContentAddressError::Length));
    assert!(ContentAddress::from_hex(&"0".repeat(65)) == Err(ContentAddressError::Length));
    assert!(ContentAddress::from_hex("") == Err(ContentAddressError::Length));
    let uppercase = format!("{}A", "0".repeat(63));
    assert!(ContentAddress::from_hex(&uppercase) == Err(ContentAddressError::NotHex));
    let separator = format!("{}/", "0".repeat(63));
    assert!(ContentAddress::from_hex(&separator) == Err(ContentAddressError::NotHex));
    let multibyte = format!("{}é", "0".repeat(62));
    assert!(ContentAddress::from_hex(&multibyte).is_err());
}

#[test]
fn private_request_and_body_debug_are_redacted() {
    let request = SubtitleDownloadRequest::new(884_422);
    let body = DownloadedSubtitle::new(b"1\n00:00:00,000 --> 00:00:01,000\ntext".to_vec()).expect("small body");
    assert!(!request.debug_text().contains("884422"));
    assert!(!body.debug_text().contains("text"));
}

#[test]
fn body_constructor_enforces_the_download_budget() {
    assert!(DownloadedSubtitle::new(vec![b'x'; MAX_DOWNLOAD_BYTES + 1]) == Err(SubtitleDownloadError::ContentTooLarge));
    assert_eq!(DownloadedSubtitle::new(vec![b'x'; 3]).expect("within budget").bytes(), b"xxx");
}

#[test]
fn hex_round_trips() {
    let address = ContentAddress::from_bytes([0xab; 32]);
    let hex = address.to_hex();
    assert_eq!(hex.len(), ADDRESS_HEX_LEN);
    assert!(ContentAddress::from_hex(&hex) == Ok(address));
}

fn candidate(id: &str) -> SubtitleCandidate {
    SubtitleCandidate {
        public_id: id.into(),
        private_file_id: 7,
        language: "en".to_string(),
        release_name: Some("WEB-DL".into()),
        hearing_impaired: false,
        ai_translated: false,
    }
}

#[test]
fn subtitle_candidates_fake_passes_the_shared_contract() {
    let mut fake = FakeSubtitleCandidateSearch::new(Ok(vec![candidate("public")]));
    let request = SubtitleCandidateSearchRequest::new(SubtitleCandidateSearchQuery::by_hash(MediaHash::from_bytes([0; 8])));
    check(&mut fake, &request).expect("contract passes");
    assert_eq!(fake.calls(), 2);
}

#[test]
fn debug_hides_private_and_display_values() {
    let candidate = candidate("public-sentinel");
    let printed = candidate.debug_text();
    assert!(!printed.contains("public-sentinel"));
    assert!(!printed.contains("WEB-DL"));
    assert!(!printed.contains('7'));
}

#[test]
fn a_parsed_hex_string_spells_back_to_itself() {
    let text = "0123456789abcdef".repeat(4);
    let address = ContentAddress::from_hex(&text).unwrap();
    assert_eq!(address.to_hex(), text);
    let key = CacheKey::from_hex(&text).unwrap();
    assert_eq!(key.to_hex(), text);
}
