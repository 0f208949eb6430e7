use nen_core::persistence::contract::{
    cache_key_for, check, check_index, judge_index, judge_store, record, ContractViolation, IndexAnswers, StoreAnswers,
};
use nen_core::persistence::hex::{CacheKey, ContentAddress};
use nen_core::persistence::resume::{ResumeBlock, ResumeCue, ResumeRecord, ResumeStoreError};
use nen_core::persistence::store::{
    find_entry, latest_entry, ArtifactIndex, ArtifactIndexEntry, ArtifactRecord, ArtifactStore, ArtifactStoreError,
};
use std::cell::RefCell;
use std::collections::hash_map::DefaultHasher;
use std::hash::{Hash, Hasher};

/// A content address derived from the record's own content.
fn address_of(record: &ArtifactRecord) -> ContentAddress {
    let mut bytes = [0u8; 32];
    for (chunk, salt) in bytes.chunks_mut(8).zip(0u64..) {
        let mut hasher = DefaultHasher::new();
        salt.hash(&mut hasher);
        record.source_fingerprint.hash(&mut hasher);
        record.timeline_fingerprint.hash(&mut hasher);
        record.source_language.hash(&mut hasher);
        record.target_language.hash(&mut hasher);
        record.provider.provider().hash(&mut hasher);
        record.provider.model().hash(&mut hasher);
        record.pipeline_version.hash(&mut hasher);
        record.block_layout_version.hash(&mut hasher);
        record.glossary.hash(&mut hasher);
        record.created_at_unix_ms.hash(&mut hasher);
        for cue in &record.document.cues {
            (cue.id, cue.start_ms, cue.end_ms).hash(&mut hasher);
            cue.lines.hash(&mut hasher);
        }
        record.webvtt.hash(&mut hasher);
        record.cache_identity.as_bytes().hash(&mut hasher);
        chunk.copy_from_slice(&hasher.finish().to_le_bytes());
    }
    ContentAddress::from_bytes(bytes)
}

#[derive(Default)]
struct MemoryStore {
    records: RefCell<Vec<(ContentAddress, ArtifactRecord)>>,
}

impl ArtifactStore for MemoryStore {
    fn put(&self, record: &ArtifactRecord) -> Result<ContentAddress, ArtifactStoreError> {
        let address = address_of(record);
        let mut records = self.records.borrow_mut();
        if !records.iter().any(|(stored, _)| *stored == address) {
            records.push((address, record.clone()));
        }
        Ok(address)
    }

    fn get(&self, address: ContentAddress) -> Result<ArtifactRecord, ArtifactStoreError> {
        self.records
            .borrow()
            .iter()
            .find(|(stored, _)| *stored == address)
            .map(|(_, record)| record.clone())
            .ok_or(ArtifactStoreError::NotFound)
    }

    fn contains(&self, address: ContentAddress) -> Result<bool, ArtifactStoreError> {
        Ok(self.records.borrow().iter().any(|(stored, _)| *stored == address))
    }
}

impl ArtifactIndex for MemoryStore {
    fn entries(&self) -> Result<Vec<ArtifactIndexEntry>, ArtifactStoreError> {
        Ok(self
            .records
            .borrow()
            .iter()
            .map(|(address, record)| ArtifactIndexEntry {
                address: *address,
                cache_identity: record.cache_identity,
                source_fingerprint: record.source_fingerprint,
                target_language: record.target_language.clone(),
                created_at_unix_ms: record.created_at_unix_ms,
            })
            .collect())
    }
}

/// Answers every address as if it were stored.
struct AnswersEverything(MemoryStore);

impl ArtifactStore for AnswersEverything {
    fn put(&self, record: &ArtifactRecord) -> Result<ContentAddress, ArtifactStoreError> {
        self.0.put(record)
    }
    fn get(&self, _address: ContentAddress) -> Result<ArtifactRecord, ArtifactStoreError> {
        Ok(record("anything"))
    }
    fn contains(&self, _address: ContentAddress) -> Result<bool, ArtifactStoreError> {
        Ok(true)
    }
}

/// Puts everything at one address.
struct OneAddress(MemoryStore);

impl ArtifactStore for OneAddress {
    fn put(&self, record: &ArtifactRecord) -> Result<ContentAddress, ArtifactStoreError> {
        self.0.put(record)?;
        Ok(ContentAddress::from_bytes([9; 32]))
    }
    fn get(&self, address: ContentAddress) -> Result<ArtifactRecord, ArtifactStoreError> {
        if address == ContentAddress::from_bytes([9; 32]) {
            Ok(record("alpha"))
        } else {
            Err(ArtifactStoreError::NotFound)
        }
    }
    fn contains(&self, address: ContentAddress) -> Result<bool, ArtifactStoreError> {
        Ok(address == ContentAddress::from_bytes([9; 32]))
    }
}

/// An index that shows the oldest entry instead of the newest.
struct OldestFirst(MemoryStore);

impl ArtifactIndex for OldestFirst {
    fn entries(&self) -> Result<Vec<ArtifactIndexEntry>, ArtifactStoreError> {
        self.0.entries()
    }
    fn latest_for_target(
        &self,
        source_fingerprint: &[u8; 32],
        target_language: &str,
    ) -> Result<Option<ArtifactIndexEntry>, ArtifactStoreError> {
        Ok(self
            .entries()?
            .into_iter()
            .filter(|e| &e.source_fingerprint == source_fingerprint && e.target_language == target_language)
            .min_by_key(|e| e.created_at_unix_ms))
    }
}

#[test]
fn a_memory_store_passes_the_store_contract() {
    let store = MemoryStore::default();
    assert_eq!(check(&store), Ok(()));
}

#[test]
fn a_memory_store_passes_the_index_contract() {
    let store = MemoryStore::default();
    assert_eq!(check_index(&store, &store), Ok(()));
}

#[test]
fn a_store_that_answers_every_address_is_caught() {
    let store = AnswersEverything(MemoryStore::default());
    let violations = check(&store).expect_err("caught");
    assert_eq!(violations[0], ContractViolation::MissingNotFound);
    assert!(violations.contains(&ContractViolation::RoundTrip));
}

#[test]
fn a_store_that_puts_everything_at_one_address_is_caught() {
    let store = OneAddress(MemoryStore::default());
    assert_eq!(check(&store), Err(vec![ContractViolation::ContentSensitivity]));
}

#[test]
fn an_index_that_shows_the_oldest_entry_is_caught() {
    let store = MemoryStore::default();
    let index = OldestFirst(MemoryStore::default());
    let store_for_index = &index.0;
    assert_eq!(check_index(&index, store_for_index), Err(vec![ContractViolation::IndexProjection]));
    assert_eq!(check(&store), Ok(()));
}

#[test]
fn the_store_judge_reports_in_order_and_stops_at_a_refused_write() {
    let mut answers = StoreAnswers {
        absent_not_found: false,
        absent_not_contained: false,
        first_written: false,
        first_read_back: None,
        first_contained: false,
        rewrite_same_address: None,
        second_same_address: None,
        second_read_back: None,
    };
    assert_eq!(
        judge_store(&answers),
        Err(vec![ContractViolation::MissingNotFound, ContractViolation::MissingNotFound, ContractViolation::Unavailable])
    );
    answers.absent_not_found = true;
    answers.absent_not_contained = true;
    answers.first_written = true;
    answers.first_read_back = Some(true);
    answers.first_contained = true;
    answers.rewrite_same_address = Some(false);
    answers.second_same_address = Some(false);
    answers.second_read_back = Some(false);
    assert_eq!(
        judge_store(&answers),
        Err(vec![ContractViolation::AddressStability, ContractViolation::RoundTrip])
    );
    answers.rewrite_same_address = Some(true);
    answers.second_read_back = Some(true);
    assert_eq!(judge_store(&answers), Ok(()));
    assert_eq!(
        judge_index(&IndexAnswers { all_written: true, found_by_identity: false, newest_chosen: false }),
        Err(vec![ContractViolation::IndexMiss, ContractViolation::IndexProjection])
    );
    assert_eq!(
        judge_index(&IndexAnswers { all_written: false, found_by_identity: true, newest_chosen: true }),
        Err(vec![ContractViolation::Unavailable])
    );
}

fn entry(address: u8, key: u8, language: &str, created: u64) -> ArtifactIndexEntry {
    ArtifactIndexEntry {
        address: ContentAddress::from_bytes([address; 32]),
        cache_identity: CacheKey::from_bytes([key; 32]),
        source_fingerprint: [1; 32],
        target_language: language.to_string(),
        created_at_unix_ms: created,
    }
}

#[test]
fn the_newest_entry_for_a_target_wins_and_ties_go_to_the_greater_address() {
    let entries = vec![
        entry(3, 1, "tr", 10),
        entry(2, 2, "tr", 30),
        entry(9, 3, "en", 99),
        entry(5, 4, "tr", 30),
        entry(4, 5, "tr", 20),
    ];
    let latest = latest_entry(entries.clone(), &[1; 32], "tr").expect("a match");
    assert!(latest.address == ContentAddress::from_bytes([5; 32]));
    assert!(latest_entry(entries.clone(), &[2; 32], "tr").is_none());
    assert!(latest_entry(entries.clone(), &[1; 32], "de").is_none());
    let found = find_entry(entries.clone(), CacheKey::from_bytes([4; 32])).expect("found");
    assert!(found.address == ContentAddress::from_bytes([5; 32]));
    assert!(find_entry(entries, CacheKey::from_bytes([7; 32])).is_none());
}

#[test]
fn the_fixture_key_depends_on_the_marker() {
    assert!(cache_key_for("alpha") != cache_key_for("beta"));
    let empty = cache_key_for("");
    let expected: Vec<u8> = (0..32u8).collect();
    assert_eq!(empty.as_bytes().to_vec(), expected);
    let a = cache_key_for("a");
    assert_eq!(a.as_bytes()[0], b'a');
    assert_eq!(a.as_bytes()[1], b'a' ^ 1);
}

#[test]
fn the_fixture_record_is_what_the_kit_writes() {
    let alpha = record("alpha");
    assert_eq!(alpha.document.cues.len(), 3);
    assert_eq!(alpha.document.cues[2].lines, vec!["line 2 alpha".to_string()]);
    assert_eq!(alpha.document.cues[2].start_ms, 2_000);
    assert_eq!(alpha.webvtt, "WEBVTT\n\n1\n00:00:00.000 --> 00:00:00.900\nalpha\n");
    assert!(alpha.same_as(&record("alpha")));
    assert!(!alpha.same_as(&record("beta")));
    let printed = alpha.debug_text();
    assert!(!printed.contains("alpha"), "dialogue leaked: {printed}");
    assert!(printed.contains("cue_count: 3"), "{printed}");
}

const CACHE_KEY_BYTES: [u8; 32] = [0x5a; 32];
const SOURCE_FINGERPRINT_BYTES: [u8; 32] = [0x6b; 32];
const ADDRESS_BYTES: [u8; 32] = [0x7c; 32];

#[test]
fn no_cache_key_debug_or_display_output_leaks_its_own_hex() {
    let key = CacheKey::from_bytes(CACHE_KEY_BYTES);
    let hex = key.to_hex();
    assert_eq!(hex.len(), 64);
    assert!(hex.starts_with("5a5a"));
    let debug = key.debug_text();
    let display = key.display_text();
    assert!(!debug.contains(&hex) && !debug.contains("5a5a"), "CacheKey debug leaked its own hex — {debug}");
    assert!(!display.contains(&hex) && !display.contains("5a5a"), "CacheKey display leaked its own hex — {display}");
}

fn entry_with_sentinel() -> ArtifactIndexEntry {
    ArtifactIndexEntry {
        address: ContentAddress::from_bytes(ADDRESS_BYTES),
        cache_identity: CacheKey::from_bytes(CACHE_KEY_BYTES),
        source_fingerprint: SOURCE_FINGERPRINT_BYTES,
        target_language: "tr".to_string(),
        created_at_unix_ms: 1_700_000_000_000,
    }
}

#[test]
fn no_index_entry_debug_output_leaks_a_hash_or_fingerprint() {
    let entry = entry_with_sentinel();
    let debug = entry.debug_text();
    assert!(
        !debug.contains("5a5a") && !debug.contains("6b6b") && !debug.contains("7c7c"),
        "ArtifactIndexEntry debug leaked a hash or fingerprint — {debug}"
    );
    assert!(debug.contains("tr"), "unrelated fields must still print — {debug}");
}

#[test]
fn a_derived_debug_really_would_leak_the_index_entrys_hashes() {
    #[derive(Debug)]
    #[allow(dead_code)]
    struct DerivedTwin {
        address: [u8; 32],
        cache_identity: [u8; 32],
        source_fingerprint: [u8; 32],
    }
    let entry = entry_with_sentinel();
    let twin = DerivedTwin {
        address: *entry.address.as_bytes(),
        cache_identity: *entry.cache_identity.as_bytes(),
        source_fingerprint: entry.source_fingerprint,
    };
    let debug = format!("{twin:?}");
    assert!(debug.contains("124, 124"));
    assert!(debug.contains("90, 90"));
    assert!(debug.contains("107, 107"));
}

#[test]
fn resume_values_print_their_shape_only() {
    let cue = ResumeCue { cue_id: 4, text: "Gizli söz".to_string() };
    assert_eq!(cue.debug_text(), "ResumeCue { cue_id: 4, text_len: 9 }");
    let block = ResumeBlock { block_index: 2, cues: vec![cue.clone(), cue] };
    assert_eq!(block.debug_text(), "ResumeBlock { block_index: 2, cue_count: 2 }");
    let record = ResumeRecord { cache_key: CacheKey::from_bytes([0x5a; 32]), total_blocks: 7, blocks: vec![block] };
    assert_eq!(record.debug_text(), "ResumeRecord { cache_key: CacheKey(<redacted>), total_blocks: 7, checkpointed_blocks: 1 }");
    assert_eq!(ResumeStoreError::TooLarge.display_text(), "the stored resume record is larger than the read bound");
}
