//! The shared contract kit for every artifact store adapter: content
//! round-trips, the same content always lands at the same address, different
//! content does not, an address nothing was written to reads as missing, and
//! an index finds a record by its own cache identity and shows the newest of
//! several for one target.
use crate::persistence::hex::{CacheKey, ContentAddress};
use crate::persistence::store::{same_bytes, ArtifactIndex, ArtifactRecord, ArtifactStore, ArtifactStoreError};
use crate::subtitle::{Cue, SubtitleDocument};
use crate::text::{decimal, decimal_text, lemma_trimmed_empty};
use crate::translation::TranslationProviderIdentity;
use vstd::prelude::*;
use vstd::string::StringSliceAdditionalSpecFns;

verus! {

/// A violation of the artifact-store contract.
#[derive(Debug, Clone, Copy, PartialEq, Eq, Structural)]
pub enum ContractViolation {
    /// A stored artifact did not read back exactly as it was written.
    RoundTrip,
    /// Writing the same content twice produced two different addresses.
    AddressStability,
    /// Two different records landed at the same address.
    ContentSensitivity,
    /// An address nothing was written to did not read as missing.
    MissingNotFound,
    /// The store refused an operation the contract requires it to accept.
    Unavailable,
    /// A stored artifact's own cache identity did not find it in the index.
    IndexMiss,
    /// The index did not choose the newest matching entry.
    IndexProjection,
}

/// The kit's fixture cache identity: deterministic in the marker's bytes,
/// distinct for distinct markers, and no real digest.
pub open spec fn fixture_key(marker: Seq<u8>) -> Seq<u8> {
    Seq::new(
        32,
        |i: int|
            (if marker.len() == 0 {
                0u8
            } else {
                marker[i % (marker.len() as int)]
            }) ^ (i as u8),
    )
}

/// The fixture cache identity for a marker.
pub fn cache_key_for(marker: &str) -> (key: CacheKey)
    ensures
        key@ == fixture_key(marker.spec_bytes()),
{
    let marker_bytes = marker.as_bytes();
    let mut bytes = [0u8; 32];
    let mut i: usize = 0;
    while i < 32
        invariant
            i <= 32,
            marker_bytes@ == marker.spec_bytes(),
            forall|k: int| 0 <= k < i ==> #[trigger] bytes@[k] == fixture_key(marker.spec_bytes())[k],
        decreases 32 - i,
    {
        let source: u8 = if marker_bytes.len() == 0 {
            0
        } else {
            marker_bytes[i % marker_bytes.len()]
        };
        bytes[i] = source ^ (i as u8);
        i = i + 1;
    }
    assert(bytes@ =~= fixture_key(marker.spec_bytes()));
    CacheKey::from_bytes(bytes)
}

/// The text of the fixture's `index`-th line: `line`, the index and the
/// marker, separated by spaces.
pub open spec fn fixture_line(index: u32, marker: Seq<char>) -> Seq<char> {
    "line "@ + decimal(index as nat) + " "@ + marker
}

/// The fixture's WebVTT: one cue holding the marker.
pub open spec fn fixture_webvtt(marker: Seq<char>) -> Seq<char> {
    "WEBVTT\n\n1\n00:00:00.000 --> 00:00:00.900\n"@ + marker + "\n"@
}

fn line_for(index: u32, marker: &str) -> (line: String)
    ensures
        line@ == fixture_line(index, marker@),
{
    proof {
        reveal_strlit("line ");
        reveal_strlit(" ");
    }
    let mut line = String::from_str("line ");
    line.append(decimal_text(index as u64).as_str());
    line.append(" ");
    line.append(marker);
    line
}

fn fixture_identity() -> (identity: TranslationProviderIdentity)
    ensures
        identity@ == ("contract"@, "kit"@),
{
    proof {
        reveal_strlit("contract");
        reveal_strlit("kit");
        lemma_trimmed_empty("contract"@);
        lemma_trimmed_empty("kit"@);
        assert(!crate::text::is_white_space("contract"@[0]));
        assert(!crate::text::is_white_space("kit"@[0]));
    }
    match TranslationProviderIdentity::new("contract", "kit") {
        Ok(identity) => identity,
        Err(_) => {
            assert(false);
            TranslationProviderIdentity::new("contract", "kit").unwrap()
        },
    }
}

/// The kit's fixture record. `marker` varies the translated text and the
/// cache identity, so two markers make two genuinely different artifacts.
pub fn record(marker: &str) -> (record: ArtifactRecord)
    ensures
        record@.source_fingerprint == Seq::new(32, |i: int| 1u8),
        record@.timeline_fingerprint == Seq::new(32, |i: int| 2u8),
        record@.source_language == "en"@,
        record@.target_language == "tr"@,
        record@.provider == ("contract"@, "kit"@),
        record@.pipeline_version == 1,
        record@.block_layout_version == 1,
        record@.glossary is None,
        record@.media_hash is None,
        record@.created_at_unix_ms == 1700000000000,
        record@.document.len() == 3,
        forall|k: int|
            0 <= k < 3 ==> (#[trigger] record@.document[k]).id == k + 1 && record@.document[k].start_ms == k
                * 1000 && record@.document[k].end_ms == k * 1000 + 900 && record@.document[k].lines == seq![
                fixture_line(k as u32, marker@),
            ],
        record@.webvtt == fixture_webvtt(marker@),
        record@.cache_identity == fixture_key(marker.spec_bytes()),
{
    let mut cues: Vec<Cue> = Vec::new();
    let mut index: u32 = 0;
    while index < 3
        invariant
            index <= 3,
            cues@.len() == index,
            forall|k: int|
                0 <= k < index ==> (#[trigger] cues@[k])@.id == k + 1 && cues@[k]@.start_ms == k * 1000
                    && cues@[k]@.end_ms == k * 1000 + 900 && cues@[k]@.lines == seq![
                    fixture_line(k as u32, marker@),
                ],
        decreases 3 - index,
    {
        let start = index * 1000;
        let lines = vec![line_for(index, marker)];
        assert(lines@.map_values(|l: String| l@) =~= seq![fixture_line(index, marker@)]);
        cues.push(Cue::new(index + 1, start, start + 900, lines));
        index = index + 1;
    }
    let document = SubtitleDocument::new(cues);
    proof {
        reveal_strlit("WEBVTT\n\n1\n00:00:00.000 --> 00:00:00.900\n");
        reveal_strlit("\n");
        reveal_strlit("en");
        reveal_strlit("tr");
    }
    let mut webvtt = String::from_str("WEBVTT\n\n1\n00:00:00.000 --> 00:00:00.900\n");
    webvtt.append(marker);
    webvtt.append("\n");
    let record = ArtifactRecord {
        source_fingerprint: [1u8; 32],
        timeline_fingerprint: [2u8; 32],
        source_language: String::from_str("en"),
        target_language: String::from_str("tr"),
        provider: fixture_identity(),
        pipeline_version: 1,
        block_layout_version: 1,
        glossary: None,
        media_hash: None,
        created_at_unix_ms: 1700000000000,
        cache_identity: cache_key_for(marker),
        document,
        webvtt,
    };
    assert(record@.source_fingerprint =~= Seq::new(32, |i: int| 1u8));
    assert(record@.timeline_fingerprint =~= Seq::new(32, |i: int| 2u8));
    record
}

/// The fixture record with its target language and creation time replaced.
pub fn indexed_record(marker: &str, target_language: &str, created_at_unix_ms: u64) -> (record: ArtifactRecord)
    ensures
        record@.target_language == target_language@,
        record@.created_at_unix_ms == created_at_unix_ms,
        record@.cache_identity == fixture_key(marker.spec_bytes()),
        record@.source_fingerprint == Seq::new(32, |i: int| 1u8),
{
    let mut record = record(marker);
    record.target_language = String::from_str(target_language);
    record.created_at_unix_ms = created_at_unix_ms;
    record
}

/// What a store answered to the contract's calls, as plain values.
pub struct StoreAnswers {
    /// Reading an address nothing was written to refused with `NotFound`.
    pub absent_not_found: bool,
    /// Asking for that address answered `Ok(false)`.
    pub absent_not_contained: bool,
    /// The first record was written; every later answer is read only then.
    pub first_written: bool,
    /// Reading it back: refused (`None`), or whether it matched.
    pub first_read_back: Option<bool>,
    /// Asking for its address answered `Ok(true)`.
    pub first_contained: bool,
    /// Writing it again: refused (`None`), or whether the address was the same.
    pub rewrite_same_address: Option<bool>,
    /// Writing a different record: refused (`None`), or whether it landed at
    /// the first record's address.
    pub second_same_address: Option<bool>,
    /// Reading the different record back, when it landed elsewhere: refused
    /// (`None`), or whether it matched.
    pub second_read_back: Option<bool>,
}

/// The violations a store's answers show, in the order the kit finds them.
pub open spec fn store_violations(a: StoreAnswers) -> Seq<ContractViolation> {
    let missing = if a.absent_not_found {
        Seq::empty()
    } else {
        seq![ContractViolation::MissingNotFound]
    };
    let missing = if a.absent_not_contained {
        missing
    } else {
        missing.push(ContractViolation::MissingNotFound)
    };
    if !a.first_written {
        missing.push(ContractViolation::Unavailable)
    } else {
        let read = match a.first_read_back {
            Some(true) => missing,
            Some(false) => missing.push(ContractViolation::RoundTrip),
            None => missing.push(ContractViolation::Unavailable),
        };
        let contained = if a.first_contained {
            read
        } else {
            read.push(ContractViolation::RoundTrip)
        };
        let rewrite = match a.rewrite_same_address {
            Some(true) => contained,
            Some(false) => contained.push(ContractViolation::AddressStability),
            None => contained.push(ContractViolation::Unavailable),
        };
        match a.second_same_address {
            Some(true) => rewrite.push(ContractViolation::ContentSensitivity),
            Some(false) => match a.second_read_back {
                Some(true) => rewrite,
                Some(false) => rewrite.push(ContractViolation::RoundTrip),
                None => rewrite.push(ContractViolation::Unavailable),
            },
            None => rewrite.push(ContractViolation::Unavailable),
        }
    }
}

/// The contract's verdict on a list of violations: success exactly when
/// there are none.
pub open spec fn verdict_of(result: Result<(), Vec<ContractViolation>>, violations: Seq<ContractViolation>) -> bool {
    match result {
        Ok(()) => violations.len() == 0,
        Err(v) => v@ == violations && violations.len() > 0,
    }
}

/// Judges a store's answers.
pub fn judge_store(a: &StoreAnswers) -> (result: Result<(), Vec<ContractViolation>>)
    ensures
        verdict_of(result, store_violations(*a)),
{
    let mut violations: Vec<ContractViolation> = Vec::new();
    if !a.absent_not_found {
        violations.push(ContractViolation::MissingNotFound);
    }
    if !a.absent_not_contained {
        violations.push(ContractViolation::MissingNotFound);
    }
    if !a.first_written {
        violations.push(ContractViolation::Unavailable);
        return Err(violations);
    }
    match a.first_read_back {
        Some(true) => {},
        Some(false) => violations.push(ContractViolation::RoundTrip),
        None => violations.push(ContractViolation::Unavailable),
    }
    if !a.first_contained {
        violations.push(ContractViolation::RoundTrip);
    }
    match a.rewrite_same_address {
        Some(true) => {},
        Some(false) => violations.push(ContractViolation::AddressStability),
        None => violations.push(ContractViolation::Unavailable),
    }
    match a.second_same_address {
        Some(true) => violations.push(ContractViolation::ContentSensitivity),
        Some(false) => match a.second_read_back {
            Some(true) => {},
            Some(false) => violations.push(ContractViolation::RoundTrip),
            None => violations.push(ContractViolation::Unavailable),
        },
        None => violations.push(ContractViolation::Unavailable),
    }
    if violations.len() == 0 {
        Ok(())
    } else {
        Err(violations)
    }
}

fn same_address(a: ContentAddress, b: ContentAddress) -> (same: bool)
    ensures
        same == (a@ == b@),
{
    same_bytes(a.as_bytes(), b.as_bytes())
}

/// Runs the store contract: the missing address first, so a store that
/// answers every address the same way is caught before its own writes can
/// mask it; then a round trip, a rewrite and a different record.
pub fn check<S: ArtifactStore>(store: &S) -> (result: Result<(), Vec<ContractViolation>>)
    ensures
        exists|a: StoreAnswers| verdict_of(result, store_violations(a)),
{
    let absent = ContentAddress::from_bytes([0u8; 32]);
    let absent_not_found = match store.get(absent) {
        Err(ArtifactStoreError::NotFound) => true,
        _ => false,
    };
    let absent_not_contained = match store.contains(absent) {
        Ok(false) => true,
        _ => false,
    };
    let first = record("alpha");
    let mut answers = StoreAnswers {
        absent_not_found,
        absent_not_contained,
        first_written: false,
        first_read_back: None,
        first_contained: false,
        rewrite_same_address: None,
        second_same_address: None,
        second_read_back: None,
    };
    let address = match store.put(&first) {
        Ok(address) => address,
        Err(_) => return judge_store(&answers),
    };
    answers.first_written = true;
    answers.first_read_back = match store.get(address) {
        Ok(read_back) => Some(read_back.same_as(&first)),
        Err(_) => None,
    };
    answers.first_contained = match store.contains(address) {
        Ok(true) => true,
        _ => false,
    };
    answers.rewrite_same_address = match store.put(&first) {
        Ok(again) => Some(same_address(again, address)),
        Err(_) => None,
    };
    let second = record("beta");
    match store.put(&second) {
        Ok(other) => {
            let same = same_address(other, address);
            answers.second_same_address = Some(same);
            if !same {
                answers.second_read_back = match store.get(other) {
                    Ok(read_back) => Some(read_back.same_as(&second)),
                    Err(_) => None,
                };
            }
        },
        Err(_) => {},
    }
    judge_store(&answers)
}

/// What an index and its store answered to the index contract.
pub struct IndexAnswers {
    /// All three fixture records were written.
    pub all_written: bool,
    /// Looking up the earlier record's cache identity found the entry at its
    /// address.
    pub found_by_identity: bool,
    /// The projection for the shared fingerprint and language chose the
    /// later record's address.
    pub newest_chosen: bool,
}

/// The violations an index's answers show.
pub open spec fn index_violations(a: IndexAnswers) -> Seq<ContractViolation> {
    if !a.all_written {
        seq![ContractViolation::Unavailable]
    } else {
        let found = if a.found_by_identity {
            Seq::empty()
        } else {
            seq![ContractViolation::IndexMiss]
        };
        if a.newest_chosen {
            found
        } else {
            found.push(ContractViolation::IndexProjection)
        }
    }
}

/// Judges an index's answers.
pub fn judge_index(a: &IndexAnswers) -> (result: Result<(), Vec<ContractViolation>>)
    ensures
        verdict_of(result, index_violations(*a)),
{
    let mut violations: Vec<ContractViolation> = Vec::new();
    if !a.all_written {
        violations.push(ContractViolation::Unavailable);
        return Err(violations);
    }
    if !a.found_by_identity {
        violations.push(ContractViolation::IndexMiss);
    }
    if !a.newest_chosen {
        violations.push(ContractViolation::IndexProjection);
    }
    if violations.len() == 0 {
        Ok(())
    } else {
        Err(violations)
    }
}

/// Runs the index contract against an index and the store it derives from:
/// two records for one target a hundred seconds apart and one for another
/// target; the earlier is found by its cache identity, and the later is the
/// one the projection shows.
pub fn check_index<I: ArtifactIndex, S: ArtifactStore>(index: &I, store: &S) -> (result: Result<
    (),
    Vec<ContractViolation>,
>)
    ensures
        exists|a: IndexAnswers| verdict_of(result, index_violations(a)),
{
    let earlier = indexed_record("alpha", "tr", 1700000000000);
    let later = indexed_record("beta", "tr", 1700000100000);
    let other_language = indexed_record("gamma", "en", 1700000200000);
    let earlier_key = earlier.cache_identity;
    let source_fingerprint = earlier.source_fingerprint;
    let mut answers = IndexAnswers { all_written: false, found_by_identity: false, newest_chosen: false };
    let earlier_address = match store.put(&earlier) {
        Ok(address) => address,
        Err(_) => return judge_index(&answers),
    };
    let later_address = match store.put(&later) {
        Ok(address) => address,
        Err(_) => return judge_index(&answers),
    };
    match store.put(&other_language) {
        Ok(_) => {},
        Err(_) => return judge_index(&answers),
    }
    answers.all_written = true;
    answers.found_by_identity = match index.find(earlier_key) {
        Ok(Some(entry)) => same_address(entry.address, earlier_address),
        _ => false,
    };
    answers.newest_chosen = match index.latest_for_target(&source_fingerprint, earlier.target_language.as_str()) {
        Ok(Some(entry)) => same_address(entry.address, later_address),
        _ => false,
    };
    judge_index(&answers)
}

} // verus!
