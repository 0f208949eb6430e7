//! The artifact store port: what a stored translation artifact holds, the
//! store and index traits an adapter implements, and the payload-free
//! errors they answer with.
use crate::identity::MediaHash;
use crate::persistence::hex::{CacheKey, ContentAddress};
use crate::subtitle::{CueView, SubtitleDocument};
use crate::text::{decimal, decimal_text, same_text};
use crate::translation::TranslationProviderIdentity;
use vstd::prelude::*;
use vstd::utf8::encode_utf8;

verus! {

/// The largest artifact the store accepts or reads.
pub const MAX_ARTIFACT_BYTES: usize = 16777216;

/// Why the artifact store refused an operation. No variant carries a path or
/// an artifact.
#[derive(Debug, Clone, Copy, PartialEq, Eq, Structural)]
pub enum ArtifactStoreError {
    NotFound,
    Io,
    Corrupt,
    OutsideRoot,
    TooLarge,
}

impl ArtifactStoreError {
    /// The human-readable text of the error.
    pub fn display_text(self) -> (text: &'static str)
        ensures
            text@ == (match self {
                ArtifactStoreError::NotFound => "no artifact is stored at that address"@,
                ArtifactStoreError::Io => "the artifact store could not complete a filesystem operation"@,
                ArtifactStoreError::Corrupt => "the stored artifact is not well-formed"@,
                ArtifactStoreError::OutsideRoot => "the address resolves outside the store root"@,
                ArtifactStoreError::TooLarge => "the stored artifact is larger than the read bound"@,
            }),
    {
        match self {
            ArtifactStoreError::NotFound => "no artifact is stored at that address",
            ArtifactStoreError::Io => "the artifact store could not complete a filesystem operation",
            ArtifactStoreError::Corrupt => "the stored artifact is not well-formed",
            ArtifactStoreError::OutsideRoot => "the address resolves outside the store root",
            ArtifactStoreError::TooLarge => "the stored artifact is larger than the read bound",
        }
    }
}


/// One stored artifact: its fingerprints, languages, provider, versions,
/// the translated document, its WebVTT and its own cache identity.
#[derive(Clone, PartialEq, Eq)]
pub struct ArtifactRecord {
    pub source_fingerprint: [u8; 32],
    pub timeline_fingerprint: [u8; 32],
    pub source_language: String,
    pub target_language: String,
    pub provider: TranslationProviderIdentity,
    pub pipeline_version: u32,
    pub block_layout_version: u32,
    /// `None` when no glossary was used.
    pub glossary: Option<String>,
    pub media_hash: Option<MediaHash>,
    pub created_at_unix_ms: u64,
    /// The translated document: source cue ids and timings, translated text.
    pub document: SubtitleDocument,
    pub webvtt: String,
    pub cache_identity: CacheKey,
}

/// The model of a record: every field as a plain value.
pub struct RecordView {
    pub source_fingerprint: Seq<u8>,
    pub timeline_fingerprint: Seq<u8>,
    pub source_language: Seq<char>,
    pub target_language: Seq<char>,
    pub provider: (Seq<char>, Seq<char>),
    pub pipeline_version: u32,
    pub block_layout_version: u32,
    pub glossary: Option<Seq<char>>,
    pub media_hash: Option<Seq<u8>>,
    pub created_at_unix_ms: u64,
    pub document: Seq<CueView>,
    pub webvtt: Seq<char>,
    pub cache_identity: Seq<u8>,
}

impl View for ArtifactRecord {
    type V = RecordView;

    open spec fn view(&self) -> RecordView {
        RecordView {
            source_fingerprint: self.source_fingerprint@,
            timeline_fingerprint: self.timeline_fingerprint@,
            source_language: self.source_language@,
            target_language: self.target_language@,
            provider: self.provider@,
            pipeline_version: self.pipeline_version,
            block_layout_version: self.block_layout_version,
            glossary: match self.glossary {
                Some(g) => Some(g@),
                None => None,
            },
            media_hash: match self.media_hash {
                Some(h) => Some(h@),
                None => None,
            },
            created_at_unix_ms: self.created_at_unix_ms,
            document: self.document@,
            webvtt: self.webvtt@,
            cache_identity: self.cache_identity@,
        }
    }
}

/// Whether two byte arrays hold the same bytes.
pub fn same_bytes(a: &[u8], b: &[u8]) -> (same: bool)
    ensures
        same == (a@ == b@),
{
    if a.len() != b.len() {
        return false;
    }
    let mut i: usize = 0;
    while i < a.len()
        invariant
            i <= a@.len(),
            a@.len() == b@.len(),
            forall|k: int| 0 <= k < i ==> a@[k] == b@[k],
        decreases a@.len() - i,
    {
        if a[i] != b[i] {
            return false;
        }
        i = i + 1;
    }
    assert(a@ =~= b@);
    true
}

fn same_optional_text(a: &Option<String>, b: &Option<String>) -> (same: bool)
    ensures
        same == (match (a, b) {
            (Some(x), Some(y)) => x@ == y@,
            (None, None) => true,
            _ => false,
        }),
{
    match (a, b) {
        (Some(x), Some(y)) => same_text(x.as_str(), y.as_str()),
        (None, None) => true,
        _ => false,
    }
}

fn same_lines(a: &Vec<String>, b: &Vec<String>) -> (same: bool)
    ensures
        same == (a@.map_values(|l: String| l@) == b@.map_values(|l: String| l@)),
{
    let ghost va = a@.map_values(|l: String| l@);
    let ghost vb = b@.map_values(|l: String| l@);
    if a.len() != b.len() {
        assert(va.len() != vb.len());
        return false;
    }
    let mut i: usize = 0;
    while i < a.len()
        invariant
            i <= a@.len(),
            a@.len() == b@.len(),
            va == a@.map_values(|l: String| l@),
            vb == b@.map_values(|l: String| l@),
            forall|k: int| 0 <= k < i ==> va[k] == vb[k],
        decreases a@.len() - i,
    {
        if !same_text(a[i].as_str(), b[i].as_str()) {
            assert(va[i as int] != vb[i as int]);
            return false;
        }
        i = i + 1;
    }
    assert(va =~= vb);
    true
}

/// Whether two documents hold the same cues.
pub fn same_document(a: &SubtitleDocument, b: &SubtitleDocument) -> (same: bool)
    ensures
        same == (a@ == b@),
{
    if a.cues.len() != b.cues.len() {
        assert(a@.len() != b@.len());
        return false;
    }
    let mut i: usize = 0;
    while i < a.cues.len()
        invariant
            i <= a.cues@.len(),
            a.cues@.len() == b.cues@.len(),
            forall|k: int| 0 <= k < i ==> a@[k] == b@[k],
        decreases a.cues@.len() - i,
    {
        let x = &a.cues[i];
        let y = &b.cues[i];
        if x.id != y.id || x.start_ms != y.start_ms || x.end_ms != y.end_ms || !same_lines(&x.lines, &y.lines) {
            assert(a@[i as int] != b@[i as int]);
            return false;
        }
        assert(a@[i as int] == b@[i as int]);
        i = i + 1;
    }
    assert(a@ =~= b@);
    true
}

impl ArtifactRecord {
    /// Whether two records hold the same values, field by field.
    pub fn same_as(&self, other: &ArtifactRecord) -> (same: bool)
        ensures
            same == (self@ == other@),
    {
        let media_same = match (&self.media_hash, &other.media_hash) {
            (Some(x), Some(y)) => same_bytes(x.as_bytes(), y.as_bytes()),
            (None, None) => true,
            _ => false,
        };
        same_bytes(&self.source_fingerprint, &other.source_fingerprint) && same_bytes(
            &self.timeline_fingerprint,
            &other.timeline_fingerprint,
        ) && same_text(self.source_language.as_str(), other.source_language.as_str()) && same_text(
            self.target_language.as_str(),
            other.target_language.as_str(),
        ) && same_text(self.provider.provider(), other.provider.provider()) && same_text(
            self.provider.model(),
            other.provider.model(),
        ) && self.pipeline_version == other.pipeline_version && self.block_layout_version
            == other.block_layout_version && same_optional_text(&self.glossary, &other.glossary) && media_same
            && self.created_at_unix_ms == other.created_at_unix_ms && same_document(
            &self.document,
            &other.document,
        ) && same_text(self.webvtt.as_str(), other.webvtt.as_str()) && same_bytes(
            self.cache_identity.as_bytes(),
            other.cache_identity.as_bytes(),
        )
    }
}

impl ArtifactRecord {
    /// Diagnostic text: the shape only. No fingerprint, no dialogue, no
    /// WebVTT; the document and the WebVTT appear as their sizes.
    pub fn debug_text(&self) -> (text: String)
        ensures
            text@ == "ArtifactRecord { source_fingerprint: \"<redacted>\", timeline_fingerprint: \"<redacted>\", source_language: \""@
                + self@.source_language + "\", target_language: \""@ + self@.target_language + "\", provider: "@
                + "TranslationProviderIdentity { provider_len: "@ + decimal(self@.provider.0.len())
                + ", model_len: "@ + decimal(self@.provider.1.len()) + " }"@ + ", pipeline_version: "@ + decimal(
                self@.pipeline_version as nat,
            ) + ", block_layout_version: "@ + decimal(self@.block_layout_version as nat) + ", glossary: "@ + (if self@.glossary is Some {
                "true"@
            } else {
                "false"@
            }) + ", media_hash: "@ + (if self@.media_hash is Some {
                "Some(MediaHash(<redacted>))"@
            } else {
                "None"@
            }) + ", created_at_unix_ms: "@ + decimal(self@.created_at_unix_ms as nat) + ", cue_count: "@ + decimal(
                self@.document.len(),
            ) + ", webvtt_len: "@ + decimal(encode_utf8(self@.webvtt).len() as usize as nat)
                + ", cache_identity: CacheKey(<redacted>) }"@,
    {
        let mut text = String::from_str(
            "ArtifactRecord { source_fingerprint: \"<redacted>\", timeline_fingerprint: \"<redacted>\", source_language: \"",
        );
        text.append(self.source_language.as_str());
        text.append("\", target_language: \"");
        text.append(self.target_language.as_str());
        text.append("\", provider: ");
        let provider = self.provider.debug_text();
        text.append(provider.as_str());
        text.append(", pipeline_version: ");
        text.append(decimal_text(self.pipeline_version as u64).as_str());
        text.append(", block_layout_version: ");
        text.append(decimal_text(self.block_layout_version as u64).as_str());
        text.append(", glossary: ");
        text.append(if self.glossary.is_some() { "true" } else { "false" });
        text.append(", media_hash: ");
        text.append(if self.media_hash.is_some() { "Some(MediaHash(<redacted>))" } else { "None" });
        text.append(", created_at_unix_ms: ");
        text.append(decimal_text(self.created_at_unix_ms).as_str());
        text.append(", cue_count: ");
        text.append(decimal_text(self.document.len() as u64).as_str());
        text.append(", webvtt_len: ");
        text.append(decimal_text(self.webvtt.as_str().len() as u64).as_str());
        text.append(", cache_identity: CacheKey(<redacted>) }");
        proof {
            reveal_strlit("TranslationProviderIdentity { provider_len: ");
        }
        text
    }
}

/// A content-addressed store for validated translation artifacts.
///
/// `put` must be atomic: no reader ever sees a partly written artifact.
/// Writing the same content twice keeps one copy and returns the same
/// address both times.
pub trait ArtifactStore {
    /// Writes `record` and returns the address its content hashes to.
    fn put(&self, record: &ArtifactRecord) -> Result<ContentAddress, ArtifactStoreError>;

    /// Reads back the artifact stored at `address`.
    fn get(&self, address: ContentAddress) -> Result<ArtifactRecord, ArtifactStoreError>;

    /// Whether an artifact is stored at `address`.
    fn contains(&self, address: ContentAddress) -> Result<bool, ArtifactStoreError>;
}

/// One artifact as an index scan sees it: the small subset of a record a
/// lookup needs.
#[derive(Clone, PartialEq, Eq)]
pub struct ArtifactIndexEntry {
    pub address: ContentAddress,
    pub cache_identity: CacheKey,
    pub source_fingerprint: [u8; 32],
    pub target_language: String,
    pub created_at_unix_ms: u64,
}

/// The model of an index entry.
pub struct EntryView {
    pub address: Seq<u8>,
    pub cache_identity: Seq<u8>,
    pub source_fingerprint: Seq<u8>,
    pub target_language: Seq<char>,
    pub created_at_unix_ms: u64,
}

impl View for ArtifactIndexEntry {
    type V = EntryView;

    open spec fn view(&self) -> EntryView {
        EntryView {
            address: self.address@,
            cache_identity: self.cache_identity@,
            source_fingerprint: self.source_fingerprint@,
            target_language: self.target_language@,
            created_at_unix_ms: self.created_at_unix_ms,
        }
    }
}

impl ArtifactIndexEntry {
    /// A copy of the entry.
    pub fn copy(&self) -> (copy: ArtifactIndexEntry)
        ensures
            copy@ == self@,
    {
        ArtifactIndexEntry {
            address: self.address,
            cache_identity: self.cache_identity,
            source_fingerprint: self.source_fingerprint,
            target_language: self.target_language.clone(),
            created_at_unix_ms: self.created_at_unix_ms,
        }
    }

    /// Diagnostic text: no hex and no fingerprint.
    pub fn debug_text(&self) -> (text: String)
        ensures
            text@ == "ArtifactIndexEntry { address: ContentAddress(<redacted>), cache_identity: CacheKey(<redacted>), source_fingerprint: \"<redacted>\", target_language: \""@
                + self@.target_language + "\", created_at_unix_ms: "@ + decimal(self@.created_at_unix_ms as nat)
                + " }"@,
    {
        let mut text = String::from_str(
            "ArtifactIndexEntry { address: ContentAddress(<redacted>), cache_identity: CacheKey(<redacted>), source_fingerprint: \"<redacted>\", target_language: \"",
        );
        text.append(self.target_language.as_str());
        text.append("\", created_at_unix_ms: ");
        let created = decimal_text(self.created_at_unix_ms);
        text.append(created.as_str());
        text.append(" }");
        text
    }
}

/// The first entry whose cache identity is `key`.
pub open spec fn found_entry(entries: Seq<EntryView>, key: Seq<u8>) -> Option<EntryView>
    decreases entries.len(),
{
    if entries.len() == 0 {
        None
    } else if entries[0].cache_identity == key {
        Some(entries[0])
    } else {
        found_entry(entries.drop_first(), key)
    }
}

/// Byte strings in lexicographic order: `a` is not after `b`.
pub open spec fn lex_le(a: Seq<u8>, b: Seq<u8>) -> bool
    decreases a.len(),
{
    if a.len() == 0 || b.len() == 0 {
        a.len() <= b.len()
    } else if a[0] != b[0] {
        a[0] < b[0]
    } else {
        lex_le(a.drop_first(), b.drop_first())
    }
}

/// Whether `b` is at least as new as `a`: a later creation time, or the same
/// time and an address not before `a`'s.
pub open spec fn not_newer(a: EntryView, b: EntryView) -> bool {
    a.created_at_unix_ms < b.created_at_unix_ms || (a.created_at_unix_ms == b.created_at_unix_ms && lex_le(
        a.address,
        b.address,
    ))
}

/// Whether an entry belongs to a source fingerprint and a target language.
pub open spec fn entry_matches(e: EntryView, fingerprint: Seq<u8>, language: Seq<char>) -> bool {
    e.source_fingerprint == fingerprint && e.target_language == language
}

/// The newest matching entry: the greatest creation time, ties broken by the
/// greater address, and among identical keys the last one seen.
pub open spec fn latest_in(entries: Seq<EntryView>, fingerprint: Seq<u8>, language: Seq<char>) -> Option<
    EntryView,
>
    decreases entries.len(),
{
    if entries.len() == 0 {
        None
    } else {
        let earlier = latest_in(entries.drop_last(), fingerprint, language);
        let e = entries.last();
        if entry_matches(e, fingerprint, language) && (match earlier {
            Some(p) => not_newer(p, e),
            None => true,
        }) {
            Some(e)
        } else {
            earlier
        }
    }
}

/// Finds the entry whose cache identity is `key`.
pub fn find_entry(entries: Vec<ArtifactIndexEntry>, key: CacheKey) -> (found: Option<ArtifactIndexEntry>)
    ensures
        match (found, found_entry(entries@.map_values(|e: ArtifactIndexEntry| e@), key@)) {
            (Some(e), Some(expected)) => e@ == expected,
            (None, None) => true,
            _ => false,
        },
{
    let ghost all = entries@.map_values(|e: ArtifactIndexEntry| e@);
    assert(all.subrange(0, all.len() as int) =~= all);
    let mut i: usize = 0;
    while i < entries.len()
        invariant
            i <= entries@.len(),
            all == entries@.map_values(|e: ArtifactIndexEntry| e@),
            found_entry(all, key@) == found_entry(all.subrange(i as int, all.len() as int), key@),
        decreases entries@.len() - i,
    {
        let ghost rest = all.subrange(i as int, all.len() as int);
        assert(rest.drop_first() =~= all.subrange(i + 1, all.len() as int));
        if same_bytes(entries[i].cache_identity.as_bytes(), key.as_bytes()) {
            return Some(entries[i].copy());
        }
        i = i + 1;
    }
    None
}

/// Whether `a` comes no later than `b` in lexicographic order.
fn bytes_not_after(a: &[u8; 32], b: &[u8; 32]) -> (le: bool)
    ensures
        le == lex_le(a@, b@),
{
    assert(a@.subrange(0, 32) =~= a@);
    assert(b@.subrange(0, 32) =~= b@);
    let mut i: usize = 0;
    while i < 32
        invariant
            i <= 32,
            a@.len() == 32 && b@.len() == 32,
            lex_le(a@, b@) == lex_le(a@.subrange(i as int, 32), b@.subrange(i as int, 32)),
        decreases 32 - i,
    {
        let ghost sa = a@.subrange(i as int, 32);
        let ghost sb = b@.subrange(i as int, 32);
        assert(sa.drop_first() =~= a@.subrange(i + 1, 32));
        assert(sb.drop_first() =~= b@.subrange(i + 1, 32));
        if a[i] != b[i] {
            return a[i] < b[i];
        }
        i = i + 1;
    }
    true
}

/// Chooses the newest entry for a source fingerprint and a target language.
pub fn latest_entry(entries: Vec<ArtifactIndexEntry>, source_fingerprint: &[u8; 32], target_language: &str) -> (latest:
    Option<ArtifactIndexEntry>)
    ensures
        match (latest, latest_in(
            entries@.map_values(|e: ArtifactIndexEntry| e@),
            source_fingerprint@,
            target_language@,
        )) {
            (Some(e), Some(expected)) => e@ == expected,
            (None, None) => true,
            _ => false,
        },
{
    let ghost all = entries@.map_values(|e: ArtifactIndexEntry| e@);
    let mut best: Option<ArtifactIndexEntry> = None;
    let mut i: usize = 0;
    while i < entries.len()
        invariant
            i <= entries@.len(),
            all == entries@.map_values(|e: ArtifactIndexEntry| e@),
            match (best, latest_in(all.subrange(0, i as int), source_fingerprint@, target_language@)) {
                (Some(e), Some(expected)) => e@ == expected,
                (None, None) => true,
                _ => false,
            },
        decreases entries@.len() - i,
    {
        assert(all.subrange(0, i + 1).drop_last() =~= all.subrange(0, i as int));
        let e = &entries[i];
        let matches = same_bytes(&e.source_fingerprint, source_fingerprint) && same_text(
            e.target_language.as_str(),
            target_language,
        );
        if matches {
            let replace = match &best {
                Some(p) => p.created_at_unix_ms < e.created_at_unix_ms || (p.created_at_unix_ms
                    == e.created_at_unix_ms && bytes_not_after(p.address.as_bytes(), e.address.as_bytes())),
                None => true,
            };
            if replace {
                best = Some(e.copy());
            }
        }
        i = i + 1;
    }
    assert(all.subrange(0, entries@.len() as int) =~= all);
    best
}

/// Whether `found` is what a lookup of `key` answers over the listed
/// entries; a failed listing is passed on.
pub open spec fn find_answer(
    found: Result<Option<ArtifactIndexEntry>, ArtifactStoreError>,
    listed: Seq<EntryView>,
    key: Seq<u8>,
) -> bool {
    match found {
        Ok(Some(e)) => found_entry(listed, key) == Some(e@),
        Ok(None) => found_entry(listed, key) is None,
        Err(_) => true,
    }
}

/// Whether `latest` is what the projection chooses over the listed entries;
/// a failed listing is passed on.
pub open spec fn latest_answer(
    latest: Result<Option<ArtifactIndexEntry>, ArtifactStoreError>,
    listed: Seq<EntryView>,
    fingerprint: Seq<u8>,
    language: Seq<char>,
) -> bool {
    match latest {
        Ok(Some(e)) => latest_in(listed, fingerprint, language) == Some(e@),
        Ok(None) => latest_in(listed, fingerprint, language) is None,
        Err(_) => true,
    }
}

/// A metadata index derived from an [`ArtifactStore`]'s own contents: a
/// query layer over the store, not a second source of truth.
pub trait ArtifactIndex {
    /// Every artifact the index can currently see; an unreadable or corrupt
    /// one is left out rather than failing the scan.
    fn entries(&self) -> Result<Vec<ArtifactIndexEntry>, ArtifactStoreError>;

    /// The entry whose cache identity is exactly `key`, if any.
    fn find(&self, key: CacheKey) -> (found: Result<Option<ArtifactIndexEntry>, ArtifactStoreError>)
        default_ensures
            exists|listed: Seq<EntryView>| #[trigger] find_answer(found, listed, key@),
    {
        match self.entries() {
            Ok(entries) => {
                let ghost listed = entries@.map_values(|e: ArtifactIndexEntry| e@);
                let found = find_entry(entries, key);
                assert(find_answer(Ok(found), listed, key@));
                Ok(found)
            },
            Err(e) => {
                assert(find_answer(Err(e), Seq::empty(), key@));
                Err(e)
            },
        }
    }

    /// Among the entries sharing a source fingerprint and a target language,
    /// the newest. Every entry stays stored; this only chooses which one a
    /// caller is shown.
    fn latest_for_target(&self, source_fingerprint: &[u8; 32], target_language: &str) -> (latest: Result<
        Option<ArtifactIndexEntry>,
        ArtifactStoreError,
    >)
        default_ensures
            exists|listed: Seq<EntryView>|
                #[trigger] latest_answer(latest, listed, source_fingerprint@, target_language@),
    {
        match self.entries() {
            Ok(entries) => {
                let ghost listed = entries@.map_values(|e: ArtifactIndexEntry| e@);
                let latest = latest_entry(entries, source_fingerprint, target_language);
                assert(latest_answer(Ok(latest), listed, source_fingerprint@, target_language@));
                Ok(latest)
            },
            Err(e) => {
                assert(latest_answer(Err(e), Seq::empty(), source_fingerprint@, target_language@));
                Err(e)
            },
        }
    }
}


proof fn lemma_lex_reflexive(a: Seq<u8>)
    ensures
        lex_le(a, a),
    decreases a.len(),
{
    if a.len() > 0 {
        lemma_lex_reflexive(a.drop_first());
    }
}

proof fn lemma_lex_total(a: Seq<u8>, b: Seq<u8>)
    ensures
        lex_le(a, b) || lex_le(b, a),
    decreases a.len(),
{
    if a.len() > 0 && b.len() > 0 && a[0] == b[0] {
        lemma_lex_total(a.drop_first(), b.drop_first());
    }
}

proof fn lemma_lex_transitive(a: Seq<u8>, b: Seq<u8>, c: Seq<u8>)
    requires
        lex_le(a, b),
        lex_le(b, c),
    ensures
        lex_le(a, c),
    decreases a.len(),
{
    if a.len() > 0 && b.len() > 0 && c.len() > 0 && a[0] == b[0] && b[0] == c[0] {
        lemma_lex_transitive(a.drop_first(), b.drop_first(), c.drop_first());
    }
}

/// The index's projection picks the newest entry: it is `None` exactly when
/// no entry matches, and otherwise a matching entry at least as new as every
/// other match.
pub proof fn law_latest_is_the_newest_match(entries: Seq<EntryView>, fingerprint: Seq<u8>, language: Seq<char>)
    ensures
        latest_in(entries, fingerprint, language) is None <==> forall|i: int|
            0 <= i < entries.len() ==> !entry_matches(#[trigger] entries[i], fingerprint, language),
        latest_in(entries, fingerprint, language) matches Some(e) ==> {
            &&& entry_matches(e, fingerprint, language)
            &&& exists|i: int| 0 <= i < entries.len() && entries[i] == e
            &&& forall|j: int|
                0 <= j < entries.len() && entry_matches(#[trigger] entries[j], fingerprint, language)
                    ==> not_newer(entries[j], e)
        },
    decreases entries.len(),
{
    if entries.len() > 0 {
        let rest = entries.drop_last();
        law_latest_is_the_newest_match(rest, fingerprint, language);
        let e = entries.last();
        let n = entries.len() - 1;
        assert(entries[n] == e);
        assert forall|i: int| 0 <= i < rest.len() implies rest[i] == entries[i] by {}
        match latest_in(rest, fingerprint, language) {
            Some(p) => {
                if entry_matches(e, fingerprint, language) {
                    if not_newer(p, e) {
                        assert forall|j: int|
                            0 <= j < entries.len() && entry_matches(#[trigger] entries[j], fingerprint, language)
                                implies not_newer(entries[j], e) by {
                            if j < n {
                                assert(rest[j] == entries[j]);
                                assert(not_newer(entries[j], p));
                                if entries[j].created_at_unix_ms == p.created_at_unix_ms
                                    && p.created_at_unix_ms == e.created_at_unix_ms {
                                    lemma_lex_transitive(entries[j].address, p.address, e.address);
                                }
                            } else {
                                lemma_lex_reflexive(e.address);
                            }
                        }
                    } else {
                        lemma_lex_total(p.address, e.address);
                        let i = choose|i: int| 0 <= i < rest.len() && rest[i] == p;
                        assert(entries[i] == p);
                        assert forall|j: int|
                            0 <= j < entries.len() && entry_matches(#[trigger] entries[j], fingerprint, language)
                                implies not_newer(entries[j], p) by {
                            if j < n {
                                assert(rest[j] == entries[j]);
                            }
                        }
                    }
                } else {
                    let i = choose|i: int| 0 <= i < rest.len() && rest[i] == p;
                    assert(entries[i] == p);
                    assert forall|j: int|
                        0 <= j < entries.len() && entry_matches(#[trigger] entries[j], fingerprint, language)
                            implies not_newer(entries[j], p) by {
                        if j < n {
                            assert(rest[j] == entries[j]);
                        }
                    }
                }
            },
            None => {
                if entry_matches(e, fingerprint, language) {
                    lemma_lex_reflexive(e.address);
                    assert forall|j: int|
                        0 <= j < entries.len() && entry_matches(#[trigger] entries[j], fingerprint, language)
                            implies not_newer(entries[j], e) by {
                        if j < n {
                            assert(rest[j] == entries[j]);
                            assert(!entry_matches(rest[j], fingerprint, language));
                        }
                    }
                } else {
                    assert forall|i: int| 0 <= i < entries.len() implies !entry_matches(
                        #[trigger] entries[i],
                        fingerprint,
                        language,
                    ) by {
                        if i < n {
                            assert(rest[i] == entries[i]);
                        }
                    }
                }
            },
        }
    }
}

} // verus!
