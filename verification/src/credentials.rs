//! Secure credential storage port and its deterministic in-memory adapter.
//!
//! The port carries no platform storage details: an adapter stores one
//! [`ApiKey`] per closed [`CredentialKind`] and reports only payload-free
//! failures.
use crate::text::{has_control, trimmed, chars_of, trim_chars, any_control, string_from_chars};
use vstd::prelude::*;

verus! {

/// The provider identities whose credentials are part of the product.
#[derive(Debug, Clone, Copy, PartialEq, Eq, Hash, Structural)]
pub enum CredentialKind {
    OpenSubtitles,
    OpenAi,
    OpenRouter,
}

/// The stable account name of a credential kind.
pub open spec fn credential_slug(kind: CredentialKind) -> Seq<char> {
    match kind {
        CredentialKind::OpenSubtitles => "opensubtitles"@,
        CredentialKind::OpenAi => "openai"@,
        CredentialKind::OpenRouter => "openrouter"@,
    }
}

impl CredentialKind {
    /// Stable account names for platform secure-storage adapters.
    pub fn slug(self) -> (slug: &'static str)
        ensures
            slug@ == credential_slug(self),
    {
        match self {
            CredentialKind::OpenSubtitles => "opensubtitles",
            CredentialKind::OpenAi => "openai",
            CredentialKind::OpenRouter => "openrouter",
        }
    }

    /// Every credential kind.
    pub fn all() -> (kinds: [CredentialKind; 3])
        ensures
            kinds@ == seq![
                CredentialKind::OpenSubtitles,
                CredentialKind::OpenAi,
                CredentialKind::OpenRouter,
            ],
    {
        let kinds = [CredentialKind::OpenSubtitles, CredentialKind::OpenAi, CredentialKind::OpenRouter];
        assert(kinds@ =~= seq![
            CredentialKind::OpenSubtitles,
            CredentialKind::OpenAi,
            CredentialKind::OpenRouter,
        ]);
        kinds
    }
}

/// The longest API key accepted, in characters.
pub const MAX_API_KEY_CHARS: usize = 512;

/// Whether a caller-provided value becomes an API key: once trimmed it is
/// non-empty, at most 512 characters long and free of control characters.
pub open spec fn valid_api_key(value: Seq<char>) -> bool {
    let t = trimmed(value);
    t.len() > 0 && t.len() <= 512 && !has_control(t)
}

/// A validated API key. The value is intentionally not serializable, and
/// its diagnostic and display texts never show it.
#[derive(PartialEq, Eq)]
pub struct ApiKey(String);

impl View for ApiKey {
    type V = Seq<char>;

    closed spec fn view(&self) -> Seq<char> {
        self.0@
    }
}

impl Clone for ApiKey {
    fn clone(&self) -> (copy: Self)
        ensures
            copy@ == self@,
    {
        ApiKey(self.0.clone())
    }
}

/// Why a caller-provided string cannot become an [`ApiKey`].
#[derive(Debug, Clone, Copy, PartialEq, Eq, Structural)]
pub enum ApiKeyError {
    Invalid,
}

impl ApiKeyError {
    /// The human-readable text of the error.
    pub fn display_text(self) -> (text: &'static str)
        ensures
            text@ == "invalid API key"@,
    {
        "invalid API key"
    }
}

/// Trims `value` and checks the trimmed characters against the API key rules:
/// non-empty, at most `limit` characters, no control character.
pub fn trimmed_if_valid(value: &str, limit: usize) -> (t: Option<Vec<char>>)
    ensures
        match t {
            Some(chars) => chars@ == trimmed(value@) && trimmed(value@).len() > 0
                && trimmed(value@).len() <= limit && !has_control(trimmed(value@)),
            None => !(trimmed(value@).len() > 0 && trimmed(value@).len() <= limit && !has_control(
                trimmed(value@),
            )),
        },
{
    let chars = chars_of(value);
    let t = trim_chars(chars.as_slice());
    if t.len() == 0 || t.len() > limit || any_control(t.as_slice()) {
        None
    } else {
        Some(t)
    }
}

impl ApiKey {
    /// Validates and trims a caller-provided key.
    pub fn new(value: &str) -> (key: Result<ApiKey, ApiKeyError>)
        ensures
            key is Ok <==> valid_api_key(value@),
            key matches Ok(k) ==> k@ == trimmed(value@),
    {
        match trimmed_if_valid(value, 512) {
            Some(t) => Ok(ApiKey(string_from_chars(t.as_slice()))),
            None => Err(ApiKeyError::Invalid),
        }
    }

    /// The sole explicitly named access path to the secret value.
    pub fn expose(&self) -> (value: &str)
        ensures
            value@ == self@,
    {
        self.0.as_str()
    }

    /// Diagnostic text; never the key.
    pub fn debug_text(&self) -> (text: &'static str)
        ensures
            text@ == "ApiKey(<redacted>)"@,
    {
        "ApiKey(<redacted>)"
    }

    /// Display text; never the key.
    pub fn display_text(&self) -> (text: &'static str)
        ensures
            text@ == "<redacted>"@,
    {
        "<redacted>"
    }
}

/// Payload-free failures from a platform secure credential store.
#[derive(Debug, Clone, Copy, PartialEq, Eq, Structural)]
pub enum CredentialStoreError {
    Unavailable,
    Denied,
    Corrupt,
}

impl CredentialStoreError {
    /// The human-readable text of the error.
    pub fn display_text(self) -> (text: &'static str)
        ensures
            text@ == (match self {
                CredentialStoreError::Unavailable => "credential store unavailable"@,
                CredentialStoreError::Denied => "credential store access denied"@,
                CredentialStoreError::Corrupt => "credential store data is corrupt"@,
            }),
    {
        match self {
            CredentialStoreError::Unavailable => "credential store unavailable",
            CredentialStoreError::Denied => "credential store access denied",
            CredentialStoreError::Corrupt => "credential store data is corrupt",
        }
    }
}

/// Secure credential storage boundary, implemented by platform adapters.
///
/// `stored` is what the store holds, one key per kind. An operation that
/// succeeds agrees with it; `infallible` stores never report a failure.
pub trait SecureCredentialStore {
    spec fn stored(&self) -> Map<CredentialKind, Seq<char>>;

    spec fn infallible(&self) -> bool;

    fn get(&mut self, kind: CredentialKind) -> (key: Result<Option<ApiKey>, CredentialStoreError>)
        ensures
            old(self).infallible() ==> key is Ok,
            final(self).stored() == old(self).stored(),
            final(self).infallible() == old(self).infallible(),
            key matches Ok(found) ==> match found {
                Some(k) => old(self).stored().contains_key(kind) && k@ == old(self).stored()[kind],
                None => !old(self).stored().contains_key(kind),
            },
    ;

    fn contains(&self, kind: CredentialKind) -> (present: Result<bool, CredentialStoreError>)
        ensures
            self.infallible() ==> present is Ok,
            present matches Ok(p) ==> p == self.stored().contains_key(kind),
    ;

    fn set(&mut self, kind: CredentialKind, key: ApiKey) -> (done: Result<(), CredentialStoreError>)
        ensures
            old(self).infallible() ==> done is Ok,
            final(self).infallible() == old(self).infallible(),
            done is Ok ==> final(self).stored() == old(self).stored().insert(kind, key@),
    ;

    fn delete(&mut self, kind: CredentialKind) -> (done: Result<(), CredentialStoreError>)
        ensures
            old(self).infallible() ==> done is Ok,
            final(self).infallible() == old(self).infallible(),
            done is Ok ==> final(self).stored() == old(self).stored().remove(kind),
    ;
}

/// Deterministic in-memory store used by core tests and contract tests: one
/// slot per credential kind.
pub struct InMemoryCredentialStore {
    open_subtitles: Option<ApiKey>,
    open_ai: Option<ApiKey>,
    open_router: Option<ApiKey>,
    get_calls: u64,
}

/// The map view of three optional slots.
pub open spec fn slots_map(
    open_subtitles: Option<Seq<char>>,
    open_ai: Option<Seq<char>>,
    open_router: Option<Seq<char>>,
) -> Map<CredentialKind, Seq<char>> {
    Map::new(
        |k: CredentialKind|
            match k {
                CredentialKind::OpenSubtitles => open_subtitles is Some,
                CredentialKind::OpenAi => open_ai is Some,
                CredentialKind::OpenRouter => open_router is Some,
            },
        |k: CredentialKind|
            match k {
                CredentialKind::OpenSubtitles => open_subtitles->0,
                CredentialKind::OpenAi => open_ai->0,
                CredentialKind::OpenRouter => open_router->0,
            },
    )
}

pub open spec fn key_view(slot: Option<ApiKey>) -> Option<Seq<char>> {
    match slot {
        Some(k) => Some(k@),
        None => None,
    }
}

impl InMemoryCredentialStore {
    /// An empty store.
    pub fn new() -> (store: InMemoryCredentialStore)
        ensures
            store.stored() == Map::<CredentialKind, Seq<char>>::empty(),
            store.infallible(),
            store.get_call_count_spec() == 0,
    {
        let store = InMemoryCredentialStore {
            open_subtitles: None,
            open_ai: None,
            open_router: None,
            get_calls: 0,
        };
        assert(store.stored() =~= Map::<CredentialKind, Seq<char>>::empty());
        store
    }

    pub closed spec fn get_call_count_spec(&self) -> nat {
        self.get_calls as nat
    }

    /// How many times `get` has been called (saturating).
    pub fn get_call_count(&self) -> (count: u64)
        ensures
            count == self.get_call_count_spec(),
    {
        self.get_calls
    }

    fn slot(&self, kind: CredentialKind) -> (slot: &Option<ApiKey>)
        ensures
            key_view(*slot) == (if self.stored().contains_key(kind) {
                Some(self.stored()[kind])
            } else {
                None
            }),
    {
        match kind {
            CredentialKind::OpenSubtitles => &self.open_subtitles,
            CredentialKind::OpenAi => &self.open_ai,
            CredentialKind::OpenRouter => &self.open_router,
        }
    }

    fn put(&mut self, kind: CredentialKind, value: Option<ApiKey>)
        ensures
            final(self).get_calls == old(self).get_calls,
            final(self).stored() == (match value {
                Some(k) => old(self).stored().insert(kind, k@),
                None => old(self).stored().remove(kind),
            }),
    {
        let ghost new_value = key_view(value);
        match kind {
            CredentialKind::OpenSubtitles => self.open_subtitles = value,
            CredentialKind::OpenAi => self.open_ai = value,
            CredentialKind::OpenRouter => self.open_router = value,
        }
        proof {
            match new_value {
                Some(k) => {
                    assert(self.stored() =~= old(self).stored().insert(kind, k));
                },
                None => {
                    assert(self.stored() =~= old(self).stored().remove(kind));
                },
            }
        }
    }
}

impl SecureCredentialStore for InMemoryCredentialStore {
    closed spec fn stored(&self) -> Map<CredentialKind, Seq<char>> {
        slots_map(key_view(self.open_subtitles), key_view(self.open_ai), key_view(self.open_router))
    }

    closed spec fn infallible(&self) -> bool {
        true
    }

    fn get(&mut self, kind: CredentialKind) -> (key: Result<Option<ApiKey>, CredentialStoreError>) {
        if self.get_calls < u64::MAX {
            self.get_calls = self.get_calls + 1;
        }
        let found = match self.slot(kind) {
            Some(k) => Some(k.clone()),
            None => None,
        };
        Ok(found)
    }

    fn contains(&self, kind: CredentialKind) -> (present: Result<bool, CredentialStoreError>) {
        Ok(self.slot(kind).is_some())
    }

    fn set(&mut self, kind: CredentialKind, key: ApiKey) -> (done: Result<(), CredentialStoreError>) {
        self.put(kind, Some(key));
        Ok(())
    }

    fn delete(&mut self, kind: CredentialKind) -> (done: Result<(), CredentialStoreError>) {
        self.put(kind, None);
        Ok(())
    }
}

/// What the shared credential-store contract found wrong with a store.
#[derive(Debug, Clone, Copy, PartialEq, Eq, Structural)]
pub enum ContractViolation {
    UnexpectedInitialValue,
    SetGetMismatch,
    ContainsMismatch,
    KindCrossContamination,
    DeleteDidNotRemove,
    Unavailable,
}

/// Reads `kind` back and expects it to be absent; any other answer records
/// `violation`, a failed read records `Unavailable`.
fn expect_absent<S: SecureCredentialStore>(
    store: &mut S,
    kind: CredentialKind,
    violation: ContractViolation,
    failures: &mut Vec<ContractViolation>,
)
    ensures
        final(store).stored() == old(store).stored(),
        final(store).infallible() == old(store).infallible(),
        final(failures)@.len() >= old(failures)@.len(),
        old(store).infallible() ==> final(failures)@ == (if old(store).stored().contains_key(kind) {
            old(failures)@.push(violation)
        } else {
            old(failures)@
        }),
{
    let found = store.get(kind);
    let present = store.contains(kind);
    match (found, present) {
        (Ok(None), Ok(false)) => {},
        (Ok(_), Ok(_)) => failures.push(violation),
        _ => failures.push(ContractViolation::Unavailable),
    }
}

/// Stores `value` under `kind` and reads it back.
fn expect_set_reads_back<S: SecureCredentialStore>(
    store: &mut S,
    kind: CredentialKind,
    value: &str,
    failures: &mut Vec<ContractViolation>,
)
    ensures
        final(store).infallible() == old(store).infallible(),
        final(failures)@.len() >= old(failures)@.len(),
        old(store).infallible() ==> final(failures)@ == old(failures)@,
        old(store).infallible() ==> final(store).stored() == old(store).stored().insert(kind, value@),
{
    let expected = value.to_owned();
    if store.set(kind, ApiKey(value.to_owned())).is_err() {
        failures.push(ContractViolation::Unavailable);
        return;
    }
    let found = store.get(kind);
    let present = store.contains(kind);
    match (found, present) {
        (Ok(Some(actual)), Ok(true)) => {
            if !(actual.0 == expected) {
                failures.push(ContractViolation::SetGetMismatch);
            }
        },
        (Ok(_), Ok(_)) => failures.push(ContractViolation::SetGetMismatch),
        _ => failures.push(ContractViolation::Unavailable),
    }
}

/// Reads `kind` back and expects `value`, the key stored under it earlier.
fn expect_still_holds<S: SecureCredentialStore>(
    store: &mut S,
    kind: CredentialKind,
    value: &str,
    failures: &mut Vec<ContractViolation>,
)
    ensures
        final(store).stored() == old(store).stored(),
        final(store).infallible() == old(store).infallible(),
        final(failures)@ == old(failures)@ || final(failures)@ == old(failures)@.push(
            ContractViolation::KindCrossContamination,
        ) || final(failures)@ == old(failures)@.push(ContractViolation::Unavailable),
        old(store).infallible() ==> final(failures)@ == (if old(store).stored().contains_key(kind)
            && old(store).stored()[kind] == value@ {
            old(failures)@
        } else {
            old(failures)@.push(ContractViolation::KindCrossContamination)
        }),
{
    let expected = value.to_owned();
    match store.get(kind) {
        Ok(Some(actual)) => {
            if !(actual.0 == expected) {
                failures.push(ContractViolation::KindCrossContamination);
            }
        },
        Ok(_) => failures.push(ContractViolation::KindCrossContamination),
        Err(_) => failures.push(ContractViolation::Unavailable),
    }
}

/// Deletes `kind` and expects it to be gone.
fn expect_delete_removes<S: SecureCredentialStore>(
    store: &mut S,
    kind: CredentialKind,
    failures: &mut Vec<ContractViolation>,
)
    ensures
        final(store).infallible() == old(store).infallible(),
        final(failures)@.len() >= old(failures)@.len(),
        old(store).infallible() ==> final(failures)@ == old(failures)@,
        old(store).infallible() ==> final(store).stored() == old(store).stored().remove(kind),
{
    if store.delete(kind).is_err() {
        failures.push(ContractViolation::Unavailable);
        return;
    }
    expect_absent(store, kind, ContractViolation::DeleteDidNotRemove, failures);
}

/// What the initial probe of `kind` reports of a store holding `stored`.
pub open spec fn initial_probe(stored: Map<CredentialKind, Seq<char>>, kind: CredentialKind) -> Seq<
    ContractViolation,
> {
    if stored.contains_key(kind) {
        seq![ContractViolation::UnexpectedInitialValue]
    } else {
        Seq::empty()
    }
}

/// What the initial probes report of a store holding `stored`, in probe
/// order: one unexpected initial value for each kind already held.
pub open spec fn initial_violations(stored: Map<CredentialKind, Seq<char>>) -> Seq<ContractViolation> {
    initial_probe(stored, CredentialKind::OpenSubtitles) + initial_probe(stored, CredentialKind::OpenAi)
        + initial_probe(stored, CredentialKind::OpenRouter)
}

/// Exercises the observable behaviour every secure credential store owes:
/// it starts empty, a stored key reads back, kinds do not share storage, and
/// a deleted key is gone.
///
/// A store that never fails passes exactly when it starts empty, and is left
/// empty.
pub fn check<S: SecureCredentialStore>(store: &mut S) -> (result: Result<(), Vec<ContractViolation>>)
    ensures
        final(store).infallible() == old(store).infallible(),
        old(store).infallible() ==> (result is Ok <==> old(store).stored()
            == Map::<CredentialKind, Seq<char>>::empty()),
        old(store).infallible() ==> final(store).stored() == Map::<CredentialKind, Seq<char>>::empty(),
        result matches Err(found) ==> found@.len() > 0,
        old(store).infallible() ==> (result matches Err(found) ==> found@ == initial_violations(old(store).stored())),
{
    let ghost initial = store.stored();
    let mut failures: Vec<ContractViolation> = Vec::new();
    expect_absent(store, CredentialKind::OpenSubtitles, ContractViolation::UnexpectedInitialValue, &mut failures);
    let ghost first = failures@;
    expect_absent(store, CredentialKind::OpenAi, ContractViolation::UnexpectedInitialValue, &mut failures);
    let ghost second = failures@;
    expect_absent(store, CredentialKind::OpenRouter, ContractViolation::UnexpectedInitialValue, &mut failures);
    let ghost after_probe = failures@.len();
    let ghost probed = failures@;
    proof {
        if old(store).infallible() {
            assert(first =~= initial_probe(initial, CredentialKind::OpenSubtitles));
            assert(second =~= first + initial_probe(initial, CredentialKind::OpenAi));
            assert(probed =~= second + initial_probe(initial, CredentialKind::OpenRouter));
            assert(probed =~= initial_violations(initial));
        }
    }

    expect_set_reads_back(store, CredentialKind::OpenSubtitles, "contract-opensubtitles", &mut failures);
    expect_set_reads_back(store, CredentialKind::OpenAi, "contract-openai", &mut failures);
    expect_set_reads_back(store, CredentialKind::OpenRouter, "contract-openrouter", &mut failures);

    expect_still_holds(store, CredentialKind::OpenSubtitles, "contract-opensubtitles", &mut failures);
    expect_still_holds(store, CredentialKind::OpenAi, "contract-openai", &mut failures);
    expect_still_holds(store, CredentialKind::OpenRouter, "contract-openrouter", &mut failures);

    expect_delete_removes(store, CredentialKind::OpenSubtitles, &mut failures);
    expect_delete_removes(store, CredentialKind::OpenAi, &mut failures);
    expect_delete_removes(store, CredentialKind::OpenRouter, &mut failures);

    proof {
        if old(store).infallible() {
            let none_initially = !initial.contains_key(CredentialKind::OpenSubtitles)
                && !initial.contains_key(CredentialKind::OpenAi) && !initial.contains_key(
                CredentialKind::OpenRouter,
            );
            assert(after_probe == 0 <==> none_initially);
            assert(failures@.len() == after_probe);
            assert(failures@ == probed);
            if none_initially {
                assert(initial =~= Map::<CredentialKind, Seq<char>>::empty()) by {
                    assert forall|k: CredentialKind| !initial.contains_key(k) by {
                        match k {
                            CredentialKind::OpenSubtitles => {},
                            CredentialKind::OpenAi => {},
                            CredentialKind::OpenRouter => {},
                        }
                    }
                }
            }
            assert(store.stored() =~= Map::<CredentialKind, Seq<char>>::empty()) by {
                assert forall|k: CredentialKind| !store.stored().contains_key(k) by {
                    match k {
                        CredentialKind::OpenSubtitles => {},
                        CredentialKind::OpenAi => {},
                        CredentialKind::OpenRouter => {},
                    }
                }
            }
        }
    }
    if failures.len() == 0 {
        Ok(())
    } else {
        Err(failures)
    }
}

} // verus!
