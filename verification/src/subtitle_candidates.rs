//! Searching a provider for subtitle candidates: the query, the bounded
//! result and the payload-free failures.
use crate::identity::{CanonicalMediaIdentity, MediaHash, ParsedMediaIdentity, VerifiedMediaIdentity};
use crate::text::{decimal, decimal_text, same_text};
use vstd::prelude::*;

verus! {

/// The most candidates one search may return.
pub const MAX_CANDIDATES: usize = 16;

/// The largest search response accepted.
pub const MAX_RESPONSE_BYTES: usize = 1048576;

/// The longest release name kept, in characters.
pub const MAX_RELEASE_NAME_CHARS: usize = 256;

/// What a search is keyed by.
#[derive(Clone, PartialEq, Eq)]
pub enum SubtitleCandidateSearchQuery {
    Hash(MediaHash),
    VerifiedIdentity(VerifiedMediaIdentity),
    CanonicalIdentity(CanonicalMediaIdentity),
    ParsedIdentity(ParsedMediaIdentity),
}

pub open spec fn query_debug(query: SubtitleCandidateSearchQuery) -> Seq<char> {
    match query {
        SubtitleCandidateSearchQuery::Hash(_) => "SubtitleCandidateSearchQuery(\"hash\")"@,
        SubtitleCandidateSearchQuery::VerifiedIdentity(_) => "SubtitleCandidateSearchQuery(\"verified_identity\")"@,
        SubtitleCandidateSearchQuery::CanonicalIdentity(_) => "SubtitleCandidateSearchQuery(\"canonical_identity\")"@,
        SubtitleCandidateSearchQuery::ParsedIdentity(_) => "SubtitleCandidateSearchQuery(\"parsed_identity\")"@,
    }
}

impl SubtitleCandidateSearchQuery {
    pub fn by_hash(hash: MediaHash) -> (query: SubtitleCandidateSearchQuery)
        ensures
            query == SubtitleCandidateSearchQuery::Hash(hash),
    {
        SubtitleCandidateSearchQuery::Hash(hash)
    }

    pub fn by_verified_identity(identity: VerifiedMediaIdentity) -> (query:
        SubtitleCandidateSearchQuery)
        ensures
            query == SubtitleCandidateSearchQuery::VerifiedIdentity(identity),
    {
        SubtitleCandidateSearchQuery::VerifiedIdentity(identity)
    }

    pub fn by_canonical_identity(identity: CanonicalMediaIdentity) -> (query:
        SubtitleCandidateSearchQuery)
        ensures
            query == SubtitleCandidateSearchQuery::CanonicalIdentity(identity),
    {
        SubtitleCandidateSearchQuery::CanonicalIdentity(identity)
    }

    pub fn by_parsed_identity(identity: ParsedMediaIdentity) -> (query:
        SubtitleCandidateSearchQuery)
        ensures
            query == SubtitleCandidateSearchQuery::ParsedIdentity(identity),
    {
        SubtitleCandidateSearchQuery::ParsedIdentity(identity)
    }

    /// Diagnostic text: what kind of key, never the key.
    pub fn debug_text(&self) -> (text: &'static str)
        ensures
            text@ == query_debug(*self),
    {
        match self {
            SubtitleCandidateSearchQuery::Hash(_) => "SubtitleCandidateSearchQuery(\"hash\")",
            SubtitleCandidateSearchQuery::VerifiedIdentity(_) => "SubtitleCandidateSearchQuery(\"verified_identity\")",
            SubtitleCandidateSearchQuery::CanonicalIdentity(_) => "SubtitleCandidateSearchQuery(\"canonical_identity\")",
            SubtitleCandidateSearchQuery::ParsedIdentity(_) => "SubtitleCandidateSearchQuery(\"parsed_identity\")",
        }
    }
}

impl From<VerifiedMediaIdentity> for SubtitleCandidateSearchQuery {
    fn from(value: VerifiedMediaIdentity) -> (query: SubtitleCandidateSearchQuery) {
        SubtitleCandidateSearchQuery::VerifiedIdentity(value)
    }
}

impl vstd::std_specs::convert::FromSpecImpl<VerifiedMediaIdentity> for SubtitleCandidateSearchQuery {
    open spec fn obeys_from_spec() -> bool {
        true
    }

    open spec fn from_spec(value: VerifiedMediaIdentity) -> SubtitleCandidateSearchQuery {
        SubtitleCandidateSearchQuery::VerifiedIdentity(value)
    }
}

/// A search: its key and the wanted languages, as language tags.
#[derive(Clone, PartialEq, Eq)]
pub struct SubtitleCandidateSearchRequest {
    pub query: SubtitleCandidateSearchQuery,
    pub languages: Vec<String>,
}

impl SubtitleCandidateSearchRequest {
    /// A search with no language preference.
    pub fn new(query: SubtitleCandidateSearchQuery) -> (request: SubtitleCandidateSearchRequest)
        ensures
            request.query == query,
            request.languages@.len() == 0,
    {
        SubtitleCandidateSearchRequest { query, languages: Vec::new() }
    }

    pub fn with_languages(self, languages: Vec<String>) -> (request:
        SubtitleCandidateSearchRequest)
        ensures
            request.query == self.query,
            request.languages@ == languages@,
    {
        SubtitleCandidateSearchRequest { query: self.query, languages }
    }

    /// Diagnostic text: the kind of key and how many languages.
    pub fn debug_text(&self) -> (text: String)
        ensures
            text@ == "SubtitleCandidateSearchRequest { query: "@ + query_debug(self.query)
                + ", language_count: "@ + decimal(self.languages@.len()) + " }"@,
    {
        let mut text = String::from_str("SubtitleCandidateSearchRequest { query: ");
        text.append(self.query.debug_text());
        text.append(", language_count: ");
        text.append(decimal_text(self.languages.len() as u64).as_str());
        text.append(" }");
        text
    }
}

/// One subtitle a provider offers. The public id is opaque, the private file
/// id belongs to the account, and the release name is display data: none of
/// them appears in the diagnostic text.
#[derive(Clone, PartialEq, Eq)]
pub struct SubtitleCandidate {
    pub public_id: String,
    pub private_file_id: u64,
    pub language: String,
    pub release_name: Option<String>,
    pub hearing_impaired: bool,
    pub ai_translated: bool,
}

/// The model of a candidate: every field as a plain value.
pub struct CandidateModel {
    pub public_id: Seq<char>,
    pub private_file_id: u64,
    pub language: Seq<char>,
    pub release_name: Option<Seq<char>>,
    pub hearing_impaired: bool,
    pub ai_translated: bool,
}

pub open spec fn release_view(name: Option<String>) -> Option<Seq<char>> {
    match name {
        Some(n) => Some(n@),
        None => None,
    }
}

impl View for SubtitleCandidate {
    type V = CandidateModel;

    open spec fn view(&self) -> CandidateModel {
        CandidateModel {
            public_id: self.public_id@,
            private_file_id: self.private_file_id,
            language: self.language@,
            release_name: release_view(self.release_name),
            hearing_impaired: self.hearing_impaired,
            ai_translated: self.ai_translated,
        }
    }
}

pub open spec fn flag_text(flag: bool) -> Seq<char> {
    if flag {
        "true"@
    } else {
        "false"@
    }
}

fn flag_str(flag: bool) -> (text: &'static str)
    ensures
        text@ == flag_text(flag),
{
    if flag {
        "true"
    } else {
        "false"
    }
}

impl SubtitleCandidate {
    /// Whether two candidates are the same candidate.
    pub fn same_as(&self, other: &SubtitleCandidate) -> (same: bool)
        ensures
            same == (self@ == other@),
    {
        let release = match (&self.release_name, &other.release_name) {
            (Some(a), Some(b)) => same_text(a.as_str(), b.as_str()),
            (None, None) => true,
            _ => false,
        };
        same_text(self.public_id.as_str(), other.public_id.as_str()) && self.private_file_id
            == other.private_file_id && same_text(self.language.as_str(), other.language.as_str())
            && release && self.hearing_impaired == other.hearing_impaired && self.ai_translated
            == other.ai_translated
    }

    /// Diagnostic text: the language and flags; the ids are hidden and the
    /// release name shows only as present.
    pub fn debug_text(&self) -> (text: String)
        ensures
            text@ == "SubtitleCandidate { public_id: \"<opaque>\", private_file_id: \"<redacted>\", language: \""@
                + self.language@ + "\", release_name: "@ + (if self.release_name is Some {
                "Some(\"<present>\")"@
            } else {
                "None"@
            }) + ", hearing_impaired: "@ + flag_text(self.hearing_impaired)
                + ", ai_translated: "@ + flag_text(self.ai_translated) + " }"@,
    {
        let mut text = String::from_str(
            "SubtitleCandidate { public_id: \"<opaque>\", private_file_id: \"<redacted>\", language: \"",
        );
        text.append(self.language.as_str());
        text.append("\", release_name: ");
        if self.release_name.is_some() {
            text.append("Some(\"<present>\")");
        } else {
            text.append("None");
        }
        text.append(", hearing_impaired: ");
        text.append(flag_str(self.hearing_impaired));
        text.append(", ai_translated: ");
        text.append(flag_str(self.ai_translated));
        text.append(" }");
        text
    }
}

/// Why a search failed, without any provider payload.
#[derive(Debug, Clone, Copy, PartialEq, Eq, Structural)]
pub enum SubtitleCandidateSearchError {
    InvalidRequest,
    Transport,
    HttpStatus,
    InvalidResponse,
    ResponseTooLarge,
    RedirectRejected,
}

impl SubtitleCandidateSearchError {
    /// The human-readable text of the error.
    pub fn display_text(self) -> (text: &'static str)
        ensures
            text@ == (match self {
                SubtitleCandidateSearchError::InvalidRequest => "invalid candidate search request"@,
                SubtitleCandidateSearchError::Transport => "candidate provider transport failed"@,
                SubtitleCandidateSearchError::HttpStatus => "candidate provider request failed"@,
                SubtitleCandidateSearchError::InvalidResponse => "candidate provider response was invalid"@,
                SubtitleCandidateSearchError::ResponseTooLarge => "candidate provider response was too large"@,
                SubtitleCandidateSearchError::RedirectRejected => "candidate provider redirect was rejected"@,
            }),
    {
        match self {
            SubtitleCandidateSearchError::InvalidRequest => "invalid candidate search request",
            SubtitleCandidateSearchError::Transport => "candidate provider transport failed",
            SubtitleCandidateSearchError::HttpStatus => "candidate provider request failed",
            SubtitleCandidateSearchError::InvalidResponse => "candidate provider response was invalid",
            SubtitleCandidateSearchError::ResponseTooLarge => "candidate provider response was too large",
            SubtitleCandidateSearchError::RedirectRejected => "candidate provider redirect was rejected",
        }
    }
}

/// Searches a provider for candidates.
pub trait SubtitleCandidateSearch {
    fn search(&mut self, request: &SubtitleCandidateSearchRequest) -> Result<
        Vec<SubtitleCandidate>,
        SubtitleCandidateSearchError,
    >;
}

/// The candidate lists' models.
pub open spec fn candidates_view(candidates: Seq<SubtitleCandidate>) -> Seq<CandidateModel> {
    candidates.map_values(|c: SubtitleCandidate| c@)
}

/// A search that always gives the same answer and counts its calls.
pub struct FakeSubtitleCandidateSearch {
    answer: Result<Vec<SubtitleCandidate>, SubtitleCandidateSearchError>,
    calls: usize,
}

impl FakeSubtitleCandidateSearch {
    pub closed spec fn answer_spec(&self) -> Result<Seq<CandidateModel>, SubtitleCandidateSearchError> {
        match self.answer {
            Ok(v) => Ok(candidates_view(v@)),
            Err(e) => Err(e),
        }
    }

    pub closed spec fn calls_spec(&self) -> nat {
        self.calls as nat
    }

    pub fn new(answer: Result<Vec<SubtitleCandidate>, SubtitleCandidateSearchError>) -> (search:
        FakeSubtitleCandidateSearch)
        ensures
            search.answer_spec() == (match answer {
                Ok(v) => Ok(candidates_view(v@)),
                Err(e) => Err(e),
            }),
            search.calls_spec() == 0,
    {
        FakeSubtitleCandidateSearch { answer, calls: 0 }
    }

    /// How many searches were made (saturating).
    pub fn calls(&self) -> (calls: usize)
        ensures
            calls == self.calls_spec(),
    {
        self.calls
    }
}

fn copy_candidates(candidates: &Vec<SubtitleCandidate>) -> (copy: Vec<SubtitleCandidate>)
    ensures
        candidates_view(copy@) == candidates_view(candidates@),
{
    let mut copy: Vec<SubtitleCandidate> = Vec::new();
    let mut i: usize = 0;
    while i < candidates.len()
        invariant
            i <= candidates@.len(),
            candidates_view(copy@) == candidates_view(candidates@.subrange(0, i as int)),
        decreases candidates@.len() - i,
    {
        let c = &candidates[i];
        let one = SubtitleCandidate {
            public_id: c.public_id.clone(),
            private_file_id: c.private_file_id,
            language: c.language.clone(),
            release_name: match &c.release_name {
                Some(n) => Some(n.clone()),
                None => None,
            },
            hearing_impaired: c.hearing_impaired,
            ai_translated: c.ai_translated,
        };
        assert(one@ == candidates@[i as int]@);
        let ghost before = copy@;
        copy.push(one);
        proof {
            let prefix = candidates@.subrange(0, i as int);
            assert(candidates_view(before.push(one)) =~= candidates_view(before).push(one@));
            assert(candidates@.subrange(0, i + 1) =~= prefix.push(candidates@[i as int]));
            assert(candidates_view(prefix.push(candidates@[i as int])) =~= candidates_view(
                prefix,
            ).push(candidates@[i as int]@));
        }
        i = i + 1;
    }
    assert(candidates@.subrange(0, candidates@.len() as int) =~= candidates@);
    copy
}

impl SubtitleCandidateSearch for FakeSubtitleCandidateSearch {
    fn search(&mut self, request: &SubtitleCandidateSearchRequest) -> (found: Result<
        Vec<SubtitleCandidate>,
        SubtitleCandidateSearchError,
    >)
        ensures
            final(self).answer_spec() == old(self).answer_spec(),
            final(self).calls_spec() == (if old(self).calls_spec() < usize::MAX {
                old(self).calls_spec() + 1
            } else {
                old(self).calls_spec()
            }),
            match found {
                Ok(v) => old(self).answer_spec() == Ok::<Seq<CandidateModel>, SubtitleCandidateSearchError>(
                    candidates_view(v@),
                ),
                Err(e) => old(self).answer_spec() == Err::<Seq<CandidateModel>, SubtitleCandidateSearchError>(e),
            },
    {
        if self.calls < usize::MAX {
            self.calls = self.calls + 1;
        }
        match &self.answer {
            Ok(v) => Ok(copy_candidates(v)),
            Err(e) => Err(*e),
        }
    }
}

/// What the shared candidate-search contract found wrong with a search.
#[derive(Debug, Clone, Copy, PartialEq, Eq, Structural)]
pub enum ContractViolation {
    CallFailed,
    TooManyCandidates,
    DuplicatePublicId,
    NonDeterministic,
}

/// No two candidates share a public id.
pub open spec fn distinct_public_ids(candidates: Seq<SubtitleCandidate>) -> bool {
    forall|i: int, j: int|
        0 <= i < j < candidates.len() ==> #[trigger] candidates[i].public_id@
            != #[trigger] candidates[j].public_id@
}

fn public_ids_distinct(candidates: &Vec<SubtitleCandidate>) -> (distinct: bool)
    ensures
        distinct == distinct_public_ids(candidates@),
{
    let mut j: usize = 0;
    while j < candidates.len()
        invariant
            j <= candidates@.len(),
            forall|a: int, b: int|
                0 <= a < b < j ==> #[trigger] candidates@[a].public_id@
                    != #[trigger] candidates@[b].public_id@,
        decreases candidates@.len() - j,
    {
        let mut i: usize = 0;
        while i < j
            invariant
                i <= j < candidates@.len(),
                forall|a: int| 0 <= a < i ==> #[trigger] candidates@[a].public_id@ != candidates@[j as int].public_id@,
            decreases j - i,
        {
            if same_text(candidates[i].public_id.as_str(), candidates[j].public_id.as_str()) {
                return false;
            }
            i = i + 1;
        }
        j = j + 1;
    }
    true
}

fn same_candidates(a: &Vec<SubtitleCandidate>, b: &Vec<SubtitleCandidate>) -> (same: bool)
    ensures
        same == (candidates_view(a@) == candidates_view(b@)),
{
    if a.len() != b.len() {
        proof {
            assert(candidates_view(a@).len() != candidates_view(b@).len());
        }
        return false;
    }
    let mut i: usize = 0;
    while i < a.len()
        invariant
            i <= a@.len(),
            a@.len() == b@.len(),
            forall|k: int| 0 <= k < i ==> #[trigger] a@[k]@ == b@[k]@,
        decreases a@.len() - i,
    {
        if !a[i].same_as(&b[i]) {
            proof {
                assert(candidates_view(a@)[i as int] != candidates_view(b@)[i as int]);
            }
            return false;
        }
        i = i + 1;
    }
    assert(candidates_view(a@) =~= candidates_view(b@));
    true
}

/// The violations found, in the order they are checked.
pub open spec fn expected_violations(too_many: bool, duplicate: bool, differ: bool) -> Seq<
    ContractViolation,
> {
    (if too_many {
        seq![ContractViolation::TooManyCandidates]
    } else {
        Seq::empty()
    }) + (if duplicate {
        seq![ContractViolation::DuplicatePublicId]
    } else {
        Seq::empty()
    }) + (if differ {
        seq![ContractViolation::NonDeterministic]
    } else {
        Seq::empty()
    })
}

/// Whether `result` is the contract's verdict on two answers to the same
/// search (see [`judge`]).
pub open spec fn judged(
    result: Result<(), Vec<ContractViolation>>,
    first: Result<Vec<SubtitleCandidate>, SubtitleCandidateSearchError>,
    second: Result<Vec<SubtitleCandidate>, SubtitleCandidateSearchError>,
) -> bool {
    &&& (first is Err || second is Err) ==> (result matches Err(v) && v@ == seq![ContractViolation::CallFailed])
    &&& (first is Ok && second is Ok) ==> (result is Ok <==> (first->Ok_0@.len() <= MAX_CANDIDATES
        && distinct_public_ids(first->Ok_0@) && candidates_view(first->Ok_0@) == candidates_view(
        second->Ok_0@,
    )))
    &&& (first is Ok && second is Ok) ==> (result matches Err(v) ==> v@ == expected_violations(
        first->Ok_0@.len() > MAX_CANDIDATES,
        !distinct_public_ids(first->Ok_0@),
        candidates_view(first->Ok_0@) != candidates_view(second->Ok_0@),
    ))
}

/// The contract's verdict on two answers to the same search: both must
/// succeed, be equal, hold at most [`MAX_CANDIDATES`] candidates and no
/// public id twice. A failed call is the only violation then reported.
pub fn judge(
    first: Result<Vec<SubtitleCandidate>, SubtitleCandidateSearchError>,
    second: Result<Vec<SubtitleCandidate>, SubtitleCandidateSearchError>,
) -> (result: Result<(), Vec<ContractViolation>>)
    ensures
        (first is Err || second is Err) ==> (result matches Err(v) && v@ == seq![
            ContractViolation::CallFailed,
        ]),
        (first is Ok && second is Ok) ==> (result is Ok <==> (first->Ok_0@.len() <= MAX_CANDIDATES
            && distinct_public_ids(first->Ok_0@) && candidates_view(first->Ok_0@) == candidates_view(
            second->Ok_0@,
        ))),
        (first is Ok && second is Ok) ==> (result matches Err(v) ==> v@ == expected_violations(
            first->Ok_0@.len() > MAX_CANDIDATES,
            !distinct_public_ids(first->Ok_0@),
            candidates_view(first->Ok_0@) != candidates_view(second->Ok_0@),
        )),
{
    let first = match first {
        Ok(value) => value,
        Err(_) => {
            let v = vec![ContractViolation::CallFailed];
            return Err(v);
        },
    };
    let second = match second {
        Ok(value) => value,
        Err(_) => {
            let v = vec![ContractViolation::CallFailed];
            return Err(v);
        },
    };
    let too_many = first.len() > MAX_CANDIDATES;
    let duplicate = !public_ids_distinct(&first);
    let differ = !same_candidates(&first, &second);
    let mut failures: Vec<ContractViolation> = Vec::new();
    if too_many {
        failures.push(ContractViolation::TooManyCandidates);
    }
    if duplicate {
        failures.push(ContractViolation::DuplicatePublicId);
    }
    if differ {
        failures.push(ContractViolation::NonDeterministic);
    }
    assert(failures@ =~= expected_violations(too_many, duplicate, differ));
    if failures.len() == 0 {
        Ok(())
    } else {
        Err(failures)
    }
}

/// Runs the same search twice and judges the two answers (see [`judge`]);
/// a first call that fails is not repeated.
pub fn check<S: SubtitleCandidateSearch>(search: &mut S, request: &SubtitleCandidateSearchRequest) -> (result:
    Result<(), Vec<ContractViolation>>)
    ensures
        result matches Err(found) ==> found@.len() > 0,
        exists|first: Result<Vec<SubtitleCandidate>, SubtitleCandidateSearchError>,
            second: Result<Vec<SubtitleCandidate>, SubtitleCandidateSearchError>|
            #[trigger] judged(result, first, second),
{
    let first = search.search(request);
    if first.is_err() {
        let v = vec![ContractViolation::CallFailed];
        assert(v@ =~= seq![ContractViolation::CallFailed]);
        assert(judged(Err(v), first, first));
        return Err(v);
    }
    let second = search.search(request);
    let ghost (a, b) = (first, second);
    let result = judge(first, second);
    assert(judged(result, a, b));
    result
}

} // verus!
