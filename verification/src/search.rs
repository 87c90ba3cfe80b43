//! The match engine: fuzzy scoring of one query against one document, and
//! the decision whether the outcome becomes a match record.

use vstd::prelude::*;
use fuzzy_matcher::skim::SkimMatcherV2;
use fuzzy_matcher::FuzzyMatcher;
use crate::ids::fresh_id;
use crate::records::{
    DocumentModel, IndexData, PersistentQuery, QueryModel, RecordModel, TextSource,
};
use crate::spans::{ascending, coalesce, get_contiguous, spans_of};

verus! {

/// What `SkimMatcherV2::fuzzy_indices` returns for a text and a pattern on a
/// matcher that ignores case and has scored nothing before: `None` where the
/// pattern is no subsequence of the text, else the score and the character
/// offsets in the text that carried the match.
pub uninterp spec fn skim_indices(text: Seq<char>, pattern: Seq<char>) -> Option<(i64, Seq<usize>)>;

/// Each position lies beyond the one before it.
pub open spec fn strictly_ascending(s: Seq<usize>) -> bool {
    forall|i: int, j: int| 0 <= i < j < s.len() ==> s[i] < s[j]
}

/// The outcome of the matcher as a mathematical value.
pub open spec fn hit_view(hit: Option<(i64, Vec<usize>)>) -> Option<(i64, Seq<usize>)> {
    match hit {
        Some((score, positions)) => Some((score, positions@)),
        None => None,
    }
}

/// The positions of a hit, if there is one, never step backwards.
pub open spec fn hit_ascending(hit: Option<(i64, Seq<usize>)>) -> bool {
    match hit {
        Some((_, positions)) => ascending(positions),
        None => true,
    }
}

/// A match of a query in a text, with its highlighted spans.
#[derive(Debug, PartialEq, Eq, Clone)]
pub struct MatchInformation {
    /// The text that was searched.
    pub raw_text: String,
    /// The matcher's score.
    pub score: i64,
    /// The matched positions, coalesced into inclusive ranges.
    pub positions: Vec<[usize; 2]>,
}

/// What a [`MatchInformation`] is, as a mathematical value.
pub struct MatchModel {
    pub raw_text: Seq<char>,
    pub score: i64,
    pub positions: Seq<(usize, usize)>,
}

impl View for MatchInformation {
    type V = MatchModel;

    open spec fn view(&self) -> MatchModel {
        MatchModel {
            raw_text: self.raw_text@,
            score: self.score,
            positions: spans_of(self.positions@),
        }
    }
}

/// The match information that a matcher outcome stands for: the score as
/// given, and the positions coalesced into spans.
pub open spec fn found(text: Seq<char>, hit: Option<(i64, Seq<usize>)>) -> Option<MatchModel> {
    match hit {
        Some((score, positions)) => Some(
            MatchModel { raw_text: text, score, positions: coalesce(positions) },
        ),
        None => None,
    }
}

/// The view of an optional match.
pub open spec fn found_view(info: Option<MatchInformation>) -> Option<MatchModel> {
    match info {
        Some(m) => Some(m@),
        None => None,
    }
}

/// A match is accepted when there is one and its score reaches the query's
/// threshold.
pub open spec fn accepted(query: QueryModel, info: Option<MatchModel>) -> bool {
    match info {
        Some(m) => m.score >= query.score_threshold,
        None => false,
    }
}

/// The record that an accepted match of `query` in `document` becomes under
/// the record key `key`.
pub open spec fn record_of(
    query: QueryModel,
    document: DocumentModel,
    info: MatchModel,
    key: u64,
) -> RecordModel {
    RecordModel {
        source_query: query.id,
        key,
        document_id: document.id,
        name: document.name,
        match_indices: info.positions,
        score: info.score,
    }
}

/// Turns a matcher outcome into match information by coalescing the matched
/// positions into spans. No hit gives no information.
pub fn match_information(text: &str, hit: Option<(i64, Vec<usize>)>) -> (out: Option<
    MatchInformation,
>)
    requires
        hit_ascending(hit_view(hit)),
    ensures
        found_view(out) == found(text@, hit_view(hit)),
{
    match hit {
        Some((score, positions)) => {
            let indices = get_contiguous(positions.as_slice());
            Some(MatchInformation { raw_text: text.to_owned(), score, positions: indices })
        },
        None => None,
    }
}

/// Decides whether a match becomes a record: it does exactly when there is a
/// match and its score is at least the query's threshold. The record then
/// names the query and the document, and carries the match's score and
/// spans under the given key.
pub fn index_record(
    query: &PersistentQuery,
    text_src: &TextSource,
    info: Option<MatchInformation>,
    key: u64,
) -> (out: Option<IndexData>)
    ensures
        out.is_some() <==> accepted(query@, found_view(info)),
        out.is_some() ==> out.unwrap()@ == record_of(
            query@,
            text_src@,
            found_view(info).unwrap(),
            key,
        ),
{
    match info {
        Some(m) => {
            if m.score >= query.score_threshold {
                let name = match &text_src.name {
                    Some(label) => Some(label.clone()),
                    None => None,
                };
                Some(
                    IndexData {
                        source_query: query.id,
                        key,
                        document_id: text_src.id,
                        name,
                        match_indices: m.positions,
                        score: m.score,
                    },
                )
            } else {
                None
            }
        },
        None => None,
    }
}

/// Scores `query` against `text` with `SkimMatcherV2::fuzzy_indices`, on a
/// matcher that is made for this one call by `SkimMatcherV2::default`,
/// `ignore_case` and `use_cache`. Such a matcher starts from empty scratch
/// memory, so the outcome depends on the two strings alone and goes by the
/// name [`skim_indices`]. The positions of a hit come out of the matcher's
/// backtracking reversed, each beyond the one before.
#[verifier::external_body]
fn skim_fuzzy_indices(text: &str, query: &str) -> (hit: Option<(i64, Vec<usize>)>)
    ensures
        hit_view(hit) == skim_indices(text@, query@),
        hit.is_some() ==> strictly_ascending(hit.unwrap().1@),
{
    SkimMatcherV2::default().ignore_case().use_cache(true).fuzzy_indices(text, query)
}

/// The match engine. It keeps nothing between calls: every text is scored
/// from scratch, so that equal inputs always score alike.
pub struct Searcher {}

impl Searcher {
    /// A match engine that ignores case.
    pub fn new() -> Searcher {
        Searcher {}
    }

    /// Scores `query` against `text`. `None` means that the text does not
    /// match at all; a threshold plays no part here.
    pub fn search_raw(&self, query: &str, text: &str) -> (out: Option<MatchInformation>)
        ensures
            found_view(out) == found(text@, skim_indices(text@, query@)),
    {
        let hit = skim_fuzzy_indices(text, query);
        match_information(text, hit)
    }

    /// Matches a document against a standing query. A record comes back
    /// exactly when the text matches with a score that reaches the query's
    /// threshold; it carries a freshly drawn key.
    pub fn search(&self, query: &PersistentQuery, text_src: &TextSource) -> (out: Option<
        IndexData,
    >)
        ensures
            out.is_some() <==> accepted(query@, outcome(query@, text_src@)),
            out.is_some() ==> out.unwrap()@ == record_of(
                query@,
                text_src@,
                outcome(query@, text_src@).unwrap(),
                out.unwrap().key,
            ),
    {
        let info = self.search_raw(query.query.as_str(), text_src.data.as_str());
        index_record(query, text_src, info, fresh_id())
    }
}

/// What scoring `query` against `document` finds.
pub open spec fn outcome(query: QueryModel, document: DocumentModel) -> Option<MatchModel> {
    found(document.data, skim_indices(document.data, query.query))
}

} // verus!
