//! The MCP tools over the user's notes: which notes they may show, and what
//! the listing, fetching and search tools answer from the notes the session
//! store handed over.
//!
//! A note is visible when one of its labels is among the exposed labels, or
//! when it has no label and untagged notes are exposed.

use vstd::prelude::*;
use crate::commands::settings::word_views;
use crate::settings::AppSettings;
use crate::text::{str_eq, string_of};

verus! {

/// The exposure settings the tools apply to every call.
#[derive(Debug)]
pub struct Visibility {
    pub exposed_label_ids: Vec<String>,
    pub expose_untagged: bool,
}

/// Parameters of the tool that lists notes (it takes none).
#[derive(Debug)]
pub struct ListNotesParams {}

/// Parameters of the tool that fetches one note.
#[derive(Debug)]
pub struct GetNoteParams {
    /// The note id (returned by the listing and search tools).
    pub id: String,
}

/// Parameters of the search tool.
#[derive(Debug)]
pub struct SearchNotesParams {
    /// Free-text search query.
    pub query: String,
}

/// Whether a note with the label ids `tags` may be shown.
pub open spec fn spec_note_is_visible(tags: Seq<Seq<char>>, exposed: Seq<Seq<char>>, expose_untagged: bool) -> bool {
    if tags.len() == 0 {
        expose_untagged
    } else {
        exists|i: int| 0 <= i < tags.len() && exposed.contains(#[trigger] tags[i])
    }
}

/// A labelled note may be shown exactly when one of its labels, wherever it
/// stands among them, is exposed, whatever the untagged flag says; a note
/// without labels exactly when untagged notes are exposed. Giving a shown
/// labelled note one more label never hides it.
pub proof fn law_visible_when_some_label_is_exposed(
    tags: Seq<Seq<char>>,
    exposed: Seq<Seq<char>>,
    expose_untagged: bool,
    i: int,
    extra: Seq<char>,
)
    ensures
        0 <= i < tags.len() && exposed.contains(tags[i]) ==> spec_note_is_visible(
            tags,
            exposed,
            expose_untagged,
        ),
        tags.len() > 0 && (forall|j: int| 0 <= j < tags.len() ==> !exposed.contains(#[trigger] tags[j]))
            ==> !spec_note_is_visible(tags, exposed, expose_untagged),
        tags.len() == 0 ==> spec_note_is_visible(tags, exposed, expose_untagged) == expose_untagged,
        tags.len() > 0 ==> spec_note_is_visible(tags, exposed, true) == spec_note_is_visible(
            tags,
            exposed,
            false,
        ),
        tags.len() > 0 && spec_note_is_visible(tags, exposed, expose_untagged) ==> spec_note_is_visible(
            tags.push(extra),
            exposed,
            expose_untagged,
        ),
{
    if 0 <= i < tags.len() && exposed.contains(tags[i]) {
        assert(exposed.contains(tags[i]));
    }
    if tags.len() > 0 && spec_note_is_visible(tags, exposed, expose_untagged) {
        let j = choose|j: int| 0 <= j < tags.len() && exposed.contains(#[trigger] tags[j]);
        assert(tags.push(extra)[j] == tags[j]);
    }
}

/// The exposure settings taken from the settings record.
pub fn build_visibility(settings: &AppSettings) -> (v: Visibility)
    ensures
        v.exposed_label_ids@ == settings.mcp_exposed_label_ids@,
        v.expose_untagged == settings.mcp_expose_untagged,
{
    Visibility {
        exposed_label_ids: crate::mcp::oauth::store::clone_strings(&settings.mcp_exposed_label_ids),
        expose_untagged: settings.mcp_expose_untagged,
    }
}

/// Whether a note with the label ids `tag_ids` may be shown.
pub fn note_is_visible(tag_ids: &Vec<String>, v: &Visibility) -> (r: bool)
    ensures
        r == spec_note_is_visible(
            word_views(tag_ids@),
            word_views(v.exposed_label_ids@),
            v.expose_untagged,
        ),
{
    if tag_ids.len() == 0 {
        return v.expose_untagged;
    }
    let mut i: usize = 0;
    while i < tag_ids.len()
        invariant
            i <= tag_ids.len(),
            forall|j: int|
                0 <= j < i ==> !word_views(v.exposed_label_ids@).contains(
                    #[trigger] word_views(tag_ids@)[j],
                ),
        decreases tag_ids.len() - i,
    {
        let mut k: usize = 0;
        while k < v.exposed_label_ids.len()
            invariant
                k <= v.exposed_label_ids.len(),
                i < tag_ids.len(),
                forall|m: int| 0 <= m < k ==> v.exposed_label_ids@[m]@ != tag_ids@[i as int]@,
            decreases v.exposed_label_ids.len() - k,
        {
            if str_eq(v.exposed_label_ids[k].as_str(), tag_ids[i].as_str()) {
                assert(word_views(v.exposed_label_ids@)[k as int] == word_views(tag_ids@)[i as int]);
                return true;
            }
            k = k + 1;
        }
        assert(!word_views(v.exposed_label_ids@).contains(word_views(tag_ids@)[i as int])) by {
            if word_views(v.exposed_label_ids@).contains(word_views(tag_ids@)[i as int]) {
                let m = choose|m: int|
                    0 <= m < word_views(v.exposed_label_ids@).len() && word_views(
                        v.exposed_label_ids@,
                    )[m] == word_views(tag_ids@)[i as int];
                assert(v.exposed_label_ids@[m]@ == tag_ids@[i as int]@);
            }
        }
        i = i + 1;
    }
    false
}

/// The instructions the server gives to MCP clients.
pub fn server_instructions() -> (r: String)
    ensures
        r@ == "Talky MCP server. Exposes a configurable subset of the user's notes (transcripts, AI-generated summaries, and the user's typed notes). The user controls which labels are visible from the Talky settings page."@,
{
    string_of(
        "Talky MCP server. Exposes a configurable subset of the user's notes (transcripts, AI-generated summaries, and the user's typed notes). The user controls which labels are visible from the Talky settings page.",
    )
}

/// A label of a note.
#[derive(Debug)]
pub struct LabelDto {
    pub id: String,
    pub name: String,
}

/// A note as the listing tool shows it.
#[derive(Debug)]
pub struct NoteSummary {
    pub id: String,
    pub title: String,
    pub started_at: i64,
    pub ended_at: Option<i64>,
    pub labels: Vec<LabelDto>,
}

/// A segment of a note's transcript.
#[derive(Debug)]
pub struct TranscriptSegmentDto {
    pub source: String,
    pub start_ms: i64,
    pub end_ms: i64,
    pub text: String,
}

/// A note as the fetching tool shows it.
#[derive(Debug)]
pub struct NoteDetail {
    pub id: String,
    pub title: String,
    pub started_at: i64,
    pub ended_at: Option<i64>,
    pub labels: Vec<LabelDto>,
    pub summary: Option<String>,
    pub action_items: Option<String>,
    pub decisions: Option<String>,
    pub user_notes: Option<String>,
    pub enhanced_notes: Option<String>,
    pub transcript: Vec<TranscriptSegmentDto>,
}

/// A search hit as the search tool shows it.
#[derive(Debug)]
pub struct SearchResult {
    pub id: String,
    pub title: String,
    pub started_at: i64,
    pub matched_field: String,
    pub snippet: String,
}

/// A search hit with the label ids of its note.
#[derive(Debug)]
pub struct SearchHit {
    pub result: SearchResult,
    pub tag_ids: Vec<String>,
}

/// The label ids of a list of labels.
pub open spec fn label_ids(labels: Seq<LabelDto>) -> Seq<Seq<char>> {
    labels.map_values(|l: LabelDto| l.id@)
}

/// Whether a note with these labels may be shown under `exposed` and
/// `expose_untagged`.
pub open spec fn visible_summary(exposed: Seq<Seq<char>>, expose_untagged: bool) -> spec_fn(NoteSummary) -> bool {
    |n: NoteSummary| spec_note_is_visible(label_ids(n.labels@), exposed, expose_untagged)
}

/// Whether a search hit may be shown under `exposed` and `expose_untagged`.
pub open spec fn visible_hit(exposed: Seq<Seq<char>>, expose_untagged: bool) -> spec_fn(SearchHit) -> bool {
    |h: SearchHit| spec_note_is_visible(word_views(h.tag_ids@), exposed, expose_untagged)
}

fn label_id_list(labels: &Vec<LabelDto>) -> (r: Vec<String>)
    ensures
        word_views(r@) == label_ids(labels@),
{
    let mut r: Vec<String> = Vec::new();
    let mut i: usize = 0;
    while i < labels.len()
        invariant
            i <= labels.len(),
            r@.len() == i,
            word_views(r@) == label_ids(labels@).take(i as int),
        decreases labels.len() - i,
    {
        let id = labels[i].id.clone();
        assert(id@ == label_ids(labels@)[i as int]);
        let ghost prev = r@;
        r.push(id);
        proof {
            assert forall|j: int| 0 <= j < i + 1 implies word_views(r@)[j] == label_ids(labels@)[j] by {
                if j < i {
                    assert(r@[j] == prev[j]);
                    assert(word_views(prev)[j] == label_ids(labels@).take(i as int)[j]);
                }
            }
        }
        i = i + 1;
        assert(word_views(r@) =~= label_ids(labels@).take(i as int));
    }
    assert(label_ids(labels@).take(labels.len() as int) =~= label_ids(labels@));
    r
}

/// What the listing tool answers: the notes that may be shown, in the
/// order given.
pub fn list_notes(notes: Vec<NoteSummary>, v: &Visibility) -> (r: Vec<NoteSummary>)
    ensures
        r@ == notes@.filter(
            visible_summary(word_views(v.exposed_label_ids@), v.expose_untagged),
        ),
{
    let ghost all = notes@;
    let total = notes.len();
    let ghost keep = visible_summary(word_views(v.exposed_label_ids@), v.expose_untagged);
    let mut rest = notes;
    let mut out: Vec<NoteSummary> = Vec::new();
    let mut k: usize = 0;
    proof {
        reveal_with_fuel(Seq::<NoteSummary>::filter, 1);
        assert(all.take(0) =~= Seq::<NoteSummary>::empty());
        assert(all.skip(0) =~= all);
    }
    while rest.len() > 0
        invariant
            k <= all.len(),
            rest@ == all.skip(k as int),
            rest@.len() + k == all.len(),
            all.len() == total,
            out@ == all.take(k as int).filter(keep),
            keep == visible_summary(word_views(v.exposed_label_ids@), v.expose_untagged),
        decreases rest.len(),
    {
        let n = rest.remove(0);
        proof {
            assert(n == all[k as int]);
            assert(all.skip(k as int).remove(0) =~= all.skip(k + 1));
            reveal_with_fuel(Seq::<NoteSummary>::filter, 1);
            assert(all.take(k + 1).drop_last() =~= all.take(k as int));
            assert(all.take(k + 1).last() == n);
        }
        let ids = label_id_list(&n.labels);
        if note_is_visible(&ids, v) {
            out.push(n);
        }
        k = k + 1;
    }
    assert(all.take(all.len() as int) =~= all);
    out
}

/// The search results of a list of hits.
pub open spec fn hit_results(hits: Seq<SearchHit>) -> Seq<SearchResult> {
    hits.map_values(|h: SearchHit| h.result)
}

/// What the search tool answers: the hits on notes that may be shown, in
/// the order given.
pub fn search_notes(hits: Vec<SearchHit>, v: &Visibility) -> (r: Vec<SearchResult>)
    ensures
        r@ == hit_results(
            hits@.filter(visible_hit(word_views(v.exposed_label_ids@), v.expose_untagged)),
        ),
{
    let ghost all = hits@;
    let total = hits.len();
    let ghost keep = visible_hit(word_views(v.exposed_label_ids@), v.expose_untagged);
    let mut rest = hits;
    let mut out: Vec<SearchResult> = Vec::new();
    let mut k: usize = 0;
    proof {
        reveal_with_fuel(Seq::<SearchHit>::filter, 1);
        assert(all.take(0) =~= Seq::<SearchHit>::empty());
        assert(all.skip(0) =~= all);
        assert(out@ =~= hit_results(all.take(0).filter(keep)));
    }
    while rest.len() > 0
        invariant
            k <= all.len(),
            rest@ == all.skip(k as int),
            rest@.len() + k == all.len(),
            all.len() == total,
            out@ == hit_results(all.take(k as int).filter(keep)),
            keep == visible_hit(word_views(v.exposed_label_ids@), v.expose_untagged),
        decreases rest.len(),
    {
        let h = rest.remove(0);
        proof {
            assert(h == all[k as int]);
            assert(all.skip(k as int).remove(0) =~= all.skip(k + 1));
            reveal_with_fuel(Seq::<SearchHit>::filter, 1);
            assert(all.take(k + 1).drop_last() =~= all.take(k as int));
            assert(all.take(k + 1).last() == h);
        }
        let ghost before = out@;
        if note_is_visible(&h.tag_ids, v) {
            out.push(h.result);
            proof {
                assert(all.take(k + 1).filter(keep) == all.take(k as int).filter(keep).push(h));
                assert(out@ =~= hit_results(all.take(k + 1).filter(keep)));
            }
        }
        k = k + 1;
    }
    assert(all.take(all.len() as int) =~= all);
    out
}

/// The answer of the fetching tool for a note that may not be shown; it
/// does not tell a hidden note from a missing one.
pub fn hidden_note_message() -> (r: String)
    ensures
        r@ == "Note not found or not exposed via MCP"@,
{
    string_of("Note not found or not exposed via MCP")
}

/// What the fetching tool finds for a note id.
#[derive(Debug)]
pub enum NoteLookup {
    /// The note, which may be shown.
    Found(NoteDetail),
    /// No note that may be shown has that id: either the note may not be
    /// shown or there is none. The two are answered alike, so a client learns
    /// nothing of notes it may not see.
    Hidden,
}

/// What the fetching tool answers for a note with the label ids `tag_ids`,
/// `stored` being the note the session store holds under that id: the note
/// when it exists and may be shown, and otherwise the one answer that does
/// not tell a hidden note from a missing one.
pub fn get_note(tag_ids: &Vec<String>, v: &Visibility, stored: Option<NoteDetail>) -> (r: NoteLookup)
    ensures
        match stored {
            Some(n) => if spec_note_is_visible(
                word_views(tag_ids@),
                word_views(v.exposed_label_ids@),
                v.expose_untagged,
            ) {
                r == NoteLookup::Found(n)
            } else {
                r is Hidden
            },
            None => r is Hidden,
        },
{
    if !note_is_visible(tag_ids, v) {
        return NoteLookup::Hidden;
    }
    match stored {
        Some(n) => NoteLookup::Found(n),
        None => NoteLookup::Hidden,
    }
}

/// The listing tool shows only notes that may be shown, and every one of
/// them that it was given.
pub proof fn law_listed_notes_are_exactly_the_visible(notes: Seq<NoteSummary>, exposed: Seq<Seq<char>>, expose_untagged: bool)
    ensures
        forall|i: int|
            0 <= i < notes.filter(visible_summary(exposed, expose_untagged)).len()
                ==> spec_note_is_visible(
                label_ids(
                    #[trigger] notes.filter(visible_summary(exposed, expose_untagged))[i].labels@,
                ),
                exposed,
                expose_untagged,
            ),
        forall|i: int|
            0 <= i < notes.len() && spec_note_is_visible(
                label_ids(#[trigger] notes[i].labels@),
                exposed,
                expose_untagged,
            ) ==> notes.filter(visible_summary(exposed, expose_untagged)).contains(notes[i]),
{
    broadcast use vstd::seq_lib::group_filter_ensures;

    let p = visible_summary(exposed, expose_untagged);
    assert forall|i: int| 0 <= i < notes.filter(p).len() implies spec_note_is_visible(
        label_ids(#[trigger] notes.filter(p)[i].labels@),
        exposed,
        expose_untagged,
    ) by {
        assert(p(notes.filter(p)[i]));
    }
    assert forall|i: int|
        0 <= i < notes.len() && spec_note_is_visible(
            label_ids(#[trigger] notes[i].labels@),
            exposed,
            expose_untagged,
        ) implies notes.filter(p).contains(notes[i]) by {
        assert(p(notes[i]));
    }
}

} // verus!
