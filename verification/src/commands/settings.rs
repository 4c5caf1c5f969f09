//! What the settings commands of the interface do to the settings record:
//! prompts, word suggestions, model environments and the MCP port. Loading
//! the record before and storing it after are left to the caller.

use vstd::prelude::*;
use crate::ids::{is_uuid_v4_text, new_uuid_v4};
use crate::settings::{
    default_env_valid, env_ids, lemma_default_at, lemma_default_same_ids, prompt_ids, AppSettings, LLMPrompt, ModelEnvironment,
    WordSuggestion,
};
use crate::text::{
    first_index, lemma_first_index, lemma_first_index_at, lemma_first_index_none, push_str,
    str_eq, string_of,
};

verus! {

/// `prefix` followed by `detail`, as one message.
pub fn message(prefix: &str, detail: &str) -> (r: String)
    ensures
        r@ == prefix@ + detail@,
{
    let mut r = string_of(prefix);
    push_str(&mut r, detail);
    r
}

/// The settings with only the prompts and the selected prompt possibly
/// changed.
pub open spec fn only_prompts_changed(new: AppSettings, old: AppSettings) -> bool {
    new == (AppSettings {
        post_process_prompts: new.post_process_prompts,
        post_process_selected_prompt_id: new.post_process_selected_prompt_id,
        ..old
    })
}

/// The settings with only the vocabulary lists possibly changed.
pub open spec fn only_words_changed(new: AppSettings, old: AppSettings) -> bool {
    new == (AppSettings {
        custom_words: new.custom_words,
        word_suggestions: new.word_suggestions,
        dismissed_suggestions: new.dismissed_suggestions,
        ..old
    })
}

/// The settings with only the environments and the default environment
/// possibly changed.
pub open spec fn only_envs_changed(new: AppSettings, old: AppSettings) -> bool {
    new == (AppSettings {
        model_environments: new.model_environments,
        default_environment_id: new.default_environment_id,
        ..old
    })
}

// ---------------------------------------------------------------------------
// Prompts
// ---------------------------------------------------------------------------

/// Saves a new prompt under the id `id` and returns it.
pub fn add_post_process_prompt_with_id(settings: &mut AppSettings, id: String, name: String, prompt: String) -> (r: LLMPrompt)
    ensures
        r == (LLMPrompt { id, name, prompt }),
        final(settings).post_process_prompts@ == old(settings).post_process_prompts@.push(r),
        final(settings).post_process_selected_prompt_id == old(settings).post_process_selected_prompt_id,
        only_prompts_changed(*final(settings), *old(settings)),
{
    let new_prompt = LLMPrompt { id, name, prompt };
    let stored = new_prompt.duplicate();
    settings.post_process_prompts.push(stored);
    new_prompt
}

/// Saves a new prompt under a fresh random id and returns it.
pub fn add_post_process_prompt(settings: &mut AppSettings, name: String, prompt: String) -> (r: LLMPrompt)
    ensures
        is_uuid_v4_text(r.id@),
        r.name == name,
        r.prompt == prompt,
        final(settings).post_process_prompts@ == old(settings).post_process_prompts@.push(r),
        final(settings).post_process_selected_prompt_id == old(settings).post_process_selected_prompt_id,
        only_prompts_changed(*final(settings), *old(settings)),
{
    add_post_process_prompt_with_id(settings, new_uuid_v4(), name, prompt)
}

fn find_prompt(ps: &Vec<LLMPrompt>, id: &str) -> (r: Option<usize>)
    ensures
        match r {
            Some(i) => i < ps@.len() && first_index(prompt_ids(ps@), id@) == Some(i as int),
            None => first_index(prompt_ids(ps@), id@) is None,
        },
{
    let mut i: usize = 0;
    while i < ps.len()
        invariant
            i <= ps.len(),
            forall|j: int| 0 <= j < i ==> prompt_ids(ps@)[j] != id@,
        decreases ps.len() - i,
    {
        if str_eq(ps[i].id.as_str(), id) {
            proof {
                lemma_first_index_at(prompt_ids(ps@), id@, i as int);
            }
            return Some(i);
        }
        i = i + 1;
    }
    proof {
        lemma_first_index_none(prompt_ids(ps@), id@);
    }
    None
}

/// Renames and rewrites the first prompt with id `id`; without one, fails
/// with "Prompt not found: <id>" and changes nothing.
pub fn update_post_process_prompt(settings: &mut AppSettings, id: &str, name: String, prompt: String) -> (r: Result<(), String>)
    ensures
        match first_index(prompt_ids(old(settings).post_process_prompts@), id@) {
            Some(i) => {
                &&& r is Ok
                &&& final(settings).post_process_prompts@ == old(settings).post_process_prompts@.update(
                    i,
                    LLMPrompt { id: old(settings).post_process_prompts@[i].id, name, prompt },
                )
                &&& final(settings).post_process_selected_prompt_id == old(settings).post_process_selected_prompt_id
                &&& only_prompts_changed(*final(settings), *old(settings))
            },
            None => {
                &&& r matches Err(e) && e@ == "Prompt not found: "@ + id@
                &&& *final(settings) == *old(settings)
            },
        },
{
    match find_prompt(&settings.post_process_prompts, id) {
        Some(i) => {
            let existing_id = settings.post_process_prompts[i].id.clone();
            settings.post_process_prompts.set(i, LLMPrompt { id: existing_id, name, prompt });
            Ok(())
        },
        None => Err(message("Prompt not found: ", id)),
    }
}

/// The prompts other than those with id `id`.
pub open spec fn prompts_without(ps: Seq<LLMPrompt>, id: Seq<char>) -> Seq<LLMPrompt> {
    ps.filter(|p: LLMPrompt| p.id@ != id)
}

fn remove_prompts(ps: &Vec<LLMPrompt>, id: &str) -> (r: Vec<LLMPrompt>)
    ensures
        r@ == prompts_without(ps@, id@),
{
    let mut out: Vec<LLMPrompt> = Vec::new();
    let mut i: usize = 0;
    while i < ps.len()
        invariant
            i <= ps.len(),
            out@ == ps@.take(i as int).filter(|p: LLMPrompt| p.id@ != id@),
        decreases ps.len() - i,
    {
        proof {
            reveal_with_fuel(Seq::<LLMPrompt>::filter, 1);
            assert(ps@.take(i + 1).drop_last() =~= ps@.take(i as int));
        }
        if !str_eq(ps[i].id.as_str(), id) {
            out.push(ps[i].duplicate());
        }
        i = i + 1;
    }
    assert(ps@.take(ps.len() as int) =~= ps@);
    out
}

pub(crate) proof fn lemma_filter_shorter_iff_contains<A>(s: Seq<A>, pred: spec_fn(A) -> bool)
    ensures
        s.filter(pred).len() < s.len() <==> exists|i: int| 0 <= i < s.len() && !pred(#[trigger] s[i]),
    decreases s.len(),
{
    reveal(Seq::filter);
    if s.len() > 0 {
        lemma_filter_shorter_iff_contains(s.drop_last(), pred);
        s.drop_last().lemma_filter_len(pred);
        if exists|i: int| 0 <= i < s.drop_last().len() && !pred(#[trigger] s.drop_last()[i]) {
            let i = choose|i: int| 0 <= i < s.drop_last().len() && !pred(#[trigger] s.drop_last()[i]);
            assert(s[i] == s.drop_last()[i]);
        }
        if exists|i: int| 0 <= i < s.len() && !pred(#[trigger] s[i]) {
            let i = choose|i: int| 0 <= i < s.len() && !pred(#[trigger] s[i]);
            if i < s.len() - 1 {
                assert(s.drop_last()[i] == s[i]);
            }
        }
    }
}

fn replace_prompts(prompts: &mut Vec<LLMPrompt>, selected: &mut Option<String>, kept: Vec<LLMPrompt>, id: &str)
    ensures
        final(prompts)@ == kept@,
        *final(selected) == (match *old(selected) {
            Some(sel) => if sel@ == id@ {
                None
            } else {
                Some(sel)
            },
            None => None,
        }),
{
    *prompts = kept;
    let clear = match selected {
        Some(sel) => str_eq(sel.as_str(), id),
        None => false,
    };
    if clear {
        *selected = None;
    }
}

/// Deletes every prompt with id `id`, clearing the selection if it was
/// selected; fails with "Prompt not found: <id>" (and changes nothing) when
/// no prompt has that id.
pub fn delete_post_process_prompt(settings: &mut AppSettings, id: &str) -> (r: Result<(), String>)
    ensures
        prompt_ids(old(settings).post_process_prompts@).contains(id@) ==> {
            &&& r is Ok
            &&& final(settings).post_process_prompts@ == prompts_without(
                old(settings).post_process_prompts@,
                id@,
            )
            &&& final(settings).post_process_selected_prompt_id == (match old(
                settings,
            ).post_process_selected_prompt_id {
                Some(sel) => if sel@ == id@ {
                    None
                } else {
                    Some(sel)
                },
                None => None,
            })
            &&& only_prompts_changed(*final(settings), *old(settings))
        },
        !prompt_ids(old(settings).post_process_prompts@).contains(id@) ==> {
            &&& r matches Err(e) && e@ == "Prompt not found: "@ + id@
            &&& *final(settings) == *old(settings)
        },
{
    let kept = remove_prompts(&settings.post_process_prompts, id);
    proof {
        lemma_filter_shorter_iff_contains(
            settings.post_process_prompts@,
            |p: LLMPrompt| p.id@ != id@,
        );
        if prompt_ids(settings.post_process_prompts@).contains(id@) {
            let k = choose|k: int|
                0 <= k < prompt_ids(settings.post_process_prompts@).len() && prompt_ids(
                    settings.post_process_prompts@,
                )[k] == id@;
            assert(settings.post_process_prompts@[k].id@ == id@);
        } else {
            assert forall|k: int|
                0 <= k < settings.post_process_prompts@.len() implies settings.post_process_prompts@[k].id@
                != id@ by {
                assert(prompt_ids(settings.post_process_prompts@)[k] == settings.post_process_prompts@[k].id@);
            }
        }
    }
    if kept.len() < settings.post_process_prompts.len() {
        replace_prompts(
            &mut settings.post_process_prompts,
            &mut settings.post_process_selected_prompt_id,
            kept,
            id,
        );
        Ok(())
    } else {
        Err(message("Prompt not found: ", id))
    }
}

/// Selects the prompt with id `id`; the empty id clears the selection.
pub fn set_post_process_selected_prompt(settings: &mut AppSettings, id: String)
    ensures
        final(settings).post_process_selected_prompt_id == (if id@.len() == 0 {
            None
        } else {
            Some(id)
        }),
        final(settings).post_process_prompts == old(settings).post_process_prompts,
        only_prompts_changed(*final(settings), *old(settings)),
{
    settings.post_process_selected_prompt_id = if id.as_str().is_empty() {
        None
    } else {
        Some(id)
    };
}

// ---------------------------------------------------------------------------
// Word suggestions
// ---------------------------------------------------------------------------

/// The words of a list of suggestions.
pub open spec fn suggestion_words(ss: Seq<WordSuggestion>) -> Seq<Seq<char>> {
    ss.map_values(|s: WordSuggestion| s.word@)
}

/// The views of a list of words.
pub open spec fn word_views(ws: Seq<String>) -> Seq<Seq<char>> {
    ws.map_values(|w: String| w@)
}

/// The suggestions for words other than `word`.
pub open spec fn suggestions_without(ss: Seq<WordSuggestion>, word: Seq<char>) -> Seq<
    WordSuggestion,
> {
    ss.filter(|s: WordSuggestion| s.word@ != word)
}

/// `ws` with `w` appended unless already present.
pub open spec fn with_word(ws: Seq<String>, w: String) -> Seq<String> {
    if word_views(ws).contains(w@) {
        ws
    } else {
        ws.push(w)
    }
}

fn contains_word(ws: &Vec<String>, w: &str) -> (r: bool)
    ensures
        r == word_views(ws@).contains(w@),
{
    let mut i: usize = 0;
    while i < ws.len()
        invariant
            i <= ws.len(),
            forall|j: int| 0 <= j < i ==> ws@[j]@ != w@,
        decreases ws.len() - i,
    {
        if str_eq(ws[i].as_str(), w) {
            assert(word_views(ws@)[i as int] == w@);
            return true;
        }
        i = i + 1;
    }
    assert forall|j: int| 0 <= j < word_views(ws@).len() implies word_views(ws@)[j] != w@ by {}
    false
}

fn has_suggestion(ss: &Vec<WordSuggestion>, w: &str) -> (r: bool)
    ensures
        r == suggestion_words(ss@).contains(w@),
{
    let mut i: usize = 0;
    while i < ss.len()
        invariant
            i <= ss.len(),
            forall|j: int| 0 <= j < i ==> ss@[j].word@ != w@,
        decreases ss.len() - i,
    {
        if str_eq(ss[i].word.as_str(), w) {
            assert(suggestion_words(ss@)[i as int] == w@);
            return true;
        }
        i = i + 1;
    }
    assert forall|j: int| 0 <= j < suggestion_words(ss@).len() implies suggestion_words(ss@)[j]
        != w@ by {}
    false
}

fn remove_suggestions(ss: &Vec<WordSuggestion>, w: &str) -> (r: Vec<WordSuggestion>)
    ensures
        r@ == suggestions_without(ss@, w@),
{
    let mut out: Vec<WordSuggestion> = Vec::new();
    let mut i: usize = 0;
    while i < ss.len()
        invariant
            i <= ss.len(),
            out@ == ss@.take(i as int).filter(|s: WordSuggestion| s.word@ != w@),
        decreases ss.len() - i,
    {
        proof {
            reveal_with_fuel(Seq::<WordSuggestion>::filter, 1);
            assert(ss@.take(i + 1).drop_last() =~= ss@.take(i as int));
        }
        if !str_eq(ss[i].word.as_str(), w) {
            let s = &ss[i];
            out.push(
                WordSuggestion {
                    word: s.word.clone(),
                    source_session_title: s.source_session_title.clone(),
                    source_session_id: s.source_session_id.clone(),
                },
            );
        }
        i = i + 1;
    }
    assert(ss@.take(ss.len() as int) =~= ss@);
    out
}

fn add_word_once(ws: &mut Vec<String>, w: &String)
    ensures
        final(ws)@ == with_word(old(ws)@, *w),
{
    if !contains_word(ws, w.as_str()) {
        ws.push(w.clone());
    }
}

fn drop_suggestions_of(ss: &mut Vec<WordSuggestion>, w: &str)
    ensures
        final(ss)@ == suggestions_without(old(ss)@, w@),
{
    let kept = remove_suggestions(ss, w);
    *ss = kept;
}

/// Accepts a suggested word: it joins the custom words (once) and every
/// suggestion of it is dropped.
pub fn approve_word_suggestion(settings: &mut AppSettings, word: String)
    ensures
        final(settings).custom_words@ == with_word(old(settings).custom_words@, word),
        final(settings).word_suggestions@ == suggestions_without(
            old(settings).word_suggestions@,
            word@,
        ),
        final(settings).dismissed_suggestions == old(settings).dismissed_suggestions,
        only_words_changed(*final(settings), *old(settings)),
{
    add_word_once(&mut settings.custom_words, &word);
    drop_suggestions_of(&mut settings.word_suggestions, word.as_str());
}

/// Rejects a suggested word: it joins the dismissed words (once), so it is
/// not suggested again, and every suggestion of it is dropped.
pub fn dismiss_word_suggestion(settings: &mut AppSettings, word: String)
    ensures
        final(settings).dismissed_suggestions@ == with_word(
            old(settings).dismissed_suggestions@,
            word,
        ),
        final(settings).word_suggestions@ == suggestions_without(
            old(settings).word_suggestions@,
            word@,
        ),
        final(settings).custom_words == old(settings).custom_words,
        only_words_changed(*final(settings), *old(settings)),
{
    add_word_once(&mut settings.dismissed_suggestions, &word);
    drop_suggestions_of(&mut settings.word_suggestions, word.as_str());
}

/// Whether a word may be suggested: it is not a custom word, not dismissed,
/// and not suggested already.
pub open spec fn may_suggest(s: AppSettings, word: Seq<char>) -> bool {
    &&& !word_views(s.custom_words@).contains(word)
    &&& !word_views(s.dismissed_suggestions@).contains(word)
    &&& !suggestion_words(s.word_suggestions@).contains(word)
}

/// Records a word suggested from a note, unless it is already a custom word,
/// dismissed, or suggested. Reports whether it was recorded.
pub fn add_word_suggestion(settings: &mut AppSettings, word: String, session_title: String, session_id: String) -> (added: bool)
    ensures
        added == may_suggest(*old(settings), word@),
        added ==> final(settings).word_suggestions@ == old(settings).word_suggestions@.push(
            WordSuggestion {
                word,
                source_session_title: session_title,
                source_session_id: session_id,
            },
        ),
        added ==> only_words_changed(*final(settings), *old(settings))
            && final(settings).custom_words == old(settings).custom_words
            && final(settings).dismissed_suggestions == old(settings).dismissed_suggestions,
        !added ==> *final(settings) == *old(settings),
{
    if contains_word(&settings.custom_words, word.as_str()) || contains_word(
        &settings.dismissed_suggestions,
        word.as_str(),
    ) || has_suggestion(&settings.word_suggestions, word.as_str()) {
        return false;
    }
    settings.word_suggestions.push(
        WordSuggestion {
            word,
            source_session_title: session_title,
            source_session_id: session_id,
        },
    );
    true
}

// ---------------------------------------------------------------------------
// Model environments
// ---------------------------------------------------------------------------

/// The most environments a user may keep.
pub open spec fn max_environments() -> int {
    3
}

fn add_environment(envs: &mut Vec<ModelEnvironment>, default_id: &mut Option<String>, env: ModelEnvironment, id: String)
    ensures
        final(envs)@ == old(envs)@.push(env),
        *final(default_id) == (if old(envs)@.len() == 0 {
            Some(id)
        } else {
            *old(default_id)
        }),
{
    envs.push(env);
    if envs.len() == 1 {
        *default_id = Some(id);
    }
}

/// Creates an environment under the id `id`; the first one becomes the
/// default. Fails with "Maximum of 3 environments allowed" (changing
/// nothing) when three exist already.
pub fn create_environment_with_id(
    settings: &mut AppSettings,
    id: String,
    name: String,
    color: String,
    base_url: String,
    api_key: String,
    summarisation_model: String,
    chat_model: String,
) -> (r: Result<ModelEnvironment, String>)
    ensures
        default_env_valid(*old(settings)) ==> default_env_valid(*final(settings)),
        old(settings).model_environments@.len() >= max_environments() ==> {
            &&& r matches Err(e) && e@ == "Maximum of 3 environments allowed"@
            &&& *final(settings) == *old(settings)
        },
        old(settings).model_environments@.len() < max_environments() ==> {
            &&& r matches Ok(env) && env == (ModelEnvironment {
                id,
                name,
                color,
                base_url,
                api_key,
                summarisation_model,
                chat_model,
                model: env.model,
            }) && env.model@.len() == 0
                && final(settings).model_environments@ == old(settings).model_environments@.push(env)
            &&& final(settings).default_environment_id == (if old(settings).model_environments@.len() == 0 {
                Some(id)
            } else {
                old(settings).default_environment_id
            })
            &&& only_envs_changed(*final(settings), *old(settings))
        },
{
    if settings.model_environments.len() >= 3 {
        return Err(string_of("Maximum of 3 environments allowed"));
    }
    let new_env = ModelEnvironment {
        id: id.clone(),
        name,
        color,
        base_url,
        api_key,
        summarisation_model,
        chat_model,
        model: String::new(),
    };
    let ghost before = *settings;
    add_environment(
        &mut settings.model_environments,
        &mut settings.default_environment_id,
        new_env.duplicate(),
        id,
    );
    proof {
        if before.model_environments@.len() == 0 {
            lemma_default_at(*settings, 0);
        } else if default_env_valid(before) && before.default_environment_id is Some {
            let d = before.default_environment_id->0;
            assert(env_ids(before.model_environments@).len() == before.model_environments@.len());
            let k = choose|k: int|
                0 <= k < env_ids(before.model_environments@).len() && env_ids(
                    before.model_environments@,
                )[k] == d@;
            assert(settings.model_environments@[k] == before.model_environments@[k]);
            lemma_default_at(*settings, k);
        }
    }
    Ok(new_env)
}

/// Creates an environment under a fresh random id; see
/// `create_environment_with_id`.
pub fn create_environment(
    settings: &mut AppSettings,
    name: String,
    color: String,
    base_url: String,
    api_key: String,
    summarisation_model: String,
    chat_model: String,
) -> (r: Result<ModelEnvironment, String>)
    ensures
        default_env_valid(*old(settings)) ==> default_env_valid(*final(settings)),
        old(settings).model_environments@.len() >= max_environments() ==> {
            &&& r matches Err(e) && e@ == "Maximum of 3 environments allowed"@
            &&& *final(settings) == *old(settings)
        },
        old(settings).model_environments@.len() < max_environments() ==> {
            &&& r matches Ok(env) && is_uuid_v4_text(env.id@) && env.name == name && env.color == color && env.base_url
                == base_url && env.api_key == api_key && env.summarisation_model
                == summarisation_model && env.chat_model == chat_model && env.model@.len() == 0
                && final(settings).model_environments@ == old(settings).model_environments@.push(env)
                && final(settings).default_environment_id == (if old(settings).model_environments@.len() == 0 {
                Some(env.id)
            } else {
                old(settings).default_environment_id
            })
            &&& only_envs_changed(*final(settings), *old(settings))
        },
{
    if settings.model_environments.len() >= 3 {
        return Err(string_of("Maximum of 3 environments allowed"));
    }
    create_environment_with_id(
        settings,
        new_uuid_v4(),
        name,
        color,
        base_url,
        api_key,
        summarisation_model,
        chat_model,
    )
}

/// `old` with each field that has a new value replaced.
pub open spec fn env_updated(
    old: ModelEnvironment,
    name: Option<String>,
    color: Option<String>,
    base_url: Option<String>,
    api_key: Option<String>,
    summarisation_model: Option<String>,
    chat_model: Option<String>,
) -> ModelEnvironment {
    ModelEnvironment {
        id: old.id,
        name: match name {
            Some(n) => n,
            None => old.name,
        },
        color: match color {
            Some(c) => c,
            None => old.color,
        },
        base_url: match base_url {
            Some(u) => u,
            None => old.base_url,
        },
        api_key: match api_key {
            Some(k) => k,
            None => old.api_key,
        },
        summarisation_model: match summarisation_model {
            Some(m) => m,
            None => old.summarisation_model,
        },
        chat_model: match chat_model {
            Some(m) => m,
            None => old.chat_model,
        },
        model: old.model,
    }
}

/// Updating an environment gives each field that was given a value that
/// value and keeps every other field; its id and its single model never
/// change. An update that gives nothing changes nothing, and giving only a
/// base URL changes the base URL alone.
pub proof fn law_update_sets_exactly_the_given_fields(
    old: ModelEnvironment,
    name: Option<String>,
    color: Option<String>,
    base_url: Option<String>,
    api_key: Option<String>,
    summarisation_model: Option<String>,
    chat_model: Option<String>,
)
    ensures
        ({
            let e = env_updated(old, name, color, base_url, api_key, summarisation_model, chat_model);
            &&& e.id == old.id
            &&& e.model == old.model
            &&& (name matches Some(n) ==> e.name == n) && (name is None ==> e.name == old.name)
            &&& (color matches Some(c) ==> e.color == c) && (color is None ==> e.color == old.color)
            &&& (base_url matches Some(u) ==> e.base_url == u) && (base_url is None ==> e.base_url
                == old.base_url)
            &&& (api_key matches Some(k) ==> e.api_key == k) && (api_key is None ==> e.api_key
                == old.api_key)
            &&& (summarisation_model matches Some(m) ==> e.summarisation_model == m) && (
            summarisation_model is None ==> e.summarisation_model == old.summarisation_model)
            &&& (chat_model matches Some(m) ==> e.chat_model == m) && (chat_model is None
                ==> e.chat_model == old.chat_model)
        }),
        env_updated(old, None, None, None, None, None, None) == old,
        base_url matches Some(u) ==> env_updated(old, None, None, base_url, None, None, None) == (
        ModelEnvironment { base_url: u, ..old }),
{
}

/// Changes the given fields of the first environment with id `id` and
/// returns it as changed; without one, fails with "Environment not found:
/// <id>" and changes nothing.
pub fn update_environment(
    settings: &mut AppSettings,
    id: &str,
    name: Option<String>,
    color: Option<String>,
    base_url: Option<String>,
    api_key: Option<String>,
    summarisation_model: Option<String>,
    chat_model: Option<String>,
) -> (r: Result<ModelEnvironment, String>)
    ensures
        default_env_valid(*old(settings)) ==> default_env_valid(*final(settings)),
        match first_index(env_ids(old(settings).model_environments@), id@) {
            Some(i) => {
                let updated = env_updated(
                    old(settings).model_environments@[i],
                    name,
                    color,
                    base_url,
                    api_key,
                    summarisation_model,
                    chat_model,
                );
                &&& r == Ok::<ModelEnvironment, String>(updated)
                &&& final(settings).model_environments@ == old(settings).model_environments@.update(
                    i,
                    updated,
                )
                &&& final(settings).default_environment_id == old(settings).default_environment_id
                &&& only_envs_changed(*final(settings), *old(settings))
            },
            None => {
                &&& r matches Err(e) && e@ == "Environment not found: "@ + id@
                &&& *final(settings) == *old(settings)
            },
        },
{
    let i = match settings.environment_index(id) {
        Some(i) => i,
        None => return Err(message("Environment not found: ", id)),
    };
    let e = &settings.model_environments[i];
    let updated = ModelEnvironment {
        id: e.id.clone(),
        name: match name {
            Some(n) => n,
            None => e.name.clone(),
        },
        color: match color {
            Some(c) => c,
            None => e.color.clone(),
        },
        base_url: match base_url {
            Some(u) => u,
            None => e.base_url.clone(),
        },
        api_key: match api_key {
            Some(k) => k,
            None => e.api_key.clone(),
        },
        summarisation_model: match summarisation_model {
            Some(m) => m,
            None => e.summarisation_model.clone(),
        },
        chat_model: match chat_model {
            Some(m) => m,
            None => e.chat_model.clone(),
        },
        model: e.model.clone(),
    };
    let result = updated.duplicate();
    let ghost before = *settings;
    settings.model_environments.set(i, updated);
    proof {
        if default_env_valid(before) {
            lemma_default_same_ids(before, *settings);
        }
    }
    Ok(result)
}

/// The environments other than those with id `id`.
pub open spec fn envs_without(es: Seq<ModelEnvironment>, id: Seq<char>) -> Seq<ModelEnvironment> {
    es.filter(other_env(id))
}

/// Whether an environment is not the one with id `id`.
pub open spec fn other_env(id: Seq<char>) -> spec_fn(ModelEnvironment) -> bool {
    |e: ModelEnvironment| e.id@ != id
}

/// Deleting an environment removes every environment with that id, keeps
/// every other one, and brings in none that was not there.
pub proof fn law_delete_removes_exactly_that_environment(es: Seq<ModelEnvironment>, id: Seq<char>, i: int)
    ensures
        forall|k: int| 0 <= k < envs_without(es, id).len() ==> (#[trigger] envs_without(es, id)[k]).id@
            != id,
        0 <= i < es.len() && es[i].id@ != id ==> envs_without(es, id).contains(es[i]),
        forall|k: int|
            0 <= k < envs_without(es, id).len() ==> es.contains(#[trigger] envs_without(es, id)[k]),
{
    broadcast use vstd::seq_lib::group_filter_ensures;

    let kept = envs_without(es, id);
    assert forall|k: int| 0 <= k < kept.len() implies es.contains(#[trigger] kept[k]) by {
        assert(kept.contains(kept[k]));
        es.lemma_filter_contains_rev(other_env(id), kept[k]);
    }
}

fn remove_envs(es: &Vec<ModelEnvironment>, id: &str) -> (r: Vec<ModelEnvironment>)
    ensures
        r@ == envs_without(es@, id@),
{
    let mut out: Vec<ModelEnvironment> = Vec::new();
    let mut i: usize = 0;
    while i < es.len()
        invariant
            i <= es.len(),
            out@ == es@.take(i as int).filter(|e: ModelEnvironment| e.id@ != id@),
        decreases es.len() - i,
    {
        proof {
            reveal_with_fuel(Seq::<ModelEnvironment>::filter, 1);
            assert(es@.take(i + 1).drop_last() =~= es@.take(i as int));
        }
        if !str_eq(es[i].id.as_str(), id) {
            out.push(es[i].duplicate());
        }
        i = i + 1;
    }
    assert(es@.take(es.len() as int) =~= es@);
    out
}

fn replace_environments(envs: &mut Vec<ModelEnvironment>, default_id: &mut Option<String>, kept: Vec<ModelEnvironment>, id: &str)
    ensures
        final(envs)@ == kept@,
        *final(default_id) == (match *old(default_id) {
            Some(d) => if d@ == id@ {
                if kept@.len() > 0 {
                    Some(kept@[0].id)
                } else {
                    None
                }
            } else {
                Some(d)
            },
            None => None,
        }),
{
    let was_default = match default_id {
        Some(d) => str_eq(d.as_str(), id),
        None => false,
    };
    *envs = kept;
    if was_default {
        *default_id = if envs.len() > 0 {
            Some(envs[0].id.clone())
        } else {
            None
        };
    }
}

/// Deletes every environment with id `id`. `notes_using` is the number of
/// notes that use the environment. Fails, changing nothing, with "Cannot
/// delete the last environment" when at most one environment exists, else
/// with "Cannot delete environment: <n> note(s) are using it. Reassign them
/// first." when notes use it, else with "Environment not found: <id>". When
/// the default environment is deleted, the first remaining one becomes the
/// default.
pub fn delete_environment(settings: &mut AppSettings, id: &str, notes_using: u64) -> (r: Result<(), String>)
    ensures
        default_env_valid(*old(settings)) ==> default_env_valid(*final(settings)),
        old(settings).model_environments@.len() <= 1 ==> {
            &&& r matches Err(e) && e@ == "Cannot delete the last environment"@
            &&& *final(settings) == *old(settings)
        },
        old(settings).model_environments@.len() > 1 && notes_using > 0 ==> {
            &&& r matches Err(e) && e@ == "Cannot delete environment: "@ + crate::text::decimal(
                notes_using as nat,
            ) + " note(s) are using it. Reassign them first."@
            &&& *final(settings) == *old(settings)
        },
        old(settings).model_environments@.len() > 1 && notes_using == 0 && !env_ids(
            old(settings).model_environments@,
        ).contains(id@) ==> {
            &&& r matches Err(e) && e@ == "Environment not found: "@ + id@
            &&& *final(settings) == *old(settings)
        },
        old(settings).model_environments@.len() > 1 && notes_using == 0 && env_ids(
            old(settings).model_environments@,
        ).contains(id@) ==> {
            let kept = envs_without(old(settings).model_environments@, id@);
            &&& r is Ok
            &&& final(settings).model_environments@ == kept
            &&& final(settings).default_environment_id == (match old(
                settings,
            ).default_environment_id {
                Some(d) => if d@ == id@ {
                    if kept.len() > 0 {
                        Some(kept[0].id)
                    } else {
                        None
                    }
                } else {
                    Some(d)
                },
                None => None,
            })
            &&& only_envs_changed(*final(settings), *old(settings))
        },
{
    if settings.model_environments.len() <= 1 {
        return Err(string_of("Cannot delete the last environment"));
    }
    if notes_using > 0 {
        let mut m = string_of("Cannot delete environment: ");
        let n = crate::text::u64_to_decimal(notes_using);
        push_str(&mut m, n.as_str());
        push_str(&mut m, " note(s) are using it. Reassign them first.");
        return Err(m);
    }
    let kept = remove_envs(&settings.model_environments, id);
    proof {
        lemma_filter_shorter_iff_contains(
            settings.model_environments@,
            |e: ModelEnvironment| e.id@ != id@,
        );
        if env_ids(settings.model_environments@).contains(id@) {
            let k = choose|k: int|
                0 <= k < env_ids(settings.model_environments@).len() && env_ids(
                    settings.model_environments@,
                )[k] == id@;
            assert(settings.model_environments@[k].id@ == id@);
        } else {
            assert forall|k: int|
                0 <= k < settings.model_environments@.len() implies settings.model_environments@[k].id@
                != id@ by {
                assert(env_ids(settings.model_environments@)[k] == settings.model_environments@[k].id@);
            }
        }
    }
    proof {
        broadcast use vstd::seq_lib::group_filter_ensures;

        if default_env_valid(*settings) && settings.default_environment_id is Some {
            let d = settings.default_environment_id->0;
            if d@ != id@ {
                let k = choose|k: int|
                    0 <= k < env_ids(settings.model_environments@).len() && env_ids(
                        settings.model_environments@,
                    )[k] == d@;
                let e = settings.model_environments@[k];
                assert(e.id@ == d@);
                assert(kept@.contains(e));
                let j = choose|j: int| 0 <= j < kept@.len() && kept@[j] == e;
                assert(env_ids(kept@)[j] == d@);
                assert(env_ids(kept@).contains(d@));
            }
        }
    }
    if kept.len() < settings.model_environments.len() {
        let ghost before = *settings;
        let ghost kept_view = kept@;
        replace_environments(
            &mut settings.model_environments,
            &mut settings.default_environment_id,
            kept,
            id,
        );
        proof {
            if default_env_valid(before) && before.default_environment_id is Some {
                let d = before.default_environment_id->0;
                if d@ == id@ {
                    if kept_view.len() > 0 {
                        lemma_default_at(*settings, 0);
                    }
                } else {
                    assert(env_ids(kept_view).contains(d@));
                }
            }
        }
        Ok(())
    } else {
        Err(message("Environment not found: ", id))
    }
}

/// Makes the environment `id` the default; fails with "Environment not
/// found: <id>" (changing nothing) when no environment has that id.
pub fn set_default_environment(settings: &mut AppSettings, id: String) -> (r: Result<(), String>)
    ensures
        default_env_valid(*old(settings)) ==> default_env_valid(*final(settings)),
        env_ids(old(settings).model_environments@).contains(id@) ==> {
            &&& r is Ok
            &&& *final(settings) == (AppSettings {
                default_environment_id: Some(id),
                ..*old(settings)
            })
        },
        !env_ids(old(settings).model_environments@).contains(id@) ==> {
            &&& r matches Err(e) && e@ == "Environment not found: "@ + id@
            &&& *final(settings) == *old(settings)
        },
{
    match settings.environment_index(id.as_str()) {
        Some(_) => {
            proof {
                lemma_first_index(env_ids(settings.model_environments@), id@);
            }
            settings.default_environment_id = Some(id);
            Ok(())
        },
        None => {
            proof {
                lemma_first_index(env_ids(settings.model_environments@), id@);
            }
            Err(message("Environment not found: ", id.as_str()))
        },
    }
}

// ---------------------------------------------------------------------------
// MCP server and startup flags
// ---------------------------------------------------------------------------

/// Sets the MCP server port; ports below 1024 are refused with "Port must
/// be >= 1024" and change nothing.
pub fn change_mcp_port_setting(settings: &mut AppSettings, port: u16) -> (r: Result<(), String>)
    ensures
        port < 1024 ==> {
            &&& r matches Err(e) && e@ == "Port must be >= 1024"@
            &&& *final(settings) == *old(settings)
        },
        port >= 1024 ==> {
            &&& r is Ok
            &&& *final(settings) == (AppSettings { mcp_port: port, ..*old(settings) })
        },
{
    if port < 1024 {
        return Err(string_of("Port must be >= 1024"));
    }
    settings.mcp_port = port;
    Ok(())
}

/// Reads and clears the flag set when startup promoted the selected model:
/// true once after a promotion, false thereafter.
pub fn consume_pending_promotion(settings: &mut AppSettings) -> (was_pending: bool)
    ensures
        was_pending == old(settings).pending_promotion,
        *final(settings) == (AppSettings { pending_promotion: false, ..*old(settings) }),
{
    if settings.pending_promotion {
        settings.pending_promotion = false;
        true
    } else {
        false
    }
}

/// The directory holding user data: the custom one when set, else the
/// application data directory `app_data_dir`.
pub fn user_data_directory(settings: &AppSettings, app_data_dir: &str) -> (r: String)
    ensures
        r@ == (match settings.data_directory {
            Some(d) => d@,
            None => app_data_dir@,
        }),
{
    match &settings.data_directory {
        Some(d) => d.clone(),
        None => string_of(app_data_dir),
    }
}

} // verus!
