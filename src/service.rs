use vstd::prelude::*;

use crate::display::{trim, trimmed_of};
use crate::suggest::{lower_of, to_lowercase};
use crate::types::{
    example_views, opt_entry, texts, DictError, DictionaryEntry, EntryView, LookupOptions,
    LookupResult, ResultView,
};

verus! {

/// How many suggestions the local source is asked for when no exact entry exists.
pub const SUGGESTION_LIMIT: usize = 5;

/// A lookup backend: exact lookup, approximate search, availability.
pub trait Dictionary {
    fn lookup(&self, query: &str) -> Result<Option<DictionaryEntry>, DictError>;

    fn fuzzy_search(&self, query: &str, limit: usize) -> Result<Vec<String>, DictError>;

    fn is_available(&self) -> bool;

    fn name(&self) -> &str;
}

/// The form in which a query reaches the sources: trimmed, then lowercased.
pub open spec fn normalized(query: Seq<char>) -> Seq<char> {
    lower_of(trimmed_of(query))
}

/// Trims and lowercases a query.
pub fn normalize_query(query: &str) -> (r: String)
    ensures
        r@ == normalized(query@),
{
    to_lowercase(trim(query))
}

/// The first source a lookup consults.
#[derive(Debug, Clone, Copy, PartialEq, Eq, Structural)]
pub enum FirstStep {
    Local,
    Remote,
    Nothing,
}

/// Which source is consulted first: forced-remote mode goes to the remote
/// source alone; otherwise the local source when present, else the remote one.
pub open spec fn first_step_spec(options: LookupOptions, has_local: bool, has_remote: bool) -> FirstStep {
    if options.force_online {
        if has_remote {
            FirstStep::Remote
        } else {
            FirstStep::Nothing
        }
    } else if has_local {
        FirstStep::Local
    } else if has_remote {
        FirstStep::Remote
    } else {
        FirstStep::Nothing
    }
}

/// Decides the first source to consult.
pub fn first_step(options: &LookupOptions, has_local: bool, has_remote: bool) -> (r: FirstStep)
    ensures
        r == first_step_spec(*options, has_local, has_remote),
{
    if options.force_online {
        if has_remote {
            FirstStep::Remote
        } else {
            FirstStep::Nothing
        }
    } else if has_local {
        FirstStep::Local
    } else if has_remote {
        FirstStep::Remote
    } else {
        FirstStep::Nothing
    }
}

/// A local entry lacks something that the options ask to show.
pub open spec fn needs_supplement_spec(e: EntryView, options: LookupOptions) -> bool {
    (options.show_examples && e.examples.len() == 0) || (options.show_english
        && e.definition is None)
}

/// Whether a local entry should be supplemented from the remote source.
pub fn needs_supplement(entry: &DictionaryEntry, options: &LookupOptions) -> (r: bool)
    ensures
        r == needs_supplement_spec(entry@, *options),
{
    (options.show_examples && entry.examples.len() == 0) || (options.show_english
        && entry.definition.is_none())
}

/// Additive merge: a missing definition and an empty example list are taken
/// from the remote entry; nothing present is overwritten.
pub open spec fn supplemented(e: EntryView, remote: Option<EntryView>) -> EntryView {
    match remote {
        Some(r) => EntryView {
            definition: if e.definition is None {
                r.definition
            } else {
                e.definition
            },
            examples: if e.examples.len() == 0 {
                r.examples
            } else {
                e.examples
            },
            ..e
        },
        None => e,
    }
}

/// Fills the gaps of `entry` from `remote`, never overwriting a present value.
pub fn supplement(entry: DictionaryEntry, remote: Option<DictionaryEntry>) -> (r: DictionaryEntry)
    ensures
        r@ == supplemented(entry@, opt_entry(remote)),
{
    let mut entry = entry;
    match remote {
        Some(online) => {
            if entry.definition.is_none() {
                entry.definition = online.definition;
            }
            if entry.examples.len() == 0 {
                entry.examples = online.examples;
            }
            entry
        },
        None => entry,
    }
}

/// `e` with its examples cut to the first `n`.
pub open spec fn truncated(e: EntryView, n: usize) -> EntryView {
    EntryView {
        examples: if e.examples.len() <= n {
            e.examples
        } else {
            e.examples.take(n as int)
        },
        ..e
    }
}

/// Keeps the first `max` examples of `entry`.
pub fn truncate_examples(entry: DictionaryEntry, max: usize) -> (r: DictionaryEntry)
    ensures
        r@ == truncated(entry@, max),
        r.examples.len() <= max,
{
    let mut entry = entry;
    let ghost before = entry.examples@;
    entry.examples.truncate(max);
    proof {
        if before.len() > max {
            assert(example_views(entry.examples@) =~= example_views(before).take(max as int));
        } else {
            assert(entry.examples@ =~= before);
        }
    }
    entry
}

/// The outcome once the local source found `e` and the remote source, if it
/// was asked, answered `remote` (`None` for no answer or failure).
pub open spec fn local_hit_outcome(
    e: EntryView,
    remote: Option<EntryView>,
    options: LookupOptions,
) -> ResultView {
    if needs_supplement_spec(e, options) {
        ResultView::Found(truncated(supplemented(e, remote), options.max_examples))
    } else {
        ResultView::Found(truncated(e, options.max_examples))
    }
}

/// Finishes a lookup whose local source found `entry`; `remote` is the remote
/// answer, consulted only when a supplement is needed.
pub fn finish_local_hit(
    entry: DictionaryEntry,
    remote: Option<DictionaryEntry>,
    options: &LookupOptions,
) -> (r: LookupResult)
    ensures
        r@ == local_hit_outcome(entry@, opt_entry(remote), *options),
        r is Found && r->Found_0.examples.len() <= options.max_examples,
{
    let merged = if needs_supplement(&entry, options) {
        supplement(entry, remote)
    } else {
        entry
    };
    LookupResult::Found(truncate_examples(merged, options.max_examples))
}

/// The outcome when only the remote source decides.
pub open spec fn remote_outcome(remote: Option<EntryView>, options: LookupOptions) -> ResultView {
    match remote {
        Some(e) => ResultView::Found(truncated(e, options.max_examples)),
        None => ResultView::NotFound,
    }
}

/// Finishes a lookup that rests on the remote answer alone.
pub fn finish_remote(remote: Option<DictionaryEntry>, options: &LookupOptions) -> (r: LookupResult)
    ensures
        r@ == remote_outcome(opt_entry(remote), *options),
        r is Found ==> r->Found_0.examples.len() <= options.max_examples,
{
    match remote {
        Some(e) => LookupResult::Found(truncate_examples(e, options.max_examples)),
        None => LookupResult::NotFound,
    }
}

/// The outcome when the local source has no exact entry: its suggestions if
/// there are any, else whatever the remote fallback gives.
pub open spec fn local_miss_outcome(
    suggestions: Seq<Seq<char>>,
    remote: Option<EntryView>,
    options: LookupOptions,
) -> ResultView {
    if suggestions.len() > 0 {
        ResultView::Suggestions(suggestions)
    } else {
        remote_outcome(remote, options)
    }
}

/// Turns local suggestions into the result, or `None` when there are none and
/// the remote fallback decides.
pub fn suggestions_result(suggestions: Vec<String>) -> (r: Option<LookupResult>)
    ensures
        suggestions.len() > 0 ==> r == Some(LookupResult::Suggestions(suggestions)),
        suggestions.len() == 0 ==> r is None,
{
    if suggestions.len() > 0 {
        Some(LookupResult::Suggestions(suggestions))
    } else {
        None
    }
}

/// The remote answer with any failure read as no answer.
pub fn remote_answer(answer: Result<Option<DictionaryEntry>, DictError>) -> (r: Option<
    DictionaryEntry,
>)
    ensures
        answer is Err ==> r is None,
        answer is Ok ==> r == answer->Ok_0,
{
    match answer {
        Ok(found) => found,
        Err(_) => None,
    }
}

/// A result that the policy can give for some answers of the sources: a
/// remote-only outcome, a local hit (supplemented or not), or non-empty local
/// suggestions.
pub open spec fn is_policy_outcome(v: ResultView, options: LookupOptions) -> bool {
    (exists|remote: Option<EntryView>| v == #[trigger] remote_outcome(remote, options)) || (exists|
        e: EntryView,
        remote: Option<EntryView>,
    | v == #[trigger] local_hit_outcome(e, remote, options)) || (v is Suggestions
        && v->Suggestions_0.len() > 0)
}

/// The lookup orchestrator over a local and a remote source.
pub struct DictionaryService<L: Dictionary, R: Dictionary> {
    local: Option<L>,
    online: Option<R>,
}

impl<L: Dictionary, R: Dictionary> DictionaryService<L, R> {
    /// A service over the given sources; either may be absent.
    pub fn new(local: Option<L>, online: Option<R>) -> (r: Self)
        ensures
            r.has_local() == local is Some,
            r.has_online() == online is Some,
    {
        DictionaryService { local, online }
    }

    /// A local source was given.
    pub closed spec fn has_local(&self) -> bool {
        self.local is Some
    }

    /// A remote source was given.
    pub closed spec fn has_online(&self) -> bool {
        self.online is Some
    }

    fn ask_remote(&self, query: &str) -> (r: Option<DictionaryEntry>)
        ensures
            !self.has_online() ==> r is None,
    {
        match &self.online {
            Some(online) => remote_answer(online.lookup(query)),
            None => None,
        }
    }

    /// Looks `query` up. Only a failure of the local source is an error; a
    /// remote failure counts as no remote answer.
    pub fn lookup(&self, query: &str, options: &LookupOptions) -> (r: Result<LookupResult, DictError>)
        ensures
            r is Err ==> !options.force_online && self.has_local(),
            r is Ok ==> is_policy_outcome(r->Ok_0@, *options),
            options.force_online || !self.has_local() ==> r is Ok && exists|
                remote: Option<EntryView>,
            | r->Ok_0@ == #[trigger] remote_outcome(remote, *options),
            options.force_online && !self.has_online() ==> r == Ok::<LookupResult, DictError>(
                LookupResult::NotFound,
            ),
            r is Ok && r->Ok_0 is Found ==> r->Ok_0->Found_0.examples.len() <= options.max_examples,
            r is Ok && r->Ok_0 is Suggestions ==> self.has_local() && r->Ok_0->Suggestions_0.len() > 0,
            !self.has_local() && !self.has_online() ==> r == Ok::<LookupResult, DictError>(
                LookupResult::NotFound,
            ),
    {
        let q = normalize_query(query);
        let has_local = match &self.local {
            Some(l) => l.is_available(),
            None => false,
        };
        match first_step(options, has_local, self.online.is_some()) {
            FirstStep::Nothing => {
                assert(LookupResult::NotFound@ == remote_outcome(None, *options));
                Ok(LookupResult::NotFound)
            },
            FirstStep::Remote => {
                let remote = self.ask_remote(q.as_str());
                let r = finish_remote(remote, options);
                assert(r@ == remote_outcome(opt_entry(remote), *options));
                Ok(r)
            },
            FirstStep::Local => {
                let local = self.local.as_ref().unwrap();
                match local.lookup(q.as_str()) {
                    Err(e) => Err(e),
                    Ok(Some(entry)) => {
                        let remote = if needs_supplement(&entry, options) {
                            self.ask_remote(q.as_str())
                        } else {
                            None
                        };
                        let ghost e = entry@;
                        let r = finish_local_hit(entry, remote, options);
                        assert(r@ == local_hit_outcome(e, opt_entry(remote), *options));
                        Ok(r)
                    },
                    Ok(None) => match local.fuzzy_search(q.as_str(), SUGGESTION_LIMIT) {
                        Err(e) => Err(e),
                        Ok(suggestions) => match suggestions_result(suggestions) {
                            Some(found) => {
                                assert(found@ == ResultView::Suggestions(texts(suggestions@)));
                                Ok(found)
                            },
                            None => {
                                let remote = self.ask_remote(q.as_str());
                                let r = finish_remote(remote, options);
                                assert(r@ == remote_outcome(opt_entry(remote), *options));
                                Ok(r)
                            },
                        },
                    },
                }
            },
        }
    }
}

/// A local entry that already has a definition and examples is returned as
/// it is (examples cut to the maximum), whatever the remote source holds: no
/// supplement is needed, so the remote source is not consulted.
pub proof fn lemma_exact_match_precedence(
    e: EntryView,
    remote: Option<EntryView>,
    options: LookupOptions,
)
    requires
        e.definition is Some,
        e.examples.len() > 0,
    ensures
        !needs_supplement_spec(e, options),
        local_hit_outcome(e, remote, options) == ResultView::Found(
            truncated(e, options.max_examples),
        ),
        local_hit_outcome(e, remote, options)->Found_0.definition == e.definition,
{
}

/// Supplementing an entry that has a definition but no examples keeps its
/// translation and definition and takes the remote examples.
pub proof fn lemma_additive_merge(e: EntryView, remote: EntryView, options: LookupOptions)
    requires
        e.definition is Some,
        e.examples.len() == 0,
        needs_supplement_spec(e, options),
    ensures
        supplemented(e, Some(remote)).examples == remote.examples,
        ({
            let out = local_hit_outcome(e, Some(remote), options)->Found_0;
            &&& out.translation == e.translation
            &&& out.definition == e.definition
            &&& out.examples == truncated(remote, options.max_examples).examples
        }),
{
}

/// Truncation keeps at most `n` examples, and they are a prefix of the
/// original sequence.
pub proof fn lemma_truncation(e: EntryView, n: usize)
    ensures
        truncated(e, n).examples.len() <= n,
        truncated(e, n).examples == e.examples.take(truncated(e, n).examples.len() as int),
{
    assert(e.examples =~= e.examples.take(e.examples.len() as int));
}

/// Local suggestions decide the outcome whatever the remote source would answer.
pub proof fn lemma_suggestion_short_circuit(
    suggestions: Seq<Seq<char>>,
    remote: Option<EntryView>,
    options: LookupOptions,
)
    requires
        suggestions.len() > 0,
    ensures
        local_miss_outcome(suggestions, remote, options) == ResultView::Suggestions(suggestions),
{
}

/// In forced-remote mode the local source is never the first (nor any) source.
pub proof fn lemma_forced_remote_bypass(options: LookupOptions, has_local: bool, has_remote: bool)
    requires
        options.force_online,
    ensures
        first_step_spec(options, has_local, has_remote) != FirstStep::Local,
{
}

/// A remote source that fails (read as no answer) never turns a local entry
/// into anything but that entry, and leaves a miss to the suggestions or to
/// `NotFound`.
pub proof fn lemma_remote_failure_silence(
    e: EntryView,
    suggestions: Seq<Seq<char>>,
    options: LookupOptions,
)
    ensures
        local_hit_outcome(e, None, options) == ResultView::Found(
            truncated(e, options.max_examples),
        ),
        suggestions.len() > 0 ==> local_miss_outcome(suggestions, None, options)
            == ResultView::Suggestions(suggestions),
        suggestions.len() == 0 ==> local_miss_outcome(suggestions, None, options)
            == ResultView::NotFound,
        remote_outcome(None, options) == ResultView::NotFound,
{
}

} // verus!
