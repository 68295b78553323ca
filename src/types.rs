use vstd::prelude::*;

verus! {

/// The character sequences held by a sequence of strings.
pub open spec fn texts(v: Seq<String>) -> Seq<Seq<char>> {
    v.map_values(|s: String| s@)
}

/// Whether `v` holds a string equal to `s`.
pub fn contains_text(v: &Vec<String>, s: &String) -> (r: bool)
    ensures
        r == texts(v@).contains(s@),
{
    let mut i: usize = 0;
    while i < v.len()
        invariant
            i <= v.len(),
            forall|k: int| 0 <= k < i ==> v@[k]@ != s@,
        decreases v.len() - i,
    {
        if v[i] == *s {
            assert(texts(v@)[i as int] == s@);
            return true;
        }
        i = i + 1;
    }
    proof {
        if texts(v@).contains(s@) {
            let k = choose|k: int| 0 <= k < texts(v@).len() && texts(v@)[k] == s@;
            assert(v@[k]@ == s@);
        }
    }
    false
}

/// Provenance of the primary record of an entry.
#[derive(Debug, Clone, Copy, PartialEq, Eq, Structural)]
pub enum DataSource {
    Local,
    Online,
}

impl DataSource {
    /// Human-readable name of the source, shown beneath a found entry.
    pub fn label(&self) -> (r: &'static str)
        ensures
            *self == DataSource::Local ==> r@ == "ECDICT (本地)"@,
            *self == DataSource::Online ==> r@ == "Free Dictionary API (在线)"@,
    {
        match self {
            DataSource::Local => "ECDICT (本地)",
            DataSource::Online => "Free Dictionary API (在线)",
        }
    }
}

/// An example sentence with an optional translation.
#[derive(Debug, Clone)]
pub struct Example {
    pub english: String,
    pub chinese: Option<String>,
}

/// The canonical lookup record.
#[derive(Debug, Clone)]
pub struct DictionaryEntry {
    pub word: String,
    pub phonetic: Option<String>,
    pub translation: Option<String>,
    pub definition: Option<String>,
    pub pos: Option<String>,
    pub exchange: Option<String>,
    pub tag: Option<String>,
    pub examples: Vec<Example>,
    pub source: DataSource,
}

/// The text held by an optional string.
pub open spec fn opt_text(o: Option<String>) -> Option<Seq<char>> {
    match o {
        Some(s) => Some(s@),
        None => None,
    }
}

/// Mathematical model of an example sentence.
pub struct ExampleView {
    pub english: Seq<char>,
    pub chinese: Option<Seq<char>>,
}

impl View for Example {
    type V = ExampleView;

    open spec fn view(&self) -> ExampleView {
        ExampleView { english: self.english@, chinese: opt_text(self.chinese) }
    }
}

/// The models of a sequence of examples.
pub open spec fn example_views(v: Seq<Example>) -> Seq<ExampleView> {
    v.map_values(|e: Example| e@)
}

/// Mathematical model of an entry.
pub struct EntryView {
    pub word: Seq<char>,
    pub phonetic: Option<Seq<char>>,
    pub translation: Option<Seq<char>>,
    pub definition: Option<Seq<char>>,
    pub pos: Option<Seq<char>>,
    pub exchange: Option<Seq<char>>,
    pub tag: Option<Seq<char>>,
    pub examples: Seq<ExampleView>,
    pub source: DataSource,
}

impl View for DictionaryEntry {
    type V = EntryView;

    open spec fn view(&self) -> EntryView {
        EntryView {
            word: self.word@,
            phonetic: opt_text(self.phonetic),
            translation: opt_text(self.translation),
            definition: opt_text(self.definition),
            pos: opt_text(self.pos),
            exchange: opt_text(self.exchange),
            tag: opt_text(self.tag),
            examples: example_views(self.examples@),
            source: self.source,
        }
    }
}

impl DictionaryEntry {
    /// A record of the local dataset: every field but the examples, which the
    /// dataset does not hold, with local provenance.
    pub fn from_local(
        word: String,
        phonetic: Option<String>,
        definition: Option<String>,
        translation: Option<String>,
        pos: Option<String>,
        exchange: Option<String>,
        tag: Option<String>,
    ) -> (r: DictionaryEntry)
        ensures
            r.word == word,
            r.phonetic == phonetic,
            r.definition == definition,
            r.translation == translation,
            r.pos == pos,
            r.exchange == exchange,
            r.tag == tag,
            r.examples@.len() == 0,
            r.source == DataSource::Local,
    {
        DictionaryEntry {
            word,
            phonetic,
            translation,
            definition,
            pos,
            exchange,
            tag,
            examples: Vec::new(),
            source: DataSource::Local,
        }
    }
}

/// The model of an optional entry.
pub open spec fn opt_entry(o: Option<DictionaryEntry>) -> Option<EntryView> {
    match o {
        Some(e) => Some(e@),
        None => None,
    }
}

/// Mathematical model of a lookup outcome.
pub enum ResultView {
    Found(EntryView),
    NotFound,
    Suggestions(Seq<Seq<char>>),
}

/// Outcome of one lookup.
#[derive(Debug)]
pub enum LookupResult {
    Found(DictionaryEntry),
    NotFound,
    Suggestions(Vec<String>),
}

impl View for LookupResult {
    type V = ResultView;

    open spec fn view(&self) -> ResultView {
        match self {
            LookupResult::Found(e) => ResultView::Found(e@),
            LookupResult::NotFound => ResultView::NotFound,
            LookupResult::Suggestions(s) => ResultView::Suggestions(texts(s@)),
        }
    }
}

/// Per-call configuration of a lookup.
#[derive(Debug, Clone, Copy, PartialEq, Eq, Structural)]
pub struct LookupOptions {
    pub show_english: bool,
    pub show_examples: bool,
    pub force_online: bool,
    pub max_examples: usize,
}

/// A failure of the local store (unreachable or corrupt data).
#[derive(Debug, Clone)]
pub struct DictError {
    pub message: String,
}

} // verus!
