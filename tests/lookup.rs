use lango::service::{
    finish_remote, first_step, needs_supplement, normalize_query, supplement, truncate_examples,
    Dictionary, DictionaryService, FirstStep,
};
use lango::types::{DataSource, DictError, DictionaryEntry, Example, LookupOptions, LookupResult};

struct Stub {
    entry: Option<DictionaryEntry>,
    suggestions: Vec<String>,
    fail: bool,
    forbidden: bool,
    key: Option<String>,
}

impl Stub {
    fn new(entry: Option<DictionaryEntry>, suggestions: Vec<String>) -> Stub {
        Stub {
            entry,
            suggestions,
            fail: false,
            forbidden: false,
            key: None,
        }
    }

    fn failing() -> Stub {
        let mut s = Stub::new(None, vec![]);
        s.fail = true;
        s
    }

    fn forbidden() -> Stub {
        let mut s = Stub::new(None, vec![]);
        s.forbidden = true;
        s
    }
}

impl Dictionary for Stub {
    fn lookup(&self, query: &str) -> Result<Option<DictionaryEntry>, DictError> {
        assert!(!self.forbidden, "source must not be consulted");
        if self.fail {
            return Err(DictError { message: "timeout".to_string() });
        }
        match &self.key {
            Some(k) if k != query => Ok(None),
            _ => Ok(self.entry.clone()),
        }
    }

    fn fuzzy_search(&self, _query: &str, limit: usize) -> Result<Vec<String>, DictError> {
        assert!(!self.forbidden, "source must not be consulted");
        if self.fail {
            return Err(DictError { message: "storage".to_string() });
        }
        let mut s = self.suggestions.clone();
        s.truncate(limit);
        Ok(s)
    }

    fn is_available(&self) -> bool {
        true
    }

    fn name(&self) -> &str {
        "stub"
    }
}

fn example(text: &str) -> Example {
    Example { english: text.to_string(), chinese: None }
}

fn local_entry(word: &str, translation: Option<&str>, definition: Option<&str>) -> DictionaryEntry {
    DictionaryEntry::from_local(
        word.to_string(),
        None,
        definition.map(|d| d.to_string()),
        translation.map(|t| t.to_string()),
        None,
        None,
        None,
    )
}

fn remote_entry(word: &str, definition: &str, examples: &[&str]) -> DictionaryEntry {
    DictionaryEntry {
        word: word.to_string(),
        phonetic: Some("/x/".to_string()),
        translation: None,
        definition: Some(definition.to_string()),
        pos: Some("noun".to_string()),
        exchange: None,
        tag: None,
        examples: examples.iter().map(|e| example(e)).collect(),
        source: DataSource::Online,
    }
}

fn options(show_english: bool, show_examples: bool, force_online: bool, max: usize) -> LookupOptions {
    LookupOptions { show_english, show_examples, force_online, max_examples: max }
}

fn englishes(e: &DictionaryEntry) -> Vec<String> {
    e.examples.iter().map(|x| x.english.clone()).collect()
}

#[test]
fn apple_is_supplemented_from_remote() {
    let local = Stub::new(Some(local_entry("apple", Some("n. 苹果"), None)), vec![]);
    let remote = Stub::new(Some(remote_entry("apple", "A round fruit.", &["e1", "e2", "e3"])), vec![]);
    let service = DictionaryService::new(Some(local), Some(remote));
    let r = service.lookup("apple", &options(true, true, false, 2)).unwrap();
    match r {
        LookupResult::Found(e) => {
            assert_eq!(englishes(&e), vec!["e1".to_string(), "e2".to_string()]);
            assert_eq!(e.translation.as_deref(), Some("n. 苹果"));
            assert_eq!(e.definition.as_deref(), Some("A round fruit."));
            assert_eq!(e.source, DataSource::Local);
        }
        other => panic!("unexpected {:?}", other),
    }
}

#[test]
fn local_suggestions_short_circuit_remote() {
    let local = Stub::new(None, vec!["xyz".to_string()]);
    let remote = Stub::forbidden();
    let service = DictionaryService::new(Some(local), Some(remote));
    let r = service.lookup("xyzzzz", &options(false, false, false, 3)).unwrap();
    match r {
        LookupResult::Suggestions(s) => assert_eq!(s, vec!["xyz".to_string()]),
        other => panic!("unexpected {:?}", other),
    }
}

#[test]
fn suggestions_win_even_when_remote_has_entry() {
    let local = Stub::new(None, vec!["helo".to_string(), "hello".to_string()]);
    let remote = Stub::new(Some(remote_entry("hellp", "d", &[])), vec![]);
    let service = DictionaryService::new(Some(local), Some(remote));
    let r = service.lookup("hellp", &options(true, true, false, 3)).unwrap();
    assert!(matches!(r, LookupResult::Suggestions(ref s) if s.len() == 2));
}

#[test]
fn forced_remote_never_consults_local() {
    let local = Stub::forbidden();
    let remote = Stub::new(Some(remote_entry("apple", "fruit", &["a", "b", "c", "d"])), vec![]);
    let service = DictionaryService::new(Some(local), Some(remote));
    let r = service.lookup("apple", &options(true, true, true, 3)).unwrap();
    match r {
        LookupResult::Found(e) => {
            assert_eq!(englishes(&e).len(), 3);
            assert_eq!(e.source, DataSource::Online);
        }
        other => panic!("unexpected {:?}", other),
    }
}

#[test]
fn forced_remote_without_answer_is_not_found() {
    let service = DictionaryService::new(Some(Stub::forbidden()), Some(Stub::new(None, vec![])));
    let r = service.lookup("apple", &options(false, false, true, 3)).unwrap();
    assert!(matches!(r, LookupResult::NotFound));
}

#[test]
fn remote_failure_leaves_local_entry_unsupplemented() {
    let local = Stub::new(Some(local_entry("apple", Some("n. 苹果"), None)), vec![]);
    let service = DictionaryService::new(Some(local), Some(Stub::failing()));
    let r = service.lookup("apple", &options(true, true, false, 3)).unwrap();
    match r {
        LookupResult::Found(e) => {
            assert!(e.definition.is_none());
            assert!(e.examples.is_empty());
            assert_eq!(e.translation.as_deref(), Some("n. 苹果"));
        }
        other => panic!("unexpected {:?}", other),
    }
}

#[test]
fn remote_failure_falls_through_to_not_found() {
    let local = Stub::new(None, vec![]);
    let service = DictionaryService::new(Some(local), Some(Stub::failing()));
    let r = service.lookup("qqq", &options(false, false, false, 3)).unwrap();
    assert!(matches!(r, LookupResult::NotFound));
}

#[test]
fn forced_remote_failure_is_not_found() {
    let service = DictionaryService::new(Some(Stub::forbidden()), Some(Stub::failing()));
    let r = service.lookup("apple", &options(false, false, true, 3)).unwrap();
    assert!(matches!(r, LookupResult::NotFound));
}

#[test]
fn complete_local_entry_skips_remote() {
    let mut entry = local_entry("cat", Some("n. 猫"), Some("A small animal."));
    entry.examples = vec![example("The cat sat."), example("Cats purr.")];
    let local = Stub::new(Some(entry), vec![]);
    let service = DictionaryService::new(Some(local), Some(Stub::forbidden()));
    let r = service.lookup("cat", &options(true, true, false, 5)).unwrap();
    match r {
        LookupResult::Found(e) => {
            assert_eq!(e.definition.as_deref(), Some("A small animal."));
            assert_eq!(englishes(&e), vec!["The cat sat.".to_string(), "Cats purr.".to_string()]);
        }
        other => panic!("unexpected {:?}", other),
    }
}

#[test]
fn additive_merge_keeps_local_definition() {
    let local = Stub::new(Some(local_entry("dog", Some("n. 狗"), Some("Local def."))), vec![]);
    let remote = Stub::new(Some(remote_entry("dog", "Remote def.", &["Dogs bark."])), vec![]);
    let service = DictionaryService::new(Some(local), Some(remote));
    let r = service.lookup("dog", &options(false, true, false, 3)).unwrap();
    match r {
        LookupResult::Found(e) => {
            assert_eq!(e.definition.as_deref(), Some("Local def."));
            assert_eq!(e.translation.as_deref(), Some("n. 狗"));
            assert_eq!(englishes(&e), vec!["Dogs bark.".to_string()]);
        }
        other => panic!("unexpected {:?}", other),
    }
}

#[test]
fn no_supplement_needed_when_not_asked() {
    let local = Stub::new(Some(local_entry("dog", Some("n. 狗"), None)), vec![]);
    let service = DictionaryService::new(Some(local), Some(Stub::forbidden()));
    let r = service.lookup("dog", &options(false, false, false, 3)).unwrap();
    assert!(matches!(r, LookupResult::Found(ref e) if e.definition.is_none()));
}

#[test]
fn local_error_propagates() {
    let service = DictionaryService::new(Some(Stub::failing()), Some(Stub::new(None, vec![])));
    assert!(service.lookup("x", &options(false, false, false, 3)).is_err());
}

#[test]
fn no_sources_is_not_found() {
    let service: DictionaryService<Stub, Stub> = DictionaryService::new(None, None);
    let r = service.lookup("x", &options(true, true, false, 3)).unwrap();
    assert!(matches!(r, LookupResult::NotFound));
}

#[test]
fn without_local_the_remote_decides() {
    let remote = Stub::new(Some(remote_entry("x", "d", &["a"])), vec![]);
    let service: DictionaryService<Stub, Stub> = DictionaryService::new(None, Some(remote));
    let r = service.lookup("x", &options(false, false, false, 3)).unwrap();
    assert!(matches!(r, LookupResult::Found(_)));
}

#[test]
fn query_is_trimmed_and_lowercased() {
    let mut local = Stub::new(Some(local_entry("hello", None, None)), vec![]);
    local.key = Some("hello".to_string());
    let service = DictionaryService::new(Some(local), Some(Stub::forbidden()));
    let r = service.lookup("  HeLLo \n", &options(false, false, false, 3)).unwrap();
    assert!(matches!(r, LookupResult::Found(ref e) if e.word == "hello"));
    assert_eq!(normalize_query("  ÄPFEL "), "äpfel");
    assert_eq!(normalize_query(""), "");
}

#[test]
fn truncation_keeps_a_prefix() {
    let e = remote_entry("w", "d", &["a", "b", "c", "d", "e"]);
    let t = truncate_examples(e.clone(), 3);
    assert_eq!(englishes(&t), vec!["a".to_string(), "b".to_string(), "c".to_string()]);
    let z = truncate_examples(e.clone(), 0);
    assert!(z.examples.is_empty());
    let all = truncate_examples(e, 10);
    assert_eq!(all.examples.len(), 5);
}

#[test]
fn needs_supplement_cases() {
    let bare = local_entry("w", None, None);
    assert!(needs_supplement(&bare, &options(true, false, false, 3)));
    assert!(needs_supplement(&bare, &options(false, true, false, 3)));
    assert!(!needs_supplement(&bare, &options(false, false, false, 3)));
    let with_def = local_entry("w", None, Some("d"));
    assert!(!needs_supplement(&with_def, &options(true, false, false, 3)));
}

#[test]
fn supplement_never_overwrites() {
    let mut local = local_entry("w", Some("t"), Some("local"));
    local.examples = vec![example("mine")];
    let merged = supplement(local, Some(remote_entry("w", "remote", &["theirs"])));
    assert_eq!(merged.definition.as_deref(), Some("local"));
    assert_eq!(englishes(&merged), vec!["mine".to_string()]);
    let unchanged = supplement(local_entry("w", None, None), None);
    assert!(unchanged.definition.is_none());
}

#[test]
fn first_step_policy() {
    assert_eq!(first_step(&options(false, false, true, 3), true, true), FirstStep::Remote);
    assert_eq!(first_step(&options(false, false, true, 3), true, false), FirstStep::Nothing);
    assert_eq!(first_step(&options(false, false, false, 3), true, true), FirstStep::Local);
    assert_eq!(first_step(&options(false, false, false, 3), false, true), FirstStep::Remote);
    assert_eq!(first_step(&options(false, false, false, 3), false, false), FirstStep::Nothing);
}

#[test]
fn finish_remote_cases() {
    assert!(matches!(finish_remote(None, &options(false, false, false, 3)), LookupResult::NotFound));
    let r = finish_remote(Some(remote_entry("w", "d", &["a", "b"])), &options(false, false, false, 1));
    assert!(matches!(r, LookupResult::Found(ref e) if e.examples.len() == 1));
}

#[test]
fn data_source_labels() {
    assert_eq!(DataSource::Local.label(), "ECDICT (本地)");
    assert_eq!(DataSource::Online.label(), "Free Dictionary API (在线)");
}
