use vstd::prelude::*;

use crate::types::{contains_text, opt_text, texts, DataSource, DictionaryEntry, Example, ExampleView, example_views};

verus! {

/// One pronunciation of a remote entry.
#[derive(Debug, Clone)]
pub struct ApiPhonetic {
    pub text: Option<String>,
}

/// One definition of a remote meaning group.
#[derive(Debug, Clone)]
pub struct ApiDefinition {
    pub definition: Option<String>,
    pub example: Option<String>,
}

/// One meaning group of a remote entry.
#[derive(Debug, Clone)]
pub struct ApiMeaning {
    pub part_of_speech: Option<String>,
    pub definitions: Option<Vec<ApiDefinition>>,
}

/// One entry of the remote service's answer.
#[derive(Debug, Clone)]
pub struct ApiResponse {
    pub word: String,
    pub phonetic: Option<String>,
    pub phonetics: Option<Vec<ApiPhonetic>>,
    pub meanings: Option<Vec<ApiMeaning>>,
}

/// The text of the first pronunciation that has one.
pub open spec fn first_phonetic(ps: Seq<ApiPhonetic>) -> Option<Seq<char>>
    decreases ps.len(),
{
    if ps.len() == 0 {
        None
    } else {
        match first_phonetic(ps.drop_last()) {
            Some(t) => Some(t),
            None => opt_text(ps.last().text),
        }
    }
}

/// The pronunciation of a remote entry: its own field, else the first
/// populated one of its list.
pub open spec fn phonetic_of(r: ApiResponse) -> Option<Seq<char>> {
    match r.phonetic {
        Some(p) => Some(p@),
        None => match r.phonetics {
            Some(ps) => first_phonetic(ps@),
            None => None,
        },
    }
}

/// The meaning groups of a remote entry.
pub open spec fn meanings_of(r: ApiResponse) -> Seq<ApiMeaning> {
    match r.meanings {
        Some(ms) => ms@,
        None => Seq::empty(),
    }
}

/// The definitions of one meaning group.
pub open spec fn defs_of(m: ApiMeaning) -> Seq<ApiDefinition> {
    match m.definitions {
        Some(ds) => ds@,
        None => Seq::empty(),
    }
}

/// All definitions of all meaning groups, in document order.
pub open spec fn all_defs(ms: Seq<ApiMeaning>) -> Seq<ApiDefinition>
    decreases ms.len(),
{
    if ms.len() == 0 {
        Seq::empty()
    } else {
        all_defs(ms.drop_last()) + defs_of(ms.last())
    }
}

/// The non-empty definition texts, in order.
pub open spec fn definition_texts(ds: Seq<ApiDefinition>) -> Seq<Seq<char>>
    decreases ds.len(),
{
    if ds.len() == 0 {
        Seq::empty()
    } else {
        let prev = definition_texts(ds.drop_last());
        match ds.last().definition {
            Some(d) => if d@.len() > 0 {
                prev.push(d@)
            } else {
                prev
            },
            None => prev,
        }
    }
}

/// The example sentences, in order.
pub open spec fn example_texts(ds: Seq<ApiDefinition>) -> Seq<Seq<char>>
    decreases ds.len(),
{
    if ds.len() == 0 {
        Seq::empty()
    } else {
        let prev = example_texts(ds.drop_last());
        match ds.last().example {
            Some(x) => prev.push(x@),
            None => prev,
        }
    }
}

/// The distinct part-of-speech tags, in order of first appearance.
pub open spec fn pos_tags(ms: Seq<ApiMeaning>) -> Seq<Seq<char>>
    decreases ms.len(),
{
    if ms.len() == 0 {
        Seq::empty()
    } else {
        let prev = pos_tags(ms.drop_last());
        match ms.last().part_of_speech {
            Some(p) => if prev.contains(p@) {
                prev
            } else {
                prev.push(p@)
            },
            None => prev,
        }
    }
}

/// The parts joined, `sep` between each two.
pub open spec fn joined(parts: Seq<Seq<char>>, sep: Seq<char>) -> Seq<char>
    decreases parts.len(),
{
    if parts.len() == 0 {
        Seq::empty()
    } else if parts.len() == 1 {
        parts[0]
    } else {
        joined(parts.drop_last(), sep) + sep + parts.last()
    }
}

/// The parts joined by `sep`, or nothing when there are none.
pub open spec fn joined_or_none(parts: Seq<Seq<char>>, sep: Seq<char>) -> Option<Seq<char>> {
    if parts.len() == 0 {
        None
    } else {
        Some(joined(parts, sep))
    }
}

/// An example sentence without translation.
pub open spec fn untranslated(english: Seq<char>) -> ExampleView {
    ExampleView { english, chinese: None }
}

/// Joins `parts` with `sep` between each two.
pub fn join(parts: &Vec<String>, sep: &str) -> (r: String)
    ensures
        r@ == joined(texts(parts@), sep@),
{
    let mut r = String::new();
    let mut i: usize = 0;
    while i < parts.len()
        invariant
            i <= parts.len(),
            r@ == joined(texts(parts@.subrange(0, i as int)), sep@),
        decreases parts.len() - i,
    {
        let ghost prev = texts(parts@.subrange(0, i as int));
        let ghost next = texts(parts@.subrange(0, i as int + 1));
        assert(next.drop_last() =~= prev);
        if i > 0 {
            r.append(sep);
        }
        r.append(parts[i].as_str());
        proof {
            if i == 0 {
                assert(r@ =~= next[0]);
            } else {
                assert(r@ =~= joined(prev, sep@) + sep@ + next.last());
            }
        }
        i = i + 1;
    }
    assert(parts@.subrange(0, i as int) =~= parts@);
    r
}

fn joined_or_none_of(parts: &Vec<String>, sep: &str) -> (r: Option<String>)
    ensures
        opt_text(r) == joined_or_none(texts(parts@), sep@),
{
    if parts.len() == 0 {
        None
    } else {
        Some(join(parts, sep))
    }
}

fn phonetic_from(phonetic: Option<String>, phonetics: &Option<Vec<ApiPhonetic>>) -> (r: Option<
    String,
>)
    ensures
        opt_text(r) == (match phonetic {
            Some(p) => Some(p@),
            None => match *phonetics {
                Some(ps) => first_phonetic(ps@),
                None => None,
            },
        }),
{
    match phonetic {
        Some(p) => Some(p),
        None => match phonetics {
            Some(ps) => {
                let mut i: usize = 0;
                while i < ps.len()
                    invariant
                        i <= ps.len(),
                        phonetic is None,
                        *phonetics == Some(*ps),
                        first_phonetic(ps@.subrange(0, i as int)) is None,
                    decreases ps.len() - i,
                {
                    assert(ps@.subrange(0, i as int + 1).drop_last() =~= ps@.subrange(0, i as int));
                    match &ps[i].text {
                        Some(t) => {
                            let found = t.clone();
                            proof {
                                let pre = ps@.subrange(0, i as int + 1);
                                assert(pre.last() == ps@[i as int]);
                                assert(first_phonetic(pre) == Some(t@));
                                lemma_first_phonetic_prefix(ps@, i as int + 1);
                            }
                            return Some(found);
                        },
                        None => {},
                    }
                    i = i + 1;
                }
                proof {
                    assert(ps@.subrange(0, i as int) =~= ps@);
                }
                None
            },
            None => None,
        },
    }
}

/// Once a prefix holds a pronunciation, the whole list gives that one.
proof fn lemma_first_phonetic_prefix(ps: Seq<ApiPhonetic>, i: int)
    requires
        0 <= i <= ps.len(),
        first_phonetic(ps.subrange(0, i)) is Some,
    ensures
        first_phonetic(ps) == first_phonetic(ps.subrange(0, i)),
    decreases ps.len() - i,
{
    if i < ps.len() {
        assert(ps.subrange(0, i + 1).drop_last() =~= ps.subrange(0, i));
        lemma_first_phonetic_prefix(ps, i + 1);
    } else {
        assert(ps.subrange(0, i) =~= ps);
    }
}

/// Builds an entry from the first element of the remote answer: its
/// pronunciation, its distinct part-of-speech tags joined by ", ", its
/// non-empty definitions joined by newlines, and every example sentence.
/// `None` when the answer is empty.
pub fn parse_response(resp: Vec<ApiResponse>) -> (r: Option<DictionaryEntry>)
    ensures
        resp.len() == 0 <==> r is None,
        r is Some ==> ({
            let first = resp@[0];
            let e = r->0@;
            let ms = meanings_of(first);
            &&& e.word == first.word@
            &&& e.phonetic == phonetic_of(first)
            &&& e.translation is None
            &&& e.definition == joined_or_none(definition_texts(all_defs(ms)), "\n"@)
            &&& e.pos == joined_or_none(pos_tags(ms), ", "@)
            &&& e.exchange is None
            &&& e.tag is None
            &&& e.examples == example_texts(all_defs(ms)).map_values(|x: Seq<char>| untranslated(x))
            &&& e.source == DataSource::Online
        }),
{
    if resp.len() == 0 {
        return None;
    }
    let mut resp = resp;
    let ghost first_view = resp@[0];
    let first = resp.remove(0);
    let ApiResponse { word, phonetic, phonetics, meanings } = first;
    let phonetic = phonetic_from(phonetic, &phonetics);
    let mut definitions: Vec<String> = Vec::new();
    let mut examples: Vec<Example> = Vec::new();
    let mut pos_list: Vec<String> = Vec::new();
    let ghost ms = meanings_of(first_view);
    match &meanings {
        Some(list) => {
            let mut i: usize = 0;
            while i < list.len()
                invariant
                    ms == list@,
                    i <= list.len(),
                    texts(definitions@) == definition_texts(all_defs(ms.subrange(0, i as int))),
                    example_views(examples@) == example_texts(
                        all_defs(ms.subrange(0, i as int)),
                    ).map_values(|x: Seq<char>| untranslated(x)),
                    texts(pos_list@) == pos_tags(ms.subrange(0, i as int)),
                decreases list.len() - i,
            {
                let meaning = &list[i];
                assert(ms.subrange(0, i as int + 1).drop_last() =~= ms.subrange(0, i as int));
                match &meaning.part_of_speech {
                    Some(p) => {
                        if !contains_text(&pos_list, p) {
                            pos_list.push(p.clone());
                            assert(texts(pos_list@) =~= pos_tags(ms.subrange(0, i as int + 1)));
                        }
                    },
                    None => {},
                }
                let ghost before = all_defs(ms.subrange(0, i as int));
                match &meaning.definitions {
                    Some(defs) => {
                        let mut j: usize = 0;
                        while j < defs.len()
                            invariant
                                j <= defs.len(),
                                texts(definitions@) == definition_texts(
                                    before + defs@.subrange(0, j as int),
                                ),
                                example_views(examples@) == example_texts(
                                    before + defs@.subrange(0, j as int),
                                ).map_values(|x: Seq<char>| untranslated(x)),
                            decreases defs.len() - j,
                        {
                            let ghost cur = before + defs@.subrange(0, j as int);
                            let ghost nxt = before + defs@.subrange(0, j as int + 1);
                            assert(nxt.drop_last() =~= cur);
                            assert(nxt.last() == defs@[j as int]);
                            let def = &defs[j];
                            match &def.definition {
                                Some(d) => {
                                    if d.as_str().unicode_len() > 0 {
                                        definitions.push(d.clone());
                                        assert(texts(definitions@) =~= definition_texts(nxt));
                                    }
                                },
                                None => {},
                            }
                            match &def.example {
                                Some(x) => {
                                    let ghost old_examples = examples@;
                                    examples.push(Example { english: x.clone(), chinese: None });
                                    assert(example_texts(nxt) == example_texts(cur).push(x@));
                                    assert(example_views(examples@) =~= example_views(
                                        old_examples,
                                    ).push(untranslated(x@)));
                                    assert(example_views(examples@) =~= example_texts(
                                        nxt,
                                    ).map_values(|x: Seq<char>| untranslated(x)));
                                },
                                None => {},
                            }
                            j = j + 1;
                        }
                        assert(defs@.subrange(0, j as int) =~= defs@);
                    },
                    None => {
                        assert(before + Seq::<ApiDefinition>::empty() =~= before);
                    },
                }
                i = i + 1;
            }
            assert(ms.subrange(0, i as int) =~= ms);
        },
        None => {},
    }
    let definition = joined_or_none_of(&definitions, "\n");
    let pos = joined_or_none_of(&pos_list, ", ");
    Some(
        DictionaryEntry {
            word,
            phonetic,
            translation: None,
            definition,
            pos,
            exchange: None,
            tag: None,
            examples,
            source: DataSource::Online,
        },
    )
}

} // verus!
