use vstd::prelude::*;

use crate::online::{join, joined};
use crate::types::texts;

verus! {

/// `s` cut at every `c`; an empty string gives one empty piece.
pub open spec fn split_on(s: Seq<char>, c: char) -> Seq<Seq<char>>
    decreases s.len(),
{
    if s.len() == 0 {
        seq![Seq::empty()]
    } else {
        let p = split_on(s.drop_last(), c);
        if s.last() == c {
            p.push(Seq::empty())
        } else {
            p.update(p.len() - 1, p.last().push(s.last()))
        }
    }
}

/// Label of an inflection key of the morphology table.
pub open spec fn label_of(key: Seq<char>) -> Option<Seq<char>> {
    if key == seq!['p'] {
        Some("过去式"@)
    } else if key == seq!['d'] {
        Some("过去分词"@)
    } else if key == seq!['i'] {
        Some("现在分词"@)
    } else if key == seq!['3'] {
        Some("第三人称"@)
    } else if key == seq!['s'] {
        Some("复数"@)
    } else if key == seq!['r'] {
        Some("比较级"@)
    } else if key == seq!['t'] {
        Some("最高级"@)
    } else if key == seq!['0'] {
        Some("原型"@)
    } else if key == seq!['1'] {
        Some("原型变换"@)
    } else {
        None
    }
}

/// No `':'` stands before position `k`.
pub open spec fn no_colon_before(item: Seq<char>, k: int) -> bool {
    forall|j: int| 0 <= j < k ==> item[j] != ':'
}

/// Position of the first `':'` of an item that holds one.
pub open spec fn key_end(item: Seq<char>) -> int {
    choose|k: int| 0 <= k < item.len() && item[k] == ':' && no_colon_before(item, k)
}

/// What one `key:value` item shows: the key's label and the value; nothing
/// for an item without `':'` or with an unknown key.
#[verifier::opaque]
pub open spec fn item_part(item: Seq<char>) -> Option<Seq<char>> {
    if item.contains(':') {
        let k = key_end(item);
        match label_of(item.take(k)) {
            Some(l) => Some(l + ": "@ + item.skip(k + 1)),
            None => None,
        }
    } else {
        None
    }
}

/// The shown parts of a sequence of items, in order.
pub open spec fn parts_of(items: Seq<Seq<char>>) -> Seq<Seq<char>>
    decreases items.len(),
{
    if items.len() == 0 {
        Seq::empty()
    } else {
        match item_part(items.last()) {
            Some(p) => parts_of(items.drop_last()).push(p),
            None => parts_of(items.drop_last()),
        }
    }
}

/// The readable form of a `/`-delimited morphology table.
pub open spec fn exchange_text(s: Seq<char>) -> Seq<char> {
    joined(parts_of(split_on(s, '/')), "  "@)
}

fn label_for(key: &str) -> (r: Option<&'static str>)
    ensures
        match r {
            Some(l) => label_of(key@) == Some(l@),
            None => label_of(key@) is None,
        },
{
    if key.unicode_len() != 1 {
        return None;
    }
    let c = key.get_char(0);
    assert(key@ =~= seq![c]);
    match c {
        'p' => Some("过去式"),
        'd' => Some("过去分词"),
        'i' => Some("现在分词"),
        '3' => Some("第三人称"),
        's' => Some("复数"),
        'r' => Some("比较级"),
        't' => Some("最高级"),
        '0' => Some("原型"),
        '1' => Some("原型变换"),
        _ => None,
    }
}

fn format_item(item: &str) -> (r: Option<String>)
    ensures
        match r {
            Some(p) => item_part(item@) == Some(p@),
            None => item_part(item@) is None,
        },
{
    let n = item.unicode_len();
    let mut k: usize = 0;
    while k < n
        invariant
            n == item@.len(),
            k <= n,
            no_colon_before(item@, k as int),
        decreases n - k,
    {
        if item.get_char(k) == ':' {
            proof {
                reveal(item_part);
                let s = item@;
                let c = key_end(s);
                assert(s[k as int] == ':');
                assert(s.contains(':'));
                assert(0 <= c < s.len() && s[c] == ':' && no_colon_before(s, c));
                assert(c == k);
            }
            let key = item.substring_char(0, k);
            let value = item.substring_char(k + 1, n);
            assert(key@ =~= item@.take(k as int));
            assert(value@ =~= item@.skip(k as int + 1));
            return match label_for(key) {
                Some(l) => {
                    let p = String::from_str(l).concat(": ").concat(value);
                    assert(p@ == l@ + ": "@ + item@.skip(k as int + 1));
                    assert(label_of(item@.take(k as int)) == Some(l@));
                    assert(item_part(item@) == Some(p@));
                    Some(p)
                },
                None => None,
            };
        }
        k = k + 1;
    }
    assert(!item@.contains(':'));
    proof {
        reveal(item_part);
    }
    None
}

proof fn lemma_split_step(s: Seq<char>, c: char, i: int)
    requires
        0 <= i < s.len(),
    ensures
        split_on(s.take(i + 1), c) == if s[i] == c {
            split_on(s.take(i), c).push(Seq::empty())
        } else {
            let p = split_on(s.take(i), c);
            p.update(p.len() - 1, p.last().push(s[i]))
        },
{
    assert(s.take(i + 1).drop_last() =~= s.take(i));
}

/// The pieces of `s` between occurrences of `c`.
pub fn split_text(s: &str, c: char) -> (r: Vec<String>)
    ensures
        texts(r@) == split_on(s@, c),
{
    let n = s.unicode_len();
    let mut pieces: Vec<String> = Vec::new();
    let mut start: usize = 0;
    let mut i: usize = 0;
    while i < n
        invariant
            n == s@.len(),
            start <= i <= n,
            split_on(s@.take(i as int), c).len() > 0,
            split_on(s@.take(i as int), c).last() == s@.subrange(start as int, i as int),
            texts(pieces@) == split_on(s@.take(i as int), c).drop_last(),
        decreases n - i,
    {
        let ghost before = split_on(s@.take(i as int), c);
        proof {
            lemma_split_step(s@, c, i as int);
        }
        if s.get_char(i) == c {
            assert(before.drop_last().push(before.last()) =~= before);
            pieces.push(String::from_str(s.substring_char(start, i)));
            start = i + 1;
            assert(texts(pieces@) =~= before);
        } else {
            let ghost after = split_on(s@.take(i as int + 1), c);
            assert(after.drop_last() =~= before.drop_last());
        }
        assert(split_on(s@.take(i as int + 1), c).last() =~= s@.subrange(start as int, i as int + 1));
        i = i + 1;
    }
    let ghost all = split_on(s@.take(i as int), c);
    assert(s@.take(i as int) =~= s@);
    assert(all.drop_last().push(all.last()) =~= all);
    pieces.push(String::from_str(s.substring_char(start, n)));
    assert(texts(pieces@) =~= all);
    pieces
}

/// Renders a morphology table such as `p:went/d:gone` as labelled values
/// separated by two spaces; items with unknown keys or no `':'` are skipped.
pub fn format_exchange(exchange: &str) -> (r: String)
    ensures
        r@ == exchange_text(exchange@),
{
    let items = split_text(exchange, '/');
    let ghost all = split_on(exchange@, '/');
    let mut parts: Vec<String> = Vec::new();
    let mut i: usize = 0;
    while i < items.len()
        invariant
            i <= items.len(),
            texts(items@) == all,
            texts(parts@) == parts_of(all.take(i as int)),
        decreases items.len() - i,
    {
        assert(all.take(i as int + 1).drop_last() =~= all.take(i as int));
        assert(all[i as int] == items@[i as int]@);
        match format_item(items[i].as_str()) {
            Some(p) => {
                parts.push(p);
            },
            None => {},
        }
        assert(texts(parts@) =~= parts_of(all.take(i as int + 1)));
        i = i + 1;
    }
    assert(all.take(i as int) =~= all);
    join(&parts, "  ")
}

/// What trimming surrounding whitespace turns a string into.
pub uninterp spec fn trimmed_of(s: Seq<char>) -> Seq<char>;

/// Relies on str::trim: `s` without leading and trailing Unicode whitespace;
/// an empty string stays empty.
#[verifier::external_body]
pub(crate) fn trim(s: &str) -> (r: &str)
    ensures
        r@ == trimmed_of(s@),
        s@.len() == 0 ==> r@.len() == 0,
{
    s.trim()
}

/// The trimmed lines that still hold something, in order.
pub open spec fn kept_lines(lines: Seq<Seq<char>>) -> Seq<Seq<char>>
    decreases lines.len(),
{
    if lines.len() == 0 {
        Seq::empty()
    } else if trimmed_of(lines.last()).len() > 0 {
        kept_lines(lines.drop_last()).push(trimmed_of(lines.last()))
    } else {
        kept_lines(lines.drop_last())
    }
}

/// The lines of a multi-line text that are shown: among the first `limit`
/// lines, each trimmed, the ones that are not blank.
pub fn shown_lines(text: &str, limit: usize) -> (r: Vec<String>)
    ensures
        texts(r@) == kept_lines(
            split_on(text@, '\n').take(
                if limit < split_on(text@, '\n').len() {
                    limit as int
                } else {
                    split_on(text@, '\n').len() as int
                },
            ),
        ),
{
    let lines = split_text(text, '\n');
    let ghost all = split_on(text@, '\n');
    let n = if limit < lines.len() {
        limit
    } else {
        lines.len()
    };
    let mut r: Vec<String> = Vec::new();
    let mut i: usize = 0;
    while i < n
        invariant
            n <= lines.len(),
            i <= n,
            texts(lines@) == all,
            texts(r@) == kept_lines(all.take(i as int)),
        decreases n - i,
    {
        assert(all.take(i as int + 1).drop_last() =~= all.take(i as int));
        assert(all[i as int] == lines@[i as int]@);
        let t = trim(lines[i].as_str());
        if t.unicode_len() > 0 {
            r.push(String::from_str(t));
        }
        assert(texts(r@) =~= kept_lines(all.take(i as int + 1)));
        i = i + 1;
    }
    r
}

/// How a pronunciation is shown: as given when it starts with `/` or `[`,
/// else between slashes.
pub open spec fn phonetic_shown(p: Seq<char>) -> Seq<char> {
    if p.len() > 0 && (p[0] == '/' || p[0] == '[') {
        p
    } else {
        "/"@ + p + "/"@
    }
}

/// Renders a pronunciation for display.
pub fn phonetic_display(phonetic: &str) -> (r: String)
    ensures
        r@ == phonetic_shown(phonetic@),
{
    if phonetic.unicode_len() > 0 {
        let c = phonetic.get_char(0);
        if c == '/' || c == '[' {
            return String::from_str(phonetic);
        }
    }
    String::from_str("/").concat(phonetic).concat("/")
}

} // verus!
