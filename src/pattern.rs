use vstd::prelude::*;

verus! {

/// A character that has a meaning of its own in a LIKE pattern.
pub open spec fn is_like_special(c: char) -> bool {
    c == '%' || c == '_' || c == '\\'
}

/// `s` with every LIKE wildcard and the escape character itself preceded by
/// a backslash, so that the pattern matches `s` literally.
pub open spec fn escape_like(s: Seq<char>) -> Seq<char>
    decreases s.len(),
{
    if s.len() == 0 {
        Seq::empty()
    } else if is_like_special(s.last()) {
        escape_like(s.drop_last()) + seq!['\\', s.last()]
    } else {
        escape_like(s.drop_last()).push(s.last())
    }
}

/// Escapes `s` for use inside a LIKE pattern with `ESCAPE '\'`.
pub fn escape_like_text(s: &str) -> (r: String)
    ensures
        r@ == escape_like(s@),
{
    let n = s.unicode_len();
    let mut r = String::new();
    let mut i: usize = 0;
    while i < n
        invariant
            n == s@.len(),
            i <= n,
            r@ == escape_like(s@.take(i as int)),
        decreases n - i,
    {
        assert(s@.take(i as int + 1).drop_last() =~= s@.take(i as int));
        let c = s.get_char(i);
        if c == '%' || c == '_' || c == '\\' {
            proof {
                reveal_strlit("\\");
            }
            r.append("\\");
        }
        r.append(s.substring_char(i, i + 1));
        assert(r@ =~= escape_like(s@.take(i as int + 1)));
        i = i + 1;
    }
    assert(s@.take(i as int) =~= s@);
    r
}

/// The pattern that matches every key starting with `query`.
pub fn like_prefix_pattern(query: &str) -> (r: String)
    ensures
        r@ == escape_like(query@) + seq!['%'],
{
    proof {
        reveal_strlit("%");
    }
    escape_like_text(query).concat("%")
}

/// The pattern that matches every key containing `query`.
pub fn like_substring_pattern(query: &str) -> (r: String)
    ensures
        r@ == seq!['%'] + escape_like(query@) + seq!['%'],
{
    proof {
        reveal_strlit("%");
    }
    let r = String::from_str("%").concat(escape_like_text(query).as_str()).concat("%");
    assert(r@ =~= seq!['%'] + escape_like(query@) + seq!['%']);
    r
}

} // verus!
