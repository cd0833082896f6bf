//! HTML escaping of text payloads.
use vstd::prelude::*;
use vstd::string::*;

verus! {

/// Whether `c` is one of the five characters that HTML escaping replaces.
pub open spec fn is_reserved(c: char) -> bool {
    c == '&' || c == '<' || c == '>' || c == '"' || c == '\''
}

/// What a single character becomes after escaping.
pub open spec fn escape_char(c: char) -> Seq<char> {
    if c == '&' {
        seq!['&', 'a', 'm', 'p', ';']
    } else if c == '<' {
        seq!['&', 'l', 't', ';']
    } else if c == '>' {
        seq!['&', 'g', 't', ';']
    } else if c == '"' {
        seq!['&', 'q', 'u', 'o', 't', ';']
    } else if c == '\'' {
        seq!['&', '#', '3', '9', ';']
    } else {
        seq![c]
    }
}

/// The escaped form of `s`: each character replaced by its `escape_char`, in order.
pub open spec fn escape_spec(s: Seq<char>) -> Seq<char>
    decreases s.len(),
{
    if s.len() == 0 {
        Seq::empty()
    } else {
        escape_spec(s.drop_last()) + escape_char(s.last())
    }
}

/// Replaces `&`, `<`, `>`, `"` and `'` by their HTML entities; every other
/// character is kept as it is.
pub fn escape_html(text: &str) -> (r: String)
    ensures
        r@ == escape_spec(text@),
{
    let mut escaped = String::new();
    let n = text.unicode_len();
    let mut i: usize = 0;
    while i < n
        invariant
            n == text@.len(),
            i <= n,
            escaped@ == escape_spec(text@.subrange(0, i as int)),
        decreases n - i,
    {
        let c = text.get_char(i);
        proof {
            reveal_strlit("&amp;");
            reveal_strlit("&lt;");
            reveal_strlit("&gt;");
            reveal_strlit("&quot;");
            reveal_strlit("&#39;");
        }
        if c == '&' {
            escaped.append("&amp;");
        } else if c == '<' {
            escaped.append("&lt;");
        } else if c == '>' {
            escaped.append("&gt;");
        } else if c == '"' {
            escaped.append("&quot;");
        } else if c == '\'' {
            escaped.append("&#39;");
        } else {
            escaped.append(text.substring_char(i, i + 1));
        }
        proof {
            let next = text@.subrange(0, i + 1);
            assert(next.drop_last() == text@.subrange(0, i as int));
            assert(next.last() == c);
        }
        i += 1;
    }
    proof {
        assert(text@.subrange(0, n as int) == text@);
    }
    escaped
}

/// How many times `c` occurs in `s`.
pub open spec fn count_of(s: Seq<char>, c: char) -> nat
    decreases s.len(),
{
    if s.len() == 0 {
        0
    } else {
        count_of(s.drop_last(), c) + if s.last() == c { 1nat } else { 0nat }
    }
}

/// How many reserved characters `s` holds.
pub open spec fn count_reserved(s: Seq<char>) -> nat
    decreases s.len(),
{
    if s.len() == 0 {
        0
    } else {
        count_reserved(s.drop_last()) + if is_reserved(s.last()) { 1nat } else { 0nat }
    }
}

proof fn lemma_count_concat(a: Seq<char>, b: Seq<char>, c: char)
    ensures
        count_of(a + b, c) == count_of(a, c) + count_of(b, c),
    decreases b.len(),
{
    if b.len() == 0 {
        assert(a + b =~= a);
    } else {
        lemma_count_concat(a, b.drop_last(), c);
        assert((a + b).drop_last() =~= a + b.drop_last());
    }
}

proof fn lemma_count_absent(s: Seq<char>, c: char)
    requires
        forall|k: int| 0 <= k < s.len() ==> #[trigger] s[k] != c,
    ensures
        count_of(s, c) == 0,
    decreases s.len(),
{
    if s.len() > 0 {
        assert(s[s.len() - 1] != c);
        lemma_count_absent(s.drop_last(), c);
    }
}

proof fn lemma_escape_char_amp(c: char)
    ensures
        count_of(escape_char(c), '&') == if is_reserved(c) { 1nat } else { 0nat },
        forall|k: int|
            0 <= k < escape_char(c).len() ==> !is_reserved(#[trigger] escape_char(c)[k])
                || escape_char(c)[k] == '&',
{
    let e = escape_char(c);
    if is_reserved(c) {
        let tail = e.drop_first();
        assert(e =~= seq!['&'] + tail);
        assert(seq!['&'].drop_last() =~= Seq::<char>::empty());
        assert(count_of(seq!['&'], '&') == 1) by {
            reveal_with_fuel(count_of, 2);
        }
        assert forall|k: int| 0 <= k < tail.len() implies #[trigger] tail[k] != '&' by {
            assert(tail[k] == e[k + 1]);
        }
        lemma_count_absent(tail, '&');
        lemma_count_concat(seq!['&'], tail, '&');
    } else {
        assert(e =~= seq![c]);
        lemma_count_absent(e, '&');
    }
}

/// Escaped text holds no `<`, `>`, `"` or `'`, and holds exactly one `&` for
/// each reserved character of the input: every `&` that it holds begins an
/// entity, none is left bare.
pub proof fn lemma_escape_leaves_no_bare_reserved(s: Seq<char>)
    ensures
        forall|k: int|
            0 <= k < escape_spec(s).len() ==> !is_reserved(#[trigger] escape_spec(s)[k])
                || escape_spec(s)[k] == '&',
        count_of(escape_spec(s), '&') == count_reserved(s),
    decreases s.len(),
{
    if s.len() > 0 {
        let p = s.drop_last();
        let c = s.last();
        lemma_escape_leaves_no_bare_reserved(p);
        lemma_count_concat(escape_spec(p), escape_char(c), '&');
        let e = escape_char(c);
        lemma_escape_char_amp(c);
        assert forall|k: int| 0 <= k < escape_spec(s).len() implies !is_reserved(
            #[trigger] escape_spec(s)[k],
        ) || escape_spec(s)[k] == '&' by {
            if k >= escape_spec(p).len() {
                assert(escape_spec(s)[k] == e[k - escape_spec(p).len()]);
            } else {
                assert(escape_spec(s)[k] == escape_spec(p)[k]);
            }
        }
    }
}

/// Where all of the input is reserved characters, its escaped form holds one
/// `&` per input character and none of the other four.
pub proof fn lemma_escape_reserved_only(s: Seq<char>)
    requires
        forall|i: int| 0 <= i < s.len() ==> is_reserved(#[trigger] s[i]),
    ensures
        count_of(escape_spec(s), '&') == s.len(),
        forall|k: int|
            0 <= k < escape_spec(s).len() ==> !is_reserved(#[trigger] escape_spec(s)[k])
                || escape_spec(s)[k] == '&',
{
    lemma_escape_leaves_no_bare_reserved(s);
    lemma_count_all_reserved(s);
}

proof fn lemma_count_all_reserved(s: Seq<char>)
    requires
        forall|i: int| 0 <= i < s.len() ==> is_reserved(#[trigger] s[i]),
    ensures
        count_reserved(s) == s.len(),
    decreases s.len(),
{
    if s.len() > 0 {
        assert(is_reserved(s[s.len() - 1]));
        lemma_count_all_reserved(s.drop_last());
    }
}

proof fn lemma_escape_len(s: Seq<char>)
    ensures
        escape_spec(s).len() >= s.len(),
        count_reserved(s) > 0 ==> escape_spec(s).len() > s.len(),
    decreases s.len(),
{
    if s.len() > 0 {
        lemma_escape_len(s.drop_last());
    }
}

proof fn lemma_count_pos_reserved(s: Seq<char>)
    requires
        count_of(s, '&') > 0,
    ensures
        count_reserved(s) > 0,
    decreases s.len(),
{
    if s.last() != '&' {
        lemma_count_pos_reserved(s.drop_last());
    }
}

/// Escaping is not idempotent: escaping an already escaped text that held a
/// reserved character changes it again, since its `&` is escaped in turn.
pub proof fn lemma_escape_not_idempotent(s: Seq<char>)
    requires
        exists|i: int| 0 <= i < s.len() && is_reserved(#[trigger] s[i]),
    ensures
        escape_spec(escape_spec(s)) != escape_spec(s),
{
    lemma_reserved_counted(s);
    lemma_escape_leaves_no_bare_reserved(s);
    lemma_count_pos_reserved(escape_spec(s));
    lemma_escape_len(escape_spec(s));
}

proof fn lemma_reserved_counted(s: Seq<char>)
    requires
        exists|i: int| 0 <= i < s.len() && is_reserved(#[trigger] s[i]),
    ensures
        count_reserved(s) > 0,
    decreases s.len(),
{
    if !is_reserved(s.last()) {
        let i = choose|i: int| 0 <= i < s.len() && is_reserved(#[trigger] s[i]);
        assert(s.drop_last()[i] == s[i]);
        lemma_reserved_counted(s.drop_last());
    }
}

} // verus!
