//! HTML escaping of substituted text.

use vstd::prelude::*;

verus! {

/// What one character becomes under HTML escaping: the five characters with
/// markup meaning turn into their entities, everything else stays itself.
pub open spec fn escape_char(c: char) -> Seq<char> {
    if c == '<' {
        seq!['&', 'l', 't', ';']
    } else if c == '>' {
        seq!['&', 'g', 't', ';']
    } else if c == '"' {
        seq!['&', 'q', 'u', 'o', 't', ';']
    } else if c == '\'' {
        seq!['&', 'a', 'p', 'o', 's', ';']
    } else if c == '&' {
        seq!['&', 'a', 'm', 'p', ';']
    } else {
        seq![c]
    }
}

/// HTML escaping of a whole text: each character escaped, in order.
pub open spec fn escape_seq(s: Seq<char>) -> Seq<char>
    decreases s.len(),
{
    if s.len() == 0 {
        Seq::empty()
    } else {
        escape_seq(s.drop_last()) + escape_char(s.last())
    }
}

/// A text without markup characters escapes to itself.
pub proof fn lemma_escape_plain(s: Seq<char>)
    requires
        forall|i: int|
            0 <= i < s.len() ==> #[trigger] s[i] != '<' && s[i] != '>' && s[i] != '"' && s[i]
                != '\'' && s[i] != '&',
    ensures
        escape_seq(s) == s,
    decreases s.len(),
{
    if s.len() == 0 {
        assert(escape_seq(s) =~= s);
    } else {
        lemma_escape_plain(s.drop_last());
        assert(s.last() == s[s.len() - 1]);
        assert(escape_seq(s) =~= s);
    }
}

/// Escapes a character vector.
pub fn escape_chars(v: &Vec<char>) -> (r: Vec<char>)
    ensures
        r@ == escape_seq(v@),
{
    let n = v.len();
    let mut r: Vec<char> = Vec::new();
    let mut i: usize = 0;
    while i < n
        invariant
            0 <= i <= n,
            n == v@.len(),
            r@ == escape_seq(v@.take(i as int)),
        decreases n - i,
    {
        let c = v[i];
        if c == '<' {
            r.push('&');
            r.push('l');
            r.push('t');
            r.push(';');
        } else if c == '>' {
            r.push('&');
            r.push('g');
            r.push('t');
            r.push(';');
        } else if c == '"' {
            r.push('&');
            r.push('q');
            r.push('u');
            r.push('o');
            r.push('t');
            r.push(';');
        } else if c == '\'' {
            r.push('&');
            r.push('a');
            r.push('p');
            r.push('o');
            r.push('s');
            r.push(';');
        } else if c == '&' {
            r.push('&');
            r.push('a');
            r.push('m');
            r.push('p');
            r.push(';');
        } else {
            r.push(c);
        }
        proof {
            assert(v@.take(i + 1).drop_last() =~= v@.take(i as int));
            assert(v@.take(i + 1).last() == v@[i as int]);
            assert(r@ =~= escape_seq(v@.take(i as int)) + escape_char(v@[i as int]));
        }
        i = i + 1;
    }
    proof {
        assert(v@.take(n as int) =~= v@);
    }
    r
}

/// HTML-escapes a text: `<`, `>`, `"`, `'` and `&` become `&lt;`, `&gt;`,
/// `&quot;`, `&apos;` and `&amp;`; all other characters pass through.
pub fn escape_text(text: &str) -> (r: String)
    ensures
        r@ == escape_seq(text@),
{
    let chars = crate::chars::str_to_chars(text);
    let escaped = escape_chars(&chars);
    crate::chars::chars_to_string(&escaped)
}

} // verus!
