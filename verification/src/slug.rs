//! Slugs: lower-case identifiers made of the alphanumeric words of a name.

use crate::adapters::{join_words, push_char, spec_join, views};
use vstd::prelude::*;

verus! {

/// ASCII letters and digits, the characters a slug keeps.
pub open spec fn is_word_char(c: char) -> bool {
    ('a' <= c && c <= 'z') || ('A' <= c && c <= 'Z') || ('0' <= c && c <= '9')
}

/// The lower-case form of an ASCII upper-case letter; any other character itself.
pub open spec fn lower_char(c: char) -> char {
    if 'A' <= c && c <= 'Z' {
        ((c as u8) + 32) as char
    } else {
        c
    }
}

/// Every character of `s` in its lower-case form.
pub open spec fn spec_lower(s: Seq<char>) -> Seq<char> {
    s.map_values(|c: char| lower_char(c))
}

/// The words of `s`: its maximal runs of word characters, in order.
pub open spec fn spec_words(s: Seq<char>) -> Seq<Seq<char>>
    decreases s.len(),
{
    if s.len() == 0 {
        Seq::empty()
    } else {
        let before = spec_words(s.drop_last());
        let c = s.last();
        if !is_word_char(c) {
            before
        } else if s.len() >= 2 && is_word_char(s[s.len() - 2]) {
            before.drop_last().push(before.last().push(c))
        } else {
            before.push(seq![c])
        }
    }
}

/// The slug of `s`: its words joined by `_`, in lower case.
pub open spec fn spec_slugify(s: Seq<char>) -> Seq<char> {
    spec_lower(spec_join(spec_words(s), seq!['_']))
}

/// The part of `s` before its first `:`; all of `s` where it has none.
pub open spec fn spec_head(s: Seq<char>) -> Seq<char>
    decreases s.len(),
{
    if s.len() == 0 || s[0] == ':' {
        Seq::empty()
    } else {
        seq![s[0]] + spec_head(s.drop_first())
    }
}

/// A prefix that holds no `:` and ends at one, or at the end, is the head.
pub proof fn lemma_head_is_prefix(s: Seq<char>, n: int)
    requires
        0 <= n <= s.len(),
        forall|i: int| 0 <= i < n ==> s[i] != ':',
        n == s.len() || s[n] == ':',
    ensures
        spec_head(s) == s.take(n),
    decreases n,
{
    if n == 0 {
        assert(s.take(0) =~= Seq::<char>::empty());
    } else {
        let rest = s.drop_first();
        assert forall|i: int| 0 <= i < n - 1 implies rest[i] != ':' by {
            assert(rest[i] == s[i + 1]);
        }
        lemma_head_is_prefix(rest, n - 1);
        assert(s.take(n) =~= seq![s[0]] + rest.take(n - 1));
    }
}

/// Whether `c` is an ASCII letter or digit.
pub fn is_word(c: char) -> (b: bool)
    ensures
        b == is_word_char(c),
{
    ('a' <= c && c <= 'z') || ('A' <= c && c <= 'Z') || ('0' <= c && c <= '9')
}

/// The lower-case form of `c`.
pub fn to_lower(c: char) -> (l: char)
    ensures
        l == lower_char(c),
{
    if 'A' <= c && c <= 'Z' {
        ((c as u8) + 32) as char
    } else {
        c
    }
}

/// `s` with its ASCII upper-case letters in lower case.
pub fn lower_ascii(s: &str) -> (out: String)
    ensures
        out@ == spec_lower(s@),
{
    let mut out = String::new();
    for c in it: s.chars()
        invariant
            it.seq() == s@,
            out@ == spec_lower(s@.take(it.index() as int)),
    {
        push_char(&mut out, to_lower(c));
        assert(spec_lower(s@.take(it.index() + 1)) =~= spec_lower(s@.take(it.index() as int)).push(
            lower_char(c),
        ));
    }
    assert(s@.take(s@.len() as int) == s@);
    out
}

/// The words of `s`, each as a string of its own.
pub fn split_words(s: &str) -> (words: Vec<String>)
    ensures
        views(words@) == spec_words(s@),
{
    let mut words: Vec<String> = Vec::new();
    let mut current = String::new();
    let mut growing = false;
    assert(views(words@) =~= spec_words(s@.take(0)));
    for c in it: s.chars()
        invariant
            it.seq() == s@,
            growing ==> it.index() > 0 && is_word_char(s@[it.index() - 1]) && spec_words(
                s@.take(it.index() as int),
            ) == views(words@).push(current@),
            !growing ==> (it.index() == 0 || !is_word_char(s@[it.index() - 1])) && spec_words(
                s@.take(it.index() as int),
            ) == views(words@),
    {
        let ghost upto = s@.take(it.index() + 1);
        assert(upto.drop_last() == s@.take(it.index() as int));
        assert(upto.last() == c);
        if is_word(c) {
            if growing {
                let ghost grown = views(words@).push(current@);
                assert(grown.drop_last() == views(words@));
                push_char(&mut current, c);
            } else {
                current = String::new();
                push_char(&mut current, c);
                growing = true;
                assert(current@ == seq![c]);
            }
        } else {
            if growing {
                let ghost closed = views(words@).push(current@);
                words.push(current);
                current = String::new();
                growing = false;
                assert(views(words@) =~= closed);
            }
        }
    }
    assert(s@.take(s@.len() as int) == s@);
    if growing {
        let ghost closed = views(words@).push(current@);
        words.push(current);
        assert(views(words@) =~= closed);
    }
    words
}

/// The slug of a name: every character that is not an ASCII letter or digit
/// separates words, the words are joined by `_`, and letters are lower case.
pub fn slugify(s: &str) -> (slug: String)
    ensures
        slug@ == spec_slugify(s@),
{
    let words = split_words(s);
    proof {
        reveal_strlit("_");
        assert("_"@ =~= seq!['_']);
    }
    let joined = join_words(&words, "_");
    lower_ascii(joined.as_str())
}

/// The slug of the part of `name` before its first `:`.
pub fn reaction_slug(name: &str) -> (slug: String)
    ensures
        slug@ == spec_slugify(spec_head(name@)),
{
    let mut head = String::new();
    let mut open = true;
    let ghost mut cut: int = 0;
    for c in it: name.chars()
        invariant
            it.seq() == name@,
            0 <= cut <= it.index(),
            head@ == name@.take(cut),
            forall|i: int| 0 <= i < cut ==> name@[i] != ':',
            open ==> cut == it.index(),
            !open ==> cut < name@.len() && name@[cut] == ':',
    {
        if open {
            if c == ':' {
                open = false;
            } else {
                push_char(&mut head, c);
                proof {
                    assert(name@.take(cut + 1) =~= name@.take(cut).push(c));
                    cut = cut + 1;
                }
            }
        }
    }
    proof {
        lemma_head_is_prefix(name@, cut);
    }
    slugify(head.as_str())
}

} // verus!
