//! Naming rules: instruction variant names and crate-safe project names.

use vstd::prelude::*;

use crate::text::{chars_of, push_char};

verus! {

/// What `char::to_uppercase` yields for `c`: Unicode's uppercase mapping,
/// one or more characters.
pub uninterp spec fn char_uppercase(c: char) -> Seq<char>;

/// The ASCII uppercase of `c`: `a`..=`z` become `A`..=`Z`, all else stays.
pub open spec fn ascii_upper(c: char) -> char {
    if 'a' <= c && c <= 'z' {
        ((c as int) - 32) as char
    } else {
        c
    }
}

/// The uppercase mapping of `c`, from `char::to_uppercase`.
///
/// Its documentation promises one or more characters; for an ASCII character
/// the Unicode mapping is the ASCII one. Which characters come out for a
/// non-ASCII `c` is not stated beyond the name `char_uppercase`.
#[verifier::external_body]
fn uppercase(c: char) -> (r: String)
    ensures
        r@ == char_uppercase(c),
        r@.len() >= 1,
        (c as u32) < 128 ==> r@ == seq![ascii_upper(c)],
{
    c.to_uppercase().collect()
}

/// The pieces of `s` between occurrences of `sep`, as `str::split` yields
/// them: one more piece than there are separators, empty pieces included.
pub open spec fn split_on(s: Seq<char>, sep: char) -> Seq<Seq<char>>
    decreases s.len(),
{
    if s.len() == 0 {
        seq![Seq::<char>::empty()]
    } else {
        let pieces = split_on(s.drop_last(), sep);
        if s.last() == sep {
            pieces.push(Seq::<char>::empty())
        } else {
            pieces.update(pieces.len() - 1, pieces.last().push(s.last()))
        }
    }
}

/// The concatenation of `pieces`, in order.
pub open spec fn concat(pieces: Seq<Seq<char>>) -> Seq<char>
    decreases pieces.len(),
{
    if pieces.len() == 0 {
        Seq::<char>::empty()
    } else {
        concat(pieces.drop_last()) + pieces.last()
    }
}

/// `word` with its first character mapped to uppercase.
pub open spec fn capitalize(word: Seq<char>) -> Seq<char> {
    if word.len() == 0 {
        word
    } else {
        char_uppercase(word[0]) + word.drop_first()
    }
}

/// `word` with its first character made ASCII uppercase.
pub open spec fn ascii_capitalize(word: Seq<char>) -> Seq<char> {
    if word.len() == 0 {
        word
    } else {
        seq![ascii_upper(word[0])] + word.drop_first()
    }
}

/// PascalCase of an ASCII snake_case name: every `_`-separated word with
/// its first letter made ASCII uppercase, the words joined.
pub open spec fn ascii_pascal_case(name: Seq<char>) -> Seq<char> {
    concat(split_on(name, '_').map_values(|w: Seq<char>| ascii_capitalize(w)))
}

/// PascalCase of a snake_case name: every `_`-separated word capitalized,
/// the words joined without separator.
pub open spec fn pascal_case(name: Seq<char>) -> Seq<char> {
    concat(split_on(name, '_').map_values(|w: Seq<char>| capitalize(w)))
}

proof fn lemma_split_nonempty(s: Seq<char>, sep: char)
    ensures
        split_on(s, sep).len() >= 1,
    decreases s.len(),
{
    if s.len() > 0 {
        lemma_split_nonempty(s.drop_last(), sep);
    }
}

/// Every character of `s` is ASCII.
pub open spec fn is_ascii_text(s: Seq<char>) -> bool {
    forall|j: int| 0 <= j < s.len() ==> (s[j] as u32) < 128
}

/// No character of `s` is `c`.
pub open spec fn lacks(s: Seq<char>, c: char) -> bool {
    forall|j: int| 0 <= j < s.len() ==> s[j] != c
}

proof fn lemma_ascii_without_underscore_concat(a: Seq<char>, b: Seq<char>)
    requires
        is_ascii_text(a) && lacks(a, '_'),
        is_ascii_text(b) && lacks(b, '_'),
    ensures
        is_ascii_text(a + b) && lacks(a + b, '_'),
{
    assert forall|j: int| 0 <= j < (a + b).len() implies ((a + b)[j] as u32) < 128 && (a + b)[j] != '_' by {
        if j >= a.len() {
            assert((a + b)[j] == b[j - a.len()]);
        }
    }
}

/// Converts a snake_case name to the PascalCase name of its instruction
/// variant: `create_token` becomes `CreateToken`.
pub fn to_pascal_case(name: &str) -> (r: String)
    ensures
        r@ == pascal_case(name@),
        is_ascii_text(name@) ==> is_ascii_text(r@) && lacks(r@, '_') && r@ == ascii_pascal_case(
            name@,
        ),
{
    let cs = chars_of(name);
    let mut r = String::new();
    let mut word: Vec<char> = Vec::new();
    let mut i: usize = 0;
    while i < cs.len()
        invariant
            cs@ == name@,
            i <= cs.len(),
            split_on(cs@.take(i as int), '_').len() >= 1,
            r@ == concat(split_on(cs@.take(i as int), '_').drop_last().map_values(
                |w: Seq<char>| capitalize(w),
            )),
            word@ == split_on(cs@.take(i as int), '_').last(),
            lacks(word@, '_'),
            is_ascii_text(name@) ==> is_ascii_text(word@) && is_ascii_text(r@) && lacks(r@, '_'),
            is_ascii_text(name@) ==> r@ == concat(
                split_on(cs@.take(i as int), '_').drop_last().map_values(
                    |w: Seq<char>| ascii_capitalize(w),
                ),
            ),
        decreases cs.len() - i,
    {
        let c = cs[i];
        let ghost before = cs@.take(i as int);
        proof {
            assert(cs@.take(i + 1).drop_last() =~= before);
            lemma_split_nonempty(before, '_');
        }
        if c == '_' {
            let ghost old_r = r@;
            let ghost w = word@;
            push_capitalized(&mut r, &word);
            proof {
                if is_ascii_text(name@) {
                    lemma_ascii_without_underscore_concat(old_r, capitalize(w));
                }
            }
            word = Vec::new();
            proof {
                let ps = split_on(before, '_');
                let f = |w: Seq<char>| capitalize(w);
                assert(split_on(cs@.take(i + 1), '_') == ps.push(Seq::<char>::empty()));
                assert(ps.push(Seq::<char>::empty()).drop_last() =~= ps);
                assert(ps.map_values(f).drop_last() =~= ps.drop_last().map_values(f));
                let g = |w: Seq<char>| ascii_capitalize(w);
                assert(ps.map_values(g).drop_last() =~= ps.drop_last().map_values(g));
                assert(word@ =~= Seq::<char>::empty());
            }
        } else {
            proof {
                assert(cs@[i as int] == name@[i as int]);
            }
            word.push(c);
            proof {
                let ps = split_on(before, '_');
                let f = |w: Seq<char>| capitalize(w);
                let ps2 = ps.update(ps.len() - 1, ps.last().push(c));
                assert(split_on(cs@.take(i + 1), '_') == ps2);
                assert(ps2.drop_last() =~= ps.drop_last());
            }
        }
        i = i + 1;
    }
    proof {
        assert(cs@.take(cs.len() as int) =~= name@);
        lemma_split_nonempty(name@, '_');
    }
    let ghost old_r = r@;
    let ghost w = word@;
    push_capitalized(&mut r, &word);
    proof {
        if is_ascii_text(name@) {
            lemma_ascii_without_underscore_concat(old_r, capitalize(w));
        }
        let ps = split_on(name@, '_');
        let f = |w: Seq<char>| capitalize(w);
        assert(ps.map_values(f).drop_last() =~= ps.drop_last().map_values(f));
        let g = |w: Seq<char>| ascii_capitalize(w);
        assert(ps.map_values(g).drop_last() =~= ps.drop_last().map_values(g));
    }
    r
}

/// Appends `capitalize(word)` to `s`.
fn push_capitalized(s: &mut String, word: &Vec<char>)
    ensures
        final(s)@ == old(s)@ + capitalize(word@),
        is_ascii_text(word@) && lacks(word@, '_') ==> is_ascii_text(capitalize(word@)) && lacks(
            capitalize(word@),
            '_',
        ),
        is_ascii_text(word@) ==> capitalize(word@) == ascii_capitalize(word@),
{
    if word.len() == 0 {
        return;
    }
    let up = uppercase(word[0]);
    s.append(up.as_str());
    proof {
        if is_ascii_text(word@) {
            assert(capitalize(word@) =~= ascii_capitalize(word@));
        }
        if is_ascii_text(word@) && lacks(word@, '_') {
            let cap = capitalize(word@);
            assert(cap =~= seq![ascii_upper(word@[0])] + word@.drop_first());
            assert forall|j: int| 0 <= j < cap.len() implies (cap[j] as u32) < 128 && cap[j] != '_' by {
                if j > 0 {
                    assert(cap[j] == word@[j]);
                }
            }
        }
    }
    let mut i: usize = 1;
    while i < word.len()
        invariant
            1 <= i <= word.len(),
            s@ == old(s)@ + char_uppercase(word@[0]) + word@.subrange(1, i as int),
        decreases word.len() - i,
    {
        push_char(s, word[i]);
        i = i + 1;
        proof {
            assert(word@.subrange(1, i as int) =~= word@.subrange(1, i - 1).push(word@[i - 1]));
        }
    }
    proof {
        assert(word@.subrange(1, word.len() as int) =~= word@.drop_first());
    }
}

proof fn lemma_split_pieces_lack_sep(s: Seq<char>, sep: char)
    ensures
        forall|i: int| 0 <= i < split_on(s, sep).len() ==> lacks(#[trigger] split_on(s, sep)[i], sep),
    decreases s.len(),
{
    if s.len() > 0 {
        lemma_split_pieces_lack_sep(s.drop_last(), sep);
        lemma_split_nonempty(s.drop_last(), sep);
        let ps = split_on(s.drop_last(), sep);
        assert forall|i: int| 0 <= i < split_on(s, sep).len() implies lacks(#[trigger] split_on(s, sep)[i], sep) by {
            if i < ps.len() {
                assert(lacks(ps[i], sep));
            }
        }
    }
}

proof fn lemma_concat_lacks(ps: Seq<Seq<char>>, c: char)
    requires
        forall|i: int| 0 <= i < ps.len() ==> lacks(#[trigger] ps[i], c),
    ensures
        lacks(concat(ps), c),
    decreases ps.len(),
{
    if ps.len() > 0 {
        lemma_concat_lacks(ps.drop_last(), c);
        assert(lacks(ps[ps.len() - 1], c));
        let a = concat(ps.drop_last());
        assert forall|j: int| 0 <= j < concat(ps).len() implies concat(ps)[j] != c by {
            if j >= a.len() {
                assert(concat(ps)[j] == ps.last()[j - a.len()]);
            }
        }
    }
}

proof fn lemma_split_without_sep(s: Seq<char>, sep: char)
    requires
        lacks(s, sep),
    ensures
        split_on(s, sep) == seq![s],
    decreases s.len(),
{
    if s.len() > 0 {
        lemma_split_without_sep(s.drop_last(), sep);
        assert(s.drop_last().push(s.last()) =~= s);
        assert(split_on(s, sep) =~= seq![s]);
    } else {
        assert(s =~= Seq::<char>::empty());
    }
}

proof fn lemma_concat_starts_upper(ps: Seq<Seq<char>>)
    requires
        forall|i: int| 0 <= i < ps.len() && (#[trigger] ps[i]).len() > 0 ==> ascii_upper(ps[i][0]) == ps[i][0],
    ensures
        concat(ps).len() > 0 ==> ascii_upper(concat(ps)[0]) == concat(ps)[0],
    decreases ps.len(),
{
    if ps.len() > 0 {
        lemma_concat_starts_upper(ps.drop_last());
        let last = ps[ps.len() - 1];
        if last.len() > 0 {
            assert(ascii_upper(last[0]) == last[0]);
        }
    }
}

/// ASCII PascalCase holds no `_`, and converting it again changes nothing.
pub proof fn lemma_ascii_pascal_case_is_idempotent(name: Seq<char>)
    ensures
        lacks(ascii_pascal_case(name), '_'),
        ascii_pascal_case(ascii_pascal_case(name)) == ascii_pascal_case(name),
{
    let ps = split_on(name, '_');
    let caps = ps.map_values(|w: Seq<char>| ascii_capitalize(w));
    lemma_split_pieces_lack_sep(name, '_');
    assert forall|i: int| 0 <= i < caps.len() implies lacks(#[trigger] caps[i], '_') by {
        assert(lacks(ps[i], '_'));
        if ps[i].len() > 0 {
            assert forall|j: int| 0 <= j < caps[i].len() implies caps[i][j] != '_' by {
                if j > 0 {
                    assert(caps[i][j] == ps[i][j]);
                }
            }
        }
    }
    lemma_concat_lacks(caps, '_');
    let p = ascii_pascal_case(name);
    assert forall|i: int| 0 <= i < caps.len() && (#[trigger] caps[i]).len() > 0 implies ascii_upper(
        caps[i][0],
    ) == caps[i][0] by {}
    lemma_concat_starts_upper(caps);
    lemma_split_without_sep(p, '_');
    let single = seq![p].map_values(|w: Seq<char>| ascii_capitalize(w));
    assert(single =~= seq![ascii_capitalize(p)]);
    assert(single.drop_last() =~= Seq::<Seq<char>>::empty());
    assert(concat(Seq::<Seq<char>>::empty()) == Seq::<char>::empty());
    assert(concat(single) =~= ascii_capitalize(p));
    assert(ascii_capitalize(p) =~= p);
    assert(split_on(p, '_').map_values(|w: Seq<char>| ascii_capitalize(w)) == single);
}

} // verus!
