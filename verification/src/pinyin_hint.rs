//! Pinyin hints that help the language model repair homophone errors.

use vstd::prelude::*;
use pinyin::ToPinyin;
use crate::text::{chars_of, is_space, is_space_spec, join_spec, push_char, push_str};

verus! {

/// The plain (toneless) pinyin that the `pinyin` crate gives for `c`, if any.
pub uninterp spec fn pinyin_plain(c: char) -> Option<Seq<char>>;

/// A letter of a toneless pinyin reading: a lowercase ASCII letter, `ê` or `ü`.
pub open spec fn pinyin_letter(c: char) -> bool {
    ('a' <= c && c <= 'z') || c == 'ê' || c == 'ü'
}

/// `ToPinyin::to_pinyin` on a character, then `Pinyin::plain`.
///
/// Claims that the result is a function of `c`, named `pinyin_plain`, and that
/// a reading is nonempty and made of pinyin letters: the crate's build checks
/// every character of its table against its list of pinyin letters, the plain
/// style keeps only their toneless base letters, and the table holds no empty
/// reading.
#[verifier::external_body]
fn char_pinyin(c: char) -> (r: Option<String>)
    ensures
        match r {
            Some(s) => pinyin_plain(c) == Some(s@) && s@.len() > 0 && forall|k: int|
                0 <= k < s@.len() ==> pinyin_letter(#[trigger] s@[k]),
            None => pinyin_plain(c) is None,
        },
{
    match c.to_pinyin() {
        Some(p) => Some(p.plain().to_string()),
        None => None,
    }
}

/// The hint for one character: `/` for whitespace, else its pinyin, else the
/// character itself.
pub open spec fn hint_token(c: char) -> Seq<char> {
    if is_space_spec(c) {
        seq!['/']
    } else {
        match pinyin_plain(c) {
            Some(p) => p,
            None => seq![c],
        }
    }
}

/// The hint for a text: the hints of its characters, separated by single spaces.
pub open spec fn pinyin_hint_spec(s: Seq<char>) -> Seq<char> {
    join_spec(s.map_values(|c: char| hint_token(c)), seq![' '])
}

/// `t` holds no space.
pub open spec fn space_free(t: Seq<char>) -> bool {
    forall|k: int| 0 <= k < t.len() ==> #[trigger] t[k] != ' '
}

fn push_hint_token(out: &mut String, c: char)
    ensures
        final(out)@ == old(out)@ + hint_token(c),
        hint_token(c).len() > 0,
        space_free(hint_token(c)),
{
    if is_space(c) {
        push_char(out, '/');
    } else {
        match char_pinyin(c) {
            Some(p) => push_str(out, p.as_str()),
            None => push_char(out, c),
        }
    }
}

/// The pieces of `t` between spaces, as `str::split(' ')` yields them.
pub open spec fn split_at_spaces(t: Seq<char>) -> Seq<Seq<char>>
    decreases t.len(),
{
    if t.len() == 0 {
        seq![Seq::empty()]
    } else {
        let init = split_at_spaces(t.drop_last());
        if t.last() == ' ' {
            init.push(Seq::empty())
        } else {
            init.update(init.len() - 1, init.last().push(t.last()))
        }
    }
}

/// Text without spaces, after a space, is one more piece.
proof fn lemma_split_after_space(a: Seq<char>, b: Seq<char>)
    requires
        space_free(b),
    ensures
        split_at_spaces(a + seq![' '] + b) == split_at_spaces(a).push(b),
    decreases b.len(),
{
    let t = a + seq![' '] + b;
    if b.len() == 0 {
        assert(t.drop_last() =~= a);
        assert(t.last() == ' ');
        assert(b =~= Seq::<char>::empty());
    } else {
        let b0 = b.drop_last();
        assert(t.drop_last() =~= a + seq![' '] + b0);
        assert(t.last() == b.last());
        assert(b.last() != ' ');
        assert forall|k: int| 0 <= k < b0.len() implies #[trigger] b0[k] != ' ' by {
            assert(b0[k] == b[k]);
        }
        lemma_split_after_space(a, b0);
        assert(b0.push(b.last()) =~= b);
        assert(split_at_spaces(a).push(b0).update(
            split_at_spaces(a).len() as int,
            b0.push(b.last()),
        ) =~= split_at_spaces(a).push(b));
    }
}

/// Text without spaces is a single piece.
proof fn lemma_split_free(b: Seq<char>)
    requires
        space_free(b),
    ensures
        split_at_spaces(b) == seq![b],
    decreases b.len(),
{
    if b.len() == 0 {
        assert(b =~= Seq::<char>::empty());
    } else {
        let b0 = b.drop_last();
        assert(b.last() != ' ');
        assert forall|k: int| 0 <= k < b0.len() implies #[trigger] b0[k] != ' ' by {
            assert(b0[k] == b[k]);
        }
        lemma_split_free(b0);
        assert(b0.push(b.last()) =~= b);
        assert(seq![b0].update(0, b0.push(b.last())) =~= seq![b]);
    }
}

/// Space-free pieces joined by spaces split back into those pieces.
proof fn lemma_split_join(parts: Seq<Seq<char>>)
    requires
        parts.len() > 0,
        forall|i: int| 0 <= i < parts.len() ==> space_free(#[trigger] parts[i]),
    ensures
        split_at_spaces(join_spec(parts, seq![' '])) == parts,
    decreases parts.len(),
{
    if parts.len() == 1 {
        lemma_split_free(parts[0]);
        assert(seq![parts[0]] =~= parts);
    } else {
        let init = parts.drop_last();
        assert forall|i: int| 0 <= i < init.len() implies space_free(#[trigger] init[i]) by {
            assert(init[i] == parts[i]);
        }
        lemma_split_join(init);
        assert(space_free(parts[parts.len() - 1]));
        lemma_split_after_space(join_spec(init, seq![' ']), parts.last());
        assert(init.push(parts.last()) =~= parts);
    }
}

/// Builds the pinyin hint for `text`: one token per character, joined with
/// spaces, so that a nonempty text's hint splits at its spaces into exactly one
/// token per character.
pub fn build_pinyin_hint(text: &str) -> (r: String)
    ensures
        r@ == pinyin_hint_spec(text@),
        text@.len() > 0 ==> split_at_spaces(r@) == text@.map_values(|c: char| hint_token(c)),
{
    let v = chars_of(text);
    let mut out = String::new();
    for i in 0..v.len()
        invariant
            v@ == text@,
            out@ == pinyin_hint_spec(v@.take(i as int)),
            forall|j: int| 0 <= j < i ==> space_free(hint_token(#[trigger] v@[j])),
    {
        let ghost prev = v@.take(i as int).map_values(|c: char| hint_token(c));
        let ghost next = v@.take(i + 1).map_values(|c: char| hint_token(c));
        assert(next.drop_last() =~= prev);
        assert(next.last() == hint_token(v@[i as int]));
        if i > 0 {
            push_char(&mut out, ' ');
        } else {
            assert(next =~= seq![hint_token(v@[0])]);
        }
        push_hint_token(&mut out, v[i]);
        assert(out@ =~= pinyin_hint_spec(v@.take(i + 1)));
    }
    assert(v@.take(v.len() as int) =~= v@);
    proof {
        if v@.len() > 0 {
            let tokens = v@.map_values(|c: char| hint_token(c));
            assert forall|i: int| 0 <= i < tokens.len() implies space_free(#[trigger] tokens[i]) by {
                assert(space_free(hint_token(v@[i])));
            }
            lemma_split_join(tokens);
        }
    }
    out
}


/// The hint of two texts written one after the other is the hint of each, joined
/// by a space (an empty text adds nothing).
pub proof fn law_hint_of_concatenation(a: Seq<char>, b: Seq<char>)
    ensures
        pinyin_hint_spec(a + b) == if a.len() == 0 {
            pinyin_hint_spec(b)
        } else if b.len() == 0 {
            pinyin_hint_spec(a)
        } else {
            pinyin_hint_spec(a) + seq![' '] + pinyin_hint_spec(b)
        },
{
    let f = |c: char| hint_token(c);
    assert((a + b).map_values(f) =~= a.map_values(f) + b.map_values(f));
    if a.len() == 0 {
        assert(a + b =~= b);
    } else if b.len() == 0 {
        assert(a + b =~= a);
    } else {
        crate::text::lemma_join_append(a.map_values(f), b.map_values(f), seq![' ']);
    }
}

/// Every whitespace character (the Unicode `White_Space` set that
/// `char::is_whitespace` tests: tab to carriage return, space, U+0085, U+00A0,
/// U+1680, U+2000 to U+200A, U+2028, U+2029, U+202F, U+205F and U+3000) is
/// written as `/` between the hints of the text around it.
pub proof fn law_whitespace_is_marked(a: Seq<char>, c: char, b: Seq<char>)
    requires
        a.len() > 0,
        b.len() > 0,
        ('\t' <= c <= '\r') || c == ' ' || c == '\u{85}' || c == '\u{A0}' || c == '\u{1680}' || (
        '\u{2000}' <= c <= '\u{200A}') || c == '\u{2028}' || c == '\u{2029}' || c == '\u{202F}'
            || c == '\u{205F}' || c == '\u{3000}',
    ensures
        pinyin_hint_spec(a + seq![c] + b) == pinyin_hint_spec(a) + seq![' ', '/', ' ']
            + pinyin_hint_spec(b),
{
    assert(is_space_spec(c));
    law_hint_of_concatenation(a, seq![c]);
    law_hint_of_concatenation(a + seq![c], b);
    assert(pinyin_hint_spec(seq![c]) == seq!['/']) by {
        assert(seq![c].map_values(|x: char| hint_token(x)) =~= seq![seq!['/']]);
    }
    assert(pinyin_hint_spec(a) + seq![' '] + seq!['/'] + seq![' '] + pinyin_hint_spec(b)
        =~= pinyin_hint_spec(a) + seq![' ', '/', ' '] + pinyin_hint_spec(b));
}

} // verus!
