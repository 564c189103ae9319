//! Case conversion for schema identifiers.
//!
//! Identifiers are split into segments at non-alphanumeric separators, at
//! boundaries where an uppercase letter follows a non-uppercase character,
//! and before the last capital of a capital run that is followed by a
//! lowercase letter (so `XMLHttp` splits into `XML` and `Http`).
//! `to_upper_camel_case` title-cases every segment — first character
//! uppercased, the rest lowercased — and concatenates the segments;
//! `to_lower_camel_case` lowercases the whole first segment and title-cases
//! the rest. Both conversions are pure and total, and they map their own
//! canonical shapes to themselves.

use vstd::prelude::*;

verus! {

/// A character that can belong to an identifier segment: an ASCII letter or
/// digit. Any other character is treated as a separator and dropped.
pub open spec fn is_word_char(c: char) -> bool {
    ('a' <= c && c <= 'z') || ('A' <= c && c <= 'Z') || ('0' <= c && c <= '9')
}

pub open spec fn is_upper_char(c: char) -> bool {
    'A' <= c && c <= 'Z'
}

pub open spec fn is_lower_char(c: char) -> bool {
    'a' <= c && c <= 'z'
}

/// The uppercase form of an ASCII letter; any other character is unchanged.
pub open spec fn upper_char(c: char) -> char {
    if is_lower_char(c) {
        ((c as u8) - 32) as char
    } else {
        c
    }
}

/// The lowercase form of an ASCII letter; any other character is unchanged.
pub open spec fn lower_char(c: char) -> char {
    if is_upper_char(c) {
        ((c as u8) + 32) as char
    } else {
        c
    }
}

/// Upper-camel conversion of the remaining input. `prev_word` says whether
/// the previous input character belonged to a segment, `prev_upper` whether
/// it was an uppercase letter. A character opens a segment after a
/// separator, as an uppercase letter after a non-uppercase character, or as
/// the last capital of a capital run followed by a lowercase letter. A
/// segment's opening character is uppercased, every other one lowercased;
/// separators are dropped.
pub open spec fn upper_rec(s: Seq<char>, prev_word: bool, prev_upper: bool) -> Seq<char>
    decreases s.len(),
{
    if s.len() == 0 {
        Seq::empty()
    } else {
        let c = s[0];
        let rest = s.drop_first();
        if !is_word_char(c) {
            upper_rec(rest, false, false)
        } else {
            let opens = !prev_word || (is_upper_char(c) && !prev_upper) || (is_upper_char(c)
                && prev_upper && s.len() > 1 && is_lower_char(s[1]));
            (if opens {
                seq![upper_char(c)]
            } else {
                seq![lower_char(c)]
            }) + upper_rec(rest, true, is_upper_char(c))
        }
    }
}

/// UpperCamelCase conversion: every segment is title-cased.
pub open spec fn upper_camel(s: Seq<char>) -> Seq<char> {
    upper_rec(s, false, false)
}

/// Lower-camel conversion of the remaining input while still inside the
/// first segment. `started` says whether the first segment has begun;
/// `prev_upper` whether the previous input character was an uppercase
/// letter. The whole first segment is lowercased; once it ends, the rest
/// behaves exactly like the upper-camel conversion.
pub open spec fn lower_rec(s: Seq<char>, started: bool, prev_upper: bool) -> Seq<char>
    decreases s.len(),
{
    if s.len() == 0 {
        Seq::empty()
    } else {
        let c = s[0];
        let rest = s.drop_first();
        if !is_word_char(c) {
            if started {
                upper_rec(rest, false, false)
            } else {
                lower_rec(rest, false, false)
            }
        } else if !started {
            seq![lower_char(c)] + lower_rec(rest, true, is_upper_char(c))
        } else if is_upper_char(c) && (!prev_upper || (s.len() > 1 && is_lower_char(s[1]))) {
            seq![c] + upper_rec(rest, true, true)
        } else {
            seq![lower_char(c)] + lower_rec(rest, true, is_upper_char(c))
        }
    }
}

/// lowerCamelCase conversion: the first segment is lowercased, every later
/// segment is title-cased.
pub open spec fn lower_camel(s: Seq<char>) -> Seq<char> {
    lower_rec(s, false, false)
}

/// Every character of the sequence is a word character.
pub open spec fn all_word_chars(s: Seq<char>) -> bool {
    forall|i: int| 0 <= i < s.len() ==> is_word_char(#[trigger] s[i])
}

/// Every capital that continues a run of capitals is followed by a
/// lowercase letter, so re-splitting finds each capital opening a segment.
/// `prev_upper` says whether the character before the sequence was an
/// uppercase letter. A longer capital run (`ABC`) would be title-cased as a
/// single segment.
pub open spec fn caps_split_apart(t: Seq<char>, prev_upper: bool) -> bool {
    forall|j: int|
        0 <= j < t.len() && is_upper_char(#[trigger] t[j]) && (if j == 0 {
            prev_upper
        } else {
            is_upper_char(t[j - 1])
        }) ==> j + 1 < t.len() && is_lower_char(t[j + 1])
}

/// A string the upper-camel conversion maps to itself: word characters
/// only, not opening with a lowercase letter, capital runs split apart.
pub open spec fn upper_camel_form(s: Seq<char>) -> bool {
    &&& all_word_chars(s)
    &&& (s.len() > 0 ==> !is_lower_char(s[0]))
    &&& caps_split_apart(s, false)
}

/// A string the lower-camel conversion maps to itself: word characters
/// only, not opening with an uppercase letter, capital runs split apart.
pub open spec fn lower_camel_form(s: Seq<char>) -> bool {
    &&& all_word_chars(s)
    &&& (s.len() > 0 ==> !is_upper_char(s[0]))
    &&& caps_split_apart(s, false)
}

/// Relies on String::push: appends the given character to the end.
pub assume_specification[ String::push ](s: &mut String, c: char)
    ensures
        final(s)@ == old(s)@.push(c),
;

fn is_word_char_exec(c: char) -> (r: bool)
    ensures
        r == is_word_char(c),
{
    ('a' <= c && c <= 'z') || ('A' <= c && c <= 'Z') || ('0' <= c && c <= '9')
}

fn is_upper_char_exec(c: char) -> (r: bool)
    ensures
        r == is_upper_char(c),
{
    'A' <= c && c <= 'Z'
}

fn is_lower_char_exec(c: char) -> (r: bool)
    ensures
        r == is_lower_char(c),
{
    'a' <= c && c <= 'z'
}

fn upper_char_exec(c: char) -> (r: char)
    ensures
        r == upper_char(c),
{
    if 'a' <= c && c <= 'z' {
        ((c as u8) - 32) as char
    } else {
        c
    }
}

fn lower_char_exec(c: char) -> (r: char)
    ensures
        r == lower_char(c),
{
    if 'A' <= c && c <= 'Z' {
        ((c as u8) + 32) as char
    } else {
        c
    }
}

/// Converts an identifier to UpperCamelCase.
pub fn to_upper_camel_case(s: &str) -> (r: String)
    ensures
        r@ == upper_camel(s@),
{
    let n = s.unicode_len();
    let mut out = String::new();
    let mut prev_word = false;
    let mut prev_upper = false;
    let mut i: usize = 0;
    proof {
        assert(s@.skip(0) =~= s@);
        assert(out@ + upper_rec(s@, false, false) =~= upper_rec(s@, false, false));
    }
    while i < n
        invariant
            i <= n,
            n == s@.len(),
            upper_camel(s@) == out@ + upper_rec(s@.skip(i as int), prev_word, prev_upper),
        decreases n - i,
    {
        let c = s.get_char(i);
        let next_lower = if i + 1 < n {
            is_lower_char_exec(s.get_char(i + 1))
        } else {
            false
        };
        proof {
            assert(s@.skip(i as int)[0] == s@[i as int]);
            assert(s@.skip(i as int).drop_first() =~= s@.skip(i as int + 1));
            if i + 1 < n {
                assert(s@.skip(i as int)[1] == s@[i as int + 1]);
            }
        }
        if is_word_char_exec(c) {
            let cu = is_upper_char_exec(c);
            let opens = !prev_word || (cu && !prev_upper) || (cu && prev_upper && next_lower);
            let e = if opens {
                upper_char_exec(c)
            } else {
                lower_char_exec(c)
            };
            let ghost pre = out@;
            out.push(e);
            prev_word = true;
            prev_upper = cu;
            proof {
                assert(out@ =~= pre + seq![e]);
                assert(pre + (seq![e] + upper_rec(s@.skip(i as int + 1), true, prev_upper)) =~= out@
                    + upper_rec(s@.skip(i as int + 1), true, prev_upper));
            }
        } else {
            prev_word = false;
            prev_upper = false;
        }
        i = i + 1;
    }
    proof {
        assert(s@.skip(n as int) =~= Seq::<char>::empty());
        assert(out@ + Seq::<char>::empty() =~= out@);
    }
    out
}

/// Converts an identifier to lowerCamelCase.
pub fn to_lower_camel_case(s: &str) -> (r: String)
    ensures
        r@ == lower_camel(s@),
{
    let n = s.unicode_len();
    let mut out = String::new();
    // While `in_first` holds, the remaining input is governed by `lower_rec`
    // with state (`started`, `prev_upper`); afterwards by `upper_rec` with
    // state (`prev_word`, `prev_upper`).
    let mut in_first = true;
    let mut started = false;
    let mut prev_upper = false;
    let mut prev_word = false;
    let mut i: usize = 0;
    proof {
        assert(s@.skip(0) =~= s@);
        assert(out@ + lower_rec(s@, false, false) =~= lower_rec(s@, false, false));
    }
    while i < n
        invariant
            i <= n,
            n == s@.len(),
            in_first && !started ==> !prev_upper,
            in_first ==> lower_camel(s@) == out@ + lower_rec(
                s@.skip(i as int),
                started,
                prev_upper,
            ),
            !in_first ==> lower_camel(s@) == out@ + upper_rec(
                s@.skip(i as int),
                prev_word,
                prev_upper,
            ),
        decreases n - i,
    {
        let c = s.get_char(i);
        let next_lower = if i + 1 < n {
            is_lower_char_exec(s.get_char(i + 1))
        } else {
            false
        };
        proof {
            assert(s@.skip(i as int)[0] == s@[i as int]);
            assert(s@.skip(i as int).drop_first() =~= s@.skip(i as int + 1));
            if i + 1 < n {
                assert(s@.skip(i as int)[1] == s@[i as int + 1]);
            }
        }
        let ghost pre = out@;
        let mut emitted: Option<char> = None;
        if in_first {
            if !is_word_char_exec(c) {
                if started {
                    in_first = false;
                    prev_word = false;
                    prev_upper = false;
                }
            } else if !started {
                emitted = Some(lower_char_exec(c));
                started = true;
                prev_upper = is_upper_char_exec(c);
            } else if is_upper_char_exec(c) && (!prev_upper || next_lower) {
                emitted = Some(c);
                in_first = false;
                prev_word = true;
                prev_upper = true;
            } else {
                emitted = Some(lower_char_exec(c));
                prev_upper = is_upper_char_exec(c);
            }
        } else {
            if is_word_char_exec(c) {
                let cu = is_upper_char_exec(c);
                let opens = !prev_word || (cu && !prev_upper) || (cu && prev_upper && next_lower);
                let e = if opens {
                    upper_char_exec(c)
                } else {
                    lower_char_exec(c)
                };
                emitted = Some(e);
                prev_word = true;
                prev_upper = cu;
            } else {
                prev_word = false;
                prev_upper = false;
            }
        }
        if let Some(e) = emitted {
            out.push(e);
            proof {
                assert(out@ =~= pre + seq![e]);
                assert(pre + (seq![e] + lower_rec(s@.skip(i as int + 1), started, prev_upper))
                    =~= out@ + lower_rec(s@.skip(i as int + 1), started, prev_upper));
                assert(pre + (seq![e] + upper_rec(s@.skip(i as int + 1), prev_word, prev_upper))
                    =~= out@ + upper_rec(s@.skip(i as int + 1), prev_word, prev_upper));
            }
        }
        i = i + 1;
    }
    proof {
        assert(s@.skip(n as int) =~= Seq::<char>::empty());
        assert(out@ + Seq::<char>::empty() =~= out@);
    }
    out
}

proof fn lemma_all_word_drop_first(t: Seq<char>)
    requires
        all_word_chars(t),
        t.len() > 0,
    ensures
        all_word_chars(t.drop_first()),
{
    assert forall|i: int| 0 <= i < t.drop_first().len() implies is_word_char(
        #[trigger] t.drop_first()[i],
    ) by {
        assert(t.drop_first()[i] == t[i + 1]);
    }
}

proof fn lemma_caps_split_drop_first(t: Seq<char>, prev_upper: bool)
    requires
        caps_split_apart(t, prev_upper),
        t.len() > 0,
    ensures
        caps_split_apart(t.drop_first(), is_upper_char(t[0])),
{
    let rest = t.drop_first();
    assert forall|j: int|
        0 <= j < rest.len() && is_upper_char(#[trigger] rest[j]) && (if j == 0 {
            is_upper_char(t[0])
        } else {
            is_upper_char(rest[j - 1])
        }) implies j + 1 < rest.len() && is_lower_char(rest[j + 1]) by {
        assert(rest[j] == t[j + 1]);
        if j > 0 {
            assert(rest[j - 1] == t[j]);
        }
        assert(is_upper_char(t[j + 1]));
        assert(j + 2 < t.len() && is_lower_char(t[j + 2]));
        assert(rest[j + 1] == t[j + 2]);
    }
}

proof fn lemma_upper_rec_id(t: Seq<char>, prev_upper: bool)
    requires
        all_word_chars(t),
        caps_split_apart(t, prev_upper),
    ensures
        upper_rec(t, true, prev_upper) == t,
    decreases t.len(),
{
    if t.len() == 0 {
        assert(upper_rec(t, true, prev_upper) =~= t);
    } else {
        let c = t[0];
        let rest = t.drop_first();
        lemma_all_word_drop_first(t);
        lemma_caps_split_drop_first(t, prev_upper);
        lemma_upper_rec_id(rest, is_upper_char(c));
        if is_upper_char(c) {
            assert(prev_upper ==> t.len() > 1 && is_lower_char(t[1]));
            assert(upper_char(c) == c);
        } else {
            assert(lower_char(c) == c);
        }
        assert(upper_rec(t, true, prev_upper) =~= t);
    }
}

/// A name that is already in the shape the upper-camel conversion produces
/// is left exactly as it is by that conversion.
pub proof fn lemma_upper_camel_fixed(t: Seq<char>)
    requires
        upper_camel_form(t),
    ensures
        upper_camel(t) == t,
{
    if t.len() == 0 {
        assert(upper_camel(t) =~= t);
    } else {
        let rest = t.drop_first();
        lemma_all_word_drop_first(t);
        lemma_caps_split_drop_first(t, false);
        lemma_upper_rec_id(rest, is_upper_char(t[0]));
        assert(upper_char(t[0]) == t[0]);
        assert(upper_camel(t) =~= t);
    }
}

/// Converting an identifier to UpperCamelCase twice gives the same result
/// as converting it once, whenever the first conversion lands in the
/// canonical shape. It does for every ordinary identifier; the exception is
/// a lone capital directly followed by another capital, as single-letter
/// segments produce them (`a_b_c` becomes `ABC`, and a second conversion
/// title-cases that run as one segment).
pub proof fn lemma_upper_camel_idempotent(s: Seq<char>)
    requires
        upper_camel_form(upper_camel(s)),
    ensures
        upper_camel(upper_camel(s)) == upper_camel(s),
{
    lemma_upper_camel_fixed(upper_camel(s));
}

proof fn lemma_lower_rec_id(t: Seq<char>)
    requires
        all_word_chars(t),
        caps_split_apart(t, false),
    ensures
        lower_rec(t, true, false) == t,
    decreases t.len(),
{
    if t.len() == 0 {
        assert(lower_rec(t, true, false) =~= t);
    } else {
        let c = t[0];
        let rest = t.drop_first();
        lemma_all_word_drop_first(t);
        lemma_caps_split_drop_first(t, false);
        if is_upper_char(c) {
            lemma_upper_rec_id(rest, true);
        } else {
            lemma_lower_rec_id(rest);
            assert(lower_char(c) == c);
        }
        assert(lower_rec(t, true, false) =~= t);
    }
}

/// A name that is already in the shape the lower-camel conversion produces
/// is left exactly as it is by that conversion.
pub proof fn lemma_lower_camel_fixed(t: Seq<char>)
    requires
        lower_camel_form(t),
    ensures
        lower_camel(t) == t,
{
    if t.len() == 0 {
        assert(lower_camel(t) =~= t);
    } else {
        let rest = t.drop_first();
        lemma_all_word_drop_first(t);
        lemma_caps_split_drop_first(t, false);
        lemma_lower_rec_id(rest);
        assert(lower_char(t[0]) == t[0]);
        assert(lower_camel(t) =~= t);
    }
}

/// Converting an identifier to lowerCamelCase twice gives the same result
/// as converting it once, whenever the first conversion lands in the
/// canonical shape. It does for every ordinary identifier; the exception is
/// a lone capital directly followed by another capital, as single-letter
/// segments produce them (`a_b_c` becomes `aBC`, and a second conversion
/// title-cases that run as one segment).
pub proof fn lemma_lower_camel_idempotent(s: Seq<char>)
    requires
        lower_camel_form(lower_camel(s)),
    ensures
        lower_camel(lower_camel(s)) == lower_camel(s),
{
    lemma_lower_camel_fixed(lower_camel(s));
}

} // verus!
