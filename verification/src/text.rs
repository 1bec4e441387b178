//! Taking a line of text apart: prefixes, surrounding white space and
//! separated fields, stated over sequences of characters.

use vstd::prelude::*;
use vstd::string::*;

verus! {

/// Whether `c` is white space: a character with the Unicode property
/// White_Space.
pub open spec fn is_whitespace(c: char) -> bool {
    ||| ('\u{0009}' <= c && c <= '\u{000D}')
    ||| c == '\u{0020}'
    ||| c == '\u{0085}'
    ||| c == '\u{00A0}'
    ||| c == '\u{1680}'
    ||| ('\u{2000}' <= c && c <= '\u{200A}')
    ||| c == '\u{2028}'
    ||| c == '\u{2029}'
    ||| c == '\u{202F}'
    ||| c == '\u{205F}'
    ||| c == '\u{3000}'
}

/// `s` without the white space it begins with.
pub open spec fn trim_start(s: Seq<char>) -> Seq<char>
    decreases s.len(),
{
    if s.len() > 0 && is_whitespace(s.first()) {
        trim_start(s.drop_first())
    } else {
        s
    }
}

/// `s` without the white space it ends with.
pub open spec fn trim_end(s: Seq<char>) -> Seq<char>
    decreases s.len(),
{
    if s.len() > 0 && is_whitespace(s.last()) {
        trim_end(s.drop_last())
    } else {
        s
    }
}

/// `s` without the white space around it.
pub open spec fn trimmed(s: Seq<char>) -> Seq<char> {
    trim_end(trim_start(s))
}

/// The fields of `s` between occurrences of `separator`, read from left to
/// right: each separator closes a field and opens an empty one, and every
/// other character joins the field that is open. A text without separator
/// is one field; an empty text is one empty field.
pub open spec fn split(s: Seq<char>, separator: char) -> Seq<Seq<char>>
    decreases s.len(),
{
    if s.len() == 0 {
        seq![Seq::empty()]
    } else {
        let before = split(s.drop_last(), separator);
        if s.last() == separator {
            before.push(Seq::empty())
        } else {
            before.update(before.len() - 1, before.last().push(s.last()))
        }
    }
}

/// How often `c` occurs in `s`.
pub open spec fn count(s: Seq<char>, c: char) -> nat
    decreases s.len(),
{
    if s.len() == 0 {
        0
    } else {
        count(s.drop_last(), c) + if s.last() == c {
            1nat
        } else {
            0nat
        }
    }
}

/// `fields` written one after the other with `separator` between them.
pub open spec fn joined(fields: Seq<Seq<char>>, separator: char) -> Seq<char>
    decreases fields.len(),
{
    if fields.len() == 0 {
        Seq::empty()
    } else if fields.len() == 1 {
        fields[0]
    } else {
        joined(fields.drop_last(), separator).push(separator) + fields.last()
    }
}

/// Splitting loses nothing and finds every separator: there is one field
/// more than there are separators, no field holds a separator, and the
/// fields joined by the separator are the text again.
pub proof fn lemma_split_fields(s: Seq<char>, separator: char)
    ensures
        split(s, separator).len() == count(s, separator) + 1,
        forall|i: int|
            0 <= i < split(s, separator).len() ==> !(#[trigger] split(s, separator)[i]).contains(
                separator,
            ),
        joined(split(s, separator), separator) == s,
    decreases s.len(),
{
    let fields = split(s, separator);
    if s.len() == 0 {
        assert(joined(fields, separator) =~= s);
    } else {
        let front = s.drop_last();
        let before = split(front, separator);
        lemma_split_fields(front, separator);
        if s.last() == separator {
            assert(fields.drop_last() =~= before);
            assert(joined(fields, separator) =~= s);
        } else {
            let open = before.last();
            assert forall|i: int| 0 <= i < fields.len() implies !(#[trigger] fields[i]).contains(
                separator,
            ) by {
                if i == fields.len() - 1 {
                    if fields[i].contains(separator) {
                        let k = choose|k: int| 0 <= k < fields[i].len() && fields[i][k] == separator;
                        assert(k < open.len());
                        assert(open[k] == separator);
                        assert(open.contains(separator));
                    }
                } else {
                    assert(fields[i] == before[i]);
                }
            }
            if before.len() == 1 {
                assert(joined(fields, separator) =~= s);
            } else {
                let head = joined(before.drop_last(), separator).push(separator);
                assert(fields.drop_last() =~= before.drop_last());
                assert(joined(before, separator) == head + open);
                assert(joined(fields, separator) == head + open.push(s.last()));
                assert(head + open.push(s.last()) =~= (head + open).push(s.last()));
                assert(front.push(s.last()) =~= s);
            }
        }
    }
}

/// Trimming leaves a stretch of the text that neither begins nor ends with
/// white space, and removes white space only.
pub proof fn lemma_trimmed_has_no_margin(s: Seq<char>)
    ensures
        trimmed(s).len() > 0 ==> !is_whitespace(trimmed(s).first()) && !is_whitespace(
            trimmed(s).last(),
        ),
        exists|from: int, to: int|
            0 <= from <= to <= s.len() && trimmed(s) == #[trigger] s.subrange(from, to) && (forall|
                k: int,
            |
                0 <= k < from || to <= k < s.len() ==> is_whitespace(#[trigger] s[k])),
{
    let (from, to) = lemma_trim_bounds(s);
    assert(trimmed(s) == s.subrange(from, to));
}

/// The stretch of `s` that trimming leaves.
proof fn lemma_trim_bounds(s: Seq<char>) -> (bounds: (int, int))
    ensures
        0 <= bounds.0 <= bounds.1 <= s.len(),
        trimmed(s) == s.subrange(bounds.0, bounds.1),
        forall|k: int| 0 <= k < bounds.0 || bounds.1 <= k < s.len() ==> is_whitespace(#[trigger] s[k]),
        bounds.0 < bounds.1 ==> !is_whitespace(s[bounds.0]) && !is_whitespace(s[bounds.1 - 1]),
{
    let from = lemma_trim_start_bound(s);
    let rest = s.subrange(from, s.len() as int);
    let kept = lemma_trim_end_bound(rest);
    assert(rest.subrange(0, kept) =~= s.subrange(from, from + kept));
    assert forall|k: int| from + kept <= k < s.len() implies is_whitespace(#[trigger] s[k]) by {
        assert(rest[k - from] == s[k]);
    }
    if kept > 0 {
        assert(rest[kept - 1] == s[from + kept - 1]);
        assert(rest[0] == s[from]);
    }
    (from, from + kept)
}

/// Where the text that `trim_start` leaves begins.
proof fn lemma_trim_start_bound(s: Seq<char>) -> (from: int)
    ensures
        0 <= from <= s.len(),
        trim_start(s) == s.subrange(from, s.len() as int),
        forall|k: int| 0 <= k < from ==> is_whitespace(#[trigger] s[k]),
        from < s.len() ==> !is_whitespace(s[from]),
    decreases s.len(),
{
    if s.len() > 0 && is_whitespace(s.first()) {
        let rest = s.drop_first();
        let inner = lemma_trim_start_bound(rest);
        assert(rest.subrange(inner, rest.len() as int) =~= s.subrange(inner + 1, s.len() as int));
        assert forall|k: int| 0 <= k < inner + 1 implies is_whitespace(#[trigger] s[k]) by {
            if k > 0 {
                assert(rest[k - 1] == s[k]);
            }
        }
        if inner < rest.len() {
            assert(rest[inner] == s[inner + 1]);
        }
        inner + 1
    } else {
        assert(s.subrange(0, s.len() as int) =~= s);
        0
    }
}

/// Where the text that `trim_end` leaves ends.
proof fn lemma_trim_end_bound(s: Seq<char>) -> (to: int)
    ensures
        0 <= to <= s.len(),
        trim_end(s) == s.subrange(0, to),
        forall|k: int| to <= k < s.len() ==> is_whitespace(#[trigger] s[k]),
        to > 0 ==> !is_whitespace(s[to - 1]),
    decreases s.len(),
{
    if s.len() > 0 && is_whitespace(s.last()) {
        let rest = s.drop_last();
        let inner = lemma_trim_end_bound(rest);
        assert(rest.subrange(0, inner) =~= s.subrange(0, inner));
        assert forall|k: int| inner <= k < s.len() implies is_whitespace(#[trigger] s[k]) by {
            if k < rest.len() {
                assert(rest[k] == s[k]);
            }
        }
        if inner > 0 {
            assert(rest[inner - 1] == s[inner - 1]);
        }
        inner
    } else {
        assert(s.subrange(0, s.len() as int) =~= s);
        s.len() as int
    }
}

/// A stretch of `s` with white space on both sides of it, and none at its
/// own ends, is what trimming leaves of `s`.
proof fn lemma_trimmed_is(s: Seq<char>, from: int, to: int)
    requires
        0 <= from <= to <= s.len(),
        forall|k: int| 0 <= k < from || to <= k < s.len() ==> is_whitespace(#[trigger] s[k]),
        from < to ==> !is_whitespace(s[from]) && !is_whitespace(s[to - 1]),
        from == to ==> to == s.len(),
    ensures
        trimmed(s) == s.subrange(from, to),
{
    lemma_trim_start_is(s, from);
    let rest = s.subrange(from, s.len() as int);
    assert forall|k: int| to - from <= k < rest.len() implies is_whitespace(#[trigger] rest[k]) by {
        assert(rest[k] == s[k + from]);
    }
    if from < to {
        assert(rest[to - from - 1] == s[to - 1]);
    }
    lemma_trim_end_is(rest, to - from);
    assert(rest.subrange(0, to - from) =~= s.subrange(from, to));
}

/// White space up to `from`, and none at `from`, is what `trim_start`
/// removes.
proof fn lemma_trim_start_is(s: Seq<char>, from: int)
    requires
        0 <= from <= s.len(),
        forall|k: int| 0 <= k < from ==> is_whitespace(#[trigger] s[k]),
        from < s.len() ==> !is_whitespace(s[from]),
    ensures
        trim_start(s) == s.subrange(from, s.len() as int),
    decreases s.len(),
{
    if from == 0 {
        assert(s.subrange(0, s.len() as int) =~= s);
    } else {
        let rest = s.drop_first();
        assert(is_whitespace(s[0]));
        assert forall|k: int| 0 <= k < from - 1 implies is_whitespace(#[trigger] rest[k]) by {
            assert(rest[k] == s[k + 1]);
        }
        if from < s.len() {
            assert(rest[from - 1] == s[from]);
        }
        lemma_trim_start_is(rest, from - 1);
        assert(rest.subrange(from - 1, rest.len() as int) =~= s.subrange(from, s.len() as int));
    }
}

/// White space from `to` on, and none before `to`, is what `trim_end`
/// removes.
proof fn lemma_trim_end_is(s: Seq<char>, to: int)
    requires
        0 <= to <= s.len(),
        forall|k: int| to <= k < s.len() ==> is_whitespace(#[trigger] s[k]),
        to > 0 ==> !is_whitespace(s[to - 1]),
    ensures
        trim_end(s) == s.subrange(0, to),
    decreases s.len(),
{
    if to == s.len() {
        assert(s.subrange(0, s.len() as int) =~= s);
    } else {
        let rest = s.drop_last();
        assert(is_whitespace(s[s.len() - 1]));
        assert forall|k: int| to <= k < rest.len() implies is_whitespace(#[trigger] rest[k]) by {
            assert(rest[k] == s[k]);
        }
        if to > 0 {
            assert(rest[to - 1] == s[to - 1]);
        }
        lemma_trim_end_is(rest, to);
        assert(rest.subrange(0, to) =~= s.subrange(0, to));
    }
}

/// Whether `c` is white space.
pub fn whitespace(c: char) -> (yes: bool)
    ensures
        yes == is_whitespace(c),
{
    ('\u{0009}' <= c && c <= '\u{000D}') || c == '\u{0020}' || c == '\u{0085}' || c == '\u{00A0}'
        || c == '\u{1680}' || ('\u{2000}' <= c && c <= '\u{200A}') || c == '\u{2028}' || c
        == '\u{2029}' || c == '\u{202F}' || c == '\u{205F}' || c == '\u{3000}'
}

/// The characters of `s`, in their order.
pub fn characters(s: &str) -> (chars: Vec<char>)
    ensures
        chars@ == s@,
{
    broadcast use vstd::string::group_string_axioms;

    let mut chars: Vec<char> = Vec::new();
    for c in it: s.chars()
        invariant
            it.seq() == s@,
            chars@ == it.seq().take(it.index() as int),
    {
        chars.push(c);
    }
    chars
}

/// Whether `a` and `b` hold the same characters.
pub fn same_text(a: &str, b: &str) -> (same: bool)
    ensures
        same == (a@ == b@),
{
    String::from_str(a) == String::from_str(b)
}

/// Whether `s` begins with `prefix`.
pub fn starts_with(s: &str, prefix: &str) -> (yes: bool)
    ensures
        yes == prefix@.is_prefix_of(s@),
{
    strip_prefix(s, prefix).is_some()
}

/// What follows `prefix` in `s`, where `s` begins with `prefix`, and `None`
/// where it does not.
pub fn strip_prefix<'a>(s: &'a str, prefix: &str) -> (rest: Option<&'a str>)
    ensures
        prefix@.is_prefix_of(s@) ==> rest is Some && rest->0@ == s@.skip(prefix@.len() as int),
        !prefix@.is_prefix_of(s@) ==> rest is None,
{
    let text = characters(s);
    let wanted = characters(prefix);
    if wanted.len() > text.len() {
        return None;
    }
    let mut i: usize = 0;
    while i < wanted.len()
        invariant
            i <= wanted.len() <= text.len(),
            text@ == s@,
            wanted@ == prefix@,
            forall|k: int| 0 <= k < i ==> text@[k] == wanted@[k],
        decreases wanted.len() - i,
    {
        if text[i] != wanted[i] {
            proof {
                assert(s@.subrange(0, prefix@.len() as int)[i as int] != prefix@[i as int]);
            }
            return None;
        }
        i += 1;
    }
    proof {
        assert(prefix@ =~= s@.subrange(0, prefix@.len() as int));
        assert(s@.skip(prefix@.len() as int) =~= s@.subrange(
            prefix@.len() as int,
            s@.len() as int,
        ));
    }
    Some(s.substring_char(wanted.len(), text.len()))
}

/// `s` without the white space around it.
pub fn trim<'a>(s: &'a str) -> (inner: &'a str)
    ensures
        inner@ == trimmed(s@),
{
    let text = characters(s);
    let mut from: usize = 0;
    while from < text.len() && whitespace(text[from])
        invariant
            from <= text.len(),
            forall|k: int| 0 <= k < from ==> is_whitespace(#[trigger] text@[k]),
        decreases text.len() - from,
    {
        from += 1;
    }
    let mut to: usize = text.len();
    while to > from && whitespace(text[to - 1])
        invariant
            from <= to <= text.len(),
            forall|k: int| to <= k < text.len() ==> is_whitespace(#[trigger] text@[k]),
        decreases to,
    {
        to -= 1;
    }
    proof {
        lemma_trimmed_is(text@, from as int, to as int);
    }
    s.substring_char(from, to)
}

/// The fields of `s` between occurrences of `separator`, in their order.
pub fn split_fields(s: &str, separator: char) -> (fields: Vec<String>)
    ensures
        fields.deep_view() == split(s@, separator),
{
    let text = characters(s);
    let mut fields: Vec<String> = Vec::new();
    let mut start: usize = 0;
    let mut i: usize = 0;
    proof {
        assert(text@.take(0) =~= Seq::empty());
        assert(split(text@.take(0), separator) =~= fields.deep_view().push(text@.subrange(0, 0)));
    }
    while i < text.len()
        invariant
            start <= i <= text.len(),
            text@ == s@,
            split(text@.take(i as int), separator) == fields.deep_view().push(
                text@.subrange(start as int, i as int),
            ),
        decreases text.len() - i,
    {
        let ghost done = fields.deep_view();
        let ghost opened = start as int;
        proof {
            assert(text@.take(i + 1).drop_last() =~= text@.take(i as int));
        }
        if text[i] == separator {
            fields.push(String::from_str(s.substring_char(start, i)));
            start = i + 1;
            proof {
                assert(fields.deep_view() =~= done.push(text@.subrange(opened, i as int)));
                assert(text@.subrange(start as int, i + 1) =~= Seq::empty());
            }
        } else {
            proof {
                assert(text@.subrange(start as int, i + 1) =~= text@.subrange(
                    start as int,
                    i as int,
                ).push(text@[i as int]));
                assert(split(text@.take(i + 1), separator) =~= done.push(
                    text@.subrange(start as int, i + 1),
                ));
            }
        }
        i += 1;
    }
    let ghost done = fields.deep_view();
    fields.push(String::from_str(s.substring_char(start, text.len())));
    proof {
        assert(text@.take(text.len() as int) =~= text@);
        assert(fields.deep_view() =~= done.push(text@.subrange(start as int, text.len() as int)));
    }
    fields
}

} // verus!
