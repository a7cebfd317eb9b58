//! Text: comparing, splitting and lowercasing strings.

use vstd::prelude::*;
use vstd::string::*;

verus! {

/// The lowercase equivalent of a string that holds a character beyond ASCII, as
/// Unicode defines it.
pub uninterp spec fn unicode_lowercase(s: Seq<char>) -> Seq<char>;

/// Whether every character of `s` is an ASCII character.
pub open spec fn all_ascii(s: Seq<char>) -> bool {
    forall|i: int| 0 <= i < s.len() ==> (#[trigger] s[i] as u32) < 128
}

/// The lowercase form of an ASCII character; other characters are unchanged.
pub open spec fn ascii_lower(c: char) -> char {
    if 'A' <= c && c <= 'Z' {
        (c as u32 + 32) as char
    } else {
        c
    }
}

/// The lowercase equivalent of a string.
pub open spec fn lowercase(s: Seq<char>) -> Seq<char> {
    if all_ascii(s) {
        s.map_values(|c: char| ascii_lower(c))
    } else {
        unicode_lowercase(s)
    }
}

/// `str::to_lowercase` of std. On a string of ASCII characters it maps each of
/// the letters `A` to `Z` to its lowercase letter and keeps every other
/// character. On other strings its result depends on the string alone.
pub assume_specification[ str::to_lowercase ](s: &str) -> (lower: String)
    ensures
        all_ascii(s@) ==> lower@ == s@.map_values(|c: char| ascii_lower(c)),
        !all_ascii(s@) ==> lower@ == unicode_lowercase(s@),
;

/// Whether two strings hold the same characters.
pub fn same_text(a: &str, b: &str) -> (same: bool)
    ensures
        same == (a@ == b@),
{
    a.to_owned() == b.to_owned()
}

/// The fields of `s` between occurrences of `separator`. There is always at
/// least one field; adjacent separators enclose an empty one.
pub open spec fn fields(s: Seq<char>, separator: char) -> Seq<Seq<char>>
    decreases s.len(),
{
    if s.len() == 0 {
        seq![Seq::<char>::empty()]
    } else {
        let before = fields(s.drop_last(), separator);
        if s.last() == separator {
            before.push(Seq::<char>::empty())
        } else {
            before.drop_last().push(before.last().push(s.last()))
        }
    }
}

/// The fields written out again, with the separator between them.
pub open spec fn joined(parts: Seq<Seq<char>>, separator: char) -> Seq<char>
    decreases parts.len(),
{
    if parts.len() == 0 {
        Seq::<char>::empty()
    } else if parts.len() == 1 {
        parts[0]
    } else {
        joined(parts.drop_last(), separator).push(separator) + parts.last()
    }
}

/// The fields of `s` between colons, in order.
pub fn split_at_colons(s: &str) -> (parts: Vec<String>)
    ensures
        parts@.map_values(|part: String| part@) == fields(s@, ':'),
{
    let total: usize = s.unicode_len();
    let mut parts: Vec<String> = Vec::new();
    let mut start: usize = 0;
    let mut end: usize = 0;
    proof {
        assert(s@.take(0) =~= Seq::<char>::empty());
        assert(parts@.map_values(|part: String| part@).push(s@.subrange(0, 0)) =~= fields(
            s@.take(0),
            ':',
        ));
    }
    for c in it: s.chars()
        invariant
            total == s@.len(),
            it.seq() == s@,
            end == it.index(),
            start <= end <= s@.len(),
            parts@.map_values(|part: String| part@).push(
                s@.subrange(start as int, end as int),
            ) == fields(s@.take(end as int), ':'),
    {
        assert(s@.take(end + 1).drop_last() =~= s@.take(end as int));
        let ghost done = parts@.map_values(|part: String| part@);
        if c == ':' {
            parts.push(s.substring_char(start, end).to_owned());
            proof {
                assert(parts@.map_values(|part: String| part@) =~= done.push(
                    s@.subrange(start as int, end as int),
                ));
                assert(s@.subrange(end + 1, end + 1) =~= Seq::<char>::empty());
            }
            start = end + 1;
        } else {
            proof {
                assert(s@.subrange(start as int, end + 1) =~= s@.subrange(
                    start as int,
                    end as int,
                ).push(c));
                assert(done.push(s@.subrange(start as int, end as int)).drop_last() =~= done);
            }
        }
        end = end + 1;
    }
    let ghost done = parts@.map_values(|part: String| part@);
    parts.push(s.substring_char(start, end).to_owned());
    proof {
        assert(s@.take(end as int) =~= s@);
        assert(parts@.map_values(|part: String| part@) =~= done.push(
            s@.subrange(start as int, end as int),
        ));
    }
    parts
}

/// Splitting loses nothing: writing the fields of `s` out again gives `s`, and
/// no field holds a separator.
pub proof fn law_fields_rejoin(s: Seq<char>, separator: char)
    ensures
        fields(s, separator).len() >= 1,
        joined(fields(s, separator), separator) == s,
        forall|k: int|
            0 <= k < fields(s, separator).len() ==> !(#[trigger] fields(
                s,
                separator,
            )[k]).contains(separator),
    decreases s.len(),
{
    if s.len() > 0 {
        law_fields_rejoin(s.drop_last(), separator);
        let before = fields(s.drop_last(), separator);
        let now = fields(s, separator);
        if s.last() == separator {
            assert(now.drop_last() =~= before);
            assert(joined(now, separator) =~= s);
        } else {
            assert(now.drop_last() =~= before.drop_last());
            assert(joined(now, separator) =~= joined(before, separator).push(s.last()));
            assert(s.drop_last().push(s.last()) =~= s);
            assert forall|k: int| 0 <= k < now.len() implies !(#[trigger] now[k]).contains(
                separator,
            ) by {
                if k < before.len() - 1 {
                    assert(now[k] == before[k]);
                } else {
                    let grown = before.last().push(s.last());
                    assert(now[k] == grown);
                    if grown.contains(separator) {
                        let at = choose|j: int| 0 <= j < grown.len() && grown[j] == separator;
                        assert(before.last()[at] == separator);
                        assert(before[before.len() - 1].contains(separator));
                    }
                }
            }
        }
    }
}

/// A text without separators is one field, and a separator followed by such a text
/// adds that text as one more field.
pub proof fn law_separators_part_fields(a: Seq<char>, b: Seq<char>, separator: char)
    requires
        !b.contains(separator),
    ensures
        fields(b, separator) == seq![b],
        fields(a.push(separator) + b, separator) == fields(a, separator).push(b),
    decreases b.len(),
{
    let s = a.push(separator) + b;
    if b.len() == 0 {
        assert(b =~= Seq::<char>::empty());
        assert(s =~= a.push(separator));
        assert(s.drop_last() =~= a);
    } else {
        let shorter = b.drop_last();
        let before = fields(a, separator).push(shorter);
        assert(b[b.len() - 1] == b.last());
        assert forall|i: int| 0 <= i < shorter.len() implies shorter[i] != separator by {
            assert(b[i] != separator);
        }
        law_separators_part_fields(a, shorter, separator);
        assert(s.drop_last() =~= a.push(separator) + shorter);
        assert(shorter.push(b.last()) =~= b);
        assert(before.drop_last() =~= fields(a, separator));
        assert(seq![shorter].drop_last().push(b) =~= seq![b]);
    }
}

/// Texts that hold no colon, written with colons between them, are what the
/// written text is split into, unchanged and in their order.
pub proof fn law_written_fields_are_split(
    first: Seq<char>,
    second: Seq<char>,
    third: Seq<char>,
    s: &str,
    parts: Vec<String>,
)
    requires
        call_ensures(split_at_colons, (s,), parts),
        !first.contains(':'),
        !second.contains(':'),
        !third.contains(':'),
        s@ == first.push(':') + second.push(':') + third,
    ensures
        parts@.len() == 3,
        parts@[0]@ == first,
        parts@[1]@ == second,
        parts@[2]@ == third,
{
    lemma_three_fields(first, second, third);
    let views = parts@.map_values(|part: String| part@);
    assert(views =~= fields(s@, ':'));
    assert(views.len() == 3);
    assert(views[0] == parts@[0]@);
    assert(views[1] == parts@[1]@);
    assert(views[2] == parts@[2]@);
}

/// The fields of three texts with colons between them.
pub proof fn lemma_three_fields(first: Seq<char>, second: Seq<char>, third: Seq<char>)
    requires
        !first.contains(':'),
        !second.contains(':'),
        !third.contains(':'),
    ensures
        fields(first.push(':') + second.push(':') + third, ':') == seq![first, second, third],
{
    let two = first.push(':') + second;
    law_separators_part_fields(first, first, ':');
    law_separators_part_fields(first, second, ':');
    law_separators_part_fields(two, third, ':');
    assert(first.push(':') + second.push(':') + third =~= two.push(':') + third);
    assert(seq![first].push(second).push(third) =~= seq![first, second, third]);
}

/// A text that is split gives its parts: they hold no colon, and written with
/// colons between them they are the text again.
pub proof fn law_split_keeps_the_text(s: &str, parts: Vec<String>)
    requires
        call_ensures(split_at_colons, (s,), parts),
    ensures
        parts@.len() >= 1,
        forall|k: int| 0 <= k < parts@.len() ==> !(#[trigger] parts@[k])@.contains(':'),
        parts@.len() == 1 ==> s@ == parts@[0]@,
        parts@.len() == 2 ==> s@ == parts@[0]@.push(':') + parts@[1]@,
        parts@.len() == 3 ==> s@ == parts@[0]@.push(':') + parts@[1]@.push(':') + parts@[2]@,
        s@ == joined(parts@.map_values(|part: String| part@), ':'),
{
    let views = parts@.map_values(|part: String| part@);
    law_fields_rejoin(s@, ':');
    assert forall|k: int| 0 <= k < parts@.len() implies !(#[trigger] parts@[k])@.contains(':') by {
        assert(views[k] == parts@[k]@);
    }
    lemma_joined_few(views);
}

/// How one, two and three fields are written out.
pub proof fn lemma_joined_few(parts: Seq<Seq<char>>)
    ensures
        parts.len() == 1 ==> joined(parts, ':') == parts[0],
        parts.len() == 2 ==> joined(parts, ':') == parts[0].push(':') + parts[1],
        parts.len() == 3 ==> joined(parts, ':') == parts[0].push(':') + parts[1].push(':')
            + parts[2],
{
    if parts.len() == 2 {
        assert(joined(parts.drop_last(), ':') == parts[0]);
    }
    if parts.len() == 3 {
        let two = parts.drop_last();
        assert(joined(two.drop_last(), ':') == parts[0]);
        assert(joined(two, ':') == parts[0].push(':') + parts[1]);
        assert((parts[0].push(':') + parts[1]).push(':') + parts[2] =~= parts[0].push(':')
            + parts[1].push(':') + parts[2]);
    }
}

/// Lowercasing a text of ASCII characters moves each of the letters from `A` to
/// `Z` by 32 and keeps every other character.
pub proof fn law_ascii_is_lowercased(s: Seq<char>, i: int)
    requires
        forall|k: int| 0 <= k < s.len() ==> (#[trigger] s[k] as u32) < 128,
        0 <= i < s.len(),
    ensures
        lowercase(s).len() == s.len(),
        65 <= s[i] as u32 <= 90 ==> lowercase(s)[i] as u32 == s[i] as u32 + 32,
        !(65 <= s[i] as u32 <= 90) ==> lowercase(s)[i] == s[i],
{
}

/// Texts are the same exactly when they are as long and hold the same characters,
/// place by place: case and blanks matter.
pub proof fn law_same_texts_agree_everywhere(a: &str, b: &str, same: bool)
    requires
        call_ensures(same_text, (a, b), same),
    ensures
        same <==> {
            &&& a@.len() == b@.len()
            &&& forall|i: int| 0 <= i < a@.len() ==> #[trigger] a@[i] == b@[i]
        },
{
    if a@.len() == b@.len() && forall|i: int| 0 <= i < a@.len() ==> #[trigger] a@[i] == b@[i] {
        assert(a@ =~= b@);
    }
}

} // verus!
