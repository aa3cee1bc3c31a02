//! Searching and rewriting text, stated over sequences of characters.
use vstd::prelude::*;

verus! {

/// `pattern` stands in `text` from position `at` on.
pub open spec fn occurs_at(text: Seq<char>, pattern: Seq<char>, at: int) -> bool {
    0 <= at && at + pattern.len() <= text.len() && text.subrange(at, at + pattern.len()) == pattern
}

/// `at` is the rightmost position at which `pattern` stands in `text`.
pub open spec fn is_last_occurrence(text: Seq<char>, pattern: Seq<char>, at: int) -> bool {
    occurs_at(text, pattern, at) && forall|j: int| at < j ==> !occurs_at(text, pattern, j)
}

/// What follows the rightmost occurrence of `pattern`, if there is one.
pub open spec fn after_last_spec(text: Seq<char>, pattern: Seq<char>) -> Option<Seq<char>> {
    if exists|at: int| is_last_occurrence(text, pattern, at) {
        let at = choose|at: int| is_last_occurrence(text, pattern, at);
        Some(text.subrange(at + pattern.len(), text.len() as int))
    } else {
        None
    }
}

/// `text` with every occurrence of `from` replaced by `to`, taken from left to
/// right and without overlap.
pub open spec fn replace_all_spec(text: Seq<char>, from: Seq<char>, to: Seq<char>) -> Seq<char>
    decreases text.len(),
{
    if from.len() == 0 || text.len() < from.len() {
        text
    } else if occurs_at(text, from, 0) {
        to + replace_all_spec(text.skip(from.len() as int), from, to)
    } else {
        seq![text[0]] + replace_all_spec(text.skip(1), from, to)
    }
}

/// `text` up to its first `?` or `#`.
pub open spec fn address_part_spec(text: Seq<char>) -> Seq<char>
    decreases text.len(),
{
    if text.len() == 0 || text[0] == '?' || text[0] == '#' {
        Seq::empty()
    } else {
        seq![text[0]] + address_part_spec(text.skip(1))
    }
}

/// What follows `prefix`, where `text` begins with it.
pub open spec fn strip_prefix_spec(text: Seq<char>, prefix: Seq<char>) -> Option<Seq<char>> {
    if occurs_at(text, prefix, 0) {
        Some(text.skip(prefix.len() as int))
    } else {
        None
    }
}

/// Whether a character is white space: what `char::is_whitespace` answers.
pub uninterp spec fn white_space(c: char) -> bool;

/// The lower-case form of a text: what `str::to_lowercase` returns.
pub uninterp spec fn lowercased(text: Seq<char>) -> Seq<char>;

/// `text` without the white space that it begins with.
pub open spec fn trim_start_spec(text: Seq<char>) -> Seq<char>
    decreases text.len(),
{
    if text.len() > 0 && white_space(text[0]) {
        trim_start_spec(text.skip(1))
    } else {
        text
    }
}

/// `text` without the white space that it ends with.
pub open spec fn trim_end_spec(text: Seq<char>) -> Seq<char>
    decreases text.len(),
{
    if text.len() > 0 && white_space(text.last()) {
        trim_end_spec(text.drop_last())
    } else {
        text
    }
}

/// `text` without white space around it.
pub open spec fn trim_spec(text: Seq<char>) -> Seq<char> {
    trim_end_spec(trim_start_spec(text))
}

/// Calls `char::is_whitespace` of std. Trusted: the answer is a function of the
/// character alone.
#[verifier::external_body]
fn is_white_space(c: char) -> (res: bool)
    ensures
        res == white_space(c),
{
    c.is_whitespace()
}

/// Calls `str::to_lowercase` of std. Trusted: the result is a function of the
/// characters of `text` alone.
#[verifier::external_body]
pub(crate) fn lowercase(text: &str) -> (res: String)
    ensures
        res@ == lowercased(text@),
{
    text.to_lowercase()
}

/// `text` without white space around it.
pub fn trim<'a>(text: &'a str) -> (res: &'a str)
    ensures
        res@ == trim_spec(text@),
{
    let chars = chars_of(text);
    let mut start: usize = 0;
    assert(text@.skip(0) =~= text@);
    while start < chars.len() && is_white_space(chars[start])
        invariant
            chars@ == text@,
            start <= chars@.len(),
            trim_start_spec(text@) == trim_start_spec(text@.skip(start as int)),
        decreases chars@.len() - start,
    {
        assert(text@.skip(start as int).skip(1) =~= text@.skip(start + 1));
        start += 1;
    }
    let ghost rest = text@.skip(start as int);
    assert(trim_start_spec(text@) == rest);
    let mut end: usize = chars.len();
    assert(text@.subrange(start as int, end as int) =~= rest);
    while start < end && is_white_space(chars[end - 1])
        invariant
            chars@ == text@,
            start <= end <= chars@.len(),
            trim_end_spec(rest) == trim_end_spec(text@.subrange(start as int, end as int)),
        decreases end,
    {
        assert(text@.subrange(start as int, end as int).drop_last() =~= text@.subrange(
            start as int,
            end - 1,
        ));
        end -= 1;
    }
    text.substring_char(start, end)
}

/// The characters of a string.
pub fn chars_of(text: &str) -> (chars: Vec<char>)
    ensures
        chars@ == text@,
{
    let mut chars: Vec<char> = Vec::new();
    for c in it: text.chars()
        invariant
            chars@ == it.seq().take(it.index()),
            it.seq() == text@,
    {
        chars.push(c);
    }
    chars
}

/// Whether `pattern` stands in `text` from `at` on.
fn stands_at(text: &Vec<char>, pattern: &Vec<char>, at: usize) -> (res: bool)
    requires
        at + pattern@.len() <= text@.len(),
    ensures
        res == occurs_at(text@, pattern@, at as int),
{
    let size: usize = text.len();
    let mut k: usize = 0;
    while k < pattern.len()
        invariant
            size == text@.len(),
            at + pattern@.len() <= text@.len(),
            k <= pattern@.len(),
            forall|j: int| 0 <= j < k ==> text@[at + j] == pattern@[j],
        decreases pattern@.len() - k,
    {
        if text[at + k] != pattern[k] {
            assert(text@.subrange(at as int, at + pattern@.len())[k as int] != pattern@[k as int]);
            return false;
        }
        k += 1;
    }
    assert(text@.subrange(at as int, at + pattern@.len()) =~= pattern@);
    true
}

/// The rightmost position at which `pattern` stands in `text`, in characters.
pub fn last_occurrence(text: &str, pattern: &str) -> (res: Option<usize>)
    ensures
        match res {
            Some(at) => is_last_occurrence(text@, pattern@, at as int),
            None => forall|at: int| !occurs_at(text@, pattern@, at),
        },
{
    let chars = chars_of(text);
    let wanted = chars_of(pattern);
    if chars.len() < wanted.len() {
        return None;
    }
    let mut end: usize = chars.len() - wanted.len();
    loop
        invariant
            chars@ == text@,
            wanted@ == pattern@,
            end + wanted@.len() <= chars@.len(),
            forall|j: int| end < j ==> !occurs_at(text@, pattern@, j),
        decreases end,
    {
        if stands_at(&chars, &wanted, end) {
            return Some(end);
        }
        if end == 0 {
            return None;
        }
        end -= 1;
    }
}

/// What follows the rightmost occurrence of `pattern` in `text`.
pub fn after_last<'a>(text: &'a str, pattern: &str) -> (res: Option<&'a str>)
    ensures
        match res {
            Some(rest) => after_last_spec(text@, pattern@) == Some(rest@),
            None => after_last_spec(text@, pattern@) is None,
        },
{
    match last_occurrence(text, pattern) {
        Some(at) => {
            proof {
                lemma_after_last(text@, pattern@, at as int);
            }
            let end: usize = text.unicode_len();
            Some(text.substring_char(at + pattern.unicode_len(), end))
        },
        None => None,
    }
}

/// Replaces every occurrence of `from`, left to right and without overlap.
pub fn replace_all(text: &str, from: &str, to: &str) -> (res: String)
    requires
        from@.len() > 0,
    ensures
        res@ == replace_all_spec(text@, from@, to@),
{
    let chars = chars_of(text);
    let wanted = chars_of(from);
    let mut res = String::new();
    let mut at: usize = 0;
    assert(text@.skip(0) =~= text@);
    while wanted.len() <= chars.len() - at
        invariant
            chars@ == text@,
            wanted@ == from@,
            from@.len() > 0,
            at <= chars@.len(),
            replace_all_spec(text@, from@, to@) == res@ + replace_all_spec(
                text@.skip(at as int),
                from@,
                to@,
            ),
        decreases chars@.len() - at,
    {
        let ghost rest = text@.skip(at as int);
        assert(rest.subrange(0, from@.len() as int) =~= text@.subrange(at as int, at + from@.len()));
        if stands_at(&chars, &wanted, at) {
            res.append(to);
            at += wanted.len();
            assert(rest.skip(from@.len() as int) =~= text@.skip(at as int));
        } else {
            res.append(text.substring_char(at, at + 1));
            assert(text@.subrange(at as int, at + 1) =~= seq![rest[0]]);
            at += 1;
            assert(rest.skip(1) =~= text@.skip(at as int));
        }
        assert(replace_all_spec(text@, from@, to@) =~= res@ + replace_all_spec(
            text@.skip(at as int),
            from@,
            to@,
        ));
    }
    res.append(text.substring_char(at, chars.len()));
    res
}

/// `text` up to its first `?` or `#`.
pub fn address_part<'a>(text: &'a str) -> (res: &'a str)
    ensures
        res@ == address_part_spec(text@),
{
    let chars = chars_of(text);
    let mut end: usize = 0;
    assert(text@.skip(0) =~= text@);
    assert(text@.take(0) + address_part_spec(text@) =~= address_part_spec(text@));
    while end < chars.len() && chars[end] != '?' && chars[end] != '#'
        invariant
            chars@ == text@,
            end <= chars@.len(),
            address_part_spec(text@) == text@.take(end as int) + address_part_spec(
                text@.skip(end as int),
            ),
        decreases chars@.len() - end,
    {
        let ghost rest = text@.skip(end as int);
        assert(rest.skip(1) =~= text@.skip(end + 1));
        assert(text@.take(end as int) + (seq![rest[0]] + address_part_spec(rest.skip(1)))
            =~= text@.take(end + 1) + address_part_spec(text@.skip(end + 1)));
        end += 1;
    }
    assert(text@.take(end as int) + Seq::<char>::empty() =~= text@.subrange(0, end as int));
    text.substring_char(0, end)
}

/// What follows `prefix`, where `text` begins with it.
pub fn strip_prefix<'a>(text: &'a str, prefix: &str) -> (res: Option<&'a str>)
    ensures
        match res {
            Some(rest) => strip_prefix_spec(text@, prefix@) == Some(rest@),
            None => strip_prefix_spec(text@, prefix@) is None,
        },
{
    let chars = chars_of(text);
    let wanted = chars_of(prefix);
    if chars.len() < wanted.len() {
        return None;
    }
    if stands_at(&chars, &wanted, 0) {
        Some(text.substring_char(wanted.len(), chars.len()))
    } else {
        None
    }
}

/// Where `from` stands first at `at`, replacing keeps what is before it.
pub proof fn lemma_replace_first(text: Seq<char>, from: Seq<char>, to: Seq<char>, at: int)
    requires
        from.len() > 0,
        occurs_at(text, from, at),
        forall|j: int| 0 <= j < at ==> !occurs_at(text, from, j),
    ensures
        replace_all_spec(text, from, to) == text.take(at) + to + replace_all_spec(
            text.skip(at + from.len()),
            from,
            to,
        ),
    decreases at,
{
    if at > 0 {
        let rest = text.skip(1);
        assert(!occurs_at(text, from, 0));
        assert(rest.subrange(at - 1, at - 1 + from.len()) =~= text.subrange(at, at + from.len()));
        assert forall|j: int| 0 <= j < at - 1 implies !occurs_at(rest, from, j) by {
            if occurs_at(rest, from, j) {
                assert(text.subrange(j + 1, j + 1 + from.len()) =~= rest.subrange(
                    j,
                    j + from.len(),
                ));
                assert(occurs_at(text, from, j + 1));
            }
        }
        lemma_replace_first(rest, from, to, at - 1);
        assert(rest.skip(at - 1 + from.len()) =~= text.skip(at + from.len()));
        assert(seq![text[0]] + rest.take(at - 1) =~= text.take(at));
        assert(seq![text[0]] + (rest.take(at - 1) + to + replace_all_spec(
            text.skip(at + from.len()),
            from,
            to,
        )) =~= text.take(at) + to + replace_all_spec(text.skip(at + from.len()), from, to));
    } else {
        assert(text.take(0) + to =~= to);
    }
}

/// The rightmost occurrence decides what comes after it.
pub(crate) proof fn lemma_after_last(text: Seq<char>, pattern: Seq<char>, at: int)
    requires
        is_last_occurrence(text, pattern, at),
    ensures
        after_last_spec(text, pattern) == Some(
            text.subrange(at + pattern.len(), text.len() as int),
        ),
{
    let chosen = choose|i: int| is_last_occurrence(text, pattern, i);
    assert(is_last_occurrence(text, pattern, chosen));
    assert(occurs_at(text, pattern, chosen) && occurs_at(text, pattern, at));
}

/// The part up to the query is a beginning of the text.
pub(crate) proof fn lemma_address_part(text: Seq<char>)
    ensures
        address_part_spec(text).len() <= text.len(),
        address_part_spec(text) == text.take(address_part_spec(text).len() as int),
    decreases text.len(),
{
    if text.len() > 0 && text[0] != '?' && text[0] != '#' {
        lemma_address_part(text.skip(1));
        let n = address_part_spec(text.skip(1)).len() as int;
        assert(seq![text[0]] + text.skip(1).take(n) =~= text.take(n + 1));
    } else {
        assert(text.take(0) =~= Seq::empty());
    }
}

/// What holds no `?` and no `#` lies before the query.
pub(crate) proof fn lemma_address_part_of(head: Seq<char>, tail: Seq<char>)
    requires
        !head.contains('?'),
        !head.contains('#'),
    ensures
        address_part_spec(head + tail) == head + address_part_spec(tail),
    decreases head.len(),
{
    if head.len() > 0 {
        assert(head[0] != '?' && head[0] != '#') by {
            assert(head.contains(head[0]));
        }
        let rest = head.skip(1);
        assert forall|c: char| rest.contains(c) implies head.contains(c) by {
            let i = choose|i: int| 0 <= i < rest.len() && rest[i] == c;
            assert(head[i + 1] == c);
        }
        lemma_address_part_of(rest, tail);
        assert((head + tail).skip(1) =~= rest + tail);
        assert(seq![head[0]] + (rest + address_part_spec(tail)) =~= head + address_part_spec(tail));
    } else {
        assert(head + tail =~= tail);
        assert(head + address_part_spec(tail) =~= address_part_spec(tail));
    }
}

/// Where something is replaced, the replacement stands in the result.
pub(crate) proof fn lemma_replacement_stands(
    text: Seq<char>,
    from: Seq<char>,
    to: Seq<char>,
    at: int,
)
    requires
        from.len() > 0,
        occurs_at(text, from, at),
    ensures
        exists|i: int| occurs_at(replace_all_spec(text, from, to), to, i),
    decreases text.len(),
{
    let replaced = replace_all_spec(text, from, to);
    if occurs_at(text, from, 0) {
        assert(replaced.subrange(0, to.len() as int) =~= to);
        assert(occurs_at(replaced, to, 0));
    } else {
        let rest = text.skip(1);
        assert(rest.subrange(at - 1, at - 1 + from.len()) =~= text.subrange(at, at + from.len()));
        lemma_replacement_stands(rest, from, to, at - 1);
        let i = choose|i: int| occurs_at(replace_all_spec(rest, from, to), to, i);
        assert(replaced.subrange(i + 1, i + 1 + to.len()) =~= replace_all_spec(
            rest,
            from,
            to,
        ).subrange(i, i + to.len()));
        assert(occurs_at(replaced, to, i + 1));
    }
}

/// Where there is nothing to replace, the text stays.
pub proof fn lemma_replace_nothing(text: Seq<char>, from: Seq<char>, to: Seq<char>)
    requires
        forall|j: int| !occurs_at(text, from, j),
    ensures
        replace_all_spec(text, from, to) == text,
    decreases text.len(),
{
    if from.len() > 0 && text.len() >= from.len() {
        let rest = text.skip(1);
        assert forall|j: int| !occurs_at(rest, from, j) by {
            if occurs_at(rest, from, j) {
                assert(text.subrange(j + 1, j + 1 + from.len()) =~= rest.subrange(
                    j,
                    j + from.len(),
                ));
                assert(occurs_at(text, from, j + 1));
            }
        }
        lemma_replace_nothing(rest, from, to);
        assert(seq![text[0]] + rest =~= text);
    }
}

/// What follows the last occurrence of a pattern ends the text.
pub(crate) proof fn lemma_after_last_is_suffix(text: Seq<char>, pattern: Seq<char>, rest: Seq<char>)
    requires
        after_last_spec(text, pattern) == Some(rest),
    ensures
        rest.len() <= text.len(),
{
}

/// A pattern occurs just where it stands between what is before and behind it.
pub proof fn occurrences_stand_in_the_text(
    before: Seq<char>,
    pattern: Seq<char>,
    behind: Seq<char>,
    text: Seq<char>,
    at: int,
)
    ensures
        occurs_at(before + pattern + behind, pattern, before.len() as int),
        occurs_at(text, pattern, at) ==> 0 <= at <= text.len() - pattern.len() && text == text.take(
            at,
        ) + pattern + text.skip(at + pattern.len()),
{
    let whole = before + pattern + behind;
    let n = before.len() as int;
    assert(whole.subrange(n, n + pattern.len()) =~= pattern);
    if occurs_at(text, pattern, at) {
        assert(text =~= text.take(at) + text.subrange(at, at + pattern.len()) + text.skip(
            at + pattern.len(),
        ));
    }
}

/// What stands behind a pattern that does not occur again is what follows its last
/// occurrence, and nothing follows a pattern that does not occur.
pub proof fn the_last_occurrence_decides(
    before: Seq<char>,
    pattern: Seq<char>,
    behind: Seq<char>,
    text: Seq<char>,
)
    ensures
        (forall|j: int|
            before.len() < j <= before.len() + behind.len() ==> #[trigger] (before + pattern
                + behind).subrange(j, j + pattern.len()) != pattern) ==> after_last_spec(
            before + pattern + behind,
            pattern,
        ) == Some(behind),
        (forall|j: int|
            0 <= j <= text.len() - pattern.len() ==> #[trigger] text.subrange(
                j,
                j + pattern.len(),
            ) != pattern) ==> after_last_spec(text, pattern) is None,
{
    let whole = before + pattern + behind;
    let n = before.len() as int;
    assert(whole.subrange(n, n + pattern.len()) =~= pattern);
    if forall|j: int|
        n < j <= n + behind.len() ==> #[trigger] whole.subrange(j, j + pattern.len()) != pattern {
        assert(is_last_occurrence(whole, pattern, n));
        lemma_after_last(whole, pattern, n);
        assert(whole.subrange(n + pattern.len(), whole.len() as int) =~= behind);
    }
}

/// A text has a prefix if and only if it is that prefix and what is left.
pub proof fn prefixes_and_rests_make_the_text(prefix: Seq<char>, rest: Seq<char>, text: Seq<char>)
    ensures
        strip_prefix_spec(prefix + rest, prefix) == Some(rest),
        strip_prefix_spec(text, prefix) matches Some(left) ==> text == prefix + left,
        strip_prefix_spec(text, prefix) is None ==> forall|left: Seq<char>|
            text != #[trigger] (prefix + left),
{
    assert((prefix + rest).subrange(0, prefix.len() as int) =~= prefix);
    assert((prefix + rest).skip(prefix.len() as int) =~= rest);
    if occurs_at(text, prefix, 0) {
        assert(text =~= text.subrange(0, prefix.len() as int) + text.skip(prefix.len() as int));
    }
    assert forall|left: Seq<char>| text == #[trigger] (prefix + left) implies occurs_at(
        text,
        prefix,
        0,
    ) by {
        assert(text.subrange(0, prefix.len() as int) =~= prefix);
    }
}

proof fn lemma_trim_start(text: Seq<char>) -> (from: int)
    ensures
        0 <= from <= text.len(),
        trim_start_spec(text) == text.skip(from),
        forall|k: int| 0 <= k < from ==> white_space(#[trigger] text[k]),
        from < text.len() ==> !white_space(text[from]),
    decreases text.len(),
{
    if text.len() > 0 && white_space(text[0]) {
        let rest = text.skip(1);
        let from = lemma_trim_start(rest);
        assert(rest.skip(from) =~= text.skip(from + 1));
        assert forall|k: int| 0 <= k < from + 1 implies white_space(#[trigger] text[k]) by {
            if k > 0 {
                assert(rest[k - 1] == text[k]);
            }
        }
        from + 1
    } else {
        assert(text.skip(0) =~= text);
        0
    }
}

proof fn lemma_trim_end(text: Seq<char>) -> (to: int)
    ensures
        0 <= to <= text.len(),
        trim_end_spec(text) == text.take(to),
        forall|k: int| to <= k < text.len() ==> white_space(#[trigger] text[k]),
        0 < to ==> !white_space(text[to - 1]),
    decreases text.len(),
{
    if text.len() > 0 && white_space(text.last()) {
        let rest = text.drop_last();
        let to = lemma_trim_end(rest);
        assert(rest.take(to) =~= text.take(to));
        assert forall|k: int| to <= k < text.len() implies white_space(#[trigger] text[k]) by {
            if k < rest.len() {
                assert(rest[k] == text[k]);
            }
        }
        to
    } else {
        assert(text.take(text.len() as int) =~= text);
        text.len() as int
    }
}

/// Trimming takes white space away at both ends, all of it and nothing else.
pub proof fn trimming_takes_the_white_space_around(text: Seq<char>)
    ensures
        exists|before: Seq<char>, behind: Seq<char>|
            {
                &&& text == #[trigger] (before + trim_spec(text) + behind)
                &&& forall|k: int| 0 <= k < before.len() ==> white_space(#[trigger] before[k])
                &&& forall|k: int| 0 <= k < behind.len() ==> white_space(#[trigger] behind[k])
            },
        trim_spec(text).len() > 0 ==> !white_space(trim_spec(text)[0]) && !white_space(
            trim_spec(text).last(),
        ),
{
    let from = lemma_trim_start(text);
    let rest = text.skip(from);
    let to = lemma_trim_end(rest);
    let before = text.take(from);
    let behind = rest.skip(to);
    assert(trim_spec(text) == rest.take(to));
    assert(text =~= before + trim_spec(text) + behind);
    assert forall|k: int| 0 <= k < before.len() implies white_space(#[trigger] before[k]) by {
        assert(before[k] == text[k]);
    }
    assert forall|k: int| 0 <= k < behind.len() implies white_space(#[trigger] behind[k]) by {
        assert(behind[k] == rest[to + k]);
    }
}

/// The part of an address before its query is all of it up to the first `?` or
/// `#`.
pub proof fn addresses_end_at_the_query(text: Seq<char>)
    ensures
        ({
            let part = address_part_spec(text);
            &&& part.len() <= text.len()
            &&& part == text.take(part.len() as int)
            &&& !part.contains('?') && !part.contains('#')
            &&& part.len() < text.len() ==> text[part.len() as int] == '?' || text[part.len() as int]
                == '#'
        }),
    decreases text.len(),
{
    lemma_address_part(text);
    if text.len() > 0 && text[0] != '?' && text[0] != '#' {
        let rest = text.skip(1);
        let part = address_part_spec(text);
        let short = address_part_spec(rest);
        addresses_end_at_the_query(rest);
        assert(part =~= seq![text[0]] + short);
        assert forall|c: char| c == '?' || c == '#' implies !part.contains(c) by {
            if part.contains(c) {
                let i = choose|i: int| 0 <= i < part.len() && part[i] == c;
                assert(short[i - 1] == c);
                assert(short.contains(c));
            }
        }
    }
}

} // verus!
