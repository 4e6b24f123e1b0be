//! Character level helpers on the text of properties, locations and names.
//!
//! Text is handled as a sequence of characters: the spec functions describe
//! what the executable functions compute on a `Vec<char>`.

use vstd::prelude::*;

verus! {

broadcast use vstd::string::group_string_axioms;

/// The characters of the Unicode `White_Space` property, which are the
/// characters that trimming removes.
pub open spec fn is_whitespace_spec(c: char) -> bool {
    ||| c == '\t' ||| c == '\n' ||| c == '\u{0B}' ||| c == '\u{0C}' ||| c == '\r'
    ||| c == ' ' ||| c == '\u{85}' ||| c == '\u{A0}' ||| c == '\u{1680}'
    ||| ('\u{2000}' <= c && c <= '\u{200A}')
    ||| c == '\u{2028}' ||| c == '\u{2029}' ||| c == '\u{202F}' ||| c == '\u{205F}'
    ||| c == '\u{3000}'
}

/// The number of whitespace characters a text starts with.
pub open spec fn leading_whitespace(s: Seq<char>) -> nat
    decreases s.len(),
{
    if s.len() > 0 && is_whitespace_spec(s[0]) {
        1 + leading_whitespace(s.drop_first())
    } else {
        0
    }
}

/// The number of whitespace characters a text ends with.
pub open spec fn trailing_whitespace(s: Seq<char>) -> nat
    decreases s.len(),
{
    if s.len() > 0 && is_whitespace_spec(s.last()) {
        1 + trailing_whitespace(s.drop_last())
    } else {
        0
    }
}

/// The text without its leading and trailing whitespace.
pub open spec fn trim_spec(s: Seq<char>) -> Seq<char> {
    let t = s.skip(leading_whitespace(s) as int);
    t.take(t.len() - trailing_whitespace(t))
}

/// The text of an optional string.
pub open spec fn opt_view(o: Option<String>) -> Option<Seq<char>> {
    match o {
        Some(s) => Some(s@),
        None => None,
    }
}

/// The text of optional characters.
pub open spec fn opt_chars(o: Option<Vec<char>>) -> Option<Seq<char>> {
    match o {
        Some(s) => Some(s@),
        None => None,
    }
}

/// The ASCII lower case of a character.
pub open spec fn lower_char(c: char) -> char {
    if 'A' <= c && c <= 'Z' {
        ((c as u32) + 32) as char
    } else {
        c
    }
}

/// The text with its ASCII upper case letters lowered.
pub open spec fn lower_spec(s: Seq<char>) -> Seq<char> {
    s.map_values(|c: char| lower_char(c))
}

/// Whether the text starts with the given prefix.
pub open spec fn starts_with_spec(s: Seq<char>, prefix: Seq<char>) -> bool {
    prefix.len() <= s.len() && s.take(prefix.len() as int) == prefix
}

/// Whether the text ends with the given suffix.
pub open spec fn ends_with_spec(s: Seq<char>, suffix: Seq<char>) -> bool {
    suffix.len() <= s.len() && s.skip(s.len() - suffix.len()) == suffix
}

/// The index of the first occurrence of a character, or -1.
pub open spec fn find_spec(s: Seq<char>, c: char) -> int
    decreases s.len(),
{
    if s.len() == 0 {
        -1
    } else if s[0] == c {
        0
    } else {
        let r = find_spec(s.drop_first(), c);
        if r < 0 {
            -1
        } else {
            r + 1
        }
    }
}

/// The index of the last occurrence of a character, or -1.
pub open spec fn rfind_spec(s: Seq<char>, c: char) -> int
    decreases s.len(),
{
    if s.len() == 0 {
        -1
    } else if s.last() == c {
        s.len() - 1
    } else {
        rfind_spec(s.drop_last(), c)
    }
}

/// The parts of a text between the occurrences of a separator, as `split`
/// yields them: a text without the separator is a single part.
pub open spec fn split_spec(s: Seq<char>, sep: char) -> Seq<Seq<char>>
    decreases s.len(),
{
    let i = find_spec(s, sep);
    proof {
        lemma_find(s, sep);
    }
    if i < 0 {
        seq![s]
    } else {
        seq![s.take(i)] + split_spec(s.skip(i + 1), sep)
    }
}

/// The parts joined with the separator between them.
pub open spec fn joined(parts: Seq<Seq<char>>, sep: char) -> Seq<char>
    decreases parts.len(),
{
    if parts.len() == 0 {
        Seq::empty()
    } else if parts.len() == 1 {
        parts[0]
    } else {
        parts[0] + seq![sep] + joined(parts.drop_first(), sep)
    }
}

/// The parts of a text split at a separator, joined with it again, give the
/// text back, and there is at least one part.
pub proof fn lemma_split_joined(s: Seq<char>, sep: char)
    ensures
        split_spec(s, sep).len() >= 1,
        joined(split_spec(s, sep), sep) == s,
    decreases s.len(),
{
    lemma_find(s, sep);
    let i = find_spec(s, sep);
    if i >= 0 {
        let rest = s.skip(i + 1);
        lemma_split_joined(rest, sep);
        let parts = split_spec(s, sep);
        assert(parts == seq![s.take(i)] + split_spec(rest, sep));
        assert(parts.drop_first() =~= split_spec(rest, sep));
        assert(parts[0] == s.take(i));
        assert(s =~= s.take(i) + seq![sep] + rest);
    }
}

/// Joining one more part adds the separator and the part at the end.
pub proof fn lemma_joined_push(parts: Seq<Seq<char>>, part: Seq<char>, sep: char)
    requires
        parts.len() >= 1,
    ensures
        joined(parts.push(part), sep) == joined(parts, sep) + seq![sep] + part,
    decreases parts.len(),
{
    let all = parts.push(part);
    if parts.len() == 1 {
        assert(all.drop_first() =~= seq![part]);
        assert(joined(all.drop_first(), sep) == part);
        assert(all[0] == parts[0]);
    } else {
        assert(all.drop_first() =~= parts.drop_first().push(part));
        lemma_joined_push(parts.drop_first(), part, sep);
        assert(all[0] == parts[0]);
        assert(joined(all, sep) =~= joined(parts, sep) + seq![sep] + part);
    }
}

/// Parts without the separator, joined with it, split back into the same
/// parts.
pub proof fn lemma_split_of_joined(parts: Seq<Seq<char>>, sep: char)
    requires
        parts.len() >= 1,
        forall|i: int| 0 <= i < parts.len() ==> !(#[trigger] parts[i]).contains(sep),
    ensures
        split_spec(joined(parts, sep), sep) == parts,
    decreases parts.len(),
{
    let s = joined(parts, sep);
    if parts.len() == 1 {
        lemma_find_is(s, sep, -1);
        assert(split_spec(s, sep) =~= parts);
    } else {
        let rest = parts.drop_first();
        assert forall|i: int| 0 <= i < rest.len() implies !(#[trigger] rest[i]).contains(sep) by {
            assert(rest[i] == parts[i + 1]);
        }
        lemma_split_of_joined(rest, sep);
        let p0 = parts[0];
        assert(s == p0 + seq![sep] + joined(rest, sep));
        assert forall|j: int| 0 <= j < s.len() && j < p0.len() implies s[j] != sep by {
            assert(s[j] == p0[j]);
            if s[j] == sep {
                assert(p0.contains(sep));
            }
        }
        assert(s[p0.len() as int] == sep);
        lemma_find_is(s, sep, p0.len() as int);
        assert(s.take(p0.len() as int) =~= p0);
        assert(s.skip(p0.len() as int + 1) =~= joined(rest, sep));
        assert(split_spec(s, sep) =~= parts);
    }
}

/// What `find_spec` returns.
pub proof fn lemma_find(s: Seq<char>, c: char)
    ensures
        -1 <= find_spec(s, c) < s.len(),
        find_spec(s, c) >= 0 ==> s[find_spec(s, c)] == c,
        forall|j: int| 0 <= j < s.len() && (find_spec(s, c) < 0 || j < find_spec(s, c)) ==> s[j] != c,
    decreases s.len(),
{
    if s.len() > 0 && s[0] != c {
        lemma_find(s.drop_first(), c);
        assert forall|j: int| 0 <= j < s.len() && (find_spec(s, c) < 0 || j < find_spec(s, c)) implies s[j] != c by {
            if j > 0 {
                assert(s[j] == s.drop_first()[j - 1]);
            }
        }
    }
}

/// `find_spec` is the first index of the character.
pub proof fn lemma_find_is(s: Seq<char>, c: char, i: int)
    requires
        -1 <= i < s.len(),
        i >= 0 ==> s[i] == c,
        forall|j: int| 0 <= j < s.len() && (i < 0 || j < i) ==> s[j] != c,
    ensures
        find_spec(s, c) == i,
{
    lemma_find(s, c);
}

/// What `rfind_spec` returns.
pub proof fn lemma_rfind(s: Seq<char>, c: char)
    ensures
        -1 <= rfind_spec(s, c) < s.len(),
        rfind_spec(s, c) >= 0 ==> s[rfind_spec(s, c)] == c,
        forall|j: int| 0 <= j < s.len() && j > rfind_spec(s, c) ==> s[j] != c,
    decreases s.len(),
{
    if s.len() > 0 && s.last() != c {
        lemma_rfind(s.drop_last(), c);
        assert forall|j: int| 0 <= j < s.len() && j > rfind_spec(s, c) implies s[j] != c by {
            if j < s.len() - 1 {
                assert(s[j] == s.drop_last()[j]);
            }
        }
    }
}

/// `rfind_spec` is the last index of the character.
pub proof fn lemma_rfind_is(s: Seq<char>, c: char, i: int)
    requires
        -1 <= i < s.len(),
        i >= 0 ==> s[i] == c,
        forall|j: int| 0 <= j < s.len() && j > i ==> s[j] != c,
    ensures
        rfind_spec(s, c) == i,
{
    lemma_rfind(s, c);
}

/// Returns a copy of the given strings.
pub fn copy_strings(v: &Vec<String>) -> (r: Vec<String>)
    ensures
        r@ == v@,
{
    let mut r: Vec<String> = Vec::new();
    let mut i: usize = 0;
    while i < v.len()
        invariant
            i <= v.len(),
            r@ == v@.take(i as int),
        decreases v.len() - i,
    {
        r.push(v[i].clone());
        i = i + 1;
        assert(r@ =~= v@.take(i as int));
    }
    assert(v@.take(i as int) =~= v@);
    r
}

/// Returns a copy of the given pairs of strings.
pub fn copy_pairs(v: &Vec<(String, String)>) -> (r: Vec<(String, String)>)
    ensures
        r@ == v@,
{
    let mut r: Vec<(String, String)> = Vec::new();
    let mut i: usize = 0;
    while i < v.len()
        invariant
            i <= v.len(),
            r@ == v@.take(i as int),
        decreases v.len() - i,
    {
        r.push((v[i].0.clone(), v[i].1.clone()));
        i = i + 1;
        assert(r@ =~= v@.take(i as int));
    }
    assert(v@.take(i as int) =~= v@);
    r
}

/// Returns a copy of an optional string.
pub fn copy_opt(o: &Option<String>) -> (r: Option<String>)
    ensures
        r == *o,
{
    match o {
        Some(s) => Some(s.clone()),
        None => None,
    }
}

/// Returns the characters of the given text.
pub fn chars_of(text: &str) -> (chars: Vec<char>)
    ensures
        chars@ == text@,
{
    let mut chars: Vec<char> = Vec::new();
    for c in it: text.chars()
        invariant
            it.seq() == text@,
            chars@ == it.seq().take(it.index() as int),
    {
        chars.push(c);
    }
    chars
}

/// Appends a character to a string.
///
/// Calls `String::push`, which appends the character to the end of the string.
#[verifier::external_body]
fn push_char(text: &mut String, c: char)
    ensures
        final(text)@ == old(text)@.push(c),
{
    text.push(c);
}

/// Returns the text made of the given characters.
pub fn string_of(chars: &Vec<char>) -> (text: String)
    ensures
        text@ == chars@,
{
    let mut text = String::new();
    let mut i: usize = 0;
    while i < chars.len()
        invariant
            i <= chars.len(),
            text@ == chars@.take(i as int),
        decreases chars.len() - i,
    {
        push_char(&mut text, chars[i]);
        i = i + 1;
        assert(chars@.take(i as int) =~= chars@.take((i - 1) as int).push(chars@[i - 1]));
    }
    assert(chars@.take(i as int) =~= chars@);
    text
}

/// Returns the characters of the given text from `start` to `end`.
pub fn slice(s: &Vec<char>, start: usize, end: usize) -> (r: Vec<char>)
    requires
        start <= end <= s.len(),
    ensures
        r@ == s@.subrange(start as int, end as int),
{
    let mut r: Vec<char> = Vec::new();
    let mut i = start;
    while i < end
        invariant
            start <= i <= end <= s.len(),
            r@ == s@.subrange(start as int, i as int),
        decreases end - i,
    {
        r.push(s[i]);
        i = i + 1;
        assert(r@ =~= s@.subrange(start as int, i as int));
    }
    r
}

/// Returns the concatenation of two texts.
pub fn concat(a: &Vec<char>, b: &Vec<char>) -> (r: Vec<char>)
    ensures
        r@ == a@ + b@,
{
    let mut r = a.clone();
    let mut i: usize = 0;
    while i < b.len()
        invariant
            i <= b.len(),
            r@ == a@ + b@.take(i as int),
        decreases b.len() - i,
    {
        r.push(b[i]);
        i = i + 1;
        assert(r@ =~= a@ + b@.take(i as int));
    }
    assert(b@.take(i as int) =~= b@);
    r
}

/// Returns the concatenation of three texts.
pub fn join3(a: &str, b: &str, c: &str) -> (r: String)
    ensures
        r@ == a@ + b@ + c@,
{
    let ab = concat(&chars_of(a), &chars_of(b));
    let abc = concat(&ab, &chars_of(c));
    string_of(&abc)
}

/// Returns whether two texts are equal.
pub fn equals(a: &Vec<char>, b: &Vec<char>) -> (r: bool)
    ensures
        r == (a@ == b@),
{
    if a.len() != b.len() {
        return false;
    }
    let mut i: usize = 0;
    while i < a.len()
        invariant
            a.len() == b.len(),
            i <= a.len(),
            forall|j: int| 0 <= j < i ==> a@[j] == b@[j],
        decreases a.len() - i,
    {
        if a[i] != b[i] {
            return false;
        }
        i = i + 1;
    }
    assert(a@ =~= b@);
    true
}

/// Returns whether the character is whitespace.
pub fn is_whitespace(c: char) -> (r: bool)
    ensures
        r == is_whitespace_spec(c),
{
    c == '\t' || c == '\n' || c == '\u{0B}' || c == '\u{0C}' || c == '\r' || c == ' '
        || c == '\u{85}' || c == '\u{A0}' || c == '\u{1680}' || ('\u{2000}' <= c && c
        <= '\u{200A}') || c == '\u{2028}' || c == '\u{2029}' || c == '\u{202F}' || c
        == '\u{205F}' || c == '\u{3000}'
}

/// Returns the text without its leading and trailing whitespace.
pub fn trim(s: &Vec<char>) -> (r: Vec<char>)
    ensures
        r@ == trim_spec(s@),
{
    let ghost full = s@;
    let mut start: usize = 0;
    assert(full.skip(0) =~= full);
    while start < s.len() && is_whitespace(s[start])
        invariant
            start <= s.len(),
            full == s@,
            leading_whitespace(full) == start + leading_whitespace(full.skip(start as int)),
        decreases s.len() - start,
    {
        assert(full.skip(start as int).drop_first() =~= full.skip(start + 1));
        start = start + 1;
    }
    let ghost t = full.skip(start as int);
    assert(leading_whitespace(t) == 0);
    let mut end: usize = s.len();
    while end > start && is_whitespace(s[end - 1])
        invariant
            start <= end <= s.len(),
            full == s@,
            t == full.skip(start as int),
            trailing_whitespace(t) == (s.len() - end) + trailing_whitespace(
                full.subrange(start as int, end as int),
            ),
        decreases end,
    {
        assert(full.subrange(start as int, end as int).drop_last() =~= full.subrange(
            start as int,
            end - 1,
        ));
        end = end - 1;
    }
    assert(trailing_whitespace(full.subrange(start as int, end as int)) == 0);
    assert(t.take(t.len() - trailing_whitespace(t)) =~= full.subrange(start as int, end as int));
    slice(s, start, end)
}

/// Returns the text with its ASCII upper case letters lowered.
pub fn to_ascii_lowercase(s: &Vec<char>) -> (r: Vec<char>)
    ensures
        r@ == lower_spec(s@),
{
    let mut r: Vec<char> = Vec::new();
    let mut i: usize = 0;
    while i < s.len()
        invariant
            i <= s.len(),
            r@ == lower_spec(s@.take(i as int)),
        decreases s.len() - i,
    {
        let c = s[i];
        let l = if 'A' <= c && c <= 'Z' {
            ((c as u8) + 32) as char
        } else {
            c
        };
        r.push(l);
        i = i + 1;
        assert(r@ =~= lower_spec(s@.take(i as int)));
    }
    assert(s@.take(i as int) =~= s@);
    r
}

/// Returns whether the text starts with the given prefix.
pub fn starts_with(s: &Vec<char>, prefix: &Vec<char>) -> (r: bool)
    ensures
        r == starts_with_spec(s@, prefix@),
{
    if prefix.len() > s.len() {
        return false;
    }
    let mut i: usize = 0;
    while i < prefix.len()
        invariant
            prefix.len() <= s.len(),
            i <= prefix.len(),
            forall|j: int| 0 <= j < i ==> s@[j] == prefix@[j],
        decreases prefix.len() - i,
    {
        if s[i] != prefix[i] {
            assert(s@.take(prefix.len() as int)[i as int] != prefix@[i as int]);
            return false;
        }
        i = i + 1;
    }
    assert(s@.take(prefix.len() as int) =~= prefix@);
    true
}

/// Returns whether the text ends with the given suffix.
pub fn ends_with(s: &Vec<char>, suffix: &Vec<char>) -> (r: bool)
    ensures
        r == ends_with_spec(s@, suffix@),
{
    if suffix.len() > s.len() {
        return false;
    }
    let offset = s.len() - suffix.len();
    let mut i: usize = 0;
    while i < suffix.len()
        invariant
            suffix.len() <= s.len(),
            offset == s.len() - suffix.len(),
            i <= suffix.len(),
            forall|j: int| 0 <= j < i ==> s@[offset + j] == suffix@[j],
        decreases suffix.len() - i,
    {
        if s[offset + i] != suffix[i] {
            assert(s@.skip(offset as int)[i as int] != suffix@[i as int]);
            return false;
        }
        i = i + 1;
    }
    assert(s@.skip(offset as int) =~= suffix@);
    true
}

/// Returns the index of the first occurrence of a character.
pub fn find(s: &Vec<char>, c: char) -> (r: Option<usize>)
    ensures
        match r {
            Some(i) => find_spec(s@, c) == i,
            None => find_spec(s@, c) == -1,
        },
{
    let mut i: usize = 0;
    while i < s.len()
        invariant
            i <= s.len(),
            forall|j: int| 0 <= j < i ==> s@[j] != c,
        decreases s.len() - i,
    {
        if s[i] == c {
            proof {
                lemma_find_is(s@, c, i as int);
            }
            return Some(i);
        }
        i = i + 1;
    }
    proof {
        lemma_find_is(s@, c, -1);
    }
    None
}

/// Returns the index of the last occurrence of a character.
pub fn rfind(s: &Vec<char>, c: char) -> (r: Option<usize>)
    ensures
        match r {
            Some(i) => rfind_spec(s@, c) == i,
            None => rfind_spec(s@, c) == -1,
        },
{
    let mut i: usize = s.len();
    while i > 0
        invariant
            i <= s.len(),
            forall|j: int| i <= j < s.len() ==> s@[j] != c,
        decreases i,
    {
        if s[i - 1] == c {
            proof {
                lemma_rfind_is(s@, c, i - 1);
            }
            return Some(i - 1);
        }
        i = i - 1;
    }
    proof {
        lemma_rfind_is(s@, c, -1);
    }
    None
}

/// Returns whether the text holds the character.
pub fn contains_char(s: &Vec<char>, c: char) -> (r: bool)
    ensures
        r == s@.contains(c),
        r == (find_spec(s@, c) >= 0),
{
    proof {
        lemma_find(s@, c);
    }
    match find(s, c) {
        Some(i) => {
            assert(s@[i as int] == c);
            true
        },
        None => false,
    }
}

/// Returns the parts of a text between the occurrences of a separator.
pub fn split(s: &Vec<char>, sep: char) -> (parts: Vec<Vec<char>>)
    ensures
        parts@.len() == split_spec(s@, sep).len(),
        forall|i: int| 0 <= i < parts@.len() ==> #[trigger] parts@[i]@ == split_spec(s@, sep)[i],
{
    let mut parts: Vec<Vec<char>> = Vec::new();
    let mut start: usize = 0;
    let mut i: usize = 0;
    assert(s@.skip(0) =~= s@);
    assert(parts@.map_values(|p: Vec<char>| p@) =~= Seq::<Seq<char>>::empty());
    while i < s.len()
        invariant
            start <= i <= s.len(),
            forall|j: int| start <= j < i ==> s@[j] != sep,
            split_spec(s@, sep) == parts@.map_values(|p: Vec<char>| p@) + split_spec(
                s@.skip(start as int),
                sep,
            ),
        decreases s.len() - i,
    {
        if s[i] == sep {
            let part = slice(s, start, i);
            proof {
                let rest = s@.skip(start as int);
                lemma_find_is(rest, sep, i - start);
                assert(rest.take(i - start) =~= part@);
                assert(rest.skip(i - start + 1) =~= s@.skip(i + 1));
                assert(parts@.push(part).map_values(|p: Vec<char>| p@) =~= parts@.map_values(
                    |p: Vec<char>| p@,
                ).push(part@));
            }
            parts.push(part);
            start = i + 1;
        }
        i = i + 1;
    }
    let last = slice(s, start, s.len());
    proof {
        let rest = s@.skip(start as int);
        lemma_find_is(rest, sep, -1);
        assert(rest =~= last@);
        assert(parts@.push(last).map_values(|p: Vec<char>| p@) =~= parts@.map_values(
            |p: Vec<char>| p@,
        ).push(last@));
    }
    parts.push(last);
    parts
}


/// The text without the given character repeated at its start.
pub open spec fn trim_start_char_spec(s: Seq<char>, c: char) -> Seq<char>
    decreases s.len(),
{
    if s.len() > 0 && s[0] == c {
        trim_start_char_spec(s.drop_first(), c)
    } else {
        s
    }
}

/// The text without the given character repeated at its end.
pub open spec fn trim_end_char_spec(s: Seq<char>, c: char) -> Seq<char>
    decreases s.len(),
{
    if s.len() > 0 && s.last() == c {
        trim_end_char_spec(s.drop_last(), c)
    } else {
        s
    }
}

/// Returns the text without the given character repeated at its start.
pub fn trim_start_char(s: &Vec<char>, c: char) -> (r: Vec<char>)
    ensures
        r@ == trim_start_char_spec(s@, c),
{
    let mut start: usize = 0;
    assert(s@.skip(0) =~= s@);
    while start < s.len() && s[start] == c
        invariant
            start <= s.len(),
            trim_start_char_spec(s@.skip(start as int), c) == trim_start_char_spec(s@, c),
        decreases s.len() - start,
    {
        assert(s@.skip(start as int).drop_first() =~= s@.skip(start + 1));
        start = start + 1;
    }
    let r = slice(s, start, s.len());
    assert(r@ =~= s@.skip(start as int));
    r
}

/// Returns the text without the given character repeated at its end.
pub fn trim_end_char(s: &Vec<char>, c: char) -> (r: Vec<char>)
    ensures
        r@ == trim_end_char_spec(s@, c),
{
    let mut end: usize = s.len();
    assert(s@.take(end as int) =~= s@);
    while end > 0 && s[end - 1] == c
        invariant
            end <= s.len(),
            trim_end_char_spec(s@.take(end as int), c) == trim_end_char_spec(s@, c),
        decreases end,
    {
        assert(s@.take(end as int).drop_last() =~= s@.take(end - 1));
        end = end - 1;
    }
    let r = slice(s, 0, end);
    assert(r@ =~= s@.take(end as int));
    r
}

/// Whether a text comes strictly before another in the lexicographic order
/// of their characters, which is the order of `String`.
pub open spec fn lex_lt(a: Seq<char>, b: Seq<char>) -> bool
    decreases a.len(),
{
    if a.len() == 0 {
        b.len() > 0
    } else if b.len() == 0 {
        false
    } else if a[0] < b[0] {
        true
    } else if a[0] == b[0] {
        lex_lt(a.drop_first(), b.drop_first())
    } else {
        false
    }
}

/// The lexicographic order is irreflexive.
pub proof fn lemma_lex_irreflexive(a: Seq<char>)
    ensures
        !lex_lt(a, a),
    decreases a.len(),
{
    if a.len() > 0 {
        lemma_lex_irreflexive(a.drop_first());
    }
}

/// The lexicographic order is transitive.
pub proof fn lemma_lex_transitive(a: Seq<char>, b: Seq<char>, c: Seq<char>)
    requires
        lex_lt(a, b),
        lex_lt(b, c),
    ensures
        lex_lt(a, c),
    decreases a.len(),
{
    if a.len() > 0 && b.len() > 0 && c.len() > 0 {
        if a[0] == b[0] && b[0] == c[0] {
            lemma_lex_transitive(a.drop_first(), b.drop_first(), c.drop_first());
        }
    }
}

/// Two different texts are ordered one way or the other.
pub proof fn lemma_lex_total(a: Seq<char>, b: Seq<char>)
    requires
        a != b,
    ensures
        lex_lt(a, b) || lex_lt(b, a),
    decreases a.len(),
{
    if a.len() > 0 && b.len() > 0 && a[0] == b[0] {
        if a.drop_first() == b.drop_first() {
            assert(a =~= seq![a[0]] + a.drop_first());
            assert(b =~= seq![b[0]] + b.drop_first());
        }
        lemma_lex_total(a.drop_first(), b.drop_first());
    } else if a.len() > 0 && b.len() > 0 {
        assert(a[0] != b[0]);
    } else if a.len() == 0 && b.len() == 0 {
        assert(a =~= b);
    }
}

/// Returns whether the first text comes strictly before the second.
pub fn lex_less(a: &Vec<char>, b: &Vec<char>) -> (r: bool)
    ensures
        r == lex_lt(a@, b@),
{
    let mut i: usize = 0;
    assert(a@.skip(0) =~= a@);
    assert(b@.skip(0) =~= b@);
    loop
        invariant
            i <= a.len(),
            i <= b.len(),
            lex_lt(a@.skip(i as int), b@.skip(i as int)) == lex_lt(a@, b@),
        decreases a.len() - i,
    {
        if i == a.len() {
            return i < b.len();
        }
        if i == b.len() {
            return false;
        }
        if a[i] < b[i] {
            return true;
        }
        if a[i] != b[i] {
            return false;
        }
        assert(a@.skip(i as int).drop_first() =~= a@.skip(i + 1));
        assert(b@.skip(i as int).drop_first() =~= b@.skip(i + 1));
        i = i + 1;
    }
}

/// Whether the texts are in strictly increasing lexicographic order.
pub open spec fn strictly_sorted(s: Seq<Seq<char>>) -> bool {
    forall|i: int, j: int| 0 <= i < j < s.len() ==> lex_lt(#[trigger] s[i], #[trigger] s[j])
}

/// The texts of the given set in increasing lexicographic order, each once.
pub open spec fn sorted_set_spec(s: Set<Seq<char>>) -> Seq<Seq<char>> {
    choose|r: Seq<Seq<char>>| strictly_sorted(r) && r.to_set() == s
}

/// Two strictly sorted sequences with the same elements are equal.
pub proof fn lemma_sorted_unique(a: Seq<Seq<char>>, b: Seq<Seq<char>>)
    requires
        strictly_sorted(a),
        strictly_sorted(b),
        a.to_set() == b.to_set(),
    ensures
        a == b,
    decreases a.len(),
{
    if a.len() == 0 {
        if b.len() > 0 {
            assert(b.to_set().contains(b[0]));
        }
        assert(a =~= b);
    } else if b.len() == 0 {
        assert(a.to_set().contains(a[0]));
    } else {
        assert(b.to_set().contains(a[0]));
        let k = choose|k: int| 0 <= k < b.len() && b[k] == a[0];
        assert(a.to_set().contains(b[0]));
        let m = choose|m: int| 0 <= m < a.len() && a[m] == b[0];
        if k > 0 {
            if m > 0 {
                lemma_lex_transitive(a[0], a[m], a[0]);
                lemma_lex_irreflexive(a[0]);
            } else {
                lemma_lex_irreflexive(b[0]);
            }
        }
        assert(a[0] == b[0]);
        let ta = a.drop_first();
        let tb = b.drop_first();
        assert forall|x: Seq<char>| ta.to_set().contains(x) implies tb.to_set().contains(x) by {
            let i = choose|i: int| 0 <= i < ta.len() && ta[i] == x;
            assert(a[i + 1] == x);
            assert(b.to_set().contains(x));
            let j = choose|j: int| 0 <= j < b.len() && b[j] == x;
            if j == 0 {
                lemma_lex_irreflexive(a[0]);
            }
            assert(tb[j - 1] == x);
        }
        assert forall|x: Seq<char>| tb.to_set().contains(x) implies ta.to_set().contains(x) by {
            let i = choose|i: int| 0 <= i < tb.len() && tb[i] == x;
            assert(b[i + 1] == x);
            assert(a.to_set().contains(x));
            let j = choose|j: int| 0 <= j < a.len() && a[j] == x;
            if j == 0 {
                lemma_lex_irreflexive(b[0]);
            }
            assert(ta[j - 1] == x);
        }
        assert(ta.to_set() =~= tb.to_set());
        lemma_sorted_unique(ta, tb);
        assert(a.len() == b.len());
        assert forall|i: int| 0 <= i < a.len() implies a[i] == b[i] by {
            if i > 0 {
                assert(a[i] == ta[i - 1]);
                assert(b[i] == tb[i - 1]);
            }
        }
        assert(a =~= b);
    }
}

/// Returns the given texts in increasing lexicographic order, each once.
pub fn sort_unique(names: &Vec<Vec<char>>) -> (r: Vec<Vec<char>>)
    ensures
        strictly_sorted(r@.map_values(|v: Vec<char>| v@)),
        r@.map_values(|v: Vec<char>| v@).to_set() == names@.map_values(|v: Vec<char>| v@).to_set(),
        r@.map_values(|v: Vec<char>| v@) == sorted_set_spec(
            names@.map_values(|v: Vec<char>| v@).to_set(),
        ),
{
    let ghost all = names@.map_values(|v: Vec<char>| v@);
    let mut r: Vec<Vec<char>> = Vec::new();
    let mut n: usize = 0;
    while n < names.len()
        invariant
            n <= names.len(),
            all == names@.map_values(|v: Vec<char>| v@),
            strictly_sorted(r@.map_values(|v: Vec<char>| v@)),
            r@.map_values(|v: Vec<char>| v@).to_set() == all.take(n as int).to_set(),
        decreases names.len() - n,
    {
        let name = &names[n];
        let ghost before = r@.map_values(|v: Vec<char>| v@);
        let mut k: usize = 0;
        while k < r.len() && lex_less(&r[k], name)
            invariant
                k <= r.len(),
                r@.map_values(|v: Vec<char>| v@) == before,
                forall|i: int| 0 <= i < k ==> lex_lt(#[trigger] before[i], name@),
            decreases r.len() - k,
        {
            k = k + 1;
        }
        assert(all.take(n + 1) =~= all.take(n as int).push(name@));
        proof {
            all.take(n as int).lemma_push_to_set_commute(name@);
        }
        if k < r.len() && equals(&r[k], name) {
            assert(before[k as int] == name@);
            assert(before.to_set().contains(name@));
            assert(all.take(n + 1).to_set() =~= all.take(n as int).to_set().insert(name@));
        } else {
            proof {
                if k < r.len() {
                    assert(before[k as int] != name@);
                    lemma_lex_total(before[k as int], name@);
                    assert forall|m: int| k <= m < before.len() implies lex_lt(
                        name@,
                        #[trigger] before[m],
                    ) by {
                        if m > k {
                            lemma_lex_transitive(name@, before[k as int], before[m]);
                        }
                    }
                }
            }
            r.insert(k, name.clone());
            let ghost after = r@.map_values(|v: Vec<char>| v@);
            assert(after =~= before.insert(k as int, name@));
            assert forall|i: int, j: int| 0 <= i < j < after.len() implies lex_lt(
                #[trigger] after[i],
                #[trigger] after[j],
            ) by {
                if j < k {
                } else if j == k {
                } else if i < k {
                    assert(lex_lt(name@, before[j - 1]));
                    lemma_lex_transitive(before[i], name@, before[j - 1]);
                } else if i == k {
                    assert(lex_lt(name@, before[j - 1]));
                } else {
                }
            }
            assert(after.to_set() =~= before.to_set().insert(name@)) by {
                assert forall|x: Seq<char>| after.to_set().contains(x) implies before.to_set().insert(
                    name@,
                ).contains(x) by {
                    let i = choose|i: int| 0 <= i < after.len() && after[i] == x;
                    if i < k {
                        assert(before[i] == x);
                    } else if i > k {
                        assert(before[i - 1] == x);
                    }
                }
                assert forall|x: Seq<char>| before.to_set().insert(name@).contains(x) implies after.to_set().contains(x) by {
                    if x == name@ {
                        assert(after[k as int] == x);
                    } else {
                        let i = choose|i: int| 0 <= i < before.len() && before[i] == x;
                        if i < k {
                            assert(after[i] == x);
                        } else {
                            assert(after[i + 1] == x);
                        }
                    }
                }
            }
            assert(all.take(n + 1).to_set() =~= all.take(n as int).to_set().insert(name@));
        }
        n = n + 1;
    }
    assert(all.take(n as int) =~= all);
    proof {
        let s = r@.map_values(|v: Vec<char>| v@);
        let c = sorted_set_spec(all.to_set());
        assert(strictly_sorted(c) && c.to_set() == all.to_set());
        lemma_sorted_unique(s, c);
    }
    r
}


/// What `leading_whitespace` counts: whitespace, up to the first character
/// that is not.
pub proof fn lemma_leading_whitespace(s: Seq<char>)
    ensures
        leading_whitespace(s) <= s.len(),
        leading_whitespace(s) < s.len() ==> !is_whitespace_spec(s[leading_whitespace(s) as int]),
        forall|i: int| 0 <= i < leading_whitespace(s) ==> is_whitespace_spec(#[trigger] s[i]),
    decreases s.len(),
{
    if s.len() > 0 && is_whitespace_spec(s[0]) {
        lemma_leading_whitespace(s.drop_first());
        assert forall|i: int| 0 <= i < leading_whitespace(s) implies is_whitespace_spec(#[trigger] s[i]) by {
            if i > 0 {
                assert(s[i] == s.drop_first()[i - 1]);
            }
        }
    }
}

/// What `trailing_whitespace` counts: whitespace, back to the last character
/// that is not.
pub proof fn lemma_trailing_whitespace(s: Seq<char>)
    ensures
        trailing_whitespace(s) <= s.len(),
        trailing_whitespace(s) < s.len() ==> !is_whitespace_spec(
            s[s.len() - 1 - trailing_whitespace(s)],
        ),
    decreases s.len(),
{
    if s.len() > 0 && is_whitespace_spec(s.last()) {
        lemma_trailing_whitespace(s.drop_last());
    }
}

/// A text that neither starts nor ends with whitespace is its own trimmed
/// text.
pub proof fn lemma_trim_of_trimmed(s: Seq<char>)
    requires
        s.len() > 0 ==> !is_whitespace_spec(s[0]) && !is_whitespace_spec(s.last()),
    ensures
        trim_spec(s) == s,
{
    assert(leading_whitespace(s) == 0);
    assert(s.skip(0) =~= s);
    assert(trailing_whitespace(s) == 0);
    assert(s.take(s.len() as int) =~= s);
}

/// A trimmed text is empty, or neither starts nor ends with whitespace.
pub proof fn lemma_trimmed_ends(s: Seq<char>)
    ensures
        trim_spec(s).len() > 0 ==> !is_whitespace_spec(trim_spec(s)[0]) && !is_whitespace_spec(
            trim_spec(s).last(),
        ),
{
    lemma_leading_whitespace(s);
    let t = s.skip(leading_whitespace(s) as int);
    lemma_trailing_whitespace(t);
    let u = t.take(t.len() - trailing_whitespace(t));
    if u.len() > 0 {
        assert(u[0] == s[leading_whitespace(s) as int]);
        assert(u.last() == t[t.len() - 1 - trailing_whitespace(t)]);
    }
}

/// Trimming a trimmed text changes nothing.
pub proof fn lemma_trim_idempotent(s: Seq<char>)
    ensures
        trim_spec(trim_spec(s)) == trim_spec(s),
{
    lemma_trimmed_ends(s);
    lemma_trim_of_trimmed(trim_spec(s));
}

} // verus!
