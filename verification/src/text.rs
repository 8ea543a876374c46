//! Strings as sequences of characters: comparison, white space, words, digits.
use vstd::prelude::*;

verus! {

/// `String::push` appends one character to the end of the string.
pub assume_specification[ String::push ](text: &mut String, c: char)
    ensures
        final(text)@ == old(text)@.push(c),
;

/// `PartialEq` on `str` compares the two strings character by character.
pub assume_specification[ <str as PartialEq>::eq ](left: &str, right: &str) -> (same: bool)
    ensures
        same == (left@ == right@),
;

/// Whether two strings hold the same characters.
pub fn same_text(left: &str, right: &str) -> (same: bool)
    ensures
        same == (left@ == right@),
{
    *left == *right
}

/// The characters of a string, in order.
pub fn characters(text: &str) -> (list: Vec<char>)
    ensures
        list@ == text@,
{
    let mut list: Vec<char> = Vec::new();
    for c in iter: text.chars()
        invariant
            iter.seq() == text@,
            list@ == text@.take(iter.index()),
    {
        list.push(c);
    }
    list
}

/// The characters from `from` up to `to` as a string.
pub fn slice_text(list: &Vec<char>, from: usize, to: usize) -> (text: String)
    requires
        from <= to <= list.len(),
    ensures
        text@ == list@.subrange(from as int, to as int),
{
    let mut text = String::new();
    let mut i: usize = from;
    while i < to
        invariant
            from <= i <= to <= list.len(),
            text@ == list@.subrange(from as int, i as int),
        decreases to - i,
    {
        text.push(list[i]);
        i = i + 1;
        assert(list@.subrange(from as int, i as int) == list@.subrange(from as int, i - 1).push(
            list@[i - 1],
        ));
    }
    text
}

/// The two strings one after the other.
pub fn joined(left: &str, right: &str) -> (text: String)
    ensures
        text@ == left@ + right@,
{
    let mut text = left.to_owned();
    text.append(right);
    text
}

/// A character with Unicode's `White_Space` property.
pub open spec fn white_space(c: char) -> bool {
    ||| '\u{9}' <= c <= '\u{d}'
    ||| c == ' '
    ||| c == '\u{85}'
    ||| c == '\u{a0}'
    ||| c == '\u{1680}'
    ||| '\u{2000}' <= c <= '\u{200a}'
    ||| c == '\u{2028}'
    ||| c == '\u{2029}'
    ||| c == '\u{202f}'
    ||| c == '\u{205f}'
    ||| c == '\u{3000}'
}

/// Whether a character is white space.
pub fn is_white_space(c: char) -> (blank: bool)
    ensures
        blank == white_space(c),
{
    ('\u{9}' <= c && c <= '\u{d}') || c == ' ' || c == '\u{85}' || c == '\u{a0}' || c == '\u{1680}' || (
    '\u{2000}' <= c && c <= '\u{200a}') || c == '\u{2028}' || c == '\u{2029}' || c == '\u{202f}' || c
        == '\u{205f}' || c == '\u{3000}'
}

/// A text that holds nothing but white space.
pub open spec fn blank(text: Seq<char>) -> bool {
    forall|i: int| 0 <= i < text.len() ==> white_space(#[trigger] text[i])
}

/// Whether a text holds nothing but white space.
pub fn is_blank(text: &str) -> (result: bool)
    ensures
        result == blank(text@),
{
    let list = characters(text);
    let mut i: usize = 0;
    while i < list.len()
        invariant
            i <= list.len(),
            list@ == text@,
            forall|j: int| 0 <= j < i ==> white_space(#[trigger] text@[j]),
        decreases list.len() - i,
    {
        if !is_white_space(list[i]) {
            return false;
        }
        i = i + 1;
    }
    true
}

/// The text without the white space at its beginning.
pub open spec fn trim_start(text: Seq<char>) -> Seq<char>
    decreases text.len(),
{
    if text.len() > 0 && white_space(text[0]) {
        trim_start(text.drop_first())
    } else {
        text
    }
}

/// The text without the white space at its end.
pub open spec fn trim_end(text: Seq<char>) -> Seq<char>
    decreases text.len(),
{
    if text.len() > 0 && white_space(text.last()) {
        trim_end(text.drop_last())
    } else {
        text
    }
}

/// The text without the white space around it.
pub open spec fn trimmed(text: Seq<char>) -> Seq<char> {
    trim_end(trim_start(text))
}

/// Takes the white space off both ends of a text.
pub fn trim(text: &str) -> (result: String)
    ensures
        result@ == trimmed(text@),
{
    let list = characters(text);
    let mut from: usize = 0;
    assert(text@.skip(0) == text@);
    while from < list.len() && is_white_space(list[from])
        invariant
            from <= list.len(),
            list@ == text@,
            trim_start(text@) == trim_start(text@.skip(from as int)),
        decreases list.len() - from,
    {
        assert(text@.skip(from as int).drop_first() == text@.skip(from + 1));
        from = from + 1;
    }
    let mut to: usize = list.len();
    let ghost tail = text@.skip(from as int);
    assert(trim_start(text@) == tail);
    assert(list@.subrange(from as int, to as int) == tail);
    while to > from && is_white_space(list[to - 1])
        invariant
            from <= to <= list.len(),
            list@ == text@,
            trim_end(tail) == trim_end(list@.subrange(from as int, to as int)),
        decreases to - from,
    {
        assert(list@.subrange(from as int, to as int).drop_last() == list@.subrange(
            from as int,
            to - 1,
        ));
        to = to - 1;
    }
    slice_text(&list, from, to)
}

/// How many characters before the first white space there are.
pub open spec fn word_length(text: Seq<char>) -> nat
    decreases text.len(),
{
    if text.len() == 0 || white_space(text[0]) {
        0
    } else {
        1 + word_length(text.drop_first())
    }
}

/// The words of a text: its longest pieces without white space, in order.
pub open spec fn words(text: Seq<char>) -> Seq<Seq<char>>
    decreases text.len(),
{
    if text.len() == 0 {
        Seq::empty()
    } else if white_space(text[0]) {
        words(text.drop_first())
    } else {
        let n = word_length(text) as int;
        if 0 < n <= text.len() {
            seq![text.take(n)] + words(text.skip(n))
        } else {
            Seq::empty()
        }
    }
}

pub proof fn lemma_word_length(text: Seq<char>, n: int)
    requires
        0 <= n <= text.len(),
        forall|i: int| 0 <= i < n ==> !white_space(#[trigger] text[i]),
        n < text.len() ==> white_space(text[n]),
    ensures
        word_length(text) == n,
    decreases n,
{
    if n > 0 {
        let rest = text.drop_first();
        assert(text[0] == text[0]);
        assert forall|i: int| 0 <= i < n - 1 implies !white_space(#[trigger] rest[i]) by {
            assert(rest[i] == text[i + 1]);
        }
        lemma_word_length(rest, n - 1);
    }
}

/// The views of a list of strings.
pub open spec fn texts(list: Seq<String>) -> Seq<Seq<char>> {
    list.map_values(|text: String| text@)
}

/// Splits a piece of a text into words.
pub fn split_words(list: &Vec<char>, from: usize, to: usize) -> (result: Vec<String>)
    requires
        from <= to <= list.len(),
    ensures
        texts(result@) == words(list@.subrange(from as int, to as int)),
{
    let mut result: Vec<String> = Vec::new();
    let ghost text = list@.subrange(from as int, to as int);
    let mut i: usize = from;
    assert(text.skip(0) == text);
    assert(texts(result@) + words(text) == words(text));
    while i < to
        invariant
            from <= i <= to <= list.len(),
            text == list@.subrange(from as int, to as int),
            texts(result@) + words(text.skip(i - from)) == words(text),
        decreases to - i,
    {
        let ghost rest = text.skip(i - from);
        if is_white_space(list[i]) {
            assert(rest.drop_first() == text.skip(i + 1 - from));
            i = i + 1;
        } else {
            let start = i;
            while i < to && !is_white_space(list[i])
                invariant
                    from <= start <= i <= to <= list.len(),
                    text == list@.subrange(from as int, to as int),
                    forall|j: int| start <= j < i ==> !white_space(#[trigger] list@[j]),
                decreases to - i,
            {
                i = i + 1;
            }
            let ghost n = i - start;
            proof {
                assert forall|j: int| 0 <= j < n implies !white_space(#[trigger] rest[j]) by {
                    assert(rest[j] == list@[start + j]);
                }
                if n < rest.len() {
                    assert(rest[n] == list@[i as int]);
                }
                lemma_word_length(rest, n);
                assert(rest[0] == list@[start as int]);
                assert(rest.take(n) == list@.subrange(start as int, i as int));
                assert(rest.skip(n) == text.skip(i - from));
            }
            let ghost before = result@;
            result.push(slice_text(list, start, i));
            proof {
                assert(texts(result@) == texts(before).push(rest.take(n)));
                assert(texts(before) + (seq![rest.take(n)] + words(rest.skip(n))) == texts(result@)
                    + words(rest.skip(n)));
            }
        }
    }
    assert(text.skip(to - from) == Seq::<char>::empty());
    assert(texts(result@) + words(text.skip(to - from)) == texts(result@));
    result
}

/// Whether `part` stands somewhere in `text`.
pub open spec fn contains(text: Seq<char>, part: Seq<char>) -> bool {
    exists|i: int| stands_at(text, part, i)
}

/// Whether `part` stands in `text` at position `i`.
pub open spec fn stands_at(text: Seq<char>, part: Seq<char>, i: int) -> bool {
    0 <= i <= text.len() - part.len() && text.subrange(i, i + part.len()) == part
}

/// Looks for `part` in `text`.
pub fn has_part(text: &str, part: &str) -> (found: bool)
    ensures
        found == contains(text@, part@),
{
    let long = characters(text);
    let short = characters(part);
    if short.len() > long.len() {
        return false;
    }
    let last: usize = long.len() - short.len();
    let mut i: usize = 0;
    loop
        invariant
            long@ == text@,
            short@ == part@,
            last == long.len() - short.len(),
            i <= last,
            forall|j: int| 0 <= j < i ==> !stands_at(text@, part@, j),
        decreases last - i,
    {
        let mut k: usize = 0;
        while k < short.len() && long[i + k] == short[k]
            invariant
                i <= last,
                last == long.len() - short.len(),
                k <= short.len(),
                forall|j: int| 0 <= j < k ==> #[trigger] long@[i + j] == short@[j],
            decreases short.len() - k,
        {
            k = k + 1;
        }
        if k == short.len() {
            proof {
                assert forall|j: int| 0 <= j < short.len() implies text@.subrange(
                    i as int,
                    i + part@.len(),
                )[j] == part@[j] by {
                    assert(long@[i + j] == short@[j]);
                }
                assert(text@.subrange(i as int, i + part@.len()) == part@);
                assert(stands_at(text@, part@, i as int));
            }
            return true;
        }
        proof {
            if stands_at(text@, part@, i as int) {
                assert(text@.subrange(i as int, i + part@.len())[k as int] == text@[i + k]);
            }
        }
        if i == last {
            return false;
        }
        i = i + 1;
    }
}

/// Whether `text` begins with `prefix`.
pub open spec fn starts_with(text: Seq<char>, prefix: Seq<char>) -> bool {
    prefix.len() <= text.len() && text.take(prefix.len() as int) == prefix
}

/// The text behind `prefix`, where it begins with it.
pub fn strip_prefix(text: &str, prefix: &str) -> (rest: Option<String>)
    ensures
        match rest {
            Some(r) => starts_with(text@, prefix@) && r@ == text@.skip(prefix@.len() as int),
            None => !starts_with(text@, prefix@),
        },
{
    let long = characters(text);
    let short = characters(prefix);
    if short.len() > long.len() {
        return None;
    }
    let mut k: usize = 0;
    while k < short.len()
        invariant
            long@ == text@,
            short@ == prefix@,
            short.len() <= long.len(),
            k <= short.len(),
            forall|j: int| 0 <= j < k ==> #[trigger] long@[j] == short@[j],
        decreases short.len() - k,
    {
        if long[k] != short[k] {
            assert(text@.take(prefix@.len() as int)[k as int] == text@[k as int]);
            return None;
        }
        k = k + 1;
    }
    assert(text@.take(prefix@.len() as int) == prefix@);
    assert(text@.skip(prefix@.len() as int) == long@.subrange(
        prefix@.len() as int,
        text@.len() as int,
    ));
    Some(slice_text(&long, short.len(), long.len()))
}

/// The order of two texts by their first difference; a text comes before what it begins.
pub open spec fn before(left: Seq<char>, right: Seq<char>) -> bool
    decreases left.len(),
{
    if right.len() == 0 {
        false
    } else if left.len() == 0 {
        true
    } else if left[0] != right[0] {
        left[0] < right[0]
    } else {
        before(left.drop_first(), right.drop_first())
    }
}

/// Whether `left` comes before `right`.
pub fn is_before(left: &str, right: &str) -> (result: bool)
    ensures
        result == before(left@, right@),
{
    let a = characters(left);
    let b = characters(right);
    let mut i: usize = 0;
    assert(left@.skip(0) == left@ && right@.skip(0) == right@);
    while i < a.len() && i < b.len()
        invariant
            a@ == left@,
            b@ == right@,
            i <= a.len(),
            i <= b.len(),
            before(left@, right@) == before(left@.skip(i as int), right@.skip(i as int)),
        decreases a.len() - i,
    {
        assert(left@.skip(i as int)[0] == a@[i as int]);
        assert(right@.skip(i as int)[0] == b@[i as int]);
        if a[i] != b[i] {
            return a[i] < b[i];
        }
        assert(left@.skip(i as int).drop_first() == left@.skip(i + 1));
        assert(right@.skip(i as int).drop_first() == right@.skip(i + 1));
        i = i + 1;
    }
    i < b.len()
}

/// Of two texts exactly one comes first, or they are one text.
pub proof fn lemma_before_total(left: Seq<char>, right: Seq<char>)
    ensures
        before(left, right) || before(right, left) || left == right,
        !(before(left, right) && before(right, left)),
        !before(left, left),
    decreases left.len(),
{
    if left.len() > 0 && right.len() > 0 && left[0] == right[0] {
        lemma_before_total(left.drop_first(), right.drop_first());
        if left.drop_first() == right.drop_first() {
            assert(left == seq![left[0]] + left.drop_first());
            assert(right == seq![right[0]] + right.drop_first());
        }
    }
    if left.len() == 0 && right.len() == 0 {
        assert(left == right);
    }
    if left.len() > 0 {
        lemma_before_total(left.drop_first(), left.drop_first());
    }
}

pub proof fn lemma_before_transitive(a: Seq<char>, b: Seq<char>, c: Seq<char>)
    requires
        before(a, b),
        before(b, c),
    ensures
        before(a, c),
    decreases a.len(),
{
    if a.len() > 0 && b.len() > 0 && c.len() > 0 && a[0] == b[0] && b[0] == c[0] {
        lemma_before_transitive(a.drop_first(), b.drop_first(), c.drop_first());
    }
}

/// The decimal digit of a number below ten.
pub open spec fn digit(n: nat) -> char {
    (48 + n) as char
}

/// A number in decimal digits.
pub open spec fn decimal(n: nat) -> Seq<char>
    decreases n,
{
    if n < 10 {
        seq![digit(n)]
    } else {
        decimal(n / 10).push(digit(n % 10))
    }
}

/// Writes a number in decimal digits.
pub fn decimal_text(n: u64) -> (text: String)
    ensures
        text@ == decimal(n as nat),
    decreases n,
{
    let last = (48 + (n % 10) as u8) as char;
    let mut text = if n < 10 {
        String::new()
    } else {
        decimal_text(n / 10)
    };
    text.push(last);
    assert(n < 10 ==> text@ == seq![digit(n as nat)]);
    text
}

/// A hexadecimal digit.
pub open spec fn hex_digit(c: char) -> bool {
    ('0' <= c <= '9') || ('a' <= c <= 'f') || ('A' <= c <= 'F')
}

/// A hexadecimal digit without capital letters.
pub open spec fn lower_hex_digit(c: char) -> bool {
    ('0' <= c <= '9') || ('a' <= c <= 'f')
}

/// The character with an ASCII capital made small.
pub open spec fn lower(c: char) -> char {
    if 'A' <= c <= 'Z' {
        (c as int + 32) as char
    } else {
        c
    }
}

/// The text with its ASCII capitals made small.
pub open spec fn lower_text(text: Seq<char>) -> Seq<char> {
    text.map_values(|c: char| lower(c))
}

/// Makes the ASCII capitals of a text small.
pub fn to_lower(text: &str) -> (result: String)
    ensures
        result@ == lower_text(text@),
{
    let list = characters(text);
    let mut result = String::new();
    let mut i: usize = 0;
    while i < list.len()
        invariant
            i <= list.len(),
            list@ == text@,
            result@ == lower_text(text@.take(i as int)),
        decreases list.len() - i,
    {
        let c = list[i];
        if 'A' <= c && c <= 'Z' {
            result.push((c as u8 + 32) as char);
        } else {
            result.push(c);
        }
        i = i + 1;
        assert(lower_text(text@.take(i as int)) == lower_text(text@.take(i - 1)).push(
            lower(text@[i - 1]),
        ));
    }
    assert(text@.take(text@.len() as int) == text@);
    result
}

// ---------------------------------------------------------------------------
// Laws

proof fn lemma_trim_start(text: Seq<char>)
    ensures
        exists|k: int|
            0 <= k <= text.len() && trim_start(text) == text.skip(k) && #[trigger] blank(
                text.take(k),
            ),
        trim_start(text).len() > 0 ==> !white_space(trim_start(text)[0]),
    decreases text.len(),
{
    if text.len() > 0 && white_space(text[0]) {
        let rest = text.drop_first();
        lemma_trim_start(rest);
        let k = choose|k: int|
            0 <= k <= rest.len() && trim_start(rest) == rest.skip(k) && #[trigger] blank(
                rest.take(k),
            );
        assert(rest.skip(k) =~= text.skip(k + 1));
        assert(blank(text.take(k + 1))) by {
            assert forall|i: int| 0 <= i < k + 1 implies white_space(
                #[trigger] text.take(k + 1)[i],
            ) by {
                if i > 0 {
                    assert(white_space(rest.take(k)[i - 1]));
                }
            }
        }
    } else {
        assert(text.skip(0) =~= text);
        assert(blank(text.take(0)));
    }
}

proof fn lemma_trim_end(text: Seq<char>)
    ensures
        exists|k: int|
            0 <= k <= text.len() && trim_end(text) == text.take(k) && #[trigger] blank(
                text.skip(k),
            ),
        trim_end(text).len() > 0 ==> !white_space(trim_end(text).last()),
    decreases text.len(),
{
    if text.len() > 0 && white_space(text.last()) {
        let rest = text.drop_last();
        lemma_trim_end(rest);
        let k = choose|k: int|
            0 <= k <= rest.len() && trim_end(rest) == rest.take(k) && #[trigger] blank(
                rest.skip(k),
            );
        assert(rest.take(k) =~= text.take(k));
        assert(blank(text.skip(k))) by {
            assert forall|i: int| 0 <= i < text.len() - k implies white_space(
                #[trigger] text.skip(k)[i],
            ) by {
                if i < rest.len() - k {
                    assert(white_space(rest.skip(k)[i]));
                }
            }
        }
    } else {
        let n = text.len() as int;
        assert(text.take(n) =~= text);
        assert(blank(text.skip(n)));
    }
}

/// What is trimmed off a text is white space at its ends, and all of it; what is left is as it
/// was.
pub proof fn law_only_white_space_is_trimmed(text: Seq<char>)
    ensures
        exists|from: int, to: int|
            0 <= from <= to <= text.len() && trimmed(text) == #[trigger] text.subrange(from, to)
                && (forall|i: int| 0 <= i < from ==> white_space(#[trigger] text[i])) && (forall|
                i: int,
            |
                to <= i < text.len() ==> white_space(#[trigger] text[i])),
        trimmed(text).len() > 0 ==> !white_space(trimmed(text)[0]) && !white_space(
            trimmed(text).last(),
        ),
{
    lemma_trim_start(text);
    let from = choose|k: int|
        0 <= k <= text.len() && trim_start(text) == text.skip(k) && #[trigger] blank(text.take(k));
    let rest = text.skip(from);
    lemma_trim_end(rest);
    let n = choose|k: int|
        0 <= k <= rest.len() && trim_end(rest) == rest.take(k) && #[trigger] blank(rest.skip(k));
    let to = from + n;
    assert(rest.take(n) =~= text.subrange(from, to));
    assert forall|i: int| 0 <= i < from implies white_space(#[trigger] text[i]) by {
        assert(white_space(text.take(from)[i]));
    }
    assert forall|i: int| to <= i < text.len() implies white_space(#[trigger] text[i]) by {
        assert(white_space(rest.skip(n)[i - to]));
    }
    if trimmed(text).len() > 0 {
        assert(trimmed(text)[0] == rest[0]);
    }
}

/// White space parts words: the words of a text are those before a white space and then those
/// behind it. A text without white space is one word, as it is.
pub proof fn law_white_space_parts_words(left: Seq<char>, space: char, right: Seq<char>)
    requires
        white_space(space),
    ensures
        words(left.push(space) + right) == words(left) + words(right),
        left.len() > 0 && (forall|i: int| 0 <= i < left.len() ==> !white_space(#[trigger] left[i]))
            ==> words(left) == seq![left],
        words(Seq::<char>::empty()).len() == 0,
    decreases left.len(),
{
    let whole = left.push(space) + right;
    if left.len() == 0 {
        assert(whole[0] == space);
        assert(whole.drop_first() =~= right);
        assert(words(left) + words(right) =~= words(right));
    } else if white_space(left[0]) {
        assert(whole[0] == left[0]);
        assert(whole.drop_first() =~= left.drop_first().push(space) + right);
        law_white_space_parts_words(left.drop_first(), space, right);
    } else {
        let n = word_length(left) as int;
        lemma_word_length_is_right(left);
        assert forall|i: int| 0 <= i < n implies !white_space(#[trigger] whole[i]) by {
            assert(whole[i] == left[i]);
        }
        assert(whole[n] == if n < left.len() {
            left[n]
        } else {
            space
        });
        lemma_word_length(whole, n);
        assert(whole.take(n) =~= left.take(n));
        assert(whole[0] == left[0]);
        if n < left.len() {
            assert(whole.skip(n) =~= left.skip(n).push(space) + right);
            law_white_space_parts_words(left.skip(n), space, right);
            assert(seq![left.take(n)] + (words(left.skip(n)) + words(right)) =~= seq![left.take(n)]
                + words(left.skip(n)) + words(right));
        } else {
            assert(left.take(n) =~= left);
            assert(left.skip(n) =~= Seq::<char>::empty());
            assert(whole.skip(n)[0] == space);
            assert(whole.skip(n).drop_first() =~= right);
            assert(words(whole.skip(n)) == words(right));
            assert(words(left) =~= seq![left]);
            assert(words(whole) =~= words(left) + words(right));
        }
        if forall|i: int| 0 <= i < left.len() ==> !white_space(#[trigger] left[i]) {
            lemma_word_length(left, left.len() as int);
            assert(left.take(n) =~= left);
            assert(words(left.skip(n)).len() == 0);
            assert(words(left) =~= seq![left]);
        }
    }
}

proof fn lemma_word_length_is_right(text: Seq<char>)
    ensures
        word_length(text) <= text.len(),
        forall|i: int| 0 <= i < word_length(text) ==> !white_space(#[trigger] text[i]),
        word_length(text) < text.len() ==> white_space(text[word_length(text) as int]),
        text.len() > 0 && !white_space(text[0]) ==> word_length(text) > 0,
    decreases text.len(),
{
    if text.len() > 0 && !white_space(text[0]) {
        let rest = text.drop_first();
        lemma_word_length_is_right(rest);
        assert forall|i: int| 0 <= i < word_length(text) implies !white_space(
            #[trigger] text[i],
        ) by {
            if i > 0 {
                assert(!white_space(rest[i - 1]));
            }
        }
    }
}

/// The number that decimal digits stand for.
pub open spec fn digits_value(digits: Seq<char>) -> int
    decreases digits.len(),
{
    if digits.len() == 0 {
        0
    } else {
        10 * digits_value(digits.drop_last()) + (digits.last() as int - '0' as int)
    }
}

/// A number in decimal digits stands for that number, and has no zero in front of others.
pub proof fn law_decimal_stands_for_the_number(n: nat)
    ensures
        digits_value(decimal(n)) == n,
        decimal(n).len() > 0,
        forall|i: int| 0 <= i < decimal(n).len() ==> '0' <= #[trigger] decimal(n)[i] <= '9',
        decimal(n).len() > 1 ==> decimal(n)[0] != '0',
        n > 0 ==> decimal(n)[0] != '0',
    decreases n,
{
    if n < 10 {
        assert(decimal(n).drop_last() =~= Seq::<char>::empty());
        assert(digits_value(decimal(n).drop_last()) == 0);
    } else {
        law_decimal_stands_for_the_number(n / 10);
        let rest = decimal(n / 10);
        assert(decimal(n).drop_last() =~= rest);
        assert(decimal(n)[0] == rest[0]);
        assert forall|i: int| 0 <= i < decimal(n).len() implies '0' <= #[trigger] decimal(n)[i]
            <= '9' by {
            if i < rest.len() {
                assert(decimal(n)[i] == rest[i]);
            }
        }
    }
}

/// Only ASCII capitals change when letters are made small, each into its small letter.
pub proof fn law_only_capitals_are_made_small(text: Seq<char>, i: int)
    requires
        0 <= i < text.len(),
    ensures
        lower_text(text).len() == text.len(),
        !('A' <= text[i] <= 'Z') ==> lower_text(text)[i] == text[i],
        'A' <= text[i] <= 'Z' ==> lower_text(text)[i] as int - 'a' as int == text[i] as int
            - 'A' as int,
        lower_text(lower_text(text)) == lower_text(text),
{
    assert(lower_text(lower_text(text)) =~= lower_text(text));
}

/// A part stands in a text exactly where the text is something, the part, and something more.
pub proof fn law_part_stands_between(left: Seq<char>, part: Seq<char>, right: Seq<char>, text: Seq<char>)
    ensures
        contains(left + part + right, part),
        contains(text, part) ==> exists|a: Seq<char>, b: Seq<char>|
            text == #[trigger] (a + part + b),
{
    let whole = left + part + right;
    let at = left.len() as int;
    assert(whole.subrange(at, at + part.len()) =~= part);
    assert(stands_at(whole, part, at));
    if contains(text, part) {
        let i = choose|i: int| stands_at(text, part, i);
        let a = text.take(i);
        let b = text.skip(i + part.len());
        assert(text =~= a + part + b);
    }
}

/// A text begins with a prefix exactly where it is the prefix and something more.
pub proof fn law_prefix_is_the_beginning(prefix: Seq<char>, rest: Seq<char>, text: Seq<char>)
    ensures
        starts_with(prefix + rest, prefix),
        (prefix + rest).skip(prefix.len() as int) == rest,
        starts_with(text, prefix) ==> text == prefix + text.skip(prefix.len() as int),
{
    assert((prefix + rest).take(prefix.len() as int) =~= prefix);
    assert((prefix + rest).skip(prefix.len() as int) =~= rest);
    if starts_with(text, prefix) {
        assert(text =~= text.take(prefix.len() as int) + text.skip(prefix.len() as int));
    }
}

/// Texts are ordered by the first character in which they differ, and what a text begins comes
/// behind it.
pub proof fn law_first_difference_orders(
    common: Seq<char>,
    left: char,
    right: char,
    a: Seq<char>,
    b: Seq<char>,
)
    ensures
        left < right ==> before(common.push(left) + a, common.push(right) + b),
        left > right ==> !before(common.push(left) + a, common.push(right) + b),
        before(common, common.push(right) + b),
        !before(common.push(right) + b, common),
    decreases common.len(),
{
    let x = common.push(left) + a;
    let y = common.push(right) + b;
    if common.len() > 0 {
        let rest = common.drop_first();
        law_first_difference_orders(rest, left, right, a, b);
        assert(x.drop_first() =~= rest.push(left) + a);
        assert(y.drop_first() =~= rest.push(right) + b);
        assert(x[0] == common[0] && y[0] == common[0]);
    } else {
        assert(x[0] == left && y[0] == right);
    }
}

/// The numbers of all characters that are white space.
pub open spec fn white_space_numbers() -> Seq<int> {
    seq![
        0x9, 0xa, 0xb, 0xc, 0xd, 0x20, 0x85, 0xa0, 0x1680, 0x2000, 0x2001, 0x2002, 0x2003, 0x2004,
        0x2005, 0x2006, 0x2007, 0x2008, 0x2009, 0x200a, 0x2028, 0x2029, 0x202f, 0x205f, 0x3000,
    ]
}

/// The characters that are white space are these and no others.
pub proof fn law_white_space_is_listed(c: char)
    ensures
        white_space(c) <==> white_space_numbers().contains(c as int),
{
    let all = white_space_numbers();
    assert(all.len() == 25);
    assert(all[0] == 0x9);
    assert(all[1] == 0xa);
    assert(all[2] == 0xb);
    assert(all[3] == 0xc);
    assert(all[4] == 0xd);
    assert(all[5] == 0x20);
    assert(all[6] == 0x85);
    assert(all[7] == 0xa0);
    assert(all[8] == 0x1680);
    assert(all[9] == 0x2000);
    assert(all[10] == 0x2001);
    assert(all[11] == 0x2002);
    assert(all[12] == 0x2003);
    assert(all[13] == 0x2004);
    assert(all[14] == 0x2005);
    assert(all[15] == 0x2006);
    assert(all[16] == 0x2007);
    assert(all[17] == 0x2008);
    assert(all[18] == 0x2009);
    assert(all[19] == 0x200a);
    assert(all[20] == 0x2028);
    assert(all[21] == 0x2029);
    assert(all[22] == 0x202f);
    assert(all[23] == 0x205f);
    assert(all[24] == 0x3000);
}

/// A text with something to read at both ends and white space around it is trimmed to itself.
pub proof fn law_text_between_white_space_is_kept(
    left: Seq<char>,
    text: Seq<char>,
    right: Seq<char>,
)
    requires
        blank(left),
        blank(right),
        text.len() > 0,
        !white_space(text[0]),
        !white_space(text.last()),
    ensures
        trimmed(left + text + right) == text,
{
    let whole = left + text + right;
    law_only_white_space_is_trimmed(whole);
    let (from, to) = choose|from: int, to: int|
        0 <= from <= to <= whole.len() && trimmed(whole) == #[trigger] whole.subrange(from, to) && (
        forall|i: int| 0 <= i < from ==> white_space(#[trigger] whole[i])) && (forall|i: int|
            to <= i < whole.len() ==> white_space(#[trigger] whole[i]));
    let first = left.len() as int;
    let last = first + text.len() - 1;
    assert(whole[first] == text[0]);
    assert(whole[last] == text.last());
    assert(from <= first && last < to);
    assert(trimmed(whole)[0] == whole[from]);
    if from < first {
        assert(whole[from] == left[from]);
        assert(white_space(left[from]));
    }
    assert(trimmed(whole).last() == whole[to - 1]);
    if to - 1 > last {
        assert(whole[to - 1] == right[to - 1 - last - 1]);
        assert(white_space(right[to - 1 - last - 1]));
    }
    assert(whole.subrange(from, to) =~= text);
}

/// The hexadecimal digits are ten digits and six letters, large or small; a small one is a digit
/// or a small letter, and a digit made small is one.
pub proof fn law_hexadecimal_digits(c: char)
    ensures
        hex_digit(c) <==> 0x30 <= c as int <= 0x39 || 0x41 <= c as int <= 0x46 || 0x61 <= c as int
            <= 0x66,
        lower_hex_digit(c) <==> 0x30 <= c as int <= 0x39 || 0x61 <= c as int <= 0x66,
        hex_digit(c) ==> lower_hex_digit(lower(c)),
{
}

} // verus!
