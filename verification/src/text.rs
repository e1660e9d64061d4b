//! Small verified helpers on text and bytes.

use vstd::prelude::*;
use vstd::string::*;
use vstd::std_specs::iter::IteratorSpec;
use vstd::utf8::*;

verus! {

/// Whether `prefix` stands at the start of `s`.
pub open spec fn starts_with_seq<T>(s: Seq<T>, prefix: Seq<T>) -> bool {
    prefix.len() <= s.len() && s.subrange(0, prefix.len() as int) == prefix
}

/// Whether `suffix` stands at the end of `s`.
pub open spec fn ends_with_seq<T>(s: Seq<T>, suffix: Seq<T>) -> bool {
    suffix.len() <= s.len() && s.subrange(s.len() - suffix.len(), s.len() as int) == suffix
}

/// Whether `needle` occurs somewhere in `s` as a contiguous run.
pub open spec fn contains_seq<T>(s: Seq<T>, needle: Seq<T>) -> bool {
    exists|i: int|
        0 <= i && i + needle.len() <= s.len() && #[trigger] s.subrange(i, i + needle.len())
            == needle
}

/// Two byte slices hold the same bytes.
pub fn bytes_eq(a: &[u8], b: &[u8]) -> (r: bool)
    ensures
        r == (a@ == b@),
{
    if a.len() != b.len() {
        return false;
    }
    let mut i: usize = 0;
    while i < a.len()
        invariant
            a.len() == b.len(),
            i <= a.len(),
            forall|j: int| 0 <= j < i ==> a@[j] == b@[j],
        decreases a.len() - i,
    {
        if a[i] != b[i] {
            return false;
        }
        i += 1;
    }
    assert(a@ =~= b@);
    true
}

/// Text is determined by its UTF-8 bytes: different texts have different bytes.
pub proof fn lemma_utf8_injective(a: Seq<char>, b: Seq<char>)
    ensures
        (encode_utf8(a) == encode_utf8(b)) == (a == b),
{
    encode_utf8_decode_utf8(a);
    encode_utf8_decode_utf8(b);
}

/// Two pieces of text are the same text.
pub fn str_eq(a: &str, b: &str) -> (r: bool)
    ensures
        r == (a@ == b@),
{
    proof {
        lemma_utf8_injective(a@, b@);
    }
    bytes_eq(a.as_bytes(), b.as_bytes())
}

/// The text `a` followed by the text `b`.
pub fn concat2(a: &str, b: &str) -> (r: String)
    ensures
        r@ == a@ + b@,
{
    let mut out = String::from_str(a);
    out.append(b);
    out
}

/// Whether `pattern` stands in `text` at the place `at`.
fn stands_at(text: &Vec<char>, pattern: &Vec<char>, at: usize) -> (r: bool)
    ensures
        r == (at + pattern@.len() <= text@.len() && text@.subrange(
            at as int,
            at + pattern@.len(),
        ) == pattern@),
{
    if pattern.len() > text.len() || at > text.len() - pattern.len() {
        return false;
    }
    let mut i: usize = 0;
    while i < pattern.len()
        invariant
            i <= pattern.len(),
            at + pattern.len() <= text.len(),
            forall|j: int| 0 <= j < i ==> text@[at + j] == pattern@[j],
        decreases pattern.len() - i,
    {
        if text[at + i] != pattern[i] {
            assert(text@.subrange(at as int, at + pattern@.len())[i as int] == text@[at + i]);
            return false;
        }
        i += 1;
    }
    assert(text@.subrange(at as int, at + pattern@.len()) =~= pattern@);
    true
}

/// Whether the pattern occurs in the text as a contiguous run of
/// characters.
pub(crate) fn str_contains(text: &str, pattern: &str) -> (r: bool)
    ensures
        r == contains_seq(text@, pattern@),
{
    let all = str_chars(text);
    let wanted = str_chars(pattern);
    if wanted.len() > all.len() {
        return false;
    }
    if wanted.len() == 0 {
        assert(all@.subrange(0int, 0int + wanted@.len()) =~= wanted@);
        return true;
    }
    let last = all.len() - wanted.len();
    let mut at: usize = 0;
    while at <= last
        invariant
            at <= last + 1,
            wanted.len() > 0,
            last + wanted.len() == all.len(),
            all@ == text@,
            wanted@ == pattern@,
            forall|k: int|
                0 <= k < at ==> #[trigger] all@.subrange(k, k + wanted@.len()) != wanted@,
        decreases last + 1 - at,
    {
        if stands_at(&all, &wanted, at) {
            return true;
        }
        at += 1;
    }
    false
}

/// Whether the text begins with the pattern.
pub(crate) fn str_starts_with(text: &str, pattern: &str) -> (r: bool)
    ensures
        r == starts_with_seq(text@, pattern@),
{
    let all = str_chars(text);
    let wanted = str_chars(pattern);
    stands_at(&all, &wanted, 0)
}

/// Whether the text ends with the pattern.
pub(crate) fn str_ends_with(text: &str, pattern: &str) -> (r: bool)
    ensures
        r == ends_with_seq(text@, pattern@),
{
    let all = str_chars(text);
    let wanted = str_chars(pattern);
    if wanted.len() > all.len() {
        return false;
    }
    stands_at(&all, &wanted, all.len() - wanted.len())
}

/// The character of a decimal digit.
pub open spec fn digit_char(d: nat) -> char {
    if d == 0 {
        '0'
    } else if d == 1 {
        '1'
    } else if d == 2 {
        '2'
    } else if d == 3 {
        '3'
    } else if d == 4 {
        '4'
    } else if d == 5 {
        '5'
    } else if d == 6 {
        '6'
    } else if d == 7 {
        '7'
    } else if d == 8 {
        '8'
    } else {
        '9'
    }
}

/// A number written in decimal digits, without leading zeros.
pub open spec fn decimal(n: nat) -> Seq<char>
    decreases n,
{
    if n < 10 {
        seq![digit_char(n)]
    } else {
        decimal(n / 10).push(digit_char(n % 10))
    }
}

/// A decimal digit as text.
fn digit_text(d: usize) -> (r: &'static str)
    requires
        d < 10,
    ensures
        r@ == seq![digit_char(d as nat)],
{
    proof {
        reveal_strlit("0");
        reveal_strlit("1");
        reveal_strlit("2");
        reveal_strlit("3");
        reveal_strlit("4");
        reveal_strlit("5");
        reveal_strlit("6");
        reveal_strlit("7");
        reveal_strlit("8");
        reveal_strlit("9");
    }
    let r = if d == 0 {
        "0"
    } else if d == 1 {
        "1"
    } else if d == 2 {
        "2"
    } else if d == 3 {
        "3"
    } else if d == 4 {
        "4"
    } else if d == 5 {
        "5"
    } else if d == 6 {
        "6"
    } else if d == 7 {
        "7"
    } else if d == 8 {
        "8"
    } else {
        "9"
    };
    assert(r@ =~= seq![digit_char(d as nat)]);
    r
}

/// The digits of `low`, which were taken from a number lowest first, in the
/// order in which they are written.
pub open spec fn written_digits(low: Seq<usize>) -> Seq<char> {
    Seq::new(low.len(), |k: int| digit_char(low[low.len() - 1 - k] as nat))
}

/// A number written in decimal digits.
pub(crate) fn usize_to_text(n: usize) -> (r: String)
    ensures
        r@ == decimal(n as nat),
{
    let mut low: Vec<usize> = Vec::new();
    let mut rest = n;
    proof {
        assert(decimal(rest as nat) + written_digits(low@) =~= decimal(n as nat));
    }
    while rest >= 10
        invariant
            decimal(n as nat) == decimal(rest as nat) + written_digits(low@),
            forall|k: int| 0 <= k < low@.len() ==> #[trigger] low@[k] < 10,
        decreases rest,
    {
        let ghost before = written_digits(low@);
        let ghost taken = low@;
        low.push(rest % 10);
        proof {
            assert(written_digits(low@) =~= seq![digit_char((rest % 10) as nat)] + before) by {
                assert forall|k: int| 0 <= k < low@.len() implies written_digits(low@)[k] == (seq![
                    digit_char((rest % 10) as nat),
                ] + before)[k] by {
                    if k > 0 {
                        assert(low@[low@.len() - 1 - k] == taken[taken.len() - 1 - (k - 1)]);
                    }
                }
            }
            assert(decimal(rest as nat) == decimal((rest / 10) as nat).push(
                digit_char((rest % 10) as nat),
            ));
            assert(decimal((rest / 10) as nat).push(digit_char((rest % 10) as nat)) + before
                =~= decimal((rest / 10) as nat) + (seq![digit_char((rest % 10) as nat)] + before));
        }
        rest = rest / 10;
    }
    let mut text = String::from_str(digit_text(rest));
    let mut i: usize = low.len();
    proof {
        assert(written_digits(low@).take(0) =~= Seq::empty());
        assert(text@ =~= decimal(rest as nat) + written_digits(low@).take(0));
    }
    while i > 0
        invariant
            i <= low.len(),
            forall|k: int| 0 <= k < low@.len() ==> #[trigger] low@[k] < 10,
            text@ == decimal(rest as nat) + written_digits(low@).take(low@.len() - i),
        decreases i,
    {
        let ghost before = text@;
        text.append(digit_text(low[i - 1]));
        proof {
            let done = low@.len() - i;
            assert(written_digits(low@).take(done + 1) =~= written_digits(low@).take(done).push(
                digit_char(low@[i - 1] as nat),
            ));
            assert(text@ =~= decimal(rest as nat) + written_digits(low@).take(done + 1));
        }
        i -= 1;
    }
    proof {
        assert(written_digits(low@).take(low@.len() as int) =~= written_digits(low@));
    }
    text
}

/// The texts of `items` in a row, with `separator` between each two.
pub open spec fn joined(items: Seq<Seq<char>>, separator: Seq<char>) -> Seq<char>
    decreases items.len(),
{
    if items.len() == 0 {
        Seq::empty()
    } else if items.len() == 1 {
        items[0]
    } else {
        joined(items.drop_last(), separator) + separator + items.last()
    }
}

/// The texts of `items` in a row, with `separator` between each two.
pub fn join_texts(items: &Vec<String>, separator: &str) -> (r: String)
    ensures
        r@ == joined(Seq::new(items@.len(), |i: int| items@[i]@), separator@),
{
    let ghost texts = Seq::new(items@.len(), |i: int| items@[i]@);
    let mut out = String::new();
    let mut i: usize = 0;
    proof {
        assert(texts.take(0) =~= Seq::empty());
    }
    while i < items.len()
        invariant
            i <= items.len(),
            texts == Seq::new(items@.len(), |i: int| items@[i]@),
            out@ == joined(texts.take(i as int), separator@),
        decreases items.len() - i,
    {
        proof {
            assert(texts.take(i as int + 1).drop_last() =~= texts.take(i as int));
            assert(texts.take(i as int + 1).last() == items@[i as int]@);
            if i == 0 {
                assert(out@ + items@[0]@ =~= items@[0]@);
            }
        }
        if i > 0 {
            out.append(separator);
        }
        out.append(items[i].as_str());
        i += 1;
    }
    proof {
        assert(texts.take(i as int) =~= texts);
    }
    out
}

/// `separator` stands in `text` at `at`.
pub open spec fn occurs_at<T>(text: Seq<T>, separator: Seq<T>, at: int) -> bool {
    0 <= at && at + separator.len() <= text.len() && text.subrange(at, at + separator.len())
        == separator
}

/// How many of the items `chosen` picks.
pub open spec fn count_where<T>(items: Seq<T>, chosen: spec_fn(T) -> bool) -> nat
    decreases items.len(),
{
    if items.len() == 0 {
        0
    } else {
        count_where(items.drop_last(), chosen) + if chosen(items.last()) {
            1nat
        } else {
            0nat
        }
    }
}

/// One more item: it counts where it is chosen.
pub proof fn lemma_count_step<T>(items: Seq<T>, i: int, chosen: spec_fn(T) -> bool)
    requires
        0 <= i < items.len(),
    ensures
        count_where(items.take(i + 1), chosen) == count_where(items.take(i), chosen) + if chosen(
            items[i],
        ) {
            1nat
        } else {
            0nat
        },
        count_where(items.take(i + 1), chosen) <= i + 1,
    decreases i,
{
    assert(items.take(i + 1).drop_last() =~= items.take(i));
    assert(items.take(i + 1).last() == items[i]);
    if i > 0 {
        lemma_count_step(items, i - 1, chosen);
    } else {
        assert(items.take(0) =~= Seq::empty());
    }
}

/// Whether `chosen` picks one of the items.
pub open spec fn any_where<T>(items: Seq<T>, chosen: spec_fn(T) -> bool) -> bool {
    exists|i: int| 0 <= i < items.len() && chosen(#[trigger] items[i])
}

/// One more item: one is chosen where one was or the new one is.
pub proof fn lemma_any_step<T>(items: Seq<T>, i: int, chosen: spec_fn(T) -> bool)
    requires
        0 <= i < items.len(),
    ensures
        any_where(items.take(i + 1), chosen) == (any_where(items.take(i), chosen) || chosen(
            items[i],
        )),
{
    let before = items.take(i);
    let after = items.take(i + 1);
    assert(after[i] == items[i]);
    if any_where(before, chosen) {
        let j = choose|j: int| 0 <= j < before.len() && chosen(#[trigger] before[j]);
        assert(after[j] == before[j]);
    }
    if any_where(after, chosen) {
        let j = choose|j: int| 0 <= j < after.len() && chosen(#[trigger] after[j]);
        if j < i {
            assert(before[j] == after[j]);
        }
    }
}

/// The characters of a text.
pub(crate) fn str_chars(text: &str) -> (r: Vec<char>)
    ensures
        r@ == text@,
{
    broadcast use {axiom_spec_iter, next_postcondition};

    let mut out: Vec<char> = Vec::new();
    let mut rest = text.chars();
    loop
        invariant
            out@ + rest.remaining() == text@,
            rest.decrease() is Some,
        ensures
            out@ == text@,
        decreases rest.decrease()->0,
    {
        let ghost before = rest.remaining();
        let ghost gathered = out@;
        match rest.next() {
            Some(c) => {
                out.push(c);
                proof {
                    assert(out@ + rest.remaining() =~= gathered + before);
                }
            },
            None => {
                proof {
                    assert(gathered + before =~= gathered);
                }
                break;
            },
        }
    }
    out
}

/// `String::from_iter` on characters: the text that they make.
#[verifier::external_body]
pub(crate) fn string_from_chars(chars: &Vec<char>) -> (r: String)
    ensures
        r@ == chars@,
{
    chars.iter().collect()
}

/// The lines of a text as `str::lines` gives them: the text is cut after
/// each line feed, and a line's ending, a line feed with or without a
/// carriage return before it, is not part of the line.
pub uninterp spec fn lines_of(text: Seq<char>) -> Seq<Seq<char>>;

/// `str::lines`, gathered.
#[verifier::external_body]
pub(crate) fn str_lines(text: &str) -> (r: Vec<String>)
    ensures
        r.deep_view() == lines_of(text@),
{
    text.lines().map(|line| line.to_string()).collect()
}

/// A text without the white space at its start and its end, as `str::trim`
/// gives it; white space is what Unicode calls so.
pub uninterp spec fn trimmed(text: Seq<char>) -> Seq<char>;

/// `str::trim`.
#[verifier::external_body]
pub(crate) fn str_trim(text: &str) -> (r: &str)
    ensures
        r@ == trimmed(text@),
{
    text.trim()
}

/// `text` is `before`, then `separator` where it first stands in `text`, then
/// `after`.
pub open spec fn is_first_split<T>(
    text: Seq<T>,
    separator: Seq<T>,
    before: Seq<T>,
    after: Seq<T>,
) -> bool {
    &&& text == before + separator + after
    &&& forall|earlier: int| 0 <= earlier < before.len() ==> !#[trigger] occurs_at(
        text,
        separator,
        earlier,
    )
}

/// `text` is `before`, then `separator` where it last stands in `text`, then
/// `after`.
pub open spec fn is_last_split<T>(
    text: Seq<T>,
    separator: Seq<T>,
    before: Seq<T>,
    after: Seq<T>,
) -> bool {
    &&& text == before + separator + after
    &&& forall|later: int| before.len() < later ==> !#[trigger] occurs_at(text, separator, later)
}

/// `str::split_once` with a text pattern: the text before and the text after
/// the first place where the pattern stands, or nothing where it stands
/// nowhere.
#[verifier::external_body]
pub(crate) fn str_split_once<'a>(text: &'a str, separator: &str) -> (r: Option<(&'a str, &'a str)>)
    requires
        separator@.len() > 0,
    ensures
        match r {
            Some(parts) => is_first_split(text@, separator@, parts.0@, parts.1@),
            None => !contains_seq(text@, separator@),
        },
{
    text.split_once(separator)
}

/// `str::rsplit_once` with a text pattern: the text before and the text
/// after the last place where the pattern stands, or nothing where it stands
/// nowhere.
#[verifier::external_body]
pub(crate) fn str_rsplit_once<'a>(text: &'a str, separator: &str) -> (r: Option<(&'a str, &'a str)>)
    requires
        separator@.len() > 0,
    ensures
        match r {
            Some(parts) => is_last_split(text@, separator@, parts.0@, parts.1@),
            None => !contains_seq(text@, separator@),
        },
{
    text.rsplit_once(separator)
}

/// The text before and the text after the first place where `separator`
/// stands in `text`, or nothing where it stands nowhere.
pub open spec fn split_first(text: Seq<char>, separator: Seq<char>) -> Option<
    (Seq<char>, Seq<char>),
> {
    if exists|before: Seq<char>, after: Seq<char>|
        is_first_split(text, separator, before, after) {
        let parts = choose|before: Seq<char>, after: Seq<char>|
            is_first_split(text, separator, before, after);
        Some(parts)
    } else {
        None
    }
}

/// The text before and the text after the last place where `separator`
/// stands in `text`, or nothing where it stands nowhere.
pub open spec fn split_last(text: Seq<char>, separator: Seq<char>) -> Option<
    (Seq<char>, Seq<char>),
> {
    if exists|before: Seq<char>, after: Seq<char>|
        is_last_split(text, separator, before, after) {
        let parts = choose|before: Seq<char>, after: Seq<char>|
            is_last_split(text, separator, before, after);
        Some(parts)
    } else {
        None
    }
}

/// The text before the first place where `separator` stands in `text`, or
/// all of `text` where it stands nowhere.
pub open spec fn before_first(text: Seq<char>, separator: Seq<char>) -> Seq<char> {
    match split_first(text, separator) {
        Some(parts) => parts.0,
        None => text,
    }
}

/// The text after the first place where `separator` stands in `text`, or
/// no text where it stands nowhere.
pub open spec fn after_first(text: Seq<char>, separator: Seq<char>) -> Seq<char> {
    match split_first(text, separator) {
        Some(parts) => parts.1,
        None => Seq::empty(),
    }
}

/// The text after the last place where `separator` stands in `text`, or
/// all of `text` where it stands nowhere.
pub open spec fn after_last(text: Seq<char>, separator: Seq<char>) -> Seq<char> {
    match split_last(text, separator) {
        Some(parts) => parts.1,
        None => text,
    }
}

/// Where a text is cut in two around a separator, the separator stands
/// there.
pub proof fn lemma_split_occurs(
    text: Seq<char>,
    separator: Seq<char>,
    before: Seq<char>,
    after: Seq<char>,
)
    requires
        text == before + separator + after,
    ensures
        occurs_at(text, separator, before.len() as int),
        contains_seq(text, separator),
{
    assert(text.subrange(before.len() as int, (before.len() + separator.len()) as int) =~= separator);
}

/// Two cuts of a text at the same place are the same cut.
pub proof fn lemma_same_cut(
    text: Seq<char>,
    separator: Seq<char>,
    b1: Seq<char>,
    a1: Seq<char>,
    b2: Seq<char>,
    a2: Seq<char>,
)
    requires
        text == b1 + separator + a1,
        text == b2 + separator + a2,
        b1.len() == b2.len(),
    ensures
        b1 == b2,
        a1 == a2,
{
    assert(b1 =~= text.subrange(0, b1.len() as int));
    assert(b2 =~= text.subrange(0, b2.len() as int));
    assert(a1 =~= text.subrange((b1.len() + separator.len()) as int, text.len() as int));
    assert(a2 =~= text.subrange((b2.len() + separator.len()) as int, text.len() as int));
}

/// A text has one first place at most where a separator stands.
pub proof fn lemma_first_split_is_one(
    text: Seq<char>,
    separator: Seq<char>,
    before: Seq<char>,
    after: Seq<char>,
)
    requires
        is_first_split(text, separator, before, after),
    ensures
        split_first(text, separator) == Some((before, after)),
{
    let parts = choose|b: Seq<char>, a: Seq<char>| is_first_split(text, separator, b, a);
    lemma_split_occurs(text, separator, before, after);
    lemma_split_occurs(text, separator, parts.0, parts.1);
    if parts.0.len() < before.len() {
        assert(!occurs_at(text, separator, parts.0.len() as int));
    }
    if before.len() < parts.0.len() {
        assert(!occurs_at(text, separator, before.len() as int));
    }
    lemma_same_cut(text, separator, before, after, parts.0, parts.1);
}

/// A text has one last place at most where a separator stands.
pub proof fn lemma_last_split_is_one(
    text: Seq<char>,
    separator: Seq<char>,
    before: Seq<char>,
    after: Seq<char>,
)
    requires
        is_last_split(text, separator, before, after),
    ensures
        split_last(text, separator) == Some((before, after)),
{
    let parts = choose|b: Seq<char>, a: Seq<char>| is_last_split(text, separator, b, a);
    lemma_split_occurs(text, separator, before, after);
    lemma_split_occurs(text, separator, parts.0, parts.1);
    if parts.0.len() < before.len() {
        assert(!occurs_at(text, separator, before.len() as int));
    }
    if before.len() < parts.0.len() {
        assert(!occurs_at(text, separator, parts.0.len() as int));
    }
    lemma_same_cut(text, separator, before, after, parts.0, parts.1);
}

/// The text before and the text after the first place where `separator`
/// stands in `text`.
pub fn split_once<'a>(text: &'a str, separator: &str) -> (r: Option<(&'a str, &'a str)>)
    requires
        separator@.len() > 0,
    ensures
        match r {
            Some(parts) => split_first(text@, separator@) == Some((parts.0@, parts.1@)),
            None => split_first(text@, separator@) is None,
        },
{
    let r = str_split_once(text, separator);
    proof {
        match r {
            Some(parts) => {
                lemma_first_split_is_one(text@, separator@, parts.0@, parts.1@);
            },
            None => {
                if exists|before: Seq<char>, after: Seq<char>|
                    is_first_split(text@, separator@, before, after) {
                    let parts = choose|b: Seq<char>, a: Seq<char>|
                        is_first_split(text@, separator@, b, a);
                    lemma_split_occurs(text@, separator@, parts.0, parts.1);
                }
            },
        }
    }
    r
}

/// The text before and the text after the last place where `separator`
/// stands in `text`.
pub fn rsplit_once<'a>(text: &'a str, separator: &str) -> (r: Option<(&'a str, &'a str)>)
    requires
        separator@.len() > 0,
    ensures
        match r {
            Some(parts) => split_last(text@, separator@) == Some((parts.0@, parts.1@)),
            None => split_last(text@, separator@) is None,
        },
{
    let r = str_rsplit_once(text, separator);
    proof {
        match r {
            Some(parts) => {
                lemma_last_split_is_one(text@, separator@, parts.0@, parts.1@);
            },
            None => {
                if exists|before: Seq<char>, after: Seq<char>|
                    is_last_split(text@, separator@, before, after) {
                    let parts = choose|b: Seq<char>, a: Seq<char>|
                        is_last_split(text@, separator@, b, a);
                    lemma_split_occurs(text@, separator@, parts.0, parts.1);
                }
            },
        }
    }
    r
}

/// The text after the last place where `separator` stands in `text`.
pub fn text_after_last<'a>(text: &'a str, separator: &str) -> (r: &'a str)
    requires
        separator@.len() > 0,
    ensures
        r@ == after_last(text@, separator@),
{
    match rsplit_once(text, separator) {
        Some(parts) => parts.1,
        None => text,
    }
}

/// The pieces of a text between the places where a separator stands, the
/// places taken from left to right without overlap. A text in which the
/// separator stands nowhere is one piece.
pub open spec fn pieces(text: Seq<char>, separator: Seq<char>) -> Seq<Seq<char>>
    decreases text.len(),
    when separator.len() > 0
    via pieces_decreases
{
    match split_first(text, separator) {
        Some(parts) => seq![parts.0] + pieces(parts.1, separator),
        None => seq![text],
    }
}

#[via_fn]
proof fn pieces_decreases(text: Seq<char>, separator: Seq<char>) {
    match split_first(text, separator) {
        Some(parts) => {
            let found = choose|before: Seq<char>, after: Seq<char>|
                is_first_split(text, separator, before, after);
            assert(text.len() == found.0.len() + separator.len() + found.1.len());
        },
        None => {},
    }
}

/// The pieces of a text between the places where a separator stands.
pub fn split_all(text: &str, separator: &str) -> (r: Vec<String>)
    requires
        separator@.len() > 0,
    ensures
        r.deep_view() == pieces(text@, separator@),
{
    let mut out: Vec<String> = Vec::new();
    let mut rest = text;
    proof {
        assert(out.deep_view() + pieces(rest@, separator@) =~= pieces(text@, separator@));
    }
    loop
        invariant
            separator@.len() > 0,
            out.deep_view() + pieces(rest@, separator@) == pieces(text@, separator@),
        decreases rest@.len(),
    {
        let ghost before = out.deep_view();
        let ghost remaining = rest@;
        match split_once(rest, separator) {
            Some(parts) => {
                proof {
                    let found = choose|b: Seq<char>, a: Seq<char>|
                        is_first_split(remaining, separator@, b, a);
                    assert(remaining.len() == found.0.len() + separator@.len() + found.1.len());
                }
                out.push(String::from_str(parts.0));
                rest = parts.1;
                proof {
                    assert(out.deep_view() =~= before.push(parts.0@));
                    assert(out.deep_view() + pieces(rest@, separator@) =~= before + pieces(
                        remaining,
                        separator@,
                    ));
                }
            },
            None => {
                out.push(String::from_str(rest));
                proof {
                    assert(out.deep_view() =~= before + pieces(remaining, separator@));
                }
                return out;
            },
        }
    }
}

/// A text with every place where `from` stands replaced by `to`, the places
/// taken from left to right without overlap.
pub open spec fn replaced(text: Seq<char>, from: Seq<char>, to: Seq<char>) -> Seq<char> {
    joined(pieces(text, from), to)
}

/// A text with every place where `from` stands replaced by `to`.
pub fn replace_all(text: &str, from: &str, to: &str) -> (r: String)
    requires
        from@.len() > 0,
    ensures
        r@ == replaced(text@, from@, to@),
{
    let parts = split_all(text, from);
    let r = join_texts(&parts, to);
    proof {
        assert(Seq::new(parts@.len(), |i: int| parts@[i]@) =~= parts.deep_view());
    }
    r
}

/// The upper-case form that `str::to_uppercase` gives a text, by the rules
/// of Unicode.
pub uninterp spec fn uppercase(text: Seq<char>) -> Seq<char>;

/// `str::to_uppercase`: the upper-case form of the text.
#[verifier::external_body]
pub(crate) fn str_to_uppercase(text: &str) -> (r: String)
    ensures
        r@ == uppercase(text@),
{
    text.to_uppercase()
}

/// The words of a text as `str::split_whitespace` gives them: the runs of
/// characters between white space, white space being what Unicode calls so.
pub uninterp spec fn words_of(text: Seq<char>) -> Seq<Seq<char>>;

/// `str::split_whitespace`, gathered.
#[verifier::external_body]
pub(crate) fn str_words(text: &str) -> (r: Vec<String>)
    ensures
        r.deep_view() == words_of(text@),
{
    text.split_whitespace().map(|word| word.to_string()).collect()
}

/// A text without the run of `c` at its start.
pub open spec fn without_leading(text: Seq<char>, c: char) -> Seq<char>
    decreases text.len(),
{
    if text.len() > 0 && text[0] == c {
        without_leading(text.drop_first(), c)
    } else {
        text
    }
}

/// A text without the run of `c` at its end.
pub open spec fn without_trailing(text: Seq<char>, c: char) -> Seq<char>
    decreases text.len(),
{
    if text.len() > 0 && text.last() == c {
        without_trailing(text.drop_last(), c)
    } else {
        text
    }
}

/// The text without the runs of a character at its start and at its end.
pub(crate) fn str_trim_matches(text: &str, c: char) -> (r: &str)
    ensures
        r@ == without_trailing(without_leading(text@, c), c),
{
    let all = str_chars(text);
    let mut from: usize = 0;
    proof {
        assert(all@.skip(0) =~= all@);
    }
    while from < all.len() && all[from] == c
        invariant
            from <= all.len(),
            without_leading(all@, c) == without_leading(all@.skip(from as int), c),
        decreases all.len() - from,
    {
        proof {
            assert(all@.skip(from as int)[0] == all@[from as int]);
            assert(all@.skip(from as int).drop_first() =~= all@.skip(from as int + 1));
        }
        from += 1;
    }
    proof {
        if from < all.len() {
            assert(all@.skip(from as int)[0] == all@[from as int]);
        }
        assert(without_leading(all@, c) == all@.skip(from as int));
        assert(all@.skip(from as int) =~= all@.subrange(from as int, all@.len() as int));
    }
    let mut to: usize = all.len();
    while to > from && all[to - 1] == c
        invariant
            from <= to <= all.len(),
            without_trailing(all@.subrange(from as int, all@.len() as int), c) == without_trailing(
                all@.subrange(from as int, to as int),
                c,
            ),
        decreases to,
    {
        proof {
            assert(all@.subrange(from as int, to as int).last() == all@[to - 1]);
            assert(all@.subrange(from as int, to as int).drop_last() =~= all@.subrange(
                from as int,
                to - 1,
            ));
        }
        to -= 1;
    }
    proof {
        if to > from {
            assert(all@.subrange(from as int, to as int).last() == all@[to - 1]);
        }
        assert(without_trailing(all@.subrange(from as int, to as int), c) == all@.subrange(
            from as int,
            to as int,
        ));
    }
    text.substring_char(from, to)
}

/// Whether a character is an upper-case letter by the rules of Unicode, as
/// `char::is_uppercase` tells.
pub uninterp spec fn is_uppercase(c: char) -> bool;

/// `char::is_uppercase`.
#[verifier::external_body]
pub(crate) fn char_is_uppercase(c: char) -> (r: bool)
    ensures
        r == is_uppercase(c),
{
    c.is_uppercase()
}

/// The lower-case form that `str::to_lowercase` gives a text, by the rules
/// of Unicode.
pub uninterp spec fn lowercase(text: Seq<char>) -> Seq<char>;

/// `str::to_lowercase`: the lower-case form of the text.
#[verifier::external_body]
pub(crate) fn str_to_lowercase(text: &str) -> (r: String)
    ensures
        r@ == lowercase(text@),
{
    text.to_lowercase()
}

/// The text that `String::from_utf8_lossy` reads from bytes: their text where
/// they are UTF-8, and else a text in which each ill-formed run is replaced.
pub uninterp spec fn lossy_text(bytes: Seq<u8>) -> Seq<char>;

/// `String::from_utf8_lossy`, copied into a `String`. Well-formed UTF-8 is
/// read as the text it encodes.
#[verifier::external_body]
pub(crate) fn text_from_utf8_lossy(bytes: &[u8]) -> (r: String)
    ensures
        r@ == lossy_text(bytes@),
        vstd::utf8::valid_utf8(bytes@) ==> r@ == vstd::utf8::decode_utf8(bytes@),
{
    String::from_utf8_lossy(bytes).into_owned()
}

} // verus!
