//! Text primitives. Every function is stated over the character sequence that a
//! string views as, so the rest of the crate can reason about strings without
//! looking at their bytes.

use vstd::prelude::*;
use vstd::string::StrSliceExecFns;
use vstd::string::StringExecFns;

verus! {

broadcast use vstd::string::group_string_axioms;

/// `String::push`: appends the given `char` to the end of the string.
pub assume_specification[ String::push ](s: &mut String, c: char)
    ensures
        final(s)@ == old(s)@.push(c),
;

// ── Models ──────────────────────────────────────────────────────

/// The Unicode `White_Space` property.
pub open spec fn is_white(c: char) -> bool {
    ||| '\u{9}' <= c <= '\u{d}'
    ||| c == ' '
    ||| c == '\u{85}'
    ||| c == '\u{a0}'
    ||| c == '\u{1680}'
    ||| '\u{2000}' <= c <= '\u{200a}'
    ||| c == '\u{2028}'
    ||| c == '\u{2029}'
    ||| c == '\u{202f}'
    ||| c == '\u{205f}'
    ||| c == '\u{3000}'
}

/// `s` without its leading white space.
pub open spec fn trim_left(s: Seq<char>) -> Seq<char>
    decreases s.len(),
{
    if s.len() > 0 && is_white(s[0]) {
        trim_left(s.drop_first())
    } else {
        s
    }
}

/// `s` without its trailing white space.
pub open spec fn trim_right(s: Seq<char>) -> Seq<char>
    decreases s.len(),
{
    if s.len() > 0 && is_white(s.last()) {
        trim_right(s.drop_last())
    } else {
        s
    }
}

/// `s` without leading and trailing white space.
pub open spec fn trimmed(s: Seq<char>) -> Seq<char> {
    trim_right(trim_left(s))
}

/// The ASCII lower case of one character; other characters stay as they are.
pub open spec fn lower_char(c: char) -> char {
    if 'A' <= c <= 'Z' {
        ((c as u8) + 32) as char
    } else {
        c
    }
}

/// `s` with its ASCII letters in lower case.
pub open spec fn lowered(s: Seq<char>) -> Seq<char> {
    s.map_values(|c: char| lower_char(c))
}

/// `needle` occurs in `hay` as a contiguous run.
pub open spec fn occurs_in(needle: Seq<char>, hay: Seq<char>) -> bool {
    exists|i: int| occurs_at(needle, hay, i)
}

/// `needle` stands in `hay` at position `i`.
pub open spec fn occurs_at(needle: Seq<char>, hay: Seq<char>, i: int) -> bool {
    0 <= i && i + needle.len() <= hay.len() && hay.subrange(i, i + needle.len() as int) == needle
}

/// The pieces of `s` between the separators; always at least one piece.
pub open spec fn pieces(s: Seq<char>, sep: char) -> Seq<Seq<char>>
    decreases s.len(),
{
    if s.len() == 0 {
        seq![s]
    } else {
        let before = pieces(s.drop_last(), sep);
        if s.last() == sep {
            before.push(Seq::<char>::empty())
        } else {
            before.drop_last().push(before.last().push(s.last()))
        }
    }
}

/// `parts` put together with `sep` between neighbours.
pub open spec fn joined(parts: Seq<Seq<char>>, sep: Seq<char>) -> Seq<char>
    decreases parts.len(),
{
    if parts.len() == 0 {
        Seq::empty()
    } else if parts.len() == 1 {
        parts[0]
    } else {
        joined(parts.drop_last(), sep) + sep + parts.last()
    }
}

/// The decimal digit of a number below ten.
pub open spec fn digit(n: nat) -> char {
    (('0' as u8) + n) as char
}

/// The decimal notation of a natural number.
pub open spec fn decimal(n: nat) -> Seq<char>
    decreases n,
{
    if n < 10 {
        seq![digit(n)]
    } else {
        decimal(n / 10).push(digit(n % 10))
    }
}

/// The character is one of `0` to `9`.
pub open spec fn is_digit(c: char) -> bool {
    '0' <= c <= '9'
}

/// Every character is a digit.
pub open spec fn all_digits(s: Seq<char>) -> bool {
    forall|i: int| 0 <= i < s.len() ==> is_digit(#[trigger] s[i])
}

/// The number that a row of digits denotes.
pub open spec fn digits_value(s: Seq<char>) -> nat
    decreases s.len(),
{
    if s.len() == 0 {
        0
    } else {
        digits_value(s.drop_last()) * 10 + ((s.last() as u8) - ('0' as u8)) as nat
    }
}

/// The unsigned number that `s` denotes: digits, with at most one leading plus.
pub open spec fn unsigned_value(s: Seq<char>) -> Option<nat> {
    let body = if s.len() > 0 && s[0] == '+' {
        s.drop_first()
    } else {
        s
    };
    if body.len() > 0 && all_digits(body) {
        Some(digits_value(body))
    } else {
        None
    }
}

/// The views of a row of strings.
pub open spec fn views(v: Seq<String>) -> Seq<Seq<char>> {
    v.map_values(|s: String| s@)
}

/// The view of an optional string.
pub open spec fn opt_view(o: Option<String>) -> Option<Seq<char>> {
    match o {
        Some(s) => Some(s@),
        None => None,
    }
}

/// The view of an optional borrowed string.
pub open spec fn opt_str_view(o: Option<&str>) -> Option<Seq<char>> {
    match o {
        Some(s) => Some(s@),
        None => None,
    }
}

/// The view of an outcome whose error is a message.
pub open spec fn outcome_view<T>(r: Result<T, String>) -> Result<T, Seq<char>> {
    match r {
        Ok(v) => Ok(v),
        Err(e) => Err(e@),
    }
}

/// `key` stands at position `i`, and nowhere before it.
pub open spec fn is_first(keys: Seq<Seq<char>>, key: Seq<char>, i: int) -> bool {
    0 <= i < keys.len() && keys[i] == key && forall|j: int| 0 <= j < i ==> #[trigger] keys[j] != key
}

/// The first position of `key`.
pub open spec fn first_at(keys: Seq<Seq<char>>, key: Seq<char>) -> Option<int> {
    if exists|i: int| is_first(keys, key, i) {
        Some(choose|i: int| is_first(keys, key, i))
    } else {
        None
    }
}

// ── Laws ────────────────────────────────────────────────────────

/// There is one first position at most.
pub proof fn lemma_first_at(keys: Seq<Seq<char>>, key: Seq<char>, i: int)
    requires
        is_first(keys, key, i),
    ensures
        first_at(keys, key) == Some(i),
{
    let j = choose|j: int| is_first(keys, key, j);
    assert(is_first(keys, key, j));
    if i < j {
        assert(keys[i] != key);
    } else if j < i {
        assert(keys[j] != key);
    }
}

/// A key that stands somewhere has a first position.
pub proof fn lemma_first_exists(keys: Seq<Seq<char>>, key: Seq<char>)
    ensures
        first_at(keys, key) is Some <==> keys.contains(key),
        first_at(keys, key) matches Some(i) ==> is_first(keys, key, i),
{
    if keys.contains(key) {
        let i = choose|i: int| 0 <= i < keys.len() && keys[i] == key;
        lemma_first_below(keys, key, i);
    }
    if exists|i: int| is_first(keys, key, i) {
        let i = choose|i: int| is_first(keys, key, i);
        assert(keys[i] == key);
    }
}

proof fn lemma_first_below(keys: Seq<Seq<char>>, key: Seq<char>, i: int)
    requires
        0 <= i < keys.len(),
        keys[i] == key,
    ensures
        exists|j: int| is_first(keys, key, j),
    decreases i,
{
    if forall|j: int| 0 <= j < i ==> #[trigger] keys[j] != key {
        assert(is_first(keys, key, i));
    } else {
        let j = choose|j: int| 0 <= j < i && #[trigger] keys[j] == key;
        lemma_first_below(keys, key, j);
    }
}

/// Removing white space on the left never cuts a text whose first character stays.
proof fn lemma_trim_left_head(s: Seq<char>)
    ensures
        trim_left(s).len() <= s.len(),
        trim_left(s).len() > 0 ==> !is_white(trim_left(s)[0]),
        trim_left(s) == s.skip(s.len() - trim_left(s).len()),
        forall|i: int| 0 <= i < s.len() - trim_left(s).len() ==> is_white(#[trigger] s[i]),
    decreases s.len(),
{
    if s.len() > 0 && is_white(s[0]) {
        lemma_trim_left_head(s.drop_first());
        let t = trim_left(s);
        assert(t =~= s.skip(s.len() - t.len()));
        assert forall|i: int| 0 <= i < s.len() - t.len() implies is_white(#[trigger] s[i]) by {
            if i > 0 {
                assert(s[i] == s.drop_first()[i - 1]);
            }
        }
    } else {
        assert(s =~= s.skip(0));
    }
}

proof fn lemma_trim_right_tail(s: Seq<char>)
    ensures
        trim_right(s).len() <= s.len(),
        trim_right(s).len() > 0 ==> !is_white(trim_right(s).last()),
        trim_right(s) == s.take(trim_right(s).len() as int),
        forall|i: int| trim_right(s).len() <= i < s.len() ==> is_white(#[trigger] s[i]),
    decreases s.len(),
{
    if s.len() > 0 && is_white(s.last()) {
        lemma_trim_right_tail(s.drop_last());
        assert(trim_right(s) =~= s.take(trim_right(s).len() as int));
        assert forall|i: int| trim_right(s).len() <= i < s.len() implies is_white(
            #[trigger] s[i],
        ) by {
            if i < s.len() - 1 {
                assert(s[i] == s.drop_last()[i]);
            }
        }
    } else {
        assert(s =~= s.take(s.len() as int));
    }
}

/// What is left after trimming starts and ends with a character that is no
/// white space, and trimming it again changes nothing.
pub proof fn trimmed_text_is_stable(s: Seq<char>)
    ensures
        trimmed(trimmed(s)) == trimmed(s),
        trimmed(s).len() > 0 ==> !is_white(trimmed(s)[0]) && !is_white(trimmed(s).last()),
{
    lemma_trim_left_head(s);
    let t = trim_left(s);
    lemma_trim_right_tail(t);
    let u = trim_right(t);
    if u.len() > 0 {
        assert(u[0] == t[0]);
    }
    assert(trim_left(u) == u);
    assert(trim_right(u) == u);
}

/// A text with no character but white space trims to nothing, and any other
/// text does not.
pub proof fn trimmed_is_empty_iff_blank(s: Seq<char>)
    ensures
        trimmed(s).len() == 0 <==> (forall|i: int| 0 <= i < s.len() ==> is_white(#[trigger] s[i])),
{
    lemma_trim_left_head(s);
    let t = trim_left(s);
    lemma_trim_right_tail(t);
    if trimmed(s).len() == 0 {
        assert forall|i: int| 0 <= i < s.len() implies is_white(#[trigger] s[i]) by {
            if i >= s.len() - t.len() {
                assert(s[i] == t[i - (s.len() - t.len())]);
            }
        }
    } else {
        assert(t[0] == s[s.len() - t.len()]);
    }
}

/// Splitting always gives at least one piece.
pub proof fn lemma_pieces_nonempty(s: Seq<char>, sep: char)
    ensures
        pieces(s, sep).len() >= 1,
    decreases s.len(),
{
    if s.len() > 0 {
        lemma_pieces_nonempty(s.drop_last(), sep);
    }
}

/// Joining the pieces of a text with the separator gives the text back, and no
/// piece holds the separator.
pub proof fn pieces_join_back(s: Seq<char>, sep: char)
    ensures
        joined(pieces(s, sep), seq![sep]) == s,
        forall|i: int|
            0 <= i < pieces(s, sep).len() ==> !(#[trigger] pieces(s, sep)[i]).contains(sep),
    decreases s.len(),
{
    if s.len() == 0 {
        assert(joined(pieces(s, sep), seq![sep]) =~= s);
    } else {
        let before = pieces(s.drop_last(), sep);
        pieces_join_back(s.drop_last(), sep);
        lemma_pieces_nonempty(s.drop_last(), sep);
        let now = pieces(s, sep);
        if s.last() == sep {
            assert(now.drop_last() =~= before);
            assert(joined(now, seq![sep]) =~= s);
        } else {
            assert(now.drop_last() =~= before.drop_last());
            assert(now.last() =~= before.last().push(s.last()));
            let head = joined(before.drop_last(), seq![sep]);
            if before.len() > 1 {
                assert(joined(before, seq![sep]) == head + seq![sep] + before.last());
                assert(joined(now, seq![sep]) == head + seq![sep] + now.last());
            }
            assert(joined(now, seq![sep]) =~= joined(before, seq![sep]).push(s.last()));
            assert(joined(now, seq![sep]) =~= s);
            assert forall|i: int| 0 <= i < now.len() implies !(#[trigger] now[i]).contains(sep) by {
                if i < now.len() - 1 {
                    assert(now[i] == before[i]);
                } else {
                    assert(!before[before.len() - 1].contains(sep));
                    let p = before.last();
                    if now[i].contains(sep) {
                        let k = choose|k: int| 0 <= k < now[i].len() && now[i][k] == sep;
                        assert(p.push(s.last())[k] == sep);
                        assert(p[k] == sep);
                    }
                }
            }
        }
    }
}

proof fn lemma_decimal_digits(n: nat)
    ensures
        decimal(n).len() > 0,
        all_digits(decimal(n)),
        digits_value(decimal(n)) == n,
    decreases n,
{
    if n < 10 {
        assert(decimal(n).drop_last() =~= Seq::<char>::empty());
        assert(digits_value(decimal(n).drop_last()) == 0);
    } else {
        lemma_decimal_digits(n / 10);
        assert(decimal(n).drop_last() =~= decimal(n / 10));
    }
}

/// Reading back the decimal notation of a number gives the number.
pub proof fn decimal_reads_back(n: nat)
    ensures
        unsigned_value(decimal(n)) == Some(n),
{
    lemma_decimal_digits(n);
    assert(is_digit(decimal(n)[0]));
}

// ── Conversions ─────────────────────────────────────────────────

/// The characters of a string.
pub fn chars_of(s: &str) -> (r: Vec<char>)
    ensures
        r@ == s@,
{
    let mut out: Vec<char> = Vec::new();
    for c in it: s.chars()
        invariant
            out@ == s@.take(it.index() as int),
            it.seq() == s@,
    {
        out.push(c);
    }
    out
}

/// A copy of an optional string.
pub fn owned(s: Option<&str>) -> (r: Option<String>)
    ensures
        opt_view(r) == opt_str_view(s),
{
    match s {
        Some(s) => Some(s.to_owned()),
        None => None,
    }
}

/// The number of bytes of a string.
pub fn byte_len(s: &str) -> (r: usize)
    ensures
        r == bytes_of(s@),
{
    s.as_bytes().len()
}

/// The number of bytes of a text in UTF-8.
pub open spec fn bytes_of(s: Seq<char>) -> nat {
    vstd::utf8::encode_utf8(s).len()
}

/// A copy of a row of strings.
pub fn copy_strings(list: &Vec<String>) -> (r: Vec<String>)
    ensures
        views(r@) == views(list@),
        r@.len() == list@.len(),
{
    let mut out: Vec<String> = Vec::new();
    let mut i: usize = 0;
    while i < list.len()
        invariant
            i <= list@.len(),
            views(out@) == views(list@).take(i as int),
        decreases list@.len() - i,
    {
        let ghost before = views(out@);
        out.push(list[i].clone());
        i += 1;
        assert(views(out@) =~= before.push(list@[i - 1]@));
        assert(views(out@) =~= views(list@).take(i as int));
    }
    assert(views(list@).take(i as int) =~= views(list@));
    assert(views(out@).len() == out@.len());
    out
}

/// The string made of the characters from `from` up to `to`.
pub fn string_of(chars: &Vec<char>, from: usize, to: usize) -> (r: String)
    requires
        from <= to <= chars@.len(),
    ensures
        r@ == chars@.subrange(from as int, to as int),
{
    let mut out = String::new();
    let mut i: usize = from;
    while i < to
        invariant
            from <= i <= to <= chars@.len(),
            out@ == chars@.subrange(from as int, i as int),
        decreases to - i,
    {
        out.push(chars[i]);
        i += 1;
        assert(chars@.subrange(from as int, i as int) =~= chars@.subrange(from as int, i - 1).push(
            chars@[i - 1],
        ));
    }
    out
}

/// The two strings put together.
pub fn concat(a: &str, b: &str) -> (r: String)
    ensures
        r@ == a@ + b@,
{
    let mut out = a.to_owned();
    out.append(b);
    out
}

/// The three strings put together.
pub fn concat3(a: &str, b: &str, c: &str) -> (r: String)
    ensures
        r@ == a@ + b@ + c@,
{
    let mut out = a.to_owned();
    out.append(b);
    out.append(c);
    out
}

// ── Comparison and search ───────────────────────────────────────

/// The two strings hold the same characters.
pub fn same(a: &str, b: &str) -> (r: bool)
    ensures
        r == (a@ == b@),
{
    let x = chars_of(a);
    let y = chars_of(b);
    if x.len() != y.len() {
        return false;
    }
    let mut i: usize = 0;
    while i < x.len()
        invariant
            x@ == a@,
            y@ == b@,
            x@.len() == y@.len(),
            i <= x@.len(),
            forall|j: int| 0 <= j < i ==> x@[j] == y@[j],
        decreases x@.len() - i,
    {
        if x[i] != y[i] {
            assert(a@[i as int] != b@[i as int]);
            return false;
        }
        i += 1;
    }
    assert(a@ =~= b@);
    true
}

/// The string is in the list.
pub fn listed(list: &Vec<String>, s: &str) -> (r: bool)
    ensures
        r == views(list@).contains(s@),
{
    let mut i: usize = 0;
    while i < list.len()
        invariant
            i <= list@.len(),
            forall|j: int| 0 <= j < i ==> (#[trigger] list@[j])@ != s@,
        decreases list@.len() - i,
    {
        if same(list[i].as_str(), s) {
            assert(views(list@)[i as int] == s@);
            return true;
        }
        i += 1;
    }
    assert forall|j: int| 0 <= j < views(list@).len() implies views(list@)[j] != s@ by {
        assert(list@[j]@ != s@);
    }
    false
}

/// `chars` holds `needle` at position `at`.
fn stands_at(chars: &Vec<char>, needle: &Vec<char>, at: usize) -> (r: bool)
    ensures
        r == occurs_at(needle@, chars@, at as int),
{
    if needle.len() > chars.len() || at > chars.len() - needle.len() {
        return false;
    }
    let mut i: usize = 0;
    while i < needle.len()
        invariant
            i <= needle@.len(),
            at + needle.len() <= chars.len(),
            forall|j: int| 0 <= j < i ==> chars@[at + j] == needle@[j],
        decreases needle@.len() - i,
    {
        if chars[at + i] != needle[i] {
            assert(chars@.subrange(at as int, at + needle@.len() as int)[i as int]
                != needle@[i as int]);
            return false;
        }
        i += 1;
    }
    assert(chars@.subrange(at as int, at + needle@.len() as int) =~= needle@);
    true
}

/// `s` starts with `prefix`.
pub fn has_prefix(s: &str, prefix: &str) -> (r: bool)
    ensures
        r == prefix@.is_prefix_of(s@),
{
    let r = stands_at(&chars_of(s), &chars_of(prefix), 0);
    assert(prefix@.len() <= s@.len() ==> s@.subrange(0, prefix@.len() as int) =~= s@.take(
        prefix@.len() as int,
    ));
    r
}

/// `hay` holds `needle` somewhere.
pub fn contains(hay: &str, needle: &str) -> (r: bool)
    ensures
        r == occurs_in(needle@, hay@),
{
    let h = chars_of(hay);
    let n = chars_of(needle);
    if n.len() > h.len() {
        return false;
    }
    let last: usize = h.len() - n.len();
    let mut i: usize = 0;
    loop
        invariant
            h@ == hay@,
            n@ == needle@,
            n@.len() <= h@.len(),
            last == h@.len() - n@.len(),
            i <= last,
            forall|j: int| 0 <= j < i ==> !occurs_at(n@, h@, j),
        decreases last - i,
    {
        if stands_at(&h, &n, i) {
            assert(occurs_at(needle@, hay@, i as int));
            return true;
        }
        if i == last {
            assert forall|j: int| !occurs_at(n@, h@, j) by {
                if j > last {
                    assert(j + n@.len() > h@.len());
                }
            }
            return false;
        }
        i += 1;
    }
}

/// `s` holds the character.
pub fn contains_char(s: &str, c: char) -> (r: bool)
    ensures
        r == s@.contains(c),
{
    let chars = chars_of(s);
    let mut i: usize = 0;
    while i < chars.len()
        invariant
            chars@ == s@,
            i <= chars@.len(),
            forall|j: int| 0 <= j < i ==> chars@[j] != c,
        decreases chars@.len() - i,
    {
        if chars[i] == c {
            return true;
        }
        i += 1;
    }
    false
}

/// `s` cut at the first separator: what stands before it, and what stands after it.
pub open spec fn cut_once(s: Seq<char>, sep: char) -> Option<(Seq<char>, Seq<char>)>
    decreases s.len(),
{
    if s.len() == 0 {
        None
    } else if s[0] == sep {
        Some((Seq::empty(), s.drop_first()))
    } else {
        match cut_once(s.drop_first(), sep) {
            Some((head, tail)) => Some((seq![s[0]] + head, tail)),
            None => None,
        }
    }
}

proof fn lemma_cut_once(s: Seq<char>, sep: char, i: int)
    requires
        0 <= i <= s.len(),
        forall|j: int| 0 <= j < i ==> s[j] != sep,
        i < s.len() ==> s[i] == sep,
    ensures
        cut_once(s, sep) == (if i < s.len() {
            Some((s.take(i), s.skip(i + 1)))
        } else {
            None
        }),
    decreases i,
{
    if s.len() == 0 {
    } else if i == 0 {
        assert(s.take(0) =~= Seq::<char>::empty());
        assert(s.skip(1) =~= s.drop_first());
    } else {
        lemma_cut_once(s.drop_first(), sep, i - 1);
        assert(s.drop_first().take(i - 1) =~= s.subrange(1, i));
        assert(seq![s[0]] + s.subrange(1, i) =~= s.take(i));
        if i < s.len() {
            assert(s.drop_first().skip(i) =~= s.skip(i + 1));
        }
    }
}

/// `s` cut at the first separator.
pub fn split_once<'a>(s: &'a str, sep: char) -> (r: Option<(&'a str, &'a str)>)
    ensures
        match r {
            Some((head, tail)) => cut_once(s@, sep) == Some((head@, tail@)),
            None => cut_once(s@, sep) is None,
        },
{
    let chars = chars_of(s);
    let mut i: usize = 0;
    while i < chars.len()
        invariant
            chars@ == s@,
            i <= chars@.len(),
            forall|j: int| 0 <= j < i ==> s@[j] != sep,
        decreases chars@.len() - i,
    {
        if chars[i] == sep {
            proof {
                lemma_cut_once(s@, sep, i as int);
                assert(s@.subrange(0, i as int) =~= s@.take(i as int));
                assert(s@.subrange(i + 1, s@.len() as int) =~= s@.skip(i + 1));
            }
            return Some((s.substring_char(0, i), s.substring_char(i + 1, chars.len())));
        }
        i += 1;
    }
    proof {
        lemma_cut_once(s@, sep, i as int);
    }
    None
}

/// What follows the prefix.
pub open spec fn after_prefix(s: Seq<char>, prefix: Seq<char>) -> Option<Seq<char>> {
    if prefix.is_prefix_of(s) {
        Some(s.skip(prefix.len() as int))
    } else {
        None
    }
}

/// What follows the prefix.
pub fn strip_prefix<'a>(s: &'a str, prefix: &str) -> (r: Option<&'a str>)
    ensures
        opt_str_view(r) == after_prefix(s@, prefix@),
{
    if has_prefix(s, prefix) {
        let from: usize = prefix.unicode_len();
        let to: usize = s.unicode_len();
        assert(s@.subrange(from as int, to as int) =~= s@.skip(from as int));
        Some(s.substring_char(from, to))
    } else {
        None
    }
}

/// `a` stands before `b` in the order of their characters.
pub open spec fn before(a: Seq<char>, b: Seq<char>) -> bool
    decreases b.len(),
{
    if b.len() == 0 {
        false
    } else if a.len() == 0 {
        true
    } else {
        a[0] < b[0] || (a[0] == b[0] && before(a.drop_first(), b.drop_first()))
    }
}

proof fn lemma_not_before_itself(a: Seq<char>)
    ensures
        !before(a, a),
    decreases a.len(),
{
    if a.len() > 0 {
        lemma_not_before_itself(a.drop_first());
    }
}

/// Of two different texts, exactly one stands before the other; none stands before
/// itself.
pub proof fn texts_are_ordered(a: Seq<char>, b: Seq<char>)
    ensures
        a != b ==> (before(a, b) <==> !before(b, a)),
        !before(a, a),
    decreases a.len(),
{
    lemma_not_before_itself(a);
    if a.len() > 0 && b.len() > 0 {
        texts_are_ordered(a.drop_first(), b.drop_first());
        if a[0] == b[0] && a.drop_first() == b.drop_first() {
            assert(a =~= seq![a[0]] + a.drop_first());
            assert(b =~= seq![b[0]] + b.drop_first());
        }
    } else if a.len() == 0 && b.len() == 0 {
        assert(a =~= b);
    }
}

/// What stands before a text stands before whatever that stands before.
pub proof fn order_is_transitive(a: Seq<char>, b: Seq<char>, c: Seq<char>)
    requires
        before(a, b),
        before(b, c),
    ensures
        before(a, c),
    decreases a.len(),
{
    if a.len() > 0 {
        if a[0] == b[0] && b[0] == c[0] {
            order_is_transitive(a.drop_first(), b.drop_first(), c.drop_first());
        }
    }
}

proof fn lemma_before_skip(a: Seq<char>, b: Seq<char>, n: int)
    requires
        0 <= n <= a.len(),
        n <= b.len(),
        a.take(n) == b.take(n),
    ensures
        before(a, b) == before(a.skip(n), b.skip(n)),
    decreases n,
{
    if n == 0 {
        assert(a.skip(0) =~= a);
        assert(b.skip(0) =~= b);
    } else {
        assert(a.take(n)[0] == a[0] && b.take(n)[0] == b[0]);
        assert(a.drop_first().take(n - 1) =~= a.take(n).drop_first());
        assert(b.drop_first().take(n - 1) =~= b.take(n).drop_first());
        lemma_before_skip(a.drop_first(), b.drop_first(), n - 1);
        assert(a.drop_first().skip(n - 1) =~= a.skip(n));
        assert(b.drop_first().skip(n - 1) =~= b.skip(n));
    }
}

/// `a` stands before `b`.
pub fn is_before(a: &str, b: &str) -> (r: bool)
    ensures
        r == before(a@, b@),
{
    let x = chars_of(a);
    let y = chars_of(b);
    let mut i: usize = 0;
    while i < x.len() && i < y.len() && x[i] == y[i]
        invariant
            x@ == a@,
            y@ == b@,
            i <= x@.len(),
            i <= y@.len(),
            a@.take(i as int) == b@.take(i as int),
        decreases x@.len() - i,
    {
        assert(a@.take(i + 1) =~= a@.take(i as int).push(a@[i as int]));
        assert(b@.take(i + 1) =~= b@.take(i as int).push(b@[i as int]));
        i += 1;
    }
    proof {
        lemma_before_skip(a@, b@, i as int);
    }
    if i >= y.len() {
        false
    } else if i >= x.len() {
        true
    } else {
        x[i] < y[i]
    }
}

// ── Trimming and case ───────────────────────────────────────────

/// The Unicode `White_Space` property.
pub fn white(c: char) -> (r: bool)
    ensures
        r == is_white(c),
{
    ('\u{9}' <= c && c <= '\u{d}') || c == ' ' || c == '\u{85}' || c == '\u{a0}' || c == '\u{1680}'
        || ('\u{2000}' <= c && c <= '\u{200a}') || c == '\u{2028}' || c == '\u{2029}' || c
        == '\u{202f}' || c == '\u{205f}' || c == '\u{3000}'
}

/// `s` without leading and trailing white space.
pub fn trim<'a>(s: &'a str) -> (r: &'a str)
    ensures
        r@ == trimmed(s@),
{
    let chars = chars_of(s);
    let mut from: usize = 0;
    assert(s@.skip(0) =~= s@);
    while from < chars.len() && white(chars[from])
        invariant
            chars@ == s@,
            from <= chars@.len(),
            trim_left(s@.skip(from as int)) == trim_left(s@),
        decreases chars@.len() - from,
    {
        assert(s@.skip(from as int).drop_first() =~= s@.skip(from + 1));
        from += 1;
    }
    let ghost left = s@.skip(from as int);
    assert(trim_left(left) == left);
    let mut to: usize = chars.len();
    assert(left.take(left.len() as int) =~= left);
    while to > from && white(chars[to - 1])
        invariant
            chars@ == s@,
            from <= to <= chars@.len(),
            left == s@.skip(from as int),
            trim_right(left.take(to - from)) == trim_right(left),
        decreases to,
    {
        assert(left.take(to - from).drop_last() =~= left.take(to - 1 - from));
        to -= 1;
    }
    assert(s@.subrange(from as int, to as int) =~= left.take(to - from));
    s.substring_char(from, to)
}

/// `s` trims to nothing.
pub fn is_blank(s: &str) -> (r: bool)
    ensures
        r == (trimmed(s@).len() == 0),
{
    trim(s).is_empty()
}

/// The trimmed text, where it is not empty.
pub fn filled<'a>(s: Option<&'a str>) -> (r: Option<&'a str>)
    ensures
        opt_str_view(r) == filled_view(opt_str_view(s)),
{
    match s {
        Some(text) => {
            let t = trim(text);
            if t.is_empty() {
                None
            } else {
                Some(t)
            }
        },
        None => None,
    }
}

/// The trimmed text, where it is not empty.
pub open spec fn filled_view(s: Option<Seq<char>>) -> Option<Seq<char>> {
    match s {
        Some(text) => if trimmed(text).len() == 0 {
            None
        } else {
            Some(trimmed(text))
        },
        None => None,
    }
}

fn lower(c: char) -> (r: char)
    ensures
        r == lower_char(c),
{
    if 'A' <= c && c <= 'Z' {
        ((c as u8) + 32) as char
    } else {
        c
    }
}

/// `s` with its ASCII letters in lower case.
pub fn to_lower(s: &str) -> (r: String)
    ensures
        r@ == lowered(s@),
{
    let chars = chars_of(s);
    let mut out = String::new();
    let mut i: usize = 0;
    while i < chars.len()
        invariant
            chars@ == s@,
            i <= chars@.len(),
            out@ == lowered(s@.take(i as int)),
        decreases chars@.len() - i,
    {
        out.push(lower(chars[i]));
        i += 1;
        assert(lowered(s@.take(i as int)) =~= lowered(s@.take(i - 1)).push(
            lower_char(s@[i - 1]),
        ));
    }
    assert(s@.take(i as int) =~= s@);
    out
}

// ── Splitting and joining ───────────────────────────────────────

/// The pieces of `s` between the separators.
pub fn split(s: &str, sep: char) -> (r: Vec<String>)
    ensures
        views(r@) == pieces(s@, sep),
{
    let chars = chars_of(s);
    let mut out: Vec<String> = Vec::new();
    let mut current = String::new();
    let mut i: usize = 0;
    proof {
        assert(s@.take(0) =~= Seq::<char>::empty());
        assert(pieces(s@.take(0), sep) =~= views(out@).push(current@));
    }
    while i < chars.len()
        invariant
            chars@ == s@,
            i <= chars@.len(),
            pieces(s@.take(i as int), sep) == views(out@).push(current@),
        decreases chars@.len() - i,
    {
        let ghost before = views(out@).push(current@);
        let ghost done = views(out@);
        let c = chars[i];
        assert(s@.take(i + 1).drop_last() =~= s@.take(i as int));
        assert(before.drop_last() =~= done);
        if c == sep {
            out.push(current);
            current = String::new();
            assert(views(out@) =~= before);
        } else {
            current.push(c);
        }
        i += 1;
        assert(pieces(s@.take(i as int), sep) =~= views(out@).push(current@));
    }
    assert(s@.take(i as int) =~= s@);
    let ghost done = views(out@);
    out.push(current);
    assert(views(out@) =~= done.push(current@));
    out
}

/// The strings put together with `sep` between neighbours.
pub fn join(parts: &Vec<String>, sep: &str) -> (r: String)
    ensures
        r@ == joined(views(parts@), sep@),
{
    let mut out = String::new();
    let mut i: usize = 0;
    while i < parts.len()
        invariant
            i <= parts@.len(),
            out@ == joined(views(parts@).take(i as int), sep@),
        decreases parts@.len() - i,
    {
        if i > 0 {
            out.append(sep);
        }
        out.append(parts[i].as_str());
        i += 1;
        assert(views(parts@).take(i as int).drop_last() =~= views(parts@).take(i - 1));
        assert(out@ =~= joined(views(parts@).take(i as int), sep@));
    }
    assert(views(parts@).take(i as int) =~= views(parts@));
    out
}

// ── Numbers ─────────────────────────────────────────────────────

/// The decimal notation of a number.
pub fn decimal_of(n: u64) -> (r: String)
    ensures
        r@ == decimal(n as nat),
    decreases n,
{
    let mut out = if n < 10 {
        String::new()
    } else {
        decimal_of(n / 10)
    };
    let d: u8 = (n % 10) as u8;
    out.push((48u8 + d) as char);
    assert(out@ =~= decimal(n as nat));
    out
}

/// The number that a text denotes, where it is digits with at most one leading
/// plus and fits.
pub fn parse_u64(s: &str) -> (r: Option<u64>)
    ensures
        r == (match unsigned_value(s@) {
            Some(v) => if v <= u64::MAX {
                Some(v as u64)
            } else {
                None
            },
            None => None,
        }),
{
    let chars = chars_of(s);
    let start: usize = if chars.len() > 0 && chars[0] == '+' {
        1
    } else {
        0
    };
    let ghost body = s@.skip(start as int);
    proof {
        if start == 1 {
            assert(body =~= s@.drop_first());
        } else {
            assert(body =~= s@);
        }
    }
    if start == chars.len() {
        return None;
    }
    let mut value: u64 = 0;
    let mut too_large = false;
    let mut i: usize = start;
    assert(body.take(0) =~= Seq::<char>::empty());
    while i < chars.len()
        invariant
            chars@ == s@,
            start <= i <= chars@.len(),
            body == s@.skip(start as int),
            body == (if s@.len() > 0 && s@[0] == '+' {
                s@.drop_first()
            } else {
                s@
            }),
            all_digits(body.take(i - start)),
            !too_large ==> value == digits_value(body.take(i - start)),
            too_large ==> digits_value(body.take(i - start)) > u64::MAX,
        decreases chars@.len() - i,
    {
        let c = chars[i];
        assert(body[i - start] == c);
        if c < '0' || c > '9' {
            assert(!is_digit(body[i - start]));
            return None;
        }
        let d: u64 = (c as u8 - 48u8) as u64;
        assert(body.take(i + 1 - start).drop_last() =~= body.take(i - start));
        assert(digits_value(body.take(i + 1 - start)) == digits_value(body.take(i - start)) * 10
            + d);
        if !too_large {
            if value > (u64::MAX - d) / 10 {
                too_large = true;
            } else {
                value = value * 10 + d;
            }
        }
        assert forall|j: int| 0 <= j < i + 1 - start implies is_digit(
            #[trigger] body.take(i + 1 - start)[j],
        ) by {
            if j < i - start {
                assert(body.take(i - start)[j] == body[j]);
            }
        }
        i += 1;
    }
    assert(body.take(i - start) =~= body);
    if too_large {
        None
    } else {
        Some(value)
    }
}

// ── What the primitives tell ────────────────────────────────────

/// Trimming cuts white space at both ends and nothing else, and what it leaves has none
/// there.
pub proof fn trimming_cuts_only_white_space(s: Seq<char>)
    ensures
        exists|i: int, j: int|
            0 <= i <= j <= s.len() && trimmed(s) == #[trigger] s.subrange(i, j) && (forall|k: int|
                0 <= k < i || j <= k < s.len() ==> is_white(#[trigger] s[k])),
        trimmed(s).len() > 0 ==> !is_white(trimmed(s)[0]) && !is_white(trimmed(s).last()),
{
    lemma_trim_left_head(s);
    let t = trim_left(s);
    lemma_trim_right_tail(t);
    trimmed_text_is_stable(s);
    let i = s.len() - t.len();
    let j = i + trimmed(s).len();
    assert(trimmed(s) =~= s.subrange(i, j));
    assert forall|k: int| 0 <= k < i || j <= k < s.len() implies is_white(#[trigger] s[k]) by {
        if k >= j {
            assert(t[k - i] == s[k]);
        }
    }
}

/// A text that neither starts nor ends with white space is left as it is.
pub proof fn trimming_keeps_tight_texts(s: Seq<char>)
    requires
        s.len() > 0 ==> !is_white(s[0]) && !is_white(s.last()),
    ensures
        trimmed(s) == s,
{
}

/// Blanks, tabulators and line ends are white space; letters, digits and the other
/// printed characters of ASCII are not.
pub proof fn printed_characters_are_no_white_space(c: char)
    ensures
        c == ' ' || c == '\t' || c == '\n' || c == '\r' ==> is_white(c),
        '!' <= c <= '~' ==> !is_white(c),
{
}

/// Texts in lower case are as long as before; a capital letter of ASCII becomes its
/// small one, and every other character stays.
pub proof fn lower_case_changes_only_capitals(s: Seq<char>)
    ensures
        lowered(s).len() == s.len(),
        forall|i: int|
            0 <= i < s.len() ==> if 'A' <= s[i] <= 'Z' {
                (#[trigger] lowered(s)[i]) as int == s[i] as int + 32
            } else {
                lowered(s)[i] == s[i]
            },
{
}

/// A text occurs exactly where it stands between something before and something after.
pub proof fn occurrences_are_runs(needle: Seq<char>, before: Seq<char>, after: Seq<char>, hay: Seq<char>)
    ensures
        occurs_in(needle, before + needle + after),
        occurs_in(needle, hay) ==> exists|a: Seq<char>, b: Seq<char>| #[trigger]
            (a + needle + b) == hay,
{
    let all = before + needle + after;
    assert(all.subrange(before.len() as int, before.len() + needle.len() as int) =~= needle);
    assert(occurs_at(needle, all, before.len() as int));
    if occurs_in(needle, hay) {
        let i = choose|i: int| occurs_at(needle, hay, i);
        let a = hay.take(i);
        let b = hay.skip(i + needle.len() as int);
        assert(a + needle + b =~= hay);
    }
}

/// A text is cut at its first separator: what comes out, with the separator between, is
/// the text, and the first part holds no separator. A text without one is not cut.
pub proof fn cuts_are_made_at_the_first_separator(s: Seq<char>, sep: char)
    ensures
        match cut_once(s, sep) {
            Some((head, tail)) => head + seq![sep] + tail == s && !head.contains(sep),
            None => !s.contains(sep),
        },
    decreases s.len(),
{
    if s.len() > 0 {
        if s[0] == sep {
            assert(Seq::<char>::empty() + seq![sep] + s.drop_first() =~= s);
        } else {
            cuts_are_made_at_the_first_separator(s.drop_first(), sep);
            match cut_once(s.drop_first(), sep) {
                Some((head, tail)) => {
                    let whole = seq![s[0]] + head;
                    assert(whole + seq![sep] + tail =~= seq![s[0]] + (head + seq![sep] + tail));
                    assert(seq![s[0]] + s.drop_first() =~= s);
                    if whole.contains(sep) {
                        let k = choose|k: int| 0 <= k < whole.len() && whole[k] == sep;
                        assert(head[k - 1] == sep);
                    }
                },
                None => {
                    if s.contains(sep) {
                        let k = choose|k: int| 0 <= k < s.len() && s[k] == sep;
                        assert(s.drop_first()[k - 1] == sep);
                    }
                },
            }
        }
    }
}

/// What follows a prefix completes it to the text.
pub proof fn prefixes_are_completed(s: Seq<char>, prefix: Seq<char>, rest: Seq<char>)
    ensures
        after_prefix(prefix + rest, prefix) == Some(rest),
        after_prefix(s, prefix) matches Some(tail) ==> prefix + tail == s,
{
    assert((prefix + rest).take(prefix.len() as int) =~= prefix);
    assert((prefix + rest).skip(prefix.len() as int) =~= rest);
    assert(prefix.is_prefix_of(prefix + rest));
    if prefix.is_prefix_of(s) {
        assert(prefix + s.skip(prefix.len() as int) =~= s);
    }
}

/// Parts are put together in order, with the separator between neighbours only.
pub proof fn joining_puts_parts_in_order(parts: Seq<Seq<char>>, part: Seq<char>, sep: Seq<char>)
    ensures
        joined(Seq::<Seq<char>>::empty(), sep) == Seq::<char>::empty(),
        joined(seq![part], sep) == part,
        parts.len() > 0 ==> joined(parts.push(part), sep) == joined(parts, sep) + sep + part,
{
    assert(parts.push(part).drop_last() =~= parts);
}

/// A digit denotes its number, another digit behind a number counts it tenfold, a plus
/// in front changes nothing, and a text with any other character denotes no number.
pub proof fn numbers_are_read_digit_by_digit(s: Seq<char>, n: nat, c: char, d: nat, bad: int)
    ensures
        d < 10 && c as int == 48 + d ==> unsigned_value(seq![c]) == Some(d),
        unsigned_value(s) == Some(n) && d < 10 && c as int == 48 + d ==> unsigned_value(s.push(c))
            == Some(n * 10 + d),
        s.len() > 0 && s[0] != '+' ==> unsigned_value(seq!['+'] + s) == unsigned_value(s),
        0 <= bad < s.len() && !('0' <= s[bad] <= '9') && (bad > 0 || s[0] != '+') ==> unsigned_value(s)
            is None,
        s.len() == 0 ==> unsigned_value(s) is None,
{
    if d < 10 && c as int == 48 + d {
        assert(is_digit(c));
        assert(seq![c].drop_last() =~= Seq::<char>::empty());
        assert(digits_value(seq![c]) == d) by {
            reveal_with_fuel(digits_value, 2);
        }
        if unsigned_value(s) == Some(n) {
            let body = if s[0] == '+' {
                s.drop_first()
            } else {
                s
            };
            let longer = s.push(c);
            let rest = if longer[0] == '+' {
                longer.drop_first()
            } else {
                longer
            };
            assert(rest =~= body.push(c));
            assert(rest.drop_last() =~= body);
            assert forall|i: int| 0 <= i < rest.len() implies is_digit(#[trigger] rest[i]) by {
                if i < body.len() {
                    assert(is_digit(body[i]));
                }
            }
        }
    }
    if s.len() > 0 && s[0] != '+' {
        assert((seq!['+'] + s).drop_first() =~= s);
    }
    if 0 <= bad < s.len() && !('0' <= s[bad] <= '9') && (bad > 0 || s[0] != '+') {
        if s[0] == '+' {
            assert(s.drop_first()[bad - 1] == s[bad]);
            assert(!is_digit(s.drop_first()[bad - 1]));
        } else {
            assert(!is_digit(s[bad]));
        }
    }
}

/// Of two texts that agree up to a character, the one with the smaller character there
/// stands first; a text stands before every longer one that starts with it.
pub proof fn order_is_decided_by_the_first_difference(
    head: Seq<char>,
    a: char,
    b: char,
    rest_a: Seq<char>,
    rest_b: Seq<char>,
)
    ensures
        a < b ==> before(head + seq![a] + rest_a, head + seq![b] + rest_b),
        before(head, head + seq![a] + rest_a),
{
    let n = head.len() as int;
    let x = head + seq![a] + rest_a;
    let y = head + seq![b] + rest_b;
    assert(x.take(n) =~= head);
    assert(y.take(n) =~= head);
    assert(head.take(n) =~= head);
    assert(x.skip(n)[0] == a);
    assert(y.skip(n)[0] == b);
    assert(head.skip(n) =~= Seq::<char>::empty());
    lemma_before_skip(x, y, n);
    lemma_before_skip(head, x, n);
}

/// The pieces of two texts with a separator between them are those of the first and then
/// those of the second.
pub proof fn pieces_of_a_whole_are_those_of_its_parts(a: Seq<char>, b: Seq<char>, sep: char)
    ensures
        pieces(a + seq![sep] + b, sep) == pieces(a, sep) + pieces(b, sep),
    decreases b.len(),
{
    let whole = a + seq![sep] + b;
    if b.len() == 0 {
        assert(whole.drop_last() =~= a);
        assert(b =~= Seq::<char>::empty());
        assert(pieces(b, sep) =~= seq![Seq::<char>::empty()]);
        assert(pieces(whole, sep) =~= pieces(a, sep) + pieces(b, sep));
    } else {
        pieces_of_a_whole_are_those_of_its_parts(a, b.drop_last(), sep);
        lemma_pieces_nonempty(b.drop_last(), sep);
        assert(whole.drop_last() =~= a + seq![sep] + b.drop_last());
        assert(whole.last() == b.last());
        assert(pieces(whole, sep) =~= pieces(a, sep) + pieces(b, sep));
    }
}

/// A text without the separator is its only piece.
pub proof fn whole_texts_are_one_piece(s: Seq<char>, sep: char)
    requires
        !s.contains(sep),
    ensures
        pieces(s, sep) == seq![s],
    decreases s.len(),
{
    if s.len() > 0 {
        let rest = s.drop_last();
        if rest.contains(sep) {
            let k = choose|k: int| 0 <= k < rest.len() && rest[k] == sep;
            assert(s[k] == sep);
        }
        whole_texts_are_one_piece(rest, sep);
        assert(s[s.len() - 1] == s.last());
        assert(pieces(rest, sep).drop_last() =~= Seq::<Seq<char>>::empty());
        assert(rest.push(s.last()) =~= s);
        assert(pieces(s, sep) =~= seq![s]);
    }
}

/// Joining the parts of two rows joins the rows.
pub proof fn joined_rows_are_joined_texts(a: Seq<Seq<char>>, b: Seq<Seq<char>>, sep: Seq<char>)
    requires
        a.len() > 0,
        b.len() > 0,
    ensures
        joined(a + b, sep) == joined(a, sep) + sep + joined(b, sep),
    decreases b.len(),
{
    if b.len() == 1 {
        assert((a + b).drop_last() =~= a);
        assert((a + b).last() == b[0]);
    } else {
        joined_rows_are_joined_texts(a, b.drop_last(), sep);
        assert((a + b).drop_last() =~= a + b.drop_last());
        assert((a + b).last() == b.last());
        assert(joined(a + b, sep) =~= joined(a, sep) + sep + joined(b, sep));
    }
}

/// What is picked out of a row stands in it.
pub proof fn picks_stand_in_their_row<T>(row: Seq<T>, pick: spec_fn(T) -> bool, i: int)
    requires
        0 <= i < row.filter(pick).len(),
    ensures
        row.contains(row.filter(pick)[i]),
    decreases row.len(),
{
    reveal(Seq::filter);
    let rest = row.drop_last();
    if pick(row.last()) && i == rest.filter(pick).len() {
        assert(row[row.len() - 1] == row.last());
    } else {
        picks_stand_in_their_row(rest, pick, i);
        let k = choose|k: int| 0 <= k < rest.len() && rest[k] == rest.filter(pick)[i];
        assert(row[k] == rest[k]);
    }
}

/// White space is what Unicode counts as such.
pub proof fn white_space_is_a_fixed_set(c: char, r: bool)
    requires
        call_ensures(white, (c,), r),
    ensures
        r == is_white(c),
        r <==> {
            let n = c as int;
            9 <= n <= 13 || n == 32 || n == 133 || n == 160 || n == 5760 || 8192 <= n <= 8202 || n
                == 8232 || n == 8233 || n == 8239 || n == 8287 || n == 12288
        },
{
}

/// A text that is blank or not there counts as none; any other counts without the white
/// space around it.
pub proof fn blank_texts_count_as_none(
    s: Option<&str>,
    r: Option<&'static str>,
    t: &str,
    cut: &'static str,
    blank: bool,
)
    requires
        call_ensures(filled, (s,), r),
        s matches Some(x) ==> x@ == t@,
        call_ensures(trim, (t,), cut),
        call_ensures(is_blank, (t,), blank),
    ensures
        blank <==> (forall|i: int| 0 <= i < t@.len() ==> is_white(#[trigger] t@[i])),
        cut@ == trimmed(t@),
        s is None ==> r is None,
        s is Some && blank ==> r is None,
        s is Some && !blank ==> (r matches Some(x) && x@ == cut@),
{
    trimmed_is_empty_iff_blank(t@);
}

/// A text is told to hold another exactly where it does: at its start, somewhere, or as
/// a single character; two texts are the same where all of their characters are.
pub proof fn texts_are_compared_by_their_characters(
    s: &str,
    t: &str,
    before_it: Seq<char>,
    after_it: Seq<char>,
    c: char,
    equal: bool,
    starts: bool,
    holds: bool,
    holds_char: bool,
    i: int,
)
    requires
        call_ensures(same, (s, t), equal),
        call_ensures(has_prefix, (s, t), starts),
        call_ensures(contains, (s, t), holds),
        call_ensures(contains_char, (s, c), holds_char),
    ensures
        equal <==> s@.len() == t@.len() && (forall|k: int|
            0 <= k < s@.len() ==> #[trigger] s@[k] == t@[k]),
        s@ == t@ + after_it ==> starts,
        starts ==> t@ + s@.skip(t@.len() as int) == s@,
        s@ == before_it + t@ + after_it ==> holds,
        holds ==> exists|a: Seq<char>, b: Seq<char>| #[trigger] (a + t@ + b) == s@,
        0 <= i < s@.len() && s@[i] == c ==> holds_char,
        holds_char ==> exists|k: int| 0 <= k < s@.len() && #[trigger] s@[k] == c,
{
    if s@.len() == t@.len() && (forall|k: int| 0 <= k < s@.len() ==> #[trigger] s@[k] == t@[k]) {
        assert(s@ =~= t@);
    }
    prefixes_are_completed(s@, t@, after_it);
    occurrences_are_runs(t@, before_it, after_it, s@);
    if s@ == t@ + after_it {
        assert(s@.take(t@.len() as int) =~= t@);
    }
    if starts {
        assert(t@ + s@.skip(t@.len() as int) =~= s@);
    }
}

/// A text is cut where it is said to be cut: at the first separator, behind a prefix, or
/// at every separator; put together again it is what it was.
pub proof fn texts_are_cut_and_put_together(
    s: &str,
    sep: char,
    once: Option<(&'static str, &'static str)>,
    prefix: &str,
    stripped: Option<&'static str>,
    parts: Vec<String>,
    between: &str,
    whole: String,
    a: &str,
    b: &str,
    ab: String,
)
    requires
        call_ensures(split_once, (s, sep), once),
        call_ensures(strip_prefix, (s, prefix), stripped),
        call_ensures(split, (s, sep), parts),
        between@ == seq![sep],
        call_ensures(join, (&parts, between), whole),
        call_ensures(concat, (a, b), ab),
    ensures
        once matches Some((head, tail)) ==> s@ == head@ + seq![sep] + tail@ && !head@.contains(sep),
        once is None ==> !s@.contains(sep),
        stripped matches Some(rest) ==> s@ == prefix@ + rest@,
        stripped is None ==> !prefix@.is_prefix_of(s@),
        parts@.len() > 0,
        whole@ == s@,
        ab@.len() == a@.len() + b@.len(),
        ab@.take(a@.len() as int) == a@,
        ab@.skip(a@.len() as int) == b@,
{
    cuts_are_made_at_the_first_separator(s@, sep);
    prefixes_are_completed(s@, prefix@, Seq::empty());
    pieces_join_back(s@, sep);
    lemma_pieces_nonempty(s@, sep);
    assert(views(parts@).len() == parts@.len());
    assert(ab@.take(a@.len() as int) =~= a@);
    assert(ab@.skip(a@.len() as int) =~= b@);
}

/// A number is read back from its digits.
pub proof fn numbers_are_written_and_read(n: u64, written: String, s: &str, r: Option<u64>)
    requires
        call_ensures(decimal_of, (n,), written),
        call_ensures(parse_u64, (s,), r),
        s@ == written@,
    ensures
        r == Some(n),
{
    decimal_reads_back(n as nat);
}

} // verus!
