//! Text as sequences of characters: trimming, searching, clipping, escaping.

use vstd::prelude::*;
use vstd::string::*;
use vstd::utf8::{encode_scalar, encode_utf8};

verus! {

/// `String::push`: the character is added at the end.
pub assume_specification[ String::push ](s: &mut String, c: char)
    ensures
        final(s)@ == old(s)@.push(c),
;

/// The characters of a string, in order.
pub fn chars_of(s: &str) -> (v: Vec<char>)
    ensures
        v@ == s@,
{
    let mut v: Vec<char> = Vec::new();
    for c in it: s.chars()
        invariant
            it.seq() == s@,
            v@ == s@.take(it.index()),
    {
        v.push(c);
    }
    v
}

/// The characters `v[from]..v[to]` as a string.
pub fn string_of(v: &Vec<char>, from: usize, to: usize) -> (s: String)
    requires
        from <= to <= v@.len(),
    ensures
        s@ == v@.subrange(from as int, to as int),
{
    let mut s = String::new();
    let mut i: usize = from;
    while i < to
        invariant
            from <= i <= to <= v@.len(),
            s@ == v@.subrange(from as int, i as int),
        decreases to - i,
    {
        s.push(v[i]);
        i = i + 1;
        assert(s@ =~= v@.subrange(from as int, i as int));
    }
    s
}

/// Whether two strings hold the same characters.
pub fn same(a: &str, b: &str) -> (r: bool)
    ensures
        r == (a@ == b@),
{
    let mut x = a.chars();
    let mut y = b.chars();
    let ghost mut i: int = 0;
    loop
        invariant
            0 <= i <= a@.len(),
            i <= b@.len(),
            vstd::std_specs::iter::IteratorSpec::remaining(&x) == a@.skip(i),
            vstd::std_specs::iter::IteratorSpec::remaining(&y) == b@.skip(i),
            a@.take(i) == b@.take(i),
        decreases a@.len() - i,
    {
        match (x.next(), y.next()) {
            (Some(c), Some(d)) => {
                if c != d {
                    assert(a@[i] != b@[i]);
                    return false;
                }
                assert(a@.take(i + 1) =~= a@.take(i).push(c));
                assert(b@.take(i + 1) =~= b@.take(i).push(d));
                assert(a@.skip(i).drop_first() =~= a@.skip(i + 1));
                assert(b@.skip(i).drop_first() =~= b@.skip(i + 1));
                proof {
                    i = i + 1;
                }
            },
            (None, None) => {
                assert(a@ =~= a@.take(i));
                assert(b@ =~= b@.take(i));
                return true;
            },
            (Some(_), None) => {
                return false;
            },
            (None, Some(_)) => {
                return false;
            },
        }
    }
}

// ---- White space -------------------------------------------------------

/// The characters with Unicode's `White_Space` property.
pub open spec fn white(c: char) -> bool {
    ||| '\u{9}' <= c <= '\u{d}'
    ||| c == ' '
    ||| c == '\u{85}'
    ||| c == '\u{a0}'
    ||| c == '\u{1680}'
    ||| '\u{2000}' <= c <= '\u{200a}'
    ||| c == '\u{2028}'
    ||| c == '\u{2029}'
    ||| c == '\u{202f}'
    ||| c == '\u{205f}'
    ||| c == '\u{3000}'
}

pub fn is_white(c: char) -> (r: bool)
    ensures
        r == white(c),
{
    ('\u{9}' <= c && c <= '\u{d}') || c == ' ' || c == '\u{85}' || c == '\u{a0}' || c == '\u{1680}'
        || ('\u{2000}' <= c && c <= '\u{200a}') || c == '\u{2028}' || c == '\u{2029}' || c
        == '\u{202f}' || c == '\u{205f}' || c == '\u{3000}'
}

/// `s` without the white space that it begins with.
pub open spec fn trimmed_start(s: Seq<char>) -> Seq<char>
    decreases s.len(),
{
    if s.len() > 0 && white(s[0]) {
        trimmed_start(s.drop_first())
    } else {
        s
    }
}

/// `s` without the white space that it ends with.
pub open spec fn trimmed_end(s: Seq<char>) -> Seq<char>
    decreases s.len(),
{
    if s.len() > 0 && white(s.last()) {
        trimmed_end(s.drop_last())
    } else {
        s
    }
}

/// `s` without the white space around it.
pub open spec fn trimmed(s: Seq<char>) -> Seq<char> {
    trimmed_end(trimmed_start(s))
}

pub fn trim<'a>(s: &'a str) -> (r: &'a str)
    ensures
        r@ == trimmed(s@),
{
    let n: usize = s.unicode_len();
    let mut from: usize = 0;
    assert(s@.skip(0) =~= s@);
    while from < n && is_white(s.get_char(from))
        invariant
            n == s@.len(),
            from <= n,
            trimmed_start(s@) == trimmed_start(s@.skip(from as int)),
        decreases n - from,
    {
        assert(s@.skip(from as int).drop_first() =~= s@.skip(from + 1));
        from = from + 1;
    }
    let ghost t = s@.skip(from as int);
    assert(trimmed_start(s@) == t);
    let mut to: usize = n;
    assert(t =~= s@.subrange(from as int, n as int));
    while from < to && is_white(s.get_char(to - 1))
        invariant
            n == s@.len(),
            from <= to <= n,
            trimmed_end(t) == trimmed_end(s@.subrange(from as int, to as int)),
        decreases to - from,
    {
        assert(s@.subrange(from as int, to as int).drop_last() =~= s@.subrange(
            from as int,
            to - 1,
        ));
        to = to - 1;
    }
    s.substring_char(from, to)
}

/// `s` without the copies of `c` that it ends with.
pub open spec fn without_trailing(s: Seq<char>, c: char) -> Seq<char>
    decreases s.len(),
{
    if s.len() > 0 && s.last() == c {
        without_trailing(s.drop_last(), c)
    } else {
        s
    }
}

pub fn trim_end_char<'a>(s: &'a str, c: char) -> (r: &'a str)
    ensures
        r@ == without_trailing(s@, c),
{
    let n: usize = s.unicode_len();
    let mut to: usize = n;
    assert(s@.take(n as int) =~= s@);
    while 0 < to && s.get_char(to - 1) == c
        invariant
            n == s@.len(),
            to <= n,
            without_trailing(s@, c) == without_trailing(s@.take(to as int), c),
        decreases to,
    {
        assert(s@.take(to as int).drop_last() =~= s@.take(to - 1));
        to = to - 1;
    }
    assert(s@.take(to as int) =~= s@.subrange(0, to as int));
    s.substring_char(0, to)
}

/// The words of `s`, with one space between each and the next.
pub open spec fn collapsed(s: Seq<char>) -> Seq<char>
    decreases s.len(),
{
    if s.len() == 0 {
        Seq::empty()
    } else {
        let before = collapsed(s.drop_last());
        if white(s.last()) {
            before
        } else if before.len() > 0 && white(s[s.len() - 2]) {
            before.push(' ').push(s.last())
        } else {
            before.push(s.last())
        }
    }
}

pub fn collapse(s: &str) -> (r: String)
    ensures
        r@ == collapsed(s@),
{
    let v = chars_of(s);
    let mut r = String::new();
    let mut some: bool = false;
    let mut i: usize = 0;
    while i < v.len()
        invariant
            v@ == s@,
            i <= v@.len(),
            r@ == collapsed(s@.take(i as int)),
            some == (r@.len() > 0),
        decreases v@.len() - i,
    {
        let c = v[i];
        proof {
            let t = s@.take(i + 1);
            assert(t.drop_last() =~= s@.take(i as int));
        }
        if !is_white(c) {
            if some && is_white(v[i - 1]) {
                r.push(' ');
            }
            r.push(c);
            some = true;
        }
        i = i + 1;
    }
    assert(s@.take(i as int) =~= s@);
    r
}

/// The first `n` characters of `s`, or all of it where it has no more.
pub open spec fn clipped(s: Seq<char>, n: int) -> Seq<char> {
    if s.len() <= n {
        s
    } else {
        s.take(n)
    }
}

pub fn truncate(s: &str, n: usize) -> (r: String)
    ensures
        r@ == clipped(s@, n as int),
{
    if s.unicode_len() <= n {
        s.to_string()
    } else {
        let t = s.substring_char(0, n);
        assert(t@ =~= s@.take(n as int));
        t.to_string()
    }
}

// ---- Bytes -------------------------------------------------------------

/// How many bytes the text takes in UTF-8.
pub open spec fn byte_count(s: Seq<char>) -> nat {
    encode_utf8(s).len()
}

/// The longest beginning of `s` that takes no more than `n` bytes in UTF-8.
pub open spec fn clipped_bytes(s: Seq<char>, n: nat) -> Seq<char>
    decreases s.len(),
{
    if s.len() == 0 || byte_count(s) <= n {
        s
    } else {
        clipped_bytes(s.drop_last(), n)
    }
}

fn char_bytes(c: char) -> (r: usize)
    ensures
        r == encode_scalar(c as u32).len(),
        1 <= r <= 4,
{
    let u: u32 = c as u32;
    if u <= 0x7f {
        1
    } else if u <= 0x7ff {
        2
    } else if u <= 0xffff {
        3
    } else {
        4
    }
}

proof fn lemma_byte_count_push(s: Seq<char>, c: char)
    ensures
        byte_count(s.push(c)) == byte_count(s) + encode_scalar(c as u32).len(),
    decreases s.len(),
{
    if s.len() == 0 {
        assert(s.push(c).drop_first() =~= s);
    } else {
        assert(s.push(c).drop_first() =~= s.drop_first().push(c));
        lemma_byte_count_push(s.drop_first(), c);
    }
}

proof fn lemma_byte_count_take(s: Seq<char>, k: int)
    requires
        0 <= k <= s.len(),
    ensures
        byte_count(s.take(k)) <= byte_count(s),
    decreases s.len() - k,
{
    if k == s.len() {
        assert(s.take(k) =~= s);
    } else {
        assert(s.take(k + 1) =~= s.take(k).push(s[k]));
        lemma_byte_count_push(s.take(k), s[k]);
        lemma_byte_count_take(s, k + 1);
    }
}

proof fn lemma_clipped_bytes(s: Seq<char>, k: int, n: nat)
    requires
        0 <= k <= s.len(),
        byte_count(s.take(k)) <= n,
        k < s.len() ==> byte_count(s.take(k + 1)) > n,
    ensures
        clipped_bytes(s, n) == s.take(k),
    decreases s.len() - k,
{
    if k == s.len() {
        assert(s.take(k) =~= s);
    } else {
        lemma_byte_count_take(s, k + 1);
        let t = s.drop_last();
        assert(t.take(k) =~= s.take(k));
        if k < t.len() {
            assert(t.take(k + 1) =~= s.take(k + 1));
        }
        lemma_clipped_bytes(t, k, n);
    }
}

pub proof fn lemma_clipped_bytes_fit(s: Seq<char>, n: nat)
    ensures
        byte_count(clipped_bytes(s, n)) <= n,
        clipped_bytes(s, n).is_prefix_of(s),
        byte_count(s) <= n <==> clipped_bytes(s, n) == s,
    decreases s.len(),
{
    if s.len() > 0 && byte_count(s) > n {
        lemma_clipped_bytes_fit(s.drop_last(), n);
        assert(clipped_bytes(s, n).is_prefix_of(s));
    }
}

/// Cuts a text down to what fits in `n` bytes, at the end of a character.
pub fn clip_bytes<'a>(s: &'a str, n: usize) -> (r: &'a str)
    ensures
        r@ == clipped_bytes(s@, n as nat),
{
    let v = chars_of(s);
    let mut left: usize = n;
    let mut k: usize = 0;
    while k < v.len()
        invariant
            v@ == s@,
            k <= s@.len(),
            left <= n,
            byte_count(s@.take(k as int)) == n - left,
        decreases s@.len() - k,
    {
        let w: usize = char_bytes(v[k]);
        proof {
            assert(s@.take(k + 1) =~= s@.take(k as int).push(s@[k as int]));
            lemma_byte_count_push(s@.take(k as int), s@[k as int]);
        }
        if w > left {
            proof {
                lemma_clipped_bytes(s@, k as int, n as nat);
            }
            let r = s.substring_char(0, k);
            assert(r@ =~= s@.take(k as int));
            return r;
        }
        left = left - w;
        k = k + 1;
    }
    proof {
        assert(s@.take(k as int) =~= s@);
    }
    s
}

/// How many bytes a text takes, or nothing where it takes more than `n`.
pub fn bytes_within(s: &str, n: usize) -> (r: Option<usize>)
    ensures
        byte_count(s@) <= n ==> r == Some(byte_count(s@) as usize),
        byte_count(s@) > n ==> r is None,
{
    let v = chars_of(s);
    let mut left: usize = n;
    let mut k: usize = 0;
    while k < v.len()
        invariant
            v@ == s@,
            k <= s@.len(),
            left <= n,
            byte_count(s@.take(k as int)) == n - left,
        decreases s@.len() - k,
    {
        let w: usize = char_bytes(v[k]);
        proof {
            assert(s@.take(k + 1) =~= s@.take(k as int).push(s@[k as int]));
            lemma_byte_count_push(s@.take(k as int), s@[k as int]);
            lemma_byte_count_take(s@, k + 1);
        }
        if w > left {
            return None;
        }
        left = left - w;
        k = k + 1;
    }
    assert(s@.take(k as int) =~= s@);
    Some(n - left)
}

// ---- Case --------------------------------------------------------------

/// The lower case of an ASCII letter; any other character as it is.
pub open spec fn lower(c: char) -> char {
    if 'A' <= c <= 'Z' {
        (c as int + 32) as char
    } else {
        c
    }
}

pub fn lower_char(c: char) -> (r: char)
    ensures
        r == lower(c),
{
    if 'A' <= c && c <= 'Z' {
        (c as u8 + 32) as char
    } else {
        c
    }
}

/// A text with its ASCII letters in lower case.
pub open spec fn lowered(s: Seq<char>) -> Seq<char> {
    s.map_values(|c: char| lower(c))
}

pub fn lower_case(s: &str) -> (r: String)
    ensures
        r@ == lowered(s@),
{
    let v = chars_of(s);
    let mut r = String::new();
    let mut i: usize = 0;
    while i < v.len()
        invariant
            v@ == s@,
            i <= v@.len(),
            r@ =~= lowered(s@).take(i as int),
        decreases v@.len() - i,
    {
        r.push(lower_char(v[i]));
        i = i + 1;
    }
    r
}

/// A text whose first character, where it is an ASCII letter, is in upper case.
pub open spec fn capitalized(s: Seq<char>) -> Seq<char> {
    if s.len() > 0 && 'a' <= s[0] <= 'z' {
        s.update(0, (s[0] as int - 32) as char)
    } else {
        s
    }
}

pub fn capitalize(s: &str) -> (r: String)
    ensures
        r@ == capitalized(s@),
{
    let n: usize = s.unicode_len();
    if n > 0 {
        let c = s.get_char(0);
        if 'a' <= c && c <= 'z' {
            let mut r = String::new();
            r.push((c as u8 - 32) as char);
            r.append(s.substring_char(1, n));
            assert(r@ =~= capitalized(s@));
            return r;
        }
    }
    s.to_string()
}

// ---- Texts by name -----------------------------------------------------

/// An owned string by its characters.
pub open spec fn string_view(r: Option<String>) -> Option<Seq<char>> {
    match r {
        Some(t) => Some(t@),
        None => None,
    }
}

/// Some strings by their characters.
pub open spec fn string_views(s: Seq<String>) -> Seq<Seq<char>> {
    s.map_values(|t: String| t@)
}

/// Some texts by their names.
pub open spec fn texts_of(texts: Map<Seq<char>, String>) -> Map<Seq<char>, Seq<char>> {
    texts.map_values(|t: String| t@)
}

/// The text with this name, where there is one.
pub open spec fn text_in(texts: Map<Seq<char>, Seq<char>>, name: Seq<char>) -> Option<Seq<char>> {
    if texts.dom().contains(name) {
        Some(texts[name])
    } else {
        None
    }
}

// ---- Names of files ----------------------------------------------------

/// The characters that part the names in a path.
pub open spec fn is_separator(c: char) -> bool {
    c == '/' || c == '\\'
}

/// What follows the last separator of a path.
pub open spec fn base_name(s: Seq<char>) -> Seq<char>
    decreases s.len(),
{
    if s.len() == 0 || is_separator(s.last()) {
        Seq::empty()
    } else {
        base_name(s.drop_last()).push(s.last())
    }
}

/// A name that can be shown for a file: the last name of the path, at most 120
/// characters of it, or `other` where that leaves nothing.
pub open spec fn safe_name(path: Seq<char>, other: Seq<char>) -> Seq<char> {
    let base = trimmed(base_name(path));
    if base.len() == 0 {
        other
    } else {
        clipped(base, 120)
    }
}

proof fn lemma_base_name(s: Seq<char>)
    ensures
        base_name(s).is_suffix_of(s),
        forall|i: int| 0 <= i < base_name(s).len() ==> !is_separator(#[trigger] base_name(s)[i]),
        base_name(s).len() < s.len() ==> is_separator(s[s.len() - base_name(s).len() - 1]),
    decreases s.len(),
{
    if s.len() > 0 && !is_separator(s.last()) {
        lemma_base_name(s.drop_last());
        let n = s.len() - base_name(s).len();
        assert(s.skip(n) =~= base_name(s));
        if n > 0 {
            assert(s.drop_last()[n - 1] == s[n - 1]);
        }
    }
}

proof fn lemma_base_name_at(s: Seq<char>, n: int)
    requires
        0 <= n <= s.len(),
        n > 0 ==> is_separator(s[n - 1]),
        forall|i: int| n <= i < s.len() ==> !is_separator(#[trigger] s[i]),
    ensures
        base_name(s) == s.skip(n),
    decreases s.len(),
{
    if n < s.len() {
        assert(!is_separator(s[s.len() - 1]));
        assert forall|i: int| n <= i < s.len() - 1 implies !is_separator(
            #[trigger] s.drop_last()[i],
        ) by {
            assert(!is_separator(s[i]));
        }
        lemma_base_name_at(s.drop_last(), n);
        assert(s.drop_last().skip(n).push(s.last()) =~= s.skip(n));
    } else {
        assert(s.skip(n) =~= Seq::empty());
    }
}

/// What follows the last separator of a path.
pub fn base_of<'a>(path: &'a str) -> (r: &'a str)
    ensures
        r@ == base_name(path@),
{
    let v = chars_of(path);
    let mut n: usize = v.len();
    while n > 0 && !(v[n - 1] == '/' || v[n - 1] == '\\')
        invariant
            v@ == path@,
            n <= v@.len(),
            forall|i: int| n <= i < path@.len() ==> !is_separator(#[trigger] path@[i]),
        decreases n,
    {
        n = n - 1;
    }
    proof {
        lemma_base_name_at(path@, n as int);
    }
    let base = path.substring_char(n, v.len());
    assert(base@ =~= path@.skip(n as int));
    base
}

/// Makes a path into a name that can be shown.
pub fn sanitize_name(path: &str, other: &str) -> (r: String)
    ensures
        r@ == safe_name(path@, other@),
{
    let t = trim(base_of(path));
    if t.is_empty() {
        other.to_string()
    } else {
        truncate(t, 120)
    }
}

/// Whether the last name of a path has an extension: a dot that it does not begin with.
pub open spec fn has_extension(path: Seq<char>) -> bool {
    base_name(path).len() > 0 && base_name(path).drop_first().contains('.')
}

pub fn extended(path: &str) -> (r: bool)
    ensures
        r == has_extension(path@),
{
    let base = base_of(path);
    let n: usize = base.unicode_len();
    if n == 0 {
        return false;
    }
    let rest = base.substring_char(1, n);
    assert(rest@ =~= base@.drop_first());
    contains_char(rest, '.')
}

proof fn lemma_trimmed_within(s: Seq<char>)
    ensures
        forall|i: int| 0 <= i < trimmed(s).len() ==> s.contains(#[trigger] trimmed(s)[i]),
{
    lemma_trimmed_start_within(s);
    let t = trimmed_start(s);
    lemma_trimmed_end_within(t);
    assert forall|i: int| 0 <= i < trimmed(s).len() implies s.contains(
        #[trigger] trimmed(s)[i],
    ) by {
        let j = choose|j: int| 0 <= j < t.len() && t[j] == trimmed(s)[i];
        assert(t.contains(trimmed(s)[i]));
        assert(s.contains(t[j]));
    }
}

proof fn lemma_trimmed_start_within(s: Seq<char>)
    ensures
        forall|i: int| 0 <= i < trimmed_start(s).len() ==> s.contains(#[trigger] trimmed_start(s)[i]),
    decreases s.len(),
{
    if s.len() > 0 && white(s[0]) {
        let r = s.drop_first();
        lemma_trimmed_start_within(r);
        assert forall|i: int| 0 <= i < trimmed_start(s).len() implies s.contains(
            #[trigger] trimmed_start(s)[i],
        ) by {
            assert(r.contains(trimmed_start(r)[i]));
            let j = choose|j: int| 0 <= j < r.len() && r[j] == trimmed_start(r)[i];
            assert(s[j + 1] == r[j]);
        }
    }
}

proof fn lemma_trimmed_end_within(s: Seq<char>)
    ensures
        forall|i: int| 0 <= i < trimmed_end(s).len() ==> s.contains(#[trigger] trimmed_end(s)[i]),
    decreases s.len(),
{
    if s.len() > 0 && white(s.last()) {
        let r = s.drop_last();
        lemma_trimmed_end_within(r);
        assert forall|i: int| 0 <= i < trimmed_end(s).len() implies s.contains(
            #[trigger] trimmed_end(s)[i],
        ) by {
            assert(r.contains(trimmed_end(r)[i]));
            let j = choose|j: int| 0 <= j < r.len() && r[j] == trimmed_end(r)[i];
            assert(s[j] == r[j]);
        }
    }
}

/// A shown name holds no separator, whatever path it was made from, and is no longer
/// than 120 characters.
pub proof fn law_safe_name_has_no_separator(path: Seq<char>, other: Seq<char>)
    requires
        0 < other.len() <= 120,
        forall|i: int| 0 <= i < other.len() ==> !is_separator(#[trigger] other[i]),
    ensures
        0 < safe_name(path, other).len() <= 120,
        forall|i: int|
            0 <= i < safe_name(path, other).len() ==> !is_separator(
                #[trigger] safe_name(path, other)[i],
            ),
{
    let base = base_name(path);
    lemma_base_name(path);
    lemma_trimmed_within(base);
    assert forall|i: int| 0 <= i < safe_name(path, other).len() implies !is_separator(
        #[trigger] safe_name(path, other)[i],
    ) by {
        if trimmed(base).len() > 0 {
            assert(base.contains(trimmed(base)[i]));
        }
    }
}

// ---- Searching ---------------------------------------------------------

pub fn starts_with(s: &str, p: &str) -> (r: bool)
    ensures
        r == p@.is_prefix_of(s@),
{
    let n: usize = p.unicode_len();
    if s.unicode_len() < n {
        false
    } else {
        same(s.substring_char(0, n), p)
    }
}

pub fn ends_with(s: &str, p: &str) -> (r: bool)
    ensures
        r == p@.is_suffix_of(s@),
{
    let n: usize = p.unicode_len();
    let m: usize = s.unicode_len();
    if m < n {
        false
    } else {
        same(s.substring_char(m - n, m), p)
    }
}

/// What follows `p` in a text that begins with it.
pub open spec fn after_prefix(s: Seq<char>, p: Seq<char>) -> Option<Seq<char>> {
    if p.is_prefix_of(s) {
        Some(s.skip(p.len() as int))
    } else {
        None
    }
}

/// A string slice by its characters.
pub open spec fn str_view(r: Option<&str>) -> Option<Seq<char>> {
    match r {
        Some(s) => Some(s@),
        None => None,
    }
}

pub fn strip_prefix<'a>(s: &'a str, p: &str) -> (r: Option<&'a str>)
    ensures
        str_view(r) == after_prefix(s@, p@),
{
    if starts_with(s, p) {
        let t = s.substring_char(p.unicode_len(), s.unicode_len());
        assert(t@ =~= s@.skip(p@.len() as int));
        Some(t)
    } else {
        None
    }
}

pub fn contains_char(s: &str, c: char) -> (r: bool)
    ensures
        r == s@.contains(c),
{
    let v = chars_of(s);
    let mut i: usize = 0;
    while i < v.len()
        invariant
            v@ == s@,
            i <= v@.len(),
            forall|j: int| 0 <= j < i ==> s@[j] != c,
        decreases v@.len() - i,
    {
        if v[i] == c {
            assert(s@[i as int] == c);
            return true;
        }
        i = i + 1;
    }
    false
}

/// Whether `p` stands in `s` at position `i`.
pub open spec fn occurs_at(s: Seq<char>, p: Seq<char>, i: int) -> bool {
    0 <= i && i + p.len() <= s.len() && s.subrange(i, i + p.len()) == p
}

/// The first position from `i` on at which `p` stands in `s`.
pub open spec fn find_from(s: Seq<char>, p: Seq<char>, i: int) -> Option<int>
    decreases s.len() - i + 1,
{
    if i + p.len() > s.len() {
        None
    } else if occurs_at(s, p, i) {
        Some(i)
    } else {
        find_from(s, p, i + 1)
    }
}

/// What [`find_from`] finds: the least position, where there is one.
pub proof fn lemma_find_from(s: Seq<char>, p: Seq<char>, i: int)
    requires
        0 <= i,
    ensures
        match find_from(s, p, i) {
            Some(k) => i <= k && occurs_at(s, p, k) && forall|j: int|
                i <= j < k ==> !occurs_at(s, p, j),
            None => forall|j: int| i <= j ==> !occurs_at(s, p, j),
        },
    decreases s.len() - i + 1,
{
    if i + p.len() <= s.len() && !occurs_at(s, p, i) {
        lemma_find_from(s, p, i + 1);
    }
}

fn occurs(s: &Vec<char>, p: &Vec<char>, i: usize) -> (r: bool)
    requires
        i + p@.len() <= s@.len(),
    ensures
        r == occurs_at(s@, p@, i as int),
{
    let n: usize = s.len();
    let mut j: usize = 0;
    while j < p.len()
        invariant
            n == s@.len(),
            j <= p@.len(),
            i + p@.len() <= n,
            forall|k: int| 0 <= k < j ==> s@[i + k] == p@[k],
        decreases p@.len() - j,
    {
        if s[i + j] != p[j] {
            assert(s@.subrange(i as int, i + p@.len())[j as int] != p@[j as int]);
            return false;
        }
        j = j + 1;
    }
    assert(s@.subrange(i as int, i + p@.len()) =~= p@);
    true
}

/// A position, as a mathematical integer.
pub open spec fn pos_view(r: Option<usize>) -> Option<int> {
    match r {
        Some(i) => Some(i as int),
        None => None,
    }
}

pub fn find(s: &Vec<char>, p: &Vec<char>, from: usize) -> (r: Option<usize>)
    requires
        from <= s@.len(),
    ensures
        pos_view(r) == find_from(s@, p@, from as int),
{
    let n: usize = s.len();
    let m: usize = p.len();
    if m > n - from {
        return None;
    }
    let last: usize = n - m;
    let mut i: usize = from;
    loop
        invariant
            n == s@.len(),
            m == p@.len(),
            last + m == n,
            from <= i <= last,
            find_from(s@, p@, from as int) == find_from(s@, p@, i as int),
        decreases last - i,
    {
        if occurs(s, p, i) {
            return Some(i);
        }
        if i == last {
            assert(find_from(s@, p@, i + 1) is None);
            return None;
        }
        i = i + 1;
    }
}

/// Whether `p` stands somewhere in `s`.
pub open spec fn holds(s: Seq<char>, p: Seq<char>) -> bool {
    exists|i: int| #[trigger] occurs_at(s, p, i)
}

/// A text holds each of its parts.
pub proof fn lemma_holds(before: Seq<char>, p: Seq<char>, after: Seq<char>)
    ensures
        holds(before + p + after, p),
{
    let s = before + p + after;
    assert(s.subrange(before.len() as int, (before.len() + p.len()) as int) =~= p);
    assert(occurs_at(s, p, before.len() as int));
}

/// Where `p` stands in `s`, the characters are those of `p`.
pub proof fn lemma_occurs(s: Seq<char>, p: Seq<char>, i: int)
    requires
        occurs_at(s, p, i),
    ensures
        forall|k: int| 0 <= k < p.len() ==> #[trigger] p[k] == s[i + k],
{
    assert forall|k: int| 0 <= k < p.len() implies #[trigger] p[k] == s[i + k] by {
        assert(s.subrange(i, i + p.len())[k] == s[i + k]);
    }
}

// ---- Literals ----------------------------------------------------------

/// Whether `f` holds of each number below `n`. Unfolded on the text of a literal, it looks
/// at its characters one after the other.
pub open spec fn upto(f: spec_fn(int) -> bool, n: int) -> bool
    decreases n,
{
    n <= 0 || (f(n - 1) && upto(f, n - 1))
}

pub proof fn lemma_upto(f: spec_fn(int) -> bool, n: int)
    requires
        upto(f, n),
    ensures
        forall|i: int| 0 <= i < n ==> #[trigger] f(i),
    decreases n,
{
    if n > 0 {
        lemma_upto(f, n - 1);
    }
}

// ---- Laws --------------------------------------------------------------

/// A text that is cut to a number of bytes keeps all of itself where it fits, and else the
/// longest beginning that does.
pub proof fn law_longest_beginning_is_kept(s: Seq<char>, n: nat)
    ensures
        byte_count(s) <= n ==> clipped_bytes(s, n) == s,
        byte_count(s) > n ==> exists|k: int|
            0 <= k < s.len() && clipped_bytes(s, n) == #[trigger] s.take(k) && byte_count(s.take(k))
                <= n && byte_count(s.take(k + 1)) > n,
    decreases s.len(),
{
    if byte_count(s) > n {
        if s.len() == 0 {
            assert(encode_utf8(s).len() == 0);
        } else {
            let t = s.drop_last();
            if byte_count(t) <= n {
                let k = s.len() - 1;
                assert(s.take(k) =~= t);
                assert(s.take(k + 1) =~= s);
                assert(clipped_bytes(t, n) == t);
                assert(clipped_bytes(s, n) == s.take(k));
            } else {
                law_longest_beginning_is_kept(t, n);
                let k = choose|k: int|
                    0 <= k < t.len() && clipped_bytes(t, n) == #[trigger] t.take(k) && byte_count(
                        t.take(k),
                    ) <= n && byte_count(t.take(k + 1)) > n;
                assert(s.take(k) =~= t.take(k));
                assert(s.take(k + 1) =~= t.take(k + 1));
            }
        }
    }
}

/// Whether some texts occur in `s` one after the other, none inside another.
pub open spec fn in_turn(s: Seq<char>, parts: Seq<Seq<char>>) -> bool
    decreases parts.len(),
{
    parts.len() == 0 || exists|a: Seq<char>, b: Seq<char>|
        s == #[trigger] (a + parts[0] + b) && in_turn(b, parts.drop_first())
}

pub proof fn lemma_in_turn(a: Seq<char>, p: Seq<char>, b: Seq<char>, parts: Seq<Seq<char>>)
    requires
        in_turn(b, parts),
    ensures
        forall|all: Seq<Seq<char>>|
            all =~= seq![p] + parts ==> #[trigger] in_turn(a + p + b, all),
{
    assert forall|all: Seq<Seq<char>>| all =~= seq![p] + parts implies #[trigger] in_turn(
        a + p + b,
        all,
    ) by {
        assert(all.drop_first() =~= parts);
        assert(a + p + b == a + all[0] + b);
    }
}

/// Just these characters count as white space: those that Unicode marks so.
pub proof fn law_white_space(c: char)
    ensures
        white(c) <==> set![
            0x9u32, 0xa, 0xb, 0xc, 0xd, 0x20, 0x85, 0xa0, 0x1680, 0x2000, 0x2001, 0x2002, 0x2003,
            0x2004, 0x2005, 0x2006, 0x2007, 0x2008, 0x2009, 0x200a, 0x2028, 0x2029, 0x202f, 0x205f,
            0x3000,
        ].contains(c as u32),
{
}

/// A text that is trimmed loses white space at its two ends, all of it, and nothing else.
pub proof fn law_trimming_takes_the_white_space_around(s: Seq<char>)
    ensures
        exists|a: int, b: int|
            0 <= a <= b <= s.len() && trimmed(s) == #[trigger] s.subrange(a, b) && (forall|i: int|
                0 <= i < a ==> white(#[trigger] s[i])) && (forall|i: int|
                b <= i < s.len() ==> white(#[trigger] s[i])),
        trimmed(s).len() > 0 ==> !white(trimmed(s)[0]) && !white(trimmed(s).last()),
{
    let a = lemma_trimmed_start_at(s);
    let t = trimmed_start(s);
    let n = lemma_trimmed_end_at(t);
    let b = a + n;
    assert(trimmed(s) =~= s.subrange(a, b));
    assert forall|i: int| b <= i < s.len() implies white(#[trigger] s[i]) by {
        assert(t[i - a] == s[i]);
    }
    if trimmed(s).len() > 0 {
        assert(trimmed(s)[0] == t[0]);
        assert(trimmed(s).last() == t[n - 1]);
    }
}

proof fn lemma_trimmed_start_at(s: Seq<char>) -> (a: int)
    ensures
        0 <= a <= s.len(),
        trimmed_start(s) == s.skip(a),
        forall|i: int| 0 <= i < a ==> white(#[trigger] s[i]),
        a < s.len() ==> !white(s[a]),
    decreases s.len(),
{
    if s.len() > 0 && white(s[0]) {
        let a = lemma_trimmed_start_at(s.drop_first());
        assert(s.drop_first().skip(a) =~= s.skip(a + 1));
        assert forall|i: int| 0 <= i < a + 1 implies white(#[trigger] s[i]) by {
            if i > 0 {
                assert(s.drop_first()[i - 1] == s[i]);
            }
        }
        if a + 1 < s.len() {
            assert(s.drop_first()[a] == s[a + 1]);
        }
        a + 1
    } else {
        assert(s.skip(0) =~= s);
        0
    }
}

proof fn lemma_trimmed_end_at(s: Seq<char>) -> (n: int)
    ensures
        0 <= n <= s.len(),
        trimmed_end(s) == s.take(n),
        forall|i: int| n <= i < s.len() ==> white(#[trigger] s[i]),
        n > 0 ==> !white(s[n - 1]),
    decreases s.len(),
{
    if s.len() > 0 && white(s.last()) {
        let n = lemma_trimmed_end_at(s.drop_last());
        assert(s.drop_last().take(n) =~= s.take(n));
        assert forall|i: int| n <= i < s.len() implies white(#[trigger] s[i]) by {
            if i < s.len() - 1 {
                assert(s.drop_last()[i] == s[i]);
            }
        }
        if n > 0 {
            assert(s.drop_last()[n - 1] == s[n - 1]);
        }
        n
    } else {
        assert(s.take(s.len() as int) =~= s);
        s.len() as int
    }
}

/// A text loses the copies of a character at its end, all of them, and nothing else.
pub proof fn law_trailing_copies_are_taken(s: Seq<char>, c: char)
    ensures
        without_trailing(s, c).is_prefix_of(s),
        forall|i: int| without_trailing(s, c).len() <= i < s.len() ==> #[trigger] s[i] == c,
        without_trailing(s, c).len() > 0 ==> without_trailing(s, c).last() != c,
    decreases s.len(),
{
    if s.len() > 0 && s.last() == c {
        let t = s.drop_last();
        law_trailing_copies_are_taken(t, c);
        let r = without_trailing(s, c);
        assert(r =~= s.subrange(0, r.len() as int)) by {
            assert(r =~= t.subrange(0, r.len() as int));
        }
        assert forall|i: int| r.len() <= i < s.len() implies #[trigger] s[i] == c by {
            if i < t.len() {
                assert(t[i] == s[i]);
            }
        }
    }
}

/// Each run of white space becomes one space, and none is left at the ends: white space adds
/// nothing, and what follows it comes after one space, where something came before.
pub proof fn law_white_space_collapses(s: Seq<char>, c: char)
    ensures
        collapsed(Seq::empty()).len() == 0,
        white(c) ==> collapsed(s.push(c)) == collapsed(s),
        !white(c) && s.len() > 0 && white(s.last()) && collapsed(s).len() > 0 ==> collapsed(
            s.push(c),
        ) == collapsed(s).push(' ').push(c),
        !white(c) && (s.len() == 0 || !white(s.last()) || collapsed(s).len() == 0) ==> collapsed(
            s.push(c),
        ) == collapsed(s).push(c),
{
    assert(s.push(c).drop_last() =~= s);
    if s.len() > 0 {
        assert(s.push(c)[s.push(c).len() - 2] == s.last());
    }
}

/// A text that is cut keeps as many of its first characters as it may, and all of them where
/// it has no more.
pub proof fn law_first_characters_are_kept(s: Seq<char>, n: int)
    requires
        0 <= n,
    ensures
        clipped(s, n).is_prefix_of(s),
        s.len() <= n ==> clipped(s, n) == s,
        s.len() > n ==> clipped(s, n).len() == n,
{
}

/// Lower case changes the letters from A to Z, each to its own small letter, and nothing
/// else; a capital at the beginning changes the first character alone.
pub proof fn law_case_changes_letters_only(s: Seq<char>, i: int)
    requires
        0 <= i < s.len(),
    ensures
        lowered(s).len() == s.len(),
        'A' <= s[i] <= 'Z' ==> lowered(s)[i] as int == s[i] as int + 32,
        !('A' <= s[i] <= 'Z') ==> lowered(s)[i] == s[i],
        capitalized(s).len() == s.len(),
        i > 0 ==> capitalized(s)[i] == s[i],
        'a' <= s[0] <= 'z' ==> capitalized(s)[0] as int == s[0] as int - 32,
        !('a' <= s[0] <= 'z') ==> capitalized(s)[0] == s[0],
{
}

/// The last name of a path is what follows its last separator, and all of it where it has
/// none. A shown name is that, without the white space around it and cut to its length.
pub proof fn law_name_is_the_last_of_the_path(dir: Seq<char>, name: Seq<char>, other: Seq<char>)
    requires
        dir.len() > 0 ==> dir.last() == '/' || dir.last() == '\\',
        forall|i: int| 0 <= i < name.len() ==> #[trigger] name[i] != '/' && name[i] != '\\',
    ensures
        base_name(dir + name) == name,
        trimmed(name).len() == 0 ==> safe_name(dir + name, other) == other,
        0 < trimmed(name).len() <= 120 ==> safe_name(dir + name, other) == trimmed(name),
        trimmed(name).len() > 120 ==> safe_name(dir + name, other) == trimmed(name).take(120),
        has_extension(dir + name) <==> exists|i: int| 0 < i < name.len() && #[trigger] name[i] == '.',
{
    let s = dir + name;
    let n = dir.len() as int;
    assert forall|i: int| n <= i < s.len() implies !is_separator(#[trigger] s[i]) by {
        assert(s[i] == name[i - n]);
    }
    if n > 0 {
        assert(s[n - 1] == dir.last());
    }
    lemma_base_name_at(s, n);
    assert(s.skip(n) =~= name);
    if name.len() > 0 {
        let rest = name.drop_first();
        if rest.contains('.') {
            let j = choose|j: int| 0 <= j < rest.len() && rest[j] == '.';
            assert(name[j + 1] == '.');
        }
        if exists|i: int| 0 < i < name.len() && #[trigger] name[i] == '.' {
            let i = choose|i: int| 0 < i < name.len() && #[trigger] name[i] == '.';
            assert(rest[i - 1] == '.');
        }
    }
}

/// What follows a prefix is the rest of the text, and nothing where the text does not begin
/// with it; a text is found under its own name.
pub proof fn law_rest_after_a_prefix(
    p: Seq<char>,
    rest: Seq<char>,
    s: Seq<char>,
    texts: Map<Seq<char>, Seq<char>>,
    name: Seq<char>,
)
    ensures
        after_prefix(p + rest, p) == Some(rest),
        !p.is_prefix_of(s) ==> after_prefix(s, p) is None,
        text_in(texts.insert(name, s), name) == Some(s),
        p != name ==> text_in(texts.insert(name, s), p) == text_in(texts, p),
        text_in(texts.remove(name), name) is None,
{
    assert(p.is_prefix_of(p + rest)) by {
        assert((p + rest).subrange(0, p.len() as int) =~= p);
    }
    assert((p + rest).skip(p.len() as int) =~= rest);
}

} // verus!
