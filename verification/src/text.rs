//! Character-level text utilities with specifications over `Seq<char>`.
//!
//! Every function here works on the characters of a string (Unicode scalar
//! values). Byte lengths, where the service limits them, are the lengths of
//! the UTF-8 encoding (`str::len`).
use vstd::prelude::*;
use vstd::std_specs::iter::IteratorSpec;
use vstd::utf8::encode_utf8;

verus! {

/// Appends one character to a `String` (`String::push`).
#[verifier::external_body]
pub(crate) fn push_char(s: &mut String, c: char)
    ensures
        final(s)@ == old(s)@.push(c),
{
    s.push(c);
}

/// Number of bytes in the UTF-8 encoding of `s`.
pub open spec fn utf8_len(s: Seq<char>) -> nat {
    encode_utf8(s).len()
}

/// The characters of `s`, in order.
pub fn chars_of(s: &str) -> (v: Vec<char>)
    ensures
        v@ == s@,
{
    let mut v: Vec<char> = Vec::new();
    for c in it: s.chars()
        invariant
            it.seq() == s@,
            v@ == it.seq().take(it.index() as int),
    {
        v.push(c);
    }
    assert(v@ == s@);
    v
}

/// Appends the characters `v[from..to]` to `out`.
pub fn push_chars(out: &mut String, v: &Vec<char>, from: usize, to: usize)
    requires
        from <= to <= v@.len(),
    ensures
        final(out)@ == old(out)@ + v@.subrange(from as int, to as int),
{
    let mut i = from;
    while i < to
        invariant
            from <= i <= to <= v@.len(),
            out@ == old(out)@ + v@.subrange(from as int, i as int),
        decreases to - i,
    {
        push_char(out, v[i]);
        assert(v@.subrange(from as int, i + 1) == v@.subrange(from as int, i as int).push(v@[i as int]));
        i = i + 1;
    }
}

/// Appends the characters of `s` to `out`.
pub fn push_str(out: &mut String, s: &str)
    ensures
        final(out)@ == old(out)@ + s@,
{
    let v = chars_of(s);
    push_chars(out, &v, 0, v.len());
    assert(v@.subrange(0, v@.len() as int) == v@);
}

/// A `String` holding the characters `v[from..to]`.
pub fn string_from(v: &Vec<char>, from: usize, to: usize) -> (s: String)
    requires
        from <= to <= v@.len(),
    ensures
        s@ == v@.subrange(from as int, to as int),
{
    let mut s = String::new();
    push_chars(&mut s, v, from, to);
    s
}

/// A `String` holding all of `v`.
pub fn string_of(v: &Vec<char>) -> (s: String)
    ensures
        s@ == v@,
{
    let s = string_from(v, 0, v.len());
    assert(v@.subrange(0, v@.len() as int) == v@);
    s
}

/// Whether two character sequences are equal.
pub fn chars_equal(a: &Vec<char>, b: &Vec<char>) -> (r: bool)
    ensures
        r == (a@ == b@),
{
    if a.len() != b.len() {
        return false;
    }
    let mut i: usize = 0;
    while i < a.len()
        invariant
            a@.len() == b@.len(),
            i <= a@.len(),
            forall|k: int| 0 <= k < i ==> a@[k] == b@[k],
        decreases a@.len() - i,
    {
        if a[i] != b[i] {
            return false;
        }
        i = i + 1;
    }
    assert(a@ == b@);
    true
}

/// Whether two strings hold the same characters.
pub fn str_equal(a: &str, b: &str) -> (r: bool)
    ensures
        r == (a@ == b@),
{
    let x = chars_of(a);
    let y = chars_of(b);
    chars_equal(&x, &y)
}

// ---------------------------------------------------------------------------
// Character classes (the documented definitions of the `char` predicates).
// ---------------------------------------------------------------------------

/// `char::is_whitespace`: the Unicode `White_Space` property.
pub open spec fn is_unicode_whitespace(c: char) -> bool {
    let n = c as u32;
    (0x09 <= n <= 0x0D) || n == 0x20 || n == 0x85 || n == 0xA0 || n == 0x1680 || (0x2000 <= n
        <= 0x200A) || n == 0x2028 || n == 0x2029 || n == 0x202F || n == 0x205F || n == 0x3000
}

pub fn is_whitespace(c: char) -> (r: bool)
    ensures
        r == is_unicode_whitespace(c),
{
    let n = c as u32;
    (0x09 <= n && n <= 0x0D) || n == 0x20 || n == 0x85 || n == 0xA0 || n == 0x1680 || (0x2000 <= n
        && n <= 0x200A) || n == 0x2028 || n == 0x2029 || n == 0x202F || n == 0x205F || n == 0x3000
}

/// `char::is_ascii_digit`.
pub open spec fn is_digit(c: char) -> bool {
    '0' <= c <= '9'
}

/// `char::is_ascii_alphanumeric`.
pub open spec fn is_alphanumeric(c: char) -> bool {
    ('0' <= c <= '9') || ('a' <= c <= 'z') || ('A' <= c <= 'Z')
}

pub fn is_alphanumeric_char(c: char) -> (r: bool)
    ensures
        r == is_alphanumeric(c),
{
    ('0' <= c && c <= '9') || ('a' <= c && c <= 'z') || ('A' <= c && c <= 'Z')
}

/// `char::is_ascii_hexdigit`.
pub open spec fn is_hex_digit(c: char) -> bool {
    ('0' <= c <= '9') || ('a' <= c <= 'f') || ('A' <= c <= 'F')
}

/// `char::is_ascii_control` (and `u8::is_ascii_control` on ASCII).
pub open spec fn is_ascii_control(c: char) -> bool {
    (c as u32) < 0x20 || (c as u32) == 0x7F
}

/// `char::is_ascii_whitespace`: space, tab, line feed, form feed, carriage return.
pub open spec fn is_ascii_whitespace(c: char) -> bool {
    c == ' ' || c == '\t' || c == '\n' || (c as u32) == 0x0C || c == '\r'
}

/// `char::is_control`: the Unicode `Cc` category.
pub open spec fn is_control(c: char) -> bool {
    (c as u32) < 0x20 || (0x7F <= (c as u32) <= 0x9F)
}

/// `char::to_ascii_lowercase`.
pub open spec fn ascii_lower(c: char) -> char {
    if 'A' <= c <= 'Z' {
        ((c as u32) + 32) as char
    } else {
        c
    }
}

pub fn to_ascii_lower(c: char) -> (r: char)
    ensures
        r == ascii_lower(c),
{
    if 'A' <= c && c <= 'Z' {
        let n = (c as u32) + 32;
        char_from_ascii(n)
    } else {
        c
    }
}

/// The character with the given ASCII code.
pub fn char_from_ascii(n: u32) -> (c: char)
    requires
        n < 128,
    ensures
        c == n as char,
{
    let b = n as u8;
    b as char
}

/// The ASCII lowercase form of a sequence (`str::to_ascii_lowercase`).
pub open spec fn ascii_lowercase(s: Seq<char>) -> Seq<char> {
    s.map_values(|c: char| ascii_lower(c))
}

pub fn to_ascii_lowercase(s: &str) -> (r: String)
    ensures
        r@ == ascii_lowercase(s@),
{
    let v = chars_of(s);
    let mut out = String::new();
    let mut i: usize = 0;
    while i < v.len()
        invariant
            i <= v@.len(),
            out@ == ascii_lowercase(v@.take(i as int)),
        decreases v@.len() - i,
    {
        let c = to_ascii_lower(v[i]);
        push_char(&mut out, c);
        assert(ascii_lowercase(v@.take(i + 1)) == ascii_lowercase(v@.take(i as int)).push(c));
        i = i + 1;
    }
    assert(v@.take(v@.len() as int) == v@);
    out
}

/// `str::eq_ignore_ascii_case`.
pub open spec fn eq_ignore_ascii_case(a: Seq<char>, b: Seq<char>) -> bool {
    ascii_lowercase(a) == ascii_lowercase(b)
}

pub fn equals_ignore_ascii_case(a: &Vec<char>, b: &str) -> (r: bool)
    ensures
        r == eq_ignore_ascii_case(a@, b@),
{
    let bv = chars_of(b);
    if a.len() != bv.len() {
        assert(ascii_lowercase(a@).len() != ascii_lowercase(bv@).len());
        return false;
    }
    let mut i: usize = 0;
    while i < a.len()
        invariant
            a@.len() == bv@.len(),
            bv@ == b@,
            i <= a@.len(),
            forall|k: int| 0 <= k < i ==> ascii_lower(a@[k]) == ascii_lower(bv@[k]),
        decreases a@.len() - i,
    {
        if to_ascii_lower(a[i]) != to_ascii_lower(bv[i]) {
            assert(ascii_lowercase(a@)[i as int] != ascii_lowercase(bv@)[i as int]);
            return false;
        }
        i = i + 1;
    }
    assert(ascii_lowercase(a@) =~= ascii_lowercase(bv@));
    true
}

// ---------------------------------------------------------------------------
// Trimming.
// ---------------------------------------------------------------------------

/// A set of characters that a trim removes.
#[derive(Clone, Copy)]
pub enum TrimSet {
    /// Unicode whitespace (`str::trim`).
    Whitespace,
    /// `'.'` and `'_'`.
    DotUnderscore,
    /// `'/'`.
    Slash,
}

pub open spec fn trims(set: TrimSet, c: char) -> bool {
    match set {
        TrimSet::Whitespace => is_unicode_whitespace(c),
        TrimSet::DotUnderscore => c == '.' || c == '_',
        TrimSet::Slash => c == '/',
    }
}

pub fn trims_char(set: TrimSet, c: char) -> (r: bool)
    ensures
        r == trims(set, c),
{
    match set {
        TrimSet::Whitespace => is_whitespace(c),
        TrimSet::DotUnderscore => c == '.' || c == '_',
        TrimSet::Slash => c == '/',
    }
}

/// Number of leading characters of `s` in `set`.
pub open spec fn leading_count(s: Seq<char>, set: TrimSet) -> nat
    decreases s.len(),
{
    if s.len() > 0 && trims(set, s[0]) {
        1 + leading_count(s.drop_first(), set)
    } else {
        0
    }
}

/// Number of trailing characters of `s` in `set`.
pub open spec fn trailing_count(s: Seq<char>, set: TrimSet) -> nat
    decreases s.len(),
{
    if s.len() > 0 && trims(set, s.last()) {
        1 + trailing_count(s.drop_last(), set)
    } else {
        0
    }
}

/// `s` without its leading characters in `set`.
pub open spec fn trim_start(s: Seq<char>, set: TrimSet) -> Seq<char> {
    s.skip(leading_count(s, set) as int)
}

/// `s` without its trailing characters in `set`.
pub open spec fn trim_end(s: Seq<char>, set: TrimSet) -> Seq<char> {
    s.take(s.len() - trailing_count(s, set))
}

/// `s` without leading and trailing characters in `set`.
pub open spec fn trim_both(s: Seq<char>, set: TrimSet) -> Seq<char> {
    trim_end(trim_start(s, set), set)
}

/// `str::trim`: without leading and trailing Unicode whitespace.
pub open spec fn trim(s: Seq<char>) -> Seq<char> {
    trim_both(s, TrimSet::Whitespace)
}

pub proof fn lemma_leading_count(s: Seq<char>, set: TrimSet)
    ensures
        leading_count(s, set) <= s.len(),
        forall|k: int| 0 <= k < leading_count(s, set) ==> trims(set, #[trigger] s[k]),
        leading_count(s, set) < s.len() ==> !trims(set, s[leading_count(s, set) as int]),
    decreases s.len(),
{
    if s.len() > 0 && trims(set, s[0]) {
        lemma_leading_count(s.drop_first(), set);
        assert forall|k: int| 0 <= k < leading_count(s, set) implies trims(set, #[trigger] s[k]) by {
            if k > 0 {
                assert(s[k] == s.drop_first()[k - 1]);
            }
        }
    }
}

pub proof fn lemma_trailing_count(s: Seq<char>, set: TrimSet)
    ensures
        trailing_count(s, set) <= s.len(),
        forall|k: int|
            s.len() - trailing_count(s, set) <= k < s.len() ==> trims(set, #[trigger] s[k]),
        trailing_count(s, set) < s.len() ==> !trims(
            set,
            s[s.len() - trailing_count(s, set) - 1],
        ),
    decreases s.len(),
{
    if s.len() > 0 && trims(set, s.last()) {
        lemma_trailing_count(s.drop_last(), set);
        assert forall|k: int|
            s.len() - trailing_count(s, set) <= k < s.len() implies trims(set, #[trigger] s[k]) by {
            if k < s.len() - 1 {
                assert(s[k] == s.drop_last()[k]);
            }
        }
    }
}

/// Counts the leading characters of `v[from..]` in `set`.
pub fn leading_count_of(v: &Vec<char>, from: usize, set: TrimSet) -> (n: usize)
    requires
        from <= v@.len(),
    ensures
        n == leading_count(v@.skip(from as int), set),
        from + n <= v@.len(),
{
    let mut i = from;
    proof {
        lemma_leading_count(v@.skip(from as int), set);
    }
    while i < v.len() && trims_char(set, v[i])
        invariant
            from <= i <= v@.len(),
            leading_count(v@.skip(from as int), set) == (i - from) + leading_count(
                v@.skip(i as int),
                set,
            ),
        decreases v@.len() - i,
    {
        assert(v@.skip(i as int).drop_first() == v@.skip(i + 1));
        i = i + 1;
    }
    proof {
        lemma_leading_count(v@.skip(from as int), set);
    }
    i - from
}

/// Counts the trailing characters of `v[..to]` in `set`.
pub fn trailing_count_of(v: &Vec<char>, to: usize, set: TrimSet) -> (n: usize)
    requires
        to <= v@.len(),
    ensures
        n == trailing_count(v@.take(to as int), set),
        n <= to,
{
    let mut j = to;
    while j > 0 && trims_char(set, v[j - 1])
        invariant
            j <= to <= v@.len(),
            trailing_count(v@.take(to as int), set) == (to - j) + trailing_count(
                v@.take(j as int),
                set,
            ),
        decreases j,
    {
        assert(v@.take(j as int).drop_last() == v@.take(j - 1));
        j = j - 1;
    }
    to - j
}

/// The characters of `s` with leading and trailing characters of `set` removed.
pub fn trim_chars(v: &Vec<char>, set: TrimSet) -> (r: Vec<char>)
    ensures
        r@ == trim_both(v@, set),
{
    let start = leading_count_of(v, 0, set);
    assert(v@.skip(0) == v@);
    let mut rest: Vec<char> = Vec::new();
    let mut i = start;
    while i < v.len()
        invariant
            start <= i <= v@.len(),
            rest@ == v@.subrange(start as int, i as int),
        decreases v@.len() - i,
    {
        rest.push(v[i]);
        assert(v@.subrange(start as int, i + 1) == v@.subrange(start as int, i as int).push(
            v@[i as int],
        ));
        i = i + 1;
    }
    assert(rest@ == trim_start(v@, set));
    let n = trailing_count_of(&rest, rest.len(), set);
    assert(rest@.take(rest@.len() as int) == rest@);
    let mut out: Vec<char> = Vec::new();
    let mut k: usize = 0;
    while k < rest.len() - n
        invariant
            n <= rest@.len(),
            k <= rest@.len() - n,
            out@ == rest@.take(k as int),
        decreases rest@.len() - n - k,
    {
        out.push(rest[k]);
        assert(rest@.take(k + 1) == rest@.take(k as int).push(rest@[k as int]));
        k = k + 1;
    }
    out
}

/// `str::trim` as a `String`.
pub fn trim_str(s: &str) -> (r: String)
    ensures
        r@ == trim(s@),
{
    let v = chars_of(s);
    let t = trim_chars(&v, TrimSet::Whitespace);
    string_of(&t)
}

/// `s` without trailing `'/'` characters (`str::trim_end_matches('/')`).
pub fn trim_end_slashes(s: &str) -> (r: String)
    ensures
        r@ == trim_end(s@, TrimSet::Slash),
{
    let v = chars_of(s);
    let n = trailing_count_of(&v, v.len(), TrimSet::Slash);
    assert(v@.take(v@.len() as int) == v@);
    string_from(&v, 0, v.len() - n)
}

// ---------------------------------------------------------------------------
// Searching and splitting.
// ---------------------------------------------------------------------------

/// Index of the first `c` in `s`, or `s.len()` when there is none.
pub open spec fn first_pos(s: Seq<char>, c: char) -> nat
    decreases s.len(),
{
    if s.len() == 0 {
        0
    } else if s[0] == c {
        0
    } else {
        1 + first_pos(s.drop_first(), c)
    }
}

pub proof fn lemma_first_pos(s: Seq<char>, c: char)
    ensures
        first_pos(s, c) <= s.len(),
        forall|k: int| 0 <= k < first_pos(s, c) ==> #[trigger] s[k] != c,
        first_pos(s, c) < s.len() ==> s[first_pos(s, c) as int] == c,
    decreases s.len(),
{
    if s.len() > 0 && s[0] != c {
        lemma_first_pos(s.drop_first(), c);
        assert forall|k: int| 0 <= k < first_pos(s, c) implies #[trigger] s[k] != c by {
            if k > 0 {
                assert(s[k] == s.drop_first()[k - 1]);
            }
        }
    }
}

/// The position of the first `c` is the only position that precedes every other `c`.
pub proof fn lemma_first_pos_unique(s: Seq<char>, c: char, i: int)
    requires
        0 <= i <= s.len(),
        forall|k: int| 0 <= k < i ==> #[trigger] s[k] != c,
        i < s.len() ==> s[i] == c,
    ensures
        first_pos(s, c) == i,
{
    lemma_first_pos(s, c);
}

/// Index of the last `c` in `s`, or `-1` when there is none.
pub open spec fn last_pos(s: Seq<char>, c: char) -> int
    decreases s.len(),
{
    if s.len() == 0 {
        -1
    } else if s.last() == c {
        s.len() - 1
    } else {
        last_pos(s.drop_last(), c)
    }
}

pub proof fn lemma_last_pos(s: Seq<char>, c: char)
    ensures
        -1 <= last_pos(s, c) < s.len(),
        forall|k: int| last_pos(s, c) < k < s.len() ==> #[trigger] s[k] != c,
        last_pos(s, c) >= 0 ==> s[last_pos(s, c)] == c,
    decreases s.len(),
{
    if s.len() > 0 && s.last() != c {
        lemma_last_pos(s.drop_last(), c);
        assert forall|k: int| last_pos(s, c) < k < s.len() implies #[trigger] s[k] != c by {
            if k < s.len() - 1 {
                assert(s[k] == s.drop_last()[k]);
            }
        }
    }
}

/// Finds the first `c` in `v[from..]`, as an absolute index (`v.len()` when absent).
pub fn find_char(v: &Vec<char>, from: usize, c: char) -> (i: usize)
    requires
        from <= v@.len(),
    ensures
        i == from + first_pos(v@.skip(from as int), c),
        i <= v@.len(),
{
    let mut i = from;
    while i < v.len() && v[i] != c
        invariant
            from <= i <= v@.len(),
            forall|k: int| from <= k < i ==> v@[k] != c,
        decreases v@.len() - i,
    {
        i = i + 1;
    }
    proof {
        let t = v@.skip(from as int);
        assert forall|k: int| 0 <= k < i - from implies #[trigger] t[k] != c by {
            assert(t[k] == v@[k + from]);
        }
        lemma_first_pos_unique(t, c, i - from);
    }
    i
}

/// Finds the last `c` in `v` (`-1` when absent).
pub fn rfind_char(v: &Vec<char>, c: char) -> (i: isize)
    requires
        v@.len() < isize::MAX,
    ensures
        i == last_pos(v@, c),
{
    let mut j = v.len();
    assert(v@.take(v@.len() as int) == v@);
    while j > 0 && v[j - 1] != c
        invariant
            j <= v@.len() < isize::MAX,
            last_pos(v@, c) == last_pos(v@.take(j as int), c),
        decreases j,
    {
        assert(v@.take(j as int).drop_last() == v@.take(j - 1));
        j = j - 1;
    }
    if j == 0 {
        -1
    } else {
        (j - 1) as isize
    }
}

/// The index of the last `c` in `v`, if any.
pub fn last_index_of(v: &Vec<char>, c: char) -> (r: Option<usize>)
    ensures
        match r {
            Some(i) => i == last_pos(v@, c),
            None => last_pos(v@, c) == -1,
        },
{
    let mut j = v.len();
    assert(v@.take(v@.len() as int) == v@);
    while j > 0 && v[j - 1] != c
        invariant
            j <= v@.len(),
            last_pos(v@, c) == last_pos(v@.take(j as int), c),
        decreases j,
    {
        assert(v@.take(j as int).drop_last() == v@.take(j - 1));
        j = j - 1;
    }
    if j == 0 {
        None
    } else {
        Some(j - 1)
    }
}

/// `str::split_once(c)`: the text before and after the first `c`.
pub open spec fn split_once(s: Seq<char>, c: char) -> Option<(Seq<char>, Seq<char>)> {
    let p = first_pos(s, c);
    if p < s.len() {
        Some((s.take(p as int), s.skip(p + 1int)))
    } else {
        None
    }
}

/// Splitting `a`, `c`, `b` at the first `c`, where `a` holds none, gives
/// `a` and `b`.
pub proof fn lemma_split_once_at(a: Seq<char>, c: char, b: Seq<char>)
    requires
        forall|k: int| 0 <= k < a.len() ==> #[trigger] a[k] != c,
    ensures
        split_once(a + seq![c] + b, c) == Some((a, b)),
{
    let t = a + seq![c] + b;
    assert forall|k: int| 0 <= k < a.len() implies #[trigger] t[k] != c by {
        assert(t[k] == a[k]);
    }
    assert(t[a.len() as int] == c);
    lemma_first_pos_unique(t, c, a.len() as int);
    assert(t.take(a.len() as int) =~= a);
    assert(t.skip(a.len() + 1int) =~= b);
}

/// `str::rsplit_once(c)`: the text before and after the last `c`.
pub open spec fn rsplit_once(s: Seq<char>, c: char) -> Option<(Seq<char>, Seq<char>)> {
    let p = last_pos(s, c);
    if p >= 0 {
        Some((s.take(p), s.skip(p + 1int)))
    } else {
        None
    }
}

/// `str::split(c)`: the pieces between occurrences of `c`.
pub open spec fn split(s: Seq<char>, c: char) -> Seq<Seq<char>>
    decreases s.len(),
{
    let p = first_pos(s, c);
    if p < s.len() {
        seq![s.take(p as int)] + split(s.skip(p + 1int), c)
    } else {
        seq![s]
    }
}

/// The first piece of `str::split(c)`.
pub open spec fn before_first(s: Seq<char>, c: char) -> Seq<char> {
    s.take(first_pos(s, c) as int)
}

/// `str::split(c)` as owned pieces.
pub fn split_chars(v: &Vec<char>, c: char) -> (r: Vec<Vec<char>>)
    ensures
        r@.map_values(|piece: Vec<char>| piece@) == split(v@, c),
{
    let mut pieces: Vec<Vec<char>> = Vec::new();
    let mut start: usize = 0;
    assert(v@.skip(0) == v@);
    loop
        invariant
            start <= v@.len(),
            pieces@.map_values(|piece: Vec<char>| piece@) + split(v@.skip(start as int), c)
                == split(v@, c),
        decreases v@.len() - start,
    {
        let p = find_char(v, start, c);
        let piece = sub_vec(v, start, p);
        let ghost rest = v@.skip(start as int);
        proof {
            lemma_first_pos(rest, c);
            assert(piece@ == rest.take(p - start));
        }
        if p < v.len() {
            proof {
                assert(rest.skip(p - start + 1) == v@.skip(p + 1));
                assert(split(rest, c) == seq![rest.take(p - start)] + split(v@.skip(p + 1), c));
            }
            let ghost before = pieces@.map_values(|piece: Vec<char>| piece@);
            pieces.push(piece);
            assert(pieces@.map_values(|piece: Vec<char>| piece@) == before.push(piece@));
            start = p + 1;
        } else {
            proof {
                assert(rest.take(p - start) == rest);
                assert(split(rest, c) == seq![rest]);
            }
            let ghost before = pieces@.map_values(|piece: Vec<char>| piece@);
            pieces.push(piece);
            assert(pieces@.map_values(|piece: Vec<char>| piece@) == before.push(piece@));
            return pieces;
        }
    }
}

/// A copy of `v[from..to]`.
pub fn sub_vec(v: &Vec<char>, from: usize, to: usize) -> (r: Vec<char>)
    requires
        from <= to <= v@.len(),
    ensures
        r@ == v@.subrange(from as int, to as int),
{
    let mut r: Vec<char> = Vec::new();
    let mut i = from;
    while i < to
        invariant
            from <= i <= to <= v@.len(),
            r@ == v@.subrange(from as int, i as int),
        decreases to - i,
    {
        r.push(v[i]);
        assert(v@.subrange(from as int, i + 1) == v@.subrange(from as int, i as int).push(
            v@[i as int],
        ));
        i = i + 1;
    }
    r
}

/// Whether `p` is a prefix of `s` (`str::starts_with`).
pub open spec fn starts_with(s: Seq<char>, p: Seq<char>) -> bool {
    p.len() <= s.len() && s.take(p.len() as int) == p
}

/// Whether `p` is a suffix of `s` (`str::ends_with`).
pub open spec fn ends_with(s: Seq<char>, p: Seq<char>) -> bool {
    p.len() <= s.len() && s.skip(s.len() - p.len()) == p
}

/// Whether `p` occurs in `s` (`str::contains`).
pub open spec fn contains(s: Seq<char>, p: Seq<char>) -> bool {
    exists|i: int| 0 <= i <= s.len() - p.len() && #[trigger] s.subrange(i, i + p.len()) == p
}

/// Whether `p` occurs in `v` starting at `at`.
pub fn matches_at(v: &Vec<char>, at: usize, p: &Vec<char>) -> (r: bool)
    requires
        at <= v@.len(),
    ensures
        r == (p@.len() <= v@.len() - at && v@.subrange(at as int, at + p@.len()) == p@),
{
    if p.len() > v.len() - at {
        return false;
    }
    let mut k: usize = 0;
    while k < p.len()
        invariant
            at <= v@.len() <= usize::MAX,
            p@.len() <= v@.len() - at,
            k <= p@.len(),
            forall|j: int| 0 <= j < k ==> v@[at + j] == p@[j],
        decreases p@.len() - k,
    {
        if v[at + k] != p[k] {
            assert(v@.subrange(at as int, at + p@.len())[k as int] != p@[k as int]);
            return false;
        }
        k = k + 1;
    }
    assert(v@.subrange(at as int, at + p@.len()) =~= p@);
    true
}

pub fn has_prefix(v: &Vec<char>, p: &str) -> (r: bool)
    ensures
        r == starts_with(v@, p@),
{
    let pv = chars_of(p);
    matches_at(v, 0, &pv)
}

pub fn has_suffix(v: &Vec<char>, p: &str) -> (r: bool)
    ensures
        r == ends_with(v@, p@),
{
    let pv = chars_of(p);
    if pv.len() > v.len() {
        return false;
    }
    let at = v.len() - pv.len();
    let r = matches_at(v, at, &pv);
    assert(v@.subrange(at as int, at + pv@.len()) == v@.skip(at as int));
    r
}

pub fn contains_text(v: &Vec<char>, p: &str) -> (r: bool)
    ensures
        r == contains(v@, p@),
{
    let pv = chars_of(p);
    if pv.len() > v.len() {
        return false;
    }
    let limit = v.len() - pv.len();
    let mut i: usize = 0;
    loop
        invariant
            pv@ == p@,
            pv@.len() <= v@.len(),
            limit == v@.len() - pv@.len(),
            i <= limit,
            forall|j: int| 0 <= j < i ==> #[trigger] v@.subrange(j, j + pv@.len()) != pv@,
        decreases limit - i,
    {
        if matches_at(v, i, &pv) {
            return true;
        }
        if i == limit {
            return false;
        }
        i = i + 1;
    }
}

/// Whether `c` occurs in `s`.
pub open spec fn has_char(s: Seq<char>, c: char) -> bool {
    exists|i: int| 0 <= i < s.len() && s[i] == c
}

pub fn contains_char(v: &Vec<char>, c: char) -> (r: bool)
    ensures
        r == has_char(v@, c),
{
    let p = find_char(v, 0, c);
    proof {
        assert(v@.skip(0) == v@);
        lemma_first_pos(v@, c);
    }
    p < v.len()
}

// ---------------------------------------------------------------------------
// Replacing.
// ---------------------------------------------------------------------------

/// `str::replace(pat, rep)` for a non-empty pattern: every non-overlapping
/// occurrence of `pat`, from left to right, is replaced by `rep`.
pub open spec fn replace_all(s: Seq<char>, pat: Seq<char>, rep: Seq<char>) -> Seq<char>
    decreases s.len(),
{
    if s.len() == 0 || pat.len() == 0 {
        s
    } else if starts_with(s, pat) {
        rep + replace_all(s.skip(pat.len() as int), pat, rep)
    } else {
        seq![s[0]] + replace_all(s.drop_first(), pat, rep)
    }
}

pub fn replace_text(s: &str, pat: &str, rep: &str) -> (r: String)
    requires
        pat@.len() > 0,
    ensures
        r@ == replace_all(s@, pat@, rep@),
{
    let v = chars_of(s);
    let pv = chars_of(pat);
    let rv = chars_of(rep);
    let mut out = String::new();
    let mut i: usize = 0;
    assert(v@.skip(0) == v@);
    while i < v.len()
        invariant
            pv@ == pat@,
            rv@ == rep@,
            pat@.len() > 0,
            i <= v@.len(),
            replace_all(v@, pv@, rv@) == out@ + replace_all(v@.skip(i as int), pv@, rv@),
        decreases v@.len() - i,
    {
        let ghost t = v@.skip(i as int);
        if matches_at(&v, i, &pv) {
            assert(t.take(pv@.len() as int) == v@.subrange(i as int, i + pv@.len()));
            assert(t.skip(pv@.len() as int) == v@.skip(i + pv@.len()));
            push_chars(&mut out, &rv, 0, rv.len());
            assert(rv@.subrange(0, rv@.len() as int) == rv@);
            i = i + pv.len();
        } else {
            assert(!starts_with(t, pv@)) by {
                if pv@.len() <= t.len() {
                    assert(t.take(pv@.len() as int) == v@.subrange(i as int, i + pv@.len()));
                }
            }
            assert(t.drop_first() == v@.skip(i + 1));
            push_char(&mut out, v[i]);
            i = i + 1;
        }
    }
    assert(v@.skip(i as int).len() == 0);
    out
}

// ---------------------------------------------------------------------------
// Decimal numbers.
// ---------------------------------------------------------------------------

/// The ASCII digit for `d` (`0 <= d < 10`).
pub open spec fn digit_char(d: nat) -> char {
    (48 + d) as char
}

/// The decimal representation of `n`, without sign or leading zeros.
pub open spec fn decimal(n: nat) -> Seq<char>
    decreases n,
{
    if n < 10 {
        seq![digit_char(n)]
    } else {
        decimal(n / 10).push(digit_char(n % 10))
    }
}

/// The decimal representation of a signed integer (`i64::to_string`).
pub open spec fn signed_decimal(n: int) -> Seq<char> {
    if n < 0 {
        seq!['-'] + decimal((-n) as nat)
    } else {
        decimal(n as nat)
    }
}

/// Appends the decimal representation of `n` (`u64::to_string`).
pub fn push_decimal(out: &mut String, n: u64)
    ensures
        final(out)@ == old(out)@ + decimal(n as nat),
    decreases n,
{
    if n >= 10 {
        push_decimal(out, n / 10);
    }
    let d = (n % 10) as u32;
    let c = char_from_ascii(48 + d);
    push_char(out, c);
}

/// Appends the decimal representation of `n` (`i64::to_string`).
pub fn push_signed_decimal(out: &mut String, n: i64)
    ensures
        final(out)@ == old(out)@ + signed_decimal(n as int),
{
    if n < 0 {
        push_char(out, '-');
        let magnitude: u64 = if n == i64::MIN {
            9223372036854775808u64
        } else {
            (-n) as u64
        };
        push_decimal(out, magnitude);
    } else {
        push_decimal(out, n as u64);
    }
}

pub fn decimal_string(n: u64) -> (s: String)
    ensures
        s@ == decimal(n as nat),
{
    let mut s = String::new();
    push_decimal(&mut s, n);
    s
}

/// The value of a sequence of ASCII digits.
pub open spec fn digits_value(s: Seq<char>) -> nat
    decreases s.len(),
{
    if s.len() == 0 {
        0
    } else {
        digits_value(s.drop_last()) * 10 + ((s.last() as u32) - 48) as nat
    }
}

/// Whether every character of `s` is an ASCII digit.
pub open spec fn all_digits(s: Seq<char>) -> bool {
    forall|i: int| 0 <= i < s.len() ==> is_digit(#[trigger] s[i])
}

/// The decimal representation of `n` is a non-empty run of digits whose
/// value is `n`.
pub proof fn lemma_decimal_digits(n: nat)
    ensures
        decimal(n).len() >= 1,
        all_digits(decimal(n)),
        digits_value(decimal(n)) == n,
    decreases n,
{
    let last = n % 10;
    assert((digit_char(last) as u32) == 48 + last);
    if n < 10 {
        let d = decimal(n);
        assert(d.drop_last() =~= Seq::<char>::empty());
        assert(digits_value(d) == digits_value(d.drop_last()) * 10 + ((d.last() as u32) - 48) as nat);
    } else {
        lemma_decimal_digits(n / 10);
        let d = decimal(n);
        assert(digits_value(d) == digits_value(d.drop_last()) * 10 + ((d.last() as u32) - 48) as nat);
        assert(d.drop_last() == decimal(n / 10));
        assert(d.last() == digit_char(n % 10));
        assert(all_digits(d)) by {
            assert forall|i: int| 0 <= i < d.len() implies is_digit(#[trigger] d[i]) by {
                if i < d.len() - 1 {
                    assert(d[i] == decimal(n / 10)[i]);
                }
            }
        }
    }
}

/// Reading the decimal representation of a number back gives the number.
pub proof fn lemma_parse_decimal(n: u64)
    ensures
        parse_u64(decimal(n as nat)) == Some(n),
{
    lemma_decimal_digits(n as nat);
    assert(is_digit(decimal(n as nat)[0]));
}

/// `u64::from_str`: an optional `'+'` then at least one ASCII digit, with a
/// value that fits in 64 bits.
pub open spec fn parse_u64(s: Seq<char>) -> Option<u64> {
    let d = if s.len() > 0 && s[0] == '+' {
        s.drop_first()
    } else {
        s
    };
    if d.len() == 0 || !all_digits(d) || digits_value(d) > u64::MAX {
        None
    } else {
        Some(digits_value(d) as u64)
    }
}

proof fn lemma_digits_value_grows(s: Seq<char>, i: int)
    requires
        0 <= i <= s.len(),
        all_digits(s),
    ensures
        digits_value(s.take(i)) <= digits_value(s),
    decreases s.len() - i,
{
    if i < s.len() {
        lemma_digits_value_grows(s, i + 1);
        assert(s.take(i + 1).drop_last() == s.take(i));
    } else {
        assert(s.take(i) == s);
    }
}

/// Parses a decimal `u64` from `v[from..to]` the way `str::parse::<u64>` does.
pub fn parse_u64_chars(v: &Vec<char>, from: usize, to: usize) -> (r: Option<u64>)
    requires
        from <= to <= v@.len(),
    ensures
        r == parse_u64(v@.subrange(from as int, to as int)),
{
    let ghost s = v@.subrange(from as int, to as int);
    let mut start = from;
    if from < to && v[from] == '+' {
        start = from + 1;
    }
    let ghost d = v@.subrange(start as int, to as int);
    assert(d == (if s.len() > 0 && s[0] == '+' {
        s.drop_first()
    } else {
        s
    }));
    if start == to {
        return None;
    }
    let mut value: u64 = 0;
    let mut i = start;
    let mut overflow = false;
    while i < to
        invariant
            from <= start <= i <= to <= v@.len(),
            d == v@.subrange(start as int, to as int),
            s == v@.subrange(from as int, to as int),
            d == (if s.len() > 0 && s[0] == '+' {
                s.drop_first()
            } else {
                s
            }),
            forall|k: int| start <= k < i ==> is_digit(#[trigger] v@[k]),
            !overflow ==> value == digits_value(d.take(i - start)),
            overflow ==> digits_value(d.take(i - start)) > u64::MAX,
        decreases to - i,
    {
        let c = v[i];
        if !('0' <= c && c <= '9') {
            assert(!all_digits(d)) by {
                assert(d[i - start] == c);
            }
            return None;
        }
        let ghost prev = d.take(i - start);
        assert(d.take(i - start + 1).drop_last() == prev);
        assert(d.take(i - start + 1).last() == c);
        let digit = (c as u32 - 48) as u64;
        if !overflow {
            if value > (u64::MAX - digit) / 10 {
                overflow = true;
            } else {
                value = value * 10 + digit;
            }
        } else {
            assert(digits_value(d.take(i - start + 1)) >= digits_value(prev)) by (nonlinear_arith)
                requires
                    digits_value(d.take(i - start + 1)) == digits_value(prev) * 10 + digit,
            ;
        }
        i = i + 1;
    }
    assert(d.take(to - start) == d);
    assert(all_digits(d));
    if overflow {
        None
    } else {
        Some(value)
    }
}

} // verus!

verus! {

/// The number of bytes in the UTF-8 encoding of `s` (`str::len`).
pub fn byte_len(s: &str) -> (n: usize)
    ensures
        n == utf8_len(s@),
{
    let b = s.as_bytes();
    b.len()
}

} // verus!

verus! {

/// The text of an optional `String`.
pub open spec fn opt_text(o: Option<String>) -> Option<Seq<char>> {
    match o {
        Some(s) => Some(s@),
        None => None,
    }
}

} // verus!

verus! {

/// The views of a list of strings.
pub open spec fn texts(v: Seq<String>) -> Seq<Seq<char>> {
    v.map_values(|s: String| s@)
}

/// The pieces `ps` with `sep` between them (`[String]::join`).
pub open spec fn joined(ps: Seq<Seq<char>>, sep: Seq<char>) -> Seq<char>
    decreases ps.len(),
{
    if ps.len() == 0 {
        seq![]
    } else if ps.len() == 1 {
        ps[0]
    } else {
        joined(ps.drop_last(), sep) + sep + ps.last()
    }
}

/// `[String]::join(sep)`.
pub fn join_texts(v: &Vec<String>, sep: &str) -> (r: String)
    ensures
        r@ == joined(texts(v@), sep@),
{
    let mut out = String::new();
    let mut i: usize = 0;
    while i < v.len()
        invariant
            i <= v@.len(),
            out@ == joined(texts(v@.take(i as int)), sep@),
        decreases v@.len() - i,
    {
        if i > 0 {
            push_str(&mut out, sep);
        }
        push_str(&mut out, v[i].as_str());
        proof {
            let t = texts(v@.take(i + 1));
            assert(t.drop_last() == texts(v@.take(i as int)));
            assert(t.last() == v@[i as int]@);
            if i == 0 {
                assert(texts(v@.take(0)) =~= seq![]);
                assert(out@ == seq![] + v@[0]@);
                assert(t.len() == 1);
            }
        }
        i = i + 1;
    }
    assert(v@.take(v@.len() as int) == v@);
    out
}

/// Appends a copy of `s` to a list of strings.
pub fn push_text(v: &mut Vec<String>, s: &str)
    ensures
        texts(final(v)@) == texts(old(v)@).push(s@),
{
    let ghost before = texts(v@);
    v.push(s.to_owned());
    assert(texts(v@) =~= before.push(s@));
}

/// Appends copies of `items` to a list of strings.
pub fn push_texts(v: &mut Vec<String>, items: &Vec<String>)
    ensures
        texts(final(v)@) == texts(old(v)@) + texts(items@),
{
    let ghost before = texts(v@);
    let mut i: usize = 0;
    while i < items.len()
        invariant
            i <= items@.len(),
            texts(v@) == before + texts(items@.take(i as int)),
        decreases items@.len() - i,
    {
        push_text(v, items[i].as_str());
        assert(texts(items@.take(i + 1)) == texts(items@.take(i as int)).push(items@[i as int]@));
        i = i + 1;
    }
    assert(items@.take(items@.len() as int) == items@);
}

} // verus!

verus! {

/// `str::split_once(c)` as owned strings.
pub fn split_once_text(s: &str, c: char) -> (r: Option<(String, String)>)
    ensures
        match split_once(s@, c) {
            Some((a, b)) => r matches Some((x, y)) && x@ == a && y@ == b,
            None => r is None,
        },
{
    let v = chars_of(s);
    let p = find_char(&v, 0, c);
    assert(v@.skip(0) == v@);
    proof {
        lemma_first_pos(v@, c);
    }
    if p == v.len() {
        None
    } else {
        Some((string_from(&v, 0, p), string_from(&v, p + 1, v.len())))
    }
}

/// `str::rsplit_once(c)` as owned strings.
pub fn rsplit_once_text(s: &str, c: char) -> (r: Option<(String, String)>)
    ensures
        match rsplit_once(s@, c) {
            Some((a, b)) => r matches Some((x, y)) && x@ == a && y@ == b,
            None => r is None,
        },
{
    let v = chars_of(s);
    proof {
        lemma_last_pos(v@, c);
    }
    match last_index_of(&v, c) {
        None => None,
        Some(p) => Some((string_from(&v, 0, p), string_from(&v, p + 1, v.len()))),
    }
}

} // verus!

verus! {

/// `str::to_lowercase`: the full Unicode lowercase mapping of `s`.
pub uninterp spec fn unicode_lowercase(s: Seq<char>) -> Seq<char>;

/// Lowercases a text with `str::to_lowercase`; the contract claims only
/// that the result is the mapping named by `unicode_lowercase`.
#[verifier::external_body]
pub(crate) fn to_lowercase(s: &str) -> (r: String)
    ensures
        r@ == unicode_lowercase(s@),
{
    s.to_lowercase()
}

} // verus!
