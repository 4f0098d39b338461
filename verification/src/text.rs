//! Character-level text handling shared by the query language and the views:
//! conversion between strings and character vectors, whitespace trimming,
//! UTF-8 byte lengths, and decimal numbers.

use vstd::prelude::*;

verus! {

/// The characters of a string, in order.
pub fn chars_of(s: &str) -> (v: Vec<char>)
    ensures
        v@ == s@,
{
    let mut v: Vec<char> = Vec::new();
    for c in it: s.chars()
        invariant
            it.seq() == s@,
            v@ == it.seq().take(it.index()),
    {
        v.push(c);
        proof {
            assert(v@ =~= it.seq().take(it.index() + 1));
        }
    }
    v
}

} // verus!

verus! {

/// Appends one character to a string.
///
/// Calls `String::push`, which the standard library documents as appending
/// the given `char` to the end of the string; the contract says exactly that.
#[verifier::external_body]
fn push_char(s: &mut String, c: char)
    ensures
        final(s)@ == old(s)@.push(c),
{
    s.push(c);
}

/// Appends a character to a string.
pub fn string_push(s: &mut String, c: char)
    ensures
        final(s)@ == old(s)@.push(c),
{
    push_char(s, c);
}

/// Appends the characters of `t` to `s`.
pub fn string_append_chars(s: &mut String, t: &Vec<char>)
    ensures
        final(s)@ == old(s)@ + t@,
{
    let ghost start = s@;
    let mut i: usize = 0;
    while i < t.len()
        invariant
            i <= t.len(),
            s@ == start + t@.take(i as int),
        decreases t.len() - i,
    {
        push_char(s, t[i]);
        i = i + 1;
        proof {
            assert(start + t@.take(i as int) =~= (start + t@.take(i - 1)).push(t@[i - 1]));
        }
    }
    proof {
        assert(t@.take(i as int) =~= t@);
    }
}

/// Appends the characters of `t` to `s`.
pub fn string_append_str(s: &mut String, t: &str)
    ensures
        final(s)@ == old(s)@ + t@,
{
    let v = chars_of(t);
    string_append_chars(s, &v);
}

/// A new string holding `v[lo..hi]`.
pub fn string_of_range(v: &Vec<char>, lo: usize, hi: usize) -> (s: String)
    requires
        lo <= hi <= v.len(),
    ensures
        s@ == v@.subrange(lo as int, hi as int),
{
    let mut s = String::new();
    let mut i: usize = lo;
    while i < hi
        invariant
            lo <= i <= hi <= v.len(),
            s@ == v@.subrange(lo as int, i as int),
        decreases hi - i,
    {
        push_char(&mut s, v[i]);
        i = i + 1;
        proof {
            assert(s@ =~= v@.subrange(lo as int, i as int));
        }
    }
    s
}

/// A new string holding all of `v`.
pub fn string_of_chars(v: &Vec<char>) -> (s: String)
    ensures
        s@ == v@,
{
    let s = string_of_range(v, 0, v.len());
    proof {
        assert(v@.subrange(0, v@.len() as int) =~= v@);
    }
    s
}

/// A new string equal to a literal or other string slice.
pub fn string_from_str(t: &str) -> (s: String)
    ensures
        s@ == t@,
{
    let v = chars_of(t);
    string_of_chars(&v)
}

/// Whether `v[lo..hi]` spells exactly `t`.
pub fn range_equals(v: &Vec<char>, lo: usize, hi: usize, t: &Vec<char>) -> (b: bool)
    requires
        lo <= hi <= v.len(),
    ensures
        b == (v@.subrange(lo as int, hi as int) == t@),
{
    if hi - lo != t.len() {
        proof {
            assert(v@.subrange(lo as int, hi as int).len() != t@.len());
        }
        return false;
    }
    let mut i: usize = 0;
    while i < t.len()
        invariant
            lo <= hi <= v.len(),
            hi - lo == t.len(),
            i <= t.len(),
            forall|k: int| 0 <= k < i ==> v@[lo + k] == t@[k],
        decreases t.len() - i,
    {
        if v[lo + i] != t[i] {
            proof {
                assert(v@.subrange(lo as int, hi as int)[i as int] != t@[i as int]);
            }
            return false;
        }
        i = i + 1;
    }
    proof {
        assert(v@.subrange(lo as int, hi as int) =~= t@);
    }
    true
}

/// Whether two character vectors are equal.
pub fn chars_equal(a: &Vec<char>, b: &Vec<char>) -> (r: bool)
    ensures
        r == (a@ == b@),
{
    let r = range_equals(a, 0, a.len(), b);
    proof {
        assert(a@.subrange(0, a@.len() as int) =~= a@);
    }
    r
}

/// Whether a string equals a string slice.
pub fn string_equals_str(s: &String, t: &str) -> (r: bool)
    ensures
        r == (s@ == t@),
{
    let a = chars_of(s.as_str());
    let b = chars_of(t);
    chars_equal(&a, &b)
}

/// Whether `v[lo..hi]` holds the character `c`.
pub fn range_contains(v: &Vec<char>, lo: usize, hi: usize, c: char) -> (b: bool)
    requires
        lo <= hi <= v.len(),
    ensures
        b == v@.subrange(lo as int, hi as int).contains(c),
{
    let mut i: usize = lo;
    while i < hi
        invariant
            lo <= i <= hi <= v.len(),
            forall|k: int| lo <= k < i ==> v@[k] != c,
        decreases hi - i,
    {
        if v[i] == c {
            proof {
                assert(v@.subrange(lo as int, hi as int)[i - lo] == c);
            }
            return true;
        }
        i = i + 1;
    }
    proof {
        if v@.subrange(lo as int, hi as int).contains(c) {
            let k = choose|k: int| 0 <= k < hi - lo && v@.subrange(lo as int, hi as int)[k] == c;
            assert(v@[lo + k] == c);
        }
    }
    false
}

/// Index of the first `c` in `v[lo..hi]`, if any.
pub open spec fn first_index_of(s: Seq<char>, c: char) -> Option<int> {
    if s.contains(c) {
        Some(choose|k: int| 0 <= k < s.len() && s[k] == c && forall|j: int| 0 <= j < k ==> s[j] != c)
    } else {
        None
    }
}

/// Position of the first `c` in `v[lo..hi]`, counted from `lo`.
pub fn range_find(v: &Vec<char>, lo: usize, hi: usize, c: char) -> (r: Option<usize>)
    requires
        lo <= hi <= v.len(),
    ensures
        match r {
            Some(k) => lo <= k < hi && v@[k as int] == c && forall|j: int| lo <= j < k ==> v@[j] != c,
            None => !v@.subrange(lo as int, hi as int).contains(c),
        },
{
    let mut i: usize = lo;
    while i < hi
        invariant
            lo <= i <= hi <= v.len(),
            forall|k: int| lo <= k < i ==> v@[k] != c,
        decreases hi - i,
    {
        if v[i] == c {
            return Some(i);
        }
        i = i + 1;
    }
    proof {
        if v@.subrange(lo as int, hi as int).contains(c) {
            let k = choose|k: int| 0 <= k < hi - lo && v@.subrange(lo as int, hi as int)[k] == c;
            assert(v@[lo + k] == c);
        }
    }
    None
}

/// Position of the last `c` in `v[lo..hi]`.
pub fn range_rfind(v: &Vec<char>, lo: usize, hi: usize, c: char) -> (r: Option<usize>)
    requires
        lo <= hi <= v.len(),
    ensures
        match r {
            Some(k) => lo <= k < hi && v@[k as int] == c && forall|j: int| k < j < hi ==> v@[j] != c,
            None => forall|j: int| lo <= j < hi ==> v@[j] != c,
        },
{
    let mut i: usize = hi;
    while i > lo
        invariant
            lo <= i <= hi <= v.len(),
            forall|k: int| i <= k < hi ==> v@[k] != c,
        decreases i - lo,
    {
        if v[i - 1] == c {
            return Some(i - 1);
        }
        i = i - 1;
    }
    None
}

/// Unicode `White_Space` characters, the ones `str::trim` removes.
pub open spec fn is_white_space(c: char) -> bool {
    let u = c as u32;
    ||| 0x9 <= u <= 0xd
    ||| u == 0x20
    ||| u == 0x85
    ||| u == 0xa0
    ||| u == 0x1680
    ||| 0x2000 <= u <= 0x200a
    ||| u == 0x2028
    ||| u == 0x2029
    ||| u == 0x202f
    ||| u == 0x205f
    ||| u == 0x3000
}

/// Whether a character is Unicode white space.
pub fn is_white_space_char(c: char) -> (b: bool)
    ensures
        b == is_white_space(c),
{
    let u = c as u32;
    (0x9 <= u && u <= 0xd) || u == 0x20 || u == 0x85 || u == 0xa0 || u == 0x1680 || (0x2000 <= u
        && u <= 0x200a) || u == 0x2028 || u == 0x2029 || u == 0x202f || u == 0x205f || u == 0x3000
}

/// `s` without its leading white space.
pub open spec fn trim_start(s: Seq<char>) -> Seq<char>
    decreases s.len(),
{
    if s.len() > 0 && is_white_space(s[0]) {
        trim_start(s.drop_first())
    } else {
        s
    }
}

/// `s` without its trailing white space.
pub open spec fn trim_end(s: Seq<char>) -> Seq<char>
    decreases s.len(),
{
    if s.len() > 0 && is_white_space(s.last()) {
        trim_end(s.drop_last())
    } else {
        s
    }
}

/// `s` without leading and trailing white space, as `str::trim` gives it.
pub open spec fn trim(s: Seq<char>) -> Seq<char> {
    trim_end(trim_start(s))
}

/// Bounds of `v[lo..hi]` once leading and trailing white space is cut off.
pub fn trim_range(v: &Vec<char>, lo: usize, hi: usize) -> (r: (usize, usize))
    requires
        lo <= hi <= v.len(),
    ensures
        lo <= r.0 <= r.1 <= hi,
        v@.subrange(r.0 as int, r.1 as int) == trim(v@.subrange(lo as int, hi as int)),
{
    let mut i: usize = lo;
    while i < hi && is_white_space_char(v[i])
        invariant
            lo <= i <= hi <= v.len(),
            trim_start(v@.subrange(lo as int, hi as int)) == trim_start(
                v@.subrange(i as int, hi as int),
            ),
        decreases hi - i,
    {
        proof {
            assert(v@.subrange(i as int, hi as int).drop_first() =~= v@.subrange(
                i + 1,
                hi as int,
            ));
        }
        i = i + 1;
    }
    let mut j: usize = hi;
    while j > i && is_white_space_char(v[j - 1])
        invariant
            lo <= i <= j <= hi <= v.len(),
            trim_start(v@.subrange(lo as int, hi as int)) == v@.subrange(i as int, hi as int),
            trim_end(v@.subrange(i as int, hi as int)) == trim_end(v@.subrange(i as int, j as int)),
        decreases j - i,
    {
        proof {
            assert(v@.subrange(i as int, j as int).drop_last() =~= v@.subrange(
                i as int,
                j - 1,
            ));
        }
        j = j - 1;
    }
    (i, j)
}

/// A new string holding `s` without leading and trailing white space.
pub fn trimmed(s: &str) -> (r: String)
    ensures
        r@ == trim(s@),
{
    let v = chars_of(s);
    let (a, b) = trim_range(&v, 0, v.len());
    proof {
        assert(v@.subrange(0, v@.len() as int) =~= v@);
    }
    string_of_range(&v, a, b)
}

/// Whether every character of `s` is ASCII.
pub open spec fn is_ascii_text(s: Seq<char>) -> bool {
    forall|i: int| 0 <= i < s.len() ==> (#[trigger] s[i] as u32) < 0x80
}

/// An ASCII character in lower case: `A` to `Z` become `a` to `z`.
pub open spec fn ascii_lower(c: char) -> char {
    if 'A' <= c && c <= 'Z' {
        ((c as u32) + 32) as char
    } else {
        c
    }
}

/// An ASCII character in upper case: `a` to `z` become `A` to `Z`.
pub open spec fn ascii_upper(c: char) -> char {
    if 'a' <= c && c <= 'z' {
        ((c as u32) - 32) as char
    } else {
        c
    }
}

/// What `str::to_lowercase` returns for a text holding a non-ASCII character.
pub uninterp spec fn lowercase_beyond_ascii(s: Seq<char>) -> Seq<char>;

/// What `str::to_uppercase` returns for a text holding a non-ASCII character.
pub uninterp spec fn uppercase_beyond_ascii(s: Seq<char>) -> Seq<char>;

/// What `str::to_lowercase` returns: an ASCII text letter by letter, any
/// other text as Unicode's case mapping gives it.
pub open spec fn lowercase(s: Seq<char>) -> Seq<char> {
    if is_ascii_text(s) {
        s.map_values(|c: char| ascii_lower(c))
    } else {
        lowercase_beyond_ascii(s)
    }
}

/// What `str::to_uppercase` returns: an ASCII text letter by letter, any
/// other text as Unicode's case mapping gives it.
pub open spec fn uppercase(s: Seq<char>) -> Seq<char> {
    if is_ascii_text(s) {
        s.map_values(|c: char| ascii_upper(c))
    } else {
        uppercase_beyond_ascii(s)
    }
}

/// Calls `str::to_lowercase`. Of an ASCII text the result is stated letter
/// by letter (only `A` to `Z` change); of any other text it is named, and the
/// Unicode case mapping behind it is left unstated.
#[verifier::external_body]
fn str_to_lowercase(s: &str) -> (r: String)
    ensures
        is_ascii_text(s@) ==> r@ == s@.map_values(|c: char| ascii_lower(c)),
        !is_ascii_text(s@) ==> r@ == lowercase_beyond_ascii(s@),
{
    s.to_lowercase()
}

/// Calls `str::to_uppercase`. Of an ASCII text the result is stated letter
/// by letter (only `a` to `z` change); of any other text it is named, and the
/// Unicode case mapping behind it is left unstated.
#[verifier::external_body]
fn str_to_uppercase(s: &str) -> (r: String)
    ensures
        is_ascii_text(s@) ==> r@ == s@.map_values(|c: char| ascii_upper(c)),
        !is_ascii_text(s@) ==> r@ == uppercase_beyond_ascii(s@),
{
    s.to_uppercase()
}

/// The lowercase form of `v[lo..hi]`.
pub fn lowercase_of_range(v: &Vec<char>, lo: usize, hi: usize) -> (r: Vec<char>)
    requires
        lo <= hi <= v.len(),
    ensures
        r@ == lowercase(v@.subrange(lo as int, hi as int)),
{
    let s = string_of_range(v, lo, hi);
    let l = str_to_lowercase(s.as_str());
    chars_of(l.as_str())
}

/// The lowercase form of a string.
pub fn to_lowercase(s: &str) -> (r: String)
    ensures
        r@ == lowercase(s@),
{
    str_to_lowercase(s)
}

/// The uppercase form of a string.
pub fn to_uppercase(s: &str) -> (r: String)
    ensures
        r@ == uppercase(s@),
{
    str_to_uppercase(s)
}

/// Number of bytes in the UTF-8 encoding of one character.
pub open spec fn char_utf8_width(c: char) -> nat {
    let u = c as u32;
    if u < 0x80 {
        1
    } else if u < 0x800 {
        2
    } else if u < 0x10000 {
        3
    } else {
        4
    }
}

/// Number of bytes in the UTF-8 encoding of a character sequence: what `str::len` returns.
pub open spec fn utf8_len(s: Seq<char>) -> nat
    decreases s.len(),
{
    if s.len() == 0 {
        0
    } else {
        char_utf8_width(s[0]) + utf8_len(s.drop_first())
    }
}

/// The UTF-8 length of a concatenation is the sum of the lengths.
pub proof fn lemma_utf8_len_concat(a: Seq<char>, b: Seq<char>)
    ensures
        utf8_len(a + b) == utf8_len(a) + utf8_len(b),
    decreases a.len(),
{
    if a.len() == 0 {
        assert(a + b =~= b);
    } else {
        lemma_utf8_len_concat(a.drop_first(), b);
        assert((a + b).drop_first() =~= a.drop_first() + b);
    }
}

/// Extending a prefix by one character adds that character's width.
pub proof fn lemma_utf8_len_take_step(s: Seq<char>, k: int)
    requires
        0 <= k < s.len(),
    ensures
        utf8_len(s.take(k + 1)) == utf8_len(s.take(k)) + char_utf8_width(s[k]),
{
    lemma_utf8_len_concat(s.take(k), seq![s[k]]);
    assert(s.take(k + 1) =~= s.take(k) + seq![s[k]]);
    assert(seq![s[k]].drop_first() =~= Seq::<char>::empty());
    assert(utf8_len(seq![s[k]]) == char_utf8_width(s[k]) + utf8_len(Seq::<char>::empty()));
}

/// Longer prefixes have strictly more bytes.
pub proof fn lemma_utf8_len_take_strict(s: Seq<char>, j: int, k: int)
    requires
        0 <= j < k <= s.len(),
    ensures
        utf8_len(s.take(j)) < utf8_len(s.take(k)),
    decreases k - j,
{
    lemma_utf8_len_take_step(s, k - 1);
    if j < k - 1 {
        lemma_utf8_len_take_strict(s, j, k - 1);
    }
}

/// `utf8_len` counts the bytes of the standard UTF-8 encoding.
pub proof fn lemma_utf8_len_is_encoded_len(s: Seq<char>)
    ensures
        utf8_len(s) == vstd::utf8::encode_utf8(s).len(),
    decreases s.len(),
{
    if s.len() > 0 {
        lemma_utf8_len_is_encoded_len(s.drop_first());
        vstd::utf8::char_is_scalar(s[0]);
    }
}

/// Number of bytes in the UTF-8 encoding of one character.
pub fn char_width(c: char) -> (n: usize)
    ensures
        n == char_utf8_width(c),
{
    let u = c as u32;
    if u < 0x80 {
        1
    } else if u < 0x800 {
        2
    } else if u < 0x10000 {
        3
    } else {
        4
    }
}

/// Whether byte offset `pos` falls between two characters of `s` (or at either end).
pub open spec fn is_char_boundary_at(s: Seq<char>, pos: int) -> bool {
    exists|k: int| 0 <= k <= s.len() && utf8_len(s.take(k)) == pos
}

/// The number of characters whose encoding fills exactly the first `pos` bytes.
pub open spec fn chars_before_byte(s: Seq<char>, pos: int) -> int {
    choose|k: int| 0 <= k <= s.len() && utf8_len(s.take(k)) == pos
}

/// At most one prefix has a given byte length.
pub proof fn lemma_chars_before_byte_unique(s: Seq<char>, k: int, pos: int)
    requires
        0 <= k <= s.len(),
        utf8_len(s.take(k)) == pos,
    ensures
        is_char_boundary_at(s, pos),
        chars_before_byte(s, pos) == k,
{
    let k2 = chars_before_byte(s, pos);
    if k2 < k {
        lemma_utf8_len_take_strict(s, k2, k);
    } else if k < k2 {
        lemma_utf8_len_take_strict(s, k, k2);
    }
}

/// Byte length of a character vector.
pub fn utf8_len_of(v: &Vec<char>) -> (n: usize)
    requires
        utf8_len(v@) <= usize::MAX,
    ensures
        n == utf8_len(v@),
{
    let mut n: usize = 0;
    let mut i: usize = 0;
    while i < v.len()
        invariant
            i <= v.len(),
            n == utf8_len(v@.take(i as int)),
            utf8_len(v@) <= usize::MAX,
        decreases v.len() - i,
    {
        proof {
            lemma_utf8_len_take_step(v@, i as int);
            if i + 1 < v.len() {
                lemma_utf8_len_take_strict(v@, i + 1, v@.len() as int);
            }
            assert(v@.take(v@.len() as int) =~= v@);
        }
        n = n + char_width(v[i]);
        i = i + 1;
    }
    proof {
        assert(v@.take(v@.len() as int) =~= v@);
    }
    n
}

/// Converts a byte offset into a character count: `Some(k)` when the first
/// `k` characters take exactly `pos` bytes, `None` when `pos` falls inside a
/// character or beyond the end.
pub fn char_index_of_byte(v: &Vec<char>, pos: usize) -> (r: Option<usize>)
    ensures
        match r {
            Some(k) => k <= v.len() && utf8_len(v@.take(k as int)) == pos,
            None => !is_char_boundary_at(v@, pos as int),
        },
{
    let mut n: usize = 0;
    let mut i: usize = 0;
    while i < v.len() && n < pos
        invariant
            i <= v.len(),
            n == utf8_len(v@.take(i as int)),
            n <= pos,
            forall|k: int| 0 <= k < i ==> utf8_len(v@.take(k)) < pos,
        decreases v.len() - i,
    {
        proof {
            lemma_utf8_len_take_step(v@, i as int);
        }
        let w = char_width(v[i]);
        if pos - n < w {
            proof {
                assert forall|k: int| 0 <= k <= v@.len() implies utf8_len(v@.take(k)) != pos by {
                    if k > i + 1 {
                        lemma_utf8_len_take_strict(v@, i + 1, k);
                    }
                }
            }
            return None;
        }
        n = n + w;
        i = i + 1;
    }
    if n == pos {
        Some(i)
    } else {
        proof {
            assert forall|k: int| 0 <= k <= v@.len() implies utf8_len(v@.take(k)) != pos by {
                if k > i {
                    lemma_utf8_len_take_strict(v@, i as int, k);
                }
            }
        }
        None
    }
}

/// The decimal digits `0` to `9`.
pub open spec fn is_ascii_digit(c: char) -> bool {
    '0' <= c && c <= '9'
}

/// Value of a decimal digit.
pub open spec fn digit_value(c: char) -> nat {
    (c as u32 - '0' as u32) as nat
}

/// Value of a sequence of decimal digits.
pub open spec fn decimal_value(s: Seq<char>) -> nat
    decreases s.len(),
{
    if s.len() == 0 {
        0
    } else {
        decimal_value(s.drop_last()) * 10 + digit_value(s.last())
    }
}

/// The digits that unsigned-integer parsing reads: an optional leading `+` is skipped.
pub open spec fn unsigned_digits(s: Seq<char>) -> Seq<char> {
    if s.len() > 0 && s[0] == '+' {
        s.drop_first()
    } else {
        s
    }
}

/// What `str::parse` gives for an unsigned integer type whose largest value
/// is `max`: an optional `+`, then one or more decimal digits whose value
/// does not exceed `max`; anything else is an error.
pub open spec fn parse_unsigned(s: Seq<char>, max: nat) -> Option<nat> {
    let d = unsigned_digits(s);
    if d.len() > 0 && (forall|i: int| 0 <= i < d.len() ==> is_ascii_digit(#[trigger] d[i]))
        && decimal_value(d) <= max {
        Some(decimal_value(d))
    } else {
        None
    }
}

/// Appending a digit never lowers the value.
proof fn lemma_decimal_value_prefix_monotone(s: Seq<char>, j: int, k: int)
    requires
        0 <= j <= k <= s.len(),
    ensures
        decimal_value(s.take(j)) <= decimal_value(s.take(k)),
    decreases k - j,
{
    if j < k {
        lemma_decimal_value_prefix_monotone(s, j, k - 1);
        assert(s.take(k).drop_last() =~= s.take(k - 1));
    }
}

/// Parses `v[lo..hi]` as an unsigned integer no larger than `max`.
fn parse_unsigned_range(v: &Vec<char>, lo: usize, hi: usize, max: u64) -> (r: Option<u64>)
    requires
        lo <= hi <= v.len(),
        max >= 9,
    ensures
        match parse_unsigned(v@.subrange(lo as int, hi as int), max as nat) {
            Some(n) => r == Some(n as u64),
            None => r is None,
        },
{
    let ghost s = v@.subrange(lo as int, hi as int);
    let mut start = lo;
    if lo < hi && v[lo] == '+' {
        start = lo + 1;
    }
    let ghost d = v@.subrange(start as int, hi as int);
    proof {
        assert(unsigned_digits(s) =~= d);
    }
    if start == hi {
        return None;
    }
    let mut acc: u64 = 0;
    let mut i: usize = start;
    while i < hi
        invariant
            lo <= start < hi <= v.len(),
            start <= i <= hi,
            d == v@.subrange(start as int, hi as int),
            s == v@.subrange(lo as int, hi as int),
            unsigned_digits(s) == d,
            max >= 9,
            forall|k: int| 0 <= k < i - start ==> is_ascii_digit(#[trigger] d[k]),
            acc == decimal_value(d.take(i - start)),
            acc <= max,
        decreases hi - i,
    {
        let c = v[i];
        if !('0' <= c && c <= '9') {
            proof {
                assert(!is_ascii_digit(d[i - start]));
            }
            return None;
        }
        let dv = (c as u32 - '0' as u32) as u64;
        proof {
            assert(d.take(i - start + 1).drop_last() =~= d.take(i - start));
            assert(d.take(i - start + 1).last() == c);
        }
        if acc > (max - dv) / 10 {
            proof {
                assert(acc * 10 + dv > max) by (nonlinear_arith)
                    requires
                        acc > (max - dv) / 10,
                        dv <= max,
                ;
                lemma_decimal_value_prefix_monotone(d, i - start + 1, d.len() as int);
                assert(d.take(d.len() as int) =~= d);
            }
            return None;
        }
        proof {
            assert(acc * 10 + dv <= max) by (nonlinear_arith)
                requires
                    acc <= (max - dv) / 10,
                    dv <= max,
            ;
        }
        acc = acc * 10 + dv;
        i = i + 1;
    }
    proof {
        assert(d.take(d.len() as int) =~= d);
    }
    Some(acc)
}

/// Parses `v[lo..hi]` as a `u32`, as `str::parse::<u32>` does.
pub fn parse_u32_range(v: &Vec<char>, lo: usize, hi: usize) -> (r: Option<u32>)
    requires
        lo <= hi <= v.len(),
    ensures
        match parse_unsigned(v@.subrange(lo as int, hi as int), u32::MAX as nat) {
            Some(n) => r == Some(n as u32),
            None => r is None,
        },
{
    match parse_unsigned_range(v, lo, hi, u32::MAX as u64) {
        Some(n) => Some(n as u32),
        None => None,
    }
}

/// Parses `v[lo..hi]` as a `usize`, as `str::parse::<usize>` does.
pub fn parse_usize_range(v: &Vec<char>, lo: usize, hi: usize) -> (r: Option<usize>)
    requires
        lo <= hi <= v.len(),
    ensures
        match parse_unsigned(v@.subrange(lo as int, hi as int), usize::MAX as nat) {
            Some(n) => r == Some(n as usize),
            None => r is None,
        },
{
    match parse_unsigned_range(v, lo, hi, usize::MAX as u64) {
        Some(n) => Some(n as usize),
        None => None,
    }
}

/// Parses `v[lo..hi]` as a `u64`, as `str::parse::<u64>` does.
pub fn parse_u64_range(v: &Vec<char>, lo: usize, hi: usize) -> (r: Option<u64>)
    requires
        lo <= hi <= v.len(),
    ensures
        match parse_unsigned(v@.subrange(lo as int, hi as int), u64::MAX as nat) {
            Some(n) => r == Some(n as u64),
            None => r is None,
        },
{
    parse_unsigned_range(v, lo, hi, u64::MAX)
}

/// The decimal form of a number is made of digits, and reads back as the number.
pub proof fn lemma_decimal_string_reads_back(n: nat)
    ensures
        decimal_string(n).len() >= 1,
        forall|i: int| 0 <= i < decimal_string(n).len() ==> is_ascii_digit(#[trigger] decimal_string(n)[i]),
        decimal_value(decimal_string(n)) == n,
    decreases n,
{
    let d = (n % 10) as nat;
    assert(digit_char(d) as u32 == d + 48) by {
        assert(d < 10);
    }
    if n >= 10 {
        lemma_decimal_string_reads_back(n / 10);
        let p = decimal_string(n / 10);
        assert(decimal_string(n) == p.push(digit_char(d)));
        assert(decimal_string(n).drop_last() =~= p);
        assert(decimal_string(n).last() == digit_char(d));
        assert(digit_value(digit_char(d)) == d);
        assert(decimal_value(decimal_string(n)) == decimal_value(p) * 10 + d);
        assert((n / 10) * 10 + d == n) by (nonlinear_arith)
            requires
                d == n % 10,
        ;
        assert forall|i: int| 0 <= i < decimal_string(n).len() implies is_ascii_digit(#[trigger] decimal_string(n)[i]) by {
            if i < p.len() {
                assert(decimal_string(n)[i] == p[i]);
            }
        }
    } else {
        assert(decimal_string(n) == seq![digit_char(n)]);
        assert(seq![digit_char(n)].drop_last() =~= Seq::<char>::empty());
        assert(digit_value(digit_char(d)) == d);
        assert(decimal_value(decimal_string(n)) == decimal_value(Seq::<char>::empty()) * 10 + d);
    }
}

/// Parses a string as a `u32`, as `str::parse::<u32>` does.
pub fn parse_u32(s: &str) -> (r: Option<u32>)
    ensures
        match parse_unsigned(s@, u32::MAX as nat) {
            Some(n) => r == Some(n as u32),
            None => r is None,
        },
{
    let v = chars_of(s);
    proof {
        assert(v@.subrange(0, v@.len() as int) =~= v@);
    }
    parse_u32_range(&v, 0, v.len())
}

/// Parses a string as a `usize`, as `str::parse::<usize>` does.
pub fn parse_usize(s: &str) -> (r: Option<usize>)
    ensures
        match parse_unsigned(s@, usize::MAX as nat) {
            Some(n) => r == Some(n as usize),
            None => r is None,
        },
{
    let v = chars_of(s);
    proof {
        assert(v@.subrange(0, v@.len() as int) =~= v@);
    }
    parse_usize_range(&v, 0, v.len())
}

/// The character for a digit value below ten.
pub open spec fn digit_char(d: nat) -> char {
    ((d + '0' as u32) as u32) as char
}

/// Decimal representation of a natural number, without leading zeros.
pub open spec fn decimal_string(n: nat) -> Seq<char>
    decreases n,
{
    if n < 10 {
        seq![digit_char(n)]
    } else {
        decimal_string(n / 10).push(digit_char(n % 10))
    }
}

/// Decimal representation of an integer, with a leading `-` when negative.
pub open spec fn signed_decimal_string(n: int) -> Seq<char> {
    if n < 0 {
        seq!['-'] + decimal_string((-n) as nat)
    } else {
        decimal_string(n as nat)
    }
}

/// Appends the decimal representation of `n`, as `{}` formatting writes it.
pub fn push_decimal(s: &mut String, n: u64)
    ensures
        final(s)@ == old(s)@ + decimal_string(n as nat),
    decreases n,
{
    if n >= 10 {
        push_decimal(s, n / 10);
    }
    let d = (n % 10) as u32;
    let c = char_from_digit(d);
    push_char(s, c);
    proof {
        if n >= 10 {
            assert(old(s)@ + decimal_string(n as nat) =~= old(s)@ + decimal_string((n / 10) as nat)
                + seq![digit_char((n % 10) as nat)]);
        } else {
            assert(old(s)@ + decimal_string(n as nat) =~= old(s)@.push(c));
        }
    }
}

/// The character of a decimal digit.
fn char_from_digit(d: u32) -> (c: char)
    requires
        d < 10,
    ensures
        c == digit_char(d as nat),
{
    match d {
        0 => '0',
        1 => '1',
        2 => '2',
        3 => '3',
        4 => '4',
        5 => '5',
        6 => '6',
        7 => '7',
        8 => '8',
        _ => '9',
    }
}

/// Appends the decimal representation of a signed number.
pub fn push_signed_decimal(s: &mut String, n: i64)
    ensures
        final(s)@ == old(s)@ + signed_decimal_string(n as int),
{
    if n < 0 {
        push_char(s, '-');
        let m: u64 = if n == i64::MIN {
            9223372036854775808u64
        } else {
            (-n) as u64
        };
        let ghost mid = s@;
        push_decimal(s, m);
        proof {
            assert(s@ =~= old(s)@ + signed_decimal_string(n as int));
        }
    } else {
        push_decimal(s, n as u64);
    }
}

} // verus!

verus! {

/// Whether a character vector spells a given string slice.
pub fn chars_eq_str(v: &Vec<char>, s: &str) -> (b: bool)
    ensures
        b == (v@ == s@),
{
    let t = chars_of(s);
    chars_equal(v, &t)
}

/// Whether `v[lo..hi]` spells a given string slice.
pub fn range_eq_str(v: &Vec<char>, lo: usize, hi: usize, s: &str) -> (b: bool)
    requires
        lo <= hi <= v.len(),
    ensures
        b == (v@.subrange(lo as int, hi as int) == s@),
{
    let t = chars_of(s);
    range_equals(v, lo, hi, &t)
}

} // verus!

verus! {

/// The pieces of `s` between occurrences of `c`, as `str::split` yields them
/// (an empty string gives one empty piece).
pub open spec fn split_on(s: Seq<char>, c: char) -> Seq<Seq<char>>
    decreases s.len(),
{
    if s.len() == 0 {
        seq![Seq::<char>::empty()]
    } else {
        let p = split_on(s.drop_last(), c);
        if s.last() == c {
            p.push(Seq::<char>::empty())
        } else {
            p.update(p.len() - 1, p.last().push(s.last()))
        }
    }
}

/// `split_on` always yields at least one piece.
pub proof fn lemma_split_on_nonempty(s: Seq<char>, c: char)
    ensures
        split_on(s, c).len() >= 1,
    decreases s.len(),
{
    if s.len() > 0 {
        lemma_split_on_nonempty(s.drop_last(), c);
    }
}

/// The characters of each string of a list.
pub open spec fn text_list(v: Seq<String>) -> Seq<Seq<char>> {
    v.map_values(|s: String| s@)
}

/// The pieces joined with `sep` between consecutive ones, as `join` builds them.
pub open spec fn join(parts: Seq<Seq<char>>, sep: Seq<char>) -> Seq<char>
    decreases parts.len(),
{
    if parts.len() == 0 {
        Seq::<char>::empty()
    } else if parts.len() == 1 {
        parts[0]
    } else {
        join(parts.drop_last(), sep) + sep + parts.last()
    }
}

/// Joins strings with a separator.
pub fn join_strings(parts: &Vec<String>, sep: &str) -> (r: String)
    ensures
        r@ == join(text_list(parts@), sep@),
{
    let ghost views = text_list(parts@);
    let mut r = String::new();
    let mut i: usize = 0;
    while i < parts.len()
        invariant
            i <= parts.len(),
            views == text_list(parts@),
            r@ == join(views.take(i as int), sep@),
        decreases parts.len() - i,
    {
        proof {
            assert(views.take(i + 1).drop_last() =~= views.take(i as int));
            assert(views.take(i + 1).last() == parts@[i as int]@);
        }
        if i > 0 {
            string_append_str(&mut r, sep);
        } else {
            proof {
                assert(views.take(1) =~= seq![parts@[0]@]);
            }
        }
        string_append_str(&mut r, parts[i].as_str());
        i = i + 1;
    }
    proof {
        assert(views.take(parts@.len() as int) =~= views);
    }
    r
}

} // verus!

verus! {

/// `k` is the position of the first `c` in `s`.
pub open spec fn is_first_index(s: Seq<char>, c: char, k: int) -> bool {
    &&& 0 <= k < s.len()
    &&& s[k] == c
    &&& forall|j: int| 0 <= j < k ==> s[j] != c
}

/// `s` split at its first `c` into the part before and the part after, as
/// `splitn(2, c)` yields them when `c` occurs; `None` when it does not.
pub open spec fn split_first(s: Seq<char>, c: char) -> Option<(Seq<char>, Seq<char>)> {
    if s.contains(c) {
        let k = choose|k: int| is_first_index(s, c, k);
        Some((s.take(k), s.skip(k + 1)))
    } else {
        None
    }
}

/// The first occurrence is unique, so `split_first` cuts at any position
/// shown to be the first occurrence.
pub proof fn lemma_split_first_at(s: Seq<char>, c: char, k: int)
    requires
        is_first_index(s, c, k),
    ensures
        split_first(s, c) == Some((s.take(k), s.skip(k + 1))),
{
    assert(s.contains(c));
    let k2 = choose|k: int| is_first_index(s, c, k);
    assert(is_first_index(s, c, k2));
    if k2 < k {
        assert(s[k2] != c);
    } else if k < k2 {
        assert(s[k] != c);
    }
}

/// `text` holds no `c`, and then splitting `text` + `c` + `rest` at the first
/// `c` gives back `text` and `rest`.
pub proof fn lemma_split_after(text: Seq<char>, c: char, rest: Seq<char>)
    requires
        !text.contains(c),
    ensures
        split_first(text + seq![c] + rest, c) == Some((text, rest)),
{
    let s = text + seq![c] + rest;
    assert(is_first_index(s, c, text.len() as int)) by {
        assert forall|j: int| 0 <= j < text.len() implies s[j] != c by {
            assert(s[j] == text[j]);
            if text[j] == c {
                assert(text.contains(c));
            }
        }
    }
    lemma_split_first_at(s, c, text.len() as int);
    assert(s.take(text.len() as int) =~= text);
    assert(s.skip(text.len() as int + 1) =~= rest);
}

/// Whether the UTF-8 encoding of `v[lo..hi]` takes exactly `n` bytes.
pub fn utf8_len_is(v: &Vec<char>, lo: usize, hi: usize, n: usize) -> (b: bool)
    requires
        lo <= hi <= v.len(),
    ensures
        b == (utf8_len(v@.subrange(lo as int, hi as int)) == n),
{
    let ghost s = v@.subrange(lo as int, hi as int);
    let mut acc: usize = 0;
    let mut i: usize = lo;
    while i < hi
        invariant
            lo <= i <= hi <= v.len(),
            s == v@.subrange(lo as int, hi as int),
            acc == utf8_len(s.take(i - lo)),
            acc <= n,
        decreases hi - i,
    {
        proof {
            lemma_utf8_len_take_step(s, i - lo);
        }
        let w = char_width(v[i]);
        if w > n - acc {
            proof {
                if i - lo + 1 < s.len() {
                    lemma_utf8_len_take_strict(s, i - lo + 1, s.len() as int);
                }
                assert(s.take(s.len() as int) =~= s);
            }
            return false;
        }
        acc = acc + w;
        i = i + 1;
    }
    proof {
        assert(s.take(s.len() as int) =~= s);
    }
    acc == n
}

} // verus!

verus! {

/// Position of the last `c` in `s`, or -1 when `s` has none.
pub open spec fn last_index_of(s: Seq<char>, c: char) -> int
    decreases s.len(),
{
    if s.len() == 0 {
        -1
    } else if s.last() == c {
        s.len() - 1
    } else {
        last_index_of(s.drop_last(), c)
    }
}

/// A position holding `c` with no `c` after it is the last position of `c`.
pub proof fn lemma_last_index_at(s: Seq<char>, c: char, k: int)
    requires
        0 <= k < s.len(),
        s[k] == c,
        forall|j: int| k < j < s.len() ==> s[j] != c,
    ensures
        last_index_of(s, c) == k,
    decreases s.len(),
{
    if k < s.len() - 1 {
        lemma_last_index_at(s.drop_last(), c, k);
    }
}

/// Without any `c` there is no last position of `c`.
pub proof fn lemma_last_index_none(s: Seq<char>, c: char)
    requires
        forall|j: int| 0 <= j < s.len() ==> s[j] != c,
    ensures
        last_index_of(s, c) == -1,
    decreases s.len(),
{
    if s.len() > 0 {
        lemma_last_index_none(s.drop_last(), c);
    }
}

/// The last position of `c` lies in range and holds `c`; -1 means `c` does not occur.
pub proof fn lemma_last_index_props(s: Seq<char>, c: char)
    ensures
        -1 <= last_index_of(s, c) < s.len(),
        last_index_of(s, c) >= 0 ==> s[last_index_of(s, c)] == c,
        last_index_of(s, c) == -1 <==> !s.contains(c),
    decreases s.len(),
{
    if s.len() > 0 {
        lemma_last_index_props(s.drop_last(), c);
        if s.last() != c && s.contains(c) {
            let j = choose|j: int| 0 <= j < s.len() && s[j] == c;
            assert(s.drop_last()[j] == c);
        }
    }
}

/// Position of the last `c` in `v[lo..hi]`, counted from `lo`, or -1.
pub fn rfind_in(v: &Vec<char>, lo: usize, hi: usize, c: char) -> (r: Option<usize>)
    requires
        lo <= hi <= v.len(),
    ensures
        match r {
            Some(k) => lo <= k < hi && last_index_of(v@.subrange(lo as int, hi as int), c) == k - lo,
            None => last_index_of(v@.subrange(lo as int, hi as int), c) == -1,
        },
{
    let r = range_rfind(v, lo, hi, c);
    proof {
        let s = v@.subrange(lo as int, hi as int);
        match r {
            Some(k) => {
                lemma_last_index_at(s, c, k - lo);
            },
            None => {
                lemma_last_index_none(s, c);
            },
        }
    }
    r
}

} // verus!

verus! {

/// A prefix takes no more bytes than the whole.
pub proof fn lemma_utf8_len_prefix_le(s: Seq<char>, k: int)
    requires
        0 <= k <= s.len(),
    ensures
        utf8_len(s.take(k)) <= utf8_len(s),
{
    if k < s.len() {
        lemma_utf8_len_take_strict(s, k, s.len() as int);
    }
    assert(s.take(s.len() as int) =~= s);
}

} // verus!

verus! {

/// Strict lexicographic order on character sequences, comparing code
/// points; the order `String`'s `cmp` gives, since UTF-8 keeps code-point order.
pub open spec fn lex_lt(a: Seq<char>, b: Seq<char>) -> bool
    decreases a.len(),
{
    if a.len() == 0 {
        b.len() > 0
    } else if b.len() == 0 {
        false
    } else if a[0] != b[0] {
        (a[0] as u32) < (b[0] as u32)
    } else {
        lex_lt(a.drop_first(), b.drop_first())
    }
}

/// Lexicographic order, equal sequences included.
pub open spec fn lex_le(a: Seq<char>, b: Seq<char>) -> bool {
    a == b || lex_lt(a, b)
}

/// The strict order is irreflexive and transitive, and any two distinct
/// sequences are ordered one way or the other.
pub proof fn lemma_lex_lt_strict_total(a: Seq<char>, b: Seq<char>)
    ensures
        !lex_lt(a, a),
        a != b ==> (lex_lt(a, b) || lex_lt(b, a)),
        !(lex_lt(a, b) && lex_lt(b, a)),
    decreases a.len(),
{
    if a.len() > 0 {
        lemma_lex_lt_strict_total(a.drop_first(), a.drop_first());
        if b.len() > 0 {
            lemma_lex_lt_strict_total(a.drop_first(), b.drop_first());
            vstd::utf8::char_u32_cast(a[0], a[0] as u32);
            vstd::utf8::char_u32_cast(b[0], b[0] as u32);
            if a[0] == b[0] && a.drop_first() == b.drop_first() {
                assert forall|i: int| 0 <= i < a.len() implies a[i] == b[i] by {
                    if i > 0 {
                        assert(a[i] == a.drop_first()[i - 1]);
                        assert(b[i] == b.drop_first()[i - 1]);
                    }
                }
                assert(a =~= b);
            }
        }
    } else if b.len() == 0 {
        assert(a =~= b);
    }
}

/// The strict order is transitive.
pub proof fn lemma_lex_lt_transitive(a: Seq<char>, b: Seq<char>, c: Seq<char>)
    requires
        lex_lt(a, b),
        lex_lt(b, c),
    ensures
        lex_lt(a, c),
    decreases a.len(),
{
    if a.len() > 0 && b.len() > 0 && c.len() > 0 {
        if a[0] == b[0] && b[0] == c[0] {
            lemma_lex_lt_transitive(a.drop_first(), b.drop_first(), c.drop_first());
        }
    }
}

/// Compares two character vectors lexicographically: whether `a < b`.
pub fn chars_lt(a: &Vec<char>, b: &Vec<char>) -> (r: bool)
    ensures
        r == lex_lt(a@, b@),
{
    let mut i: usize = 0;
    proof {
        assert(a@.skip(0) =~= a@);
        assert(b@.skip(0) =~= b@);
    }
    while i < a.len() && i < b.len() && a[i] == b[i]
        invariant
            i <= a.len(),
            i <= b.len(),
            lex_lt(a@, b@) == lex_lt(a@.skip(i as int), b@.skip(i as int)),
        decreases a.len() - i,
    {
        proof {
            assert(a@.skip(i as int).drop_first() =~= a@.skip(i + 1));
            assert(b@.skip(i as int).drop_first() =~= b@.skip(i + 1));
        }
        i = i + 1;
    }
    if i == a.len() {
        i < b.len()
    } else if i == b.len() {
        false
    } else {
        (a[i] as u32) < (b[i] as u32)
    }
}

} // verus!

verus! {

/// The strings are in lexicographic order.
pub open spec fn sorted_lex(s: Seq<String>) -> bool {
    forall|i: int, j: int| 0 <= i < j < s.len() ==> lex_le(s[i]@, s[j]@)
}

/// Inserting an element adds it to the multiset of elements.
pub proof fn lemma_insert_to_multiset<A>(s: Seq<A>, i: int, x: A)
    requires
        0 <= i <= s.len(),
    ensures
        s.insert(i, x).to_multiset() =~= s.to_multiset().insert(x),
{
    broadcast use vstd::seq_lib::group_to_multiset_ensures;

    let a = s.subrange(0, i);
    let b = s.subrange(i, s.len() as int);
    assert(s =~= a + b);
    vstd::seq_lib::lemma_multiset_commutative(a, b);
    vstd::seq_lib::lemma_multiset_commutative(a.push(x), b);
}

/// Sorts strings lexicographically; equal strings keep their relative order.
pub fn sort_lex(v: &Vec<String>) -> (r: Vec<String>)
    ensures
        sorted_lex(r@),
        r@.to_multiset() == v@.to_multiset(),
{
    broadcast use vstd::seq_lib::group_to_multiset_ensures;

    let mut r: Vec<String> = Vec::new();
    let mut i: usize = 0;
    proof {
        assert(v@.take(0) =~= Seq::<String>::empty());
        assert(r@ =~= Seq::<String>::empty());
    }
    while i < v.len()
        invariant
            i <= v.len(),
            sorted_lex(r@),
            r@.to_multiset() == v@.take(i as int).to_multiset(),
        decreases v.len() - i,
    {
        let x = v[i].clone();
        let xc = chars_of(x.as_str());
        let mut j: usize = 0;
        while j < r.len()
            invariant
                j <= r.len(),
                xc@ == x@,
                forall|k: int| 0 <= k < j ==> !lex_lt(x@, #[trigger] r@[k]@),
            ensures
                j <= r.len(),
                forall|k: int| 0 <= k < j ==> !lex_lt(x@, #[trigger] r@[k]@),
                j < r.len() ==> lex_lt(x@, r@[j as int]@),
            decreases r.len() - j,
        {
            let rc = chars_of(r[j].as_str());
            if chars_lt(&xc, &rc) {
                break;
            }
            j = j + 1;
        }
        let ghost old_r = r@;
        proof {
            assert forall|k: int| 0 <= k < j implies lex_le(#[trigger] old_r[k]@, x@) by {
                lemma_lex_lt_strict_total(old_r[k]@, x@);
            }
            if j < old_r.len() {
                assert forall|k: int| j <= k < old_r.len() implies lex_lt(x@, #[trigger] old_r[k]@) by {
                    if k > j {
                        assert(lex_le(old_r[j as int]@, old_r[k]@));
                        if old_r[j as int]@ != old_r[k]@ {
                            lemma_lex_lt_transitive(x@, old_r[j as int]@, old_r[k]@);
                        }
                    }
                }
            }
            lemma_insert_to_multiset(old_r, j as int, x);
            assert(v@.take(i + 1) =~= v@.take(i as int).push(v@[i as int]));
            v@.take(i as int).to_multiset_ensures();
            assert(v@.take(i as int).push(v@[i as int]).to_multiset() =~= v@.take(
                i as int,
            ).to_multiset().insert(v@[i as int]));
        }
        r.insert(j, x);
        proof {
            assert(r@ == old_r.insert(j as int, x));
            assert forall|a: int, b: int| 0 <= a < b < r@.len() implies lex_le(r@[a]@, r@[b]@) by {
                if a < j && b < j {
                } else if a < j && b == j {
                } else if a < j && b > j {
                    if old_r[a]@ != x@ {
                        if old_r[b - 1]@ != x@ {
                            lemma_lex_lt_transitive(old_r[a]@, x@, old_r[b - 1]@);
                        }
                    }
                } else if a == j {
                } else {
                    assert(r@[a] == old_r[a - 1]);
                    assert(r@[b] == old_r[b - 1]);
                }
            }
        }
        i = i + 1;
    }
    proof {
        assert(v@.take(v@.len() as int) =~= v@);
    }
    r
}

} // verus!

verus! {

/// `s` begins with `p`.
pub open spec fn starts_with(s: Seq<char>, p: Seq<char>) -> bool {
    p.len() <= s.len() && s.take(p.len() as int) == p
}

/// `p` occurs somewhere in `s` as a contiguous piece.
pub open spec fn contains_text(s: Seq<char>, p: Seq<char>) -> bool {
    exists|i: int| 0 <= i && i + p.len() <= s.len() && #[trigger] s.subrange(i, i + p.len()) == p
}

/// Whether `s` begins with `p`.
pub fn chars_starts_with(s: &Vec<char>, p: &Vec<char>) -> (b: bool)
    ensures
        b == starts_with(s@, p@),
{
    if p.len() > s.len() {
        return false;
    }
    let b = range_equals(s, 0, p.len(), p);
    proof {
        assert(s@.subrange(0, p@.len() as int) =~= s@.take(p@.len() as int));
    }
    b
}

/// Whether `p` occurs in `s`.
pub fn chars_contains_text(s: &Vec<char>, p: &Vec<char>) -> (b: bool)
    ensures
        b == contains_text(s@, p@),
{
    if p.len() > s.len() {
        return false;
    }
    if p.len() == 0 {
        proof {
            assert(s@.subrange(0int, 0int + p@.len()) =~= p@);
        }
        return true;
    }
    let mut i: usize = 0;
    let last = s.len() - p.len();
    while i <= last
        invariant
            0 < p.len() <= s.len(),
            last == s.len() - p.len(),
            i <= last + 1,
            forall|k: int| 0 <= k < i ==> #[trigger] s@.subrange(k, k + p@.len()) != p@,
        decreases last + 1 - i,
    {
        if range_equals(s, i, i + p.len(), p) {
            return true;
        }
        i = i + 1;
    }
    false
}

} // verus!

verus! {

/// The trimmed pieces that are not empty, in order.
pub open spec fn nonempty_trimmed(pieces: Seq<Seq<char>>) -> Seq<Seq<char>>
    decreases pieces.len(),
{
    if pieces.len() == 0 {
        Seq::empty()
    } else {
        let r = nonempty_trimmed(pieces.drop_last());
        if trim(pieces.last()).len() > 0 {
            r.push(trim(pieces.last()))
        } else {
            r
        }
    }
}

/// The items of a comma-separated list, trimmed, empty ones dropped.
pub open spec fn comma_list(v: Seq<char>) -> Seq<Seq<char>> {
    nonempty_trimmed(split_on(v, ','))
}

/// The items of the comma-separated list `v[lo..hi]`, trimmed, empty ones dropped.
pub fn comma_list_of_range(v: &Vec<char>, lo: usize, hi: usize) -> (r: Vec<String>)
    requires
        lo <= hi <= v.len(),
    ensures
        text_list(r@) == comma_list(v@.subrange(lo as int, hi as int)),
{
    let ghost s = v@.subrange(lo as int, hi as int);
    let ghost mut completed: Seq<Seq<char>> = Seq::empty();
    let mut r: Vec<String> = Vec::new();
    let mut start: usize = lo;
    let mut i: usize = lo;
    proof {
        assert(s.take(0) =~= Seq::<char>::empty());
        assert(v@.subrange(start as int, i as int) =~= Seq::<char>::empty());
        assert(split_on(s.take(0), ',') =~= completed.push(v@.subrange(start as int, i as int)));
        assert(text_list(r@) =~= Seq::<Seq<char>>::empty());
    }
    while i < hi
        invariant
            lo <= start <= i <= hi <= v.len(),
            s == v@.subrange(lo as int, hi as int),
            split_on(s.take(i - lo), ',') == completed.push(v@.subrange(start as int, i as int)),
            text_list(r@) == nonempty_trimmed(completed),
        decreases hi - i,
    {
        proof {
            assert(s.take(i - lo + 1).drop_last() =~= s.take(i - lo));
            assert(s.take(i - lo + 1).last() == v@[i as int]);
        }
        if v[i] == ',' {
            let (a, b) = trim_range(v, start, i);
            let ghost piece = v@.subrange(start as int, i as int);
            proof {
                assert(completed.push(piece).drop_last() =~= completed);
            }
            if a < b {
                let ghost before = r@;
                r.push(string_of_range(v, a, b));
                proof {
                    assert(text_list(r@) =~= text_list(before).push(trim(piece)));
                }
            }
            proof {
                completed = completed.push(piece);
                assert(v@.subrange((i + 1) as int, (i + 1) as int) =~= Seq::<char>::empty());
            }
            start = i + 1;
        } else {
            proof {
                assert(v@.subrange(start as int, i + 1) =~= v@.subrange(start as int, i as int).push(
                    v@[i as int],
                ));
            }
        }
        i = i + 1;
    }
    proof {
        assert(s.take(s.len() as int) =~= s);
        assert(completed.push(v@.subrange(start as int, hi as int)).drop_last() =~= completed);
    }
    let (a, b) = trim_range(v, start, hi);
    if a < b {
        let ghost before = r@;
        r.push(string_of_range(v, a, b));
        proof {
            assert(text_list(r@) =~= text_list(before).push(trim(v@.subrange(start as int, hi as int))));
        }
    }
    r
}

/// The items of a comma-separated list, trimmed, empty ones dropped.
pub fn comma_list_of(s: &str) -> (r: Vec<String>)
    ensures
        text_list(r@) == comma_list(s@),
{
    let v = chars_of(s);
    proof {
        assert(v@.subrange(0, v@.len() as int) =~= v@);
    }
    comma_list_of_range(&v, 0, v.len())
}

} // verus!

verus! {

/// `l` without one carriage return at its end.
pub open spec fn strip_cr(l: Seq<char>) -> Seq<char> {
    if l.len() > 0 && l.last() == '\r' { l.drop_last() } else { l }
}

/// The lines of a text as `str::lines` yields them: the pieces between line
/// feeds, a carriage return just before a line feed dropped, and no line
/// after a final line feed.
pub open spec fn text_lines(s: Seq<char>) -> Seq<Seq<char>> {
    let p = split_on(s, '\n');
    let done = p.drop_last().map_values(|l: Seq<char>| strip_cr(l));
    if p.last().len() == 0 { done } else { done.push(p.last()) }
}

/// `b` bounds a part of `v` that spells `l`.
pub open spec fn bounds_spell(v: Seq<char>, b: (usize, usize), l: Seq<char>) -> bool {
    b.0 <= b.1 <= v.len() && v.subrange(b.0 as int, b.1 as int) == l
}

/// The bounds of the lines of `v` (see [`text_lines`]).
pub fn line_bounds(v: &Vec<char>) -> (r: Vec<(usize, usize)>)
    ensures
        r@.len() == text_lines(v@).len(),
        forall|i: int| 0 <= i < r@.len() ==> bounds_spell(v@, #[trigger] r@[i], text_lines(v@)[i]),
{
    let ghost mut completed: Seq<Seq<char>> = Seq::empty();
    let mut r: Vec<(usize, usize)> = Vec::new();
    let mut start: usize = 0;
    let mut i: usize = 0;
    proof {
        assert(v@.take(0) =~= Seq::<char>::empty());
        assert(v@.subrange(0, 0) =~= Seq::<char>::empty());
        assert(split_on(v@.take(0), '\n') =~= completed.push(v@.subrange(0, 0)));
    }
    while i < v.len()
        invariant
            start <= i <= v.len(),
            split_on(v@.take(i as int), '\n') == completed.push(v@.subrange(start as int, i as int)),
            r@.len() == completed.len(),
            forall|j: int| 0 <= j < r@.len() ==> bounds_spell(v@, #[trigger] r@[j], strip_cr(completed[j])),
        decreases v.len() - i,
    {
        proof {
            assert(v@.take(i + 1).drop_last() =~= v@.take(i as int));
            assert(v@.take(i + 1).last() == v@[i as int]);
        }
        if v[i] == '\n' {
            let ghost piece = v@.subrange(start as int, i as int);
            let end = if i > start && v[i - 1] == '\r' { i - 1 } else { i };
            proof {
                if i > start && v@[i - 1] == '\r' {
                    assert(v@.subrange(start as int, end as int) =~= piece.drop_last());
                } else {
                    assert(v@.subrange(start as int, end as int) =~= piece);
                }
            }
            let ghost before = r@;
            r.push((start, end));
            proof {
                assert(bounds_spell(v@, r@[before.len() as int], strip_cr(piece)));
                assert forall|j: int| 0 <= j < before.len() implies bounds_spell(v@, #[trigger] r@[j], strip_cr(completed.push(piece)[j])) by {
                    assert(r@[j] == before[j]);
                    assert(completed.push(piece)[j] == completed[j]);
                }
                completed = completed.push(piece);
                assert(v@.subrange((i + 1) as int, (i + 1) as int) =~= Seq::<char>::empty());
            }
            start = i + 1;
        } else {
            proof {
                assert(v@.subrange(start as int, i + 1) =~= v@.subrange(start as int, i as int).push(v@[i as int]));
            }
        }
        i = i + 1;
    }
    proof {
        assert(v@.take(v@.len() as int) =~= v@);
        let p = split_on(v@, '\n');
        assert(p.drop_last() =~= completed);
        assert(p.last() == v@.subrange(start as int, v@.len() as int));
        assert(completed.map_values(|l: Seq<char>| strip_cr(l)).len() == completed.len());
    }
    let ghost before = r@;
    if start < v.len() {
        r.push((start, v.len()));
    }
    proof {
        let p = split_on(v@, '\n');
        let done = p.drop_last().map_values(|l: Seq<char>| strip_cr(l));
        assert forall|j: int| 0 <= j < r@.len() implies bounds_spell(v@, #[trigger] r@[j], text_lines(v@)[j]) by {
            if j < completed.len() {
                assert(r@[j] == before[j]);
                assert(done[j] == strip_cr(completed[j]));
                assert(bounds_spell(v@, before[j], strip_cr(completed[j])));
            } else {
                assert(r@[j] == (start, v.len()));
            }
        }
    }
    r
}

} // verus!
