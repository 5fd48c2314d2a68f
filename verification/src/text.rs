//! Character-level helpers shared by the vocabulary engine and the
//! dictation pipeline: Unicode case mapping and character classes,
//! whitespace trimming, and UTF-8 byte offsets of character prefixes.
//!
//! The Unicode tables live outside this crate: the case mappings and
//! character classes are the standard library's (and, for the word
//! class, the regex grammar's), so their results carry names here and
//! the rest of the library reasons over those names.

use vstd::prelude::*;
use vstd::string::StrSliceExecFns;
use vstd::utf8::encode_utf8;

verus! {

/// The full Unicode lowercase mapping of one character (one to three
/// characters), a function of the character alone.
pub uninterp spec fn lower_chars_of(c: char) -> Seq<char>;

/// The full Unicode uppercase mapping of one character (one to three
/// characters), a function of the character alone.
pub uninterp spec fn upper_chars_of(c: char) -> Seq<char>;

/// Whether the character has the Unicode `Alphabetic` property.
pub uninterp spec fn is_alphabetic_of(c: char) -> bool;

/// Whether the character has the Unicode `Uppercase` property.
pub uninterp spec fn is_uppercase_of(c: char) -> bool;

/// Whether the character has the Unicode `White_Space` property.
pub uninterp spec fn is_whitespace_of(c: char) -> bool;

/// Whether the character belongs to the word class `\w` that the
/// original matcher's word boundaries are built on.
pub uninterp spec fn is_word_char_of(c: char) -> bool;

/// Relies on `char::to_lowercase`: the character's full Unicode
/// lowercase mapping, in order.
#[verifier::external_body]
pub fn char_lower(c: char) -> (r: Vec<char>)
    ensures
        r@ == lower_chars_of(c),
{
    c.to_lowercase().collect()
}

/// Relies on `char::to_uppercase`: the character's full Unicode
/// uppercase mapping, in order.
#[verifier::external_body]
pub fn char_upper(c: char) -> (r: Vec<char>)
    ensures
        r@ == upper_chars_of(c),
{
    c.to_uppercase().collect()
}

/// Relies on `char::is_alphabetic`: the Unicode `Alphabetic` property.
pub assume_specification[ char::is_alphabetic ](c: char) -> (r: bool)
    ensures
        r == is_alphabetic_of(c),
;

/// Relies on `char::is_uppercase`: the Unicode `Uppercase` property.
pub assume_specification[ char::is_uppercase ](c: char) -> (r: bool)
    ensures
        r == is_uppercase_of(c),
;

/// Relies on `char::is_whitespace`: the Unicode `White_Space` property.
pub assume_specification[ char::is_whitespace ](c: char) -> (r: bool)
    ensures
        r == is_whitespace_of(c),
;

/// Relies on `regex_syntax::is_word_character`: membership in the
/// `\w` class of UTS#18 (`Alphabetic`, `Join_Control`,
/// `Decimal_Number`, `Mark` or `Connector_Punctuation`), looked up in
/// static tables; total with the crate's default features.
#[verifier::external_body]
pub fn char_is_word(c: char) -> (r: bool)
    ensures
        r == is_word_char_of(c),
{
    regex_syntax::is_word_character(c)
}

/// Two characters are equal up to case: their full lowercase mappings
/// agree.
pub open spec fn ci_eq(a: char, b: char) -> bool {
    lower_chars_of(a) == lower_chars_of(b)
}

/// Element-wise equality of two character vectors.
pub fn chars_eq(a: &Vec<char>, b: &Vec<char>) -> (r: bool)
    ensures
        r == (a@ == b@),
{
    if a.len() != b.len() {
        return false;
    }
    let mut i: usize = 0;
    while i < a.len()
        invariant
            a@.len() == b@.len(),
            i <= a@.len(),
            forall|j: int| 0 <= j < i ==> a@[j] == b@[j],
        decreases a@.len() - i,
    {
        if a[i] != b[i] {
            return false;
        }
        i = i + 1;
    }
    proof {
        assert(a@ =~= b@);
    }
    true
}

pub fn ci_eq_x(a: char, b: char) -> (r: bool)
    ensures
        r == ci_eq(a, b),
{
    let la = char_lower(a);
    let lb = char_lower(b);
    chars_eq(&la, &lb)
}

/// The full uppercase mapping of a character sequence: each
/// character's mapping, concatenated.
pub open spec fn upper_seq(s: Seq<char>) -> Seq<char>
    decreases s.len(),
{
    if s.len() == 0 {
        seq![]
    } else {
        upper_seq(s.drop_last()) + upper_chars_of(s.last())
    }
}

/// Number of bytes in the UTF-8 encoding of a character sequence.
pub open spec fn byte_len(s: Seq<char>) -> int {
    encode_utf8(s).len() as int
}

/// UTF-8 encoding distributes over concatenation.
pub proof fn lemma_byte_len_concat(a: Seq<char>, b: Seq<char>)
    ensures
        encode_utf8(a + b) == encode_utf8(a) + encode_utf8(b),
        byte_len(a + b) == byte_len(a) + byte_len(b),
    decreases a.len(),
{
    if a.len() == 0 {
        assert(a + b =~= b);
        assert(encode_utf8(a) + encode_utf8(b) =~= encode_utf8(b));
    } else {
        assert((a + b).drop_first() =~= a.drop_first() + b);
        lemma_byte_len_concat(a.drop_first(), b);
        assert(encode_utf8(a + b) =~= encode_utf8(a) + encode_utf8(b));
    }
}

/// The characters of `s`, in order.
pub fn str_to_chars(s: &str) -> (r: Vec<char>)
    ensures
        r@ == s@,
{
    let n = s.unicode_len();
    let mut r: Vec<char> = Vec::new();
    let mut i: usize = 0;
    while i < n
        invariant
            n == s@.len(),
            i <= n,
            r@ == s@.take(i as int),
        decreases n - i,
    {
        r.push(s.get_char(i));
        proof {
            assert(r@ =~= s@.take(i + 1));
        }
        i = i + 1;
    }
    proof {
        assert(s@.take(n as int) =~= s@);
    }
    r
}

/// The UTF-8 encoding of `s` fits in a real string: its byte length is
/// representable.  Holds of the view of every `String`, whose buffer
/// cannot exceed the address space.
pub open spec fn bytes_fit(s: Seq<char>) -> bool {
    encode_utf8(s).len() <= usize::MAX
}

/// Relies on `String::push` from the standard library: appending one
/// character to the end of the string.  A `String` always holds at most
/// `isize::MAX` bytes, so the new contents still fit.
pub assume_specification[ String::push ](s: &mut String, c: char)
    ensures
        final(s)@ == old(s)@.push(c),
        bytes_fit(final(s)@),
;

/// A `String` holding exactly the given characters.
pub fn chars_to_string(v: &Vec<char>) -> (r: String)
    ensures
        r@ == v@,
{
    let mut r = String::new();
    let mut i: usize = 0;
    while i < v.len()
        invariant
            i <= v@.len(),
            r@ == v@.take(i as int),
        decreases v@.len() - i,
    {
        r.push(v[i]);
        proof {
            assert(r@ =~= v@.take(i + 1));
        }
        i = i + 1;
    }
    proof {
        assert(v@.take(v@.len() as int) =~= v@);
    }
    r
}

/// `s` with leading and trailing whitespace removed.
pub open spec fn trim_spec(s: Seq<char>) -> Seq<char>
    decreases s.len(),
{
    if s.len() == 0 {
        s
    } else if is_whitespace_of(s[0]) {
        trim_spec(s.drop_first())
    } else if is_whitespace_of(s.last()) {
        trim_spec(s.drop_last())
    } else {
        s
    }
}

/// A sequence whose outermost characters are not spaces, framed only by
/// spaces, trims to exactly the framed window.
proof fn lemma_trim_window(s: Seq<char>, lo: int, hi: int)
    requires
        0 <= lo <= hi <= s.len(),
        forall|k: int| 0 <= k < lo ==> is_whitespace_of(#[trigger] s[k]),
        forall|k: int| hi <= k < s.len() ==> is_whitespace_of(#[trigger] s[k]),
        lo < hi ==> !is_whitespace_of(s[lo]) && !is_whitespace_of(s[hi - 1]),
    ensures
        trim_spec(s) == s.subrange(lo, hi),
    decreases s.len(),
{
    if s.len() == 0 {
        assert(trim_spec(s) =~= s.subrange(lo, hi));
    } else if is_whitespace_of(s[0]) {
        // lo > 0 or the window is empty and starts past 0
        let t = s.drop_first();
        if lo == 0 {
            // window empty (lo == hi == 0 impossible unless hi == 0; hi > 0 would make s[0] non-space)
            assert(lo == hi);
            lemma_trim_window(t, 0, 0);
            assert(trim_spec(s) == trim_spec(t));
            assert(s.subrange(lo, hi) =~= t.subrange(0, 0));
        } else {
            lemma_trim_window(t, lo - 1, hi - 1);
            assert(s.subrange(lo, hi) =~= t.subrange(lo - 1, hi - 1));
        }
    } else if is_whitespace_of(s.last()) {
        let t = s.drop_last();
        // the last character is a space, so hi < s.len(); and lo == 0 here
        assert(lo == 0);
        lemma_trim_window(t, lo, hi);
        assert(s.subrange(lo, hi) =~= t.subrange(lo, hi));
    } else {
        assert(lo == 0 && hi == s.len());
        assert(trim_spec(s) =~= s.subrange(lo, hi));
    }
}

/// The characters of `v` with leading and trailing whitespace removed.
pub fn trim_chars(v: &Vec<char>) -> (r: Vec<char>)
    ensures
        r@ == trim_spec(v@),
{
    let n = v.len();
    let mut lo: usize = 0;
    while lo < n && v[lo].is_whitespace()
        invariant
            n == v@.len(),
            lo <= n,
            forall|k: int| 0 <= k < lo ==> is_whitespace_of(#[trigger] v@[k]),
        decreases n - lo,
    {
        lo = lo + 1;
    }
    let mut hi: usize = n;
    while hi > lo && v[hi - 1].is_whitespace()
        invariant
            n == v@.len(),
            lo <= hi <= n,
            forall|k: int| hi <= k < n ==> is_whitespace_of(#[trigger] v@[k]),
        decreases hi,
    {
        hi = hi - 1;
    }
    let mut r: Vec<char> = Vec::new();
    let mut i: usize = lo;
    while i < hi
        invariant
            lo <= i <= hi <= v@.len(),
            r@ == v@.subrange(lo as int, i as int),
        decreases hi - i,
    {
        r.push(v[i]);
        proof {
            assert(r@ =~= v@.subrange(lo as int, i + 1));
        }
        i = i + 1;
    }
    proof {
        lemma_trim_window(v@, lo as int, hi as int);
    }
    r
}

/// Character-wise string equality.
pub fn str_eq(a: &str, b: &str) -> (r: bool)
    ensures
        r == (a@ == b@),
{
    let na = a.unicode_len();
    let nb = b.unicode_len();
    if na != nb {
        return false;
    }
    let mut i: usize = 0;
    while i < na
        invariant
            na == a@.len(),
            na == b@.len(),
            i <= na,
            forall|j: int| 0 <= j < i ==> a@[j] == b@[j],
        decreases na - i,
    {
        if a.get_char(i) != b.get_char(i) {
            return false;
        }
        i = i + 1;
    }
    proof {
        assert(a@ =~= b@);
    }
    true
}

/// `s` with leading and trailing whitespace removed, as a `String`.
pub fn trim_str(s: &str) -> (r: String)
    ensures
        r@ == trim_spec(s@),
{
    let chars = str_to_chars(s);
    let trimmed = trim_chars(&chars);
    chars_to_string(&trimmed)
}

} // verus!
