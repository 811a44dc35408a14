//! Helpers on text that the rest of the crate shares.

use vstd::prelude::*;
use vstd::string::*;
use vstd::utf8::{decode_utf8, valid_utf8};

verus! {

/// Whether two string slices have the same characters.
pub fn str_eq(a: &str, b: &str) -> (r: bool)
    ensures
        r == (a@ == b@),
{
    let a = a.to_owned();
    let b = b.to_owned();
    a == b
}

/// The items of a sequence written one after another, with a separator
/// between neighbours.
pub open spec fn join_text(parts: Seq<Seq<char>>, separator: Seq<char>) -> Seq<char>
    decreases parts.len(),
{
    if parts.len() == 0 {
        Seq::empty()
    } else if parts.len() == 1 {
        parts[0]
    } else {
        join_text(parts.drop_last(), separator) + separator + parts.last()
    }
}

/// Joins strings with a separator between neighbours.
pub fn join(parts: &Vec<String>, separator: &str) -> (r: String)
    ensures
        r@ == join_text(parts.deep_view(), separator@),
{
    let mut joined = String::new();
    let mut i: usize = 0;
    while i < parts.len()
        invariant
            i <= parts.len(),
            joined@ == join_text(parts.deep_view().take(i as int), separator@),
        decreases parts.len() - i,
    {
        let ghost before = parts.deep_view().take(i as int);
        let ghost after = parts.deep_view().take(i + 1);
        proof {
            assert(after.drop_last() =~= before);
            assert(after.last() == parts[i as int]@);
        }
        if i > 0 {
            joined.append(separator);
        }
        joined.append(parts[i].as_str());
        proof {
            if i == 0 {
                assert(joined@ =~= parts[0]@);
            }
        }
        i += 1;
    }
    proof {
        assert(parts.deep_view().take(parts.len() as int) =~= parts.deep_view());
    }
    joined
}

/// The characters of a string slice, one by one.
pub fn chars_of(s: &str) -> (r: Vec<char>)
    ensures
        r@ == s@,
{
    broadcast use vstd::string::group_string_axioms;
    let mut chars: Vec<char> = Vec::new();
    for c in it: s.chars()
        invariant
            it.seq() == s@,
            chars@ == s@.take(it.index() as int),
    {
        chars.push(c);
        assert(chars@ =~= s@.take(it.index() + 1));
    }
    assert(s@.take(s@.len() as int) =~= s@);
    chars
}

/// What `String::from_utf8` says of bytes that are no UTF-8: the text of its
/// error.
pub uninterp spec fn utf8_fault_text(bytes: Seq<u8>) -> Seq<char>;

/// Calls `String::from_utf8`, which succeeds exactly on bytes that are valid
/// UTF-8 and then holds the characters that they encode. Its error is handed
/// out as its text, which depends on the bytes alone and goes by the name
/// [`utf8_fault_text`].
#[verifier::external_body]
pub(crate) fn utf8_text(bytes: Vec<u8>) -> (r: Result<String, String>)
    ensures
        match r {
            Ok(text) => valid_utf8(bytes@) && text@ == decode_utf8(bytes@),
            Err(reason) => !valid_utf8(bytes@) && reason@ == utf8_fault_text(bytes@),
        },
{
    String::from_utf8(bytes).map_err(|e| e.to_string())
}

/// The place of the first `c` in a sequence, or its length if there is
/// none.
pub open spec fn find(s: Seq<char>, c: char) -> int
    decreases s.len(),
{
    if s.len() == 0 || s[0] == c {
        0
    } else {
        1 + find(s.drop_first(), c)
    }
}

/// [`find`] is the one place that holds `c` and has no `c` before it.
pub proof fn lemma_find(s: Seq<char>, c: char, i: int)
    requires
        0 <= i <= s.len(),
        forall|j: int| 0 <= j < i ==> s[j] != c,
        i < s.len() ==> s[i] == c,
    ensures
        find(s, c) == i,
    decreases s.len(),
{
    if i > 0 {
        lemma_find(s.drop_first(), c, i - 1);
    }
}

/// Finds the first `c` among the characters, or returns their number.
pub fn find_char(chars: &Vec<char>, c: char) -> (r: usize)
    ensures
        r == find(chars@, c),
{
    let mut i: usize = 0;
    while i < chars.len() && chars[i] != c
        invariant
            i <= chars.len(),
            forall|j: int| 0 <= j < i ==> chars@[j] != c,
        decreases chars.len() - i,
    {
        i += 1;
    }
    proof {
        lemma_find(chars@, c, i as int);
    }
    i
}

/// The characters that a trim takes off the ends of a text.
#[derive(Clone, Copy, Debug, PartialEq, Eq, Structural)]
pub enum Strip {
    /// White space, as Unicode counts it.
    Whitespace,
    /// The double quote.
    Quote,
}

/// Whether a character has the Unicode property `White_Space`.
pub open spec fn is_whitespace(c: char) -> bool {
    let v = c as u32;
    ||| 0x09 <= v <= 0x0D
    ||| v == 0x20
    ||| v == 0x85
    ||| v == 0xA0
    ||| v == 0x1680
    ||| 0x2000 <= v <= 0x200A
    ||| v == 0x2028
    ||| v == 0x2029
    ||| v == 0x202F
    ||| v == 0x205F
    ||| v == 0x3000
}

impl Strip {
    /// Whether the trim takes this character off.
    pub open spec fn strips_spec(self, c: char) -> bool {
        match self {
            Strip::Whitespace => is_whitespace(c),
            Strip::Quote => c == '"',
        }
    }

    /// Whether the trim takes this character off.
    #[verifier::when_used_as_spec(strips_spec)]
    pub fn strips(self, c: char) -> (r: bool)
        ensures
            r == self.strips_spec(c),
    {
        match self {
            Strip::Whitespace => {
                let v = c as u32;
                (0x09 <= v && v <= 0x0D) || v == 0x20 || v == 0x85 || v == 0xA0 || v == 0x1680 || (
                0x2000 <= v && v <= 0x200A) || v == 0x2028 || v == 0x2029 || v == 0x202F || v
                    == 0x205F || v == 0x3000
            },
            Strip::Quote => c == '"',
        }
    }
}

/// A text without the characters at its start that the trim takes off.
pub open spec fn trim_start(s: Seq<char>, strip: Strip) -> Seq<char>
    decreases s.len(),
{
    if s.len() > 0 && strip.strips(s[0]) {
        trim_start(s.drop_first(), strip)
    } else {
        s
    }
}

/// A text without the characters at its end that the trim takes off.
pub open spec fn trim_end(s: Seq<char>, strip: Strip) -> Seq<char>
    decreases s.len(),
{
    if s.len() > 0 && strip.strips(s.last()) {
        trim_end(s.drop_last(), strip)
    } else {
        s
    }
}

/// A text without the characters at both ends that the trim takes off.
pub open spec fn trim(s: Seq<char>, strip: Strip) -> Seq<char> {
    trim_end(trim_start(s, strip), strip)
}

/// Trims the characters from `from` up to `to`, and returns where what is
/// left starts and ends.
pub fn trim_range(chars: &Vec<char>, from: usize, to: usize, strip: Strip) -> (r: (usize, usize))
    requires
        from <= to <= chars.len(),
    ensures
        from <= r.0 <= r.1 <= to,
        chars@.subrange(r.0 as int, r.1 as int) == trim(
            chars@.subrange(from as int, to as int),
            strip,
        ),
{
    let ghost whole = chars@.subrange(from as int, to as int);
    let mut start = from;
    while start < to && strip.strips(chars[start])
        invariant
            from <= start <= to <= chars.len(),
            trim_start(whole, strip) == trim_start(chars@.subrange(start as int, to as int), strip),
        decreases to - start,
    {
        proof {
            let rest = chars@.subrange(start as int, to as int);
            assert(rest.drop_first() =~= chars@.subrange(start + 1, to as int));
        }
        start += 1;
    }
    let ghost headless = chars@.subrange(start as int, to as int);
    assert(trim_start(whole, strip) == headless);
    let mut end = to;
    while start < end && strip.strips(chars[end - 1])
        invariant
            start <= end <= to <= chars.len(),
            trim_end(headless, strip) == trim_end(chars@.subrange(start as int, end as int), strip),
        decreases end - start,
    {
        proof {
            let rest = chars@.subrange(start as int, end as int);
            assert(rest.drop_last() =~= chars@.subrange(start as int, end - 1));
        }
        end -= 1;
    }
    (start, end)
}

} // verus!
