//! Character-level helpers shared by the tree builder and the serializer.

use vstd::prelude::*;
use vstd::string::StringExecFns;

verus! {

/// A run of `n` space characters.
pub open spec fn spaces(n: nat) -> Seq<char> {
    Seq::new(n, |i: int| ' ')
}

/// Whether `c` carries the Unicode `White_Space` property.
pub open spec fn is_whitespace(c: char) -> bool {
    let u = c as u32;
    ||| 0x09 <= u <= 0x0D
    ||| u == 0x20
    ||| u == 0x85
    ||| u == 0xA0
    ||| u == 0x1680
    ||| 0x2000 <= u <= 0x200A
    ||| u == 0x2028
    ||| u == 0x2029
    ||| u == 0x202F
    ||| u == 0x205F
    ||| u == 0x3000
}

/// Tests whether `c` is whitespace: the executable form of
/// [`is_whitespace`].
pub fn is_whitespace_char(c: char) -> (r: bool)
    ensures
        r == is_whitespace(c),
{
    let u = c as u32;
    (0x09 <= u && u <= 0x0D) || u == 0x20 || u == 0x85 || u == 0xA0 || u == 0x1680 || (0x2000 <= u
        && u <= 0x200A) || u == 0x2028 || u == 0x2029 || u == 0x202F || u == 0x205F || u == 0x3000
}

/// `s` without its leading whitespace.
pub open spec fn trimmed_start(s: Seq<char>) -> Seq<char>
    decreases s.len(),
{
    if s.len() > 0 && is_whitespace(s.first()) {
        trimmed_start(s.drop_first())
    } else {
        s
    }
}

/// `s` without its trailing whitespace.
pub open spec fn trimmed_end(s: Seq<char>) -> Seq<char>
    decreases s.len(),
{
    if s.len() > 0 && is_whitespace(s.last()) {
        trimmed_end(s.drop_last())
    } else {
        s
    }
}

/// `s` without leading and trailing whitespace.
pub open spec fn trimmed(s: Seq<char>) -> Seq<char> {
    trimmed_end(trimmed_start(s))
}

/// Calls `str::trim`. Trusted: the result is the input with every leading
/// and trailing `White_Space` character removed and nothing else changed.
#[verifier::external_body]
pub(crate) fn trim<'a>(s: &'a str) -> (r: &'a str)
    ensures
        r@ == trimmed(s@),
{
    s.trim()
}

/// Calls `str::strip_prefix` with a string pattern. Trusted: the result is
/// the rest of `s` after `prefix` when `s` starts with it, and `None`
/// otherwise.
#[verifier::external_body]
pub(crate) fn strip_prefix<'a>(s: &'a str, prefix: &str) -> (r: Option<&'a str>)
    ensures
        match r {
            Some(rest) => s@ == prefix@ + rest@,
            None => !prefix@.is_prefix_of(s@),
        },
{
    s.strip_prefix(prefix)
}

/// Calls `str::strip_suffix` with a string pattern. Trusted: the result is
/// the part of `s` before `suffix` when `s` ends with it, and `None`
/// otherwise.
#[verifier::external_body]
pub(crate) fn strip_suffix<'a>(s: &'a str, suffix: &str) -> (r: Option<&'a str>)
    ensures
        match r {
            Some(rest) => s@ == rest@ + suffix@,
            None => !suffix@.is_suffix_of(s@),
        },
{
    s.strip_suffix(suffix)
}

/// Appends `indent_level` single spaces to `buffer`.
pub fn write_indent(buffer: &mut String, indent_level: u16)
    ensures
        final(buffer)@ == old(buffer)@ + spaces(indent_level as nat),
{
    let mut written: u16 = 0;
    while written < indent_level
        invariant
            written <= indent_level,
            buffer@ == old(buffer)@ + spaces(written as nat),
        decreases indent_level - written,
    {
        buffer.append(" ");
        proof {
            reveal_strlit(" ");
        }
        written = written + 1;
    }
}

/// Whether every character of `s` is whitespace.
pub open spec fn is_blank(s: Seq<char>) -> bool {
    forall|i: int| 0 <= i < s.len() ==> is_whitespace(#[trigger] s[i])
}

/// Whether `s` neither starts nor ends with whitespace.
pub open spec fn is_trimmed(s: Seq<char>) -> bool {
    s.len() > 0 ==> !is_whitespace(s.first()) && !is_whitespace(s.last())
}

/// Trimming the start drops a blank prefix and stops at the first character
/// that is not whitespace.
pub proof fn lemma_trimmed_start(s: Seq<char>)
    ensures
        trimmed_start(s).len() <= s.len(),
        trimmed_start(s) == s.skip(s.len() - trimmed_start(s).len()),
        is_blank(s.take(s.len() - trimmed_start(s).len())),
        trimmed_start(s).len() > 0 ==> !is_whitespace(trimmed_start(s).first()),
    decreases s.len(),
{
    if s.len() > 0 && is_whitespace(s.first()) {
        let rest = s.drop_first();
        lemma_trimmed_start(rest);
        let kept = trimmed_start(rest);
        assert forall|i: int| 0 <= i < s.len() - kept.len() implies is_whitespace(
            #[trigger] s.take(s.len() - kept.len())[i],
        ) by {
            if i > 0 {
                assert(s[i] == rest.take(rest.len() - kept.len())[i - 1]);
            }
        }
    } else {
    }
}

/// Trimming the end drops a blank suffix and stops at the last character
/// that is not whitespace.
pub proof fn lemma_trimmed_end(s: Seq<char>)
    ensures
        trimmed_end(s).len() <= s.len(),
        trimmed_end(s) == s.take(trimmed_end(s).len() as int),
        is_blank(s.skip(trimmed_end(s).len() as int)),
        trimmed_end(s).len() > 0 ==> !is_whitespace(trimmed_end(s).last()),
    decreases s.len(),
{
    if s.len() > 0 && is_whitespace(s.last()) {
        let rest = s.drop_last();
        lemma_trimmed_end(rest);
        let kept = trimmed_end(rest);
        assert forall|i: int| 0 <= i < s.len() - kept.len() implies is_whitespace(
            #[trigger] s.skip(kept.len() as int)[i],
        ) by {
            if i < s.len() - kept.len() - 1 {
                assert(s[kept.len() + i] == rest.skip(kept.len() as int)[i]);
            }
        }
    } else {
    }
}

/// What is left after trimming neither starts nor ends with whitespace.
pub proof fn lemma_trimmed_is_trimmed(s: Seq<char>)
    ensures
        is_trimmed(trimmed(s)),
        trimmed(s).len() <= s.len(),
{
    lemma_trimmed_start(s);
    lemma_trimmed_end(trimmed_start(s));
}

/// Trimming leaves nothing of a blank string.
pub proof fn lemma_trimmed_blank(s: Seq<char>)
    requires
        is_blank(s),
    ensures
        trimmed(s) == Seq::<char>::empty(),
{
    lemma_trimmed_start(s);
    let kept = trimmed_start(s);
    if kept.len() > 0 {
    }
}

} // verus!
