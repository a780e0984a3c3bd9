//! Trimming of user text.
//!
//! Which characters are white space is decided by the standard library; the
//! rest is arithmetic on one flag per character: [`trim_range`] finds the
//! stretch that trimming keeps, and [`trim`] cuts it out.

use vstd::prelude::*;
use vstd::string::StringExecFns;

verus! {

/// Whether `c` counts as white space.  This names the answer of
/// `char::is_whitespace`, which goes by the Unicode `White_Space` property.
pub uninterp spec fn white_space(c: char) -> bool;

/// Calls `char::is_whitespace`.  The contract only gives the answer its
/// name, [`white_space`]; nothing is claimed about which characters count.
#[verifier::external_body]
fn is_whitespace(c: char) -> (answer: bool)
    ensures
        answer == white_space(c),
{
    c.is_whitespace()
}

/// For each character of `s`, whether it is white space.
pub open spec fn white_flags(s: Seq<char>) -> Seq<bool> {
    Seq::new(s.len(), |i: int| white_space(s[i]))
}

/// Every character of `s` is white space (so the empty text is blank).
pub open spec fn blank(s: Seq<char>) -> bool {
    forall|i: int| 0 <= i < s.len() ==> white_space(#[trigger] s[i])
}

/// How many flags are set at the start of `flags`, up to the first one that
/// is not.
pub open spec fn leading(flags: Seq<bool>) -> nat
    decreases flags.len(),
{
    if flags.len() > 0 && flags.first() {
        1 + leading(flags.drop_first())
    } else {
        0
    }
}

/// How many flags are set at the end of `flags`, back to the last one that
/// is not.
pub open spec fn trailing(flags: Seq<bool>) -> nat
    decreases flags.len(),
{
    if flags.len() > 0 && flags.last() {
        1 + trailing(flags.drop_last())
    } else {
        0
    }
}

/// The positions `(from, to)` between which trimming keeps the text, given
/// for each character whether it is white space: from the first flag that
/// is not set to just behind the last one.  Where every flag is set, the
/// stretch is empty.
pub open spec fn kept_range(flags: Seq<bool>) -> (int, int) {
    let from = leading(flags) as int;
    let to = flags.len() - trailing(flags);
    if from <= to {
        (from, to)
    } else {
        (from, from)
    }
}

/// `s` without leading and trailing white space.
pub open spec fn trimmed(s: Seq<char>) -> Seq<char> {
    s.subrange(kept_range(white_flags(s)).0, kept_range(white_flags(s)).1)
}

/// [`leading`] stops at the first flag that is not set.
pub proof fn lemma_leading(flags: Seq<bool>)
    ensures
        leading(flags) <= flags.len(),
        forall|i: int| 0 <= i < leading(flags) ==> #[trigger] flags[i],
        leading(flags) < flags.len() ==> !flags[leading(flags) as int],
    decreases flags.len(),
{
    if flags.len() > 0 && flags.first() {
        let rest = flags.drop_first();
        lemma_leading(rest);
        assert forall|i: int| 0 <= i < leading(flags) implies #[trigger] flags[i] by {
            if i > 0 {
                assert(flags[i] == rest[i - 1]);
            }
        }
    }
}

/// [`trailing`] stops at the last flag that is not set.
pub proof fn lemma_trailing(flags: Seq<bool>)
    ensures
        trailing(flags) <= flags.len(),
        forall|i: int| flags.len() - trailing(flags) <= i < flags.len() ==> #[trigger] flags[i],
        trailing(flags) < flags.len() ==> !flags[flags.len() - trailing(flags) - 1],
    decreases flags.len(),
{
    if flags.len() > 0 && flags.last() {
        let rest = flags.drop_last();
        lemma_trailing(rest);
        assert forall|i: int| flags.len() - trailing(flags) <= i < flags.len() implies #[trigger] flags[i] by {
            if i < rest.len() {
                assert(flags[i] == rest[i]);
            }
        }
    }
}

/// The stretch that [`kept_range`] gives lies within the text, has only set
/// flags before and behind it and, unless it is empty, begins and ends with
/// a flag that is not set.
pub proof fn lemma_kept_range(flags: Seq<bool>)
    ensures
        0 <= kept_range(flags).0 <= kept_range(flags).1 <= flags.len(),
        forall|i: int| 0 <= i < kept_range(flags).0 ==> #[trigger] flags[i],
        forall|i: int| kept_range(flags).1 <= i < flags.len() ==> #[trigger] flags[i],
        kept_range(flags).0 < kept_range(flags).1 ==> !flags[kept_range(flags).0] && !flags[kept_range(
            flags,
        ).1 - 1],
{
    // Unless every flag is set, the flag at `leading(flags)` is not, so the
    // set flags at the end begin behind it.
    lemma_leading(flags);
    lemma_trailing(flags);
}

/// Trimming keeps one stretch of the text, from the first character that is
/// not white space to the last one; what it drops on either side is blank.
pub proof fn lemma_trimmed_shape(s: Seq<char>) -> (bounds: (int, int))
    ensures
        bounds == kept_range(white_flags(s)),
        0 <= bounds.0 <= bounds.1 <= s.len(),
        trimmed(s) == s.subrange(bounds.0, bounds.1),
        blank(s.subrange(0, bounds.0)),
        blank(s.subrange(bounds.1, s.len() as int)),
        bounds.0 < bounds.1 ==> !white_space(s[bounds.0]) && !white_space(s[bounds.1 - 1]),
{
    let flags = white_flags(s);
    lemma_kept_range(flags);
    let (from, to) = kept_range(flags);
    assert forall|i: int| 0 <= i < from implies white_space(#[trigger] s.subrange(0, from)[i]) by {
        assert(flags[i]);
    }
    assert forall|i: int| 0 <= i < s.len() - to implies white_space(
        #[trigger] s.subrange(to, s.len() as int)[i],
    ) by {
        assert(flags[to + i]);
    }
    (from, to)
}

/// Trimming leaves nothing exactly when the text is blank.
pub proof fn lemma_trimmed_empty_iff_blank(s: Seq<char>)
    ensures
        trimmed(s).len() == 0 <==> blank(s),
{
    let (from, to) = lemma_trimmed_shape(s);
    if trimmed(s).len() == 0 {
        assert forall|i: int| 0 <= i < s.len() implies white_space(#[trigger] s[i]) by {
            if i < from {
                assert(s[i] == s.subrange(0, from)[i]);
            } else {
                assert(s[i] == s.subrange(to, s.len() as int)[i - to]);
            }
        }
    }
}

/// For each character of `s`, whether it is white space.
pub fn white_space_flags(s: &str) -> (flags: Vec<bool>)
    ensures
        flags@ == white_flags(s@),
{
    broadcast use vstd::string::group_string_axioms;

    let mut flags: Vec<bool> = Vec::new();
    for c in it: s.chars()
        invariant
            it.seq() == s@,
            flags@ == white_flags(it.history()),
    {
        flags.push(is_whitespace(c));
    }
    flags
}

/// The positions between which trimming keeps a text, given for each of
/// its characters whether it is white space.
pub fn trim_range(flags: &Vec<bool>) -> (range: (usize, usize))
    ensures
        range.0 == kept_range(flags@).0,
        range.1 == kept_range(flags@).1,
        range.0 <= range.1 <= flags@.len(),
{
    let n: usize = flags.len();
    let mut from: usize = 0;
    assert(flags@.subrange(0, n as int) == flags@);
    while from < n
        invariant
            n == flags@.len(),
            from <= n,
            leading(flags@) == from + leading(flags@.subrange(from as int, n as int)),
        ensures
            from <= n,
            leading(flags@) == from,
        decreases n - from,
    {
        if !flags[from] {
            break ;
        }
        assert(flags@.subrange(from as int, n as int).drop_first() == flags@.subrange(
            from + 1,
            n as int,
        ));
        from += 1;
    }
    let mut to: usize = n;
    while to > 0
        invariant
            n == flags@.len(),
            to <= n,
            trailing(flags@) == n - to + trailing(flags@.subrange(0, to as int)),
        ensures
            to <= n,
            trailing(flags@) == n - to,
        decreases to,
    {
        if !flags[to - 1] {
            break ;
        }
        assert(flags@.subrange(0, to as int).drop_last() == flags@.subrange(0, to - 1));
        to -= 1;
    }
    if from <= to {
        (from, to)
    } else {
        (from, from)
    }
}

/// The text of `s` without leading and trailing white space, as a new string.
pub fn trim(s: &str) -> (out: String)
    ensures
        out@ == trimmed(s@),
{
    let flags = white_space_flags(s);
    let (from, to) = trim_range(&flags);
    String::from_str(s.substring_char(from, to))
}

} // verus!
