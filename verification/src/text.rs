//! Work on text: replacing a word, and making a name fit for a file.

use vstd::prelude::*;
use vstd::string::*;

verus! {

/// `text` with every occurrence of `from` replaced by `to`, the occurrences
/// taken from the left and not overlapping. An empty `from` occurs nowhere.
pub open spec fn replaced(text: Seq<char>, from: Seq<char>, to: Seq<char>) -> Seq<char>
    decreases text.len(),
{
    if from.len() == 0 || text.len() < from.len() {
        text
    } else if text.subrange(0, from.len() as int) == from {
        to + replaced(text.subrange(from.len() as int, text.len() as int), from, to)
    } else {
        seq![text[0]] + replaced(text.drop_first(), from, to)
    }
}

/// Whether `char::is_alphanumeric` holds of the character: it is a letter or
/// a number of some script.
pub uninterp spec fn is_alphanumeric_char(c: char) -> bool;

/// The character that stands for `c` in a file name: `c` itself where it is
/// a letter, a number, `-` or `_`, and `_` otherwise.
pub open spec fn sanitized_char(c: char) -> char {
    if is_alphanumeric_char(c) || c == '-' || c == '_' {
        c
    } else {
        '_'
    }
}

/// The text with each character replaced by the one that stands for it in a
/// file name.
pub open spec fn sanitized(text: Seq<char>) -> Seq<char> {
    text.map_values(|c: char| sanitized_char(c))
}

/// Puts the character of `text` at the given place at the end of `out`.
pub(crate) fn push_char_of(out: &mut String, text: &str, place: usize)
    requires
        place < text@.len(),
        place < usize::MAX,
    ensures
        final(out)@ == old(out)@.push(text@[place as int]),
{
    let ghost before = out@;
    let piece = text.substring_char(place, place + 1);
    assert(piece@ =~= seq![text@[place as int]]);
    out.append(piece);
    assert(out@ =~= before.push(text@[place as int]));
}

/// Puts an underscore at the end of `out`.
pub(crate) fn push_underscore(out: &mut String)
    ensures
        final(out)@ == old(out)@.push('_'),
{
    let ghost before = out@;
    proof {
        reveal_strlit("_");
    }
    assert("_"@ =~= seq!['_']);
    out.append("_");
    assert(out@ =~= before.push('_'));
}

/// Calls `char::is_alphanumeric`. Trusted: the answer depends on the
/// character alone.
#[verifier::external_body]
fn char_is_alphanumeric(c: char) -> (yes: bool)
    ensures
        yes == is_alphanumeric_char(c),
{
    c.is_alphanumeric()
}

/// `text` with every occurrence of `from` replaced by `to`.
pub(crate) fn replace_all(text: &str, from: &str, to: &str) -> (out: String)
    requires
        from@.len() > 0,
    ensures
        out@ == replaced(text@, from@, to@),
{
    let n = text.unicode_len();
    let m = from.unicode_len();
    let pattern = from.to_owned();
    let mut out = String::new();
    let mut i: usize = 0;
    assert(text@.subrange(0, n as int) =~= text@);
    while i < n
        invariant
            i <= n,
            n == text@.len(),
            m == from@.len(),
            m > 0,
            pattern@ == from@,
            out@ + replaced(text@.subrange(i as int, n as int), from@, to@) == replaced(
                text@,
                from@,
                to@,
            ),
        decreases n - i,
    {
        let ghost rest = text@.subrange(i as int, n as int);
        let mut matched = false;
        if m <= n - i {
            let window = text.substring_char(i, i + m).to_owned();
            assert(rest.subrange(0, m as int) =~= text@.subrange(i as int, i + m));
            matched = window == pattern;
        }
        if matched {
            let ghost before = out@;
            out.append(to);
            proof {
                let tail = rest.subrange(m as int, rest.len() as int);
                assert(tail =~= text@.subrange(i + m, n as int));
                assert(replaced(rest, from@, to@) == to@ + replaced(tail, from@, to@));
                assert((before + to@) + replaced(tail, from@, to@) =~= before + (to@ + replaced(
                    tail,
                    from@,
                    to@,
                )));
            }
            i += m;
        } else {
            let ghost before = out@;
            let ghost c = text@[i as int];
            push_char_of(&mut out, text, i);
            proof {
                let tail = rest.drop_first();
                assert(tail =~= text@.subrange(i + 1, n as int));
                assert(rest[0] == c);
                assert(replaced(rest, from@, to@) == seq![c] + replaced(tail, from@, to@));
                assert(before.push(c) + replaced(tail, from@, to@) =~= before + (seq![c]
                    + replaced(tail, from@, to@)));
            }
            i += 1;
        }
    }
    assert(text@.subrange(n as int, n as int) =~= Seq::<char>::empty());
    assert(out@ + Seq::<char>::empty() =~= out@);
    out
}

/// The character that stands for `c` in a file name, given whether `c` is a
/// letter or a number.
pub fn keep_or_underscore(c: char, alphanumeric: bool) -> (kept: char)
    ensures
        kept == (if alphanumeric || c == '-' || c == '_' {
            c
        } else {
            '_'
        }),
{
    if alphanumeric || c == '-' || c == '_' {
        c
    } else {
        '_'
    }
}

/// A name fit for a file: every character that is not a letter, a number,
/// `-` or `_` becomes `_`.
pub fn sanitize_filename(filename: &str) -> (safe: String)
    ensures
        safe@ == sanitized(filename@),
{
    let n = filename.unicode_len();
    let mut out = String::new();
    let mut i: usize = 0;
    while i < n
        invariant
            i <= n,
            n == filename@.len(),
            out@ == sanitized(filename@.subrange(0, i as int)),
        decreases n - i,
    {
        let c = filename.get_char(i);
        let kept = keep_or_underscore(c, char_is_alphanumeric(c));
        if kept == c {
            push_char_of(&mut out, filename, i);
        } else {
            push_underscore(&mut out);
        }
        assert(filename@.subrange(0, i + 1) =~= filename@.subrange(0, i as int).push(c));
        assert(sanitized(filename@.subrange(0, i + 1)) =~= sanitized(
            filename@.subrange(0, i as int),
        ).push(kept));
        i += 1;
    }
    assert(filename@.subrange(0, n as int) =~= filename@);
    out
}

} // verus!
