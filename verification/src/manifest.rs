//! The manifest that drives a merge: the list of inputs that the engine's
//! concat demuxer reads.
//!
//! The manifest holds one line per input, `file '<location>'`. Inside the
//! single quotes the demuxer takes every character as it stands but the
//! quote itself, so a quote in a location is written as `'\''`: the quoted
//! run is closed, an escaped quote follows, and a new run is opened.

use vstd::prelude::*;
use vstd::string::{StrSliceExecFns, StringExecFns};

verus! {

/// `location` with each single quote replaced by `'\''`.
pub open spec fn escape_quotes(location: Seq<char>) -> Seq<char>
    decreases location.len(),
{
    if location.len() == 0 {
        Seq::<char>::empty()
    } else if location.last() == '\'' {
        escape_quotes(location.drop_last()) + "'\\''"@
    } else {
        escape_quotes(location.drop_last()).push(location.last())
    }
}

/// The manifest's line for one input.
pub open spec fn manifest_line(location: Seq<char>) -> Seq<char> {
    "file '"@ + escape_quotes(location) + "'\n"@
}

/// The manifest for the inputs at `locations`: their lines, in order.
pub open spec fn manifest_text(locations: Seq<Seq<char>>) -> Seq<char>
    decreases locations.len(),
{
    if locations.len() == 0 {
        Seq::<char>::empty()
    } else {
        manifest_text(locations.drop_last()) + manifest_line(locations.last())
    }
}

/// Reads an escaped location back: `'\''` stands for one quote, every other
/// character for itself.
pub open spec fn unescape_quotes(text: Seq<char>) -> Seq<char>
    decreases text.len(),
{
    if text.len() == 0 {
        Seq::<char>::empty()
    } else if text.last() == '\'' && text.len() >= 4 {
        unescape_quotes(text.take(text.len() - 4)).push('\'')
    } else {
        unescape_quotes(text.drop_last()).push(text.last())
    }
}

/// Escaping loses nothing: what was escaped reads back as it was, so no two
/// locations share an escaped form.
pub proof fn lemma_escape_round_trip(location: Seq<char>)
    ensures
        unescape_quotes(escape_quotes(location)) == location,
    decreases location.len(),
{
    reveal_strlit("'\\''");
    if location.len() > 0 {
        let front = location.drop_last();
        let escaped = escape_quotes(location);
        lemma_escape_round_trip(front);
        if location.last() == '\'' {
            let mark = "'\\''"@;
            assert(escaped == escape_quotes(front) + mark);
            assert(mark.len() == 4);
            assert(escaped.last() == mark[3]);
            assert(escaped.take(escaped.len() - 4) =~= escape_quotes(front));
            assert(location =~= front.push('\''));
        } else {
            assert(escaped.drop_last() =~= escape_quotes(front));
            assert(location =~= front.push(location.last()));
        }
    }
}

/// Locations with the same escaped form are the same location.
pub proof fn lemma_escape_injective(a: Seq<char>, b: Seq<char>)
    requires
        escape_quotes(a) == escape_quotes(b),
    ensures
        a == b,
{
    lemma_escape_round_trip(a);
    lemma_escape_round_trip(b);
}

/// Appends `location` with its quotes escaped.
pub fn push_escaped(out: &mut String, location: &str)
    ensures
        final(out)@ == old(out)@ + escape_quotes(location@),
{
    let n: usize = location.unicode_len();
    let mut i: usize = 0;
    assert(location@.take(0) =~= Seq::<char>::empty());
    while i < n
        invariant
            n == location@.len(),
            i <= n,
            out@ == old(out)@ + escape_quotes(location@.take(i as int)),
        decreases n - i,
    {
        let ghost before = out@;
        let ghost upto = location@.take(i + 1);
        assert(upto.drop_last() =~= location@.take(i as int));
        assert(upto.last() == location@[i as int]);
        let c: char = location.get_char(i);
        if c == '\'' {
            out.append("'\\''");
        } else {
            let one: &str = location.substring_char(i, i + 1);
            assert(one@ =~= seq![location@[i as int]]);
            out.append(one);
        }
        assert(out@ =~= old(out)@ + escape_quotes(upto));
        i = i + 1;
    }
    assert(location@.take(i as int) =~= location@);
}

/// Appends the manifest's line for `location`.
pub fn push_manifest_line(out: &mut String, location: &str)
    ensures
        final(out)@ == old(out)@ + manifest_line(location@),
{
    out.append("file '");
    push_escaped(out, location);
    out.append("'\n");
    assert(out@ =~= old(out)@ + manifest_line(location@));
}

} // verus!
