//! The span mapper: reproduces a source-backed fragment byte for byte,
//! preceded by a location directive and column-matching leading whitespace,
//! so that the downstream compiler's diagnostics point at the author's
//! original file, line and column rather than at the generated file.

use vstd::prelude::*;
use crate::text::{dec_str, spaces, push_dec, push_spaces, push_char_of};

verus! {

/// `p` with every quote and backslash preceded by a backslash, so the path
/// can stand inside a quoted string in the directive.
pub open spec fn escaped_path(p: Seq<char>) -> Seq<char>
    decreases p.len(),
{
    if p.len() == 0 {
        Seq::<char>::empty()
    } else if p.last() == '"' || p.last() == '\\' {
        escaped_path(p.drop_last()) + seq!['\\', p.last()]
    } else {
        escaped_path(p.drop_last()) + seq![p.last()]
    }
}

/// `p` escaped and wrapped in double quotes.
pub open spec fn quoted_path(p: Seq<char>) -> Seq<char> {
    seq!['"'] + escaped_path(p) + seq!['"']
}

/// The location directive naming the author's file and line.
pub open spec fn line_directive(line: nat, path: Seq<char>) -> Seq<char> {
    "#line "@ + dec_str(line) + " "@ + quoted_path(path) + "\n"@
}

/// Everything the mapper places before the original text: the directive
/// plus column-matching leading spaces.
pub open spec fn location_prefix(line: nat, path: Seq<char>, col: nat) -> Seq<char> {
    line_directive(line, path) + spaces(col)
}

/// The mapper's full output for a source-backed span.
pub open spec fn mapped_text(text: Seq<char>, line: nat, path: Seq<char>, col: nat) -> Seq<char> {
    location_prefix(line, path, col) + text
}

/// Appends `quoted_path(path@)` to `out`.
fn push_quoted_path(out: &mut String, path: &str)
    ensures
        final(out)@ == old(out)@ + quoted_path(path@),
{
    out.append("\"");
    let n = path.unicode_len();
    let mut i: usize = 0;
    while i < n
        invariant
            i <= n,
            n == path@.len(),
            out@ == old(out)@ + "\""@ + escaped_path(path@.take(i as int)),
        decreases n - i,
    {
        let c = path.get_char(i);
        if c == '"' || c == '\\' {
            out.append("\\");
            proof {
                reveal_strlit("\\");
            }
        }
        push_char_of(out, path, i);
        i = i + 1;
        proof {
            assert(path@.take(i as int).drop_last() =~= path@.take(i - 1));
            assert(path@.take(i as int).last() == path@[i - 1]);
            assert(out@ =~= old(out)@ + "\""@ + escaped_path(path@.take(i as int)));
        }
    }
    out.append("\"");
    proof {
        assert(path@.take(n as int) =~= path@);
        reveal_strlit("\"");
        assert("\""@ =~= seq!['"']);
        assert(out@ =~= old(out)@ + quoted_path(path@));
    }
}

/// Maps a source-backed fragment: emits the location directive for
/// `(path, line)`, then `col` spaces, then the fragment text itself,
/// byte for byte. A synthetic (non-source-backed) fragment must not be
/// passed through the mapper; it is left untouched by the caller.
pub fn map_span(text: &str, line: u64, path: &str, col: usize) -> (r: String)
    ensures
        r@ == mapped_text(text@, line as nat, path@, col as nat),
{
    let mut r = String::new();
    r.append("#line ");
    push_dec(&mut r, line);
    r.append(" ");
    push_quoted_path(&mut r, path);
    r.append("\n");
    push_spaces(&mut r, col);
    r.append(text);
    proof {
        assert(r@ =~= mapped_text(text@, line as nat, path@, col as nat));
    }
    r
}

/// Stripping the location prefix from the mapper's output yields the
/// original fragment text exactly, for every source-backed span.
pub proof fn lemma_strip_location_prefix(text: Seq<char>, line: nat, path: Seq<char>, col: nat)
    ensures
        mapped_text(text, line, path, col).len() == location_prefix(line, path, col).len()
            + text.len(),
        mapped_text(text, line, path, col).skip(
            location_prefix(line, path, col).len() as int,
        ) == text,
{
    assert(mapped_text(text, line, path, col).skip(
        location_prefix(line, path, col).len() as int,
    ) =~= text);
}

} // verus!
