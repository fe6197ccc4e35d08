//! The embedded-fragment grammar: a closure signature with captures, an
//! optional declared return type and a braced body; a bare braced snippet;
//! and a class-name declaration. The grammar is defined by the spec
//! functions here; the executable parser returns exactly what they say.

use vstd::prelude::*;
use crate::ast::{Capture, CaptureV, Closure, ClosureV, Class, ClassV, Snippet, SnippetV,
    is_ident_start, is_ident_char};

verus! {

/// Whitespace accepted between tokens.
pub open spec fn is_ws(c: char) -> bool {
    c == ' ' || c == '\t' || c == '\n' || c == '\r'
}

/// First position at or after `i` holding a non-whitespace character.
pub open spec fn sp_skip_ws(s: Seq<char>, i: nat) -> nat
    decreases s.len() - i,
    when i <= s.len()
{
    if i < s.len() && is_ws(s[i as int]) {
        sp_skip_ws(s, i + 1)
    } else {
        i
    }
}

/// First position at or after `i` holding a non-identifier character.
pub open spec fn sp_ident_end(s: Seq<char>, i: nat) -> nat
    decreases s.len() - i,
    when i <= s.len()
{
    if i < s.len() && is_ident_char(s[i as int]) {
        sp_ident_end(s, i + 1)
    } else {
        i
    }
}

/// The word `w` stands at `i`, not running into a longer identifier.
pub open spec fn sp_word_at(s: Seq<char>, i: nat, w: Seq<char>) -> bool {
    &&& i + w.len() <= s.len()
    &&& s.subrange(i as int, (i + w.len()) as int) == w
    &&& (i + w.len() == s.len() || !is_ident_char(s[(i + w.len()) as int]))
}

/// Position of the first quote character at or after `i`.
pub open spec fn sp_quote_end(s: Seq<char>, i: nat) -> Option<nat>
    decreases s.len() - i,
    when i <= s.len()
{
    if i >= s.len() {
        None
    } else if s[i as int] == '"' {
        Some(i)
    } else {
        sp_quote_end(s, i + 1)
    }
}

/// Position of the brace closing a body opened at depth `depth`, scanning
/// from `i`; quote-delimited stretches are skipped, a backslash escaping
/// the next character inside them.
pub open spec fn sp_body_end(s: Seq<char>, i: nat, depth: nat, in_str: bool, esc: bool) -> Option<
    nat,
>
    decreases s.len() - i,
    when i <= s.len()
{
    if i >= s.len() {
        None
    } else if in_str {
        if esc {
            sp_body_end(s, i + 1, depth, true, false)
        } else if s[i as int] == '\\' {
            sp_body_end(s, i + 1, depth, true, true)
        } else if s[i as int] == '"' {
            sp_body_end(s, i + 1, depth, false, false)
        } else {
            sp_body_end(s, i + 1, depth, true, false)
        }
    } else if s[i as int] == '"' {
        sp_body_end(s, i + 1, depth, true, false)
    } else if s[i as int] == '{' {
        sp_body_end(s, i + 1, depth + 1, false, false)
    } else if s[i as int] == '}' {
        if depth == 1 {
            Some(i)
        } else {
            sp_body_end(s, i + 1, (depth - 1) as nat, false, false)
        }
    } else {
        sp_body_end(s, i + 1, depth, false, false)
    }
}

/// Position of the word `as` that ends a host-language type, scanning from
/// `i`: the first `as` standing outside every angle-bracket, parenthesis or
/// square-bracket nesting and not touching an identifier.
pub open spec fn sp_type_end(s: Seq<char>, i: nat, depth: nat, prev_ident: bool) -> Option<nat>
    decreases s.len() - i,
    when i <= s.len()
{
    if i >= s.len() {
        None
    } else if depth == 0 && !prev_ident && s[i as int] == 'a' && i + 1 < s.len() && s[i + 1 as int] == 's'
        && (i + 2 == s.len() || !is_ident_char(s[i + 2 as int])) {
        Some(i)
    } else {
        let c = s[i as int];
        let d2: nat = if c == '<' || c == '(' || c == '[' {
            depth + 1
        } else if (c == '>' || c == ')' || c == ']') && depth > 0 {
            (depth - 1) as nat
        } else {
            depth
        };
        sp_type_end(s, i + 1, d2, is_ident_char(c))
    }
}

/// Computes `sp_skip_ws`.
pub fn skip_ws(s: &str, n: usize, i: usize) -> (j: usize)
    requires
        n == s@.len(),
        i <= n,
    ensures
        j == sp_skip_ws(s@, i as nat),
        i <= j <= n,
    decreases n - i,
{
    if i < n {
        let c = s.get_char(i);
        if c == ' ' || c == '\t' || c == '\n' || c == '\r' {
            return skip_ws(s, n, i + 1);
        }
    }
    i
}

/// Computes `sp_ident_end`.
pub fn ident_end(s: &str, n: usize, i: usize) -> (j: usize)
    requires
        n == s@.len(),
        i <= n,
    ensures
        j == sp_ident_end(s@, i as nat),
        i <= j <= n,
    decreases n - i,
{
    if i < n {
        let c = s.get_char(i);
        if c == '_' || (c >= 'a' && c <= 'z') || (c >= 'A' && c <= 'Z') || (c >= '0' && c <= '9') {
            return ident_end(s, n, i + 1);
        }
    }
    i
}

/// Decides `sp_word_at`.
pub fn word_at(s: &str, n: usize, i: usize, w: &str, wn: usize) -> (r: bool)
    requires
        n == s@.len(),
        wn == w@.len(),
        i <= n,
    ensures
        r == sp_word_at(s@, i as nat, w@),
{
    if wn > n - i {
        proof {
            assert(!sp_word_at(s@, i as nat, w@));
        }
        return false;
    }
    let mut k: usize = 0;
    while k < wn
        invariant
            k <= wn,
            i + wn <= n,
            n == s@.len(),
            wn == w@.len(),
            forall|t: int| 0 <= t < k ==> s@[i + t] == w@[t],
        decreases wn - k,
    {
        if s.get_char(i + k) != w.get_char(k) {
            proof {
                assert(s@.subrange(i as int, (i + wn) as int)[k as int] != w@[k as int]);
            }
            return false;
        }
        k = k + 1;
    }
    proof {
        assert(s@.subrange(i as int, (i + wn) as int) =~= w@);
    }
    if i + wn == n {
        true
    } else {
        let c = s.get_char(i + wn);
        !(c == '_' || (c >= 'a' && c <= 'z') || (c >= 'A' && c <= 'Z') || (c >= '0' && c <= '9'))
    }
}

/// Computes `sp_quote_end`.
pub fn quote_end(s: &str, n: usize, i: usize) -> (r: Option<usize>)
    requires
        n == s@.len(),
        i <= n,
    ensures
        match r {
            Some(q) => sp_quote_end(s@, i as nat) == Some(q as nat) && i <= q < n,
            None => sp_quote_end(s@, i as nat) is None,
        },
    decreases n - i,
{
    if i >= n {
        None
    } else if s.get_char(i) == '"' {
        Some(i)
    } else {
        quote_end(s, n, i + 1)
    }
}

/// Computes `sp_body_end`.
pub fn body_end(s: &str, n: usize, i: usize, depth: usize, in_str: bool, esc: bool) -> (r: Option<
    usize,
>)
    requires
        n == s@.len(),
        i <= n,
        1 <= depth,
        depth + n - i < usize::MAX,
    ensures
        match r {
            Some(e) => sp_body_end(s@, i as nat, depth as nat, in_str, esc) == Some(e as nat) && i
                <= e < n,
            None => sp_body_end(s@, i as nat, depth as nat, in_str, esc) is None,
        },
    decreases n - i,
{
    if i >= n {
        return None;
    }
    let c = s.get_char(i);
    if in_str {
        if esc {
            body_end(s, n, i + 1, depth, true, false)
        } else if c == '\\' {
            body_end(s, n, i + 1, depth, true, true)
        } else if c == '"' {
            body_end(s, n, i + 1, depth, false, false)
        } else {
            body_end(s, n, i + 1, depth, true, false)
        }
    } else if c == '"' {
        body_end(s, n, i + 1, depth, true, false)
    } else if c == '{' {
        body_end(s, n, i + 1, depth + 1, false, false)
    } else if c == '}' {
        if depth == 1 {
            Some(i)
        } else {
            body_end(s, n, i + 1, depth - 1, false, false)
        }
    } else {
        body_end(s, n, i + 1, depth, false, false)
    }
}

/// Computes `sp_type_end`.
pub fn type_end(s: &str, n: usize, i: usize, depth: usize, prev_ident: bool) -> (r: Option<usize>)
    requires
        n == s@.len(),
        i <= n,
        depth + n - i < usize::MAX,
    ensures
        match r {
            Some(p) => sp_type_end(s@, i as nat, depth as nat, prev_ident) == Some(p as nat) && i
                <= p && p + 2 <= n,
            None => sp_type_end(s@, i as nat, depth as nat, prev_ident) is None,
        },
    decreases n - i,
{
    if i >= n {
        return None;
    }
    let c = s.get_char(i);
    if depth == 0 && !prev_ident && c == 'a' && i + 1 < n && s.get_char(i + 1) == 's' && (i + 2 == n
        || {
        let c2 = s.get_char(i + 2);
        !(c2 == '_' || (c2 >= 'a' && c2 <= 'z') || (c2 >= 'A' && c2 <= 'Z') || (c2 >= '0' && c2
            <= '9'))
    }) {
        return Some(i);
    }
    let d2: usize = if c == '<' || c == '(' || c == '[' {
        depth + 1
    } else if (c == '>' || c == ')' || c == ']') && depth > 0 {
        depth - 1
    } else {
        depth
    };
    let pi = c == '_' || (c >= 'a' && c <= 'z') || (c >= 'A' && c <= 'Z') || (c >= '0' && c <= '9');
    type_end(s, n, i + 1, d2, pi)
}

} // verus!

verus! {

/// End of `s[lo..e]` once trailing whitespace is dropped.
pub open spec fn sp_trim_end(s: Seq<char>, lo: nat, e: nat) -> nat
    decreases e,
    when lo <= e <= s.len()
{
    if e > lo && is_ws(s[(e - 1) as int]) {
        sp_trim_end(s, lo, (e - 1) as nat)
    } else {
        e
    }
}

/// Computes `sp_trim_end`.
pub fn trim_end(s: &str, n: usize, lo: usize, e: usize) -> (r: usize)
    requires
        n == s@.len(),
        lo <= e <= n,
    ensures
        r == sp_trim_end(s@, lo as nat, e as nat),
        lo <= r <= e,
    decreases e,
{
    if e > lo {
        let c = s.get_char(e - 1);
        if c == ' ' || c == '\t' || c == '\n' || c == '\r' {
            return trim_end(s, n, lo, e - 1);
        }
    }
    e
}

/// One capture: an optional mutability marker, a name, the token `as`, and
/// a quoted, non-empty embedded-language type string. Yields the capture
/// and the position after its closing quote.
pub open spec fn sp_parse_capture(s: Seq<char>, i: nat) -> Option<(CaptureV, nat)> {
    let m = sp_word_at(s, i, "mut"@);
    let i1 = if m {
        sp_skip_ws(s, i + 3)
    } else {
        i
    };
    if i1 < s.len() && is_ident_start(s[i1 as int]) {
        let ne = sp_ident_end(s, i1 + 1);
        let i2 = sp_skip_ws(s, ne);
        if sp_word_at(s, i2, "as"@) {
            let i3 = sp_skip_ws(s, i2 + 2);
            if i3 < s.len() && s[i3 as int] == '"' {
                match sp_quote_end(s, i3 + 1) {
                    Some(q) => if q > i3 + 1 {
                        Some(
                            (
                                CaptureV {
                                    mutable: m,
                                    name: s.subrange(i1 as int, ne as int),
                                    cpp: s.subrange((i3 + 1) as int, q as int),
                                },
                                q + 1,
                            ),
                        )
                    } else {
                        None
                    },
                    None => None,
                }
            } else {
                None
            }
        } else {
            None
        }
    } else {
        None
    }
}

/// Computes `sp_parse_capture`.
pub fn parse_capture(s: &str, n: usize, i: usize) -> (r: Option<(Capture, usize)>)
    requires
        n == s@.len(),
        i <= n,
        n < usize::MAX,
    ensures
        match r {
            Some(cj) => sp_parse_capture(s@, i as nat) == Some((cj.0@, cj.1 as nat)) && i < cj.1
                <= n,
            None => sp_parse_capture(s@, i as nat) is None,
        },
{
    proof {
        reveal_strlit("mut");
        reveal_strlit("as");
    }
    let m = word_at(s, n, i, "mut", 3);
    let i1 = if m {
        skip_ws(s, n, i + 3)
    } else {
        i
    };
    if !(i1 < n) {
        return None;
    }
    let c0 = s.get_char(i1);
    if !(c0 == '_' || (c0 >= 'a' && c0 <= 'z') || (c0 >= 'A' && c0 <= 'Z')) {
        return None;
    }
    let ne = ident_end(s, n, i1 + 1);
    let i2 = skip_ws(s, n, ne);
    if !word_at(s, n, i2, "as", 2) {
        return None;
    }
    let i3 = skip_ws(s, n, i2 + 2);
    if !(i3 < n) {
        return None;
    }
    if s.get_char(i3) != '"' {
        return None;
    }
    match quote_end(s, n, i3 + 1) {
        Some(q) => {
            if q > i3 + 1 {
                let name = s.substring_char(i1, ne).to_owned();
                let cpp = s.substring_char(i3 + 1, q).to_owned();
                Some((Capture { mutable: m, name, cpp }, q + 1))
            } else {
                None
            }
        },
        None => None,
    }
}

/// A capture list after its opening bracket (whitespace already skipped):
/// either an immediate closing bracket, or captures separated by commas up
/// to the closing bracket. Yields the captures and the position after the
/// closing bracket.
pub open spec fn sp_parse_captures(s: Seq<char>, i: nat) -> Option<(Seq<CaptureV>, nat)>
    decreases s.len() - i,
    when i <= s.len()
    via sp_parse_captures_dec
{
    if i < s.len() && s[i as int] == ']' {
        Some((Seq::<CaptureV>::empty(), i + 1))
    } else {
        match sp_parse_capture(s, i) {
            Some(cj) => {
                let j2 = sp_skip_ws(s, cj.1);
                if j2 < s.len() && s[j2 as int] == ']' {
                    Some((seq![cj.0], j2 + 1))
                } else if j2 < s.len() && s[j2 as int] == ',' {
                    match sp_parse_captures(s, sp_skip_ws(s, j2 + 1)) {
                        Some(rk) => Some((seq![cj.0] + rk.0, rk.1)),
                        None => None,
                    }
                } else {
                    None
                }
            },
            None => None,
        }
    }
}

/// Bounds needed for the recursion of `sp_parse_captures` to shrink.
proof fn lemma_capture_bounds(s: Seq<char>, i: nat)
    requires
        i <= s.len(),
    ensures
        sp_parse_capture(s, i) is Some ==> i < sp_parse_capture(s, i)->Some_0.1 <= s.len(),
{
    reveal_strlit("mut");
    reveal_strlit("as");
    lemma_skip_ws_bounds(s, i + 3);
    let m = sp_word_at(s, i, "mut"@);
    let i1 = if m {
        sp_skip_ws(s, i + 3)
    } else {
        i
    };
    if m {
        assert(i + 3 <= s.len());
        assert(i <= i1 <= s.len());
    }
    if i1 < s.len() && is_ident_start(s[i1 as int]) {
        lemma_ident_end_bounds(s, i1 + 1);
        let ne = sp_ident_end(s, i1 + 1);
        assert(i1 + 1 <= ne <= s.len());
        lemma_skip_ws_bounds(s, ne);
        let i2 = sp_skip_ws(s, ne);
        assert(ne <= i2 <= s.len());
        if sp_word_at(s, i2, "as"@) {
            assert(i2 + 2 <= s.len());
            lemma_skip_ws_bounds(s, i2 + 2);
            let i3 = sp_skip_ws(s, i2 + 2);
            assert(i2 + 2 <= i3 <= s.len());
            if i3 < s.len() && s[i3 as int] == '"' {
                lemma_quote_end_bounds(s, i3 + 1);
                match sp_quote_end(s, i3 + 1) {
                    Some(q) => {
                        assert(i3 + 1 <= q < s.len());
                        if q > i3 + 1 {
                            assert(sp_parse_capture(s, i) == Some(
                                (
                                    CaptureV {
                                        mutable: m,
                                        name: s.subrange(i1 as int, ne as int),
                                        cpp: s.subrange((i3 + 1) as int, q as int),
                                    },
                                    q + 1,
                                ),
                            ));
                            assert(i < q + 1 <= s.len());
                        } else {
                            assert(sp_parse_capture(s, i) is None);
                        }
                    },
                    None => {
                        assert(sp_parse_capture(s, i) is None);
                    },
                }
            } else {
                assert(sp_parse_capture(s, i) is None);
            }
        } else {
            assert(sp_parse_capture(s, i) is None);
        }
    } else {
        assert(sp_parse_capture(s, i) is None);
    }
}

/// `sp_skip_ws` stays inside the text and never moves backwards.
proof fn lemma_skip_ws_bounds(s: Seq<char>, i: nat)
    ensures
        i <= s.len() ==> i <= sp_skip_ws(s, i) <= s.len(),
    decreases s.len() - i,
{
    if i < s.len() {
        lemma_skip_ws_bounds(s, i + 1);
    }
}

/// `sp_ident_end` stays inside the text and never moves backwards.
proof fn lemma_ident_end_bounds(s: Seq<char>, i: nat)
    ensures
        i <= s.len() ==> i <= sp_ident_end(s, i) <= s.len(),
    decreases s.len() - i,
{
    if i < s.len() {
        lemma_ident_end_bounds(s, i + 1);
    }
}

/// A found quote lies inside the text, at or after the start.
proof fn lemma_quote_end_bounds(s: Seq<char>, i: nat)
    ensures
        i <= s.len() && sp_quote_end(s, i) is Some ==> i <= sp_quote_end(s, i)->Some_0 < s.len(),
    decreases s.len() - i,
{
    if i < s.len() {
        lemma_quote_end_bounds(s, i + 1);
    }
}

#[via_fn]
proof fn sp_parse_captures_dec(s: Seq<char>, i: nat) {
    if !(i < s.len() && s[i as int] == ']') {
        lemma_capture_bounds(s, i);
        match sp_parse_capture(s, i) {
            Some(cj) => {
                lemma_skip_ws_bounds(s, cj.1);
                let j2 = sp_skip_ws(s, cj.1);
                if j2 < s.len() && s[j2 as int] == ',' {
                    lemma_skip_ws_bounds(s, j2 + 1);
                }
            },
            None => {},
        }
    }
}

/// Computes `sp_parse_captures`.
pub fn parse_captures(s: &str, n: usize, i: usize) -> (r: Option<(Vec<Capture>, usize)>)
    requires
        n == s@.len(),
        i <= n,
        n < usize::MAX,
    ensures
        match r {
            Some(vj) => sp_parse_captures(s@, i as nat) == Some(
                (vj.0@.map_values(|c: Capture| c@), vj.1 as nat),
            ) && i < vj.1 <= n,
            None => sp_parse_captures(s@, i as nat) is None,
        },
    decreases n - i,
{
    if i < n && s.get_char(i) == ']' {
        let v: Vec<Capture> = Vec::new();
        proof {
            assert(v@.map_values(|c: Capture| c@) =~= Seq::<CaptureV>::empty());
        }
        return Some((v, i + 1));
    }
    match parse_capture(s, n, i) {
        Some((c, j)) => {
            let ghost cv = c@;
            let j2 = skip_ws(s, n, j);
            if j2 < n && s.get_char(j2) == ']' {
                let mut v: Vec<Capture> = Vec::new();
                v.push(c);
                proof {
                    assert(v@.map_values(|c: Capture| c@) =~= seq![cv]);
                }
                Some((v, j2 + 1))
            } else if j2 < n && s.get_char(j2) == ',' {
                let k0 = skip_ws(s, n, j2 + 1);
                match parse_captures(s, n, k0) {
                    Some((rest, k)) => {
                        let ghost restv = rest@.map_values(|c: Capture| c@);
                        let mut v: Vec<Capture> = Vec::new();
                        v.push(c);
                        let mut rest = rest;
                        v.append(&mut rest);
                        proof {
                            assert(v@.map_values(|c: Capture| c@) =~= seq![cv] + restv);
                        }
                        Some((v, k))
                    },
                    None => None,
                }
            } else {
                None
            }
        },
        None => None,
    }
}

/// Two captures share a name.
pub open spec fn sp_dup_names(cs: Seq<CaptureV>) -> bool {
    exists|a: int, b: int| 0 <= a < b < cs.len() && #[trigger] cs[a].name == #[trigger] cs[b].name
}

/// Decides `sp_dup_names`.
pub fn has_dup_names(v: &Vec<Capture>) -> (r: bool)
    ensures
        r == sp_dup_names(v@.map_values(|c: Capture| c@)),
{
    let ghost cs = v@.map_values(|c: Capture| c@);
    let n = v.len();
    let mut i: usize = 0;
    while i < n
        invariant
            i <= n,
            n == v@.len(),
            cs == v@.map_values(|c: Capture| c@),
            forall|a: int, b: int| 0 <= a < b < i ==> #[trigger] cs[a].name != #[trigger] cs[b].name,
        decreases n - i,
    {
        let mut j: usize = 0;
        while j < i
            invariant
                j <= i < n,
                n == v@.len(),
                cs == v@.map_values(|c: Capture| c@),
                forall|b: int| 0 <= b < j ==> #[trigger] cs[b].name != cs[i as int].name,
            decreases i - j,
        {
            if v[j].name == v[i].name {
                proof {
                    assert(cs[j as int].name == cs[i as int].name);
                }
                return true;
            }
            j = j + 1;
        }
        i = i + 1;
        proof {
            assert forall|a: int, b: int| 0 <= a < b < i implies #[trigger] cs[a].name
                != #[trigger] cs[b].name by {
                if b == i - 1 {
                    assert(cs[a].name != cs[i - 1].name);
                }
            }
        }
    }
    proof {
        if sp_dup_names(cs) {
            let (a, b) = choose|a: int, b: int|
                0 <= a < b < cs.len() && #[trigger] cs[a].name == #[trigger] cs[b].name;
            assert(cs[a].name != cs[b].name);
        }
    }
    false
}

} // verus!

verus! {

/// The tail of a closure: a braced body followed only by whitespace.
pub open spec fn sp_closure_tail(
    s: Seq<char>,
    caps: Seq<CaptureV>,
    rust: Seq<char>,
    cpp: Seq<char>,
    i: nat,
) -> Option<ClosureV> {
    let j4 = sp_skip_ws(s, i);
    if j4 < s.len() && s[j4 as int] == '{' {
        match sp_body_end(s, j4 + 1, 1, false, false) {
            Some(e) => if sp_skip_ws(s, e + 1) == s.len() {
                Some(
                    ClosureV {
                        captures: caps,
                        ret_rust: rust,
                        cpp: cpp,
                        body: s.subrange((j4 + 1) as int, e as int),
                        body_lo: j4 + 1,
                        body_hi: e,
                    },
                )
            } else {
                None
            },
            None => None,
        }
    } else {
        None
    }
}

/// A closure fragment: a bracketed capture list with pairwise-distinct
/// names, an optional declared return type (`->` host type `as` quoted
/// embedded type; absent means the no-value token), and a braced body that
/// ends the fragment.
pub open spec fn sp_parse_closure(s: Seq<char>) -> Option<ClosureV> {
    let i0 = sp_skip_ws(s, 0);
    if i0 < s.len() && s[i0 as int] == '[' {
        match sp_parse_captures(s, sp_skip_ws(s, i0 + 1)) {
            Some(cj) => if !sp_dup_names(cj.0) {
                let j1 = sp_skip_ws(s, cj.1);
                if j1 + 1 < s.len() && s[j1 as int] == '-' && s[(j1 + 1) as int] == '>' {
                    let j2 = sp_skip_ws(s, j1 + 2);
                    match sp_type_end(s, j2, 0, false) {
                        Some(p) => {
                            let re = sp_trim_end(s, j2, p);
                            if re > j2 {
                                let i3 = sp_skip_ws(s, p + 2);
                                if i3 < s.len() && s[i3 as int] == '"' {
                                    match sp_quote_end(s, i3 + 1) {
                                        Some(q) => if q > i3 + 1 {
                                            sp_closure_tail(
                                                s,
                                                cj.0,
                                                s.subrange(j2 as int, re as int),
                                                s.subrange((i3 + 1) as int, q as int),
                                                q + 1,
                                            )
                                        } else {
                                            None
                                        },
                                        None => None,
                                    }
                                } else {
                                    None
                                }
                            } else {
                                None
                            }
                        },
                        None => None,
                    }
                } else {
                    sp_closure_tail(s, cj.0, Seq::<char>::empty(), "void"@, j1)
                }
            } else {
                None
            },
            None => None,
        }
    } else {
        None
    }
}

/// A snippet fragment: one braced block that ends the fragment.
pub open spec fn sp_parse_snippet(s: Seq<char>) -> Option<SnippetV> {
    let i0 = sp_skip_ws(s, 0);
    if i0 < s.len() && s[i0 as int] == '{' {
        match sp_body_end(s, i0 + 1, 1, false, false) {
            Some(e) => if sp_skip_ws(s, e + 1) == s.len() {
                Some(
                    SnippetV {
                        text: s.subrange((i0 + 1) as int, e as int),
                        body_lo: i0 + 1,
                        body_hi: e,
                    },
                )
            } else {
                None
            },
            None => None,
        }
    } else {
        None
    }
}

/// A class registration: optional visibility and `unsafe` markers, the word
/// `struct`, a host-language name, `as`, and a quoted, non-empty
/// embedded-language type name ending the fragment.
pub open spec fn sp_parse_class(s: Seq<char>) -> Option<ClassV> {
    let i0 = sp_skip_ws(s, 0);
    let i1 = if sp_word_at(s, i0, "pub"@) {
        sp_skip_ws(s, i0 + 3)
    } else {
        i0
    };
    let i2 = if sp_word_at(s, i1, "unsafe"@) {
        sp_skip_ws(s, i1 + 6)
    } else {
        i1
    };
    if sp_word_at(s, i2, "struct"@) {
        let i3 = sp_skip_ws(s, i2 + 6);
        if i3 < s.len() && is_ident_start(s[i3 as int]) {
            let ne = sp_ident_end(s, i3 + 1);
            let i4 = sp_skip_ws(s, ne);
            if sp_word_at(s, i4, "as"@) {
                let i5 = sp_skip_ws(s, i4 + 2);
                if i5 < s.len() && s[i5 as int] == '"' {
                    match sp_quote_end(s, i5 + 1) {
                        Some(q) => if q > i5 + 1 && sp_skip_ws(s, q + 1) == s.len() {
                            Some(
                                ClassV {
                                    name: s.subrange(i3 as int, ne as int),
                                    cpp: s.subrange((i5 + 1) as int, q as int),
                                },
                            )
                        } else {
                            None
                        },
                        None => None,
                    }
                } else {
                    None
                }
            } else {
                None
            }
        } else {
            None
        }
    } else {
        None
    }
}

/// Computes `sp_closure_tail`.
fn parse_closure_tail(s: &str, n: usize, caps: Vec<Capture>, rust: String, cpp: String, i: usize)
    -> (r: Option<Closure>)
    requires
        n == s@.len(),
        i <= n,
        n < usize::MAX,
    ensures
        match r {
            Some(c) => sp_closure_tail(
                s@,
                caps@.map_values(|c: Capture| c@),
                rust@,
                cpp@,
                i as nat,
            ) == Some(c@),
            None => sp_closure_tail(
                s@,
                caps@.map_values(|c: Capture| c@),
                rust@,
                cpp@,
                i as nat,
            ) is None,
        },
{
    let j4 = skip_ws(s, n, i);
    if !(j4 < n) {
        return None;
    }
    if s.get_char(j4) != '{' {
        return None;
    }
    match body_end(s, n, j4 + 1, 1, false, false) {
        Some(e) => {
            if skip_ws(s, n, e + 1) == n {
                let body = s.substring_char(j4 + 1, e).to_owned();
                Some(
                    Closure {
                        captures: caps,
                        ret_rust: rust,
                        cpp: cpp,
                        body: body,
                        body_lo: j4 + 1,
                        body_hi: e,
                    },
                )
            } else {
                None
            }
        },
        None => None,
    }
}

/// Computes `sp_parse_closure`.
pub fn parse_closure(s: &str) -> (r: Option<Closure>)
    requires
        s@.len() < usize::MAX,
    ensures
        match r {
            Some(c) => sp_parse_closure(s@) == Some(c@),
            None => sp_parse_closure(s@) is None,
        },
{
    let n = s.unicode_len();
    let i0 = skip_ws(s, n, 0);
    if !(i0 < n) {
        return None;
    }
    if s.get_char(i0) != '[' {
        return None;
    }
    let istart = skip_ws(s, n, i0 + 1);
    match parse_captures(s, n, istart) {
        Some((caps, j)) => {
            if has_dup_names(&caps) {
                return None;
            }
            let j1 = skip_ws(s, n, j);
            if j1 + 1 < n && s.get_char(j1) == '-' && s.get_char(j1 + 1) == '>' {
                let j2 = skip_ws(s, n, j1 + 2);
                match type_end(s, n, j2, 0, false) {
                    Some(p) => {
                        let re = trim_end(s, n, j2, p);
                        if re > j2 {
                            let i3 = skip_ws(s, n, p + 2);
                            if i3 < n && s.get_char(i3) == '"' {
                                match quote_end(s, n, i3 + 1) {
                                    Some(q) => {
                                        if q > i3 + 1 {
                                            let rust = s.substring_char(j2, re).to_owned();
                                            let cpp = s.substring_char(i3 + 1, q).to_owned();
                                            parse_closure_tail(s, n, caps, rust, cpp, q + 1)
                                        } else {
                                            None
                                        }
                                    },
                                    None => None,
                                }
                            } else {
                                None
                            }
                        } else {
                            None
                        }
                    },
                    None => None,
                }
            } else {
                let rust = String::new();
                let cpp = String::from_str("void");
                proof {
                    assert(rust@ =~= Seq::<char>::empty());
                }
                parse_closure_tail(s, n, caps, rust, cpp, j1)
            }
        },
        None => None,
    }
}

/// Computes `sp_parse_snippet`.
pub fn parse_snippet(s: &str) -> (r: Option<Snippet>)
    requires
        s@.len() < usize::MAX,
    ensures
        match r {
            Some(p) => sp_parse_snippet(s@) == Some(p@),
            None => sp_parse_snippet(s@) is None,
        },
{
    let n = s.unicode_len();
    let i0 = skip_ws(s, n, 0);
    if !(i0 < n) {
        return None;
    }
    if s.get_char(i0) != '{' {
        return None;
    }
    match body_end(s, n, i0 + 1, 1, false, false) {
        Some(e) => {
            if skip_ws(s, n, e + 1) == n {
                let text = s.substring_char(i0 + 1, e).to_owned();
                Some(Snippet { text: text, body_lo: i0 + 1, body_hi: e })
            } else {
                None
            }
        },
        None => None,
    }
}

/// Computes `sp_parse_class`.
pub fn parse_class(s: &str) -> (r: Option<Class>)
    requires
        s@.len() < usize::MAX,
    ensures
        match r {
            Some(c) => sp_parse_class(s@) == Some(c@),
            None => sp_parse_class(s@) is None,
        },
{
    proof {
        reveal_strlit("pub");
        reveal_strlit("unsafe");
        reveal_strlit("struct");
        reveal_strlit("as");
    }
    let n = s.unicode_len();
    let i0 = skip_ws(s, n, 0);
    let i1 = if word_at(s, n, i0, "pub", 3) {
        skip_ws(s, n, i0 + 3)
    } else {
        i0
    };
    let i2 = if word_at(s, n, i1, "unsafe", 6) {
        skip_ws(s, n, i1 + 6)
    } else {
        i1
    };
    if !word_at(s, n, i2, "struct", 6) {
        return None;
    }
    let i3 = skip_ws(s, n, i2 + 6);
    if !(i3 < n) {
        return None;
    }
    let c0 = s.get_char(i3);
    if !(c0 == '_' || (c0 >= 'a' && c0 <= 'z') || (c0 >= 'A' && c0 <= 'Z')) {
        return None;
    }
    let ne = ident_end(s, n, i3 + 1);
    let i4 = skip_ws(s, n, ne);
    if !word_at(s, n, i4, "as", 2) {
        return None;
    }
    let i5 = skip_ws(s, n, i4 + 2);
    if !(i5 < n) {
        return None;
    }
    if s.get_char(i5) != '"' {
        return None;
    }
    match quote_end(s, n, i5 + 1) {
        Some(q) => {
            if q > i5 + 1 && skip_ws(s, n, q + 1) == n {
                let name = s.substring_char(i3, ne).to_owned();
                let cpp = s.substring_char(i5 + 1, q).to_owned();
                Some(Class { name: name, cpp: cpp })
            } else {
                None
            }
        },
        None => None,
    }
}

} // verus!

verus! {

use crate::ast::{capture_wf, closure_wf, class_wf, valid_ident};

/// Every character scanned over by `sp_ident_end` is an identifier
/// character.
proof fn lemma_ident_chars(s: Seq<char>, i: nat)
    requires
        i <= s.len(),
    ensures
        i <= sp_ident_end(s, i) <= s.len(),
        forall|t: int| i <= t < sp_ident_end(s, i) ==> is_ident_char(#[trigger] s[t]),
    decreases s.len() - i,
{
    if i < s.len() && is_ident_char(s[i as int]) {
        lemma_ident_chars(s, i + 1);
    }
}

/// A capture the grammar accepts is well formed: its name is a valid
/// identifier and its embedded-language type string is non-empty.
proof fn lemma_capture_wf(s: Seq<char>, i: nat)
    requires
        i <= s.len(),
    ensures
        sp_parse_capture(s, i) is Some ==> capture_wf(sp_parse_capture(s, i)->Some_0.0),
{
    reveal_strlit("mut");
    reveal_strlit("as");
    lemma_skip_ws_bounds(s, i + 3);
    let m = sp_word_at(s, i, "mut"@);
    let i1 = if m {
        sp_skip_ws(s, i + 3)
    } else {
        i
    };
    if i1 < s.len() && is_ident_start(s[i1 as int]) {
        lemma_ident_chars(s, i1 + 1);
        let ne = sp_ident_end(s, i1 + 1);
        lemma_skip_ws_bounds(s, ne);
        let i2 = sp_skip_ws(s, ne);
        if sp_word_at(s, i2, "as"@) {
            lemma_skip_ws_bounds(s, i2 + 2);
            let i3 = sp_skip_ws(s, i2 + 2);
            if i3 < s.len() && s[i3 as int] == '"' {
                lemma_quote_end_bounds(s, i3 + 1);
                match sp_quote_end(s, i3 + 1) {
                    Some(q) => {
                        if q > i3 + 1 {
                            let name = s.subrange(i1 as int, ne as int);
                            assert(name.len() > 0);
                            assert(name[0] == s[i1 as int]);
                            assert(forall|t: int|
                                0 <= t < name.len() ==> #[trigger] name[t] == s[i1 + t]);
                            assert(valid_ident(name));
                        }
                    },
                    None => {},
                }
            }
        }
    }
}

/// Every capture in a list the grammar accepts is well formed.
proof fn lemma_captures_wf(s: Seq<char>, i: nat)
    requires
        i <= s.len(),
    ensures
        sp_parse_captures(s, i) is Some ==> forall|k: int|
            0 <= k < sp_parse_captures(s, i)->Some_0.0.len() ==> capture_wf(
                #[trigger] sp_parse_captures(s, i)->Some_0.0[k],
            ),
    decreases s.len() - i,
{
    if i < s.len() && s[i as int] == ']' {
    } else {
        lemma_capture_bounds(s, i);
        lemma_capture_wf(s, i);
        match sp_parse_capture(s, i) {
            Some(cj) => {
                lemma_skip_ws_bounds(s, cj.1);
                let j2 = sp_skip_ws(s, cj.1);
                if j2 < s.len() && s[j2 as int] == ',' {
                    lemma_skip_ws_bounds(s, j2 + 1);
                    lemma_captures_wf(s, sp_skip_ws(s, j2 + 1));
                }
            },
            None => {},
        }
    }
}

/// A closure the grammar accepts satisfies the data-model invariant: a
/// non-empty embedded-language return-type string, well-formed captures,
/// and pairwise-distinct capture names.
pub proof fn lemma_parse_closure_wf(s: Seq<char>)
    ensures
        sp_parse_closure(s) is Some ==> closure_wf(sp_parse_closure(s)->Some_0),
{
    reveal_strlit("void");
    lemma_skip_ws_bounds(s, 0);
    let i0 = sp_skip_ws(s, 0);
    if i0 < s.len() && s[i0 as int] == '[' {
        lemma_skip_ws_bounds(s, i0 + 1);
        lemma_captures_wf(s, sp_skip_ws(s, i0 + 1));
        lemma_captures_bounds(s, sp_skip_ws(s, i0 + 1));
        match sp_parse_captures(s, sp_skip_ws(s, i0 + 1)) {
            Some(cj) => {
                lemma_skip_ws_bounds(s, cj.1);
                let j1 = sp_skip_ws(s, cj.1);
                if j1 + 1 < s.len() && s[j1 as int] == '-' && s[(j1 + 1) as int] == '>' {
                    lemma_skip_ws_bounds(s, j1 + 2);
                    let j2 = sp_skip_ws(s, j1 + 2);
                    lemma_type_end_bounds(s, j2, 0, false);
                    match sp_type_end(s, j2, 0, false) {
                        Some(p) => {
                            lemma_skip_ws_bounds(s, p + 2);
                            let i3 = sp_skip_ws(s, p + 2);
                            if i3 < s.len() && s[i3 as int] == '"' {
                                lemma_quote_end_bounds(s, i3 + 1);
                                match sp_quote_end(s, i3 + 1) {
                                    Some(q) => {
                                        if q > i3 + 1 {
                                            assert(s.subrange((i3 + 1) as int, q as int).len()
                                                > 0);
                                        }
                                    },
                                    None => {},
                                }
                            }
                        },
                        None => {},
                    }
                } else {
                    assert("void"@.len() > 0);
                }
            },
            None => {},
        }
    }
}

/// The position a capture list ends at lies inside the text.
proof fn lemma_captures_bounds(s: Seq<char>, i: nat)
    requires
        i <= s.len(),
    ensures
        sp_parse_captures(s, i) is Some ==> i < sp_parse_captures(s, i)->Some_0.1 <= s.len(),
    decreases s.len() - i,
{
    if i < s.len() && s[i as int] == ']' {
    } else {
        lemma_capture_bounds(s, i);
        match sp_parse_capture(s, i) {
            Some(cj) => {
                lemma_skip_ws_bounds(s, cj.1);
                let j2 = sp_skip_ws(s, cj.1);
                if j2 < s.len() && s[j2 as int] == ',' {
                    lemma_skip_ws_bounds(s, j2 + 1);
                    lemma_captures_bounds(s, sp_skip_ws(s, j2 + 1));
                }
            },
            None => {},
        }
    }
}

/// A found type end leaves room for the two-character keyword after it.
proof fn lemma_type_end_bounds(s: Seq<char>, i: nat, depth: nat, prev_ident: bool)
    requires
        i <= s.len(),
    ensures
        sp_type_end(s, i, depth, prev_ident) is Some ==> i <= sp_type_end(
            s,
            i,
            depth,
            prev_ident,
        )->Some_0 && sp_type_end(s, i, depth, prev_ident)->Some_0 + 2 <= s.len(),
    decreases s.len() - i,
{
    if i < s.len() {
        let c = s[i as int];
        let d2: nat = if c == '<' || c == '(' || c == '[' {
            depth + 1
        } else if (c == '>' || c == ')' || c == ']') && depth > 0 {
            (depth - 1) as nat
        } else {
            depth
        };
        lemma_type_end_bounds(s, i + 1, d2, is_ident_char(c));
    }
}

/// A class registration the grammar accepts satisfies the data-model
/// invariant: a valid host-language name and a non-empty embedded-language
/// type name.
pub proof fn lemma_parse_class_wf(s: Seq<char>)
    ensures
        sp_parse_class(s) is Some ==> class_wf(sp_parse_class(s)->Some_0),
{
    reveal_strlit("pub");
    reveal_strlit("unsafe");
    reveal_strlit("struct");
    reveal_strlit("as");
    lemma_skip_ws_bounds(s, 0);
    let i0 = sp_skip_ws(s, 0);
    lemma_skip_ws_bounds(s, i0 + 3);
    let i1 = if sp_word_at(s, i0, "pub"@) {
        sp_skip_ws(s, i0 + 3)
    } else {
        i0
    };
    lemma_skip_ws_bounds(s, i1 + 6);
    let i2 = if sp_word_at(s, i1, "unsafe"@) {
        sp_skip_ws(s, i1 + 6)
    } else {
        i1
    };
    if sp_word_at(s, i2, "struct"@) {
        lemma_skip_ws_bounds(s, i2 + 6);
        let i3 = sp_skip_ws(s, i2 + 6);
        if i3 < s.len() && is_ident_start(s[i3 as int]) {
            lemma_ident_chars(s, i3 + 1);
            let ne = sp_ident_end(s, i3 + 1);
            lemma_skip_ws_bounds(s, ne);
            let i4 = sp_skip_ws(s, ne);
            if sp_word_at(s, i4, "as"@) {
                lemma_skip_ws_bounds(s, i4 + 2);
                let i5 = sp_skip_ws(s, i4 + 2);
                if i5 < s.len() && s[i5 as int] == '"' {
                    lemma_quote_end_bounds(s, i5 + 1);
                    match sp_quote_end(s, i5 + 1) {
                        Some(q) => {
                            if q > i5 + 1 && sp_skip_ws(s, q + 1) == s.len() {
                                let name = s.subrange(i3 as int, ne as int);
                                assert(name[0] == s[i3 as int]);
                                assert(forall|t: int|
                                    0 <= t < name.len() ==> #[trigger] name[t] == s[i3 + t]);
                                assert(valid_ident(name));
                            }
                        },
                        None => {},
                    }
                }
            }
        }
    }
}

} // verus!
