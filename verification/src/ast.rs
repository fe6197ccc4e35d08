//! Data model of one generation pass: captured variables, closures, inert
//! snippets and class registrations, together with the canonical declaration
//! text that gives each closure and class its content-hash identity.

use vstd::prelude::*;
use crate::hash::{content_hash, hash_str};

verus! {

/// A captured variable of a closure: a name, an embedded-language type
/// string, and a mutability flag (mutable becomes a by-reference parameter,
/// immutable a const-reference parameter).
pub struct Capture {
    pub mutable: bool,
    pub name: String,
    pub cpp: String,
}

/// Mathematical view of a `Capture`.
pub struct CaptureV {
    pub mutable: bool,
    pub name: Seq<char>,
    pub cpp: Seq<char>,
}

impl View for Capture {
    type V = CaptureV;

    open spec fn view(&self) -> CaptureV {
        CaptureV { mutable: self.mutable, name: self.name@, cpp: self.cpp@ }
    }
}

/// A value-or-void-producing embedded-language fragment with its captures,
/// declared return types (host-language and embedded-language) and body
/// text. `body_lo..body_hi` is the character range the body occupies inside
/// the fragment the closure was parsed from, so a caller can resolve the
/// body's original file location before mapping it.
pub struct Closure {
    pub captures: Vec<Capture>,
    pub ret_rust: String,
    pub cpp: String,
    pub body: String,
    pub body_lo: usize,
    pub body_hi: usize,
}

/// Mathematical view of a `Closure`.
pub struct ClosureV {
    pub captures: Seq<CaptureV>,
    pub ret_rust: Seq<char>,
    pub cpp: Seq<char>,
    pub body: Seq<char>,
    pub body_lo: nat,
    pub body_hi: nat,
}

impl View for Closure {
    type V = ClosureV;

    open spec fn view(&self) -> ClosureV {
        ClosureV {
            captures: self.captures@.map_values(|c: Capture| c@),
            ret_rust: self.ret_rust@,
            cpp: self.cpp@,
            body: self.body@,
            body_lo: self.body_lo as nat,
            body_hi: self.body_hi as nat,
        }
    }
}

/// An inert embedded-language snippet, copied into the generated unit
/// verbatim. `body_lo..body_hi` is the character range the text occupies
/// inside the fragment it was parsed from.
pub struct Snippet {
    pub text: String,
    pub body_lo: usize,
    pub body_hi: usize,
}

/// Mathematical view of a `Snippet`.
pub struct SnippetV {
    pub text: Seq<char>,
    pub body_lo: nat,
    pub body_hi: nat,
}

impl View for Snippet {
    type V = SnippetV;

    open spec fn view(&self) -> SnippetV {
        SnippetV { text: self.text@, body_lo: self.body_lo as nat, body_hi: self.body_hi as nat }
    }
}

/// A registered opaque embedded-language type: a host-language name and the
/// embedded-language type name it stands for.
pub struct Class {
    pub name: String,
    pub cpp: String,
}

/// Mathematical view of a `Class`.
pub struct ClassV {
    pub name: Seq<char>,
    pub cpp: Seq<char>,
}

impl View for Class {
    type V = ClassV;

    open spec fn view(&self) -> ClassV {
        ClassV { name: self.name@, cpp: self.cpp@ }
    }
}

/// Characters a host-language identifier may start with.
pub open spec fn is_ident_start(c: char) -> bool {
    ('a' <= c && c <= 'z') || ('A' <= c && c <= 'Z') || c == '_'
}

/// Characters a host-language identifier may continue with.
pub open spec fn is_ident_char(c: char) -> bool {
    is_ident_start(c) || ('0' <= c && c <= '9')
}

/// A non-empty identifier made of identifier characters.
pub open spec fn valid_ident(s: Seq<char>) -> bool {
    &&& s.len() > 0
    &&& is_ident_start(s[0])
    &&& forall|i: int| 0 <= i < s.len() ==> is_ident_char(#[trigger] s[i])
}

/// A capture is well formed when its name is an identifier and its
/// embedded-language type string is non-empty.
pub open spec fn capture_wf(c: CaptureV) -> bool {
    valid_ident(c.name) && c.cpp.len() > 0
}

/// A closure is well formed when its embedded-language return-type string
/// is non-empty (the no-value case carries the literal token `void`), every
/// capture is well formed, and capture names are unique.
pub open spec fn closure_wf(c: ClosureV) -> bool {
    &&& c.cpp.len() > 0
    &&& forall|i: int| 0 <= i < c.captures.len() ==> capture_wf(#[trigger] c.captures[i])
    &&& forall|i: int, j: int|
        0 <= i < j < c.captures.len() ==> c.captures[i].name != c.captures[j].name
}

/// A class registration is well formed when its name is an identifier and
/// its embedded-language type name is non-empty.
pub open spec fn class_wf(c: ClassV) -> bool {
    valid_ident(c.name) && c.cpp.len() > 0
}

/// Canonical declaration text of one capture.
pub open spec fn capture_decl(c: CaptureV) -> Seq<char> {
    (if c.mutable {
        "mut "@
    } else {
        ""@
    }) + c.name + " as \""@ + c.cpp + "\""@
}

/// Canonical declaration text of a capture list, comma separated.
pub open spec fn captures_decl(cs: Seq<CaptureV>) -> Seq<char>
    decreases cs.len(),
{
    if cs.len() == 0 {
        Seq::<char>::empty()
    } else if cs.len() == 1 {
        capture_decl(cs[0])
    } else {
        captures_decl(cs.drop_last()) + ", "@ + capture_decl(cs.last())
    }
}

/// Canonical declaration text of a closure signature; the content hash of
/// this text is the closure's identity.
pub open spec fn closure_decl(c: ClosureV) -> Seq<char> {
    "["@ + captures_decl(c.captures) + "] -> "@ + c.ret_rust + " as \""@ + c.cpp + "\""@
}

/// Canonical declaration text of a class registration; the content hash of
/// this text is the class's identity.
pub open spec fn class_decl(c: ClassV) -> Seq<char> {
    "struct "@ + c.name + " as \""@ + c.cpp + "\""@
}

/// Content hash keying everything generated for a closure.
pub open spec fn closure_hash(c: ClosureV) -> u64 {
    content_hash(closure_decl(c))
}

/// Content hash keying everything generated for a class.
pub open spec fn class_hash(c: ClassV) -> u64 {
    content_hash(class_decl(c))
}

/// Appends the canonical declaration text of `c` to `out`.
fn push_capture_decl(out: &mut String, c: &Capture)
    ensures
        final(out)@ == old(out)@ + capture_decl(c@),
{
    if c.mutable {
        out.append("mut ");
    }
    out.append(c.name.as_str());
    out.append(" as \"");
    out.append(c.cpp.as_str());
    out.append("\"");
    proof {
        reveal_strlit("");
        assert(out@ =~= old(out)@ + capture_decl(c@));
    }
}

/// Appends the canonical declaration text of the capture list to `out`.
fn push_captures_decl(out: &mut String, cs: &Vec<Capture>)
    ensures
        final(out)@ == old(out)@ + captures_decl(cs@.map_values(|c: Capture| c@)),
{
    let ghost vw = cs@.map_values(|c: Capture| c@);
    let mut i: usize = 0;
    while i < cs.len()
        invariant
            i <= cs.len(),
            vw == cs@.map_values(|c: Capture| c@),
            out@ == old(out)@ + captures_decl(vw.take(i as int)),
        decreases cs.len() - i,
    {
        if i > 0 {
            out.append(", ");
        }
        push_capture_decl(out, &cs[i]);
        i = i + 1;
        proof {
            assert(vw.take(i as int).drop_last() =~= vw.take(i - 1));
            assert(vw.take(i as int).last() == vw[i - 1]);
            assert(out@ =~= old(out)@ + captures_decl(vw.take(i as int)));
        }
    }
    proof {
        assert(vw.take(cs@.len() as int) =~= vw);
    }
}

/// Builds the canonical declaration text of a closure signature.
pub fn closure_decl_string(c: &Closure) -> (r: String)
    ensures
        r@ == closure_decl(c@),
{
    let mut r = String::new();
    r.append("[");
    push_captures_decl(&mut r, &c.captures);
    r.append("] -> ");
    r.append(c.ret_rust.as_str());
    r.append(" as \"");
    r.append(c.cpp.as_str());
    r.append("\"");
    proof {
        assert(r@ =~= closure_decl(c@));
    }
    r
}

/// Builds the canonical declaration text of a class registration.
pub fn class_decl_string(c: &Class) -> (r: String)
    ensures
        r@ == class_decl(c@),
{
    let mut r = String::new();
    r.append("struct ");
    r.append(c.name.as_str());
    r.append(" as \"");
    r.append(c.cpp.as_str());
    r.append("\"");
    proof {
        assert(r@ =~= class_decl(c@));
    }
    r
}

/// Computes the content hash keying everything generated for `c`.
pub fn closure_hash_of(c: &Closure) -> (h: u64)
    ensures
        h == closure_hash(c@),
{
    let decl = closure_decl_string(c);
    hash_str(decl.as_str())
}

/// Views of a sequence of closures.
pub open spec fn closure_views(cs: Seq<Closure>) -> Seq<ClosureV> {
    cs.map_values(|c: Closure| c@)
}

/// Views of a sequence of classes.
pub open spec fn class_views(ks: Seq<Class>) -> Seq<ClassV> {
    ks.map_values(|k: Class| k@)
}

/// Views of a sequence of strings.
pub open spec fn string_views(ss: Seq<String>) -> Seq<Seq<char>> {
    ss.map_values(|s: String| s@)
}

/// Computes the content hash keying everything generated for `c`.
pub fn class_hash_of(c: &Class) -> (h: u64)
    ensures
        h == class_hash(c@),
{
    let decl = class_decl_string(c);
    hash_str(decl.as_str())
}

} // verus!
