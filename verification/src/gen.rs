//! Code generation: one externally-callable, ABI-stable symbol per closure
//! (a direct function for void closures, a helper plus an out-pointer
//! trampoline for value-returning ones) and three capability-guarded thunks
//! per registered class.

use vstd::prelude::*;
use crate::ast::{Capture, CaptureV, Closure, ClosureV, Class, ClassV, closure_hash, class_hash,
    closure_decl_string, class_decl_string};
use crate::hash::hash_str;
use crate::text::{dec_str, push_dec};

verus! {

/// The externally-callable symbol generated for a closure with hash `h`.
pub open spec fn extern_symbol(h: u64) -> Seq<char> {
    "__cpp_closure_"@ + dec_str(h as nat)
}

/// One generated parameter: a mutable capture is passed by reference, an
/// immutable one by const reference.
pub open spec fn param_decl(c: CaptureV) -> Seq<char> {
    if c.mutable {
        c.cpp + " & "@ + c.name
    } else {
        c.cpp + " const& "@ + c.name
    }
}

/// The generated parameter list, comma separated, in capture order.
pub open spec fn params_text(cs: Seq<CaptureV>) -> Seq<char>
    decreases cs.len(),
{
    if cs.len() == 0 {
        Seq::<char>::empty()
    } else if cs.len() == 1 {
        param_decl(cs[0])
    } else {
        params_text(cs.drop_last()) + ", "@ + param_decl(cs.last())
    }
}

/// The argument list forwarding every capture to the helper, in order.
pub open spec fn args_text(cs: Seq<CaptureV>) -> Seq<char>
    decreases cs.len(),
{
    if cs.len() == 0 {
        Seq::<char>::empty()
    } else if cs.len() == 1 {
        cs[0].name
    } else {
        args_text(cs.drop_last()) + ", "@ + cs.last().name
    }
}

/// A closure produces no value exactly when its embedded-language return
/// type is the literal token for "no value".
pub open spec fn spec_is_void(c: ClosureV) -> bool {
    c.cpp == "void"@
}

/// Text generated for a void closure: one externally-callable function whose
/// body is the fragment verbatim.
pub open spec fn void_closure_text(c: ClosureV) -> Seq<char> {
    "\nextern \"C\" {\nvoid "@ + extern_symbol(closure_hash(c)) + "("@ + params_text(c.captures)
        + ") {\n"@ + c.body + "\n}\n}\n"@
}

/// Text generated for a value-returning closure: an internal helper that
/// returns the declared type by value, and an externally-callable trampoline
/// with one trailing untyped output-buffer pointer that placement-constructs
/// the helper's result into the caller-supplied buffer.
pub open spec fn value_closure_text(c: ClosureV) -> Seq<char> {
    "\nstatic inline "@ + c.cpp + " "@ + extern_symbol(closure_hash(c)) + "_impl("@
        + params_text(c.captures) + ") {\n"@ + c.body + "\n}\nextern \"C\" {\nvoid "@
        + extern_symbol(closure_hash(c)) + "("@ + params_text(c.captures) + (if c.captures.len()
        == 0 {
        ""@
    } else {
        ","@
    }) + " void* __result) {\n    ::new(__result) ("@ + c.cpp + ")("@ + extern_symbol(
        closure_hash(c),
    ) + "_impl("@ + args_text(c.captures) + "));\n}\n}\n"@
}

/// Text generated for one closure.
pub open spec fn closure_text(c: ClosureV) -> Seq<char> {
    if spec_is_void(c) {
        void_closure_text(c)
    } else {
        value_closure_text(c)
    }
}

/// Text generated for one registered class: destructor, copy-construction
/// and default-construction thunks, each keyed by the class's content hash.
/// The copy and default thunks go through the capability-guarded helpers, so
/// the symbol always resolves and an unsupported operation aborts loudly at
/// run time instead of corrupting memory.
pub open spec fn class_text(c: ClassV) -> Seq<char> {
    "\nextern \"C\" {\nvoid __cpp_destructor_"@ + dec_str(class_hash(c) as nat)
        + "(void *ptr) {\n    typedef "@ + c.cpp
        + " T;\n    static_cast<T*>(ptr)->~T();\n}\nvoid __cpp_copy_"@ + dec_str(
        class_hash(c) as nat,
    ) + "(const void *src, void *dest) {\n    rustcpp::copy_helper<"@ + c.cpp
        + ">(src, dest);\n}\nvoid __cpp_default_"@ + dec_str(class_hash(c) as nat)
        + "(void *dest) {\n    rustcpp::default_helper<"@ + c.cpp + ">(dest);\n}\n}\n"@
}

/// Decides whether `c` is a void closure.
pub fn is_void(c: &Closure) -> (r: bool)
    ensures
        r == spec_is_void(c@),
{
    let v = String::from_str("void");
    c.cpp == v
}

/// Appends the externally-callable symbol for hash `h` to `out`.
fn push_symbol(out: &mut String, h: u64)
    ensures
        final(out)@ == old(out)@ + extern_symbol(h),
{
    out.append("__cpp_closure_");
    push_dec(out, h);
    proof {
        assert(out@ =~= old(out)@ + extern_symbol(h));
    }
}

/// Appends the generated parameter list of `cs` to `out`.
fn push_params(out: &mut String, cs: &Vec<Capture>)
    ensures
        final(out)@ == old(out)@ + params_text(cs@.map_values(|c: Capture| c@)),
{
    let ghost vw = cs@.map_values(|c: Capture| c@);
    let mut i: usize = 0;
    while i < cs.len()
        invariant
            i <= cs.len(),
            vw == cs@.map_values(|c: Capture| c@),
            out@ == old(out)@ + params_text(vw.take(i as int)),
        decreases cs.len() - i,
    {
        if i > 0 {
            out.append(", ");
        }
        if cs[i].mutable {
            out.append(cs[i].cpp.as_str());
            out.append(" & ");
            out.append(cs[i].name.as_str());
        } else {
            out.append(cs[i].cpp.as_str());
            out.append(" const& ");
            out.append(cs[i].name.as_str());
        }
        i = i + 1;
        proof {
            assert(vw.take(i as int).drop_last() =~= vw.take(i - 1));
            assert(vw.take(i as int).last() == vw[i - 1]);
            assert(out@ =~= old(out)@ + params_text(vw.take(i as int)));
        }
    }
    proof {
        assert(vw.take(cs@.len() as int) =~= vw);
    }
}

/// Appends the forwarded argument list of `cs` to `out`.
fn push_args(out: &mut String, cs: &Vec<Capture>)
    ensures
        final(out)@ == old(out)@ + args_text(cs@.map_values(|c: Capture| c@)),
{
    let ghost vw = cs@.map_values(|c: Capture| c@);
    let mut i: usize = 0;
    while i < cs.len()
        invariant
            i <= cs.len(),
            vw == cs@.map_values(|c: Capture| c@),
            out@ == old(out)@ + args_text(vw.take(i as int)),
        decreases cs.len() - i,
    {
        if i > 0 {
            out.append(", ");
        }
        out.append(cs[i].name.as_str());
        i = i + 1;
        proof {
            assert(vw.take(i as int).drop_last() =~= vw.take(i - 1));
            assert(vw.take(i as int).last() == vw[i - 1]);
            assert(out@ =~= old(out)@ + args_text(vw.take(i as int)));
        }
    }
    proof {
        assert(vw.take(cs@.len() as int) =~= vw);
    }
}

/// Appends the full text generated for closure `c` to `out`.
pub fn push_closure_text(out: &mut String, c: &Closure)
    ensures
        final(out)@ == old(out)@ + closure_text(c@),
{
    let decl = closure_decl_string(c);
    let h = hash_str(decl.as_str());
    if is_void(c) {
        out.append("\nextern \"C\" {\nvoid ");
        push_symbol(out, h);
        out.append("(");
        push_params(out, &c.captures);
        out.append(") {\n");
        out.append(c.body.as_str());
        out.append("\n}\n}\n");
        proof {
            assert(out@ =~= old(out)@ + void_closure_text(c@));
        }
    } else {
        out.append("\nstatic inline ");
        out.append(c.cpp.as_str());
        out.append(" ");
        push_symbol(out, h);
        out.append("_impl(");
        push_params(out, &c.captures);
        out.append(") {\n");
        out.append(c.body.as_str());
        out.append("\n}\nextern \"C\" {\nvoid ");
        push_symbol(out, h);
        out.append("(");
        push_params(out, &c.captures);
        if c.captures.len() > 0 {
            out.append(",");
        }
        out.append(" void* __result) {\n    ::new(__result) (");
        out.append(c.cpp.as_str());
        out.append(")(");
        push_symbol(out, h);
        out.append("_impl(");
        push_args(out, &c.captures);
        out.append("));\n}\n}\n");
        proof {
            reveal_strlit("");
            reveal_strlit(",");
            assert(out@ =~= old(out)@ + value_closure_text(c@));
        }
    }
}

/// Appends the full text generated for class `c` to `out`.
pub fn push_class_text(out: &mut String, c: &Class)
    ensures
        final(out)@ == old(out)@ + class_text(c@),
{
    let decl = class_decl_string(c);
    let h = hash_str(decl.as_str());
    out.append("\nextern \"C\" {\nvoid __cpp_destructor_");
    push_dec(out, h);
    out.append("(void *ptr) {\n    typedef ");
    out.append(c.cpp.as_str());
    out.append(" T;\n    static_cast<T*>(ptr)->~T();\n}\nvoid __cpp_copy_");
    push_dec(out, h);
    out.append("(const void *src, void *dest) {\n    rustcpp::copy_helper<");
    out.append(c.cpp.as_str());
    out.append(">(src, dest);\n}\nvoid __cpp_default_");
    push_dec(out, h);
    out.append("(void *dest) {\n    rustcpp::default_helper<");
    out.append(c.cpp.as_str());
    out.append(">(dest);\n}\n}\n");
    proof {
        assert(out@ =~= old(out)@ + class_text(c@));
    }
}

} // verus!
