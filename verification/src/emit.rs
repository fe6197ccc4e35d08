//! The metadata emitter and the assembly of the whole generated compilation
//! unit: fixed prelude, snippets, closure functions, class thunks and the
//! versioned, magic-tagged metadata table.

use vstd::prelude::*;
use crate::ast::{Capture, CaptureV, Closure, ClosureV, Class, ClassV, closure_hash, class_hash,
    closure_views, class_views, string_views, closure_decl_string};
use crate::gen::{spec_is_void, is_void, closure_text, class_text, push_closure_text,
    push_class_text};
use crate::hash::hash_str;
use crate::metadata::{magic_seq, version_str, magic_bytes, generator_version,
    FLAG_IS_COPY_CONSTRUCTIBLE, FLAG_IS_DEFAULT_CONSTRUCTIBLE, FLAG_IS_TRIVIALLY_DESTRUCTIBLE,
    FLAG_IS_TRIVIALLY_COPYABLE, FLAG_IS_TRIVIALLY_DEFAULT_CONSTRUCTIBLE};
use crate::text::{dec_str, push_dec};

verus! {

/// Metadata entry text for a void closure return: no storage, alignment
/// one, no capabilities.
#[verifier::opaque]
pub open spec fn void_entry(h: u64) -> Seq<char> {
    "{"@ + dec_str(h as nat) + "ull, 0, 1, 0}"@
}

/// Metadata entry text for an exposed type occurrence: the entry's size,
/// alignment and capability flags are spelled as embedded-language
/// expressions, so the embedded compiler itself computes them and they can
/// never drift from the compiled layout.
#[verifier::opaque]
pub open spec fn typed_entry(h: u64, ty: Seq<char>) -> Seq<char> {
    "{"@ + dec_str(h as nat) + "ull, sizeof("@ + ty + "), rustcpp::AlignOf<"@ + ty
        + ">::value, rustcpp::Flags<"@ + ty + ">::value}"@
}

/// The entry contributed by a closure's return type.
pub open spec fn ret_entry(c: ClosureV) -> Seq<char> {
    if spec_is_void(c) {
        void_entry(closure_hash(c))
    } else {
        typed_entry(closure_hash(c), c.cpp)
    }
}

/// All entries contributed by one closure: one for the return type, then
/// one per capture, in capture order, all keyed by the closure's hash.
pub open spec fn closure_entries(c: ClosureV) -> Seq<Seq<char>> {
    seq![ret_entry(c)] + c.captures.map_values(
        |cap: CaptureV| typed_entry(closure_hash(c), cap.cpp),
    )
}

/// Entries of a sequence of closures, in document order.
pub open spec fn closures_entries(cs: Seq<ClosureV>) -> Seq<Seq<char>>
    decreases cs.len(),
{
    if cs.len() == 0 {
        Seq::<Seq<char>>::empty()
    } else {
        closures_entries(cs.drop_last()) + closure_entries(cs.last())
    }
}

/// Entries of a sequence of classes: one per registration, in order.
pub open spec fn classes_entries(ks: Seq<ClassV>) -> Seq<Seq<char>> {
    ks.map_values(|k: ClassV| typed_entry(class_hash(k), k.cpp))
}

/// Every entry of one pass: closure contributions first, then classes,
/// append order, never deduplicated.
pub open spec fn all_entries(cs: Seq<ClosureV>, ks: Seq<ClassV>) -> Seq<Seq<char>> {
    closures_entries(cs) + classes_entries(ks)
}

/// Number of entries one closure contributes.
pub open spec fn closure_contribution(c: ClosureV) -> nat {
    1 + c.captures.len()
}

/// Total entries contributed by a sequence of closures.
pub open spec fn contributions(cs: Seq<ClosureV>) -> nat
    decreases cs.len(),
{
    if cs.len() == 0 {
        0
    } else {
        contributions(cs.drop_last()) + closure_contribution(cs.last())
    }
}

/// The metadata entry count of a pass is exactly the sum of one plus the
/// capture count over all closures, plus one per registered class.
pub proof fn lemma_entry_count(cs: Seq<ClosureV>, ks: Seq<ClassV>)
    ensures
        all_entries(cs, ks).len() == contributions(cs) + ks.len(),
    decreases cs.len(),
{
    if cs.len() == 0 {
    } else {
        lemma_entry_count(cs.drop_last(), ks);
    }
}

/// Builds the metadata entry text for a void closure return.
fn void_entry_string(h: u64) -> (r: String)
    ensures
        r@ == void_entry(h),
{
    let mut r = String::new();
    r.append("{");
    push_dec(&mut r, h);
    r.append("ull, 0, 1, 0}");
    proof {
        reveal(void_entry);
        assert(r@ =~= void_entry(h));
    }
    r
}

/// Builds the metadata entry text for one exposed type occurrence.
fn typed_entry_string(h: u64, ty: &str) -> (r: String)
    ensures
        r@ == typed_entry(h, ty@),
{
    let mut r = String::new();
    r.append("{");
    push_dec(&mut r, h);
    r.append("ull, sizeof(");
    r.append(ty);
    r.append("), rustcpp::AlignOf<");
    r.append(ty);
    r.append(">::value, rustcpp::Flags<");
    r.append(ty);
    r.append(">::value}");
    proof {
        reveal(typed_entry);
        assert(r@ =~= typed_entry(h, ty@));
    }
    r
}

/// Appends every entry contributed by closure `c`: its return entry, then
/// one entry per capture, in capture order.
#[verifier::rlimit(100)]
fn push_closure_entries(v: &mut Vec<String>, c: &Closure)
    ensures
        string_views(final(v)@) == string_views(old(v)@) + closure_entries(c@),
{
    let ghost vorig = v@;
    let ghost n0 = v@.len() as int;
    let decl = closure_decl_string(c);
    let h = hash_str(decl.as_str());
    if is_void(c) {
        v.push(void_entry_string(h));
    } else {
        v.push(typed_entry_string(h, c.cpp.as_str()));
    }
    let mut j: usize = 0;
    while j < c.captures.len()
        invariant
            j <= c.captures.len(),
            h == closure_hash(c@),
            v@.len() == n0 + 1 + j,
            vorig == old(v)@,
            n0 == vorig.len(),
            forall|t: int| 0 <= t < n0 ==> v@[t] == vorig[t],
            v@[n0]@ == ret_entry(c@),
            forall|t: int|
                0 <= t < j ==> v@[n0 + 1 + t]@ == typed_entry(
                    h,
                    #[trigger] c@.captures[t].cpp,
                ),
        decreases c.captures.len() - j,
    {
        let e = typed_entry_string(h, c.captures[j].cpp.as_str());
        let ghost vprev = v@;
        v.push(e);
        proof {
            assert(v@ =~= vprev.push(e));
            assert(forall|t: int| 0 <= t < vprev.len() ==> v@[t] == vprev[t]);
            assert(c@.captures[j as int] == c.captures@[j as int]@);
            assert(v@[n0 + 1 + j]@ == typed_entry(h, c@.captures[j as int].cpp));
        }
        j = j + 1;
    }
    proof {
        let va = string_views(old(v)@);
        let vb = string_views(v@);
        assert(forall|t: int| 0 <= t < n0 ==> vb[t] == va[t]);
        assert(vb[n0] == ret_entry(c@));
        assert(forall|t: int|
            0 <= t < c@.captures.len() ==> vb[n0 + 1 + t] == typed_entry(
                closure_hash(c@),
                #[trigger] c@.captures[t].cpp,
            ));
        assert(vb =~= va + closure_entries(c@));
    }
}

/// Appends the one entry contributed by class `cl`.
fn push_class_entry(v: &mut Vec<String>, cl: &Class)
    ensures
        string_views(final(v)@) == string_views(old(v)@) + seq![
            typed_entry(class_hash(cl@), cl@.cpp),
        ],
{
    let decl = crate::ast::class_decl_string(cl);
    let h = hash_str(decl.as_str());
    v.push(typed_entry_string(h, cl.cpp.as_str()));
    proof {
        assert(string_views(v@) =~= string_views(old(v)@) + seq![
            typed_entry(class_hash(cl@), cl@.cpp),
        ]);
    }
}

/// Collects every metadata entry of one pass, in append order: for each
/// closure its return entry then one entry per capture, then one entry per
/// registered class.
#[verifier::rlimit(60)]
pub fn metadata_entries(closures: &Vec<Closure>, classes: &Vec<Class>) -> (v: Vec<String>)
    ensures
        string_views(v@) == all_entries(closure_views(closures@), class_views(classes@)),
{
    let ghost cvs = closure_views(closures@);
    let ghost kvs = class_views(classes@);
    let mut v: Vec<String> = Vec::new();
    let mut i: usize = 0;
    while i < closures.len()
        invariant
            i <= closures.len(),
            cvs == closure_views(closures@),
            string_views(v@) == closures_entries(cvs.take(i as int)),
        decreases closures.len() - i,
    {
        push_closure_entries(&mut v, &closures[i]);
        i = i + 1;
        proof {
            assert(cvs.take(i as int).drop_last() =~= cvs.take(i - 1));
            assert(cvs.take(i as int).last() == cvs[i - 1]);
        }
    }
    proof {
        assert(cvs.take(closures@.len() as int) =~= cvs);
    }
    let mut k: usize = 0;
    while k < classes.len()
        invariant
            k <= classes.len(),
            cvs == closure_views(closures@),
            kvs == class_views(classes@),
            string_views(v@) == closures_entries(cvs) + classes_entries(kvs.take(k as int)),
        decreases classes.len() - k,
    {
        push_class_entry(&mut v, &classes[k]);
        k = k + 1;
        proof {
            assert(kvs.take(k as int) =~= kvs.take(k - 1).push(kvs[k - 1]));
            assert(classes_entries(kvs.take(k as int)) =~= classes_entries(
                kvs.take(k - 1),
            ).push(typed_entry(class_hash(kvs[k - 1]), kvs[k - 1].cpp)));
            assert(string_views(v@) =~= closures_entries(cvs) + classes_entries(
                kvs.take(k as int),
            ));
        }
    }
    proof {
        assert(kvs.take(classes@.len() as int) =~= kvs);
        assert(string_views(v@) =~= all_entries(cvs, kvs));
    }
    v
}

/// The magic marker bytes spelled as decimal numbers, comma separated.
pub open spec fn bytes_join(bs: Seq<u8>) -> Seq<char>
    decreases bs.len(),
{
    if bs.len() == 0 {
        Seq::<char>::empty()
    } else if bs.len() == 1 {
        dec_str(bs[0] as nat)
    } else {
        bytes_join(bs.drop_last()) + ", "@ + dec_str(bs.last() as nat)
    }
}

/// The entry texts, comma separated, in append order.
pub open spec fn entries_join(es: Seq<Seq<char>>) -> Seq<char>
    decreases es.len(),
{
    if es.len() == 0 {
        Seq::<char>::empty()
    } else if es.len() == 1 {
        es[0]
    } else {
        entries_join(es.drop_last()) + ", "@ + es.last()
    }
}

/// The metadata table definition: the layout probes, the table struct, and
/// one weak definition holding the magic marker, the version field, the
/// entry count and every entry.
pub open spec fn table_text(es: Seq<Seq<char>>) -> Seq<char> {
    "\n\nnamespace rustcpp {\n\ntemplate<typename T>\nstruct AlignOf {\n    struct Inner {\n        char a;\n        T b;\n    };\n    static const uintptr_t value = sizeof(Inner) - sizeof(T);\n};\n\ntemplate<typename T>\nstruct Flags {\n    static const uintptr_t value =\n        (is_copy_constructible<T>::value << "@
        + dec_str(FLAG_IS_COPY_CONSTRUCTIBLE as nat)
        + ") |\n        (is_default_constructible<T>::value << "@
        + dec_str(FLAG_IS_DEFAULT_CONSTRUCTIBLE as nat)
        + ") |\n#if __cplusplus > 199711L\n        (std::is_trivially_destructible<T>::value << "@
        + dec_str(FLAG_IS_TRIVIALLY_DESTRUCTIBLE as nat)
        + ") |\n        (std::is_trivially_copyable<T>::value << "@
        + dec_str(FLAG_IS_TRIVIALLY_COPYABLE as nat)
        + ") |\n        (std::is_trivially_default_constructible<T>::value << "@
        + dec_str(FLAG_IS_TRIVIALLY_DEFAULT_CONSTRUCTIBLE as nat)
        + ") |\n#endif\n        0;\n};\n\nstruct SizeAlign {\n    uint64_t hash;\n    uint64_t size;\n    uint64_t align;\n    uint64_t flags;\n};\n\nstruct MetaData {\n    uint8_t magic[128];\n    uint8_t version[16];\n    uint64_t length;\n    SizeAlign data["@
        + dec_str(es.len()) + "];\n};\n\nMetaData\n#ifdef __GNUC__\n    __attribute__((weak))\n#endif\n    metadata = {\n    { "@
        + bytes_join(magic_seq()) + " },\n    \""@ + version_str() + "\",\n    "@ + dec_str(
        es.len(),
    ) + ",\n    { "@ + entries_join(es) + " }\n};\n\n} // namespace rustcpp\n"@
}

/// Appends the magic marker bytes as comma-separated decimal numbers.
fn push_magic_join(out: &mut String)
    ensures
        final(out)@ == old(out)@ + bytes_join(magic_seq()),
{
    let magic = magic_bytes();
    let mut i: usize = 0;
    while i < magic.len()
        invariant
            i <= magic.len(),
            magic@ == magic_seq(),
            out@ == old(out)@ + bytes_join(magic_seq().take(i as int)),
        decreases magic.len() - i,
    {
        if i > 0 {
            out.append(", ");
        }
        push_dec(out, magic[i] as u64);
        i = i + 1;
        proof {
            assert(magic_seq().take(i as int).drop_last() =~= magic_seq().take(i - 1));
            assert(magic_seq().take(i as int).last() == magic_seq()[i - 1]);
            assert(out@ =~= old(out)@ + bytes_join(magic_seq().take(i as int)));
        }
    }
    proof {
        assert(magic_seq().take(magic_seq().len() as int) =~= magic_seq());
    }
}

/// Appends the entry texts, comma separated.
fn push_entries_join(out: &mut String, es: &Vec<String>)
    ensures
        final(out)@ == old(out)@ + entries_join(string_views(es@)),
{
    let ghost evs = string_views(es@);
    let mut i: usize = 0;
    while i < es.len()
        invariant
            i <= es.len(),
            evs == string_views(es@),
            out@ == old(out)@ + entries_join(evs.take(i as int)),
        decreases es.len() - i,
    {
        if i > 0 {
            out.append(", ");
        }
        out.append(es[i].as_str());
        i = i + 1;
        proof {
            assert(evs.take(i as int).drop_last() =~= evs.take(i - 1));
            assert(evs.take(i as int).last() == evs[i - 1]);
            assert(out@ =~= old(out)@ + entries_join(evs.take(i as int)));
        }
    }
    proof {
        assert(evs.take(es@.len() as int) =~= evs);
    }
}

/// Appends the metadata table definition for the given entries.
#[verifier::rlimit(60)]
pub fn push_table_text(out: &mut String, es: &Vec<String>)
    ensures
        final(out)@ == old(out)@ + table_text(string_views(es@)),
{
    out.append(
        "\n\nnamespace rustcpp {\n\ntemplate<typename T>\nstruct AlignOf {\n    struct Inner {\n        char a;\n        T b;\n    };\n    static const uintptr_t value = sizeof(Inner) - sizeof(T);\n};\n\ntemplate<typename T>\nstruct Flags {\n    static const uintptr_t value =\n        (is_copy_constructible<T>::value << ",
    );
    push_dec(out, FLAG_IS_COPY_CONSTRUCTIBLE);
    out.append(") |\n        (is_default_constructible<T>::value << ");
    push_dec(out, FLAG_IS_DEFAULT_CONSTRUCTIBLE);
    out.append(") |\n#if __cplusplus > 199711L\n        (std::is_trivially_destructible<T>::value << ");
    push_dec(out, FLAG_IS_TRIVIALLY_DESTRUCTIBLE);
    out.append(") |\n        (std::is_trivially_copyable<T>::value << ");
    push_dec(out, FLAG_IS_TRIVIALLY_COPYABLE);
    out.append(") |\n        (std::is_trivially_default_constructible<T>::value << ");
    push_dec(out, FLAG_IS_TRIVIALLY_DEFAULT_CONSTRUCTIBLE);
    out.append(") |\n#endif\n        0;\n};\n\nstruct SizeAlign {\n    uint64_t hash;\n    uint64_t size;\n    uint64_t align;\n    uint64_t flags;\n};\n\nstruct MetaData {\n    uint8_t magic[128];\n    uint8_t version[16];\n    uint64_t length;\n    SizeAlign data[");
    let n = es.len();
    push_dec(out, n as u64);
    out.append("];\n};\n\nMetaData\n#ifdef __GNUC__\n    __attribute__((weak))\n#endif\n    metadata = {\n    { ");
    push_magic_join(out);
    out.append(" },\n    \"");
    out.append(generator_version());
    out.append("\",\n    ");
    push_dec(out, n as u64);
    out.append(",\n    { ");
    push_entries_join(out, es);
    out.append(" }\n};\n\n} // namespace rustcpp\n");
    proof {
        assert(out@ =~= old(out)@ + table_text(string_views(es@)));
    }
}

} // verus!

verus! {

/// The fixed prelude of every generated unit: placement-new and abort
/// support, and the capability-detection idiom (overload-resolution probing
/// on toolchains predating standard trait introspection, the standard
/// traits otherwise; both yield the same boolean capability per type).
pub open spec fn prelude_text() -> Seq<char> {
    "/* This file is generated by cpp_build. Do not edit. */\n\n#include \"stdint.h\" // For {u}intN_t\n#include <new> // For placement new\n#include <cstdlib> // For abort\n\n#if __cplusplus <= 199711L && !defined(_MSC_VER)\nnamespace rustcpp {\ntemplate<typename T>\nstruct is_default_constructible {\n    template<typename X>\n    static double test(int(*)[sizeof(new X)]);\n    template<typename X>\n    static char test(...);\n    enum { value = sizeof(test<T>(0)) == sizeof(double) };\n};\ntemplate<typename T>\nstruct is_copy_constructible {\n    static T &declval();\n    template<typename X>\n    static double test(int(*)[sizeof(new X(declval()))]);\n    template<typename X>\n    static char test(...);\n    enum { value = sizeof(test<T>(0)) == sizeof(double) };\n};\ntemplate<bool B, class T = void> struct enable_if {};\ntemplate<class T> struct enable_if<true, T> { typedef T type; };\n}\n#else\n#include <type_traits>\nnamespace rustcpp {\nusing std::is_default_constructible;\nusing std::is_copy_constructible;\nusing std::enable_if;\n}\n#endif\n\nnamespace rustcpp {\ntemplate<typename T>\ntypename enable_if<is_copy_constructible<T>::value>::type copy_helper(const void *src, void *dest)\n{ new (dest) T (*static_cast<T const*>(src)); }\ntemplate<typename T>\ntypename enable_if<!is_copy_constructible<T>::value>::type copy_helper(const void *, void *)\n{ std::abort(); }\ntemplate<typename T>\ntypename enable_if<is_default_constructible<T>::value>::type default_helper(void *dest)\n{ new (dest) T(); }\ntemplate<typename T>\ntypename enable_if<!is_default_constructible<T>::value>::type default_helper(void *)\n{ std::abort(); }\n}\n\n"@
}

/// Returns the fixed prelude of every generated unit.
pub fn prelude_str() -> (r: &'static str)
    ensures
        r@ == prelude_text(),
{
    "/* This file is generated by cpp_build. Do not edit. */\n\n#include \"stdint.h\" // For {u}intN_t\n#include <new> // For placement new\n#include <cstdlib> // For abort\n\n#if __cplusplus <= 199711L && !defined(_MSC_VER)\nnamespace rustcpp {\ntemplate<typename T>\nstruct is_default_constructible {\n    template<typename X>\n    static double test(int(*)[sizeof(new X)]);\n    template<typename X>\n    static char test(...);\n    enum { value = sizeof(test<T>(0)) == sizeof(double) };\n};\ntemplate<typename T>\nstruct is_copy_constructible {\n    static T &declval();\n    template<typename X>\n    static double test(int(*)[sizeof(new X(declval()))]);\n    template<typename X>\n    static char test(...);\n    enum { value = sizeof(test<T>(0)) == sizeof(double) };\n};\ntemplate<bool B, class T = void> struct enable_if {};\ntemplate<class T> struct enable_if<true, T> { typedef T type; };\n}\n#else\n#include <type_traits>\nnamespace rustcpp {\nusing std::is_default_constructible;\nusing std::is_copy_constructible;\nusing std::enable_if;\n}\n#endif\n\nnamespace rustcpp {\ntemplate<typename T>\ntypename enable_if<is_copy_constructible<T>::value>::type copy_helper(const void *src, void *dest)\n{ new (dest) T (*static_cast<T const*>(src)); }\ntemplate<typename T>\ntypename enable_if<!is_copy_constructible<T>::value>::type copy_helper(const void *, void *)\n{ std::abort(); }\ntemplate<typename T>\ntypename enable_if<is_default_constructible<T>::value>::type default_helper(void *dest)\n{ new (dest) T(); }\ntemplate<typename T>\ntypename enable_if<!is_default_constructible<T>::value>::type default_helper(void *)\n{ std::abort(); }\n}\n\n"
}

/// All inert snippets, each preceded by a newline, in document order.
pub open spec fn snippets_text(ss: Seq<Seq<char>>) -> Seq<char>
    decreases ss.len(),
{
    if ss.len() == 0 {
        Seq::<char>::empty()
    } else {
        snippets_text(ss.drop_last()) + "\n"@ + ss.last()
    }
}

/// The generated functions of all closures, in document order.
pub open spec fn closures_text(cs: Seq<ClosureV>) -> Seq<char>
    decreases cs.len(),
{
    if cs.len() == 0 {
        Seq::<char>::empty()
    } else {
        closures_text(cs.drop_last()) + closure_text(cs.last())
    }
}

/// The generated thunks of all registered classes, in document order.
pub open spec fn classes_text(ks: Seq<ClassV>) -> Seq<char>
    decreases ks.len(),
{
    if ks.len() == 0 {
        Seq::<char>::empty()
    } else {
        classes_text(ks.drop_last()) + class_text(ks.last())
    }
}

/// The whole generated compilation unit: prelude, snippets, one function
/// (or function pair) per closure, three thunks per class, and the
/// metadata table. A pure function of the collected fragments alone, so
/// re-running a pass on unchanged input reproduces the output byte for
/// byte.
pub open spec fn unit_text(ss: Seq<Seq<char>>, cs: Seq<ClosureV>, ks: Seq<ClassV>) -> Seq<char> {
    prelude_text() + snippets_text(ss) + "\n\n"@ + closures_text(cs) + classes_text(ks)
        + table_text(all_entries(cs, ks))
}

/// Generation is deterministic: equal collected input yields byte-identical
/// generated output.
pub proof fn lemma_generation_deterministic(
    ss1: Seq<Seq<char>>,
    cs1: Seq<ClosureV>,
    ks1: Seq<ClassV>,
    ss2: Seq<Seq<char>>,
    cs2: Seq<ClosureV>,
    ks2: Seq<ClassV>,
)
    requires
        ss1 == ss2,
        cs1 == cs2,
        ks1 == ks2,
    ensures
        unit_text(ss1, cs1, ks1) == unit_text(ss2, cs2, ks2),
{
}

/// Assembles the whole generated compilation unit for one pass.
#[verifier::rlimit(60)]
pub fn generate_unit(snippets: &Vec<String>, closures: &Vec<Closure>, classes: &Vec<Class>) -> (r:
    String)
    ensures
        r@ == unit_text(
            string_views(snippets@),
            closure_views(closures@),
            class_views(classes@),
        ),
{
    let ghost svs = string_views(snippets@);
    let ghost cvs = closure_views(closures@);
    let ghost kvs = class_views(classes@);
    let mut out = String::new();
    out.append(prelude_str());
    let mut i: usize = 0;
    while i < snippets.len()
        invariant
            i <= snippets.len(),
            svs == string_views(snippets@),
            out@ == prelude_text() + snippets_text(svs.take(i as int)),
        decreases snippets.len() - i,
    {
        out.append("\n");
        out.append(snippets[i].as_str());
        i = i + 1;
        proof {
            assert(svs.take(i as int).drop_last() =~= svs.take(i - 1));
            assert(svs.take(i as int).last() == svs[i - 1]);
            assert(out@ =~= prelude_text() + snippets_text(svs.take(i as int)));
        }
    }
    proof {
        assert(svs.take(snippets@.len() as int) =~= svs);
    }
    out.append("\n\n");
    let ghost head1 = prelude_text() + snippets_text(svs) + "\n\n"@;
    proof {
        assert(out@ =~= head1);
    }
    let mut i: usize = 0;
    while i < closures.len()
        invariant
            i <= closures.len(),
            cvs == closure_views(closures@),
            head1 == prelude_text() + snippets_text(svs) + "\n\n"@,
            out@ == head1 + closures_text(cvs.take(i as int)),
        decreases closures.len() - i,
    {
        push_closure_text(&mut out, &closures[i]);
        i = i + 1;
        proof {
            assert(cvs.take(i as int).drop_last() =~= cvs.take(i - 1));
            assert(cvs.take(i as int).last() == cvs[i - 1]);
            assert(out@ =~= head1 + closures_text(cvs.take(i as int)));
        }
    }
    proof {
        assert(cvs.take(closures@.len() as int) =~= cvs);
    }
    let ghost head2 = head1 + closures_text(cvs);
    let mut i: usize = 0;
    while i < classes.len()
        invariant
            i <= classes.len(),
            kvs == class_views(classes@),
            out@ == head2 + classes_text(kvs.take(i as int)),
        decreases classes.len() - i,
    {
        push_class_text(&mut out, &classes[i]);
        i = i + 1;
        proof {
            assert(kvs.take(i as int).drop_last() =~= kvs.take(i - 1));
            assert(kvs.take(i as int).last() == kvs[i - 1]);
            assert(out@ =~= head2 + classes_text(kvs.take(i as int)));
        }
    }
    proof {
        assert(kvs.take(classes@.len() as int) =~= kvs);
    }
    let entries = metadata_entries(closures, classes);
    push_table_text(&mut out, &entries);
    proof {
        assert(out@ =~= unit_text(svs, cvs, kvs));
    }
    out
}

} // verus!
