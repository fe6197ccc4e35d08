use cpp_build::ast::{Capture, Class, Closure};
use cpp_build::collect::{CollectError, Collector};
use cpp_build::emit::{generate_unit, metadata_entries};
use cpp_build::gen::{push_closure_text, push_class_text};
use cpp_build::hash::hash_str;
use cpp_build::metadata::{decode_table, magic_bytes, version_bytes, DecodeError, MetaEntry};
use cpp_build::parse::{parse_class, parse_closure, parse_snippet};
use cpp_build::span::map_span;
use cpp_build::ast::{class_hash_of, closure_hash_of};
use cpp_build::build;

fn cap(mutable: bool, name: &str, cpp: &str) -> Capture {
    Capture { mutable, name: name.to_owned(), cpp: cpp.to_owned() }
}

fn closure(captures: Vec<Capture>, ret_rust: &str, cpp: &str, body: &str) -> Closure {
    Closure {
        captures,
        ret_rust: ret_rust.to_owned(),
        cpp: cpp.to_owned(),
        body: body.to_owned(),
        body_lo: 0,
        body_hi: 0,
    }
}

#[test]
fn span_mapper_exact_output() {
    let r = map_span("foo(x);", 12, "src/lib.rs", 4);
    assert_eq!(r, "#line 12 \"src/lib.rs\"\n    foo(x);");
}

#[test]
fn span_mapper_strip_recovers_original() {
    let original = "int y = x + 1;\nreturn y;";
    let r = map_span(original, 3, "demo.rs", 9);
    let prefix = "#line 3 \"demo.rs\"\n         ";
    assert!(r.starts_with(prefix));
    assert_eq!(&r[prefix.len()..], original);
}

#[test]
fn span_mapper_escapes_path() {
    let r = map_span("x", 1, "a\\b\"c", 0);
    assert_eq!(r, "#line 1 \"a\\\\b\\\"c\"\nx");
}

#[test]
fn hash_known_value() {
    // Fowler-Noll-Vo 1a, 64-bit, of the single character `a`.
    assert_eq!(hash_str("a"), 0xaf63dc4c8601ec8c);
    assert_eq!(hash_str(""), 0xcbf29ce484222325);
}

#[test]
fn hash_equal_text_equal_hash() {
    let a = hash_str("[x as \"int\"] -> i32 as \"int32_t\"");
    let b = hash_str("[x as \"int\"] -> i32 as \"int32_t\"");
    assert_eq!(a, b);
}

#[test]
fn hash_differs_on_corpus() {
    // Collision absence over a corpus of distinct declaration texts.
    let mut seen = Vec::new();
    for i in 0..500 {
        let h = hash_str(&format!("struct T{} as \"T{}\"", i, i));
        assert!(!seen.contains(&h));
        seen.push(h);
    }
}

#[test]
fn class_hash_matches_decl_text() {
    let k = Class { name: "Foo".to_owned(), cpp: "ns::Foo".to_owned() };
    assert_eq!(class_hash_of(&k), 8011939698213350587u64);
    assert_eq!(class_hash_of(&k), hash_str("struct Foo as \"ns::Foo\""));
}

#[test]
fn entry_count_is_sum_of_contributions() {
    let c1 = closure(vec![cap(true, "a", "int"), cap(false, "b", "float")], "i32", "int", "x");
    let c2 = closure(vec![], "", "void", "return;");
    let k = Class { name: "A".to_owned(), cpp: "A".to_owned() };
    let entries = metadata_entries(&vec![c1, c2], &vec![k]);
    // (1 + 2) + (1 + 0) + 1
    assert_eq!(entries.len(), 5);
}

#[test]
fn value_closure_round_trip() {
    let c = closure(
        vec![cap(true, "a", "int"), cap(false, "b", "float")],
        "i32",
        "int",
        "return a + (int)b;",
    );
    let h = closure_hash_of(&c);
    let mut out = String::new();
    push_closure_text(&mut out, &c);
    let expected = format!(
        "\nstatic inline int __cpp_closure_{h}_impl(int & a, float const& b) {{\nreturn a + (int)b;\n}}\nextern \"C\" {{\nvoid __cpp_closure_{h}(int & a, float const& b, void* __result) {{\n    ::new(__result) (int)(__cpp_closure_{h}_impl(a, b));\n}}\n}}\n",
        h = h
    );
    assert_eq!(out, expected);
}

#[test]
fn void_closure_no_captures_exact_body() {
    let c = closure(vec![], "", "void", "return;");
    let h = closure_hash_of(&c);
    let mut out = String::new();
    push_closure_text(&mut out, &c);
    let expected = format!(
        "\nextern \"C\" {{\nvoid __cpp_closure_{h}() {{\nreturn;\n}}\n}}\n",
        h = h
    );
    assert_eq!(out, expected);
}

#[test]
fn class_thunks_are_guarded() {
    let k = Class { name: "NoDefault".to_owned(), cpp: "NoDefault".to_owned() };
    let h = class_hash_of(&k);
    let mut out = String::new();
    push_class_text(&mut out, &k);
    // The default-construction thunk always exists, but its body goes
    // through the capability-guarded helper, which aborts at run time when
    // the type has no default constructor.
    assert!(out.contains(&format!(
        "void __cpp_default_{}(void *dest) {{\n    rustcpp::default_helper<NoDefault>(dest);\n}}",
        h
    )));
    assert!(out.contains(&format!(
        "void __cpp_copy_{}(const void *src, void *dest) {{\n    rustcpp::copy_helper<NoDefault>(src, dest);\n}}",
        h
    )));
    assert!(out.contains(&format!(
        "void __cpp_destructor_{}(void *ptr) {{\n    typedef NoDefault T;\n    static_cast<T*>(ptr)->~T();\n}}",
        h
    )));
}

#[test]
fn generation_is_deterministic() {
    let snippets = vec!["#define X 1".to_owned()];
    let closures = vec![closure(vec![cap(false, "n", "int")], "i32", "int", "return n;")];
    let classes = vec![Class { name: "A".to_owned(), cpp: "A".to_owned() }];
    let one = generate_unit(&snippets, &closures, &classes);
    let two = generate_unit(&snippets, &closures, &classes);
    assert_eq!(one, two);
    let b1 = build(&snippets, &closures, &classes).unwrap();
    let b2 = build(&snippets, &closures, &classes).unwrap();
    assert_eq!(b1, b2);
    assert_eq!(b1, one);
}

#[test]
fn unit_holds_snippets_and_table() {
    let snippets = vec!["int x;".to_owned()];
    let unit = generate_unit(&snippets, &vec![], &vec![]);
    assert!(unit.contains("\nint x;\n\n"));
    assert!(unit.contains("uint8_t magic[128];"));
    assert!(unit.contains("\"0.1.0\","));
    assert!(unit.contains("SizeAlign data[0];"));
    assert!(unit.contains("__attribute__((weak))"));
}

#[test]
fn unit_entry_text_shapes() {
    let closures = vec![closure(vec![], "", "void", "return;")];
    let classes = vec![Class { name: "A".to_owned(), cpp: "ns::A".to_owned() }];
    let entries = metadata_entries(&closures, &classes);
    assert_eq!(entries.len(), 2);
    let h0 = closure_hash_of(&closures[0]);
    let h1 = class_hash_of(&classes[0]);
    assert_eq!(entries[0], format!("{{{}ull, 0, 1, 0}}", h0));
    assert_eq!(
        entries[1],
        format!(
            "{{{h}ull, sizeof(ns::A), rustcpp::AlignOf<ns::A>::value, rustcpp::Flags<ns::A>::value}}",
            h = h1
        )
    );
}

#[test]
fn parse_value_closure() {
    let c = parse_closure("[mut a as \"int\", b as \"float\"] -> i32 as \"int32_t\" { return a; }")
        .unwrap();
    assert_eq!(c.captures.len(), 2);
    assert!(c.captures[0].mutable);
    assert_eq!(c.captures[0].name, "a");
    assert_eq!(c.captures[0].cpp, "int");
    assert!(!c.captures[1].mutable);
    assert_eq!(c.captures[1].name, "b");
    assert_eq!(c.captures[1].cpp, "float");
    assert_eq!(c.ret_rust, "i32");
    assert_eq!(c.cpp, "int32_t");
    assert_eq!(c.body, " return a; ");
}

#[test]
fn parse_void_closure() {
    let c = parse_closure("[] { f(); }").unwrap();
    assert_eq!(c.captures.len(), 0);
    assert_eq!(c.cpp, "void");
    assert_eq!(c.ret_rust, "");
    assert_eq!(c.body, " f(); ");
}

#[test]
fn parse_closure_generic_return_type() {
    let c = parse_closure("[v as \"int\"] -> Vec<(u8, u8)> as \"std::vector<T>\" { g(); }")
        .unwrap();
    assert_eq!(c.ret_rust, "Vec<(u8, u8)>");
    assert_eq!(c.cpp, "std::vector<T>");
}

#[test]
fn parse_closure_body_offsets() {
    let src = "[] {x}";
    let c = parse_closure(src).unwrap();
    assert_eq!(c.body_lo, 4);
    assert_eq!(c.body_hi, 5);
    assert_eq!(&src[c.body_lo..c.body_hi], "x");
}

#[test]
fn parse_closure_rejects_duplicate_names() {
    assert!(parse_closure("[a as \"int\", a as \"float\"] { f(); }").is_none());
}

#[test]
fn parse_closure_rejects_empty_type() {
    assert!(parse_closure("[a as \"\"] { f(); }").is_none());
    assert!(parse_closure("[a as \"int\"] -> i32 as \"\" { f(); }").is_none());
}

#[test]
fn parse_closure_rejects_malformed() {
    assert!(parse_closure("[a as \"int\"").is_none());
    assert!(parse_closure("[a as \"int\"] -> i32 { f(); }").is_none());
    assert!(parse_closure("[a as \"int\"] { f(); } junk").is_none());
}

#[test]
fn parse_body_skips_braces_in_strings() {
    let c = parse_closure("[] { puts(\"}{\\\"\"); }").unwrap();
    assert_eq!(c.body, " puts(\"}{\\\"\"); ");
}

#[test]
fn parse_snippet_fragment() {
    let p = parse_snippet("  { #define A 1 }  ").unwrap();
    assert_eq!(p.text, " #define A 1 ");
    assert!(parse_snippet("{ unbalanced ").is_none());
}

#[test]
fn parse_class_fragment() {
    let k = parse_class("pub unsafe struct MyClass as \"ns::MyClass\"").unwrap();
    assert_eq!(k.name, "MyClass");
    assert_eq!(k.cpp, "ns::MyClass");
    let k2 = parse_class("struct A as \"A\"").unwrap();
    assert_eq!(k2.name, "A");
    assert!(parse_class("struct A").is_none());
    assert!(parse_class("struct A as \"\"").is_none());
}

#[test]
fn collector_classifies_and_orders() {
    let mut col = Collector::new();
    col.add_fragment("cpp", "{ #define A 1 }").unwrap();
    col.add_fragment("cpp", "[x as \"int\"] { use_x(x); }").unwrap();
    col.add_fragment("cpp_class", "struct K as \"K\"").unwrap();
    col.add_fragment("other_macro", "whatever ] [").unwrap();
    assert_eq!(col.snippets.len(), 1);
    assert_eq!(col.closures.len(), 1);
    assert_eq!(col.classes.len(), 1);
    assert_eq!(col.snippets[0].text, " #define A 1 ");
    assert_eq!(col.closures[0].captures[0].name, "x");
    assert_eq!(col.classes[0].cpp, "K");
}

#[test]
fn collector_reports_malformed_and_keeps_state() {
    let mut col = Collector::new();
    col.add_fragment("cpp", "[] { ok(); }").unwrap();
    let e = col.add_fragment("cpp", "[oops").unwrap_err();
    assert_eq!(e, CollectError::MalformedFragment);
    assert_eq!(col.closures.len(), 1);
    let e2 = col.add_fragment("cpp_class", "class K").unwrap_err();
    assert_eq!(e2, CollectError::MalformedFragment);
    assert_eq!(col.classes.len(), 0);
}

#[test]
fn build_succeeds_without_collisions() {
    let snippets = vec!["// nothing".to_owned()];
    let closures = vec![
        closure(vec![cap(false, "a", "int")], "i32", "int", "return a;"),
        closure(vec![], "", "void", "return;"),
    ];
    let classes = vec![Class { name: "A".to_owned(), cpp: "A".to_owned() }];
    let unit = build(&snippets, &closures, &classes).unwrap();
    assert!(unit.contains("// nothing"));
    assert!(unit.contains("copy_helper<A>"));
}

#[test]
fn identical_declarations_reuse_one_hash() {
    // Deliberate collision of byte-identical declarations: same symbol.
    let c1 = closure(vec![cap(false, "a", "int")], "i32", "int", "return a;");
    let c2 = closure(vec![cap(false, "a", "int")], "i32", "int", "return a + 1;");
    assert_eq!(closure_hash_of(&c1), closure_hash_of(&c2));
    let unit = build(&vec![], &vec![c1, c2], &vec![]).unwrap();
    assert!(unit.len() > 0);
}

fn le64(v: u64) -> Vec<u8> {
    let mut out = Vec::new();
    for k in 0..8 {
        out.push(((v >> (8 * k)) & 0xff) as u8);
    }
    out
}

fn sample_table() -> Vec<u8> {
    let mut b = magic_bytes();
    b.extend(version_bytes());
    b.extend(le64(1));
    b.extend(le64(42)); // hash
    b.extend(le64(8)); // size
    b.extend(le64(4)); // align
    b.extend(le64(3)); // flags
    b
}

#[test]
fn decode_round_trip() {
    let entries = decode_table(&sample_table()).unwrap();
    assert_eq!(entries.len(), 1);
    assert_eq!(entries[0], MetaEntry { hash: 42, size: 8, align: 4, flags: 3 });
}

#[test]
fn decode_rejects_version_mismatch_before_entries() {
    let mut b = sample_table();
    b[130] ^= 0xff; // a byte of the version field
    assert_eq!(decode_table(&b).unwrap_err(), DecodeError::BadVersion);
}

#[test]
fn decode_rejects_bad_magic() {
    let mut b = sample_table();
    b[0] ^= 1;
    assert_eq!(decode_table(&b).unwrap_err(), DecodeError::BadMagic);
}

#[test]
fn decode_rejects_truncated_and_wrong_length() {
    let b = sample_table();
    assert_eq!(decode_table(&b[..100].to_vec()).unwrap_err(), DecodeError::Truncated);
    let mut short = b.clone();
    short.pop();
    assert_eq!(decode_table(&short).unwrap_err(), DecodeError::WrongLength);
    let mut wrong = b.clone();
    let count_two = le64(2);
    wrong[144..152].copy_from_slice(&count_two);
    assert_eq!(decode_table(&wrong).unwrap_err(), DecodeError::WrongLength);
}
