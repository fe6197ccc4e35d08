//! Build-time generator for embedding fragments of a C-family systems
//! language in a host program.
//!
//! The library turns a collection of embedded-language fragments (closures,
//! inert snippets and class registrations) into one C++ compilation unit
//! together with a versioned, magic-tagged metadata table, so that the two
//! compiled halves can check each other for skew at link time.

pub mod ast;
pub mod collect;
pub mod emit;
pub mod gen;
pub mod hash;
pub mod metadata;
pub mod parse;
pub mod span;
pub mod text;

use vstd::prelude::*;
use crate::ast::{Closure, ClosureV, Class, ClassV, closure_decl, class_decl, closure_views,
    class_views, string_views, closure_decl_string, class_decl_string};
use crate::emit::{unit_text, generate_unit};
use crate::hash::{content_hash, hash_str};

verus! {

/// A fatal generation error.
#[derive(Clone, Copy, Debug, PartialEq, Eq, Structural)]
pub enum BuildError {
    /// Two distinct declaration texts hash to the same value; identity
    /// of generated symbols and metadata entries would be ambiguous.
    HashCollision,
}

/// The declaration texts whose hashes key everything a pass generates:
/// one per closure, then one per class, in document order.
pub open spec fn decl_texts(cs: Seq<ClosureV>, ks: Seq<ClassV>) -> Seq<Seq<char>> {
    cs.map_values(|c: ClosureV| closure_decl(c)) + ks.map_values(|k: ClassV| class_decl(k))
}

/// Two declaration texts collide when they differ but hash equal.
pub open spec fn collides(x: Seq<char>, y: Seq<char>) -> bool {
    x != y && content_hash(x) == content_hash(y)
}

/// A set of declaration texts contains a collision.
pub open spec fn spec_has_collision(ds: Seq<Seq<char>>) -> bool {
    exists|a: int, b: int|
        0 <= a < ds.len() && 0 <= b < ds.len() && collides(#[trigger] ds[a], #[trigger] ds[b])
}

/// Collects the declaration texts of one pass, in document order.
fn collect_decls(closures: &Vec<Closure>, classes: &Vec<Class>) -> (v: Vec<String>)
    ensures
        string_views(v@) == decl_texts(closure_views(closures@), class_views(classes@)),
{
    let ghost cvs = closure_views(closures@);
    let ghost kvs = class_views(classes@);
    let mut v: Vec<String> = Vec::new();
    let mut i: usize = 0;
    while i < closures.len()
        invariant
            i <= closures.len(),
            cvs == closure_views(closures@),
            string_views(v@) == cvs.take(i as int).map_values(|c: ClosureV| closure_decl(c)),
        decreases closures.len() - i,
    {
        v.push(closure_decl_string(&closures[i]));
        i = i + 1;
        proof {
            assert(cvs[i - 1] == closures@[i - 1]@);
            assert(cvs.take(i as int) =~= cvs.take(i - 1).push(cvs[i - 1]));
            assert(cvs.take(i as int).map_values(|c: ClosureV| closure_decl(c)) =~= cvs.take(
                i - 1,
            ).map_values(|c: ClosureV| closure_decl(c)).push(closure_decl(cvs[i - 1])));
            assert(string_views(v@) =~= cvs.take(i as int).map_values(
                |c: ClosureV| closure_decl(c),
            ));
        }
    }
    proof {
        assert(cvs.take(closures@.len() as int) =~= cvs);
    }
    let mut k: usize = 0;
    while k < classes.len()
        invariant
            k <= classes.len(),
            cvs == closure_views(closures@),
            kvs == class_views(classes@),
            string_views(v@) == cvs.map_values(|c: ClosureV| closure_decl(c)) + kvs.take(
                k as int,
            ).map_values(|c: ClassV| class_decl(c)),
        decreases classes.len() - k,
    {
        let ghost vprev = v@;
        v.push(class_decl_string(&classes[k]));
        k = k + 1;
        proof {
            assert(kvs[k - 1] == classes@[k - 1]@);
            assert(string_views(v@) =~= string_views(vprev).push(class_decl(kvs[k - 1])));
            assert(kvs.take(k as int) =~= kvs.take(k - 1).push(kvs[k - 1]));
            assert(kvs.take(k as int).map_values(|c: ClassV| class_decl(c)) =~= kvs.take(
                k - 1,
            ).map_values(|c: ClassV| class_decl(c)).push(class_decl(kvs[k - 1])));
            assert(string_views(v@) =~= cvs.map_values(|c: ClosureV| closure_decl(c)) + kvs.take(
                k as int,
            ).map_values(|c: ClassV| class_decl(c)));
        }
    }
    proof {
        assert(kvs.take(classes@.len() as int) =~= kvs);
    }
    v
}

/// Decides whether the declaration texts contain a hash collision: two
/// differing texts with equal content hash.
fn find_collision(decls: &Vec<String>) -> (r: bool)
    ensures
        r == spec_has_collision(string_views(decls@)),
{
    let ghost ds = string_views(decls@);
    let n = decls.len();
    let mut hashes: Vec<u64> = Vec::new();
    let mut i: usize = 0;
    while i < n
        invariant
            i <= n,
            n == decls@.len(),
            ds == string_views(decls@),
            hashes@.len() == i,
            forall|t: int| 0 <= t < i ==> hashes@[t] == content_hash(#[trigger] ds[t]),
        decreases n - i,
    {
        hashes.push(hash_str(decls[i].as_str()));
        i = i + 1;
    }
    let mut i: usize = 0;
    while i < n
        invariant
            i <= n,
            n == decls@.len(),
            ds == string_views(decls@),
            hashes@.len() == n,
            forall|t: int| 0 <= t < n ==> hashes@[t] == content_hash(#[trigger] ds[t]),
            forall|a: int, b: int| 0 <= a < b < i ==> !collides(#[trigger] ds[a], #[trigger] ds[b]),
        decreases n - i,
    {
        let mut j: usize = 0;
        while j < i
            invariant
                j <= i < n,
                n == decls@.len(),
                ds == string_views(decls@),
                hashes@.len() == n,
                forall|t: int| 0 <= t < n ==> hashes@[t] == content_hash(#[trigger] ds[t]),
                forall|b: int| 0 <= b < j ==> !collides(#[trigger] ds[b], ds[i as int]),
            decreases i - j,
        {
            if hashes[j] == hashes[i] && !(decls[j] == decls[i]) {
                proof {
                    assert(collides(ds[j as int], ds[i as int]));
                }
                return true;
            }
            j = j + 1;
        }
        i = i + 1;
        proof {
            assert forall|a: int, b: int| 0 <= a < b < i implies !collides(
                #[trigger] ds[a],
                #[trigger] ds[b],
            ) by {
                if b == i - 1 {
                    assert(!collides(ds[a], ds[i - 1]));
                }
            }
        }
    }
    proof {
        if spec_has_collision(ds) {
            let (a, b) = choose|a: int, b: int|
                0 <= a < ds.len() && 0 <= b < ds.len() && collides(
                    #[trigger] ds[a],
                    #[trigger] ds[b],
                );
            if a < b {
                assert(!collides(ds[a], ds[b]));
            } else if b < a {
                assert(!collides(ds[b], ds[a]));
            }
        }
    }
    false
}

/// Runs the generation step of one pass over the collected fragments:
/// checks the declaration hashes for collisions, then assembles the whole
/// generated compilation unit. Succeeds exactly when no two distinct
/// declaration texts hash equal; the output is a pure function of the
/// collected fragments, in document order.
pub fn build(snippets: &Vec<String>, closures: &Vec<Closure>, classes: &Vec<Class>) -> (r: Result<
    String,
    BuildError,
>)
    ensures
        r is Ok <==> !spec_has_collision(
            decl_texts(closure_views(closures@), class_views(classes@)),
        ),
        match r {
            Ok(unit) => unit@ == unit_text(
                string_views(snippets@),
                closure_views(closures@),
                class_views(classes@),
            ),
            Err(e) => e == BuildError::HashCollision,
        },
{
    let decls = collect_decls(closures, classes);
    if find_collision(&decls) {
        Err(BuildError::HashCollision)
    } else {
        Ok(generate_unit(snippets, closures, classes))
    }
}

} // verus!
