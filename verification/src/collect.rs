//! The invocation collector: receives macro-invocation fragments in
//! document order, classifies each by its macro name, parses it with the
//! fragment grammar, and stores the result. Document order is preserved so
//! that generation is reproducible. A malformed fragment fails only the
//! generation step: the host compiler re-validates the same syntax and
//! reports the authoritative error.

use vstd::prelude::*;
use crate::ast::{Closure, ClosureV, Class, ClassV, Snippet, SnippetV};
use crate::parse::{sp_skip_ws, sp_parse_closure, sp_parse_snippet, sp_parse_class, skip_ws,
    parse_closure, parse_snippet, parse_class};

verus! {

/// Why a fragment was rejected.
#[derive(Clone, Copy, Debug, PartialEq, Eq, Structural)]
pub enum CollectError {
    /// The fragment does not match the grammar of its kind.
    MalformedFragment,
}

/// Everything collected from one pass, in document order.
pub struct Collector {
    pub snippets: Vec<Snippet>,
    pub closures: Vec<Closure>,
    pub classes: Vec<Class>,
}

/// Mathematical view of a `Collector`.
pub struct CollectorV {
    pub snippets: Seq<SnippetV>,
    pub closures: Seq<ClosureV>,
    pub classes: Seq<ClassV>,
}

impl View for Collector {
    type V = CollectorV;

    open spec fn view(&self) -> CollectorV {
        CollectorV {
            snippets: self.snippets@.map_values(|s: Snippet| s@),
            closures: self.closures@.map_values(|c: Closure| c@),
            classes: self.classes@.map_values(|k: Class| k@),
        }
    }
}

/// What one invocation does to the collector: a `cpp` fragment opening with
/// a brace is an inert snippet, any other `cpp` fragment must be a closure;
/// a `cpp_class` fragment is a class registration; an invocation of any
/// other macro is ignored. `None` means the fragment is malformed and the
/// generation step fails.
pub open spec fn sp_collect(cv: CollectorV, name: Seq<char>, src: Seq<char>) -> Option<CollectorV> {
    if name == "cpp"@ {
        let i0 = sp_skip_ws(src, 0);
        if i0 < src.len() && src[i0 as int] == '{' {
            match sp_parse_snippet(src) {
                Some(p) => Some(
                    CollectorV {
                        snippets: cv.snippets.push(p),
                        closures: cv.closures,
                        classes: cv.classes,
                    },
                ),
                None => None,
            }
        } else {
            match sp_parse_closure(src) {
                Some(c) => Some(
                    CollectorV {
                        snippets: cv.snippets,
                        closures: cv.closures.push(c),
                        classes: cv.classes,
                    },
                ),
                None => None,
            }
        }
    } else if name == "cpp_class"@ {
        match sp_parse_class(src) {
            Some(k) => Some(
                CollectorV {
                    snippets: cv.snippets,
                    closures: cv.closures,
                    classes: cv.classes.push(k),
                },
            ),
            None => None,
        }
    } else {
        Some(cv)
    }
}

impl Collector {
    /// An empty collector, ready for one pass.
    pub fn new() -> (c: Collector)
        ensures
            c@.snippets == Seq::<SnippetV>::empty(),
            c@.closures == Seq::<ClosureV>::empty(),
            c@.classes == Seq::<ClassV>::empty(),
    {
        let c = Collector { snippets: Vec::new(), closures: Vec::new(), classes: Vec::new() };
        proof {
            assert(c@.snippets =~= Seq::<SnippetV>::empty());
            assert(c@.closures =~= Seq::<ClosureV>::empty());
            assert(c@.classes =~= Seq::<ClassV>::empty());
        }
        c
    }

    /// Receives one macro invocation: the macro's name and the fragment
    /// text between its delimiters. Classifies, parses and stores it;
    /// a malformed fragment leaves the collector unchanged and reports
    /// the failure.
    pub fn add_fragment(&mut self, mac_name: &str, src: &str) -> (r: Result<(), CollectError>)
        requires
            src@.len() < usize::MAX,
        ensures
            match r {
                Ok(u) => sp_collect(old(self)@, mac_name@, src@) == Some(final(self)@),
                Err(e) => {
                    &&& sp_collect(old(self)@, mac_name@, src@) is None
                    &&& final(self)@ == old(self)@
                    &&& e == CollectError::MalformedFragment
                },
            },
    {
        let cpp_name = String::from_str("cpp");
        let class_name = String::from_str("cpp_class");
        let own_name = String::from_str(mac_name);
        if own_name == cpp_name {
            let n = src.unicode_len();
            let i0 = skip_ws(src, n, 0);
            if i0 < n && src.get_char(i0) == '{' {
                match parse_snippet(src) {
                    Some(p) => {
                        let ghost pv = p@;
                        self.snippets.push(p);
                        proof {
                            assert(self@.snippets =~= old(self)@.snippets.push(pv));
                            assert(self@ == sp_collect(old(self)@, mac_name@, src@)->Some_0);
                        }
                        Ok(())
                    },
                    None => Err(CollectError::MalformedFragment),
                }
            } else {
                match parse_closure(src) {
                    Some(c) => {
                        let ghost cv = c@;
                        self.closures.push(c);
                        proof {
                            assert(self@.closures =~= old(self)@.closures.push(cv));
                            assert(self@ == sp_collect(old(self)@, mac_name@, src@)->Some_0);
                        }
                        Ok(())
                    },
                    None => Err(CollectError::MalformedFragment),
                }
            }
        } else if own_name == class_name {
            match parse_class(src) {
                Some(k) => {
                    let ghost kv = k@;
                    self.classes.push(k);
                    proof {
                        assert(self@.classes =~= old(self)@.classes.push(kv));
                        assert(self@ == sp_collect(old(self)@, mac_name@, src@)->Some_0);
                    }
                    Ok(())
                },
                None => Err(CollectError::MalformedFragment),
            }
        } else {
            Ok(())
        }
    }
}

} // verus!
