//! The registry of the standard library's source modules.

use vstd::prelude::*;
use crate::text::{owned, push_str, str_eq};

verus! {

/// The names of the standard modules, in registration order.
pub open spec fn standard_module_names() -> Seq<Seq<char>> {
    seq![
        "std.io"@,
        "std.math"@,
        "std.ai"@,
        "std.db"@,
        "std.net"@,
        "std.gfx"@,
        "std.web"@,
        "std.design"@,
        "std.error"@,
        "std.sentinel"@,
    ]
}

/// The names of the standard modules in byte order.
pub open spec fn sorted_module_names() -> Seq<Seq<char>> {
    seq![
        "std.ai"@,
        "std.db"@,
        "std.design"@,
        "std.error"@,
        "std.gfx"@,
        "std.io"@,
        "std.math"@,
        "std.net"@,
        "std.sentinel"@,
        "std.web"@,
    ]
}

/// The source text of every standard module, by name.
pub struct ModuleRegistry {
    modules: Vec<(&'static str, &'static str)>,
}

/// A module name that is not registered.
#[derive(Debug, Clone)]
pub struct UnknownModule {
    pub name: String,
}

impl UnknownModule {
    /// The message of the error: `unknown stdlib module '<name>'`.
    pub fn message(&self) -> (m: String)
        ensures
            m@ == "unknown stdlib module '"@ + self.name@ + "'"@,
    {
        let mut m = owned("unknown stdlib module '");
        push_str(&mut m, self.name.as_str());
        push_str(&mut m, "'");
        m
    }
}

impl ModuleRegistry {
    /// The registered modules as (name, source) pairs, in registration order.
    pub closed spec fn entries(&self) -> Seq<(Seq<char>, Seq<char>)> {
        Seq::new(self.modules@.len(), |i: int| (self.modules@[i].0@, self.modules@[i].1@))
    }

    /// The registry of the ten standard modules; `sources` holds their texts
    /// in the order io, math, ai, db, net, gfx, web, design, error, sentinel.
    pub fn new(sources: [&'static str; 10]) -> (r: Self)
        ensures
            r.entries().len() == 10,
            forall|i: int| 0 <= i < 10 ==> #[trigger] r.entries()[i] == (standard_module_names()[i], sources@[i]@),
    {
        let names: [&'static str; 10] = [
            "std.io",
            "std.math",
            "std.ai",
            "std.db",
            "std.net",
            "std.gfx",
            "std.web",
            "std.design",
            "std.error",
            "std.sentinel",
        ];
        let mut modules: Vec<(&'static str, &'static str)> = Vec::new();
        let mut i: usize = 0;
        while i < 10
            invariant
                i <= 10,
                modules@.len() == i,
                forall|j: int| 0 <= j < i ==> #[trigger] modules@[j] == (names@[j], sources@[j]),
            decreases 10 - i,
        {
            modules.push((names[i], sources[i]));
            i = i + 1;
        }
        let r = ModuleRegistry { modules };
        proof {
            reveal_strlit("std.io");
            reveal_strlit("std.math");
            reveal_strlit("std.ai");
            reveal_strlit("std.db");
            reveal_strlit("std.net");
            reveal_strlit("std.gfx");
            reveal_strlit("std.web");
            reveal_strlit("std.design");
            reveal_strlit("std.error");
            reveal_strlit("std.sentinel");
            assert forall|i: int| 0 <= i < 10 implies #[trigger] r.entries()[i] == (standard_module_names()[i], sources@[i]@) by {
                assert(r.modules@[i] == (names@[i], sources@[i]));
            }
        }
        r
    }

    /// The module names in byte order.
    pub fn names(&self) -> (names: Vec<&'static str>)
        ensures
            names@.len() == 10,
            forall|i: int| 0 <= i < 10 ==> (#[trigger] names@[i])@ == sorted_module_names()[i],
    {
        let mut names: Vec<&'static str> = Vec::new();
        names.push("std.ai");
        names.push("std.db");
        names.push("std.design");
        names.push("std.error");
        names.push("std.gfx");
        names.push("std.io");
        names.push("std.math");
        names.push("std.net");
        names.push("std.sentinel");
        names.push("std.web");
        names
    }

    /// The source text of a registered module.
    pub fn source(&self, name: &str) -> (r: Result<&'static str, UnknownModule>)
        ensures
            match r {
                Ok(s) => exists|i: int| 0 <= i < self.entries().len() && self.entries()[i] == (name@, s@),
                Err(e) => e.name@ == name@ && forall|i: int| 0 <= i < self.entries().len() ==> (#[trigger] self.entries()[i]).0 != name@,
            },
    {
        let mut i: usize = 0;
        while i < self.modules.len()
            invariant
                i <= self.modules@.len(),
                forall|j: int| 0 <= j < i ==> (#[trigger] self.entries()[j]).0 != name@,
            decreases self.modules@.len() - i,
        {
            let (n, s) = self.modules[i];
            if str_eq(n, name) {
                assert(self.entries()[i as int] == (name@, s@));
                return Ok(s);
            }
            i = i + 1;
        }
        Err(UnknownModule { name: name.to_string() })
    }
}

} // verus!
