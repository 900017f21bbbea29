//! The languages that the tool knows, named as the configuration and the
//! command line name them.
use vstd::prelude::*;
use crate::text::same_text;

verus! {

/// A language, as one of its names selects it.
#[derive(Clone, Copy, Debug, PartialEq, Eq, Structural)]
pub enum Lang {
    Python,
    Rust,
    JavaScript,
    TypeScript,
    Go,
    Java,
    Cpp,
    C,
    /// Any other name.
    Other,
}

/// The language that `name` selects.
pub open spec fn lang_named(name: Seq<char>) -> Lang {
    if name == "python"@ {
        Lang::Python
    } else if name == "rust"@ {
        Lang::Rust
    } else if name == "javascript"@ {
        Lang::JavaScript
    } else if name == "typescript"@ {
        Lang::TypeScript
    } else if name == "go"@ {
        Lang::Go
    } else if name == "java"@ {
        Lang::Java
    } else if name == "cpp"@ {
        Lang::Cpp
    } else if name == "c"@ {
        Lang::C
    } else {
        Lang::Other
    }
}

impl Lang {
    /// The language that `name` selects.
    pub fn from_name(name: &str) -> (l: Lang)
        ensures
            l == lang_named(name@),
    {
        if same_text(name, "python") {
            Lang::Python
        } else if same_text(name, "rust") {
            Lang::Rust
        } else if same_text(name, "javascript") {
            Lang::JavaScript
        } else if same_text(name, "typescript") {
            Lang::TypeScript
        } else if same_text(name, "go") {
            Lang::Go
        } else if same_text(name, "java") {
            Lang::Java
        } else if same_text(name, "cpp") {
            Lang::Cpp
        } else if same_text(name, "c") {
            Lang::C
        } else {
            Lang::Other
        }
    }
}

} // verus!
