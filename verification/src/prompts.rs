//! The instructions given to the model: one asks whether code can be
//! shortened, one per language asks for tests, one per language asks for a
//! shorter rewrite. `{code}` and `{module}` mark where the code and the module
//! under test go.
use vstd::prelude::*;

verus! {

/// Asks whether the code can be written in fewer lines.
pub const TRIAGE_PROMPT: &'static str = "Look at this code. Can it be rewritten in fewer lines while preserving identical behavior? Consider merging statements, using language idioms, removing redundancy.
Answer ONLY \"YES\" or \"NO\". Nothing else.

{code}";

/// Asks for Python tests of the code.
pub const PYTHON_TESTS_PROMPT: &'static str = "Generate pytest tests for this python code. Import from the module '{module}'.
Test all core behavior paths. Cover edge cases.
Output ONLY the pytest test code. No explanation, no markdown fences.

{code}";

/// Asks for Rust tests of the code.
pub const RUST_TESTS_PROMPT: &'static str = "Generate Rust unit test functions for this code. Use #[test] attribute on each function.
Do NOT wrap in a mod tests block or use super::*. Just write the test functions directly.
Test all core behavior paths. Cover edge cases.
Output ONLY the test functions. No explanation, no markdown fences.

{code}";

/// Asks for a shorter Python rewrite of the code.
pub const PYTHON_COMPRESS_PROMPT: &'static str = "Rewrite this python code using the absolute minimum number of lines while preserving identical behavior. Every line you can eliminate matters.

Techniques to apply:
- List/dict/set comprehensions instead of loops
- Walrus operator (:=) to merge assignment and condition
- Semicolons to combine independent statements on one line
- Lambda instead of trivial named functions
- Ternary expressions instead of if/else blocks
- stdlib one-liners (itertools, functools, collections)
- Unpack and inline wherever possible
- Remove all comments, docstrings, type hints
- Merge multiple return paths

Output ONLY the rewritten code. No explanation, no markdown fences, no original code.

{code}";

/// Asks for a shorter Rust rewrite of the code.
pub const RUST_COMPRESS_PROMPT: &'static str = "Rewrite this rust code using the absolute minimum number of lines while preserving identical behavior. Every line you can eliminate matters.

Techniques to apply:
- Iterator chains instead of for loops
- Closures instead of trivial named functions
- if let / match arms on one line where possible
- Combine statements with semicolons
- Use map, filter, fold, collect instead of manual accumulation
- Remove all comments and doc comments
- Merge multiple return paths with match or if-else expressions
- Use tuple destructuring and pattern matching

Output ONLY the rewritten code. No explanation, no markdown fences, no original code.

{code}";

/// Asks for Java tests of the code.
pub const JAVA_TESTS_PROMPT: &'static str = "Generate JUnit 5 tests for this Java code. The class under test is named '{module}'.
Declare the same package as the code under test; omit the package declaration if the code has none. Use static imports for assertions.
Test all core behavior paths. Cover edge cases.
Output ONLY the JUnit test code. No explanation, no markdown fences.

{code}";

/// Asks for a shorter Java rewrite of the code.
pub const JAVA_COMPRESS_PROMPT: &'static str = "Rewrite this Java code using the absolute minimum number of lines while preserving identical behavior. Every line you can eliminate matters.

Techniques to apply:
- Ternary expressions instead of if/else blocks
- Stream API (map, filter, reduce, collect) instead of loops
- Combine statements on fewer lines
- Lambda expressions instead of anonymous classes
- Method references where possible
- Remove all comments and Javadoc
- Merge multiple return paths
- Inline trivial variables
- var for local variable declarations

Output ONLY the rewritten code. No explanation, no markdown fences, no original code.

{code}";

/// Asks for C++ tests of the code.
pub const CPP_TESTS_PROMPT: &'static str = "Generate C++ test code for this code. Include \"{module}\" at the top.
Use <cassert> for assertions. Write a main() function that runs all tests and returns 0 on success.
Test all core behavior paths. Cover edge cases.
Output ONLY the C++ test code. No explanation, no markdown fences.

{code}";

/// Asks for a shorter C++ rewrite of the code.
pub const CPP_COMPRESS_PROMPT: &'static str = "Rewrite this C++ code using the absolute minimum number of lines while preserving identical behavior. Every line you can eliminate matters.

Techniques to apply:
- Range-based for with auto instead of index loops
- Algorithm/numeric headers (transform, accumulate, for_each) instead of manual loops
- Ternary expressions instead of if/else blocks
- Lambda expressions for short operations
- auto for type deduction
- Structured bindings
- Remove all comments and documentation
- Combine declarations on fewer lines
- Merge multiple return paths
- Use initializer lists and aggregate initialization

Output ONLY the rewritten code. No explanation, no markdown fences, no original code.

{code}";

/// Asks for Go tests of the code.
pub const GO_TESTS_PROMPT: &'static str = "Generate Go test functions for this code. The package is '{module}'.
Use the standard testing package. Each test function takes *testing.T.
Test all core behavior paths. Cover edge cases.
Output ONLY the import declarations you need (including \"testing\") followed by the test functions. No package declaration.

{code}";

/// Asks for a shorter Go rewrite of the code.
pub const GO_COMPRESS_PROMPT: &'static str = "Rewrite this Go code using the absolute minimum number of lines while preserving identical behavior. Every line you can eliminate matters.

Techniques to apply:
- Short variable declarations (:=) instead of var
- Combine assignments on fewer lines
- Use range loops efficiently
- Inline trivial helper functions
- Remove all comments
- Merge multiple return paths with switch or if-else expressions
- Use slice/map literals inline

Output ONLY the rewritten code. No explanation, no markdown fences, no original code.

{code}";

/// Asks for C tests of the code.
pub const C_TESTS_PROMPT: &'static str = "Generate C test code for this code. Include \"{module}\" at the top.
Use <assert.h> for assertions. Write a main() function that runs all tests and returns 0 on success.
Test all core behavior paths. Cover edge cases.
Output ONLY the C test code. No explanation, no markdown fences.

{code}";

/// Asks for a shorter C rewrite of the code.
pub const C_COMPRESS_PROMPT: &'static str = "Rewrite this C code using the absolute minimum number of lines while preserving identical behavior. Every line you can eliminate matters.

Techniques to apply:
- Ternary expressions instead of if/else blocks
- Combine declarations on fewer lines
- Comma operator to combine statements
- Remove all comments
- Merge multiple return paths
- Use compound literals and designated initializers
- Inline trivial helper functions

Output ONLY the rewritten code. No explanation, no markdown fences, no original code.

{code}";

/// Asks for JavaScript tests of the code.
pub const JS_TESTS_PROMPT: &'static str = "Generate Jest tests for this JavaScript code. Import from '{module}'.
Test all core behavior paths. Cover edge cases.
Output ONLY the Jest test code. No explanation, no markdown fences.

{code}";

/// Asks for TypeScript tests of the code.
pub const TS_TESTS_PROMPT: &'static str = "Generate Jest tests for this TypeScript code. Import from '{module}'.
Test all core behavior paths. Cover edge cases.
Output ONLY the Jest test code. No explanation, no markdown fences.

{code}";

/// Asks for a shorter JavaScript rewrite of the code.
pub const JS_COMPRESS_PROMPT: &'static str = "Rewrite this JavaScript code using the absolute minimum number of lines while preserving identical behavior. Every line you can eliminate matters.

Techniques to apply:
- Arrow functions instead of function declarations
- Ternary expressions instead of if/else blocks
- Array methods (map, filter, reduce) instead of loops
- Destructuring and spread operators
- Comma operator to combine statements
- Template literals for string concatenation
- Short-circuit evaluation (&&, ||, ??)
- Remove all comments and JSDoc
- Object shorthand properties
- Optional chaining and nullish coalescing

Output ONLY the rewritten code. No explanation, no markdown fences, no original code.

{code}";

/// Asks for a shorter TypeScript rewrite of the code.
pub const TS_COMPRESS_PROMPT: &'static str = "Rewrite this TypeScript code using the absolute minimum number of lines while preserving identical behavior. Every line you can eliminate matters.

Techniques to apply:
- Arrow functions instead of function declarations
- Ternary expressions instead of if/else blocks
- Array methods (map, filter, reduce) instead of loops
- Destructuring and spread operators
- Comma operator to combine statements
- Template literals for string concatenation
- Short-circuit evaluation (&&, ||, ??)
- Remove all comments, JSDoc, and unnecessary type annotations
- Object shorthand properties
- Optional chaining and nullish coalescing
- Inferred types where possible (remove explicit annotations the compiler can infer)

Output ONLY the rewritten code. No explanation, no markdown fences, no original code.

{code}";

} // verus!
