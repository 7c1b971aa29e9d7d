//! Extension-to-language display name lookup, used to group counted files
//! into the language breakdown.

use vstd::prelude::*;
use crate::text::str_eq;

verus! {

/// Name for the Unicode lowercase mapping that `str::to_lowercase`
/// computes.
pub uninterp spec fn lowercase(s: Seq<char>) -> Seq<char>;

/// Whether every character of `s` is ASCII.
pub open spec fn all_ascii(s: Seq<char>) -> bool {
    forall|i: int| 0 <= i < s.len() ==> (#[trigger] s[i] as u32) < 128
}

/// `s` with the ASCII capital letters replaced by small ones.
pub open spec fn ascii_lower(s: Seq<char>) -> Seq<char> {
    s.map_values(
        |c: char|
            if 65 <= (c as u32) <= 90 {
                ((c as u32) + 32) as char
            } else {
                c
            },
    )
}

/// `str::to_lowercase`: the Unicode lowercase form of `s`. On ASCII text it
/// turns `A`..`Z` into `a`..`z` and keeps every other character; beyond
/// ASCII the mapping is Unicode's and is only named here.
#[verifier::external_body]
fn to_lowercase(s: &str) -> (r: String)
    ensures
        r@ == lowercase(s@),
        all_ascii(s@) ==> r@ == ascii_lower(s@),
{
    s.to_lowercase()
}

/// The display name of the language whose (lowercase) extension is `e`, if
/// it is one of the known ones.
pub open spec fn known_language(e: Seq<char>) -> Option<Seq<char>> {
    if e == "html"@ || e == "htm"@ {
        Some("HTML"@)
    } else if e == "css"@ {
        Some("CSS"@)
    } else if e == "scss"@ || e == "sass"@ {
        Some("SCSS/Sass"@)
    } else if e == "less"@ {
        Some("Less"@)
    } else if e == "js"@ || e == "mjs"@ || e == "cjs"@ {
        Some("JavaScript"@)
    } else if e == "ts"@ {
        Some("TypeScript"@)
    } else if e == "jsx"@ {
        Some("React JSX"@)
    } else if e == "tsx"@ {
        Some("React TSX"@)
    } else if e == "vue"@ {
        Some("Vue"@)
    } else if e == "svelte"@ {
        Some("Svelte"@)
    } else if e == "rs"@ {
        Some("Rust"@)
    } else if e == "c"@ {
        Some("C"@)
    } else if e == "h"@ {
        Some("C Header"@)
    } else if e == "cpp"@ || e == "cc"@ || e == "cxx"@ {
        Some("C++"@)
    } else if e == "hpp"@ || e == "hxx"@ || e == "hh"@ {
        Some("C++ Header"@)
    } else if e == "go"@ {
        Some("Go"@)
    } else if e == "zig"@ {
        Some("Zig"@)
    } else if e == "py"@ || e == "pyw"@ {
        Some("Python"@)
    } else if e == "rb"@ {
        Some("Ruby"@)
    } else if e == "php"@ {
        Some("PHP"@)
    } else if e == "pl"@ || e == "pm"@ {
        Some("Perl"@)
    } else if e == "lua"@ {
        Some("Lua"@)
    } else if e == "sh"@ || e == "bash"@ || e == "zsh"@ {
        Some("Shell"@)
    } else if e == "java"@ {
        Some("Java"@)
    } else if e == "kt"@ || e == "kts"@ {
        Some("Kotlin"@)
    } else if e == "scala"@ {
        Some("Scala"@)
    } else if e == "groovy"@ {
        Some("Groovy"@)
    } else if e == "cs"@ {
        Some("C#"@)
    } else if e == "fs"@ || e == "fsi"@ || e == "fsx"@ {
        Some("F#"@)
    } else if e == "vb"@ {
        Some("Visual Basic"@)
    } else if e == "hs"@ || e == "lhs"@ {
        Some("Haskell"@)
    } else if e == "ml"@ || e == "mli"@ {
        Some("OCaml"@)
    } else if e == "clj"@ || e == "cljs"@ || e == "cljc"@ {
        Some("Clojure"@)
    } else if e == "lisp"@ || e == "lsp"@ {
        Some("Lisp"@)
    } else if e == "scm"@ || e == "ss"@ {
        Some("Scheme"@)
    } else if e == "erl"@ || e == "hrl"@ {
        Some("Erlang"@)
    } else if e == "ex"@ || e == "exs"@ {
        Some("Elixir"@)
    } else if e == "swift"@ {
        Some("Swift"@)
    } else if e == "m"@ {
        Some("Objective-C"@)
    } else if e == "dart"@ {
        Some("Dart"@)
    } else if e == "json"@ {
        Some("JSON"@)
    } else if e == "yaml"@ || e == "yml"@ {
        Some("YAML"@)
    } else if e == "toml"@ {
        Some("TOML"@)
    } else if e == "xml"@ {
        Some("XML"@)
    } else if e == "sql"@ {
        Some("SQL"@)
    } else if e == "proto"@ {
        Some("Protocol Buffers"@)
    } else if e == "md"@ || e == "markdown"@ {
        Some("Markdown"@)
    } else if e == "rst"@ {
        Some("reStructuredText"@)
    } else if e == "tex"@ {
        Some("LaTeX"@)
    } else if e == "adoc"@ || e == "asciidoc"@ {
        Some("AsciiDoc"@)
    } else if e == "r"@ {
        Some("R"@)
    } else if e == "jl"@ {
        Some("Julia"@)
    } else if e == "nim"@ {
        Some("Nim"@)
    } else if e == "v"@ {
        Some("V"@)
    } else if e == "d"@ {
        Some("D"@)
    } else if e == "cr"@ {
        Some("Crystal"@)
    } else {
        None
    }
}

/// The display name for a file whose extension is `ext` and whose
/// lowercase form is `lower`: the known language, else `ext` itself.
pub open spec fn language_name(lower: Seq<char>, ext: Seq<char>) -> Seq<char> {
    match known_language(lower) {
        Some(name) => name,
        None => ext,
    }
}

/// The length and the characters of each known extension.
proof fn lemma_extension_texts()
    ensures
        "html"@.len() == 4 && "html"@[0] == 'h' && "html"@[1] == 't' && "html"@[2] == 'm' && "html"@[3] == 'l',
        "htm"@.len() == 3 && "htm"@[0] == 'h' && "htm"@[1] == 't' && "htm"@[2] == 'm',
        "css"@.len() == 3 && "css"@[0] == 'c' && "css"@[1] == 's' && "css"@[2] == 's',
        "scss"@.len() == 4 && "scss"@[0] == 's' && "scss"@[1] == 'c' && "scss"@[2] == 's' && "scss"@[3] == 's',
        "sass"@.len() == 4 && "sass"@[0] == 's' && "sass"@[1] == 'a' && "sass"@[2] == 's' && "sass"@[3] == 's',
        "less"@.len() == 4 && "less"@[0] == 'l' && "less"@[1] == 'e' && "less"@[2] == 's' && "less"@[3] == 's',
        "js"@.len() == 2 && "js"@[0] == 'j' && "js"@[1] == 's',
        "mjs"@.len() == 3 && "mjs"@[0] == 'm' && "mjs"@[1] == 'j' && "mjs"@[2] == 's',
        "cjs"@.len() == 3 && "cjs"@[0] == 'c' && "cjs"@[1] == 'j' && "cjs"@[2] == 's',
        "ts"@.len() == 2 && "ts"@[0] == 't' && "ts"@[1] == 's',
        "jsx"@.len() == 3 && "jsx"@[0] == 'j' && "jsx"@[1] == 's' && "jsx"@[2] == 'x',
        "tsx"@.len() == 3 && "tsx"@[0] == 't' && "tsx"@[1] == 's' && "tsx"@[2] == 'x',
        "vue"@.len() == 3 && "vue"@[0] == 'v' && "vue"@[1] == 'u' && "vue"@[2] == 'e',
        "svelte"@.len() == 6 && "svelte"@[0] == 's' && "svelte"@[1] == 'v' && "svelte"@[2] == 'e' && "svelte"@[3] == 'l' && "svelte"@[4] == 't' && "svelte"@[5] == 'e',
        "rs"@.len() == 2 && "rs"@[0] == 'r' && "rs"@[1] == 's',
        "c"@.len() == 1 && "c"@[0] == 'c',
        "h"@.len() == 1 && "h"@[0] == 'h',
        "cpp"@.len() == 3 && "cpp"@[0] == 'c' && "cpp"@[1] == 'p' && "cpp"@[2] == 'p',
        "cc"@.len() == 2 && "cc"@[0] == 'c' && "cc"@[1] == 'c',
        "cxx"@.len() == 3 && "cxx"@[0] == 'c' && "cxx"@[1] == 'x' && "cxx"@[2] == 'x',
        "hpp"@.len() == 3 && "hpp"@[0] == 'h' && "hpp"@[1] == 'p' && "hpp"@[2] == 'p',
        "hxx"@.len() == 3 && "hxx"@[0] == 'h' && "hxx"@[1] == 'x' && "hxx"@[2] == 'x',
        "hh"@.len() == 2 && "hh"@[0] == 'h' && "hh"@[1] == 'h',
        "go"@.len() == 2 && "go"@[0] == 'g' && "go"@[1] == 'o',
        "zig"@.len() == 3 && "zig"@[0] == 'z' && "zig"@[1] == 'i' && "zig"@[2] == 'g',
        "py"@.len() == 2 && "py"@[0] == 'p' && "py"@[1] == 'y',
        "pyw"@.len() == 3 && "pyw"@[0] == 'p' && "pyw"@[1] == 'y' && "pyw"@[2] == 'w',
        "rb"@.len() == 2 && "rb"@[0] == 'r' && "rb"@[1] == 'b',
        "php"@.len() == 3 && "php"@[0] == 'p' && "php"@[1] == 'h' && "php"@[2] == 'p',
        "pl"@.len() == 2 && "pl"@[0] == 'p' && "pl"@[1] == 'l',
        "pm"@.len() == 2 && "pm"@[0] == 'p' && "pm"@[1] == 'm',
        "lua"@.len() == 3 && "lua"@[0] == 'l' && "lua"@[1] == 'u' && "lua"@[2] == 'a',
        "sh"@.len() == 2 && "sh"@[0] == 's' && "sh"@[1] == 'h',
        "bash"@.len() == 4 && "bash"@[0] == 'b' && "bash"@[1] == 'a' && "bash"@[2] == 's' && "bash"@[3] == 'h',
        "zsh"@.len() == 3 && "zsh"@[0] == 'z' && "zsh"@[1] == 's' && "zsh"@[2] == 'h',
        "java"@.len() == 4 && "java"@[0] == 'j' && "java"@[1] == 'a' && "java"@[2] == 'v' && "java"@[3] == 'a',
        "kt"@.len() == 2 && "kt"@[0] == 'k' && "kt"@[1] == 't',
        "kts"@.len() == 3 && "kts"@[0] == 'k' && "kts"@[1] == 't' && "kts"@[2] == 's',
        "scala"@.len() == 5 && "scala"@[0] == 's' && "scala"@[1] == 'c' && "scala"@[2] == 'a' && "scala"@[3] == 'l' && "scala"@[4] == 'a',
        "groovy"@.len() == 6 && "groovy"@[0] == 'g' && "groovy"@[1] == 'r' && "groovy"@[2] == 'o' && "groovy"@[3] == 'o' && "groovy"@[4] == 'v' && "groovy"@[5] == 'y',
        "cs"@.len() == 2 && "cs"@[0] == 'c' && "cs"@[1] == 's',
        "fs"@.len() == 2 && "fs"@[0] == 'f' && "fs"@[1] == 's',
        "fsi"@.len() == 3 && "fsi"@[0] == 'f' && "fsi"@[1] == 's' && "fsi"@[2] == 'i',
        "fsx"@.len() == 3 && "fsx"@[0] == 'f' && "fsx"@[1] == 's' && "fsx"@[2] == 'x',
        "vb"@.len() == 2 && "vb"@[0] == 'v' && "vb"@[1] == 'b',
        "hs"@.len() == 2 && "hs"@[0] == 'h' && "hs"@[1] == 's',
        "lhs"@.len() == 3 && "lhs"@[0] == 'l' && "lhs"@[1] == 'h' && "lhs"@[2] == 's',
        "ml"@.len() == 2 && "ml"@[0] == 'm' && "ml"@[1] == 'l',
        "mli"@.len() == 3 && "mli"@[0] == 'm' && "mli"@[1] == 'l' && "mli"@[2] == 'i',
        "clj"@.len() == 3 && "clj"@[0] == 'c' && "clj"@[1] == 'l' && "clj"@[2] == 'j',
        "cljs"@.len() == 4 && "cljs"@[0] == 'c' && "cljs"@[1] == 'l' && "cljs"@[2] == 'j' && "cljs"@[3] == 's',
        "cljc"@.len() == 4 && "cljc"@[0] == 'c' && "cljc"@[1] == 'l' && "cljc"@[2] == 'j' && "cljc"@[3] == 'c',
        "lisp"@.len() == 4 && "lisp"@[0] == 'l' && "lisp"@[1] == 'i' && "lisp"@[2] == 's' && "lisp"@[3] == 'p',
        "lsp"@.len() == 3 && "lsp"@[0] == 'l' && "lsp"@[1] == 's' && "lsp"@[2] == 'p',
        "scm"@.len() == 3 && "scm"@[0] == 's' && "scm"@[1] == 'c' && "scm"@[2] == 'm',
        "ss"@.len() == 2 && "ss"@[0] == 's' && "ss"@[1] == 's',
        "erl"@.len() == 3 && "erl"@[0] == 'e' && "erl"@[1] == 'r' && "erl"@[2] == 'l',
        "hrl"@.len() == 3 && "hrl"@[0] == 'h' && "hrl"@[1] == 'r' && "hrl"@[2] == 'l',
        "ex"@.len() == 2 && "ex"@[0] == 'e' && "ex"@[1] == 'x',
        "exs"@.len() == 3 && "exs"@[0] == 'e' && "exs"@[1] == 'x' && "exs"@[2] == 's',
        "swift"@.len() == 5 && "swift"@[0] == 's' && "swift"@[1] == 'w' && "swift"@[2] == 'i' && "swift"@[3] == 'f' && "swift"@[4] == 't',
        "m"@.len() == 1 && "m"@[0] == 'm',
        "dart"@.len() == 4 && "dart"@[0] == 'd' && "dart"@[1] == 'a' && "dart"@[2] == 'r' && "dart"@[3] == 't',
        "json"@.len() == 4 && "json"@[0] == 'j' && "json"@[1] == 's' && "json"@[2] == 'o' && "json"@[3] == 'n',
        "yaml"@.len() == 4 && "yaml"@[0] == 'y' && "yaml"@[1] == 'a' && "yaml"@[2] == 'm' && "yaml"@[3] == 'l',
        "yml"@.len() == 3 && "yml"@[0] == 'y' && "yml"@[1] == 'm' && "yml"@[2] == 'l',
        "toml"@.len() == 4 && "toml"@[0] == 't' && "toml"@[1] == 'o' && "toml"@[2] == 'm' && "toml"@[3] == 'l',
        "xml"@.len() == 3 && "xml"@[0] == 'x' && "xml"@[1] == 'm' && "xml"@[2] == 'l',
        "sql"@.len() == 3 && "sql"@[0] == 's' && "sql"@[1] == 'q' && "sql"@[2] == 'l',
        "proto"@.len() == 5 && "proto"@[0] == 'p' && "proto"@[1] == 'r' && "proto"@[2] == 'o' && "proto"@[3] == 't' && "proto"@[4] == 'o',
        "md"@.len() == 2 && "md"@[0] == 'm' && "md"@[1] == 'd',
        "markdown"@.len() == 8 && "markdown"@[0] == 'm' && "markdown"@[1] == 'a' && "markdown"@[2] == 'r' && "markdown"@[3] == 'k' && "markdown"@[4] == 'd' && "markdown"@[5] == 'o' && "markdown"@[6] == 'w' && "markdown"@[7] == 'n',
        "rst"@.len() == 3 && "rst"@[0] == 'r' && "rst"@[1] == 's' && "rst"@[2] == 't',
        "tex"@.len() == 3 && "tex"@[0] == 't' && "tex"@[1] == 'e' && "tex"@[2] == 'x',
        "adoc"@.len() == 4 && "adoc"@[0] == 'a' && "adoc"@[1] == 'd' && "adoc"@[2] == 'o' && "adoc"@[3] == 'c',
        "asciidoc"@.len() == 8 && "asciidoc"@[0] == 'a' && "asciidoc"@[1] == 's' && "asciidoc"@[2] == 'c' && "asciidoc"@[3] == 'i' && "asciidoc"@[4] == 'i' && "asciidoc"@[5] == 'd' && "asciidoc"@[6] == 'o' && "asciidoc"@[7] == 'c',
        "r"@.len() == 1 && "r"@[0] == 'r',
        "jl"@.len() == 2 && "jl"@[0] == 'j' && "jl"@[1] == 'l',
        "nim"@.len() == 3 && "nim"@[0] == 'n' && "nim"@[1] == 'i' && "nim"@[2] == 'm',
        "v"@.len() == 1 && "v"@[0] == 'v',
        "d"@.len() == 1 && "d"@[0] == 'd',
        "cr"@.len() == 2 && "cr"@[0] == 'c' && "cr"@[1] == 'r',
{
    reveal_strlit("html");
    reveal_strlit("htm");
    reveal_strlit("css");
    reveal_strlit("scss");
    reveal_strlit("sass");
    reveal_strlit("less");
    reveal_strlit("js");
    reveal_strlit("mjs");
    reveal_strlit("cjs");
    reveal_strlit("ts");
    reveal_strlit("jsx");
    reveal_strlit("tsx");
    reveal_strlit("vue");
    reveal_strlit("svelte");
    reveal_strlit("rs");
    reveal_strlit("c");
    reveal_strlit("h");
    reveal_strlit("cpp");
    reveal_strlit("cc");
    reveal_strlit("cxx");
    reveal_strlit("hpp");
    reveal_strlit("hxx");
    reveal_strlit("hh");
    reveal_strlit("go");
    reveal_strlit("zig");
    reveal_strlit("py");
    reveal_strlit("pyw");
    reveal_strlit("rb");
    reveal_strlit("php");
    reveal_strlit("pl");
    reveal_strlit("pm");
    reveal_strlit("lua");
    reveal_strlit("sh");
    reveal_strlit("bash");
    reveal_strlit("zsh");
    reveal_strlit("java");
    reveal_strlit("kt");
    reveal_strlit("kts");
    reveal_strlit("scala");
    reveal_strlit("groovy");
    reveal_strlit("cs");
    reveal_strlit("fs");
    reveal_strlit("fsi");
    reveal_strlit("fsx");
    reveal_strlit("vb");
    reveal_strlit("hs");
    reveal_strlit("lhs");
    reveal_strlit("ml");
    reveal_strlit("mli");
    reveal_strlit("clj");
    reveal_strlit("cljs");
    reveal_strlit("cljc");
    reveal_strlit("lisp");
    reveal_strlit("lsp");
    reveal_strlit("scm");
    reveal_strlit("ss");
    reveal_strlit("erl");
    reveal_strlit("hrl");
    reveal_strlit("ex");
    reveal_strlit("exs");
    reveal_strlit("swift");
    reveal_strlit("m");
    reveal_strlit("dart");
    reveal_strlit("json");
    reveal_strlit("yaml");
    reveal_strlit("yml");
    reveal_strlit("toml");
    reveal_strlit("xml");
    reveal_strlit("sql");
    reveal_strlit("proto");
    reveal_strlit("md");
    reveal_strlit("markdown");
    reveal_strlit("rst");
    reveal_strlit("tex");
    reveal_strlit("adoc");
    reveal_strlit("asciidoc");
    reveal_strlit("r");
    reveal_strlit("jl");
    reveal_strlit("nim");
    reveal_strlit("v");
    reveal_strlit("d");
    reveal_strlit("cr");
}


/// The known web languages: each of these lowercase extensions is
/// shown under the language named beside it.
pub proof fn law_known_web_languages(ext: Seq<char>)
    ensures
        language_name("html"@, ext) == "HTML"@,
        language_name("htm"@, ext) == "HTML"@,
        language_name("css"@, ext) == "CSS"@,
        language_name("scss"@, ext) == "SCSS/Sass"@,
        language_name("sass"@, ext) == "SCSS/Sass"@,
        language_name("less"@, ext) == "Less"@,
        language_name("js"@, ext) == "JavaScript"@,
        language_name("mjs"@, ext) == "JavaScript"@,
        language_name("cjs"@, ext) == "JavaScript"@,
        language_name("ts"@, ext) == "TypeScript"@,
        language_name("jsx"@, ext) == "React JSX"@,
        language_name("tsx"@, ext) == "React TSX"@,
        language_name("vue"@, ext) == "Vue"@,
        language_name("svelte"@, ext) == "Svelte"@,
{
    lemma_extension_texts();
    reveal_strlit("HTML");
    reveal_strlit("HTML");
    reveal_strlit("CSS");
    reveal_strlit("SCSS/Sass");
    reveal_strlit("SCSS/Sass");
    reveal_strlit("Less");
    reveal_strlit("JavaScript");
    reveal_strlit("JavaScript");
    reveal_strlit("JavaScript");
    reveal_strlit("TypeScript");
    reveal_strlit("React JSX");
    reveal_strlit("React TSX");
    reveal_strlit("Vue");
    reveal_strlit("Svelte");
}

/// The known systems languages: each of these lowercase extensions is
/// shown under the language named beside it.
pub proof fn law_known_systems_languages(ext: Seq<char>)
    ensures
        language_name("rs"@, ext) == "Rust"@,
        language_name("c"@, ext) == "C"@,
        language_name("h"@, ext) == "C Header"@,
        language_name("cpp"@, ext) == "C++"@,
        language_name("cc"@, ext) == "C++"@,
        language_name("cxx"@, ext) == "C++"@,
        language_name("hpp"@, ext) == "C++ Header"@,
        language_name("hxx"@, ext) == "C++ Header"@,
        language_name("hh"@, ext) == "C++ Header"@,
        language_name("go"@, ext) == "Go"@,
        language_name("zig"@, ext) == "Zig"@,
{
    lemma_extension_texts();
    reveal_strlit("Rust");
    reveal_strlit("C");
    reveal_strlit("C Header");
    reveal_strlit("C++");
    reveal_strlit("C++");
    reveal_strlit("C++");
    reveal_strlit("C++ Header");
    reveal_strlit("C++ Header");
    reveal_strlit("C++ Header");
    reveal_strlit("Go");
    reveal_strlit("Zig");
}

/// The known scripting languages: each of these lowercase extensions is
/// shown under the language named beside it.
pub proof fn law_known_scripting_languages(ext: Seq<char>)
    ensures
        language_name("py"@, ext) == "Python"@,
        language_name("pyw"@, ext) == "Python"@,
        language_name("rb"@, ext) == "Ruby"@,
        language_name("php"@, ext) == "PHP"@,
        language_name("pl"@, ext) == "Perl"@,
        language_name("pm"@, ext) == "Perl"@,
        language_name("lua"@, ext) == "Lua"@,
        language_name("sh"@, ext) == "Shell"@,
        language_name("bash"@, ext) == "Shell"@,
        language_name("zsh"@, ext) == "Shell"@,
{
    lemma_extension_texts();
    reveal_strlit("Python");
    reveal_strlit("Python");
    reveal_strlit("Ruby");
    reveal_strlit("PHP");
    reveal_strlit("Perl");
    reveal_strlit("Perl");
    reveal_strlit("Lua");
    reveal_strlit("Shell");
    reveal_strlit("Shell");
    reveal_strlit("Shell");
}

/// The known JVM languages: each of these lowercase extensions is
/// shown under the language named beside it.
pub proof fn law_known_jvm_languages(ext: Seq<char>)
    ensures
        language_name("java"@, ext) == "Java"@,
        language_name("kt"@, ext) == "Kotlin"@,
        language_name("kts"@, ext) == "Kotlin"@,
        language_name("scala"@, ext) == "Scala"@,
        language_name("groovy"@, ext) == "Groovy"@,
{
    lemma_extension_texts();
    reveal_strlit("Java");
    reveal_strlit("Kotlin");
    reveal_strlit("Kotlin");
    reveal_strlit("Scala");
    reveal_strlit("Groovy");
}

/// The known .NET languages: each of these lowercase extensions is
/// shown under the language named beside it.
pub proof fn law_known_dotnet_languages(ext: Seq<char>)
    ensures
        language_name("cs"@, ext) == "C#"@,
        language_name("fs"@, ext) == "F#"@,
        language_name("fsi"@, ext) == "F#"@,
        language_name("fsx"@, ext) == "F#"@,
        language_name("vb"@, ext) == "Visual Basic"@,
{
    lemma_extension_texts();
    reveal_strlit("C#");
    reveal_strlit("F#");
    reveal_strlit("F#");
    reveal_strlit("F#");
    reveal_strlit("Visual Basic");
}

/// The known functional languages: each of these lowercase extensions is
/// shown under the language named beside it.
pub proof fn law_known_functional_languages(ext: Seq<char>)
    ensures
        language_name("hs"@, ext) == "Haskell"@,
        language_name("lhs"@, ext) == "Haskell"@,
        language_name("ml"@, ext) == "OCaml"@,
        language_name("mli"@, ext) == "OCaml"@,
        language_name("clj"@, ext) == "Clojure"@,
        language_name("cljs"@, ext) == "Clojure"@,
        language_name("cljc"@, ext) == "Clojure"@,
        language_name("lisp"@, ext) == "Lisp"@,
        language_name("lsp"@, ext) == "Lisp"@,
        language_name("scm"@, ext) == "Scheme"@,
        language_name("ss"@, ext) == "Scheme"@,
        language_name("erl"@, ext) == "Erlang"@,
        language_name("hrl"@, ext) == "Erlang"@,
        language_name("ex"@, ext) == "Elixir"@,
        language_name("exs"@, ext) == "Elixir"@,
{
    lemma_extension_texts();
    reveal_strlit("Haskell");
    reveal_strlit("Haskell");
    reveal_strlit("OCaml");
    reveal_strlit("OCaml");
    reveal_strlit("Clojure");
    reveal_strlit("Clojure");
    reveal_strlit("Clojure");
    reveal_strlit("Lisp");
    reveal_strlit("Lisp");
    reveal_strlit("Scheme");
    reveal_strlit("Scheme");
    reveal_strlit("Erlang");
    reveal_strlit("Erlang");
    reveal_strlit("Elixir");
    reveal_strlit("Elixir");
}

/// The known mobile languages: each of these lowercase extensions is
/// shown under the language named beside it.
pub proof fn law_known_mobile_languages(ext: Seq<char>)
    ensures
        language_name("swift"@, ext) == "Swift"@,
        language_name("m"@, ext) == "Objective-C"@,
        language_name("dart"@, ext) == "Dart"@,
{
    lemma_extension_texts();
    reveal_strlit("Swift");
    reveal_strlit("Objective-C");
    reveal_strlit("Dart");
}

/// The known data and configuration languages: each of these lowercase extensions is
/// shown under the language named beside it.
pub proof fn law_known_data_and_config_languages(ext: Seq<char>)
    ensures
        language_name("json"@, ext) == "JSON"@,
        language_name("yaml"@, ext) == "YAML"@,
        language_name("yml"@, ext) == "YAML"@,
        language_name("toml"@, ext) == "TOML"@,
        language_name("xml"@, ext) == "XML"@,
        language_name("sql"@, ext) == "SQL"@,
        language_name("proto"@, ext) == "Protocol Buffers"@,
{
    lemma_extension_texts();
    reveal_strlit("JSON");
    reveal_strlit("YAML");
    reveal_strlit("YAML");
    reveal_strlit("TOML");
    reveal_strlit("XML");
    reveal_strlit("SQL");
    reveal_strlit("Protocol Buffers");
}

/// The known markup and documentation languages: each of these lowercase extensions is
/// shown under the language named beside it.
pub proof fn law_known_markup_and_docs_languages(ext: Seq<char>)
    ensures
        language_name("md"@, ext) == "Markdown"@,
        language_name("markdown"@, ext) == "Markdown"@,
        language_name("rst"@, ext) == "reStructuredText"@,
        language_name("tex"@, ext) == "LaTeX"@,
        language_name("adoc"@, ext) == "AsciiDoc"@,
        language_name("asciidoc"@, ext) == "AsciiDoc"@,
{
    lemma_extension_texts();
    reveal_strlit("Markdown");
    reveal_strlit("Markdown");
    reveal_strlit("reStructuredText");
    reveal_strlit("LaTeX");
    reveal_strlit("AsciiDoc");
    reveal_strlit("AsciiDoc");
}

/// The known other languages: each of these lowercase extensions is
/// shown under the language named beside it.
pub proof fn law_known_other_languages(ext: Seq<char>)
    ensures
        language_name("r"@, ext) == "R"@,
        language_name("jl"@, ext) == "Julia"@,
        language_name("nim"@, ext) == "Nim"@,
        language_name("v"@, ext) == "V"@,
        language_name("d"@, ext) == "D"@,
        language_name("cr"@, ext) == "Crystal"@,
{
    lemma_extension_texts();
    reveal_strlit("R");
    reveal_strlit("Julia");
    reveal_strlit("Nim");
    reveal_strlit("V");
    reveal_strlit("D");
    reveal_strlit("Crystal");
}


/// An extension that is none of the known ones is shown as it was written.
pub proof fn law_unknown_extensions_show_as_written(lower: Seq<char>, ext: Seq<char>)
    requires
        lower != "html"@,
        lower != "htm"@,
        lower != "css"@,
        lower != "scss"@,
        lower != "sass"@,
        lower != "less"@,
        lower != "js"@,
        lower != "mjs"@,
        lower != "cjs"@,
        lower != "ts"@,
        lower != "jsx"@,
        lower != "tsx"@,
        lower != "vue"@,
        lower != "svelte"@,
        lower != "rs"@,
        lower != "c"@,
        lower != "h"@,
        lower != "cpp"@,
        lower != "cc"@,
        lower != "cxx"@,
        lower != "hpp"@,
        lower != "hxx"@,
        lower != "hh"@,
        lower != "go"@,
        lower != "zig"@,
        lower != "py"@,
        lower != "pyw"@,
        lower != "rb"@,
        lower != "php"@,
        lower != "pl"@,
        lower != "pm"@,
        lower != "lua"@,
        lower != "sh"@,
        lower != "bash"@,
        lower != "zsh"@,
        lower != "java"@,
        lower != "kt"@,
        lower != "kts"@,
        lower != "scala"@,
        lower != "groovy"@,
        lower != "cs"@,
        lower != "fs"@,
        lower != "fsi"@,
        lower != "fsx"@,
        lower != "vb"@,
        lower != "hs"@,
        lower != "lhs"@,
        lower != "ml"@,
        lower != "mli"@,
        lower != "clj"@,
        lower != "cljs"@,
        lower != "cljc"@,
        lower != "lisp"@,
        lower != "lsp"@,
        lower != "scm"@,
        lower != "ss"@,
        lower != "erl"@,
        lower != "hrl"@,
        lower != "ex"@,
        lower != "exs"@,
        lower != "swift"@,
        lower != "m"@,
        lower != "dart"@,
        lower != "json"@,
        lower != "yaml"@,
        lower != "yml"@,
        lower != "toml"@,
        lower != "xml"@,
        lower != "sql"@,
        lower != "proto"@,
        lower != "md"@,
        lower != "markdown"@,
        lower != "rst"@,
        lower != "tex"@,
        lower != "adoc"@,
        lower != "asciidoc"@,
        lower != "r"@,
        lower != "jl"@,
        lower != "nim"@,
        lower != "v"@,
        lower != "d"@,
        lower != "cr"@,
    ensures
        language_name(lower, ext) == ext,
{
}

/// The display name for the extension `ext` once lowercased to `lower`: the
/// known language of `lower`, else `ext` unchanged.
pub fn language_for<'a>(lower: &str, ext: &'a str) -> (r: &'a str)
    ensures
        r@ == language_name(lower@, ext@),
{
    if str_eq(lower, "html") || str_eq(lower, "htm") {
        "HTML"
    } else if str_eq(lower, "css") {
        "CSS"
    } else if str_eq(lower, "scss") || str_eq(lower, "sass") {
        "SCSS/Sass"
    } else if str_eq(lower, "less") {
        "Less"
    } else if str_eq(lower, "js") || str_eq(lower, "mjs") || str_eq(lower, "cjs") {
        "JavaScript"
    } else if str_eq(lower, "ts") {
        "TypeScript"
    } else if str_eq(lower, "jsx") {
        "React JSX"
    } else if str_eq(lower, "tsx") {
        "React TSX"
    } else if str_eq(lower, "vue") {
        "Vue"
    } else if str_eq(lower, "svelte") {
        "Svelte"
    } else if str_eq(lower, "rs") {
        "Rust"
    } else if str_eq(lower, "c") {
        "C"
    } else if str_eq(lower, "h") {
        "C Header"
    } else if str_eq(lower, "cpp") || str_eq(lower, "cc") || str_eq(lower, "cxx") {
        "C++"
    } else if str_eq(lower, "hpp") || str_eq(lower, "hxx") || str_eq(lower, "hh") {
        "C++ Header"
    } else if str_eq(lower, "go") {
        "Go"
    } else if str_eq(lower, "zig") {
        "Zig"
    } else if str_eq(lower, "py") || str_eq(lower, "pyw") {
        "Python"
    } else if str_eq(lower, "rb") {
        "Ruby"
    } else if str_eq(lower, "php") {
        "PHP"
    } else if str_eq(lower, "pl") || str_eq(lower, "pm") {
        "Perl"
    } else if str_eq(lower, "lua") {
        "Lua"
    } else if str_eq(lower, "sh") || str_eq(lower, "bash") || str_eq(lower, "zsh") {
        "Shell"
    } else if str_eq(lower, "java") {
        "Java"
    } else if str_eq(lower, "kt") || str_eq(lower, "kts") {
        "Kotlin"
    } else if str_eq(lower, "scala") {
        "Scala"
    } else if str_eq(lower, "groovy") {
        "Groovy"
    } else if str_eq(lower, "cs") {
        "C#"
    } else if str_eq(lower, "fs") || str_eq(lower, "fsi") || str_eq(lower, "fsx") {
        "F#"
    } else if str_eq(lower, "vb") {
        "Visual Basic"
    } else if str_eq(lower, "hs") || str_eq(lower, "lhs") {
        "Haskell"
    } else if str_eq(lower, "ml") || str_eq(lower, "mli") {
        "OCaml"
    } else if str_eq(lower, "clj") || str_eq(lower, "cljs") || str_eq(lower, "cljc") {
        "Clojure"
    } else if str_eq(lower, "lisp") || str_eq(lower, "lsp") {
        "Lisp"
    } else if str_eq(lower, "scm") || str_eq(lower, "ss") {
        "Scheme"
    } else if str_eq(lower, "erl") || str_eq(lower, "hrl") {
        "Erlang"
    } else if str_eq(lower, "ex") || str_eq(lower, "exs") {
        "Elixir"
    } else if str_eq(lower, "swift") {
        "Swift"
    } else if str_eq(lower, "m") {
        "Objective-C"
    } else if str_eq(lower, "dart") {
        "Dart"
    } else if str_eq(lower, "json") {
        "JSON"
    } else if str_eq(lower, "yaml") || str_eq(lower, "yml") {
        "YAML"
    } else if str_eq(lower, "toml") {
        "TOML"
    } else if str_eq(lower, "xml") {
        "XML"
    } else if str_eq(lower, "sql") {
        "SQL"
    } else if str_eq(lower, "proto") {
        "Protocol Buffers"
    } else if str_eq(lower, "md") || str_eq(lower, "markdown") {
        "Markdown"
    } else if str_eq(lower, "rst") {
        "reStructuredText"
    } else if str_eq(lower, "tex") {
        "LaTeX"
    } else if str_eq(lower, "adoc") || str_eq(lower, "asciidoc") {
        "AsciiDoc"
    } else if str_eq(lower, "r") {
        "R"
    } else if str_eq(lower, "jl") {
        "Julia"
    } else if str_eq(lower, "nim") {
        "Nim"
    } else if str_eq(lower, "v") {
        "V"
    } else if str_eq(lower, "d") {
        "D"
    } else if str_eq(lower, "cr") {
        "Crystal"
    } else {
        ext
    }
}

/// Maps a file extension to a display language name, case-insensitively,
/// falling back to the extension itself when it isn't in the known table.
pub fn get_language_name(ext: &str) -> (r: &str)
    ensures
        r@ == language_name(lowercase(ext@), ext@),
        all_ascii(ext@) ==> r@ == language_name(ascii_lower(ext@), ext@),
{
    let lower = to_lowercase(ext);
    language_for(lower.as_str(), ext)
}

} // verus!
