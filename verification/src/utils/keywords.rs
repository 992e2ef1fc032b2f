//! The words that the language of the generated code keeps for itself, and
//! that no identifier may be; and the names of the types that the generated
//! code uses itself, and that no generated type may have.

use crate::text::{chars_eq, chars_of};
use vstd::prelude::*;

verus! {

/// Whether `s` is a keyword of Rust, strict or reserved.
pub open spec fn is_keyword(s: Seq<char>) -> bool {
    s == "as"@
        || s == "async"@
        || s == "await"@
        || s == "break"@
        || s == "const"@
        || s == "continue"@
        || s == "crate"@
        || s == "dyn"@
        || s == "else"@
        || s == "enum"@
        || s == "extern"@
        || s == "false"@
        || s == "fn"@
        || s == "for"@
        || s == "if"@
        || s == "impl"@
        || s == "in"@
        || s == "let"@
        || s == "loop"@
        || s == "match"@
        || s == "mod"@
        || s == "move"@
        || s == "mut"@
        || s == "pub"@
        || s == "ref"@
        || s == "return"@
        || s == "self"@
        || s == "Self"@
        || s == "static"@
        || s == "struct"@
        || s == "super"@
        || s == "trait"@
        || s == "true"@
        || s == "type"@
        || s == "unsafe"@
        || s == "use"@
        || s == "where"@
        || s == "while"@
        || s == "abstract"@
        || s == "become"@
        || s == "box"@
        || s == "do"@
        || s == "final"@
        || s == "macro"@
        || s == "override"@
        || s == "priv"@
        || s == "try"@
        || s == "typeof"@
        || s == "unsized"@
        || s == "virtual"@
        || s == "yield"@
        || s == "gen"@
}

fn is_word(chars: &Vec<char>, word: &str) -> (same: bool)
    ensures
        same == (chars@ == word@),
{
    let other = chars_of(word);
    chars_eq(chars, &other)
}

/// Whether `chars` spell a keyword.
pub fn is_keyword_chars(chars: &Vec<char>) -> (found: bool)
    ensures
        found == is_keyword(chars@),
{
    is_word(chars, "as")
        || is_word(chars, "async")
        || is_word(chars, "await")
        || is_word(chars, "break")
        || is_word(chars, "const")
        || is_word(chars, "continue")
        || is_word(chars, "crate")
        || is_word(chars, "dyn")
        || is_word(chars, "else")
        || is_word(chars, "enum")
        || is_word(chars, "extern")
        || is_word(chars, "false")
        || is_word(chars, "fn")
        || is_word(chars, "for")
        || is_word(chars, "if")
        || is_word(chars, "impl")
        || is_word(chars, "in")
        || is_word(chars, "let")
        || is_word(chars, "loop")
        || is_word(chars, "match")
        || is_word(chars, "mod")
        || is_word(chars, "move")
        || is_word(chars, "mut")
        || is_word(chars, "pub")
        || is_word(chars, "ref")
        || is_word(chars, "return")
        || is_word(chars, "self")
        || is_word(chars, "Self")
        || is_word(chars, "static")
        || is_word(chars, "struct")
        || is_word(chars, "super")
        || is_word(chars, "trait")
        || is_word(chars, "true")
        || is_word(chars, "type")
        || is_word(chars, "unsafe")
        || is_word(chars, "use")
        || is_word(chars, "where")
        || is_word(chars, "while")
        || is_word(chars, "abstract")
        || is_word(chars, "become")
        || is_word(chars, "box")
        || is_word(chars, "do")
        || is_word(chars, "final")
        || is_word(chars, "macro")
        || is_word(chars, "override")
        || is_word(chars, "priv")
        || is_word(chars, "try")
        || is_word(chars, "typeof")
        || is_word(chars, "unsized")
        || is_word(chars, "virtual")
        || is_word(chars, "yield")
        || is_word(chars, "gen")
}

/// A keyword ends in a letter: none ends in `_` or in a digit.
pub proof fn lemma_keyword_ends_in_letter(s: Seq<char>)
    requires
        is_keyword(s),
    ensures
        s.len() > 0,
        ('a' <= s.last() && s.last() <= 'z') || ('A' <= s.last() && s.last() <= 'Z'),
{
    reveal_strlit("as");
    reveal_strlit("async");
    reveal_strlit("await");
    reveal_strlit("break");
    reveal_strlit("const");
    reveal_strlit("continue");
    reveal_strlit("crate");
    reveal_strlit("dyn");
    reveal_strlit("else");
    reveal_strlit("enum");
    reveal_strlit("extern");
    reveal_strlit("false");
    reveal_strlit("fn");
    reveal_strlit("for");
    reveal_strlit("if");
    reveal_strlit("impl");
    reveal_strlit("in");
    reveal_strlit("let");
    reveal_strlit("loop");
    reveal_strlit("match");
    reveal_strlit("mod");
    reveal_strlit("move");
    reveal_strlit("mut");
    reveal_strlit("pub");
    reveal_strlit("ref");
    reveal_strlit("return");
    reveal_strlit("self");
    reveal_strlit("Self");
    reveal_strlit("static");
    reveal_strlit("struct");
    reveal_strlit("super");
    reveal_strlit("trait");
    reveal_strlit("true");
    reveal_strlit("type");
    reveal_strlit("unsafe");
    reveal_strlit("use");
    reveal_strlit("where");
    reveal_strlit("while");
    reveal_strlit("abstract");
    reveal_strlit("become");
    reveal_strlit("box");
    reveal_strlit("do");
    reveal_strlit("final");
    reveal_strlit("macro");
    reveal_strlit("override");
    reveal_strlit("priv");
    reveal_strlit("try");
    reveal_strlit("typeof");
    reveal_strlit("unsized");
    reveal_strlit("virtual");
    reveal_strlit("yield");
    reveal_strlit("gen");
}

/// Whether `s` is the name of a type that the generated code uses itself,
/// so that no generated type may be called by it.
pub open spec fn is_reserved(s: Seq<char>) -> bool {
    s == "Box"@
        || s == "Vec"@
        || s == "String"@
        || s == "Option"@
        || s == "Result"@
        || s == "Error"@
        || s == "Client"@
        || s == "Server"@
        || s == "BaseServer"@
        || s == "Default"@
}

/// Whether `chars` spell the name of a type that the generated code uses
/// itself.
pub fn is_reserved_chars(chars: &Vec<char>) -> (found: bool)
    ensures
        found == is_reserved(chars@),
{
    is_word(chars, "Box")
        || is_word(chars, "Vec")
        || is_word(chars, "String")
        || is_word(chars, "Option")
        || is_word(chars, "Result")
        || is_word(chars, "Error")
        || is_word(chars, "Client")
        || is_word(chars, "Server")
        || is_word(chars, "BaseServer")
        || is_word(chars, "Default")
}

/// A reserved name ends in a letter: none ends in `_` or in a digit.
pub proof fn lemma_reserved_ends_in_letter(s: Seq<char>)
    requires
        is_reserved(s),
    ensures
        s.len() > 0,
        ('a' <= s.last() && s.last() <= 'z') || ('A' <= s.last() && s.last() <= 'Z'),
{
    reveal_strlit("Box");
    reveal_strlit("Vec");
    reveal_strlit("String");
    reveal_strlit("Option");
    reveal_strlit("Result");
    reveal_strlit("Error");
    reveal_strlit("Client");
    reveal_strlit("Server");
    reveal_strlit("BaseServer");
    reveal_strlit("Default");
}

} // verus!
