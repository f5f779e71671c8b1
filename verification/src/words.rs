//! How words are told apart: keywords, literals and identifiers.

use crate::text::{string_from_chars, text_is};
use crate::token::{Keyword, Word, WordView};
use vstd::prelude::*;

verus! {

/// The keyword that `text` spells, if it spells one.
pub open spec fn spec_keyword_of(text: Seq<char>) -> Option<Keyword> {
    if text == "await"@ {
        Some(Keyword::Await)
    } else if text == "break"@ {
        Some(Keyword::Break)
    } else if text == "case"@ {
        Some(Keyword::Case)
    } else if text == "catch"@ {
        Some(Keyword::Catch)
    } else if text == "continue"@ {
        Some(Keyword::Continue)
    } else if text == "debugger"@ {
        Some(Keyword::Debugger)
    } else if text == "default"@ {
        Some(Keyword::Default_)
    } else if text == "do"@ {
        Some(Keyword::Do)
    } else if text == "else"@ {
        Some(Keyword::Else)
    } else if text == "finally"@ {
        Some(Keyword::Finally)
    } else if text == "for"@ {
        Some(Keyword::For)
    } else if text == "function"@ {
        Some(Keyword::Function)
    } else if text == "if"@ {
        Some(Keyword::If)
    } else if text == "return"@ {
        Some(Keyword::Return)
    } else if text == "switch"@ {
        Some(Keyword::Switch)
    } else if text == "throw"@ {
        Some(Keyword::Throw)
    } else if text == "try"@ {
        Some(Keyword::Try)
    } else if text == "var"@ {
        Some(Keyword::Var)
    } else if text == "let"@ {
        Some(Keyword::Let)
    } else if text == "const"@ {
        Some(Keyword::Const)
    } else if text == "while"@ {
        Some(Keyword::While)
    } else if text == "with"@ {
        Some(Keyword::With)
    } else if text == "new"@ {
        Some(Keyword::New)
    } else if text == "this"@ {
        Some(Keyword::This)
    } else if text == "super"@ {
        Some(Keyword::Super)
    } else if text == "class"@ {
        Some(Keyword::Class)
    } else if text == "extends"@ {
        Some(Keyword::Extends)
    } else if text == "export"@ {
        Some(Keyword::Export)
    } else if text == "import"@ {
        Some(Keyword::Import)
    } else if text == "yield"@ {
        Some(Keyword::Yield)
    } else if text == "in"@ {
        Some(Keyword::In)
    } else if text == "instanceof"@ {
        Some(Keyword::InstanceOf)
    } else if text == "typeof"@ {
        Some(Keyword::TypeOf)
    } else if text == "void"@ {
        Some(Keyword::Void)
    } else if text == "delete"@ {
        Some(Keyword::Delete)
    } else {
        None
    }
}

/// The keyword that `text` spells, if it spells one.
pub fn keyword_of(text: &Vec<char>) -> (k: Option<Keyword>)
    ensures
        k == spec_keyword_of(text@),
{
    if text_is(text, "await") {
        Some(Keyword::Await)
    } else if text_is(text, "break") {
        Some(Keyword::Break)
    } else if text_is(text, "case") {
        Some(Keyword::Case)
    } else if text_is(text, "catch") {
        Some(Keyword::Catch)
    } else if text_is(text, "continue") {
        Some(Keyword::Continue)
    } else if text_is(text, "debugger") {
        Some(Keyword::Debugger)
    } else if text_is(text, "default") {
        Some(Keyword::Default_)
    } else if text_is(text, "do") {
        Some(Keyword::Do)
    } else if text_is(text, "else") {
        Some(Keyword::Else)
    } else if text_is(text, "finally") {
        Some(Keyword::Finally)
    } else if text_is(text, "for") {
        Some(Keyword::For)
    } else if text_is(text, "function") {
        Some(Keyword::Function)
    } else if text_is(text, "if") {
        Some(Keyword::If)
    } else if text_is(text, "return") {
        Some(Keyword::Return)
    } else if text_is(text, "switch") {
        Some(Keyword::Switch)
    } else if text_is(text, "throw") {
        Some(Keyword::Throw)
    } else if text_is(text, "try") {
        Some(Keyword::Try)
    } else if text_is(text, "var") {
        Some(Keyword::Var)
    } else if text_is(text, "let") {
        Some(Keyword::Let)
    } else if text_is(text, "const") {
        Some(Keyword::Const)
    } else if text_is(text, "while") {
        Some(Keyword::While)
    } else if text_is(text, "with") {
        Some(Keyword::With)
    } else if text_is(text, "new") {
        Some(Keyword::New)
    } else if text_is(text, "this") {
        Some(Keyword::This)
    } else if text_is(text, "super") {
        Some(Keyword::Super)
    } else if text_is(text, "class") {
        Some(Keyword::Class)
    } else if text_is(text, "extends") {
        Some(Keyword::Extends)
    } else if text_is(text, "export") {
        Some(Keyword::Export)
    } else if text_is(text, "import") {
        Some(Keyword::Import)
    } else if text_is(text, "yield") {
        Some(Keyword::Yield)
    } else if text_is(text, "in") {
        Some(Keyword::In)
    } else if text_is(text, "instanceof") {
        Some(Keyword::InstanceOf)
    } else if text_is(text, "typeof") {
        Some(Keyword::TypeOf)
    } else if text_is(text, "void") {
        Some(Keyword::Void)
    } else if text_is(text, "delete") {
        Some(Keyword::Delete)
    } else {
        None
    }
}

/// The word that `text` spells: a keyword, `null`, `true`, `false`, or else
/// an identifier with that text.
pub open spec fn spec_word_of(text: Seq<char>) -> WordView {
    match spec_keyword_of(text) {
        Some(k) => WordView::Keyword(k),
        None => if text == "null"@ {
            WordView::Null
        } else if text == "true"@ {
            WordView::True
        } else if text == "false"@ {
            WordView::False
        } else {
            WordView::Ident(text)
        },
    }
}

/// The word that `text` spells.
pub fn word_of(text: &Vec<char>) -> (w: Word)
    ensures
        w@ == spec_word_of(text@),
{
    match keyword_of(text) {
        Some(k) => Word::Keyword(k),
        None => if text_is(text, "null") {
            Word::Null
        } else if text_is(text, "true") {
            Word::True
        } else if text_is(text, "false") {
            Word::False
        } else {
            Word::Ident(string_from_chars(text))
        },
    }
}

impl Keyword {
    /// Whether an expression can start directly after this keyword.
    pub open spec fn spec_before_expr(self) -> bool {
        match self {
            Keyword::Await => true,
            Keyword::Case => true,
            Keyword::Default_ => true,
            Keyword::Do => true,
            Keyword::Else => true,
            Keyword::Return => true,
            Keyword::Throw => true,
            Keyword::New => true,
            Keyword::Extends => true,
            Keyword::Yield => true,
            Keyword::In => true,
            Keyword::InstanceOf => true,
            Keyword::TypeOf => true,
            Keyword::Void => true,
            Keyword::Delete => true,
            _ => false,
        }
    }

    /// Whether an expression can start directly after this keyword.
    #[verifier::when_used_as_spec(spec_before_expr)]
    pub fn before_expr(self) -> (b: bool)
        ensures
            b == self.spec_before_expr(),
    {
        match self {
            Keyword::Await => true,
            Keyword::Case => true,
            Keyword::Default_ => true,
            Keyword::Do => true,
            Keyword::Else => true,
            Keyword::Return => true,
            Keyword::Throw => true,
            Keyword::New => true,
            Keyword::Extends => true,
            Keyword::Yield => true,
            Keyword::In => true,
            Keyword::InstanceOf => true,
            Keyword::TypeOf => true,
            Keyword::Void => true,
            Keyword::Delete => true,
            _ => false,
        }
    }
}

} // verus!

verus! {

impl Keyword {
    /// How the keyword is spelled.
    pub open spec fn text(self) -> Seq<char> {
        match self {
            Keyword::Await => "await"@,
            Keyword::Break => "break"@,
            Keyword::Case => "case"@,
            Keyword::Catch => "catch"@,
            Keyword::Continue => "continue"@,
            Keyword::Debugger => "debugger"@,
            Keyword::Default_ => "default"@,
            Keyword::Do => "do"@,
            Keyword::Else => "else"@,
            Keyword::Finally => "finally"@,
            Keyword::For => "for"@,
            Keyword::Function => "function"@,
            Keyword::If => "if"@,
            Keyword::Return => "return"@,
            Keyword::Switch => "switch"@,
            Keyword::Throw => "throw"@,
            Keyword::Try => "try"@,
            Keyword::Var => "var"@,
            Keyword::Let => "let"@,
            Keyword::Const => "const"@,
            Keyword::While => "while"@,
            Keyword::With => "with"@,
            Keyword::New => "new"@,
            Keyword::This => "this"@,
            Keyword::Super => "super"@,
            Keyword::Class => "class"@,
            Keyword::Extends => "extends"@,
            Keyword::Export => "export"@,
            Keyword::Import => "import"@,
            Keyword::Yield => "yield"@,
            Keyword::In => "in"@,
            Keyword::InstanceOf => "instanceof"@,
            Keyword::TypeOf => "typeof"@,
            Keyword::Void => "void"@,
            Keyword::Delete => "delete"@,
        }
    }

    /// How the keyword is spelled.
    pub fn as_str(self) -> (s: &'static str)
        ensures
            s@ == self.text(),
    {
        match self {
            Keyword::Await => "await",
            Keyword::Break => "break",
            Keyword::Case => "case",
            Keyword::Catch => "catch",
            Keyword::Continue => "continue",
            Keyword::Debugger => "debugger",
            Keyword::Default_ => "default",
            Keyword::Do => "do",
            Keyword::Else => "else",
            Keyword::Finally => "finally",
            Keyword::For => "for",
            Keyword::Function => "function",
            Keyword::If => "if",
            Keyword::Return => "return",
            Keyword::Switch => "switch",
            Keyword::Throw => "throw",
            Keyword::Try => "try",
            Keyword::Var => "var",
            Keyword::Let => "let",
            Keyword::Const => "const",
            Keyword::While => "while",
            Keyword::With => "with",
            Keyword::New => "new",
            Keyword::This => "this",
            Keyword::Super => "super",
            Keyword::Class => "class",
            Keyword::Extends => "extends",
            Keyword::Export => "export",
            Keyword::Import => "import",
            Keyword::Yield => "yield",
            Keyword::In => "in",
            Keyword::InstanceOf => "instanceof",
            Keyword::TypeOf => "typeof",
            Keyword::Void => "void",
            Keyword::Delete => "delete",
        }
    }
}

/// How a word is spelled.
pub open spec fn word_text(w: WordView) -> Seq<char> {
    match w {
        WordView::Keyword(k) => k.text(),
        WordView::Null => "null"@,
        WordView::True => "true"@,
        WordView::False => "false"@,
        WordView::Ident(s) => s,
    }
}

/// How a word is spelled.
pub fn word_string(w: &Word) -> (s: String)
    ensures
        s@ == word_text(w@),
{
    match w {
        Word::Keyword(k) => k.as_str().to_owned(),
        Word::Null => "null".to_owned(),
        Word::True => "true".to_owned(),
        Word::False => "false".to_owned(),
        Word::Ident(s) => s.clone(),
    }
}

/// Whether `text` is always reserved: a keyword that is reserved whatever
/// the rules, one of `null`, `true`, `false`, or `enum`.
pub open spec fn spec_is_always_reserved(text: Seq<char>) -> bool {
    text == "null"@
        || text == "true"@
        || text == "false"@
        || text == "break"@
        || text == "case"@
        || text == "catch"@
        || text == "continue"@
        || text == "debugger"@
        || text == "default"@
        || text == "do"@
        || text == "export"@
        || text == "else"@
        || text == "finally"@
        || text == "for"@
        || text == "function"@
        || text == "if"@
        || text == "return"@
        || text == "switch"@
        || text == "throw"@
        || text == "try"@
        || text == "var"@
        || text == "const"@
        || text == "while"@
        || text == "with"@
        || text == "new"@
        || text == "this"@
        || text == "super"@
        || text == "class"@
        || text == "extends"@
        || text == "import"@
        || text == "in"@
        || text == "instanceof"@
        || text == "typeof"@
        || text == "void"@
        || text == "delete"@
        || text == "enum"@
}

/// Whether `text` is always reserved.
pub fn is_always_reserved(text: &Vec<char>) -> (b: bool)
    ensures
        b == spec_is_always_reserved(text@),
{
    text_is(text, "null")
        || text_is(text, "true")
        || text_is(text, "false")
        || text_is(text, "break")
        || text_is(text, "case")
        || text_is(text, "catch")
        || text_is(text, "continue")
        || text_is(text, "debugger")
        || text_is(text, "default")
        || text_is(text, "do")
        || text_is(text, "export")
        || text_is(text, "else")
        || text_is(text, "finally")
        || text_is(text, "for")
        || text_is(text, "function")
        || text_is(text, "if")
        || text_is(text, "return")
        || text_is(text, "switch")
        || text_is(text, "throw")
        || text_is(text, "try")
        || text_is(text, "var")
        || text_is(text, "const")
        || text_is(text, "while")
        || text_is(text, "with")
        || text_is(text, "new")
        || text_is(text, "this")
        || text_is(text, "super")
        || text_is(text, "class")
        || text_is(text, "extends")
        || text_is(text, "import")
        || text_is(text, "in")
        || text_is(text, "instanceof")
        || text_is(text, "typeof")
        || text_is(text, "void")
        || text_is(text, "delete")
        || text_is(text, "enum")
}

/// Whether `text` is reserved under strict rules only, apart from `let`
/// and `yield`.
pub open spec fn spec_is_strict_reserved(text: Seq<char>) -> bool {
    text == "implements"@
        || text == "package"@
        || text == "protected"@
        || text == "interface"@
        || text == "private"@
        || text == "public"@
}

/// Whether `text` is reserved under strict rules only, apart from `let`
/// and `yield`.
pub fn is_strict_reserved(text: &Vec<char>) -> (b: bool)
    ensures
        b == spec_is_strict_reserved(text@),
{
    text_is(text, "implements")
        || text_is(text, "package")
        || text_is(text, "protected")
        || text_is(text, "interface")
        || text_is(text, "private")
        || text_is(text, "public")
}

/// Whether `text` is reserved, so that it cannot name a binding.
///
/// `let` is reserved under strict rules; `await` in a module and in an
/// asynchronous function; `yield` under strict rules and in a generator.
/// Of the other words some are reserved always and some under strict
/// rules only.
pub open spec fn spec_is_reserved_word(
    text: Seq<char>,
    strict: bool,
    module: bool,
    in_generator: bool,
    in_async: bool,
) -> bool {
    if text == "let"@ {
        strict
    } else if text == "await"@ {
        in_async || module
    } else if text == "yield"@ {
        in_generator || strict
    } else if spec_is_always_reserved(text) {
        true
    } else if spec_is_strict_reserved(text) {
        strict
    } else {
        false
    }
}

/// Whether `text` is reserved, so that it cannot name a binding.
pub fn is_reserved_word(
    text: &Vec<char>,
    strict: bool,
    module: bool,
    in_generator: bool,
    in_async: bool,
) -> (b: bool)
    ensures
        b == spec_is_reserved_word(text@, strict, module, in_generator, in_async),
{
    if text_is(text, "let") {
        strict
    } else if text_is(text, "await") {
        in_async || module
    } else if text_is(text, "yield") {
        in_generator || strict
    } else if is_always_reserved(text) {
        true
    } else if is_strict_reserved(text) {
        strict
    } else {
        false
    }
}

} // verus!
