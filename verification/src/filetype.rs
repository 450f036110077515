//! The type of a file, told from its name, and the highlighting rules that
//! go with it.

use vstd::prelude::*;
use vstd::string::StringExecFns;
use crate::highlight::{SyntaxRules, SyntaxView};
use crate::text::chars_of;

verus! {

/// `name` ends with `suffix`.
pub open spec fn has_suffix(name: Seq<char>, suffix: Seq<char>) -> bool {
    name.len() >= suffix.len() && name.subrange(name.len() - suffix.len(), name.len() as int)
        == suffix
}

/// The file name is that of a Rust source file.
pub open spec fn is_rust_name(filename: Option<Seq<char>>) -> bool {
    filename is Some && has_suffix(filename->0, ".rs"@)
}

/// The label of the type of a file of the given name.
pub open spec fn label_for(filename: Option<Seq<char>>) -> Seq<char> {
    if is_rust_name(filename) {
        "Rust"@
    } else {
        "No Type"@
    }
}

/// The keywords of Rust source text that are highlighted.
pub open spec fn rust_keywords() -> Seq<Seq<char>> {
    Seq::<Seq<char>>::empty().push("as"@).push("break"@).push("const"@).push("continue"@).push(
        "crate"@,
    ).push("else"@).push("enum"@).push("false"@).push("fn"@).push("for"@).push("if"@).push(
        "impl"@,
    ).push("in"@).push("let"@).push("loop"@).push("match"@).push("mod"@).push("move"@).push(
        "mut"@,
    ).push("pub"@).push("ref"@).push("return"@).push("self"@).push("Self"@).push("struct"@).push(
        "super"@,
    ).push("trait"@).push("true"@).push("type"@).push("use"@).push("where"@).push("while"@).push(
        "dyn"@,
    )
}

/// The rules for Rust source text.
pub open spec fn rust_syntax() -> SyntaxView {
    SyntaxView {
        numbers: true,
        strings: true,
        line_comments: true,
        block_comments: true,
        keywords: rust_keywords(),
    }
}

/// The rules for a file of no known type: nothing is highlighted but the
/// search term.
pub open spec fn plain_syntax() -> SyntaxView {
    SyntaxView {
        numbers: false,
        strings: false,
        line_comments: false,
        block_comments: false,
        keywords: Seq::empty(),
    }
}

/// The highlighting rules for a file of the given name.
pub open spec fn syntax_for(filename: Option<Seq<char>>) -> SyntaxView {
    if is_rust_name(filename) {
        rust_syntax()
    } else {
        plain_syntax()
    }
}

/// The type of a file: its label and its highlighting rules.
pub struct FileType {
    name: String,
    rules: SyntaxRules,
}

spec fn words_of(words: Vec<Vec<char>>) -> Seq<Seq<char>> {
    Seq::new(words@.len(), |k: int| words@[k]@)
}

fn add_word(words: &mut Vec<Vec<char>>, word: &str)
    ensures
        words_of(*final(words)) == words_of(*old(words)).push(word@),
{
    words.push(chars_of(word));
    assert(words_of(*words) =~= words_of(*old(words)).push(word@));
}

fn ends_with(name: &Vec<char>, suffix: &Vec<char>) -> (b: bool)
    ensures
        b == has_suffix(name@, suffix@),
{
    if name.len() < suffix.len() {
        return false;
    }
    let skip: usize = name.len() - suffix.len();
    let mut k: usize = 0;
    while k < suffix.len()
        invariant
            skip == name.len() - suffix.len(),
            k <= suffix.len(),
            forall|j: int| 0 <= j < k ==> name@[skip + j] == suffix@[j],
        decreases suffix.len() - k,
    {
        if name[skip + k] != suffix[k] {
            assert(name@.subrange(skip as int, name.len() as int)[k as int] == name@[skip + k]);
            return false;
        }
        k += 1;
    }
    assert(name@.subrange(skip as int, name.len() as int) =~= suffix@);
    true
}

impl FileType {
    /// This is the type of a file of the given name.
    pub closed spec fn fits(&self, filename: Option<Seq<char>>) -> bool {
        self.name@ == label_for(filename) && self.rules@ == syntax_for(filename)
    }

    /// The label of the type.
    pub closed spec fn label(&self) -> Seq<char> {
        self.name@
    }

    /// The highlighting rules of the type.
    pub closed spec fn syntax(&self) -> SyntaxView {
        self.rules@
    }

    /// What it means to fit a file name.
    pub proof fn lemma_fits(&self, filename: Option<Seq<char>>)
        ensures
            self.fits(filename) == (self.label() == label_for(filename) && self.syntax()
                == syntax_for(filename)),
    {
    }

    fn plain() -> (file_type: FileType)
        ensures
            file_type.name@ == "No Type"@,
            file_type.rules@ == plain_syntax(),
    {
        let rules = SyntaxRules {
            numbers: false,
            strings: false,
            line_comments: false,
            block_comments: false,
            keywords: Vec::new(),
        };
        assert(rules@.keywords =~= Seq::empty());
        FileType { name: String::from_str("No Type"), rules }
    }

    fn rust() -> (file_type: FileType)
        ensures
            file_type.name@ == "Rust"@,
            file_type.rules@ == rust_syntax(),
    {
        let mut keywords: Vec<Vec<char>> = Vec::new();
        assert(words_of(keywords) =~= Seq::empty());
        add_word(&mut keywords, "as");
        add_word(&mut keywords, "break");
        add_word(&mut keywords, "const");
        add_word(&mut keywords, "continue");
        add_word(&mut keywords, "crate");
        add_word(&mut keywords, "else");
        add_word(&mut keywords, "enum");
        add_word(&mut keywords, "false");
        add_word(&mut keywords, "fn");
        add_word(&mut keywords, "for");
        add_word(&mut keywords, "if");
        add_word(&mut keywords, "impl");
        add_word(&mut keywords, "in");
        add_word(&mut keywords, "let");
        add_word(&mut keywords, "loop");
        add_word(&mut keywords, "match");
        add_word(&mut keywords, "mod");
        add_word(&mut keywords, "move");
        add_word(&mut keywords, "mut");
        add_word(&mut keywords, "pub");
        add_word(&mut keywords, "ref");
        add_word(&mut keywords, "return");
        add_word(&mut keywords, "self");
        add_word(&mut keywords, "Self");
        add_word(&mut keywords, "struct");
        add_word(&mut keywords, "super");
        add_word(&mut keywords, "trait");
        add_word(&mut keywords, "true");
        add_word(&mut keywords, "type");
        add_word(&mut keywords, "use");
        add_word(&mut keywords, "where");
        add_word(&mut keywords, "while");
        add_word(&mut keywords, "dyn");
        let rules = SyntaxRules {
            numbers: true,
            strings: true,
            line_comments: true,
            block_comments: true,
            keywords,
        };
        assert(rules@.keywords == words_of(rules.keywords));
        FileType { name: String::from_str("Rust"), rules }
    }

    /// The type of a file of the given name; a file without a name is of
    /// no known type.
    pub fn for_name(filename: Option<&String>) -> (file_type: FileType)
        ensures
            file_type.fits(
                match filename {
                    Some(name) => Some(name@),
                    None => None,
                },
            ),
    {
        match filename {
            Some(name) => {
                let chars = chars_of(name.as_str());
                let suffix = chars_of(".rs");
                if ends_with(&chars, &suffix) {
                    FileType::rust()
                } else {
                    FileType::plain()
                }
            },
            None => FileType::plain(),
        }
    }

    /// The label of the type.
    pub fn name(&self) -> (label: String)
        ensures
            label@ == self.label(),
    {
        self.name.clone()
    }

    /// The highlighting rules of the type.
    pub fn rules(&self) -> (rules: &SyntaxRules)
        ensures
            rules@ == self.syntax(),
    {
        &self.rules
    }
}

} // verus!
