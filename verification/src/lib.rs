//! A DSL parsing library for human readable text documents.

use std::sync::Arc;
use vstd::prelude::*;
use vstd::string::StringSliceAdditionalSpecFns;
use vstd::string::StringExecFns;
use crate::meta_rules::{RuleV, rules_view, lemma_rules_view, clone_rules, parse_doc, parse_doc_ends};
use crate::bootstrap::rules::bootstrap_syntax;
use crate::bootstrap::reading::convert_spec;
use crate::parse_error::{ParseErrorV, err_view};
use crate::parse_error_handler::{ParseErrorHandler, error_report, lines_of};
use crate::tokenizer::toks_view;

pub mod range;
pub mod read_token;
pub mod parse_error;
pub mod tokenizer;
pub mod meta_rules;
pub mod optimize;
pub mod text;
pub mod parse_error_handler;
pub mod json;
pub mod ty;
pub mod bootstrap;

pub use crate::range::Range;
pub use crate::read_token::ReadToken;
pub use crate::parse_error::ParseError;
pub use crate::parse_error_handler::stderr_unwrap;
pub use crate::meta_rules::{parse, Rule};

verus! {

/// The type of debug id used to track down errors in rules.
pub type DebugId = usize;

/// Stores syntax.
#[derive(Debug, PartialEq)]
pub struct Syntax {
    /// Rule data.
    pub rules: Vec<Rule>,
    /// Name of rules.
    pub names: Vec<Arc<String>>,
}

/// The mathematical view of a syntax.
pub struct SyntaxV {
    /// The rules.
    pub rules: Seq<RuleV>,
    /// The names of the rules.
    pub names: Seq<Seq<char>>,
}

/// The views of a list of names.
pub open spec fn names_view(s: Seq<Arc<String>>) -> Seq<Seq<char>> {
    s.map_values(|n: Arc<String>| n@)
}

impl View for Syntax {
    type V = SyntaxV;

    open spec fn view(&self) -> SyntaxV {
        SyntaxV { rules: rules_view(self.rules@), names: names_view(self.names@) }
    }
}

impl Syntax {
    /// Creates a new syntax.
    pub fn new() -> (s: Syntax)
        ensures
            s@.rules.len() == 0,
            s@.names.len() == 0,
    {
        proof {
            lemma_rules_view(Seq::<Rule>::empty());
        }
        Syntax { rules: Vec::new(), names: Vec::new() }
    }

    /// Adds a new rule.
    pub fn push(&mut self, name: Arc<String>, rule: Rule)
        ensures
            final(self)@.rules == old(self)@.rules.push(rule@),
            final(self)@.names == old(self)@.names.push(name@),
    {
        let ghost old_rules = self.rules@;
        self.rules.push(rule);
        self.names.push(name);
        proof {
            lemma_rules_view(old_rules);
            lemma_rules_view(self.rules@);
            assert(rules_view(self.rules@) =~= rules_view(old_rules).push(rule@));
            assert(names_view(self.names@) =~= names_view(old(self).names@).push(name@));
        }
    }
}

impl Clone for Syntax {
    fn clone(&self) -> (s: Self)
        ensures
            s@ == self@,
    {
        let mut names: Vec<Arc<String>> = Vec::new();
        let mut i: usize = 0;
        while i < self.names.len()
            invariant
                i <= self.names.len(),
                names@.len() == i,
                forall|j: int| 0 <= j < i ==> #[trigger] names@[j] == self.names@[j],
            decreases self.names.len() - i,
        {
            names.push(read_token::share(&self.names[i]));
            i = i + 1;
        }
        proof {
            assert(names@ =~= self.names@);
        }
        Syntax { rules: clone_rules(&self.rules), names }
    }
}

/// Represents meta data.
#[derive(PartialEq, Clone, Debug)]
pub enum MetaData {
    /// Starts node.
    StartNode(Arc<String>),
    /// Ends node.
    EndNode(Arc<String>),
    /// Sets bool property.
    Bool(Arc<String>, bool),
    /// Sets number property; the number is kept as written in the source,
    /// and `read_token`'s number parsing reads it as an `f64`.
    F64(Arc<String>, Arc<String>),
    /// Sets string property.
    String(Arc<String>, Arc<String>),
}

/// The mathematical view of meta data: names and texts as character sequences.
pub enum MetaDataV {
    /// Starts node.
    StartNode(Seq<char>),
    /// Ends node.
    EndNode(Seq<char>),
    /// Sets bool property.
    Bool(Seq<char>, bool),
    /// Sets number property, with the number as written.
    F64(Seq<char>, Seq<char>),
    /// Sets string property.
    String(Seq<char>, Seq<char>),
}

impl View for MetaData {
    type V = MetaDataV;

    open spec fn view(&self) -> MetaDataV {
        match self {
            MetaData::StartNode(n) => MetaDataV::StartNode(n@),
            MetaData::EndNode(n) => MetaDataV::EndNode(n@),
            MetaData::Bool(n, b) => MetaDataV::Bool(n@, *b),
            MetaData::F64(n, v) => MetaDataV::F64(n@, v@),
            MetaData::String(n, v) => MetaDataV::String(n@, v@),
        }
    }
}


/// Whether reading rules written in the meta language ends: parsing the
/// text with the rules of the meta language, and converting what it read.
pub open spec fn syntax_ends(text: Seq<u8>) -> bool {
    let (res, tokens) = parse_doc(bootstrap_syntax().rules, text, Seq::empty());
    &&& parse_doc_ends(bootstrap_syntax().rules, text, Seq::empty())
    &&& res is Ok ==> convert_spec(tokens, Seq::empty()) is Some
}

/// The syntax that rules written in the meta language describe, or the
/// error where they cannot be read.
pub open spec fn syntax_of(text: Seq<u8>) -> Result<SyntaxV, Range<ParseErrorV>> {
    let (res, tokens) = parse_doc(bootstrap_syntax().rules, text, Seq::empty());
    match res {
        Err(e) => Err(e),
        Ok(()) => match (convert_spec(tokens, Seq::empty())->0).0 {
            Ok(s) => Ok(s),
            Err(()) => Err(Range { offset: 0, length: 0, data: ParseErrorV::Conversion("Bootstrapping rules are incorrect"@) }),
        },
    }
}

/// The view of a result that is a syntax or an error.
pub open spec fn syntax_res_view(r: Result<Syntax, Range<ParseError>>) -> Result<SyntaxV, Range<ParseErrorV>> {
    match r {
        Ok(s) => Ok(s@),
        Err(e) => Err(err_view(e)),
    }
}

/// Reads syntax from text.
pub fn syntax(rules: &str) -> (res: Result<Syntax, Range<ParseError>>)
    requires
        syntax_ends(rules.spec_bytes()),
    ensures
        syntax_res_view(res) == syntax_of(rules.spec_bytes()),
{
    let mut tokens: Vec<Range<MetaData>> = Vec::new();
    let meta = bootstrap::rules();
    proof {
        assert(toks_view(tokens@) =~= Seq::<Range<MetaDataV>>::empty());
    }
    match parse(&meta, rules, &mut tokens) {
        Ok(()) => {},
        Err(e) => {
            return Err(e);
        },
    }
    let mut ignored_meta_data: Vec<Range> = Vec::new();
    match bootstrap::convert(tokens.as_slice(), &mut ignored_meta_data) {
        Ok(res) => Ok(res),
        Err(()) => Err(Range::empty(0).wrap(ParseError::Conversion(String::from_str("Bootstrapping rules are incorrect")))),
    }
}

/// The error report of a syntax error, or the syntax.
pub open spec fn errstr_of<T>(r: Result<T, Range<ParseErrorV>>, text: Seq<char>) -> Result<T, Seq<char>> {
    match r {
        Ok(s) => Ok(s),
        Err(e) => Err(error_report(lines_of(text, 0), e)),
    }
}

/// Whether an error, if there is one, ends within the range of `usize`.
pub open spec fn err_in_range<T>(r: Result<T, Range<ParseErrorV>>) -> bool {
    match r {
        Ok(_) => true,
        Err(e) => e.offset + e.length <= usize::MAX,
    }
}

/// Reads syntax from text, reporting an error as a message that shows
/// where in the text it is.
pub fn syntax_errstr(rules: &str) -> (res: Result<Syntax, String>)
    requires
        syntax_ends(rules.spec_bytes()),
        rules@.len() < usize::MAX,
        err_in_range(syntax_of(rules.spec_bytes())),
    ensures
        match res {
            Ok(s) => syntax_of(rules.spec_bytes()) == Ok::<SyntaxV, Range<ParseErrorV>>(s@),
            Err(m) => errstr_of(syntax_of(rules.spec_bytes()), rules@) == Err::<SyntaxV, Seq<char>>(m@),
        },
{
    match syntax(rules) {
        Ok(s) => Ok(s),
        Err(range_err) => {
            let handler = ParseErrorHandler::new(rules);
            Err(handler.write(range_err))
        },
    }
}

/// Parses text with rules, reporting an error as a message that shows
/// where in the text it is.
pub fn parse_errstr(rules: &Syntax, text: &str, tokens: &mut Vec<Range<MetaData>>) -> (res: Result<(), String>)
    requires
        parse_doc_ends(rules@.rules, text.spec_bytes(), toks_view(old(tokens)@)),
        text@.len() < usize::MAX,
        err_in_range(parse_doc(rules@.rules, text.spec_bytes(), toks_view(old(tokens)@)).0),
    ensures
        toks_view(final(tokens)@) == parse_doc(rules@.rules, text.spec_bytes(), toks_view(old(tokens)@)).1,
        match res {
            Ok(()) => parse_doc(rules@.rules, text.spec_bytes(), toks_view(old(tokens)@)).0 is Ok,
            Err(m) => errstr_of(parse_doc(rules@.rules, text.spec_bytes(), toks_view(old(tokens)@)).0, text@) == Err::<(), Seq<char>>(m@),
        },
{
    match parse(rules, text, tokens) {
        Ok(()) => Ok(()),
        Err(range_err) => {
            let handler = ParseErrorHandler::new(text);
            Err(handler.write(range_err))
        },
    }
}

} // verus!
