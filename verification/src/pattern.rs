//! Regex pattern literals (`/pattern/flags`) and their compilation.
use vstd::prelude::*;
use regex::Regex;
use crate::ast::Span;
use crate::text::{cat2, cat3, has_prefix, owned, str_starts_with};

verus! {

#[verifier::external_type_specification]
#[verifier::external_body]
pub struct ExRegex(regex::Regex);

/// What `regex::Regex::new` reports for a pattern apart from the size limit:
/// nothing when the pattern parses and builds, the display text of its error
/// when it does not. This depends on the pattern alone.
pub uninterp spec fn regex_syntax_error(pattern: Seq<char>) -> Option<Seq<char>>;

/// The display text of the error `regex::Regex::new` returns when the compiled
/// program would exceed the default size limit of 10 MiB.
pub open spec fn size_limit_message() -> Seq<char> {
    "Compiled regex exceeds size limit of 10485760 bytes."@
}

/// Whether the regex compiled from `pattern` finds a match somewhere in `hay`.
pub uninterp spec fn regex_is_match(pattern: Seq<char>, hay: Seq<char>) -> bool;

/// A regex together with the pattern it was compiled from.
///
/// Only [`regex_new`] builds one, so the engine always belongs to the pattern.
#[derive(Debug)]
pub struct CompiledRegex {
    pattern: String,
    regex: Regex,
}

impl View for CompiledRegex {
    type V = Seq<char>;

    /// The pattern the regex was compiled from.
    closed spec fn view(&self) -> Seq<char> {
        self.pattern@
    }
}

impl CompiledRegex {
    /// The pattern the regex was compiled from.
    pub fn as_str(&self) -> (r: &str)
        ensures
            r@ == self@,
    {
        self.pattern.as_str()
    }

    /// Whether the regex matches somewhere in `hay`.
    pub fn is_match(&self, hay: &str) -> (r: bool)
        ensures
            r == regex_is_match(self@, hay@),
    {
        engine_is_match(self, hay)
    }
}

/// `regex::Regex::is_match` on the engine of a compiled regex.
///
/// Whether a regex matches depends on its pattern and the haystack alone;
/// that result is named by [`regex_is_match`], which is not spelled out here.
#[verifier::external_body]
fn engine_is_match(re: &CompiledRegex, hay: &str) -> (r: bool)
    ensures
        r == regex_is_match(re@, hay@),
{
    re.regex.is_match(hay)
}

/// `regex::Regex::new`, with the error turned into its display text and the
/// compiled regex kept together with its pattern.
///
/// A pattern that fails to parse or build fails with the error named by
/// [`regex_syntax_error`], which is not spelled out here. Besides, the
/// compiled program is measured against a 10 MiB limit with a per-state size
/// that differs between 32-bit and 64-bit machines, so a large pattern may
/// fail with the size-limit error on one machine and compile on another:
/// which of the two happens is left unsaid.
#[verifier::external_body]
fn regex_new(pattern: &str) -> (r: Result<CompiledRegex, String>)
    ensures
        match r {
            Ok(c) => regex_syntax_error(pattern@) is None && c@ == pattern@,
            Err(e) => regex_syntax_error(pattern@) == Some(e@) || e@ == size_limit_message(),
        },
{
    match Regex::new(pattern) {
        Ok(re) => Ok(CompiledRegex { pattern: pattern.to_string(), regex: re }),
        Err(err) => Err(err.to_string()),
    }
}

/// Source-location diagnostic returned when regex compilation fails.
#[derive(Debug, Clone, PartialEq, Eq)]
pub struct RegexCompileError {
    pub message: String,
    pub line: u32,
    pub column: u32,
}

#[verifier::ext_equal]
pub struct RegexErrorView {
    pub message: Seq<char>,
    pub line: u32,
    pub column: u32,
}

impl View for RegexCompileError {
    type V = RegexErrorView;

    open spec fn view(&self) -> RegexErrorView {
        RegexErrorView { message: self.message@, line: self.line, column: self.column }
    }
}

/// Compiled regex pattern with optional inline flags (`/pattern/i`).
#[derive(Debug, Clone, PartialEq, Eq)]
pub struct RegexPattern {
    pub source: String,
    pub flags: String,
    pub span: Span,
}

/// The supported inline flags: case-insensitive, multi-line, dot-matches-newline.
pub open spec fn is_regex_flag(c: char) -> bool {
    c == 'i' || c == 'm' || c == 's'
}

/// The first flag letter that is not supported, if any.
pub open spec fn first_bad_flag(flags: Seq<char>) -> Option<char>
    decreases flags.len(),
{
    if flags.len() == 0 {
        None
    } else if !is_regex_flag(flags[0]) {
        Some(flags[0])
    } else {
        first_bad_flag(flags.drop_first())
    }
}

/// `p` with `prefix` put in front, when flag `f` is set and `p` does not start with it yet.
pub open spec fn with_flag(p: Seq<char>, flags: Seq<char>, f: char, prefix: Seq<char>) -> Seq<char> {
    if flags.contains(f) && !has_prefix(p, prefix) {
        prefix + p
    } else {
        p
    }
}

/// The pattern handed to the regex engine: the source with the inline
/// groups `(?i)`, `(?m)`, `(?s)` of the set flags put in front, in that order of application.
pub open spec fn effective_pattern_spec(source: Seq<char>, flags: Seq<char>) -> Seq<char> {
    with_flag(with_flag(with_flag(source, flags, 'i', "(?i)"@), flags, 'm', "(?m)"@), flags, 's', "(?s)"@)
}

pub open spec fn flag_error_message(c: char) -> Seq<char> {
    "Invalid regex flag '"@ + seq![c] + "'; supported flags are i, m, s. Suggestion: remove unsupported flags."@
}

pub open spec fn syntax_error_message(e: Seq<char>) -> Seq<char> {
    "Invalid regex syntax: "@ + e + ". Suggestion: verify delimiters and escape sequences."@
}

pub open spec fn error_at(message: Seq<char>, span: Span) -> RegexErrorView {
    RegexErrorView { message, line: span.line, column: span.column }
}

fn chars_contain(s: &str, c: char) -> (r: bool)
    ensures
        r == s@.contains(c),
{
    let n = s.unicode_len();
    let mut i: usize = 0;
    while i < n
        invariant
            i <= n,
            n == s@.len(),
            forall|k: int| 0 <= k < i ==> s@[k] != c,
        decreases n - i,
    {
        if s.get_char(i) == c {
            return true;
        }
        i = i + 1;
    }
    false
}

fn first_invalid_flag(flags: &str) -> (r: Option<char>)
    ensures
        r == first_bad_flag(flags@),
{
    let n = flags.unicode_len();
    let mut i: usize = 0;
    assert(flags@.skip(0) =~= flags@);
    while i < n
        invariant
            i <= n,
            n == flags@.len(),
            first_bad_flag(flags@) == first_bad_flag(flags@.skip(i as int)),
        decreases n - i,
    {
        let c = flags.get_char(i);
        assert(flags@.skip(i as int)[0] == c);
        if !(c == 'i' || c == 'm' || c == 's') {
            return Some(c);
        }
        assert(flags@.skip(i as int).drop_first() =~= flags@.skip(i + 1));
        i = i + 1;
    }
    assert(flags@.skip(n as int) =~= seq![]);
    None
}

fn prefix_flag(pattern: String, flags: &str, f: char, prefix: &str) -> (r: String)
    ensures
        r@ == with_flag(pattern@, flags@, f, prefix@),
{
    if chars_contain(flags, f) && !str_starts_with(pattern.as_str(), prefix) {
        cat2(prefix, pattern.as_str())
    } else {
        pattern
    }
}

fn char_text(c: char) -> (r: String)
    ensures
        r@ == seq![c],
{
    let mut s = String::new();
    crate::text::push_char(&mut s, c);
    assert(s@ =~= seq![c]);
    s
}

impl RegexPattern {
    /// The pattern handed to the regex engine, or the diagnostic for the
    /// first unsupported flag letter.
    pub fn effective_pattern(&self) -> (r: Result<String, RegexCompileError>)
        ensures
            match first_bad_flag(self.flags@) {
                Some(c) => r is Err && r->Err_0@ == error_at(flag_error_message(c), self.span),
                None => r is Ok && r->Ok_0@ == effective_pattern_spec(self.source@, self.flags@),
            },
    {
        match first_invalid_flag(self.flags.as_str()) {
            Some(c) => {
                let letter = char_text(c);
                let message = cat3(
                    "Invalid regex flag '",
                    letter.as_str(),
                    "'; supported flags are i, m, s. Suggestion: remove unsupported flags.",
                );
                Err(RegexCompileError { message, line: self.span.line, column: self.span.column })
            },
            None => {
                let pattern = owned(self.source.as_str());
                let pattern = prefix_flag(pattern, self.flags.as_str(), 'i', "(?i)");
                let pattern = prefix_flag(pattern, self.flags.as_str(), 'm', "(?m)");
                let pattern = prefix_flag(pattern, self.flags.as_str(), 's', "(?s)");
                Ok(pattern)
            },
        }
    }

    /// The outcome of compilation, from what the regex engine returned for
    /// the effective pattern: the compiled regex, or the syntax diagnostic at
    /// the literal's position.
    pub fn finish_compile(&self, compiled: Result<CompiledRegex, String>) -> (r: Result<
        CompiledRegex,
        RegexCompileError,
    >)
        ensures
            match compiled {
                Ok(re) => r == Ok::<CompiledRegex, RegexCompileError>(re),
                Err(e) => r is Err && r->Err_0@ == error_at(syntax_error_message(e@), self.span),
            },
    {
        match compiled {
            Ok(re) => Ok(re),
            Err(e) => {
                let message = cat3(
                    "Invalid regex syntax: ",
                    e.as_str(),
                    ". Suggestion: verify delimiters and escape sequences.",
                );
                Err(RegexCompileError { message, line: self.span.line, column: self.span.column })
            },
        }
    }

    /// Compile the regex pattern into a regex engine instance.
    ///
    /// Unsupported flag letters are rejected before the engine is asked;
    /// otherwise the effective pattern (the source with its inline flag
    /// groups) is compiled. A regex returned is that of the effective pattern;
    /// an engine error (a syntax error, or the size limit) is reported at the
    /// literal's position.
    pub fn compile(&self) -> (r: Result<CompiledRegex, RegexCompileError>)
        ensures
            match first_bad_flag(self.flags@) {
                Some(c) => r is Err && r->Err_0@ == error_at(flag_error_message(c), self.span),
                None => {
                    let p = effective_pattern_spec(self.source@, self.flags@);
                    &&& (r is Ok ==> regex_syntax_error(p) is None && r->Ok_0@ == p)
                    &&& (r is Err ==> (regex_syntax_error(p) matches Some(e) && r->Err_0@ == error_at(
                        syntax_error_message(e),
                        self.span,
                    )) || r->Err_0@ == error_at(syntax_error_message(size_limit_message()), self.span))
                    &&& (regex_syntax_error(p) is Some ==> r is Err)
                },
            },
    {
        match self.effective_pattern() {
            Err(e) => Err(e),
            Ok(pattern) => {
                let compiled = regex_new(pattern.as_str());
                self.finish_compile(compiled)
            },
        }
    }
}


/// A flag string is rejected exactly when it holds a letter other than `i`,
/// `m`, `s`, and the letter reported is one it holds.
pub proof fn law_flags_rejected_iff_unsupported(flags: Seq<char>)
    ensures
        first_bad_flag(flags) is None <==> forall|i: int| 0 <= i < flags.len() ==> is_regex_flag(#[trigger] flags[i]),
        first_bad_flag(flags) matches Some(c) ==> flags.contains(c) && !is_regex_flag(c),
    decreases flags.len(),
{
    if flags.len() > 0 {
        let rest = flags.drop_first();
        law_flags_rejected_iff_unsupported(rest);
        if is_regex_flag(flags[0]) {
            assert forall|i: int| 0 <= i < flags.len() && (forall|j: int| 0 <= j < rest.len() ==> is_regex_flag(
                #[trigger] rest[j],
            )) implies is_regex_flag(#[trigger] flags[i]) by {
                if i > 0 {
                    assert(flags[i] == rest[i - 1]);
                }
            }
            if first_bad_flag(rest) is Some {
                let c = first_bad_flag(rest)->0;
                let k = choose|k: int| 0 <= k < rest.len() && rest[k] == c;
                assert(flags[k + 1] == c);
                assert(!(forall|i: int| 0 <= i < flags.len() ==> is_regex_flag(#[trigger] flags[i]))) by {
                    assert(!is_regex_flag(flags[k + 1]));
                }
            } else {
                assert forall|i: int| 0 <= i < flags.len() implies is_regex_flag(#[trigger] flags[i]) by {
                    if i > 0 {
                        assert(flags[i] == rest[i - 1]);
                    }
                }
            }
        } else {
            assert(flags[0] == flags[0]);
        }
    }
}

} // verus!
