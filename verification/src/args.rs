//! The grammar of the attribute's arguments: `Type [, "name"] [, skip_teardown] [,]`.
use vstd::prelude::*;

use crate::syntax::{rust_type_error, type_error};

verus! {

/// Why the attribute's arguments were refused.
#[derive(Debug, PartialEq, Eq)]
pub enum ArgsError {
    /// No context type was given.
    MissingContextType,
    /// What stands in the place of the context type is no Rust type; `syn`'s
    /// message says why.
    InvalidContextType(String),
    /// The context's name is not a string literal that holds an identifier.
    InvalidContextName,
}

/// The mathematical value of [`ArgsError`].
pub enum ArgsErrorView {
    MissingContextType,
    InvalidContextType(Seq<char>),
    InvalidContextName,
}

impl View for ArgsError {
    type V = ArgsErrorView;

    open spec fn view(&self) -> ArgsErrorView {
        match self {
            ArgsError::MissingContextType => ArgsErrorView::MissingContextType,
            ArgsError::InvalidContextType(m) => ArgsErrorView::InvalidContextType(m@),
            ArgsError::InvalidContextName => ArgsErrorView::InvalidContextName,
        }
    }
}

/// The text of the compile error that reports `e`.
pub open spec fn args_error_message(e: ArgsErrorView) -> Seq<char> {
    match e {
        ArgsErrorView::MissingContextType => "expected a context type"@,
        ArgsErrorView::InvalidContextType(m) => m,
        ArgsErrorView::InvalidContextName => "expected the context's name as a string literal that holds an identifier other than a keyword"@,
    }
}

impl ArgsError {
    /// The text of the compile error that reports this error.
    pub fn message(&self) -> (r: String)
        ensures
            r@ == args_error_message(self@),
    {
        match self {
            ArgsError::MissingContextType => String::from_str("expected a context type"),
            ArgsError::InvalidContextType(m) => m.clone(),
            ArgsError::InvalidContextName => String::from_str(
                "expected the context's name as a string literal that holds an identifier other than a keyword",
            ),
        }
    }
}

/// The attribute's arguments.
pub struct ContextArgs {
    /// The text of the context type, as written.
    pub context_type: String,
    /// The name under which the test body reaches the context.
    pub context_name: String,
    /// Whether teardown is left out.
    pub skip_teardown: bool,
}

/// The mathematical value of [`ContextArgs`].
pub struct ContextArgsView {
    pub context_type: Seq<char>,
    pub context_name: Seq<char>,
    pub skip_teardown: bool,
}

impl View for ContextArgs {
    type V = ContextArgsView;

    open spec fn view(&self) -> ContextArgsView {
        ContextArgsView {
            context_type: self.context_type@,
            context_name: self.context_name@,
            skip_teardown: self.skip_teardown,
        }
    }
}

/// The value of a parse result.
pub open spec fn args_result_view(r: Result<ContextArgs, ArgsError>) -> Result<
    ContextArgsView,
    ArgsErrorView,
> {
    match r {
        Ok(a) => Ok(a@),
        Err(e) => Err(e@),
    }
}

/// Whitespace between tokens.
pub open spec fn is_space(c: char) -> bool {
    c == ' ' || c == '\t' || c == '\n' || c == '\r'
}

/// `s` without its trailing whitespace.
pub open spec fn trim_end(s: Seq<char>) -> Seq<char>
    decreases s.len(),
{
    if s.len() > 0 && is_space(s.last()) {
        trim_end(s.drop_last())
    } else {
        s
    }
}

/// `s` without its leading whitespace.
pub open spec fn trim_start(s: Seq<char>) -> Seq<char>
    decreases s.len(),
{
    if s.len() > 0 && is_space(s[0]) {
        trim_start(s.drop_first())
    } else {
        s
    }
}

/// Whether `s` ends with `suffix`.
pub open spec fn ends_with(s: Seq<char>, suffix: Seq<char>) -> bool {
    suffix.len() <= s.len() && s.subrange(s.len() - suffix.len(), s.len() as int) == suffix
}

/// Where `s`, trailing whitespace aside, ends with a comma: what stands
/// before that comma, trailing whitespace aside.
pub open spec fn before_comma(s: Seq<char>) -> Option<Seq<char>> {
    let t = trim_end(s);
    if t.len() > 0 && t.last() == ',' {
        Some(trim_end(t.drop_last()))
    } else {
        None
    }
}

/// The position of the last `"` in `s`.
pub open spec fn last_quote(s: Seq<char>) -> Option<int>
    decreases s.len(),
{
    if s.len() == 0 {
        None
    } else if s.last() == '"' {
        Some(s.len() - 1)
    } else {
        last_quote(s.drop_last())
    }
}

/// A character that may begin an identifier.
pub open spec fn is_ident_start(c: char) -> bool {
    ('a' <= c && c <= 'z') || ('A' <= c && c <= 'Z') || c == '_'
}

/// A character that may continue an identifier.
pub open spec fn is_ident_continue(c: char) -> bool {
    is_ident_start(c) || ('0' <= c && c <= '9')
}

/// A keyword of Rust, strict or reserved.
pub open spec fn is_keyword(s: Seq<char>) -> bool {
    s == "abstract"@
        || s == "as"@
        || s == "async"@
        || s == "await"@
        || s == "become"@
        || s == "box"@
        || s == "break"@
        || s == "const"@
        || s == "continue"@
        || s == "crate"@
        || s == "do"@
        || s == "dyn"@
        || s == "else"@
        || s == "enum"@
        || s == "extern"@
        || s == "false"@
        || s == "final"@
        || s == "fn"@
        || s == "for"@
        || s == "if"@
        || s == "impl"@
        || s == "in"@
        || s == "let"@
        || s == "loop"@
        || s == "macro"@
        || s == "match"@
        || s == "mod"@
        || s == "move"@
        || s == "mut"@
        || s == "override"@
        || s == "priv"@
        || s == "pub"@
        || s == "ref"@
        || s == "return"@
        || s == "Self"@
        || s == "self"@
        || s == "static"@
        || s == "struct"@
        || s == "super"@
        || s == "trait"@
        || s == "true"@
        || s == "try"@
        || s == "type"@
        || s == "typeof"@
        || s == "unsafe"@
        || s == "unsized"@
        || s == "use"@
        || s == "virtual"@
        || s == "where"@
        || s == "while"@
        || s == "yield"@
}

/// An identifier that can name a variable: ASCII letters, digits and
/// underscores, not starting with a digit, not `_` alone, and no keyword.
pub open spec fn is_ident(s: Seq<char>) -> bool {
    &&& s.len() > 0
    &&& is_ident_start(s[0])
    &&& forall|i: int| 1 <= i < s.len() ==> is_ident_continue(#[trigger] s[i])
    &&& !(s.len() == 1 && s[0] == '_')
    &&& !is_keyword(s)
}

/// Names that the wrapper body cannot give the context: the variable that
/// holds the body's caught outcome, and the prelude's variants, which a `let`
/// cannot bind.
pub open spec fn is_reserved_name(s: Seq<char>) -> bool {
    s == "wrapped_result"@ || s == "Ok"@ || s == "Err"@ || s == "Some"@ || s == "None"@
}

/// A name that the context can have: an identifier that is not reserved.
pub open spec fn is_context_name(s: Seq<char>) -> bool {
    is_ident(s) && !is_reserved_name(s)
}

/// The name that the context has where the arguments give none.
pub open spec fn default_context_name() -> Seq<char> {
    "ctx"@
}

/// The arguments with a trailing `, skip_teardown` taken off, and whether it was there.
pub open spec fn strip_skip_teardown(s: Seq<char>) -> (Seq<char>, bool) {
    if ends_with(s, "skip_teardown"@) {
        match before_comma(s.take(s.len() - "skip_teardown"@.len())) {
            Some(p) => (p, true),
            None => (s, false),
        }
    } else {
        (s, false)
    }
}

/// The arguments with a trailing `, "name"` taken off, and the name; the
/// default name where no string literal ends the arguments.
pub open spec fn strip_context_name(s: Seq<char>) -> Result<(Seq<char>, Seq<char>), ArgsErrorView> {
    if s.len() > 0 && s.last() == '"' {
        match last_quote(s.drop_last()) {
            None => Err(ArgsErrorView::InvalidContextName),
            Some(q) => {
                let name = s.subrange(q + 1, s.len() - 1);
                match before_comma(s.take(q)) {
                    Some(p) => if is_context_name(name) {
                        Ok((p, name))
                    } else {
                        Err(ArgsErrorView::InvalidContextName)
                    },
                    None => Err(ArgsErrorView::InvalidContextName),
                }
            },
        }
    } else {
        Ok((s, default_context_name()))
    }
}

/// The grammar of the arguments, the context type taken as it is written:
/// `Type [, "name"] [, skip_teardown] [,]`, with whitespace between the parts.
pub open spec fn split_args(text: Seq<char>) -> Result<ContextArgsView, ArgsErrorView> {
    let t1 = match before_comma(text) {
        Some(p) => p,
        None => trim_end(text),
    };
    let (t2, skip) = strip_skip_teardown(t1);
    match strip_context_name(t2) {
        Err(e) => Err(e),
        Ok((t3, name)) => {
            let ty = trim_start(t3);
            if ty.len() == 0 {
                Err(ArgsErrorView::MissingContextType)
            } else {
                Ok(ContextArgsView { context_type: ty, context_name: name, skip_teardown: skip })
            }
        },
    }
}

/// The arguments, where the context type is a Rust type as `syn` reads it;
/// else `syn`'s message.
pub open spec fn parse_args(text: Seq<char>) -> Result<ContextArgsView, ArgsErrorView> {
    match split_args(text) {
        Ok(a) => match rust_type_error(a.context_type) {
            None => Ok(a),
            Some(m) => Err(ArgsErrorView::InvalidContextType(m)),
        },
        Err(e) => Err(e),
    }
}

fn is_space_char(c: char) -> (r: bool)
    ensures
        r == is_space(c),
{
    c == ' ' || c == '\t' || c == '\n' || c == '\r'
}

/// The end of `text[..end]` without its trailing whitespace.
fn trim_end_at(text: &str, end: usize) -> (r: usize)
    requires
        end <= text@.len(),
    ensures
        r <= end,
        trim_end(text@.take(end as int)) == text@.take(r as int),
{
    let ghost s = text@;
    let mut e = end;
    while e > 0 && is_space_char(text.get_char(e - 1))
        invariant
            e <= end <= s.len(),
            s == text@,
            trim_end(s.take(end as int)) == trim_end(s.take(e as int)),
        decreases e,
    {
        assert(s.take(e as int).drop_last() =~= s.take(e - 1));
        e = e - 1;
    }
    e
}

/// The start of `text[start..end]` without its leading whitespace.
fn trim_start_at(text: &str, start: usize, end: usize) -> (r: usize)
    requires
        start <= end <= text@.len(),
    ensures
        start <= r <= end,
        trim_start(text@.subrange(start as int, end as int)) == text@.subrange(r as int, end as int),
{
    let ghost s = text@;
    let mut b = start;
    while b < end && is_space_char(text.get_char(b))
        invariant
            start <= b <= end <= s.len(),
            s == text@,
            trim_start(s.subrange(start as int, end as int)) == trim_start(
                s.subrange(b as int, end as int),
            ),
        decreases end - b,
    {
        assert(s.subrange(b as int, end as int).drop_first() =~= s.subrange(b + 1, end as int));
        b = b + 1;
    }
    b
}

/// [`before_comma`] of `text[..end]`, as the end of what stands before the comma.
fn before_comma_at(text: &str, end: usize) -> (r: Option<usize>)
    requires
        end <= text@.len(),
    ensures
        r matches Some(k) ==> k < end,
        before_comma(text@.take(end as int)) == (match r {
            Some(k) => Some(text@.take(k as int)),
            None => None,
        }),
{
    let t = trim_end_at(text, end);
    if t > 0 && text.get_char(t - 1) == ',' {
        let k = trim_end_at(text, t - 1);
        assert(text@.take(t as int).drop_last() =~= text@.take(t - 1));
        Some(k)
    } else {
        None
    }
}

/// Whether `text[..end]` ends with `suffix`.
fn ends_with_at(text: &str, end: usize, suffix: &str) -> (r: bool)
    requires
        end <= text@.len(),
    ensures
        r == ends_with(text@.take(end as int), suffix@),
{
    let ghost s = text@.take(end as int);
    let n = suffix.unicode_len();
    if n > end {
        return false;
    }
    let start = end - n;
    let mut i: usize = 0;
    while i < n
        invariant
            i <= n == suffix@.len(),
            start + n == end <= text@.len(),
            s == text@.take(end as int),
            forall|j: int| 0 <= j < i ==> text@[start + j] == suffix@[j],
        decreases n - i,
    {
        if text.get_char(start + i) != suffix.get_char(i) {
            assert(s.subrange(s.len() - suffix@.len(), s.len() as int)[i as int] != suffix@[i as int]);
            return false;
        }
        i = i + 1;
    }
    assert(s.subrange(s.len() - suffix@.len(), s.len() as int) =~= suffix@);
    true
}

/// [`last_quote`] of `text[..end]`.
fn last_quote_at(text: &str, end: usize) -> (r: Option<usize>)
    requires
        end <= text@.len(),
    ensures
        last_quote(text@.take(end as int)) == (match r {
            Some(q) => Some(q as int),
            None => None::<int>,
        }),
        r matches Some(q) ==> q < end,
{
    let ghost s = text@;
    let mut e = end;
    while e > 0
        invariant
            e <= end <= s.len(),
            s == text@,
            last_quote(s.take(end as int)) == last_quote(s.take(e as int)),
        decreases e,
    {
        if text.get_char(e - 1) == '"' {
            return Some(e - 1);
        }
        assert(s.take(e as int).drop_last() =~= s.take(e - 1));
        e = e - 1;
    }
    None
}

fn is_ident_start_char(c: char) -> (r: bool)
    ensures
        r == is_ident_start(c),
{
    ('a' <= c && c <= 'z') || ('A' <= c && c <= 'Z') || c == '_'
}

fn is_ident_continue_char(c: char) -> (r: bool)
    ensures
        r == is_ident_continue(c),
{
    is_ident_start_char(c) || ('0' <= c && c <= '9')
}

/// Whether `text[from..to]` is `word`.
fn matches_at(text: &str, from: usize, to: usize, word: &str) -> (r: bool)
    requires
        from <= to <= text@.len(),
    ensures
        r == (text@.subrange(from as int, to as int) == word@),
{
    let ghost s = text@.subrange(from as int, to as int);
    let n = word.unicode_len();
    if n != to - from {
        return false;
    }
    let mut i: usize = 0;
    while i < n
        invariant
            i <= n == word@.len() == to - from,
            to <= text@.len(),
            s == text@.subrange(from as int, to as int),
            forall|j: int| 0 <= j < i ==> s[j] == word@[j],
        decreases n - i,
    {
        if text.get_char(from + i) != word.get_char(i) {
            assert(s[i as int] != word@[i as int]);
            return false;
        }
        i = i + 1;
    }
    assert(s =~= word@);
    true
}

/// Whether `text[from..to]` is a keyword.
fn is_keyword_at(text: &str, from: usize, to: usize) -> (r: bool)
    requires
        from <= to <= text@.len(),
    ensures
        r == is_keyword(text@.subrange(from as int, to as int)),
{
    matches_at(text, from, to, "abstract")
        || matches_at(text, from, to, "as")
        || matches_at(text, from, to, "async")
        || matches_at(text, from, to, "await")
        || matches_at(text, from, to, "become")
        || matches_at(text, from, to, "box")
        || matches_at(text, from, to, "break")
        || matches_at(text, from, to, "const")
        || matches_at(text, from, to, "continue")
        || matches_at(text, from, to, "crate")
        || matches_at(text, from, to, "do")
        || matches_at(text, from, to, "dyn")
        || matches_at(text, from, to, "else")
        || matches_at(text, from, to, "enum")
        || matches_at(text, from, to, "extern")
        || matches_at(text, from, to, "false")
        || matches_at(text, from, to, "final")
        || matches_at(text, from, to, "fn")
        || matches_at(text, from, to, "for")
        || matches_at(text, from, to, "if")
        || matches_at(text, from, to, "impl")
        || matches_at(text, from, to, "in")
        || matches_at(text, from, to, "let")
        || matches_at(text, from, to, "loop")
        || matches_at(text, from, to, "macro")
        || matches_at(text, from, to, "match")
        || matches_at(text, from, to, "mod")
        || matches_at(text, from, to, "move")
        || matches_at(text, from, to, "mut")
        || matches_at(text, from, to, "override")
        || matches_at(text, from, to, "priv")
        || matches_at(text, from, to, "pub")
        || matches_at(text, from, to, "ref")
        || matches_at(text, from, to, "return")
        || matches_at(text, from, to, "Self")
        || matches_at(text, from, to, "self")
        || matches_at(text, from, to, "static")
        || matches_at(text, from, to, "struct")
        || matches_at(text, from, to, "super")
        || matches_at(text, from, to, "trait")
        || matches_at(text, from, to, "true")
        || matches_at(text, from, to, "try")
        || matches_at(text, from, to, "type")
        || matches_at(text, from, to, "typeof")
        || matches_at(text, from, to, "unsafe")
        || matches_at(text, from, to, "unsized")
        || matches_at(text, from, to, "use")
        || matches_at(text, from, to, "virtual")
        || matches_at(text, from, to, "where")
        || matches_at(text, from, to, "while")
        || matches_at(text, from, to, "yield")
}

/// Whether `text[from..to]` is a reserved name.
fn is_reserved_at(text: &str, from: usize, to: usize) -> (r: bool)
    requires
        from <= to <= text@.len(),
    ensures
        r == is_reserved_name(text@.subrange(from as int, to as int)),
{
    matches_at(text, from, to, "wrapped_result") || matches_at(text, from, to, "Ok")
        || matches_at(text, from, to, "Err") || matches_at(text, from, to, "Some")
        || matches_at(text, from, to, "None")
}

/// Whether `text[from..to]` is an identifier.
fn is_ident_at(text: &str, from: usize, to: usize) -> (r: bool)
    requires
        from <= to <= text@.len(),
    ensures
        r == is_ident(text@.subrange(from as int, to as int)),
{
    let ghost s = text@.subrange(from as int, to as int);
    if from == to {
        return false;
    }
    if !is_ident_start_char(text.get_char(from)) {
        return false;
    }
    if to - from == 1 && text.get_char(from) == '_' {
        return false;
    }
    if is_keyword_at(text, from, to) {
        return false;
    }
    let mut i = from + 1;
    while i < to
        invariant
            from < i <= to <= text@.len(),
            s == text@.subrange(from as int, to as int),
            forall|j: int| 1 <= j < i - from ==> is_ident_continue(#[trigger] s[j]),
        decreases to - i,
    {
        if !is_ident_continue_char(text.get_char(i)) {
            assert(!is_ident_continue(s[i - from]));
            return false;
        }
        i = i + 1;
    }
    true
}

/// Reads the arguments by their grammar, taking the context type as it is
/// written; see [`split_args`].
pub fn split_context_args(text: &str) -> (r: Result<ContextArgs, ArgsError>)
    ensures
        args_result_view(r) == split_args(text@),
{
    let ghost s = text@;
    let n = text.unicode_len();
    assert(s.take(n as int) =~= s);
    // A trailing comma.
    let e1 = match before_comma_at(text, n) {
        Some(k) => k,
        None => trim_end_at(text, n),
    };
    // A trailing `, skip_teardown`.
    let mut e2 = e1;
    let mut skip = false;
    if ends_with_at(text, e1, "skip_teardown") {
        let kw_len = "skip_teardown".unicode_len();
        assert(s.take(e1 as int).take(e1 - kw_len) =~= s.take(e1 - kw_len));
        match before_comma_at(text, e1 - kw_len) {
            Some(k) => {
                e2 = k;
                skip = true;
            },
            None => {},
        }
    }
    assert(strip_skip_teardown(s.take(e1 as int)) == (s.take(e2 as int), skip));
    // A trailing `, "name"`.
    let e3: usize;
    let name: String;
    if e2 > 0 && text.get_char(e2 - 1) == '"' {
        assert(s.take(e2 as int).drop_last() =~= s.take(e2 - 1));
        match last_quote_at(text, e2 - 1) {
            None => {
                return Err(ArgsError::InvalidContextName);
            },
            Some(q) => {
                assert(s.take(e2 as int).take(q as int) =~= s.take(q as int));
                assert(s.take(e2 as int).subrange(q + 1, e2 - 1) =~= s.subrange(q + 1, e2 - 1));
                match before_comma_at(text, q) {
                    None => {
                        return Err(ArgsError::InvalidContextName);
                    },
                    Some(k) => {
                        if !is_ident_at(text, q + 1, e2 - 1) || is_reserved_at(text, q + 1, e2 - 1) {
                            return Err(ArgsError::InvalidContextName);
                        }
                        e3 = k;
                        name = String::from_str(text.substring_char(q + 1, e2 - 1));
                    },
                }
            },
        }
    } else {
        e3 = e2;
        name = String::from_str("ctx");
    }
    // The context type.
    let b = trim_start_at(text, 0, e3);
    assert(s.subrange(0, e3 as int) =~= s.take(e3 as int));
    if b == e3 {
        return Err(ArgsError::MissingContextType);
    }
    let ty = String::from_str(text.substring_char(b, e3));
    Ok(ContextArgs { context_type: ty, context_name: name, skip_teardown: skip })
}

/// Reads the attribute's arguments: the grammar of [`split_context_args`],
/// and the context type read with `syn`; see [`parse_args`].
pub fn parse_context_args(text: &str) -> (r: Result<ContextArgs, ArgsError>)
    ensures
        args_result_view(r) == parse_args(text@),
{
    let args = split_context_args(text)?;
    match type_error(args.context_type.as_str()) {
        None => Ok(args),
        Some(m) => Err(ArgsError::InvalidContextType(m)),
    }
}

/// The arguments written out in full: `Type, "name"`, then `, skip_teardown`
/// where teardown is skipped.
pub open spec fn render_args(a: ContextArgsView) -> Seq<char> {
    a.context_type + ", \""@ + a.context_name + "\""@ + if a.skip_teardown {
        ", "@ + "skip_teardown"@
    } else {
        Seq::empty()
    }
}

/// Arguments that [`render_args`] writes out so that they read back: a
/// context type without whitespace at either end and a name that the context
/// can have.
pub open spec fn well_formed_args(a: ContextArgsView) -> bool {
    &&& a.context_type.len() > 0
    &&& !is_space(a.context_type[0])
    &&& !is_space(a.context_type.last())
    &&& is_context_name(a.context_name)
}

proof fn lemma_trim_end_space(s: Seq<char>, c: char)
    requires
        is_space(c),
    ensures
        trim_end(s.push(c)) == trim_end(s),
{
    assert(s.push(c).drop_last() =~= s);
}

proof fn lemma_trim_end_keeps(s: Seq<char>)
    requires
        s.len() > 0,
        !is_space(s.last()),
    ensures
        trim_end(s) == s,
{
}

proof fn lemma_trim_start_keeps(s: Seq<char>)
    requires
        s.len() > 0,
        !is_space(s[0]),
    ensures
        trim_start(s) == s,
{
}

proof fn lemma_trim_end_spaces(s: Seq<char>, ws: Seq<char>)
    requires
        forall|i: int| 0 <= i < ws.len() ==> is_space(#[trigger] ws[i]),
    ensures
        trim_end(s + ws) == trim_end(s),
    decreases ws.len(),
{
    if ws.len() == 0 {
        assert(s + ws =~= s);
    } else {
        let w = ws.drop_last();
        assert(s + ws =~= (s + w).push(ws.last()));
        lemma_trim_end_space(s + w, ws.last());
        lemma_trim_end_spaces(s, w);
    }
}

proof fn lemma_last_quote_after(p: Seq<char>, n: Seq<char>)
    requires
        forall|i: int| 0 <= i < n.len() ==> #[trigger] n[i] != '"',
    ensures
        last_quote(p.push('"') + n) == Some(p.len() as int),
    decreases n.len(),
{
    if n.len() == 0 {
        assert(p.push('"') + n =~= p.push('"'));
    } else {
        let m = n.drop_last();
        assert((p.push('"') + n).drop_last() =~= p.push('"') + m);
        lemma_last_quote_after(p, m);
    }
}

/// Writing arguments out and reading them back gives the same arguments:
/// for a context type without surrounding whitespace and a name that is an
/// identifier, [`split_args`] of [`render_args`] is those arguments.
pub proof fn lemma_split_render(a: ContextArgsView)
    requires
        well_formed_args(a),
    ensures
        split_args(render_args(a)) == Ok::<ContextArgsView, ArgsErrorView>(a),
{
    reveal_strlit(", \"");
    reveal_strlit("\"");
    reveal_strlit(", ");
    reveal_strlit("skip_teardown");
    let ty = a.context_type;
    let name = a.context_name;
    // `Type, "name"`
    let quoted = ty + ", \""@ + name + "\""@;
    assert(quoted.last() == '"');
    lemma_trim_end_keeps(quoted);
    let text = render_args(a);
    if a.skip_teardown {
        let kw = "skip_teardown"@;
        assert(text =~= quoted + ", "@ + kw);
        assert(text.last() == 'n');
        lemma_trim_end_keeps(text);
        assert(before_comma(text) is None);
        assert(text.subrange(text.len() - kw.len(), text.len() as int) =~= kw);
        let pre = text.take(text.len() - kw.len());
        assert(pre =~= quoted.push(',').push(' '));
        lemma_trim_end_space(quoted.push(','), ' ');
        lemma_trim_end_keeps(quoted.push(','));
        assert(quoted.push(',').drop_last() =~= quoted);
        assert(strip_skip_teardown(text) == (quoted, true));
    } else {
        assert(text =~= quoted);
        assert(before_comma(text) is None);
        assert(!ends_with(text, "skip_teardown"@)) by {
            let kw = "skip_teardown"@;
            if ends_with(text, kw) {
                assert(text.subrange(text.len() - kw.len(), text.len() as int)[kw.len() - 1]
                    == text.last());
            }
        }
        assert(strip_skip_teardown(text) == (quoted, false));
    }
    // The name.
    let ty_comma = ty.push(',').push(' ');
    assert(quoted.drop_last() =~= ty_comma.push('"') + name);
    assert forall|i: int| 0 <= i < name.len() implies #[trigger] name[i] != '"' by {
        if i == 0 {
        } else {
            assert(is_ident_continue(name[i]));
        }
    }
    lemma_last_quote_after(ty_comma, name);
    let q = ty_comma.len() as int;
    assert(quoted.subrange(q + 1, quoted.len() - 1) =~= name);
    assert(quoted.take(q) =~= ty_comma);
    lemma_trim_end_space(ty.push(','), ' ');
    lemma_trim_end_keeps(ty.push(','));
    assert(ty.push(',').drop_last() =~= ty);
    lemma_trim_end_keeps(ty);
    assert(strip_context_name(quoted) == Ok::<(Seq<char>, Seq<char>), ArgsErrorView>((ty, name)));
    lemma_trim_start_keeps(ty);
}

/// Reading back the written-out arguments gives the same arguments when the
/// context type is a Rust type: [`parse_args`] of [`render_args`].
pub proof fn lemma_parse_render(a: ContextArgsView)
    requires
        well_formed_args(a),
        rust_type_error(a.context_type) is None,
    ensures
        parse_args(render_args(a)) == Ok::<ContextArgsView, ArgsErrorView>(a),
{
    lemma_split_render(a);
}

/// Whitespace after the arguments does not change how they read.
pub proof fn lemma_split_trailing_space(text: Seq<char>, ws: Seq<char>)
    requires
        forall|i: int| 0 <= i < ws.len() ==> is_space(#[trigger] ws[i]),
    ensures
        split_args(text + ws) == split_args(text),
{
    lemma_trim_end_spaces(text, ws);
}

/// A context type alone reads as that type, under the default name and with
/// teardown, where it does not itself end in a way that the grammar reads as
/// a later argument (a comma, a string literal, or `, skip_teardown`).
pub proof fn lemma_split_type_only(ty: Seq<char>)
    requires
        ty.len() > 0,
        !is_space(ty[0]),
        !is_space(ty.last()),
        ty.last() != ',',
        ty.last() != '"',
        !strip_skip_teardown(ty).1,
    ensures
        split_args(ty) == Ok::<ContextArgsView, ArgsErrorView>(
            ContextArgsView { context_type: ty, context_name: default_context_name(), skip_teardown: false },
        ),
{
    lemma_trim_end_keeps(ty);
    lemma_trim_start_keeps(ty);
}

/// Every character of `w` is whitespace.
pub open spec fn all_space(w: Seq<char>) -> bool {
    forall|i: int| 0 <= i < w.len() ==> is_space(#[trigger] w[i])
}

proof fn lemma_trim_end_all_space(w: Seq<char>)
    requires
        all_space(w),
    ensures
        trim_end(w) == Seq::<char>::empty(),
    decreases w.len(),
{
    if w.len() > 0 {
        assert(is_space(w[w.len() - 1]));
        lemma_trim_end_all_space(w.drop_last());
    }
}

/// Whitespace in front of `b` is kept by `trim_end`, or trimmed with all of `b`.
proof fn lemma_trim_end_pad(w: Seq<char>, b: Seq<char>) -> (w2: Seq<char>)
    requires
        all_space(w),
    ensures
        all_space(w2),
        trim_end(w + b) == w2 + trim_end(b),
        trim_end(b).len() == 0 ==> w2.len() == 0,
    decreases b.len(),
{
    if b.len() == 0 {
        assert(w + b =~= w);
        lemma_trim_end_all_space(w);
        assert(Seq::<char>::empty() + trim_end(b) =~= Seq::<char>::empty());
        Seq::empty()
    } else if is_space(b.last()) {
        assert((w + b).drop_last() =~= w + b.drop_last());
        assert((w + b).last() == b.last());
        lemma_trim_end_pad(w, b.drop_last())
    } else {
        assert((w + b).last() == b.last());
        w
    }
}

proof fn lemma_trim_start_pad(w: Seq<char>, b: Seq<char>)
    requires
        all_space(w),
    ensures
        trim_start(w + b) == trim_start(b),
    decreases w.len(),
{
    if w.len() == 0 {
        assert(w + b =~= b);
    } else {
        assert((w + b)[0] == w[0]);
        assert((w + b).drop_first() =~= w.drop_first() + b);
        assert(all_space(w.drop_first())) by {
            assert forall|i: int| 0 <= i < w.drop_first().len() implies is_space(
                #[trigger] w.drop_first()[i],
            ) by {
                assert(w.drop_first()[i] == w[i + 1]);
            }
        }
        lemma_trim_start_pad(w.drop_first(), b);
    }
}

proof fn lemma_before_comma_pad(w: Seq<char>, b: Seq<char>) -> (w3: Seq<char>)
    requires
        all_space(w),
    ensures
        all_space(w3),
        match (before_comma(w + b), before_comma(b)) {
            (Some(x), Some(y)) => x == w3 + y,
            (None, None) => true,
            _ => false,
        },
{
    let w2 = lemma_trim_end_pad(w, b);
    let tb = trim_end(b);
    if tb.len() == 0 {
        assert(trim_end(w + b) =~= Seq::<char>::empty());
        Seq::empty()
    } else {
        let t = w2 + tb;
        assert(t.last() == tb.last());
        if tb.last() == ',' {
            assert(t.drop_last() =~= w2 + tb.drop_last());
            lemma_trim_end_pad(w2, tb.drop_last())
        } else {
            Seq::empty()
        }
    }
}

proof fn lemma_last_quote_none(w: Seq<char>)
    requires
        all_space(w),
    ensures
        last_quote(w) == None::<int>,
    decreases w.len(),
{
    if w.len() > 0 {
        assert(is_space(w[w.len() - 1]));
        lemma_last_quote_none(w.drop_last());
    }
}

proof fn lemma_last_quote_pad(w: Seq<char>, b: Seq<char>)
    requires
        all_space(w),
    ensures
        last_quote(w + b) == (match last_quote(b) {
            Some(q) => Some(q + w.len()),
            None => None::<int>,
        }),
    decreases b.len(),
{
    if b.len() == 0 {
        assert(w + b =~= w);
        lemma_last_quote_none(w);
    } else {
        assert((w + b).last() == b.last());
        assert((w + b).drop_last() =~= w + b.drop_last());
        lemma_last_quote_pad(w, b.drop_last());
    }
}

proof fn lemma_strip_skip_pad(w: Seq<char>, b: Seq<char>) -> (w4: Seq<char>)
    requires
        all_space(w),
    ensures
        all_space(w4),
        strip_skip_teardown(w + b).1 == strip_skip_teardown(b).1,
        strip_skip_teardown(w + b).0 == w4 + strip_skip_teardown(b).0,
{
    reveal_strlit("skip_teardown");
    let kw = "skip_teardown"@;
    let k = kw.len();
    let wb = w + b;
    if b.len() >= k {
        assert(wb.subrange(wb.len() - k, wb.len() as int) =~= b.subrange(b.len() - k, b.len() as int));
    } else if ends_with(wb, kw) {
        assert(wb.subrange(wb.len() - k, wb.len() as int)[0] == wb[wb.len() - k]);
        assert(wb[wb.len() - k] == w[wb.len() - k]);
        assert(false);
    }
    if ends_with(b, kw) {
        assert(wb.take(wb.len() - k) =~= w + b.take(b.len() - k));
        let w3 = lemma_before_comma_pad(w, b.take(b.len() - k));
        if before_comma(b.take(b.len() - k)) is Some {
            w3
        } else {
            w
        }
    } else {
        w
    }
}

proof fn lemma_last_quote_range(s: Seq<char>)
    ensures
        last_quote(s) matches Some(q) ==> 0 <= q < s.len(),
    decreases s.len(),
{
    if s.len() > 0 {
        lemma_last_quote_range(s.drop_last());
    }
}

proof fn lemma_strip_name_pad(w: Seq<char>, b: Seq<char>) -> (w5: Seq<char>)
    requires
        all_space(w),
    ensures
        all_space(w5),
        match (strip_context_name(w + b), strip_context_name(b)) {
            (Ok((x1, n1)), Ok((x2, n2))) => n1 == n2 && x1 == w5 + x2,
            (Err(e1), Err(e2)) => e1 == e2,
            _ => false,
        },
{
    let wb = w + b;
    if b.len() == 0 {
        assert(wb =~= w);
        if w.len() > 0 {
            assert(is_space(w[w.len() - 1]));
        }
        assert(wb =~= w + b);
        w
    } else {
        assert(wb.last() == b.last());
        if b.last() == '"' {
            assert(wb.drop_last() =~= w + b.drop_last());
            lemma_last_quote_pad(w, b.drop_last());
            lemma_last_quote_range(b.drop_last());
            match last_quote(b.drop_last()) {
                None => w,
                Some(q) => {
                    assert(wb.subrange(q + w.len() + 1, wb.len() - 1) =~= b.subrange(
                        q + 1,
                        b.len() - 1,
                    ));
                    assert(wb.take(q + w.len()) =~= w + b.take(q));
                    lemma_before_comma_pad(w, b.take(q))
                },
            }
        } else {
            w
        }
    }
}

/// Whitespace before the arguments does not change how they read.
pub proof fn lemma_split_leading_space(ws: Seq<char>, text: Seq<char>)
    requires
        all_space(ws),
    ensures
        split_args(ws + text) == split_args(text),
{
    let wt = ws + text;
    let t1a = match before_comma(wt) {
        Some(p) => p,
        None => trim_end(wt),
    };
    let t1b = match before_comma(text) {
        Some(p) => p,
        None => trim_end(text),
    };
    let wa = lemma_before_comma_pad(ws, text);
    let w2 = lemma_trim_end_pad(ws, text);
    let w1 = if before_comma(text) is Some {
        wa
    } else {
        w2
    };
    assert(t1a == w1 + t1b);
    let w4 = lemma_strip_skip_pad(w1, t1b);
    let t2b = strip_skip_teardown(t1b).0;
    let w5 = lemma_strip_name_pad(w4, t2b);
    match strip_context_name(t2b) {
        Ok((t3, _)) => {
            lemma_trim_start_pad(w5, t3);
        },
        Err(_) => {},
    }
}

/// Whitespace around the arguments does not change how they read.
pub proof fn lemma_split_surrounding_space(before: Seq<char>, text: Seq<char>, after: Seq<char>)
    requires
        all_space(before),
        all_space(after),
    ensures
        split_args(before + text + after) == split_args(text),
{
    lemma_split_trailing_space(before + text, after);
    lemma_split_leading_space(before, text);
}

/// Whatever arguments are read, the context's name is not reserved: above
/// all, it is never the variable that holds the body's caught outcome.
pub proof fn lemma_split_name_not_reserved(text: Seq<char>)
    ensures
        split_args(text) matches Ok(a) ==> !is_reserved_name(a.context_name),
{
    reveal_strlit("ctx");
    reveal_strlit("wrapped_result");
    reveal_strlit("Ok");
    reveal_strlit("Err");
    reveal_strlit("Some");
    reveal_strlit("None");
    assert(default_context_name()[0] == 'c');
    assert(!is_reserved_name(default_context_name())) by {
        let d = default_context_name();
        assert(d.len() == 3);
        assert(d != "wrapped_result"@);
        assert(d[0] != "Ok"@[0]);
        assert(d[0] != "Err"@[0]);
        assert(d[0] != "Some"@[0]);
        assert(d[0] != "None"@[0]);
    }
}

/// A character that is no whitespace between tokens, written out.
pub open spec fn not_blank(c: char) -> bool {
    c != ' ' && c != '\t' && c != '\n' && c != '\r'
}

/// Every name of ASCII letters, digits and underscores that does not start
/// with a digit, is not `_` alone, and is no keyword and no reserved name is
/// read back as the context's name after a type without surrounding
/// whitespace: `Type, "name"` reads as that type and name, with teardown.
pub proof fn lemma_split_plain_name(ty: Seq<char>, n: Seq<char>)
    requires
        ty.len() > 0,
        not_blank(ty[0]),
        not_blank(ty.last()),
        n.len() > 0,
        ('a' <= n[0] && n[0] <= 'z') || ('A' <= n[0] && n[0] <= 'Z') || n[0] == '_',
        forall|i: int|
            0 <= i < n.len() ==> ('a' <= #[trigger] n[i] && n[i] <= 'z') || ('A' <= n[i] && n[i]
                <= 'Z') || ('0' <= n[i] && n[i] <= '9') || n[i] == '_',
        !(n.len() == 1 && n[0] == '_'),
        !is_keyword(n),
        !is_reserved_name(n),
    ensures
        split_args(ty + ", \""@ + n + "\""@) == Ok::<ContextArgsView, ArgsErrorView>(
            ContextArgsView { context_type: ty, context_name: n, skip_teardown: false },
        ),
        rust_type_error(ty) is None ==> parse_args(ty + ", \""@ + n + "\""@) == Ok::<
            ContextArgsView,
            ArgsErrorView,
        >(ContextArgsView { context_type: ty, context_name: n, skip_teardown: false }),
{
    let a = ContextArgsView { context_type: ty, context_name: n, skip_teardown: false };
    assert(is_ident(n)) by {
        assert forall|i: int| 1 <= i < n.len() implies is_ident_continue(#[trigger] n[i]) by {
            assert(0 <= i < n.len());
        }
    }
    lemma_split_render(a);
    assert(render_args(a) =~= ty + ", \""@ + n + "\""@);
}

} // verus!
