//! The text of the wrapped test functions.
//!
//! A wrapper body is a block of statements: it sets the context up, runs the
//! test body with its panic caught, tears the context down unless told not
//! to, and then hands back the body's value or raises its panic again.
use vstd::prelude::*;

use crate::args::{
    args_error_message, parse_args, parse_context_args, ArgsError, ArgsErrorView, ContextArgs,
    ContextArgsView,
};
use crate::syntax::{
    block_error, item_fn_parts, parse_item_fn, rust_block_error, FnParts, FnPartsView,
};

verus! {

/// Why a test function could not be wrapped.
#[derive(Debug, PartialEq, Eq)]
pub enum ExpandError {
    /// The attribute's arguments were refused.
    Args(ArgsError),
    /// The item under the attribute is no function; `syn`'s message says why.
    InvalidItem(String),
    /// The wrapper body does not read as a block; `syn`'s message says why.
    InvalidBody(String),
}

/// The mathematical value of [`ExpandError`].
pub enum ExpandErrorView {
    Args(ArgsErrorView),
    InvalidItem(Seq<char>),
    InvalidBody(Seq<char>),
}

impl View for ExpandError {
    type V = ExpandErrorView;

    open spec fn view(&self) -> ExpandErrorView {
        match self {
            ExpandError::Args(a) => ExpandErrorView::Args(a@),
            ExpandError::InvalidItem(m) => ExpandErrorView::InvalidItem(m@),
            ExpandError::InvalidBody(m) => ExpandErrorView::InvalidBody(m@),
        }
    }
}

/// The text of the compile error that reports `e`.
pub open spec fn expand_error_message(e: ExpandErrorView) -> Seq<char> {
    match e {
        ExpandErrorView::Args(a) => args_error_message(a),
        ExpandErrorView::InvalidItem(m) => m,
        ExpandErrorView::InvalidBody(m) => m,
    }
}

impl ExpandError {
    /// The text of the compile error that reports this error.
    pub fn message(&self) -> (r: String)
        ensures
            r@ == expand_error_message(self@),
    {
        match self {
            ExpandError::Args(a) => a.message(),
            ExpandError::InvalidItem(m) => m.clone(),
            ExpandError::InvalidBody(m) => m.clone(),
        }
    }
}

/// The parts of `parts` joined one after another.
pub open spec fn concat_all(parts: Seq<Seq<char>>) -> Seq<char>
    decreases parts.len(),
{
    if parts.len() == 0 {
        Seq::empty()
    } else {
        concat_all(parts.drop_last()) + parts.last()
    }
}

/// A block made of `stmts`, each of which ends with its own separating space.
pub open spec fn block_text(stmts: Seq<Seq<char>>) -> Seq<char> {
    "{ "@ + concat_all(stmts) + "}"@
}

/// The variable that holds the caught outcome of the test body.
pub open spec fn result_var() -> Seq<char> {
    "wrapped_result"@
}

/// The statement that turns the caught outcome of the body, held in the
/// variable `result_name`, into the function's result: the body's value,
/// or the body's panic raised again.
pub open spec fn handle_result_text(result_name: Seq<char>) -> Seq<char> {
    "match "@ + result_name
        + " { Ok(value) => value, Err(err) => { std::panic::resume_unwind(err); } }"@
}

/// The trait through which a context of the type is set up and torn down.
pub open spec fn context_trait(is_async: bool) -> Seq<char> {
    if is_async {
        " as test_context::AsyncTestContext>::"@
    } else {
        " as test_context::TestContext>::"@
    }
}

/// What follows a call into the context trait: an `.await` where it is async.
pub open spec fn call_end(is_async: bool) -> Seq<char> {
    if is_async {
        ").await; "@
    } else {
        "); "@
    }
}

/// The statement that brings the future extension trait into scope; with a
/// path from the crate root where `rooted`.
pub open spec fn use_statement(rooted: bool) -> Seq<char> {
    if rooted {
        "use ::test_context::futures::FutureExt; "@
    } else {
        "use test_context::futures::FutureExt; "@
    }
}

/// The statement that sets up the context and binds it to `name`.
pub open spec fn setup_statement(ty: Seq<char>, name: Seq<char>, is_async: bool) -> Seq<char> {
    "let mut "@ + name + " = <"@ + ty + context_trait(is_async) + "setup("@ + call_end(is_async)
}

/// The part of the run statement before the test body.
pub open spec fn run_head(name: Seq<char>, is_async: bool) -> Seq<char> {
    if is_async {
        "let wrapped_result = { #[allow(unused_variables)] let "@ + name + " = &mut "@ + name
            + "; std::panic::AssertUnwindSafe(async { "@
    } else {
        "let wrapped_result = { let mut "@ + name + " = std::panic::AssertUnwindSafe(&mut "@
            + name + "); std::panic::catch_unwind(move || { #[allow(unused_variables)] let "@
            + name + " = &mut **"@ + name + "; "@
    }
}

/// The part of the run statement after the test body.
pub open spec fn run_tail(is_async: bool) -> Seq<char> {
    if is_async {
        " }).catch_unwind().await }; "@
    } else {
        " }) }; "@
    }
}

/// The statement that runs the test body with its panic caught, the context
/// reachable from the body under `name`.
pub open spec fn run_statement(name: Seq<char>, is_async: bool, block: Seq<char>) -> Seq<char> {
    run_head(name, is_async) + block + run_tail(is_async)
}

/// The statement that tears the context down.
pub open spec fn teardown_statement(ty: Seq<char>, name: Seq<char>, is_async: bool) -> Seq<char> {
    "<"@ + ty + context_trait(is_async) + "teardown("@ + name + call_end(is_async)
}

/// The statement that ends the wrapper body.
pub open spec fn finish_statement() -> Seq<char> {
    handle_result_text(result_var()) + " "@
}

/// The statements of a wrapper body, in order.
pub open spec fn wrapper_statements(
    ty: Seq<char>,
    name: Seq<char>,
    skip_teardown: bool,
    is_async: bool,
    rooted: bool,
    block: Seq<char>,
) -> Seq<Seq<char>> {
    let prelude = if is_async {
        seq![use_statement(rooted)]
    } else {
        Seq::empty()
    };
    let ran = prelude.push(setup_statement(ty, name, is_async)).push(
        run_statement(name, is_async, block),
    );
    let done = if skip_teardown {
        ran
    } else {
        ran.push(teardown_statement(ty, name, is_async))
    };
    done.push(finish_statement())
}

/// The text of a wrapper body.
pub open spec fn wrapper_text(
    ty: Seq<char>,
    name: Seq<char>,
    skip_teardown: bool,
    is_async: bool,
    rooted: bool,
    block: Seq<char>,
) -> Seq<char> {
    block_text(wrapper_statements(ty, name, skip_teardown, is_async, rooted, block))
}

/// The text of the wrapper body that `args` ask for around `block`.
pub open spec fn args_wrapper_text(args: ContextArgsView, is_async: bool, block: Seq<char>) -> Seq<
    char,
> {
    wrapper_text(args.context_type, args.context_name, args.skip_teardown, is_async, false, block)
}

/// Each attribute, inner ones where `inner` and outer ones otherwise, in
/// order and followed by a space.
pub open spec fn attrs_text(attrs: Seq<(Seq<char>, bool)>, inner: bool) -> Seq<char>
    decreases attrs.len(),
{
    if attrs.len() == 0 {
        Seq::empty()
    } else if attrs.last().1 == inner {
        attrs_text(attrs.drop_last(), inner) + attrs.last().0 + " "@
    } else {
        attrs_text(attrs.drop_last(), inner)
    }
}

/// Each attribute, inner or outer, in order and followed by a space.
pub open spec fn all_attrs_text(attrs: Seq<(Seq<char>, bool)>) -> Seq<char>
    decreases attrs.len(),
{
    if attrs.len() == 0 {
        Seq::empty()
    } else {
        all_attrs_text(attrs.drop_last()) + attrs.last().0 + " "@
    }
}

/// `block` with `inner` written right after its opening character, the brace.
pub open spec fn splice_inner(inner: Seq<char>, block: Seq<char>) -> Seq<char> {
    if inner.len() == 0 || block.len() == 0 {
        block
    } else {
        block.take(1) + " "@ + inner + block.skip(1)
    }
}

/// The function of `parts` with its body replaced by `block`: the outer
/// attributes and the head before it, the inner attributes at its start.
pub open spec fn fn_with_block(parts: FnPartsView, block: Seq<char>) -> Seq<char> {
    attrs_text(parts.attrs, false) + parts.head + " "@ + splice_inner(
        attrs_text(parts.attrs, true),
        block,
    )
}

/// The async function that the rstest flavour makes of `parts`: the same
/// attributes (all of them, in order, before the function), name, parameters
/// and return type, and an async wrapper body that always tears the context
/// down.
pub open spec fn rstest_fn_text(args: ContextArgsView, parts: FnPartsView) -> Seq<char> {
    all_attrs_text(parts.attrs) + "async fn "@ + parts.ident + "("@ + parts.inputs + ") "@
        + parts.output + " "@ + wrapper_text(
        args.context_type,
        args.context_name,
        false,
        true,
        true,
        parts.block,
    )
}

/// The outcome of the attribute on `attr` and `item`.
pub open spec fn expand_test_context(attr: Seq<char>, item: Seq<char>) -> Result<
    Seq<char>,
    ExpandErrorView,
> {
    match parse_args(attr) {
        Err(e) => Err(ExpandErrorView::Args(e)),
        Ok(a) => match item_fn_parts(item) {
            Err(m) => Err(ExpandErrorView::InvalidItem(m)),
            Ok(p) => {
                let body = args_wrapper_text(a, p.is_async, p.block);
                match rust_block_error(body) {
                    None => Ok(fn_with_block(p, body)),
                    Some(m) => Err(ExpandErrorView::InvalidBody(m)),
                }
            },
        },
    }
}

/// The outcome of the rstest flavour of the attribute on `attr` and `item`.
pub open spec fn expand_test_context_rstest(attr: Seq<char>, item: Seq<char>) -> Result<
    Seq<char>,
    ExpandErrorView,
> {
    match parse_args(attr) {
        Err(e) => Err(ExpandErrorView::Args(e)),
        Ok(a) => match item_fn_parts(item) {
            Err(m) => Err(ExpandErrorView::InvalidItem(m)),
            Ok(p) => Ok(rstest_fn_text(a, p)),
        },
    }
}

/// The value of an expansion result.
pub open spec fn text_result_view(r: Result<String, ExpandError>) -> Result<
    Seq<char>,
    ExpandErrorView,
> {
    match r {
        Ok(s) => Ok(s@),
        Err(e) => Err(e@),
    }
}

proof fn lemma_concat_push(parts: Seq<Seq<char>>, x: Seq<char>)
    ensures
        concat_all(parts.push(x)) == concat_all(parts) + x,
{
    assert(parts.push(x).drop_last() =~= parts);
}

/// Appends the statement `s` to the block under construction in `r`.
fn push_statement(r: &mut String, Ghost(stmts): Ghost<Seq<Seq<char>>>, s: &str)
    requires
        old(r)@ == "{ "@ + concat_all(stmts),
    ensures
        final(r)@ == "{ "@ + concat_all(stmts.push(s@)),
{
    r.append(s);
    proof {
        lemma_concat_push(stmts, s@);
        assert(final(r)@ =~= "{ "@ + concat_all(stmts.push(s@)));
    }
}

/// Source text of the `match` that hands back the value of the body or
/// resumes its panic.
pub fn handle_result(result_name: &str) -> (r: String)
    ensures
        r@ == handle_result_text(result_name@),
{
    let mut r = String::new();
    r.append("match ");
    r.append(result_name);
    r.append(" { Ok(value) => value, Err(err) => { std::panic::resume_unwind(err); } }");
    r
}

fn append_trait(r: &mut String, is_async: bool)
    ensures
        final(r)@ == old(r)@ + context_trait(is_async),
{
    if is_async {
        r.append(" as test_context::AsyncTestContext>::");
    } else {
        r.append(" as test_context::TestContext>::");
    }
}

fn append_call_end(r: &mut String, is_async: bool)
    ensures
        final(r)@ == old(r)@ + call_end(is_async),
{
    if is_async {
        r.append(").await; ");
    } else {
        r.append("); ");
    }
}

fn setup_stmt(ty: &str, name: &str, is_async: bool) -> (r: String)
    ensures
        r@ == setup_statement(ty@, name@, is_async),
{
    let mut r = String::new();
    r.append("let mut ");
    r.append(name);
    r.append(" = <");
    r.append(ty);
    append_trait(&mut r, is_async);
    r.append("setup(");
    append_call_end(&mut r, is_async);
    assert(r@ =~= setup_statement(ty@, name@, is_async));
    r
}

fn run_stmt(name: &str, is_async: bool, block: &str) -> (r: String)
    ensures
        r@ == run_statement(name@, is_async, block@),
{
    let mut r = String::new();
    if is_async {
        r.append("let wrapped_result = { #[allow(unused_variables)] let ");
        r.append(name);
        r.append(" = &mut ");
        r.append(name);
        r.append("; std::panic::AssertUnwindSafe(async { ");
        r.append(block);
        r.append(" }).catch_unwind().await }; ");
    } else {
        r.append("let wrapped_result = { let mut ");
        r.append(name);
        r.append(" = std::panic::AssertUnwindSafe(&mut ");
        r.append(name);
        r.append("); std::panic::catch_unwind(move || { #[allow(unused_variables)] let ");
        r.append(name);
        r.append(" = &mut **");
        r.append(name);
        r.append("; ");
        r.append(block);
        r.append(" }) }; ");
    }
    assert(r@ =~= run_statement(name@, is_async, block@));
    r
}

fn teardown_stmt(ty: &str, name: &str, is_async: bool) -> (r: String)
    ensures
        r@ == teardown_statement(ty@, name@, is_async),
{
    let mut r = String::new();
    r.append("<");
    r.append(ty);
    append_trait(&mut r, is_async);
    r.append("teardown(");
    r.append(name);
    append_call_end(&mut r, is_async);
    assert(r@ =~= teardown_statement(ty@, name@, is_async));
    r
}

/// The wrapper body for the context type `ty`, bound to `name`, around `block`.
fn build_wrapper(
    ty: &str,
    name: &str,
    skip_teardown: bool,
    is_async: bool,
    rooted: bool,
    block: &str,
) -> (r: String)
    ensures
        r@ == wrapper_text(ty@, name@, skip_teardown, is_async, rooted, block@),
{
    let ghost want = wrapper_statements(ty@, name@, skip_teardown, is_async, rooted, block@);
    let ghost mut stmts: Seq<Seq<char>> = Seq::empty();
    let mut r = String::new();
    r.append("{ ");
    assert(r@ =~= "{ "@ + concat_all(stmts));
    if is_async {
        if rooted {
            push_statement(&mut r, Ghost(stmts), "use ::test_context::futures::FutureExt; ");
        } else {
            push_statement(&mut r, Ghost(stmts), "use test_context::futures::FutureExt; ");
        }
        proof {
            stmts = stmts.push(use_statement(rooted));
        }
        assert(stmts =~= seq![use_statement(rooted)]);
    }
    let setup = setup_stmt(ty, name, is_async);
    push_statement(&mut r, Ghost(stmts), setup.as_str());
    proof {
        stmts = stmts.push(setup@);
    }
    let run = run_stmt(name, is_async, block);
    push_statement(&mut r, Ghost(stmts), run.as_str());
    proof {
        stmts = stmts.push(run@);
    }
    if !skip_teardown {
        let teardown = teardown_stmt(ty, name, is_async);
        push_statement(&mut r, Ghost(stmts), teardown.as_str());
        proof {
            stmts = stmts.push(teardown@);
        }
    }
    let mut finish = handle_result("wrapped_result");
    finish.append(" ");
    push_statement(&mut r, Ghost(stmts), finish.as_str());
    proof {
        stmts = stmts.push(finish@);
    }
    assert(stmts =~= want);
    r.append("}");
    assert(r@ =~= block_text(want));
    r
}

/// The body of a synchronous test wrapped in the setup and teardown of the
/// context that `args` name.
pub fn sync_wrapper_body(args: &ContextArgs, body: &str) -> (r: String)
    ensures
        r@ == args_wrapper_text(args@, false, body@),
{
    build_wrapper(
        args.context_type.as_str(),
        args.context_name.as_str(),
        args.skip_teardown,
        false,
        false,
        body,
    )
}

/// The body of an async test wrapped in the setup and teardown of the
/// context that `args` name, each awaited.
pub fn async_wrapper_body(args: &ContextArgs, body: &str) -> (r: String)
    ensures
        r@ == args_wrapper_text(args@, true, body@),
{
    build_wrapper(
        args.context_type.as_str(),
        args.context_name.as_str(),
        args.skip_teardown,
        true,
        false,
        body,
    )
}

/// The attributes of `attrs` that are inner where `inner`, outer otherwise,
/// each followed by a space.
fn attrs_string(attrs: &Vec<(String, bool)>, inner: bool) -> (r: String)
    ensures
        r@ == attrs_text(attrs.deep_view(), inner),
{
    let mut r = String::new();
    let mut i: usize = 0;
    let ghost view = attrs.deep_view();
    while i < attrs.len()
        invariant
            i <= attrs.len(),
            view == attrs.deep_view(),
            view.len() == attrs.len(),
            r@ == attrs_text(view.take(i as int), inner),
        decreases attrs.len() - i,
    {
        assert(view.take(i + 1).drop_last() =~= view.take(i as int));
        if attrs[i].1 == inner {
            r.append(attrs[i].0.as_str());
            r.append(" ");
        }
        i = i + 1;
    }
    assert(view.take(i as int) =~= view);
    r
}

/// Every attribute of `attrs`, in order, each followed by a space.
fn all_attrs_string(attrs: &Vec<(String, bool)>) -> (r: String)
    ensures
        r@ == all_attrs_text(attrs.deep_view()),
{
    let mut r = String::new();
    let mut i: usize = 0;
    let ghost view = attrs.deep_view();
    while i < attrs.len()
        invariant
            i <= attrs.len(),
            view == attrs.deep_view(),
            view.len() == attrs.len(),
            r@ == all_attrs_text(view.take(i as int)),
        decreases attrs.len() - i,
    {
        assert(view.take(i + 1).drop_last() =~= view.take(i as int));
        r.append(attrs[i].0.as_str());
        r.append(" ");
        i = i + 1;
    }
    assert(view.take(i as int) =~= view);
    r
}

/// The function of `parts` with its body replaced by `block`: the outer
/// attributes and the head before it, the inner attributes written right
/// after its opening brace.
pub fn replace_block(parts: &FnParts, block: &str) -> (r: String)
    ensures
        r@ == fn_with_block(parts@, block@),
{
    let mut r = attrs_string(&parts.attrs, false);
    r.append(parts.head.as_str());
    r.append(" ");
    let inner = attrs_string(&parts.attrs, true);
    let n = block.unicode_len();
    if inner.as_str().unicode_len() == 0 || n == 0 {
        r.append(block);
    } else {
        r.append(block.substring_char(0, 1));
        r.append(" ");
        r.append(inner.as_str());
        r.append(block.substring_char(1, n));
        assert(block@.skip(1) =~= block@.subrange(1, n as int));
    }
    assert(r@ =~= fn_with_block(parts@, block@));
    r
}

/// The wrapper body that `args` ask for around `block`, awaited where the
/// test is async.
pub fn wrapper_body(args: &ContextArgs, is_async: bool, block: &str) -> (r: String)
    ensures
        r@ == args_wrapper_text(args@, is_async, block@),
{
    if is_async {
        async_wrapper_body(args, block)
    } else {
        sync_wrapper_body(args, block)
    }
}

/// The async test function that the rstest flavour makes of `parts`.
pub fn rstest_fn(args: &ContextArgs, parts: &FnParts) -> (r: String)
    ensures
        r@ == rstest_fn_text(args@, parts@),
{
    let body = build_wrapper(
        args.context_type.as_str(),
        args.context_name.as_str(),
        false,
        true,
        true,
        parts.block.as_str(),
    );
    let mut r = all_attrs_string(&parts.attrs);
    r.append("async fn ");
    r.append(parts.ident.as_str());
    r.append("(");
    r.append(parts.inputs.as_str());
    r.append(") ");
    r.append(parts.output.as_str());
    r.append(" ");
    r.append(body.as_str());
    assert(r@ =~= rstest_fn_text(args@, parts@));
    r
}

/// Wraps the test function `item` in the setup and teardown of the context
/// that the attribute arguments `attr` name; see [`expand_test_context`].
pub fn test_context(attr: &str, item: &str) -> (r: Result<String, ExpandError>)
    ensures
        text_result_view(r) == expand_test_context(attr@, item@),
{
    let args = match parse_context_args(attr) {
        Ok(a) => a,
        Err(e) => {
            return Err(ExpandError::Args(e));
        },
    };
    let parts = match parse_item_fn(item) {
        Ok(p) => p,
        Err(m) => {
            return Err(ExpandError::InvalidItem(m));
        },
    };
    let body = wrapper_body(&args, parts.is_async, parts.block.as_str());
    if let Some(m) = block_error(body.as_str()) {
        return Err(ExpandError::InvalidBody(m));
    }
    Ok(replace_block(&parts, body.as_str()))
}

/// Makes of the test function `item` an async function whose body sets up,
/// and always tears down, the context that `attr` names; see
/// [`expand_test_context_rstest`].
pub fn test_context_rstest(attr: &str, item: &str) -> (r: Result<String, ExpandError>)
    ensures
        text_result_view(r) == expand_test_context_rstest(attr@, item@),
{
    let args = match parse_context_args(attr) {
        Ok(a) => a,
        Err(e) => {
            return Err(ExpandError::Args(e));
        },
    };
    let parts = match parse_item_fn(item) {
        Ok(p) => p,
        Err(m) => {
            return Err(ExpandError::InvalidItem(m));
        },
    };
    Ok(rstest_fn(&args, &parts))
}

/// Where in the statements of a wrapper body the setup statement stands:
/// after the `use` statement in an async body, first otherwise.
pub open spec fn setup_index(is_async: bool) -> int {
    if is_async {
        1
    } else {
        0
    }
}

/// The order of a wrapper body: the context is set up, then the body runs
/// with its panic caught, then the context is torn down unless teardown is
/// skipped, and last the body's value is handed back or its panic raised
/// again, so that teardown also runs after a body that panicked.
pub proof fn lemma_wrapper_order(
    ty: Seq<char>,
    name: Seq<char>,
    skip_teardown: bool,
    is_async: bool,
    rooted: bool,
    block: Seq<char>,
)
    ensures
        ({
            let st = wrapper_statements(ty, name, skip_teardown, is_async, rooted, block);
            let k = setup_index(is_async);
            &&& is_async ==> st[0] == use_statement(rooted)
            &&& st[k] == setup_statement(ty, name, is_async)
            &&& st[k + 1] == run_statement(name, is_async, block)
            &&& !skip_teardown ==> st.len() == k + 4 && st[k + 2] == teardown_statement(
                ty,
                name,
                is_async,
            )
            &&& skip_teardown ==> st.len() == k + 3
            &&& st.last() == finish_statement()
        }),
{
}

/// With teardown skipped, no statement of the wrapper body tears the
/// context down; without, exactly one does.
pub proof fn lemma_teardown_iff_not_skipped(
    ty: Seq<char>,
    name: Seq<char>,
    skip_teardown: bool,
    is_async: bool,
    rooted: bool,
    block: Seq<char>,
)
    ensures
        ({
            let st = wrapper_statements(ty, name, skip_teardown, is_async, rooted, block);
            let td = teardown_statement(ty, name, is_async);
            &&& skip_teardown ==> forall|i: int| 0 <= i < st.len() ==> st[i] != td
            &&& !skip_teardown ==> forall|i: int|
                0 <= i < st.len() ==> (st[i] == td <==> i == setup_index(is_async) + 2)
        }),
{
    reveal_strlit("<");
    reveal_strlit("let mut ");
    reveal_strlit("let wrapped_result = { #[allow(unused_variables)] let ");
    reveal_strlit("let wrapped_result = { let mut ");
    reveal_strlit("match ");
    reveal_strlit("use test_context::futures::FutureExt; ");
    reveal_strlit("use ::test_context::futures::FutureExt; ");
    let st = wrapper_statements(ty, name, skip_teardown, is_async, rooted, block);
    let td = teardown_statement(ty, name, is_async);
    let k = setup_index(is_async);
    assert(td[0] == '<');
    assert(setup_statement(ty, name, is_async)[0] == 'l');
    assert(run_statement(name, is_async, block)[0] == 'l');
    assert(finish_statement()[0] == 'm');
    assert(use_statement(rooted)[0] == 'u');
    assert forall|i: int| 0 <= i < st.len() && i != k + 2 implies st[i] != td by {
        if is_async && i == 0 {
            assert(st[i][0] == 'u');
        } else if i == k {
            assert(st[i][0] == 'l');
        } else if i == k + 1 {
            assert(st[i][0] == 'l');
        } else {
            assert(i == st.len() - 1);
            assert(st[i][0] == 'm');
        }
    }
}

/// The text of a wrapper body before the test body.
pub open spec fn wrapper_head(ty: Seq<char>, name: Seq<char>, is_async: bool, rooted: bool) -> Seq<
    char,
> {
    "{ "@ + (if is_async {
        use_statement(rooted)
    } else {
        Seq::empty()
    }) + setup_statement(ty, name, is_async) + run_head(name, is_async)
}

/// The text of a wrapper body after the test body.
pub open spec fn wrapper_tail(ty: Seq<char>, name: Seq<char>, skip_teardown: bool, is_async: bool) -> Seq<char> {
    run_tail(is_async) + (if skip_teardown {
        Seq::empty()
    } else {
        teardown_statement(ty, name, is_async)
    }) + finish_statement() + "}"@
}

/// The wrapper places the test body verbatim, once, between a head and a
/// tail that do not depend on the body.
#[verifier::rlimit(60)]
pub proof fn lemma_body_verbatim(
    ty: Seq<char>,
    name: Seq<char>,
    skip_teardown: bool,
    is_async: bool,
    rooted: bool,
    block: Seq<char>,
)
    ensures
        wrapper_text(ty, name, skip_teardown, is_async, rooted, block) == wrapper_head(ty, name, is_async, rooted)
            + block + wrapper_tail(ty, name, skip_teardown, is_async),
{
    let u = if is_async {
        use_statement(rooted)
    } else {
        Seq::<char>::empty()
    };
    let pre: Seq<Seq<char>> = if is_async {
        seq![use_statement(rooted)]
    } else {
        Seq::empty()
    };
    let setup = setup_statement(ty, name, is_async);
    let run = run_statement(name, is_async, block);
    let td = if skip_teardown {
        Seq::<char>::empty()
    } else {
        teardown_statement(ty, name, is_async)
    };
    let s1 = pre.push(setup);
    let s2 = s1.push(run);
    let s3 = if skip_teardown {
        s2
    } else {
        s2.push(teardown_statement(ty, name, is_async))
    };
    if is_async {
        lemma_concat_push(Seq::empty(), use_statement(rooted));
        assert(Seq::<Seq<char>>::empty().push(use_statement(rooted)) =~= pre);
    }
    assert(concat_all(pre) =~= u);
    lemma_concat_push(pre, setup);
    lemma_concat_push(s1, run);
    assert(concat_all(s2) =~= u + setup + run);
    if !skip_teardown {
        lemma_concat_push(s2, teardown_statement(ty, name, is_async));
    }
    assert(concat_all(s3) =~= u + setup + run + td);
    lemma_concat_push(s3, finish_statement());
    assert(wrapper_statements(ty, name, skip_teardown, is_async, rooted, block) == s3.push(
        finish_statement(),
    ));
    let head = wrapper_head(ty, name, is_async, rooted);
    let tail = wrapper_tail(ty, name, skip_teardown, is_async);
    assert(wrapper_text(ty, name, skip_teardown, is_async, rooted, block) =~= head + block + tail);
}

/// The rstest flavour tears the context down whether or not the arguments
/// ask to skip teardown.
pub proof fn lemma_rstest_ignores_skip(a: ContextArgsView, parts: FnPartsView)
    ensures
        rstest_fn_text(a, parts) == rstest_fn_text(
            ContextArgsView { skip_teardown: !a.skip_teardown, ..a },
            parts,
        ),
{
}

/// A wrapped test keeps its outer attributes and signature: the output
/// begins with them, and only the body is replaced.
pub proof fn lemma_keeps_signature(attr: Seq<char>, item: Seq<char>)
    ensures
        expand_test_context(attr, item) matches Ok(t) ==> {
            &&& item_fn_parts(item) matches Ok(p)
            &&& t.take((attrs_text(p.attrs, false) + p.head).len() as int) == attrs_text(
                p.attrs,
                false,
            ) + p.head
        },
{
    if let Ok(t) = expand_test_context(attr, item) {
        let p = item_fn_parts(item)->Ok_0;
        let pre = attrs_text(p.attrs, false) + p.head;
        assert(t.take(pre.len() as int) =~= pre);
    }
}

/// A wrapped test keeps its inner attributes at the start of its new body:
/// right after the body's opening brace stand the inner attributes, in order,
/// then the rest of the wrapper body.
pub proof fn lemma_inner_attrs_open_body(parts: FnPartsView, block: Seq<char>)
    requires
        block.len() > 0,
    ensures
        ({
            let pre = attrs_text(parts.attrs, false) + parts.head + " "@;
            let inner = attrs_text(parts.attrs, true);
            &&& inner.len() > 0 ==> fn_with_block(parts, block) == pre + block.take(1) + " "@
                + inner + block.skip(1)
            &&& inner.len() == 0 ==> fn_with_block(parts, block) == pre + block
        }),
{
}

/// The context's name never clashes with the variable that holds the body's
/// caught outcome, so teardown receives the context.
pub proof fn lemma_context_name_not_result_var(attr: Seq<char>)
    ensures
        parse_args(attr) matches Ok(a) ==> a.context_name != result_var(),
{
    crate::args::lemma_split_name_not_reserved(attr);
}

/// A wrapper body written out in one piece, from the inputs alone: the
/// `use` statement where async, the setup, the run of the body with its
/// panic caught, the teardown unless skipped, and the `match` that hands back
/// the body's value or raises its panic again.
pub open spec fn wrapper_source(
    ty: Seq<char>,
    name: Seq<char>,
    skip_teardown: bool,
    is_async: bool,
    rooted: bool,
    block: Seq<char>,
) -> Seq<char> {
    let finish = "match "@ + "wrapped_result"@
        + " { Ok(value) => value, Err(err) => { std::panic::resume_unwind(err); } }"@ + " "@;
    if is_async {
        "{ "@ + (if rooted {
            "use ::test_context::futures::FutureExt; "@
        } else {
            "use test_context::futures::FutureExt; "@
        }) + ("let mut "@ + name + " = <"@ + ty + " as test_context::AsyncTestContext>::"@
            + "setup("@ + ").await; "@) + ("let wrapped_result = { #[allow(unused_variables)] let "@
            + name + " = &mut "@ + name + "; std::panic::AssertUnwindSafe(async { "@ + block
            + " }).catch_unwind().await }; "@) + (if skip_teardown {
            Seq::empty()
        } else {
            "<"@ + ty + " as test_context::AsyncTestContext>::"@ + "teardown("@ + name
                + ").await; "@
        }) + finish + "}"@
    } else {
        "{ "@ + ("let mut "@ + name + " = <"@ + ty + " as test_context::TestContext>::"@
            + "setup("@ + "); "@) + ("let wrapped_result = { let mut "@ + name
            + " = std::panic::AssertUnwindSafe(&mut "@ + name
            + "); std::panic::catch_unwind(move || { #[allow(unused_variables)] let "@ + name
            + " = &mut **"@ + name + "; "@ + block + " }) }; "@) + (if skip_teardown {
            Seq::empty()
        } else {
            "<"@ + ty + " as test_context::TestContext>::"@ + "teardown("@ + name + "); "@
        }) + finish + "}"@
    }
}

/// Every wrapper body is the one written out in [`wrapper_source`]: async
/// exactly where the test is async, whether or not teardown is skipped, and
/// with the teardown call exactly where it is not skipped.
pub proof fn lemma_wrapper_source(
    ty: Seq<char>,
    name: Seq<char>,
    skip_teardown: bool,
    is_async: bool,
    rooted: bool,
    block: Seq<char>,
)
    ensures
        wrapper_text(ty, name, skip_teardown, is_async, rooted, block) == wrapper_source(
            ty,
            name,
            skip_teardown,
            is_async,
            rooted,
            block,
        ),
{
    lemma_body_verbatim(ty, name, skip_teardown, is_async, rooted, block);
    assert(wrapper_head(ty, name, is_async, rooted) + block + wrapper_tail(
        ty,
        name,
        skip_teardown,
        is_async,
    ) =~= wrapper_source(ty, name, skip_teardown, is_async, rooted, block));
}

/// The wrapper body that the arguments ask for is the one written out in
/// [`wrapper_source`] with their type, name and `skip_teardown`: an async test
/// gets the awaited wrapper also where teardown is skipped.
pub proof fn lemma_args_wrapper_source(a: ContextArgsView, is_async: bool, block: Seq<char>)
    ensures
        args_wrapper_text(a, is_async, block) == wrapper_source(
            a.context_type,
            a.context_name,
            a.skip_teardown,
            is_async,
            false,
            block,
        ),
        is_async ==> args_wrapper_text(a, is_async, block).take(
            "{ use test_context::futures::FutureExt; "@.len() as int,
        ) == "{ use test_context::futures::FutureExt; "@,
{
    lemma_wrapper_source(a.context_type, a.context_name, a.skip_teardown, is_async, false, block);
    if is_async {
        reveal_strlit("{ use test_context::futures::FutureExt; ");
        reveal_strlit("{ ");
        reveal_strlit("use test_context::futures::FutureExt; ");
        let w = args_wrapper_text(a, is_async, block);
        assert(w.take("{ use test_context::futures::FutureExt; "@.len() as int)
            =~= "{ use test_context::futures::FutureExt; "@);
    }
}

/// Skipping teardown takes out the teardown statement and nothing else: the
/// body with teardown is the body without it with the teardown call put in
/// right before the final `match`.
pub proof fn lemma_skip_removes_teardown(
    ty: Seq<char>,
    name: Seq<char>,
    is_async: bool,
    rooted: bool,
    block: Seq<char>,
)
    ensures
        ({
            let with = wrapper_source(ty, name, false, is_async, rooted, block);
            let without = wrapper_source(ty, name, true, is_async, rooted, block);
            let tail_len = "match "@.len() + "wrapped_result"@.len()
                + " { Ok(value) => value, Err(err) => { std::panic::resume_unwind(err); } }"@.len()
                + " "@.len() + "}"@.len();
            let k = without.len() - tail_len;
            let td = if is_async {
                "<"@ + ty + " as test_context::AsyncTestContext>::"@ + "teardown("@ + name
                    + ").await; "@
            } else {
                "<"@ + ty + " as test_context::TestContext>::"@ + "teardown("@ + name + "); "@
            };
            &&& 0 <= k <= without.len()
            &&& with == without.take(k) + td + without.skip(k)
        }),
{
    let with = wrapper_source(ty, name, false, is_async, rooted, block);
    let without = wrapper_source(ty, name, true, is_async, rooted, block);
    let finish = "match "@ + "wrapped_result"@
        + " { Ok(value) => value, Err(err) => { std::panic::resume_unwind(err); } }"@ + " "@;
    let tail = finish + "}"@;
    let k = without.len() - tail.len();
    assert(without.skip(k) =~= tail);
    assert(with =~= without.take(k) + (if is_async {
        "<"@ + ty + " as test_context::AsyncTestContext>::"@ + "teardown("@ + name + ").await; "@
    } else {
        "<"@ + ty + " as test_context::TestContext>::"@ + "teardown("@ + name + "); "@
    }) + without.skip(k));
}

/// Where both the arguments and the item read, the attribute gives the item's
/// function with the wrapper body of [`wrapper_source`] for the arguments'
/// type, name and `skip_teardown` and the item's asyncness, unless that body
/// does not read as a block; and it gives nothing else.
pub proof fn lemma_expand_source(attr: Seq<char>, item: Seq<char>)
    ensures
        expand_test_context(attr, item) matches Ok(t) ==> {
            &&& parse_args(attr) matches Ok(a)
            &&& item_fn_parts(item) matches Ok(p)
            &&& t == fn_with_block(
                p,
                wrapper_source(
                    a.context_type,
                    a.context_name,
                    a.skip_teardown,
                    p.is_async,
                    false,
                    p.block,
                ),
            )
        },
        parse_args(attr) matches Ok(a) ==> item_fn_parts(item) matches Ok(p) ==> {
            let w = wrapper_source(
                a.context_type,
                a.context_name,
                a.skip_teardown,
                p.is_async,
                false,
                p.block,
            );
            rust_block_error(w) is None ==> expand_test_context(attr, item) == Ok::<
                Seq<char>,
                ExpandErrorView,
            >(fn_with_block(p, w))
        },
{
    if let Ok(a) = parse_args(attr) {
        if let Ok(p) = item_fn_parts(item) {
            lemma_args_wrapper_source(a, p.is_async, p.block);
        }
    }
}

/// Where both the arguments and the item read, the rstest flavour gives all
/// the item's attributes, `async fn`, its name, its parameters, its return
/// type, and the rooted async wrapper body of [`wrapper_source`] with teardown;
/// and it gives nothing else.
pub proof fn lemma_rstest_source(attr: Seq<char>, item: Seq<char>)
    ensures
        parse_args(attr) matches Ok(a) ==> item_fn_parts(item) matches Ok(p)
            ==> expand_test_context_rstest(attr, item) == Ok::<Seq<char>, ExpandErrorView>(
            all_attrs_text(p.attrs) + "async fn "@ + p.ident + "("@ + p.inputs + ") "@ + p.output
                + " "@ + wrapper_source(a.context_type, a.context_name, false, true, true, p.block),
        ),
        expand_test_context_rstest(attr, item) is Ok ==> parse_args(attr) is Ok && item_fn_parts(
            item,
        ) is Ok,
{
    if let Ok(a) = parse_args(attr) {
        if let Ok(p) = item_fn_parts(item) {
            lemma_wrapper_source(a.context_type, a.context_name, false, true, true, p.block);
        }
    }
}

/// The attributes of one style in a list are those of its parts one after
/// the other: splitting the list never loses or reorders an attribute.
pub proof fn lemma_attrs_text_concat(
    xs: Seq<(Seq<char>, bool)>,
    ys: Seq<(Seq<char>, bool)>,
    inner: bool,
)
    ensures
        attrs_text(xs + ys, inner) == attrs_text(xs, inner) + attrs_text(ys, inner),
        all_attrs_text(xs + ys) == all_attrs_text(xs) + all_attrs_text(ys),
    decreases ys.len(),
{
    if ys.len() == 0 {
        assert(xs + ys =~= xs);
        assert(attrs_text(xs, inner) + attrs_text(ys, inner) =~= attrs_text(xs, inner));
        assert(all_attrs_text(xs) + all_attrs_text(ys) =~= all_attrs_text(xs));
    } else {
        let zs = ys.drop_last();
        assert((xs + ys).drop_last() =~= xs + zs);
        assert((xs + ys).last() == ys.last());
        lemma_attrs_text_concat(xs, zs, inner);
        assert(attrs_text(xs + ys, inner) =~= attrs_text(xs, inner) + attrs_text(ys, inner));
        assert(all_attrs_text(xs + ys) =~= all_attrs_text(xs) + all_attrs_text(ys));
    }
}

/// One attribute gives its text and a space where it is of the style asked
/// for, and nothing otherwise.
pub proof fn lemma_attrs_text_single(text: Seq<char>, is_inner: bool, inner: bool)
    ensures
        attrs_text(seq![(text, is_inner)], inner) == if is_inner == inner {
            text + " "@
        } else {
            Seq::empty()
        },
        all_attrs_text(seq![(text, is_inner)]) == text + " "@,
{
    let one = seq![(text, is_inner)];
    assert(one.len() == 1);
    assert(one.last() == (text, is_inner));
    assert(one.drop_last() =~= Seq::<(Seq<char>, bool)>::empty());
    assert(attrs_text(one.drop_last(), inner) == Seq::<char>::empty());
    assert(all_attrs_text(one.drop_last()) == Seq::<char>::empty());
    assert(Seq::<char>::empty() + text + " "@ =~= text + " "@);
}

} // verus!
