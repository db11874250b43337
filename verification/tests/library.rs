use test_context_macros::{
    async_wrapper_body, handle_result, parse_context_args, replace_block, rstest_fn,
    split_context_args, sync_wrapper_body, test_context, test_context_rstest, wrapper_body,
    ArgsError, ContextArgs, ExpandError, FnParts,
};

/// The text of the tokens of `s`, written with one space between tokens.
fn tokens(s: &str) -> String {
    s.parse::<proc_macro2::TokenStream>().expect("the text lexes").to_string()
}

fn is_fn_item(s: &str) -> bool {
    syn::parse_str::<syn::ItemFn>(s).is_ok()
}

fn args(ty: &str, name: &str, skip_teardown: bool) -> ContextArgs {
    ContextArgs {
        context_type: ty.to_string(),
        context_name: name.to_string(),
        skip_teardown,
    }
}

fn split(text: &str) -> Result<(String, String, bool), ArgsError> {
    split_context_args(text).map(|a| (a.context_type, a.context_name, a.skip_teardown))
}

fn parse(text: &str) -> Result<(String, String, bool), ArgsError> {
    parse_context_args(text).map(|a| (a.context_type, a.context_name, a.skip_teardown))
}

fn owned(ty: &str, name: &str, skip: bool) -> Result<(String, String, bool), ArgsError> {
    Ok((ty.to_string(), name.to_string(), skip))
}

#[test]
fn handle_result_text_is_exact() {
    assert_eq!(
        handle_result("wrapped_result"),
        "match wrapped_result { Ok(value) => value, Err(err) => { std::panic::resume_unwind(err); } }"
    );
}

#[test]
fn type_alone_takes_default_name() {
    assert_eq!(split("Context"), owned("Context", "ctx", false));
    assert_eq!(parse("Context"), owned("Context", "ctx", false));
}

#[test]
fn name_and_skip_teardown_are_read() {
    assert_eq!(
        split("TeardownPanicContext, \"_ctx\", skip_teardown"),
        owned("TeardownPanicContext", "_ctx", true)
    );
    assert_eq!(split("Context, skip_teardown"), owned("Context", "ctx", true));
    assert_eq!(split("Context, \"c\", skip_teardown,"), owned("Context", "c", true));
}

#[test]
fn whitespace_and_generic_commas() {
    assert_eq!(
        split("  HashMap<K, V> ,\n\"m\"  "),
        owned("HashMap<K, V>", "m", false)
    );
    assert_eq!(
        parse("HashMap < K , V > , \"m\""),
        owned("HashMap < K , V >", "m", false)
    );
}

#[test]
fn missing_context_type() {
    assert_eq!(split(""), Err(ArgsError::MissingContextType));
    assert_eq!(split("   "), Err(ArgsError::MissingContextType));
    assert_eq!(split(", \"ctx\""), Err(ArgsError::MissingContextType));
    assert_eq!(split(","), Err(ArgsError::MissingContextType));
}

#[test]
fn invalid_context_name() {
    assert_eq!(split("\"ctx\""), Err(ArgsError::InvalidContextName));
    assert_eq!(split("Context, \"1x\""), Err(ArgsError::InvalidContextName));
    assert_eq!(split("Context, \"_\""), Err(ArgsError::InvalidContextName));
    assert_eq!(split("Context, \"fn\""), Err(ArgsError::InvalidContextName));
    assert_eq!(split("Context, \"self\""), Err(ArgsError::InvalidContextName));
    assert_eq!(split("Context, \"fnx\""), owned("Context", "fnx", false));
    assert_eq!(split("Context, \"wrapped_result\""), Err(ArgsError::InvalidContextName));
    assert_eq!(split("Context, \"Ok\""), Err(ArgsError::InvalidContextName));
    assert_eq!(split("Context, \"Err\""), Err(ArgsError::InvalidContextName));
    assert_eq!(split("Context, \"Some\""), Err(ArgsError::InvalidContextName));
    assert_eq!(split("Context, \"None\""), Err(ArgsError::InvalidContextName));
    assert_eq!(split("Context, \"wrapped\""), owned("Context", "wrapped", false));
    assert_eq!(split("Context, \"a b\""), Err(ArgsError::InvalidContextName));
    assert_eq!(split("Context, ctx\""), Err(ArgsError::InvalidContextName));
    assert_eq!(split("Context \"ctx\""), Err(ArgsError::InvalidContextName));
}

#[test]
fn invalid_context_type_is_found_by_syn() {
    assert_eq!(split("Context, ctx"), owned("Context, ctx", "ctx", false));
    assert!(matches!(parse("Context, ctx"), Err(ArgsError::InvalidContextType(m)) if !m.is_empty()));
    assert!(matches!(parse("1 + 2"), Err(ArgsError::InvalidContextType(m)) if !m.is_empty()));
    assert_eq!(parse("Vec<u8>"), owned("Vec<u8>", "ctx", false));
}

#[test]
fn rendered_arguments_read_back() {
    assert_eq!(split("Ty, \"name\""), owned("Ty", "name", false));
    assert_eq!(split("Ty, \"name\", skip_teardown"), owned("Ty", "name", true));
    assert_eq!(split("Ty, \"name\"   \n"), split("Ty, \"name\""));
    assert_eq!(split(" \t Ty, \"name\", skip_teardown \r\n"), owned("Ty", "name", true));
}

#[test]
fn sync_body_with_teardown() {
    let body = sync_wrapper_body(&args("T", "c", false), "{ c.n }");
    assert_eq!(
        body,
        "{ let mut c = <T as test_context::TestContext>::setup(); \
         let wrapped_result = { let mut c = std::panic::AssertUnwindSafe(&mut c); \
         std::panic::catch_unwind(move || { #[allow(unused_variables)] let c = &mut **c; { c.n } }) }; \
         <T as test_context::TestContext>::teardown(c); \
         match wrapped_result { Ok(value) => value, Err(err) => { std::panic::resume_unwind(err); } } }"
    );
    assert_eq!(wrapper_body(&args("T", "c", false), false, "{ c.n }"), body);
}

#[test]
fn sync_body_without_teardown() {
    let body = sync_wrapper_body(&args("T", "c", true), "{}");
    assert!(!body.contains("teardown"));
    assert!(body.contains("setup()"));
}

#[test]
fn async_body_awaits_setup_and_teardown() {
    let body = async_wrapper_body(&args("T", "c", false), "{ c.n }");
    assert_eq!(
        body,
        "{ use test_context::futures::FutureExt; \
         let mut c = <T as test_context::AsyncTestContext>::setup().await; \
         let wrapped_result = { #[allow(unused_variables)] let c = &mut c; \
         std::panic::AssertUnwindSafe(async { { c.n } }).catch_unwind().await }; \
         <T as test_context::AsyncTestContext>::teardown(c).await; \
         match wrapped_result { Ok(value) => value, Err(err) => { std::panic::resume_unwind(err); } } }"
    );
    assert_eq!(wrapper_body(&args("T", "c", false), true, "{ c.n }"), body);
    let skipped = async_wrapper_body(&args("T", "c", true), "{}");
    assert!(!skipped.contains("teardown"));
}

#[test]
fn teardown_follows_panicking_body() {
    // The body's panic is caught, the context torn down, then the panic resumed.
    let out = test_context(
        "Context, \"ctx\"",
        "#[test] #[should_panic(expected = \"Number changed\")] fn test_panicking_teardown() { ctx.n = 2; panic!(\"First panic\"); }",
    )
    .unwrap();
    let catch = out.find("catch_unwind").unwrap();
    let body = out.find("First panic").unwrap();
    let teardown = out.find("teardown(ctx)").unwrap();
    let resume = out.find("resume_unwind").unwrap();
    assert!(catch < body && body < teardown && teardown < resume);
    assert!(is_fn_item(&out));
    assert!(tokens(&out).starts_with(&tokens("#[test] #[should_panic(expected = \"Number changed\")] fn test_panicking_teardown()")));
}

#[test]
fn async_test_gets_async_wrapper() {
    let out = test_context(
        "AsyncContext, \"ctx\"",
        "#[tokio::test] async fn test_async_setup() { assert_eq!(ctx.n, 1); }",
    )
    .unwrap();
    let expected = "#[tokio::test] async fn test_async_setup() { use test_context::futures::FutureExt; \
        let mut ctx = <AsyncContext as test_context::AsyncTestContext>::setup().await; \
        let wrapped_result = { #[allow(unused_variables)] let ctx = &mut ctx; \
        std::panic::AssertUnwindSafe(async { { assert_eq!(ctx.n, 1); } }).catch_unwind().await }; \
        <AsyncContext as test_context::AsyncTestContext>::teardown(ctx).await; \
        match wrapped_result { Ok(value) => value, Err(err) => { std::panic::resume_unwind(err); } } }";
    assert!(is_fn_item(&out));
    assert_eq!(tokens(&out), tokens(expected));
}

#[test]
fn inner_attributes_stay_in_the_body() {
    let out = test_context(
        "Context",
        "#[test] fn f() { #![allow(unused)] let x = ctx.n; }",
    )
    .unwrap();
    assert!(is_fn_item(&out));
    let expected = "#[test] fn f() { # ![allow(unused)] let mut ctx = <Context as test_context::TestContext>::setup(); \
        let wrapped_result = { let mut ctx = std::panic::AssertUnwindSafe(&mut ctx); \
        std::panic::catch_unwind(move || { #[allow(unused_variables)] let ctx = &mut **ctx; { let x = ctx.n; } }) }; \
        <Context as test_context::TestContext>::teardown(ctx); \
        match wrapped_result { Ok(value) => value, Err(err) => { std::panic::resume_unwind(err); } } }";
    assert_eq!(tokens(&out), tokens(expected));
}

#[test]
fn expansion_errors() {
    assert_eq!(
        test_context("", "fn f() {}"),
        Err(ExpandError::Args(ArgsError::MissingContextType))
    );
    assert!(matches!(
        test_context("1 + 2", "fn f() {}"),
        Err(ExpandError::Args(ArgsError::InvalidContextType(_)))
    ));
    match test_context("Context", "struct S;") {
        Err(ExpandError::InvalidItem(m)) => assert_eq!(m, "expected `fn`"),
        other => panic!("unexpected {:?}", other),
    }
    assert!(matches!(test_context("Context", "fn f() {"), Err(ExpandError::InvalidItem(_))));
    assert_eq!(
        test_context("Context, \"fn\"", "fn f() {}"),
        Err(ExpandError::Args(ArgsError::InvalidContextName))
    );
    assert_eq!(
        test_context_rstest("Context, \"1\"", "fn f() {}"),
        Err(ExpandError::Args(ArgsError::InvalidContextName))
    );
    assert!(matches!(test_context_rstest("Context", "let x = 1;"), Err(ExpandError::InvalidItem(_))));
    assert_eq!(ExpandError::InvalidBody("m".to_string()).message(), "m");
    assert_eq!(ExpandError::InvalidItem("n".to_string()).message(), "n");
    assert_eq!(
        ExpandError::Args(ArgsError::MissingContextType).message(),
        ArgsError::MissingContextType.message()
    );
}

#[test]
fn rstest_flavour_always_tears_down() {
    let item = "#[rstest] #[case(\"Hello world!\")] #[tokio::test] \
        async fn test_rstest_with(#[case] _value: String) { println!(\"{}\", test_ctx.n); }";
    let with_skip = test_context_rstest("MyAsyncContext, \"test_ctx\", skip_teardown", item).unwrap();
    let without = test_context_rstest("MyAsyncContext, \"test_ctx\"", item).unwrap();
    assert_eq!(with_skip, without);
    let expected = "#[rstest] #[case(\"Hello world!\")] #[tokio::test] \
        async fn test_rstest_with(#[case] _value: String) { use ::test_context::futures::FutureExt; \
        let mut test_ctx = <MyAsyncContext as test_context::AsyncTestContext>::setup().await; \
        let wrapped_result = { #[allow(unused_variables)] let test_ctx = &mut test_ctx; \
        std::panic::AssertUnwindSafe(async { { println!(\"{}\", test_ctx.n); } }).catch_unwind().await }; \
        <MyAsyncContext as test_context::AsyncTestContext>::teardown(test_ctx).await; \
        match wrapped_result { Ok(value) => value, Err(err) => { std::panic::resume_unwind(err); } } }";
    assert!(is_fn_item(&with_skip));
    assert_eq!(tokens(&with_skip), tokens(expected));
}

#[test]
fn rstest_makes_sync_function_async() {
    let out = test_context_rstest("C", "pub fn f(x: u8) -> u8 { x }").unwrap();
    let f = syn::parse_str::<syn::ItemFn>(&out).expect("a function");
    assert!(f.sig.asyncness.is_some());
    assert!(matches!(f.vis, syn::Visibility::Inherited));
    assert_eq!(f.sig.ident.to_string(), "f");
}

#[test]
fn replace_block_and_rstest_fn_from_parts() {
    let parts = FnParts {
        attrs: vec![("#[a]".to_string(), false), ("#![c]".to_string(), true), ("#[b]".to_string(), false)],
        head: "pub fn f(x: u8) -> u8".to_string(),
        ident: "f".to_string(),
        inputs: "x: u8".to_string(),
        output: "-> u8".to_string(),
        is_async: false,
        block: "{ x }".to_string(),
    };
    assert_eq!(replace_block(&parts, "{ 1 }"), "#[a] #[b] pub fn f(x: u8) -> u8 { #![c]  1 }");
    let a = args("T", "c", true);
    let f = rstest_fn(&a, &parts);
    assert!(f.starts_with("#[a] #![c] #[b] async fn f(x: u8) -> u8 { use ::test_context::futures::FutureExt; "));
    let body = async_wrapper_body(&args("T", "c", false), "{ x }");
    assert!(f.ends_with(&body["{ use test_context::futures::FutureExt; ".len()..]));
}
