use test_context_macros::test_context;

/// The text of the tokens of `s`, written with one space between tokens.
fn tokens(s: &str) -> String {
    s.parse::<proc_macro2::TokenStream>().expect("the text lexes").to_string()
}

/// The wrapped function that the attribute gives for a synchronous test.
fn sync_expansion(head: &str, ty: &str, name: &str, skip_teardown: bool, block: &str) -> String {
    let teardown = if skip_teardown {
        String::new()
    } else {
        format!("<{ty} as test_context::TestContext>::teardown({name});")
    };
    format!(
        "{head} {{ let mut {name} = <{ty} as test_context::TestContext>::setup(); \
         let wrapped_result = {{ let mut {name} = std::panic::AssertUnwindSafe(&mut {name}); \
         std::panic::catch_unwind(move || {{ #[allow(unused_variables)] let {name} = &mut **{name}; {block} }}) }}; \
         {teardown} \
         match wrapped_result {{ Ok(value) => value, Err(err) => {{ std::panic::resume_unwind(err); }} }} }}"
    )
}

fn assert_expands(attr: &str, item: &str, expected: &str) {
    let out = test_context(attr, item).expect("the test function is wrapped");
    assert!(syn::parse_str::<syn::ItemFn>(&out).is_ok());
    assert_eq!(tokens(&out), tokens(expected));
}

#[test]
fn test_sync_setup() {
    assert_expands(
        "Context, \"test_ctx\"",
        "#[test] fn test_sync_setup() { assert_eq!(test_ctx.n, 1); }",
        &sync_expansion(
            "#[test] fn test_sync_setup()",
            "Context",
            "test_ctx",
            false,
            "{ assert_eq!(test_ctx.n, 1); }",
        ),
    );
}

#[test]
fn includes_return_value() {
    assert_expands(
        "Context, \"ctx\"",
        "fn return_value_func() -> u32 { ctx.n }",
        &sync_expansion("fn return_value_func() -> u32", "Context", "ctx", false, "{ ctx.n }"),
    );
}

#[test]
fn test_generic_type() {
    assert_expands(
        "ContextGeneric<ContextGenericType1>, \"ctx\"",
        "#[test] fn test_generic_type() { assert_eq!(ctx.n, 1); }",
        &sync_expansion(
            "#[test] fn test_generic_type()",
            "ContextGeneric<ContextGenericType1>",
            "ctx",
            false,
            "{ assert_eq!(ctx.n, 1); }",
        ),
    );
}

#[test]
fn test_generic_type_other() {
    assert_expands(
        "ContextGeneric<ContextGenericType2>, \"ctx\"",
        "#[test] fn test_generic_type_other() { assert_eq!(ctx.n, 2); }",
        &sync_expansion(
            "#[test] fn test_generic_type_other()",
            "ContextGeneric<ContextGenericType2>",
            "ctx",
            false,
            "{ assert_eq!(ctx.n, 2); }",
        ),
    );
}

#[test]
fn async_auto_impls_sync() {
    assert_expands(
        "AsyncContext, \"ctx\"",
        "#[test] fn async_auto_impls_sync() { assert_eq!(ctx.n, 1); }",
        &sync_expansion(
            "#[test] fn async_auto_impls_sync()",
            "AsyncContext",
            "ctx",
            false,
            "{ assert_eq!(ctx.n, 1); }",
        ),
    );
}

#[test]
fn use_different_name() {
    assert_expands(
        "Context, \"test_data\"",
        "#[test] fn use_different_name() { assert_eq!(test_data.n, 1); }",
        &sync_expansion(
            "#[test] fn use_different_name()",
            "Context",
            "test_data",
            false,
            "{ assert_eq!(test_data.n, 1); }",
        ),
    );
}

#[test]
fn test_sync_skip_teardown() {
    assert_expands(
        "TeardownPanicContext, \"_ctx\", skip_teardown",
        "#[test] fn test_sync_skip_teardown() {}",
        &sync_expansion(
            "#[test] fn test_sync_skip_teardown()",
            "TeardownPanicContext",
            "_ctx",
            true,
            "{}",
        ),
    );
}

#[test]
fn test_generic_with_u32() {
    assert_expands(
        "GenericContext<u32>, \"ctx\"",
        "#[test] fn test_generic_with_u32() { assert_eq!(ctx.contents, 1); }",
        &sync_expansion(
            "#[test] fn test_generic_with_u32()",
            "GenericContext<u32>",
            "ctx",
            false,
            "{ assert_eq!(ctx.contents, 1); }",
        ),
    );
}

#[test]
fn test_generic_with_string() {
    assert_expands(
        "GenericContext<String>, \"ctx\"",
        "#[test] fn test_generic_with_string() { assert_eq!(ctx.contents, \"hello world\"); }",
        &sync_expansion(
            "#[test] fn test_generic_with_string()",
            "GenericContext<String>",
            "ctx",
            false,
            "{ assert_eq!(ctx.contents, \"hello world\"); }",
        ),
    );
}

#[test]
fn test_addition() {
    let item = "#[rstest] #[case(2, 2, 4)] #[test] \
        fn test_addition(#[case] a: i32, #[case] b: i32, #[case] expected: i32) { \
        println!(\" {} + {} = {}\", a, b, expected); \
        assert_eq!(a + b, expected); \
        assert_eq!(test_ctx.n, 42); }";
    assert_expands(
        "MyContext, \"test_ctx\"",
        item,
        &sync_expansion(
            "#[rstest] #[case(2, 2, 4)] #[test] \
             fn test_addition(#[case] a: i32, #[case] b: i32, #[case] expected: i32)",
            "MyContext",
            "test_ctx",
            false,
            "{ println!(\" {} + {} = {}\", a, b, expected); \
             assert_eq!(a + b, expected); assert_eq!(test_ctx.n, 42); }",
        ),
    );
}
