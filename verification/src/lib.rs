//! Setup and teardown wrapping for test functions.
//!
//! The attribute `test_context(Type, "name", skip_teardown)` rewrites a test
//! function so that a context of `Type` is set up before the test body runs,
//! is reachable from the body under `name`, and is torn down after the body
//! has finished, also when the body panicked.  This crate holds the logic of
//! that rewrite over Rust source text: the grammar of the attribute's
//! arguments and the text of the wrapped function.
pub mod args;
pub mod expand;
pub mod syntax;

pub use args::{parse_context_args, split_context_args, ArgsError, ContextArgs};
pub use expand::{
    async_wrapper_body, handle_result, replace_block, rstest_fn, sync_wrapper_body, test_context,
    test_context_rstest, wrapper_body, ExpandError,
};
pub use syntax::FnParts;
