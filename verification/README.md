# test_context_macros

The logic of the `test_context` attribute, verified with Verus: an attribute
that wraps a test function so that a context is set up before the test body,
is reachable from the body under a name, and is torn down afterwards, also
when the body panicked (unless `skip_teardown` is given).

- `src/args.rs`: the grammar of the arguments `Type [, "name"] [, skip_teardown] [,]`,
  with laws on reading back written-out arguments and on surrounding whitespace.
- `src/expand.rs`: the text of the wrapper bodies and of the wrapped function,
  with laws on the order of the statements in that text (setup, the body run
  with its panic caught, teardown, the re-raised panic) and on where the
  function's attributes stand.  How the generated code runs is not stated.
- `src/syntax.rs`: the calls into `syn` (reading a function item, a type, a block),
  with `syn`'s error messages.
- `app/lib.rs`: the entry points over the compiler's token streams.
