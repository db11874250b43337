//! Rust syntax as `syn` reads it, seen from the library as plain text.
//!
//! Each call below first switches proc-macro2 to its own implementation
//! (`proc_macro2::fallback::force`), for the rest of the process, so that the
//! text is lexed and printed by proc-macro2's own lexer and printer whether
//! or not the call runs inside the compiler.  What each call gives back then
//! depends on its text alone (and on the versions of `syn` and proc-macro2).
use quote::ToTokens;
use vstd::prelude::*;

verus! {

/// The parts of a function item that the rewrite reads, each as the text of
/// its tokens.
pub struct FnParts {
    /// Each attribute, in order, with whether it is an inner attribute
    /// (`#![..]`, written at the start of the body) rather than an outer one
    /// (`#[..]`, written before the function).
    pub attrs: Vec<(String, bool)>,
    /// Visibility and signature: everything between the outer attributes and the body.
    pub head: String,
    /// The function's name.
    pub ident: String,
    /// The parameter list, without its parentheses.
    pub inputs: String,
    /// The return type with its arrow, or nothing.
    pub output: String,
    /// Whether the function is `async`.
    pub is_async: bool,
    /// The body's statements in braces, without the inner attributes.
    pub block: String,
}

/// The mathematical value of [`FnParts`].
pub struct FnPartsView {
    pub attrs: Seq<(Seq<char>, bool)>,
    pub head: Seq<char>,
    pub ident: Seq<char>,
    pub inputs: Seq<char>,
    pub output: Seq<char>,
    pub is_async: bool,
    pub block: Seq<char>,
}

impl View for FnParts {
    type V = FnPartsView;

    open spec fn view(&self) -> FnPartsView {
        FnPartsView {
            attrs: self.attrs.deep_view(),
            head: self.head@,
            ident: self.ident@,
            inputs: self.inputs@,
            output: self.output@,
            is_async: self.is_async,
            block: self.block@,
        }
    }
}

/// What `syn` reads from `text` as a whole function item (`syn::ItemFn`),
/// each part printed back as token text by proc-macro2's own printer; or the
/// text of `syn`'s error where `text` is no function item.
pub uninterp spec fn item_fn_parts(text: Seq<char>) -> Result<FnPartsView, Seq<char>>;

/// `None` where `syn` reads all of `text` as one type (`syn::Type`); else the
/// text of `syn`'s error.
pub uninterp spec fn rust_type_error(text: Seq<char>) -> Option<Seq<char>>;

/// `None` where `syn` reads all of `text` as one block (`syn::Block`); else
/// the text of `syn`'s error.
pub uninterp spec fn rust_block_error(text: Seq<char>) -> Option<Seq<char>>;

/// The value of an optional message.
pub open spec fn opt_text(o: Option<String>) -> Option<Seq<char>> {
    match o {
        Some(s) => Some(s@),
        None => None,
    }
}

/// Switches proc-macro2 to its own implementation, reads `text` with
/// `syn::parse_str::<syn::ItemFn>` and prints each part
/// back with `quote::ToTokens`, each attribute with whether its style is
/// inner; on failure, the error's `to_string`.  Claimed: the outcome is the
/// value that [`item_fn_parts`] names for `text`.  What the parts are is left
/// to `syn`.
#[verifier::external_body]
pub(crate) fn parse_item_fn(text: &str) -> (r: Result<FnParts, String>)
    ensures
        match (r, item_fn_parts(text@)) {
            (Ok(p), Ok(v)) => p@ == v,
            (Err(e), Err(m)) => e@ == m,
            _ => false,
        },
{
    proc_macro2::fallback::force();
    let f = syn::parse_str::<syn::ItemFn>(text).map_err(|e| e.to_string())?;
    let mut head = f.vis.to_token_stream();
    f.sig.to_tokens(&mut head);
    let attrs = f.attrs.iter().map(|a| (a.to_token_stream().to_string(), matches!(a.style, syn::AttrStyle::Inner(_))));
    Ok(FnParts {
        attrs: attrs.collect(),
        head: head.to_string(),
        ident: f.sig.ident.to_string(),
        inputs: f.sig.inputs.to_token_stream().to_string(),
        output: f.sig.output.to_token_stream().to_string(),
        is_async: f.sig.asyncness.is_some(),
        block: f.block.to_token_stream().to_string(),
    })
}

/// Switches proc-macro2 to its own implementation and calls
/// `syn::parse_str::<syn::Type>`, keeping the error's `to_string`.  Claimed: the outcome is the value
/// that [`rust_type_error`] names for `text`.
#[verifier::external_body]
pub(crate) fn type_error(text: &str) -> (r: Option<String>)
    ensures
        opt_text(r) == rust_type_error(text@),
{
    proc_macro2::fallback::force();
    syn::parse_str::<syn::Type>(text).err().map(|e| e.to_string())
}

/// Switches proc-macro2 to its own implementation and calls
/// `syn::parse_str::<syn::Block>`, keeping the error's `to_string`.  Claimed: the outcome is the value
/// that [`rust_block_error`] names for `text`.
#[verifier::external_body]
pub(crate) fn block_error(text: &str) -> (r: Option<String>)
    ensures
        opt_text(r) == rust_block_error(text@),
{
    proc_macro2::fallback::force();
    syn::parse_str::<syn::Block>(text).err().map(|e| e.to_string())
}

} // verus!
