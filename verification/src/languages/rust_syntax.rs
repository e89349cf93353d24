//! Reading Rust sources with `syn`: every function item of a file, met in
//! the order a full traversal of the syntax tree meets them, converted into
//! the plain model of `languages::rust`. What comes out is named
//! (`rust_items_of`); the analysis of the items is verified.
use vstd::prelude::*;
use proc_macro2::TokenTree;
use quote::ToTokens;
use syn::visit::Visit;
use crate::languages::rust::{RustAttr, RustExpr, RustFnItem, RustMacro, RustStmt, RustToken};

verus! {

#[verifier::external_type_specification]
#[verifier::external_body]
pub struct ExSynItemFn(syn::ItemFn);

#[verifier::external_type_specification]
#[verifier::external_body]
pub struct ExSynAttribute(syn::Attribute);

#[verifier::external_type_specification]
#[verifier::external_body]
pub struct ExSynBlock(syn::Block);

#[verifier::external_type_specification]
#[verifier::external_body]
pub struct ExSynStmt(syn::Stmt);

#[verifier::external_type_specification]
#[verifier::external_body]
pub struct ExSynExpr(syn::Expr);

#[verifier::external_type_specification]
#[verifier::external_body]
pub struct ExSynMacro(syn::Macro);

/// The function items of the Rust file `source`, in the order a full
/// traversal of its `syn` tree meets them; `None` when `syn` does not parse it.
pub uninterp spec fn rust_items_of(source: Seq<char>) -> Option<Seq<RustFnItem>>;

/// Collects the function items a traversal meets.
struct FnCollector {
    items: Vec<RustFnItem>,
}

impl<'ast> Visit<'ast> for FnCollector {
    /// Keeps the item, converted, then goes on into its body
    /// (`syn::visit::visit_item_fn`), where nested items are met.
    #[verifier::external_body]
    fn visit_item_fn(&mut self, node: &'ast syn::ItemFn) {
        self.items.push(convert_fn(node));
        syn::visit::visit_item_fn(self, node);
    }
}

/// `syn::parse_file` of `source`, then `Visit::visit_file` with a
/// `FnCollector`. Claims the items are those `rust_items_of` names, and
/// `None` exactly when it names none.
#[verifier::external_body]
pub(crate) fn rust_items(source: &str) -> (r: Option<Vec<RustFnItem>>)
    ensures
        match r {
            Some(v) => rust_items_of(source@) == Some(v@),
            None => rust_items_of(source@) is None,
        },
{
    let file = syn::parse_file(source).ok()?;
    let mut collector = FnCollector { items: Vec::new() };
    collector.visit_file(&file);
    Some(collector.items)
}

/// An `ItemFn` as a `RustFnItem`: the name, the attributes, the body's
/// statements and the body's tokens as text.
#[verifier::external_body]
fn convert_fn(f: &syn::ItemFn) -> RustFnItem {
    RustFnItem {
        name: f.sig.ident.to_string(),
        attrs: f.attrs.iter().map(convert_attr).collect(),
        stmts: convert_block(&f.block),
        body_source: f.block.to_token_stream().to_string(),
    }
}

/// An `Attribute` as a `RustAttr`: its path's segments, whether the path is
/// one identifier, and whether the attribute is the path alone.
#[verifier::external_body]
fn convert_attr(a: &syn::Attribute) -> RustAttr {
    RustAttr {
        segments: a.path().segments.iter().map(|s| s.ident.to_string()).collect(),
        is_plain_ident: a.path().get_ident().is_some(),
        path_only: a.meta.require_path_only().is_ok(),
    }
}

/// The statements of a `Block`, each converted.
#[verifier::external_body]
fn convert_block(b: &syn::Block) -> Vec<RustStmt> {
    b.stmts.iter().map(convert_stmt).collect()
}

/// A `Stmt` as a `RustStmt`, one variant for each.
#[verifier::external_body]
fn convert_stmt(s: &syn::Stmt) -> RustStmt {
    match s {
        syn::Stmt::Expr(e, _) => RustStmt::Expr(convert_expr(e)),
        syn::Stmt::Local(l) => RustStmt::Local(l.init.as_ref().map(|i| convert_expr(&i.expr))),
        syn::Stmt::Macro(m) => RustStmt::Macro(convert_macro(&m.mac)),
        _ => RustStmt::Other,
    }
}

/// An `Expr` as a `RustExpr`: macros, calls and branches here, the rest in
/// `convert_other_expr`.
#[verifier::external_body]
fn convert_expr(e: &syn::Expr) -> RustExpr {
    match e {
        syn::Expr::Macro(m) => RustExpr::Macro(convert_macro(&m.mac)),
        syn::Expr::Call(c) => RustExpr::Call(convert_callee(&c.func)),
        syn::Expr::If(i) => RustExpr::If(
            convert_block(&i.then_branch),
            i.else_branch.as_ref().map(|(_, e)| Box::new(convert_expr(e))),
        ),
        syn::Expr::Match(m) => RustExpr::Match(m.arms.iter().map(|a| convert_expr(&a.body)).collect()),
        _ => convert_other_expr(e),
    }
}

/// Loops, blocks, method calls and `return` as `RustExpr`; anything else is `Other`.
#[verifier::external_body]
fn convert_other_expr(e: &syn::Expr) -> RustExpr {
    match e {
        syn::Expr::ForLoop(f) => RustExpr::ForLoop(convert_block(&f.body)),
        syn::Expr::While(w) => RustExpr::While(convert_block(&w.body)),
        syn::Expr::Loop(l) => RustExpr::Loop(convert_block(&l.body)),
        syn::Expr::Block(b) => RustExpr::Block(convert_block(&b.block)),
        syn::Expr::MethodCall(m) => RustExpr::MethodCall(m.method.to_string(), Box::new(convert_expr(&m.receiver))),
        syn::Expr::Return(_) => RustExpr::Return,
        _ => RustExpr::Other,
    }
}

/// The segments of a callee that is a path; `None` for any other callee.
#[verifier::external_body]
fn convert_callee(f: &syn::Expr) -> Option<Vec<String>> {
    match f {
        syn::Expr::Path(p) => Some(p.path.segments.iter().map(|s| s.ident.to_string()).collect()),
        _ => None,
    }
}

/// A `Macro` as a `RustMacro`: the last segment of its path and its
/// top-level tokens, punctuation and literals kept.
#[verifier::external_body]
fn convert_macro(m: &syn::Macro) -> RustMacro {
    RustMacro {
        name: m.path.segments.last().map(|s| s.ident.to_string()).unwrap_or_default(),
        tokens: m.tokens.clone().into_iter().map(|t| match t {
            TokenTree::Punct(p) => RustToken::Punct(p.as_char()),
            TokenTree::Literal(l) => RustToken::Literal(l.to_string()),
            _ => RustToken::Other,
        }).collect(),
    }
}

} // verus!
