//! The linkage rewrites of the build-time bitcode linker.
//!
//! Linking wants every dependency symbol present but nothing exported
//! afterwards, so the linker promotes symbols for linking, then demotes the
//! linked ones, and finally internalises the whole module.  The decision per
//! symbol is pure; these functions apply it to a module's symbol table, and
//! the caller mirrors each decision onto the real module.

use vstd::prelude::*;

verus! {

/// What kind of module symbol an entry describes.
#[derive(Clone, Copy, Debug, PartialEq, Eq, Structural)]
pub enum SymbolKind {
    Global,
    GlobalAlias,
    GlobalIFunc,
    Function,
}

/// The linkage states the rewrites distinguish; every other linkage is
/// `Other`, and is treated like an internal one.
#[derive(Clone, Copy, Debug, PartialEq, Eq, Structural)]
pub enum Linkage {
    External,
    LinkOnceAny,
    Private,
    Other,
}

/// One symbol of a module: its kind, linkage, and whether it is a bare
/// declaration without a body.
#[derive(Clone, Copy, Debug, PartialEq, Eq, Structural)]
pub struct SymbolInfo {
    pub kind: SymbolKind,
    pub linkage: Linkage,
    pub is_declaration: bool,
}

/// Promotion before linking: every symbol becomes `linkonce_any`, so the
/// link keeps a body for it without exporting it.
pub open spec fn promoted_symbol(s: SymbolInfo) -> SymbolInfo {
    SymbolInfo { linkage: Linkage::LinkOnceAny, ..s }
}

/// Demotion after linking: what was promoted for the link turns private;
/// everything else keeps its linkage.
pub open spec fn demoted_symbol(s: SymbolInfo) -> SymbolInfo {
    if s.linkage is LinkOnceAny {
        SymbolInfo { linkage: Linkage::Private, ..s }
    } else {
        s
    }
}

/// Final internalisation: every function with a body turns private, and so
/// does every other symbol except the external ones — those are the runtime
/// hooks the host satisfies at materialisation time.
pub open spec fn internalized_symbol(s: SymbolInfo) -> SymbolInfo {
    match s.kind {
        SymbolKind::Function => if !s.is_declaration {
            SymbolInfo { linkage: Linkage::Private, ..s }
        } else {
            s
        },
        _ => if !(s.linkage is External) {
            SymbolInfo { linkage: Linkage::Private, ..s }
        } else {
            s
        },
    }
}

/// Promote every symbol of a module for linking.
pub fn mark_all_module_items_for_linking(symbols: &mut Vec<SymbolInfo>)
    ensures
        final(symbols)@.len() == old(symbols)@.len(),
        forall|i: int|
            0 <= i < old(symbols)@.len() ==> #[trigger] final(symbols)@[i] == promoted_symbol(
                old(symbols)@[i],
            ),
        forall|i: int|
            0 <= i < final(symbols)@.len() ==> (#[trigger] final(symbols)@[i]).linkage
                is LinkOnceAny,
{
    let n = symbols.len();
    for i in 0..n
        invariant
            n == symbols@.len() == old(symbols)@.len(),
            forall|j: int|
                0 <= j < i ==> #[trigger] symbols@[j] == promoted_symbol(old(symbols)@[j]),
            forall|j: int| i <= j < n ==> #[trigger] symbols@[j] == old(symbols)@[j],
    {
        let s = symbols[i];
        symbols[i] = SymbolInfo { linkage: Linkage::LinkOnceAny, ..s };
    }
}

/// Demote every symbol that was promoted for linking to private.  Afterwards
/// no symbol is `linkonce_any` any more.
pub fn replace_linked_with_private(symbols: &mut Vec<SymbolInfo>)
    ensures
        final(symbols)@.len() == old(symbols)@.len(),
        forall|i: int|
            0 <= i < old(symbols)@.len() ==> #[trigger] final(symbols)@[i] == demoted_symbol(
                old(symbols)@[i],
            ),
        forall|i: int|
            0 <= i < final(symbols)@.len() ==> !((#[trigger] final(symbols)@[i]).linkage
                is LinkOnceAny),
{
    let n = symbols.len();
    for i in 0..n
        invariant
            n == symbols@.len() == old(symbols)@.len(),
            forall|j: int|
                0 <= j < i ==> #[trigger] symbols@[j] == demoted_symbol(old(symbols)@[j]),
            forall|j: int| i <= j < n ==> #[trigger] symbols@[j] == old(symbols)@[j],
    {
        let s = symbols[i];
        if s.linkage == Linkage::LinkOnceAny {
            symbols[i] = SymbolInfo { linkage: Linkage::Private, ..s };
        }
    }
}

/// Internalise the optimised module.  Afterwards every function with a body
/// is private, and every other symbol is private unless it was external —
/// external ones are the runtime hooks left for the host to satisfy.
pub fn mark_all_as_private(symbols: &mut Vec<SymbolInfo>)
    ensures
        final(symbols)@.len() == old(symbols)@.len(),
        forall|i: int|
            0 <= i < old(symbols)@.len() ==> #[trigger] final(symbols)@[i] == internalized_symbol(
                old(symbols)@[i],
            ),
        forall|i: int|
            0 <= i < final(symbols)@.len() ==> ((#[trigger] final(symbols)@[i]).kind is Function
                && !final(symbols)@[i].is_declaration ==> final(symbols)@[i].linkage is Private),
        forall|i: int|
            0 <= i < final(symbols)@.len() ==> (!((#[trigger] final(symbols)@[i]).kind
                is Function) ==> (final(symbols)@[i].linkage is Private
                || final(symbols)@[i].linkage is External)),
{
    let n = symbols.len();
    for i in 0..n
        invariant
            n == symbols@.len() == old(symbols)@.len(),
            forall|j: int|
                0 <= j < i ==> #[trigger] symbols@[j] == internalized_symbol(old(symbols)@[j]),
            forall|j: int| i <= j < n ==> #[trigger] symbols@[j] == old(symbols)@[j],
    {
        let s = symbols[i];
        match s.kind {
            SymbolKind::Function => {
                if !s.is_declaration {
                    symbols[i] = SymbolInfo { linkage: Linkage::Private, ..s };
                }
            },
            _ => {
                if s.linkage != Linkage::External {
                    symbols[i] = SymbolInfo { linkage: Linkage::Private, ..s };
                }
            },
        }
    }
}

} // verus!
