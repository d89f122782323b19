//! Whether a typed declaration is documented, and what its page shows.
use vstd::prelude::*;

use crate::decl_engine::{CompileError, DeclPayload, Visibility};
use crate::declaration::{friendly_name_str, Engines, TyDeclaration};
use crate::fmt::{data_types_from, format_data_types, CommentMode};
use crate::span::{Ident, Span};
use crate::text::{chars_of, string_of};

verus! {

/// What a documentation page shows for one declaration.
#[derive(Clone, Debug)]
pub struct Document {
    pub item_name: Ident,
    pub friendly_name: String,
    pub code_str: String,
    pub attrs_opt: Option<String>,
}

pub enum Descriptor {
    Documentable(Document),
    NonDocumentable,
}

/// The name on the page: the payload's own, `Contract Storage` for
/// storage, the trait's name for an impl.
pub open spec fn page_name(p: DeclPayload) -> Option<Seq<char>> {
    match p {
        DeclPayload::Struct(s) => Some(s.name.name@),
        DeclPayload::Enum(e) => Some(e.name.name@),
        DeclPayload::Trait(t) => Some(t.name.name@),
        DeclPayload::Abi(a) => Some(a.name.name@),
        DeclPayload::Storage(_) => Some("Contract Storage"@),
        DeclPayload::ImplTrait(i) => Some(i.trait_name.name@),
        DeclPayload::Function(f) => Some(f.name.name@),
        DeclPayload::Constant(c) => Some(c.name.name@),
    }
}

pub open spec fn payload_span(p: DeclPayload) -> Span {
    match p {
        DeclPayload::Struct(s) => s.span,
        DeclPayload::Enum(e) => e.span,
        DeclPayload::Trait(t) => t.span,
        DeclPayload::Abi(a) => a.span,
        DeclPayload::Storage(s) => s.span,
        DeclPayload::ImplTrait(i) => i.span,
        DeclPayload::Function(f) => f.span,
        DeclPayload::Constant(c) => c.span,
    }
}

/// Private structs, enums, traits, functions and constants are left out
/// unless private items are documented; ABIs, storage and impls never are.
pub open spec fn hidden(p: DeclPayload, document_private_items: bool) -> bool {
    !document_private_items && match p {
        DeclPayload::Struct(s) => s.visibility == Visibility::Private,
        DeclPayload::Enum(e) => e.visibility == Visibility::Private,
        DeclPayload::Trait(t) => t.visibility == Visibility::Private,
        DeclPayload::Function(f) => f.visibility == Visibility::Private,
        DeclPayload::Constant(c) => c.visibility == Visibility::Private,
        _ => false,
    }
}

/// The source shown on the page: structs and enums reformatted, every other
/// kind as written.
pub open spec fn page_code(p: DeclPayload, source: Seq<char>) -> Seq<char> {
    let text = source.subrange(payload_span(p).start as int, payload_span(p).end as int);
    match p {
        DeclPayload::Struct(_) | DeclPayload::Enum(_) => data_types_from(text, 0, CommentMode::Code),
        _ => text,
    }
}

/// Whether the payload of a handle-backed kind is of that kind.
pub open spec fn doc_kind_matches(d: TyDeclaration, p: DeclPayload) -> bool {
    match d {
        TyDeclaration::StructDeclaration { .. } => p is Struct,
        TyDeclaration::EnumDeclaration { .. } => p is Enum,
        TyDeclaration::TraitDeclaration { .. } => p is Trait,
        TyDeclaration::AbiDeclaration { .. } => p is Abi,
        TyDeclaration::StorageDeclaration { .. } => p is Storage,
        TyDeclaration::ImplTrait { .. } => p is ImplTrait,
        TyDeclaration::FunctionDeclaration { .. } => p is Function,
        TyDeclaration::ConstantDeclaration { .. } => p is Constant,
        _ => false,
    }
}

pub open spec fn doc_handle(d: TyDeclaration) -> Option<(crate::decl_engine::DeclId, Span)> {
    match d {
        TyDeclaration::StructDeclaration { decl_id, decl_span, .. } => Some((decl_id, decl_span)),
        TyDeclaration::EnumDeclaration { decl_id, decl_span, .. } => Some((decl_id, decl_span)),
        TyDeclaration::TraitDeclaration { decl_id, decl_span, .. } => Some((decl_id, decl_span)),
        TyDeclaration::AbiDeclaration { decl_id, decl_span, .. } => Some((decl_id, decl_span)),
        TyDeclaration::StorageDeclaration { decl_id, decl_span } => Some((decl_id, decl_span)),
        TyDeclaration::ImplTrait { decl_id, decl_span, .. } => Some((decl_id, decl_span)),
        TyDeclaration::FunctionDeclaration { decl_id, decl_span, .. } => Some((decl_id, decl_span)),
        TyDeclaration::ConstantDeclaration { decl_id, decl_span, .. } => Some((decl_id, decl_span)),
        _ => None,
    }
}

/// Every payload's span lies within `n` characters of source.
pub open spec fn spans_within(decls: Seq<DeclPayload>, n: nat) -> bool {
    forall|j: int|
        0 <= j < decls.len() ==> payload_span(#[trigger] decls[j]).start <= payload_span(decls[j]).end
            <= n
}

impl Descriptor {
    /// Decides whether a declaration is documented and, if so, what its
    /// page shows. `source` is the text the spans point into. Structs and
    /// enums are reformatted with [`format_data_types`]; every other kind is
    /// shown as written, function bodies included. Payloads carry no
    /// attributes and no item context (fields, variants, methods), so the
    /// page has neither.
    pub fn from_typed_decl(
        engines: &Engines,
        ty_decl: &TyDeclaration,
        source: &str,
        document_private_items: bool,
    ) -> (r: Result<Descriptor, CompileError>)
        requires
            engines.wf(),
            spans_within(engines.de@, source@.len()),
        ensures
            match doc_handle(*ty_decl) {
                None => r matches Ok(Descriptor::NonDocumentable),
                Some((id, span)) => {
                    let ok = id.0 < engines.de@.len() && doc_kind_matches(*ty_decl, engines.de@[id.0 as int]);
                    let p = engines.de@[id.0 as int];
                    match r {
                        Err(e) => !ok && e == (CompileError::InvalidDeclHandle { span }),
                        Ok(Descriptor::NonDocumentable) => ok && hidden(p, document_private_items),
                        Ok(Descriptor::Documentable(doc)) => {
                            &&& ok
                            &&& !hidden(p, document_private_items)
                            &&& Some(doc.item_name.name@) == page_name(p)
                            &&& doc.friendly_name@ == friendly_name_str(engines.te@, engines.de@, *ty_decl)
                            &&& doc.code_str@ == page_code(p, source@)
                            &&& doc.attrs_opt is None
                        },
                    }
                },
            },
    {
        let (id, span) = match ty_decl {
            TyDeclaration::StructDeclaration { decl_id, decl_span, .. }
            | TyDeclaration::EnumDeclaration { decl_id, decl_span, .. }
            | TyDeclaration::TraitDeclaration { decl_id, decl_span, .. }
            | TyDeclaration::AbiDeclaration { decl_id, decl_span, .. }
            | TyDeclaration::StorageDeclaration { decl_id, decl_span }
            | TyDeclaration::ImplTrait { decl_id, decl_span, .. }
            | TyDeclaration::FunctionDeclaration { decl_id, decl_span, .. }
            | TyDeclaration::ConstantDeclaration { decl_id, decl_span, .. } => (*decl_id, *decl_span),
            _ => {
                return Ok(Descriptor::NonDocumentable);
            },
        };
        if id.0 >= engines.de.len() {
            return Err(CompileError::InvalidDeclHandle { span });
        }
        let p = engines.de.get(id);
        let matches_kind = match (ty_decl, p) {
            (TyDeclaration::StructDeclaration { .. }, DeclPayload::Struct(_))
            | (TyDeclaration::EnumDeclaration { .. }, DeclPayload::Enum(_))
            | (TyDeclaration::TraitDeclaration { .. }, DeclPayload::Trait(_))
            | (TyDeclaration::AbiDeclaration { .. }, DeclPayload::Abi(_))
            | (TyDeclaration::StorageDeclaration { .. }, DeclPayload::Storage(_))
            | (TyDeclaration::ImplTrait { .. }, DeclPayload::ImplTrait(_))
            | (TyDeclaration::FunctionDeclaration { .. }, DeclPayload::Function(_))
            | (TyDeclaration::ConstantDeclaration { .. }, DeclPayload::Constant(_)) => true,
            _ => false,
        };
        if !matches_kind {
            return Err(CompileError::InvalidDeclHandle { span });
        }
        let private = match p {
            DeclPayload::Struct(s) => s.visibility == Visibility::Private,
            DeclPayload::Enum(e) => e.visibility == Visibility::Private,
            DeclPayload::Trait(t) => t.visibility == Visibility::Private,
            DeclPayload::Function(f) => f.visibility == Visibility::Private,
            DeclPayload::Constant(c) => c.visibility == Visibility::Private,
            _ => false,
        };
        if !document_private_items && private {
            return Ok(Descriptor::NonDocumentable);
        }
        let (item_name, pspan, reformat) = match p {
            DeclPayload::Struct(s) => (s.name.duplicate(), s.span, true),
            DeclPayload::Enum(e) => (e.name.duplicate(), e.span, true),
            DeclPayload::Trait(t) => (t.name.duplicate(), t.span, false),
            DeclPayload::Abi(a) => (a.name.duplicate(), a.span, false),
            DeclPayload::Storage(s) => (
                Ident::new(String::from_str("Contract Storage"), Span::dummy()),
                s.span,
                false,
            ),
            DeclPayload::ImplTrait(i) => (i.trait_name.duplicate(), i.span, false),
            DeclPayload::Function(f) => (f.name.duplicate(), f.span, false),
            DeclPayload::Constant(c) => (c.name.duplicate(), c.span, false),
        };
        proof {
            assert(payload_span(engines.de@[id.0 as int]) == pspan);
        }
        let cs = chars_of(source);
        let text = string_of(&cs, pspan.start, pspan.end);
        let code_str = if reformat {
            format_data_types(text.as_str())
        } else {
            text
        };
        let friendly_name = ty_decl.friendly_name(engines);
        Ok(Descriptor::Documentable(Document { item_name, friendly_name, code_str, attrs_opt: None }))
    }
}

} // verus!
