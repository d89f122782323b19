//! The declaration engine: an append-only arena of elaborated declaration
//! payloads behind opaque handles.
use vstd::prelude::*;

use crate::span::{Ident, Span};
use crate::type_engine::{fields_below, variants_below, TyEnumVariant, TyStructField, TypeId};

verus! {

/// A handle to a payload stored in a [`DeclEngine`].
#[derive(Clone, Copy, Debug, PartialEq, Eq, Structural, Hash)]
pub struct DeclId(pub usize);

#[derive(Clone, Copy, Debug, PartialEq, Eq, Structural)]
pub enum Visibility {
    Private,
    Public,
}

/// A typed expression, as far as this core reads it: its type and place.
#[derive(Clone, Copy, Debug)]
pub struct TyExpression {
    pub return_type: TypeId,
    pub span: Span,
}

#[derive(Clone, Debug)]
pub struct TyFunctionParameter {
    pub name: Ident,
    pub type_id: TypeId,
}

#[derive(Clone, Debug)]
pub struct TyFunctionDeclaration {
    pub name: Ident,
    pub parameters: Vec<TyFunctionParameter>,
    pub return_type: TypeId,
    pub visibility: Visibility,
    pub span: Span,
}

#[derive(Clone, Debug)]
pub struct TyConstantDeclaration {
    pub name: Ident,
    pub type_ascription: TypeId,
    pub value: Option<TyExpression>,
    pub visibility: Visibility,
    pub span: Span,
}

#[derive(Clone, Debug)]
pub struct TyTraitDeclaration {
    pub name: Ident,
    pub visibility: Visibility,
    pub span: Span,
}

#[derive(Clone, Debug)]
pub struct TyStructDeclaration {
    pub name: Ident,
    pub fields: Vec<TyStructField>,
    pub visibility: Visibility,
    pub span: Span,
}

#[derive(Clone, Debug)]
pub struct TyEnumDeclaration {
    pub name: Ident,
    pub variants: Vec<TyEnumVariant>,
    pub visibility: Visibility,
    pub span: Span,
}

#[derive(Clone, Debug)]
pub struct TyImplTrait {
    pub trait_name: Ident,
    pub implementing_for: TypeId,
    pub span: Span,
}

#[derive(Clone, Debug)]
pub struct TyAbiDeclaration {
    pub name: Ident,
    pub span: Span,
}

#[derive(Clone, Debug)]
pub struct TyStorageDeclaration {
    pub fields: Vec<TyStructField>,
    pub span: Span,
}

/// One stored payload, of one of the declaration kinds.
#[derive(Clone, Debug)]
pub enum DeclPayload {
    Function(TyFunctionDeclaration),
    Constant(TyConstantDeclaration),
    Trait(TyTraitDeclaration),
    Struct(TyStructDeclaration),
    Enum(TyEnumDeclaration),
    ImplTrait(TyImplTrait),
    Abi(TyAbiDeclaration),
    Storage(TyStorageDeclaration),
}

/// The diagnostics that this core produces.
#[derive(Clone, Debug)]
pub enum CompileError {
    DeclIsNotAnEnum { actually: String, span: Span },
    DeclIsNotAStruct { actually: String, span: Span },
    DeclIsNotAFunction { actually: String, span: Span },
    DeclIsNotAVariable { actually: String, span: Span },
    DeclIsNotAnAbi { actually: String, span: Span },
    DeclIsNotAConstant { actually: String, span: Span },
    NotAType { span: Span, name: String, actually_is: String },
    /// A handle that does not name a payload of the expected kind: a broken
    /// invariant of the compiler, not a mistake in the program.
    InvalidDeclHandle { span: Span },
}

pub open spec fn params_below(ps: Seq<TyFunctionParameter>, n: nat) -> bool {
    forall|i: int| 0 <= i < ps.len() ==> (#[trigger] ps[i]).type_id.0 < n
}

/// Every type handle inside the payload names one of the first `n` types.
pub open spec fn payload_below(p: DeclPayload, n: nat) -> bool {
    match p {
        DeclPayload::Function(f) => params_below(f.parameters@, n) && f.return_type.0 < n,
        DeclPayload::Constant(c) => c.type_ascription.0 < n && (c.value matches Some(v) ==> v.return_type.0 < n),
        DeclPayload::Trait(_) => true,
        DeclPayload::Struct(s) => fields_below(s.fields@, n),
        DeclPayload::Enum(e) => variants_below(e.variants@, n),
        DeclPayload::ImplTrait(i) => i.implementing_for.0 < n,
        DeclPayload::Abi(_) => true,
        DeclPayload::Storage(s) => fields_below(s.fields@, n),
    }
}

/// An append-only arena of declaration payloads.
pub struct DeclEngine {
    decls: Vec<DeclPayload>,
}

impl View for DeclEngine {
    type V = Seq<DeclPayload>;

    closed spec fn view(&self) -> Seq<DeclPayload> {
        self.decls@
    }
}

impl DeclEngine {
    /// Every payload refers only to types of an engine with `n` types.
    pub open spec fn wf_for(&self, n: nat) -> bool {
        forall|j: int| 0 <= j < self@.len() ==> payload_below(#[trigger] self@[j], n)
    }

    pub fn new() -> (r: DeclEngine)
        ensures
            r@ == Seq::<DeclPayload>::empty(),
    {
        DeclEngine { decls: Vec::new() }
    }

    pub fn len(&self) -> (r: usize)
        ensures
            r == self@.len(),
    {
        self.decls.len()
    }

    /// Stores a payload and returns the fresh handle to it.
    pub fn insert(&mut self, payload: DeclPayload) -> (r: DeclId)
        ensures
            final(self)@ == old(self)@.push(payload),
            r.0 == old(self)@.len(),
    {
        let id = self.decls.len();
        self.decls.push(payload);
        DeclId(id)
    }

    /// The payload stored under `id`, of whatever kind.
    pub fn get(&self, id: DeclId) -> (r: &DeclPayload)
        requires
            id.0 < self@.len(),
        ensures
            *r == self@[id.0 as int],
    {
        &self.decls[id.0]
    }

    pub fn get_function(&self, id: DeclId, span: Span) -> (r: Result<&TyFunctionDeclaration, CompileError>)
        ensures
            match r {
                Ok(d) => id.0 < self@.len() && self@[id.0 as int] == DeclPayload::Function(*d),
                Err(e) => !(id.0 < self@.len() && self@[id.0 as int] is Function) && e
                    == CompileError::InvalidDeclHandle { span },
            },
    {
        if id.0 < self.decls.len() {
            if let DeclPayload::Function(d) = &self.decls[id.0] {
                return Ok(d);
            }
        }
        Err(CompileError::InvalidDeclHandle { span })
    }

    pub fn get_constant(&self, id: DeclId, span: Span) -> (r: Result<&TyConstantDeclaration, CompileError>)
        ensures
            match r {
                Ok(d) => id.0 < self@.len() && self@[id.0 as int] == DeclPayload::Constant(*d),
                Err(e) => !(id.0 < self@.len() && self@[id.0 as int] is Constant) && e
                    == CompileError::InvalidDeclHandle { span },
            },
    {
        if id.0 < self.decls.len() {
            if let DeclPayload::Constant(d) = &self.decls[id.0] {
                return Ok(d);
            }
        }
        Err(CompileError::InvalidDeclHandle { span })
    }

    pub fn get_trait(&self, id: DeclId, span: Span) -> (r: Result<&TyTraitDeclaration, CompileError>)
        ensures
            match r {
                Ok(d) => id.0 < self@.len() && self@[id.0 as int] == DeclPayload::Trait(*d),
                Err(e) => !(id.0 < self@.len() && self@[id.0 as int] is Trait) && e
                    == CompileError::InvalidDeclHandle { span },
            },
    {
        if id.0 < self.decls.len() {
            if let DeclPayload::Trait(d) = &self.decls[id.0] {
                return Ok(d);
            }
        }
        Err(CompileError::InvalidDeclHandle { span })
    }

    pub fn get_struct(&self, id: DeclId, span: Span) -> (r: Result<&TyStructDeclaration, CompileError>)
        ensures
            match r {
                Ok(d) => id.0 < self@.len() && self@[id.0 as int] == DeclPayload::Struct(*d),
                Err(e) => !(id.0 < self@.len() && self@[id.0 as int] is Struct) && e
                    == CompileError::InvalidDeclHandle { span },
            },
    {
        if id.0 < self.decls.len() {
            if let DeclPayload::Struct(d) = &self.decls[id.0] {
                return Ok(d);
            }
        }
        Err(CompileError::InvalidDeclHandle { span })
    }

    pub fn get_enum(&self, id: DeclId, span: Span) -> (r: Result<&TyEnumDeclaration, CompileError>)
        ensures
            match r {
                Ok(d) => id.0 < self@.len() && self@[id.0 as int] == DeclPayload::Enum(*d),
                Err(e) => !(id.0 < self@.len() && self@[id.0 as int] is Enum) && e
                    == CompileError::InvalidDeclHandle { span },
            },
    {
        if id.0 < self.decls.len() {
            if let DeclPayload::Enum(d) = &self.decls[id.0] {
                return Ok(d);
            }
        }
        Err(CompileError::InvalidDeclHandle { span })
    }

    pub fn get_impl_trait(&self, id: DeclId, span: Span) -> (r: Result<&TyImplTrait, CompileError>)
        ensures
            match r {
                Ok(d) => id.0 < self@.len() && self@[id.0 as int] == DeclPayload::ImplTrait(*d),
                Err(e) => !(id.0 < self@.len() && self@[id.0 as int] is ImplTrait) && e
                    == CompileError::InvalidDeclHandle { span },
            },
    {
        if id.0 < self.decls.len() {
            if let DeclPayload::ImplTrait(d) = &self.decls[id.0] {
                return Ok(d);
            }
        }
        Err(CompileError::InvalidDeclHandle { span })
    }

    pub fn get_abi(&self, id: DeclId, span: Span) -> (r: Result<&TyAbiDeclaration, CompileError>)
        ensures
            match r {
                Ok(d) => id.0 < self@.len() && self@[id.0 as int] == DeclPayload::Abi(*d),
                Err(e) => !(id.0 < self@.len() && self@[id.0 as int] is Abi) && e
                    == CompileError::InvalidDeclHandle { span },
            },
    {
        if id.0 < self.decls.len() {
            if let DeclPayload::Abi(d) = &self.decls[id.0] {
                return Ok(d);
            }
        }
        Err(CompileError::InvalidDeclHandle { span })
    }

    pub fn get_storage(&self, id: DeclId, span: Span) -> (r: Result<&TyStorageDeclaration, CompileError>)
        ensures
            match r {
                Ok(d) => id.0 < self@.len() && self@[id.0 as int] == DeclPayload::Storage(*d),
                Err(e) => !(id.0 < self@.len() && self@[id.0 as int] is Storage) && e
                    == CompileError::InvalidDeclHandle { span },
            },
    {
        if id.0 < self.decls.len() {
            if let DeclPayload::Storage(d) = &self.decls[id.0] {
                return Ok(d);
            }
        }
        Err(CompileError::InvalidDeclHandle { span })
    }
}

} // verus!
