//! Typed declarations: a tagged union whose named kinds are handles into the
//! declaration engine, with the operations every later pass relies on.
use vstd::prelude::*;

use crate::decl_engine::{
    params_below, payload_below, CompileError, DeclEngine, DeclId, DeclPayload, TyAbiDeclaration,
    TyConstantDeclaration, TyEnumDeclaration, TyExpression, TyFunctionDeclaration,
    TyFunctionParameter, TyImplTrait, TyStructDeclaration, Visibility,
};
use crate::span::{Ident, Span};
use crate::type_engine::{
    copy_fields, copy_variants, extends, fields_below, fields_hash, hash_str, lemma_fields_hash,
    lemma_match_from_stable, lemma_occurs_stable, lemma_subst_of_stable, lemma_type_eq_hash,
    lemma_variants_deep_hash, mix, mix_hash, occurs, resolve, str_hash, subst_of, type_eq, type_hash,
    type_str, variants_below, variants_deep_hash, TyEnumVariant, TyStructField, TypeArgument,
    TypeEngine, TypeId, TypeInfo, TypeSubstMap,
};

verus! {

#[derive(Clone, Copy, Debug, PartialEq, Eq, Structural)]
pub enum VariableMutability {
    Mutable,
    RefMutable,
    Immutable,
}

impl VariableMutability {
    /// Local variables are never visible outside their scope.
    pub fn visibility(&self) -> (r: Visibility)
        ensures
            r == Visibility::Private,
    {
        Visibility::Private
    }
}

/// A variable declaration, held inline: variables are never shared between
/// instantiations, so they need no handle.
#[derive(Clone, Debug)]
pub struct TyVariableDeclaration {
    pub name: Ident,
    pub body: TyExpression,
    pub mutability: VariableMutability,
    pub type_ascription: TypeArgument,
}

/// A reference to a declaration: its name, handle and place.
#[derive(Clone, Debug)]
pub struct DeclRef {
    pub name: Ident,
    pub decl_id: DeclId,
    pub decl_span: Span,
}

#[derive(Clone, Debug)]
pub enum TyDeclaration {
    VariableDeclaration(Box<TyVariableDeclaration>),
    ConstantDeclaration { name: Ident, decl_id: DeclId, decl_span: Span },
    FunctionDeclaration { name: Ident, decl_id: DeclId, decl_span: Span },
    TraitDeclaration { name: Ident, decl_id: DeclId, decl_span: Span },
    StructDeclaration { name: Ident, decl_id: DeclId, decl_span: Span },
    EnumDeclaration { name: Ident, decl_id: DeclId, decl_span: Span },
    ImplTrait { name: Ident, decl_id: DeclId, decl_span: Span },
    AbiDeclaration { name: Ident, decl_id: DeclId, decl_span: Span },
    /// A type parameter, visible only inside the body of one function.
    GenericTypeForFunctionScope { name: Ident, type_id: TypeId },
    /// Stands in for a declaration that failed to elaborate.
    ErrorRecovery(Span),
    StorageDeclaration { decl_id: DeclId, decl_span: Span },
}

pub type CompileResult<T> = Result<T, Vec<CompileError>>;

/// The label used in diagnostics for each kind of declaration.
pub open spec fn kind_label(d: TyDeclaration) -> Seq<char> {
    match d {
        TyDeclaration::VariableDeclaration(_) => "variable"@,
        TyDeclaration::ConstantDeclaration { .. } => "constant"@,
        TyDeclaration::FunctionDeclaration { .. } => "function"@,
        TyDeclaration::TraitDeclaration { .. } => "trait"@,
        TyDeclaration::StructDeclaration { .. } => "struct"@,
        TyDeclaration::EnumDeclaration { .. } => "enum"@,
        TyDeclaration::ImplTrait { .. } => "impl trait"@,
        TyDeclaration::AbiDeclaration { .. } => "abi"@,
        TyDeclaration::GenericTypeForFunctionScope { .. } => "generic type parameter"@,
        TyDeclaration::ErrorRecovery(_) => "error"@,
        TyDeclaration::StorageDeclaration { .. } => "contract storage declaration"@,
    }
}

/// The kinds that the documentation generator renders.
pub open spec fn is_documentable(d: TyDeclaration) -> bool {
    match d {
        TyDeclaration::StructDeclaration { .. } | TyDeclaration::EnumDeclaration { .. }
        | TyDeclaration::TraitDeclaration { .. } | TyDeclaration::AbiDeclaration { .. }
        | TyDeclaration::StorageDeclaration { .. } | TyDeclaration::ImplTrait { .. }
        | TyDeclaration::FunctionDeclaration { .. } | TyDeclaration::ConstantDeclaration {
            ..
        } => true,
        _ => false,
    }
}

pub open spec fn doc_label(d: TyDeclaration) -> Seq<char> {
    match d {
        TyDeclaration::StructDeclaration { .. } => "struct"@,
        TyDeclaration::EnumDeclaration { .. } => "enum"@,
        TyDeclaration::TraitDeclaration { .. } => "trait"@,
        TyDeclaration::AbiDeclaration { .. } => "abi"@,
        TyDeclaration::StorageDeclaration { .. } => "contract_storage"@,
        TyDeclaration::ImplTrait { .. } => "impl_trait"@,
        TyDeclaration::FunctionDeclaration { .. } => "fn"@,
        _ => "constant"@,
    }
}

/// The source span of a declaration.
pub open spec fn decl_span(d: TyDeclaration) -> Span {
    match d {
        TyDeclaration::VariableDeclaration(v) => v.name.span,
        TyDeclaration::ConstantDeclaration { decl_span, .. } => decl_span,
        TyDeclaration::FunctionDeclaration { decl_span, .. } => decl_span,
        TyDeclaration::TraitDeclaration { decl_span, .. } => decl_span,
        TyDeclaration::StructDeclaration { decl_span, .. } => decl_span,
        TyDeclaration::EnumDeclaration { decl_span, .. } => decl_span,
        TyDeclaration::ImplTrait { decl_span, .. } => decl_span,
        TyDeclaration::AbiDeclaration { decl_span, .. } => decl_span,
        TyDeclaration::GenericTypeForFunctionScope { name, .. } => name.span,
        TyDeclaration::ErrorRecovery(span) => span,
        TyDeclaration::StorageDeclaration { decl_span, .. } => decl_span,
    }
}

/// The declaration's own name; error recovery and storage have none.
pub open spec fn decl_ident(d: TyDeclaration) -> Option<Ident> {
    match d {
        TyDeclaration::VariableDeclaration(v) => Some(v.name),
        TyDeclaration::ConstantDeclaration { name, .. } => Some(name),
        TyDeclaration::FunctionDeclaration { name, .. } => Some(name),
        TyDeclaration::TraitDeclaration { name, .. } => Some(name),
        TyDeclaration::StructDeclaration { name, .. } => Some(name),
        TyDeclaration::EnumDeclaration { name, .. } => Some(name),
        TyDeclaration::ImplTrait { name, .. } => Some(name),
        TyDeclaration::AbiDeclaration { name, .. } => Some(name),
        TyDeclaration::GenericTypeForFunctionScope { name, .. } => Some(name),
        TyDeclaration::ErrorRecovery(_) => None,
        TyDeclaration::StorageDeclaration { .. } => None,
    }
}

/// Name, handle and span of the kinds that are referenced by handle.
pub open spec fn decl_ref_parts(d: TyDeclaration) -> Option<(Ident, DeclId, Span)> {
    match d {
        TyDeclaration::ConstantDeclaration { name, decl_id, decl_span } => Some(
            (name, decl_id, decl_span),
        ),
        TyDeclaration::FunctionDeclaration { name, decl_id, decl_span } => Some(
            (name, decl_id, decl_span),
        ),
        TyDeclaration::TraitDeclaration { name, decl_id, decl_span } => Some(
            (name, decl_id, decl_span),
        ),
        TyDeclaration::StructDeclaration { name, decl_id, decl_span } => Some(
            (name, decl_id, decl_span),
        ),
        TyDeclaration::EnumDeclaration { name, decl_id, decl_span } => Some(
            (name, decl_id, decl_span),
        ),
        TyDeclaration::ImplTrait { name, decl_id, decl_span } => Some((name, decl_id, decl_span)),
        TyDeclaration::AbiDeclaration { name, decl_id, decl_span } => Some(
            (name, decl_id, decl_span),
        ),
        _ => None,
    }
}

/// The kinds a declaration can be expected to be.
#[derive(Clone, Copy, Debug, PartialEq, Eq, Structural)]
pub enum ExpectedKind {
    Enum,
    Struct,
    Function,
    Variable,
    Abi,
    Constant,
}

/// `e` is the diagnostic for expecting `want` of `d`: it names `d`'s actual
/// kind and `d`'s own span.
pub open spec fn is_kind_mismatch(e: CompileError, want: ExpectedKind, d: TyDeclaration) -> bool {
    match e {
        CompileError::DeclIsNotAnEnum { actually, span } => want == ExpectedKind::Enum
            && actually@ == kind_label(d) && span == decl_span(d),
        CompileError::DeclIsNotAStruct { actually, span } => want == ExpectedKind::Struct
            && actually@ == kind_label(d) && span == decl_span(d),
        CompileError::DeclIsNotAFunction { actually, span } => want == ExpectedKind::Function
            && actually@ == kind_label(d) && span == decl_span(d),
        CompileError::DeclIsNotAVariable { actually, span } => want == ExpectedKind::Variable
            && actually@ == kind_label(d) && span == decl_span(d),
        CompileError::DeclIsNotAnAbi { actually, span } => want == ExpectedKind::Abi
            && actually@ == kind_label(d) && span == decl_span(d),
        CompileError::DeclIsNotAConstant { actually, span } => want == ExpectedKind::Constant
            && actually@ == kind_label(d) && span == decl_span(d),
        _ => false,
    }
}

/// The outcome of expecting `want` of a declaration of another kind: no
/// diagnostic for error recovery, exactly one kind mismatch otherwise.
pub open spec fn mismatch_outcome<T>(r: CompileResult<T>, want: ExpectedKind, d: TyDeclaration) -> bool {
    match r {
        Ok(_) => false,
        Err(es) => if d is ErrorRecovery {
            es@.len() == 0
        } else {
            es@.len() == 1 && is_kind_mismatch(es@[0], want, d)
        },
    }
}

/// The visibility stored in a payload, when it has one.
pub open spec fn payload_visibility(p: DeclPayload) -> Option<Visibility> {
    match p {
        DeclPayload::Function(f) => Some(f.visibility),
        DeclPayload::Constant(c) => Some(c.visibility),
        DeclPayload::Trait(t) => Some(t.visibility),
        DeclPayload::Struct(s) => Some(s.visibility),
        DeclPayload::Enum(e) => Some(e.visibility),
        _ => None,
    }
}

/// Whether a payload is of the kind that a handle-backed declaration claims.
pub open spec fn payload_kind_matches(d: TyDeclaration, p: DeclPayload) -> bool {
    match d {
        TyDeclaration::ConstantDeclaration { .. } => p is Constant,
        TyDeclaration::FunctionDeclaration { .. } => p is Function,
        TyDeclaration::TraitDeclaration { .. } => p is Trait,
        TyDeclaration::StructDeclaration { .. } => p is Struct,
        TyDeclaration::EnumDeclaration { .. } => p is Enum,
        TyDeclaration::ImplTrait { .. } => p is ImplTrait,
        TyDeclaration::AbiDeclaration { .. } => p is Abi,
        TyDeclaration::StorageDeclaration { .. } => p is Storage,
        _ => false,
    }
}

pub open spec fn decl_handle(d: TyDeclaration) -> DeclId {
    match d {
        TyDeclaration::ConstantDeclaration { decl_id, .. } => decl_id,
        TyDeclaration::FunctionDeclaration { decl_id, .. } => decl_id,
        TyDeclaration::TraitDeclaration { decl_id, .. } => decl_id,
        TyDeclaration::StructDeclaration { decl_id, .. } => decl_id,
        TyDeclaration::EnumDeclaration { decl_id, .. } => decl_id,
        TyDeclaration::ImplTrait { decl_id, .. } => decl_id,
        TyDeclaration::AbiDeclaration { decl_id, .. } => decl_id,
        TyDeclaration::StorageDeclaration { decl_id, .. } => decl_id,
        _ => DeclId(0),
    }
}

/// The handle of `d` names a payload of `d`'s kind.
pub open spec fn resolves(d: TyDeclaration, decls: Seq<DeclPayload>) -> bool {
    let id = decl_handle(d);
    id.0 < decls.len() && payload_kind_matches(d, decls[id.0 as int])
}

/// What `visibility` gives for a kind that carries its own: the payload's
/// visibility when the handle resolves, else the diagnostic for a bad handle.
pub open spec fn payload_outcome(r: CompileResult<Visibility>, decls: Seq<DeclPayload>, d: TyDeclaration) -> bool {
    match r {
        Ok(v) => resolves(d, decls) && payload_visibility(decls[decl_handle(d).0 as int]) == Some(v),
        Err(es) => !resolves(d, decls) && es@ =~= seq![CompileError::InvalidDeclHandle { span: decl_span(d) }],
    }
}

impl TyDeclaration {
    pub fn friendly_type_name(&self) -> (r: &'static str)
        ensures
            r@ == kind_label(*self),
    {
        match self {
            TyDeclaration::VariableDeclaration(_) => "variable",
            TyDeclaration::ConstantDeclaration { .. } => "constant",
            TyDeclaration::FunctionDeclaration { .. } => "function",
            TyDeclaration::TraitDeclaration { .. } => "trait",
            TyDeclaration::StructDeclaration { .. } => "struct",
            TyDeclaration::EnumDeclaration { .. } => "enum",
            TyDeclaration::ImplTrait { .. } => "impl trait",
            TyDeclaration::AbiDeclaration { .. } => "abi",
            TyDeclaration::GenericTypeForFunctionScope { .. } => "generic type parameter",
            TyDeclaration::ErrorRecovery(_) => "error",
            TyDeclaration::StorageDeclaration { .. } => "contract storage declaration",
        }
    }

    /// The label under which documentation files are named.
    pub fn doc_name(&self) -> (r: &'static str)
        requires
            is_documentable(*self),
        ensures
            r@ == doc_label(*self),
    {
        match self {
            TyDeclaration::StructDeclaration { .. } => "struct",
            TyDeclaration::EnumDeclaration { .. } => "enum",
            TyDeclaration::TraitDeclaration { .. } => "trait",
            TyDeclaration::AbiDeclaration { .. } => "abi",
            TyDeclaration::StorageDeclaration { .. } => "contract_storage",
            TyDeclaration::ImplTrait { .. } => "impl_trait",
            TyDeclaration::FunctionDeclaration { .. } => "fn",
            _ => "constant",
        }
    }

    pub fn span(&self) -> (r: Span)
        ensures
            r == decl_span(*self),
    {
        match self {
            TyDeclaration::VariableDeclaration(decl) => decl.name.span,
            TyDeclaration::FunctionDeclaration { decl_span, .. }
            | TyDeclaration::TraitDeclaration { decl_span, .. }
            | TyDeclaration::StructDeclaration { decl_span, .. }
            | TyDeclaration::EnumDeclaration { decl_span, .. }
            | TyDeclaration::ImplTrait { decl_span, .. }
            | TyDeclaration::ConstantDeclaration { decl_span, .. }
            | TyDeclaration::StorageDeclaration { decl_span, .. }
            | TyDeclaration::AbiDeclaration { decl_span, .. } => *decl_span,
            TyDeclaration::GenericTypeForFunctionScope { name, .. } => name.span,
            TyDeclaration::ErrorRecovery(span) => *span,
        }
    }

    pub fn get_decl_ident(&self) -> (r: Option<Ident>)
        ensures
            r == decl_ident(*self),
    {
        match self {
            TyDeclaration::VariableDeclaration(decl) => Some(decl.name.duplicate()),
            TyDeclaration::FunctionDeclaration { name, .. }
            | TyDeclaration::TraitDeclaration { name, .. }
            | TyDeclaration::StructDeclaration { name, .. }
            | TyDeclaration::EnumDeclaration { name, .. }
            | TyDeclaration::ConstantDeclaration { name, .. }
            | TyDeclaration::ImplTrait { name, .. }
            | TyDeclaration::AbiDeclaration { name, .. }
            | TyDeclaration::GenericTypeForFunctionScope { name, .. } => Some(name.duplicate()),
            TyDeclaration::ErrorRecovery(_) => None,
            TyDeclaration::StorageDeclaration { .. } => None,
        }
    }

    /// The reference to a handle-backed declaration. Variables are held
    /// inline and have no handle, so they give `None`, as do generic
    /// parameters, error recovery and storage.
    pub fn get_decl_ref(&self) -> (r: Option<DeclRef>)
        ensures
            match decl_ref_parts(*self) {
                Some((name, decl_id, decl_span)) => r == Some(DeclRef { name, decl_id, decl_span }),
                None => r is None,
            },
    {
        match self {
            TyDeclaration::FunctionDeclaration { name, decl_id, decl_span }
            | TyDeclaration::ConstantDeclaration { name, decl_id, decl_span }
            | TyDeclaration::TraitDeclaration { name, decl_id, decl_span }
            | TyDeclaration::StructDeclaration { name, decl_id, decl_span }
            | TyDeclaration::EnumDeclaration { name, decl_id, decl_span }
            | TyDeclaration::ImplTrait { name, decl_id, decl_span }
            | TyDeclaration::AbiDeclaration { name, decl_id, decl_span } => Some(
                DeclRef { name: name.duplicate(), decl_id: *decl_id, decl_span: *decl_span },
            ),
            _ => None,
        }
    }

    fn kind_string(&self) -> (r: String)
        ensures
            r@ == kind_label(*self),
    {
        String::from_str(self.friendly_type_name())
    }

    /// Resolves the declaration as a struct. Error recovery gives no
    /// diagnostic; any other kind gives exactly one.
    pub fn expect_struct<'a>(&self, de: &'a DeclEngine, access_span: Span) -> (r: CompileResult<
        &'a TyStructDeclaration,
    >)
        ensures
            match *self {
                TyDeclaration::StructDeclaration { decl_id, .. } => match r {
                    Ok(d) => decl_id.0 < de@.len() && de@[decl_id.0 as int] == DeclPayload::Struct(*d),
                    Err(es) => !(decl_id.0 < de@.len() && de@[decl_id.0 as int] is Struct)
                        && es@ =~= seq![CompileError::InvalidDeclHandle { span: access_span }],
                },
                _ => mismatch_outcome(r, ExpectedKind::Struct, *self),
            },
    {
        match self {
            TyDeclaration::StructDeclaration { decl_id, .. } => match de.get_struct(*decl_id, access_span) {
                Ok(d) => Ok(d),
                Err(e) => Err(vec![e]),
            },
            TyDeclaration::ErrorRecovery(_) => Err(Vec::new()),
            _ => Err(vec![CompileError::DeclIsNotAStruct { actually: self.kind_string(), span: self.span() }]),
        }
    }

    /// Resolves the declaration as an enum. Error recovery gives no
    /// diagnostic; any other kind gives exactly one.
    pub fn expect_enum<'a>(&self, de: &'a DeclEngine, access_span: Span) -> (r: CompileResult<
        &'a TyEnumDeclaration,
    >)
        ensures
            match *self {
                TyDeclaration::EnumDeclaration { decl_id, .. } => match r {
                    Ok(d) => decl_id.0 < de@.len() && de@[decl_id.0 as int] == DeclPayload::Enum(*d),
                    Err(es) => !(decl_id.0 < de@.len() && de@[decl_id.0 as int] is Enum)
                        && es@ =~= seq![CompileError::InvalidDeclHandle { span: access_span }],
                },
                _ => mismatch_outcome(r, ExpectedKind::Enum, *self),
            },
    {
        match self {
            TyDeclaration::EnumDeclaration { decl_id, .. } => match de.get_enum(*decl_id, access_span) {
                Ok(d) => Ok(d),
                Err(e) => Err(vec![e]),
            },
            TyDeclaration::ErrorRecovery(_) => Err(Vec::new()),
            _ => Err(vec![CompileError::DeclIsNotAnEnum { actually: self.kind_string(), span: self.span() }]),
        }
    }

    /// Resolves the declaration as a function. Error recovery gives no
    /// diagnostic; any other kind gives exactly one.
    pub fn expect_function<'a>(&self, de: &'a DeclEngine, access_span: Span) -> (r: CompileResult<
        &'a TyFunctionDeclaration,
    >)
        ensures
            match *self {
                TyDeclaration::FunctionDeclaration { decl_id, .. } => match r {
                    Ok(d) => decl_id.0 < de@.len() && de@[decl_id.0 as int] == DeclPayload::Function(*d),
                    Err(es) => !(decl_id.0 < de@.len() && de@[decl_id.0 as int] is Function)
                        && es@ =~= seq![CompileError::InvalidDeclHandle { span: access_span }],
                },
                _ => mismatch_outcome(r, ExpectedKind::Function, *self),
            },
    {
        match self {
            TyDeclaration::FunctionDeclaration { decl_id, .. } => match de.get_function(*decl_id, access_span) {
                Ok(d) => Ok(d),
                Err(e) => Err(vec![e]),
            },
            TyDeclaration::ErrorRecovery(_) => Err(Vec::new()),
            _ => Err(vec![CompileError::DeclIsNotAFunction { actually: self.kind_string(), span: self.span() }]),
        }
    }

    /// Resolves the declaration as an ABI. Error recovery gives no
    /// diagnostic; any other kind gives exactly one.
    pub fn expect_abi<'a>(&self, de: &'a DeclEngine, access_span: Span) -> (r: CompileResult<
        &'a TyAbiDeclaration,
    >)
        ensures
            match *self {
                TyDeclaration::AbiDeclaration { decl_id, .. } => match r {
                    Ok(d) => decl_id.0 < de@.len() && de@[decl_id.0 as int] == DeclPayload::Abi(*d),
                    Err(es) => !(decl_id.0 < de@.len() && de@[decl_id.0 as int] is Abi)
                        && es@ =~= seq![CompileError::InvalidDeclHandle { span: access_span }],
                },
                _ => mismatch_outcome(r, ExpectedKind::Abi, *self),
            },
    {
        match self {
            TyDeclaration::AbiDeclaration { decl_id, .. } => match de.get_abi(*decl_id, access_span) {
                Ok(d) => Ok(d),
                Err(e) => Err(vec![e]),
            },
            TyDeclaration::ErrorRecovery(_) => Err(Vec::new()),
            _ => Err(vec![CompileError::DeclIsNotAnAbi { actually: self.kind_string(), span: self.span() }]),
        }
    }

    /// Resolves the declaration as a constant. Error recovery gives no
    /// diagnostic; any other kind gives exactly one.
    pub fn expect_const<'a>(&self, de: &'a DeclEngine, access_span: Span) -> (r: CompileResult<
        &'a TyConstantDeclaration,
    >)
        ensures
            match *self {
                TyDeclaration::ConstantDeclaration { decl_id, .. } => match r {
                    Ok(d) => decl_id.0 < de@.len() && de@[decl_id.0 as int] == DeclPayload::Constant(*d),
                    Err(es) => !(decl_id.0 < de@.len() && de@[decl_id.0 as int] is Constant)
                        && es@ =~= seq![CompileError::InvalidDeclHandle { span: access_span }],
                },
                _ => mismatch_outcome(r, ExpectedKind::Constant, *self),
            },
    {
        match self {
            TyDeclaration::ConstantDeclaration { decl_id, .. } => match de.get_constant(*decl_id, access_span) {
                Ok(d) => Ok(d),
                Err(e) => Err(vec![e]),
            },
            TyDeclaration::ErrorRecovery(_) => Err(Vec::new()),
            _ => Err(vec![CompileError::DeclIsNotAConstant { actually: self.kind_string(), span: self.span() }]),
        }
    }

    /// The declaration as a variable. Error recovery gives no diagnostic;
    /// any other kind gives exactly one.
    pub fn expect_variable(&self) -> (r: CompileResult<&TyVariableDeclaration>)
        ensures
            match *self {
                TyDeclaration::VariableDeclaration(v) => r == Ok::<&TyVariableDeclaration, Vec<CompileError>>(&*v),
                _ => mismatch_outcome(r, ExpectedKind::Variable, *self),
            },
    {
        match self {
            TyDeclaration::VariableDeclaration(decl) => Ok(&**decl),
            TyDeclaration::ErrorRecovery(_) => Err(Vec::new()),
            _ => Err(vec![CompileError::DeclIsNotAVariable { actually: self.kind_string(), span: self.span() }]),
        }
    }

    /// The declaration's visibility. Traits, constants, structs, enums and
    /// functions carry their own; generic parameters, impls, storage, ABIs
    /// and error recovery are public; a variable's follows its mutability.
    pub fn visibility(&self, de: &DeclEngine) -> (r: CompileResult<Visibility>)
        ensures
            match *self {
                TyDeclaration::TraitDeclaration { .. } => payload_outcome(r, de@, *self),
                TyDeclaration::ConstantDeclaration { .. } => payload_outcome(r, de@, *self),
                TyDeclaration::StructDeclaration { .. } => payload_outcome(r, de@, *self),
                TyDeclaration::EnumDeclaration { .. } => payload_outcome(r, de@, *self),
                TyDeclaration::FunctionDeclaration { .. } => payload_outcome(r, de@, *self),
                TyDeclaration::VariableDeclaration(_) => r == Ok::<Visibility, Vec<CompileError>>(Visibility::Private),
                _ => r == Ok::<Visibility, Vec<CompileError>>(Visibility::Public),
            },
    {
        match self {
            TyDeclaration::TraitDeclaration { decl_id, decl_span, .. } => match de.get_trait(*decl_id, *decl_span) {
                Ok(d) => Ok(d.visibility),
                Err(e) => Err(vec![e]),
            },
            TyDeclaration::ConstantDeclaration { decl_id, decl_span, .. } => match de.get_constant(*decl_id, *decl_span) {
                Ok(d) => Ok(d.visibility),
                Err(e) => Err(vec![e]),
            },
            TyDeclaration::StructDeclaration { decl_id, decl_span, .. } => match de.get_struct(*decl_id, *decl_span) {
                Ok(d) => Ok(d.visibility),
                Err(e) => Err(vec![e]),
            },
            TyDeclaration::EnumDeclaration { decl_id, decl_span, .. } => match de.get_enum(*decl_id, *decl_span) {
                Ok(d) => Ok(d.visibility),
                Err(e) => Err(vec![e]),
            },
            TyDeclaration::FunctionDeclaration { decl_id, decl_span, .. } => match de.get_function(*decl_id, *decl_span) {
                Ok(d) => Ok(d.visibility),
                Err(e) => Err(vec![e]),
            },
            TyDeclaration::GenericTypeForFunctionScope { .. }
            | TyDeclaration::ImplTrait { .. }
            | TyDeclaration::StorageDeclaration { .. }
            | TyDeclaration::AbiDeclaration { .. }
            | TyDeclaration::ErrorRecovery(_) => Ok(Visibility::Public),
            TyDeclaration::VariableDeclaration(decl) => Ok(decl.mutability.visibility()),
        }
    }
}


// ---------------------------------------------------------------------------
// Engine-aware equality and hashing
// ---------------------------------------------------------------------------

/// The two engines, passed together to every operation that resolves handles.
pub struct Engines<'a> {
    pub te: &'a TypeEngine,
    pub de: &'a DeclEngine,
}

impl<'a> Engines<'a> {
    pub open spec fn wf(&self) -> bool {
        self.te.wf() && self.de.wf_for(self.te@.len())
    }
}

/// The type handles a declaration holds inline all name stored types.
pub open spec fn inline_types_below(d: TyDeclaration, n: nat) -> bool {
    match d {
        TyDeclaration::VariableDeclaration(v) => v.type_ascription.type_id.0 < n && v.body.return_type.0
            < n,
        TyDeclaration::GenericTypeForFunctionScope { type_id, .. } => type_id.0 < n,
        _ => true,
    }
}

pub open spec fn params_match(
    types: Seq<TypeInfo>,
    l: Seq<TyFunctionParameter>,
    r: Seq<TyFunctionParameter>,
) -> bool {
    &&& l.len() == r.len()
    &&& forall|i: int|
        0 <= i < l.len() ==> (#[trigger] l[i]).name.name@ == r[i].name.name@ && type_eq(
            types,
            l[i].type_id.0 as nat,
            r[i].type_id.0 as nat,
        )
}

pub open spec fn fields_match(types: Seq<TypeInfo>, l: Seq<TyStructField>, r: Seq<TyStructField>) -> bool {
    &&& l.len() == r.len()
    &&& forall|i: int|
        0 <= i < l.len() ==> (#[trigger] l[i]).name.name@ == r[i].name.name@ && type_eq(
            types,
            l[i].type_id.0 as nat,
            r[i].type_id.0 as nat,
        )
}

pub open spec fn variants_match(types: Seq<TypeInfo>, l: Seq<TyEnumVariant>, r: Seq<TyEnumVariant>) -> bool {
    &&& l.len() == r.len()
    &&& forall|i: int|
        0 <= i < l.len() ==> (#[trigger] l[i]).name.name@ == r[i].name.name@ && l[i].tag == r[i].tag && type_eq(
            types,
            l[i].type_id.0 as nat,
            r[i].type_id.0 as nat,
        )
}

/// Engine-aware equality of two payloads: same kind, same names and
/// visibility, structurally equal types.
pub open spec fn payload_eq(types: Seq<TypeInfo>, p: DeclPayload, q: DeclPayload) -> bool {
    match (p, q) {
        (DeclPayload::Function(f), DeclPayload::Function(g)) => {
            &&& f.name.name@ == g.name.name@
            &&& f.visibility == g.visibility
            &&& params_match(types, f.parameters@, g.parameters@)
            &&& type_eq(types, f.return_type.0 as nat, g.return_type.0 as nat)
        },
        (DeclPayload::Constant(c), DeclPayload::Constant(d)) => {
            &&& c.name.name@ == d.name.name@
            &&& c.visibility == d.visibility
            &&& type_eq(types, c.type_ascription.0 as nat, d.type_ascription.0 as nat)
            &&& match (c.value, d.value) {
                (None, None) => true,
                (Some(x), Some(y)) => type_eq(types, x.return_type.0 as nat, y.return_type.0 as nat),
                _ => false,
            }
        },
        (DeclPayload::Trait(t), DeclPayload::Trait(u)) => t.name.name@ == u.name.name@ && t.visibility
            == u.visibility,
        (DeclPayload::Struct(s), DeclPayload::Struct(t)) => {
            &&& s.name.name@ == t.name.name@
            &&& s.visibility == t.visibility
            &&& fields_match(types, s.fields@, t.fields@)
        },
        (DeclPayload::Enum(e), DeclPayload::Enum(f)) => {
            &&& e.name.name@ == f.name.name@
            &&& e.visibility == f.visibility
            &&& variants_match(types, e.variants@, f.variants@)
        },
        (DeclPayload::ImplTrait(i), DeclPayload::ImplTrait(j)) => i.trait_name.name@
            == j.trait_name.name@ && type_eq(
            types,
            i.implementing_for.0 as nat,
            j.implementing_for.0 as nat,
        ),
        (DeclPayload::Abi(a), DeclPayload::Abi(b)) => a.name.name@ == b.name.name@,
        (DeclPayload::Storage(s), DeclPayload::Storage(t)) => fields_match(types, s.fields@, t.fields@),
        _ => false,
    }
}

/// Two handles whose payloads are equal under the engines.
pub open spec fn handles_eq(types: Seq<TypeInfo>, decls: Seq<DeclPayload>, l: DeclId, r: DeclId) -> bool {
    l.0 < decls.len() && r.0 < decls.len() && payload_eq(types, decls[l.0 as int], decls[r.0 as int])
}

pub open spec fn variable_eq(types: Seq<TypeInfo>, x: TyVariableDeclaration, y: TyVariableDeclaration) -> bool {
    &&& x.name.name@ == y.name.name@
    &&& x.mutability == y.mutability
    &&& type_eq(types, x.type_ascription.type_id.0 as nat, y.type_ascription.type_id.0 as nat)
    &&& type_eq(types, x.body.return_type.0 as nat, y.body.return_type.0 as nat)
}

/// Engine-aware equality of typed declarations. Kinds never equal one
/// another; handle-backed kinds compare name and resolved payload; error
/// recovery compares spans; generic parameters compare name and type.
pub open spec fn decl_eq(
    types: Seq<TypeInfo>,
    decls: Seq<DeclPayload>,
    a: TyDeclaration,
    b: TyDeclaration,
) -> bool {
    match (a, b) {
        (TyDeclaration::VariableDeclaration(x), TyDeclaration::VariableDeclaration(y)) => variable_eq(types, *x, *y),
        (
            TyDeclaration::ConstantDeclaration { name: ln, decl_id: li, .. },
            TyDeclaration::ConstantDeclaration { name: rn, decl_id: ri, .. },
        ) => ln.name@ == rn.name@ && handles_eq(types, decls, li, ri),
        (
            TyDeclaration::FunctionDeclaration { name: ln, decl_id: li, .. },
            TyDeclaration::FunctionDeclaration { name: rn, decl_id: ri, .. },
        ) => ln.name@ == rn.name@ && handles_eq(types, decls, li, ri),
        (
            TyDeclaration::TraitDeclaration { name: ln, decl_id: li, .. },
            TyDeclaration::TraitDeclaration { name: rn, decl_id: ri, .. },
        ) => ln.name@ == rn.name@ && handles_eq(types, decls, li, ri),
        (
            TyDeclaration::StructDeclaration { name: ln, decl_id: li, .. },
            TyDeclaration::StructDeclaration { name: rn, decl_id: ri, .. },
        ) => ln.name@ == rn.name@ && handles_eq(types, decls, li, ri),
        (
            TyDeclaration::EnumDeclaration { name: ln, decl_id: li, .. },
            TyDeclaration::EnumDeclaration { name: rn, decl_id: ri, .. },
        ) => ln.name@ == rn.name@ && handles_eq(types, decls, li, ri),
        (
            TyDeclaration::ImplTrait { name: ln, decl_id: li, .. },
            TyDeclaration::ImplTrait { name: rn, decl_id: ri, .. },
        ) => ln.name@ == rn.name@ && handles_eq(types, decls, li, ri),
        (
            TyDeclaration::AbiDeclaration { name: ln, decl_id: li, .. },
            TyDeclaration::AbiDeclaration { name: rn, decl_id: ri, .. },
        ) => ln.name@ == rn.name@ && handles_eq(types, decls, li, ri),
        (
            TyDeclaration::StorageDeclaration { decl_id: li, .. },
            TyDeclaration::StorageDeclaration { decl_id: ri, .. },
        ) => handles_eq(types, decls, li, ri),
        (
            TyDeclaration::GenericTypeForFunctionScope { name: xn, type_id: xt },
            TyDeclaration::GenericTypeForFunctionScope { name: yn, type_id: yt },
        ) => xn.name@ == yn.name@ && type_eq(types, xt.0 as nat, yt.0 as nat),
        (TyDeclaration::ErrorRecovery(x), TyDeclaration::ErrorRecovery(y)) => x == y,
        _ => false,
    }
}

pub open spec fn mutability_code(m: VariableMutability) -> u64 {
    match m {
        VariableMutability::Mutable => 1,
        VariableMutability::RefMutable => 2,
        VariableMutability::Immutable => 3,
    }
}

pub open spec fn visibility_code(v: Visibility) -> u64 {
    match v {
        Visibility::Private => 0,
        Visibility::Public => 1,
    }
}

/// The engine-aware hash of a payload: a tag for its kind mixed with its
/// names, visibility and the hashes of its types where it has one.
pub open spec fn payload_hash(types: Seq<TypeInfo>, p: DeclPayload) -> u64 {
    match p {
        DeclPayload::Function(f) => mix(
            mix(mix(1, str_hash(f.name.name@)), f.parameters@.len() as u64),
            type_hash(types, f.return_type.0 as nat),
        ),
        DeclPayload::Constant(c) => mix(
            mix(2, str_hash(c.name.name@)),
            type_hash(types, c.type_ascription.0 as nat),
        ),
        DeclPayload::Trait(t) => mix(mix(3, str_hash(t.name.name@)), visibility_code(t.visibility)),
        DeclPayload::Struct(s) => mix(mix(4, str_hash(s.name.name@)), fields_hash(types, s.fields@, types.len())),
        DeclPayload::Enum(e) => mix(mix(5, str_hash(e.name.name@)), variants_deep_hash(types, e.variants@, types.len())),
        DeclPayload::ImplTrait(i) => mix(
            mix(6, str_hash(i.trait_name.name@)),
            type_hash(types, i.implementing_for.0 as nat),
        ),
        DeclPayload::Abi(a) => mix(7, str_hash(a.name.name@)),
        DeclPayload::Storage(s) => mix(8, fields_hash(types, s.fields@, types.len())),
    }
}

pub open spec fn handle_hash(types: Seq<TypeInfo>, decls: Seq<DeclPayload>, id: DeclId) -> u64 {
    if id.0 < decls.len() {
        payload_hash(types, decls[id.0 as int])
    } else {
        0
    }
}

/// The engine-aware hash of a typed declaration: its kind first, then what
/// it resolves to.
pub open spec fn decl_hash(types: Seq<TypeInfo>, decls: Seq<DeclPayload>, d: TyDeclaration) -> u64 {
    match d {
        TyDeclaration::VariableDeclaration(v) => mix(
            mix(mix(1, str_hash(v.name.name@)), mutability_code(v.mutability)),
            type_hash(types, v.type_ascription.type_id.0 as nat),
        ),
        TyDeclaration::ConstantDeclaration { decl_id, .. } => mix(2, handle_hash(types, decls, decl_id)),
        TyDeclaration::FunctionDeclaration { decl_id, .. } => mix(3, handle_hash(types, decls, decl_id)),
        TyDeclaration::TraitDeclaration { decl_id, .. } => mix(4, handle_hash(types, decls, decl_id)),
        TyDeclaration::StructDeclaration { decl_id, .. } => mix(5, handle_hash(types, decls, decl_id)),
        TyDeclaration::EnumDeclaration { decl_id, .. } => mix(6, handle_hash(types, decls, decl_id)),
        TyDeclaration::ImplTrait { decl_id, .. } => mix(7, handle_hash(types, decls, decl_id)),
        TyDeclaration::AbiDeclaration { decl_id, .. } => mix(8, handle_hash(types, decls, decl_id)),
        TyDeclaration::GenericTypeForFunctionScope { name, type_id } => mix(
            mix(9, str_hash(name.name@)),
            type_hash(types, type_id.0 as nat),
        ),
        TyDeclaration::ErrorRecovery(_) => 10,
        TyDeclaration::StorageDeclaration { decl_id, .. } => mix(11, handle_hash(types, decls, decl_id)),
    }
}

proof fn lemma_payload_eq_hash(types: Seq<TypeInfo>, p: DeclPayload, q: DeclPayload)
    requires
        payload_eq(types, p, q),
    ensures
        payload_hash(types, p) == payload_hash(types, q),
{
    match (p, q) {
        (DeclPayload::Function(f), DeclPayload::Function(g)) => {
            lemma_type_eq_hash(types, f.return_type.0 as nat, g.return_type.0 as nat);
        },
        (DeclPayload::Constant(c), DeclPayload::Constant(d)) => {
            lemma_type_eq_hash(types, c.type_ascription.0 as nat, d.type_ascription.0 as nat);
        },
        (DeclPayload::Struct(s), DeclPayload::Struct(t)) => {
            lemma_fields_hash(types, s.fields@, t.fields@, types.len(), types.len());
        },
        (DeclPayload::Storage(s), DeclPayload::Storage(t)) => {
            lemma_fields_hash(types, s.fields@, t.fields@, types.len(), types.len());
        },
        (DeclPayload::Enum(e), DeclPayload::Enum(f)) => {
            lemma_variants_deep_hash(types, e.variants@, f.variants@, types.len(), types.len());
        },
        (DeclPayload::ImplTrait(i), DeclPayload::ImplTrait(j)) => {
            lemma_type_eq_hash(types, i.implementing_for.0 as nat, j.implementing_for.0 as nat);
        },
        _ => {},
    }
}

/// Declarations that are equal under the engines hash alike.
pub proof fn law_decl_eq_implies_hash_eq(
    types: Seq<TypeInfo>,
    decls: Seq<DeclPayload>,
    a: TyDeclaration,
    b: TyDeclaration,
)
    requires
        decl_eq(types, decls, a, b),
    ensures
        decl_hash(types, decls, a) == decl_hash(types, decls, b),
{
    match (a, b) {
        (TyDeclaration::VariableDeclaration(x), TyDeclaration::VariableDeclaration(y)) => {
            lemma_type_eq_hash(
                types,
                x.type_ascription.type_id.0 as nat,
                y.type_ascription.type_id.0 as nat,
            );
        },
        (
            TyDeclaration::GenericTypeForFunctionScope { type_id: xt, .. },
            TyDeclaration::GenericTypeForFunctionScope { type_id: yt, .. },
        ) => {
            lemma_type_eq_hash(types, xt.0 as nat, yt.0 as nat);
        },
        (TyDeclaration::ErrorRecovery(_), TyDeclaration::ErrorRecovery(_)) => {},
        _ => {
            let (li, ri) = (decl_handle(a), decl_handle(b));
            lemma_payload_eq_hash(types, decls[li.0 as int], decls[ri.0 as int]);
        },
    }
}

/// A function and a constant never compare equal, whatever their names and
/// payloads.
pub proof fn law_function_never_equals_constant(
    types: Seq<TypeInfo>,
    decls: Seq<DeclPayload>,
    a: TyDeclaration,
    b: TyDeclaration,
)
    requires
        a is FunctionDeclaration,
        b is ConstantDeclaration,
    ensures
        !decl_eq(types, decls, a, b),
        !decl_eq(types, decls, b, a),
{
}

/// Declarations of different kinds never compare equal.
pub proof fn law_kinds_separate(types: Seq<TypeInfo>, decls: Seq<DeclPayload>, a: TyDeclaration, b: TyDeclaration)
    requires
        kind_label(a) != kind_label(b),
    ensures
        !decl_eq(types, decls, a, b),
{
}


fn params_eq(te: &TypeEngine, l: &Vec<TyFunctionParameter>, r: &Vec<TyFunctionParameter>) -> (res: bool)
    requires
        te.wf(),
        params_below(l@, te@.len()),
        params_below(r@, te@.len()),
    ensures
        res == params_match(te@, l@, r@),
{
    if l.len() != r.len() {
        return false;
    }
    let mut i: usize = 0;
    while i < l.len()
        invariant
            te.wf(),
            params_below(l@, te@.len()),
            params_below(r@, te@.len()),
            l@.len() == r@.len(),
            i <= l@.len(),
            forall|j: int|
                0 <= j < i ==> (#[trigger] l@[j]).name.name@ == r@[j].name.name@ && type_eq(
                    te@,
                    l@[j].type_id.0 as nat,
                    r@[j].type_id.0 as nat,
                ),
        decreases l@.len() - i,
    {
        if !l[i].name.same_name(&r[i].name) || !te.types_eq(l[i].type_id, r[i].type_id) {
            return false;
        }
        i = i + 1;
    }
    true
}

fn struct_fields_eq(te: &TypeEngine, l: &Vec<TyStructField>, r: &Vec<TyStructField>) -> (res: bool)
    requires
        te.wf(),
        fields_below(l@, te@.len()),
        fields_below(r@, te@.len()),
    ensures
        res == fields_match(te@, l@, r@),
{
    if l.len() != r.len() {
        return false;
    }
    let mut i: usize = 0;
    while i < l.len()
        invariant
            te.wf(),
            fields_below(l@, te@.len()),
            fields_below(r@, te@.len()),
            l@.len() == r@.len(),
            i <= l@.len(),
            forall|j: int|
                0 <= j < i ==> (#[trigger] l@[j]).name.name@ == r@[j].name.name@ && type_eq(
                    te@,
                    l@[j].type_id.0 as nat,
                    r@[j].type_id.0 as nat,
                ),
        decreases l@.len() - i,
    {
        if !l[i].name.same_name(&r[i].name) || !te.types_eq(l[i].type_id, r[i].type_id) {
            return false;
        }
        i = i + 1;
    }
    true
}

fn enum_variants_eq(te: &TypeEngine, l: &Vec<TyEnumVariant>, r: &Vec<TyEnumVariant>) -> (res: bool)
    requires
        te.wf(),
        variants_below(l@, te@.len()),
        variants_below(r@, te@.len()),
    ensures
        res == variants_match(te@, l@, r@),
{
    if l.len() != r.len() {
        return false;
    }
    let mut i: usize = 0;
    while i < l.len()
        invariant
            te.wf(),
            variants_below(l@, te@.len()),
            variants_below(r@, te@.len()),
            l@.len() == r@.len(),
            i <= l@.len(),
            forall|j: int|
                0 <= j < i ==> (#[trigger] l@[j]).name.name@ == r@[j].name.name@ && l@[j].tag
                    == r@[j].tag && type_eq(te@, l@[j].type_id.0 as nat, r@[j].type_id.0 as nat),
        decreases l@.len() - i,
    {
        if !l[i].name.same_name(&r[i].name) || l[i].tag != r[i].tag || !te.types_eq(
            l[i].type_id,
            r[i].type_id,
        ) {
            return false;
        }
        i = i + 1;
    }
    true
}

/// Engine-aware equality of two payloads.
pub fn payloads_eq(te: &TypeEngine, p: &DeclPayload, q: &DeclPayload) -> (r: bool)
    requires
        te.wf(),
        payload_below(*p, te@.len()),
        payload_below(*q, te@.len()),
    ensures
        r == payload_eq(te@, *p, *q),
{
    match (p, q) {
        (DeclPayload::Function(f), DeclPayload::Function(g)) => {
            f.name.same_name(&g.name) && f.visibility == g.visibility && params_eq(
                te,
                &f.parameters,
                &g.parameters,
            ) && te.types_eq(f.return_type, g.return_type)
        },
        (DeclPayload::Constant(c), DeclPayload::Constant(d)) => {
            let values = match (&c.value, &d.value) {
                (None, None) => true,
                (Some(x), Some(y)) => te.types_eq(x.return_type, y.return_type),
                _ => false,
            };
            c.name.same_name(&d.name) && c.visibility == d.visibility && te.types_eq(
                c.type_ascription,
                d.type_ascription,
            ) && values
        },
        (DeclPayload::Trait(t), DeclPayload::Trait(u)) => t.name.same_name(&u.name) && t.visibility
            == u.visibility,
        (DeclPayload::Struct(s), DeclPayload::Struct(t)) => {
            s.name.same_name(&t.name) && s.visibility == t.visibility && struct_fields_eq(
                te,
                &s.fields,
                &t.fields,
            )
        },
        (DeclPayload::Enum(e), DeclPayload::Enum(f)) => {
            e.name.same_name(&f.name) && e.visibility == f.visibility && enum_variants_eq(
                te,
                &e.variants,
                &f.variants,
            )
        },
        (DeclPayload::ImplTrait(i), DeclPayload::ImplTrait(j)) => i.trait_name.same_name(
            &j.trait_name,
        ) && te.types_eq(i.implementing_for, j.implementing_for),
        (DeclPayload::Abi(a), DeclPayload::Abi(b)) => a.name.same_name(&b.name),
        (DeclPayload::Storage(s), DeclPayload::Storage(t)) => struct_fields_eq(te, &s.fields, &t.fields),
        _ => false,
    }
}

fn visibility_value(v: Visibility) -> (r: u64)
    ensures
        r == visibility_code(v),
{
    match v {
        Visibility::Private => 0,
        Visibility::Public => 1,
    }
}

fn mutability_value(m: VariableMutability) -> (r: u64)
    ensures
        r == mutability_code(m),
{
    match m {
        VariableMutability::Mutable => 1,
        VariableMutability::RefMutable => 2,
        VariableMutability::Immutable => 3,
    }
}

/// The engine-aware hash of a payload.
pub fn hash_payload(te: &TypeEngine, p: &DeclPayload) -> (r: u64)
    requires
        te.wf(),
        payload_below(*p, te@.len()),
    ensures
        r == payload_hash(te@, *p),
{
    match p {
        DeclPayload::Function(f) => mix_hash(
            mix_hash(mix_hash(1, hash_str(f.name.as_str())), f.parameters.len() as u64),
            te.hash_type(f.return_type),
        ),
        DeclPayload::Constant(c) => mix_hash(
            mix_hash(2, hash_str(c.name.as_str())),
            te.hash_type(c.type_ascription),
        ),
        DeclPayload::Trait(t) => mix_hash(
            mix_hash(3, hash_str(t.name.as_str())),
            visibility_value(t.visibility),
        ),
        DeclPayload::Struct(s) => mix_hash(
            mix_hash(4, hash_str(s.name.as_str())),
            te.hash_fields(&s.fields, te.len()),
        ),
        DeclPayload::Enum(e) => mix_hash(
            mix_hash(5, hash_str(e.name.as_str())),
            te.hash_variant_types(&e.variants, te.len()),
        ),
        DeclPayload::ImplTrait(i) => mix_hash(
            mix_hash(6, hash_str(i.trait_name.as_str())),
            te.hash_type(i.implementing_for),
        ),
        DeclPayload::Abi(a) => mix_hash(7, hash_str(a.name.as_str())),
        DeclPayload::Storage(s) => mix_hash(8, te.hash_fields(&s.fields, te.len())),
    }
}

fn handles_equal(engines: &Engines, l: DeclId, r: DeclId) -> (res: bool)
    requires
        engines.wf(),
    ensures
        res == handles_eq(engines.te@, engines.de@, l, r),
{
    if l.0 < engines.de.len() && r.0 < engines.de.len() {
        payloads_eq(engines.te, engines.de.get(l), engines.de.get(r))
    } else {
        false
    }
}

fn handle_hash_value(engines: &Engines, id: DeclId) -> (r: u64)
    requires
        engines.wf(),
    ensures
        r == handle_hash(engines.te@, engines.de@, id),
{
    if id.0 < engines.de.len() {
        hash_payload(engines.te, engines.de.get(id))
    } else {
        0
    }
}

impl TyDeclaration {
    /// Engine-aware equality; see [`decl_eq`].
    pub fn eq(&self, other: &TyDeclaration, engines: &Engines) -> (r: bool)
        requires
            engines.wf(),
            inline_types_below(*self, engines.te@.len()),
            inline_types_below(*other, engines.te@.len()),
        ensures
            r == decl_eq(engines.te@, engines.de@, *self, *other),
    {
        match (self, other) {
            (TyDeclaration::VariableDeclaration(x), TyDeclaration::VariableDeclaration(y)) => {
                x.name.same_name(&y.name) && x.mutability == y.mutability && engines.te.types_eq(
                    x.type_ascription.type_id,
                    y.type_ascription.type_id,
                ) && engines.te.types_eq(x.body.return_type, y.body.return_type)
            },
            (
                TyDeclaration::ConstantDeclaration { name: ln, decl_id: li, .. },
                TyDeclaration::ConstantDeclaration { name: rn, decl_id: ri, .. },
            )
            | (
                TyDeclaration::FunctionDeclaration { name: ln, decl_id: li, .. },
                TyDeclaration::FunctionDeclaration { name: rn, decl_id: ri, .. },
            )
            | (
                TyDeclaration::TraitDeclaration { name: ln, decl_id: li, .. },
                TyDeclaration::TraitDeclaration { name: rn, decl_id: ri, .. },
            )
            | (
                TyDeclaration::StructDeclaration { name: ln, decl_id: li, .. },
                TyDeclaration::StructDeclaration { name: rn, decl_id: ri, .. },
            )
            | (
                TyDeclaration::EnumDeclaration { name: ln, decl_id: li, .. },
                TyDeclaration::EnumDeclaration { name: rn, decl_id: ri, .. },
            )
            | (
                TyDeclaration::ImplTrait { name: ln, decl_id: li, .. },
                TyDeclaration::ImplTrait { name: rn, decl_id: ri, .. },
            )
            | (
                TyDeclaration::AbiDeclaration { name: ln, decl_id: li, .. },
                TyDeclaration::AbiDeclaration { name: rn, decl_id: ri, .. },
            ) => ln.same_name(rn) && handles_equal(engines, *li, *ri),
            (
                TyDeclaration::StorageDeclaration { decl_id: li, .. },
                TyDeclaration::StorageDeclaration { decl_id: ri, .. },
            ) => handles_equal(engines, *li, *ri),
            (
                TyDeclaration::GenericTypeForFunctionScope { name: xn, type_id: xt },
                TyDeclaration::GenericTypeForFunctionScope { name: yn, type_id: yt },
            ) => xn.same_name(yn) && engines.te.types_eq(*xt, *yt),
            (TyDeclaration::ErrorRecovery(x), TyDeclaration::ErrorRecovery(y)) => *x == *y,
            _ => false,
        }
    }

    /// Engine-aware hash; see [`decl_hash`].
    pub fn hash(&self, engines: &Engines) -> (r: u64)
        requires
            engines.wf(),
            inline_types_below(*self, engines.te@.len()),
        ensures
            r == decl_hash(engines.te@, engines.de@, *self),
    {
        match self {
            TyDeclaration::VariableDeclaration(v) => mix_hash(
                mix_hash(mix_hash(1, hash_str(v.name.as_str())), mutability_value(v.mutability)),
                engines.te.hash_type(v.type_ascription.type_id),
            ),
            TyDeclaration::ConstantDeclaration { decl_id, .. } => mix_hash(2, handle_hash_value(engines, *decl_id)),
            TyDeclaration::FunctionDeclaration { decl_id, .. } => mix_hash(3, handle_hash_value(engines, *decl_id)),
            TyDeclaration::TraitDeclaration { decl_id, .. } => mix_hash(4, handle_hash_value(engines, *decl_id)),
            TyDeclaration::StructDeclaration { decl_id, .. } => mix_hash(5, handle_hash_value(engines, *decl_id)),
            TyDeclaration::EnumDeclaration { decl_id, .. } => mix_hash(6, handle_hash_value(engines, *decl_id)),
            TyDeclaration::ImplTrait { decl_id, .. } => mix_hash(7, handle_hash_value(engines, *decl_id)),
            TyDeclaration::AbiDeclaration { decl_id, .. } => mix_hash(8, handle_hash_value(engines, *decl_id)),
            TyDeclaration::GenericTypeForFunctionScope { name, type_id } => mix_hash(
                mix_hash(9, hash_str(name.as_str())),
                engines.te.hash_type(*type_id),
            ),
            TyDeclaration::ErrorRecovery(_) => 10,
            TyDeclaration::StorageDeclaration { decl_id, .. } => mix_hash(11, handle_hash_value(engines, *decl_id)),
        }
    }
}


// ---------------------------------------------------------------------------
// Substitution
// ---------------------------------------------------------------------------

pub open spec fn fields_touched(types: Seq<TypeInfo>, l: Seq<TyStructField>, m: Seq<(TypeId, TypeId)>) -> bool {
    exists|i: int| 0 <= i < l.len() && occurs(types, #[trigger] l[i].type_id.0 as nat, m)
}

pub open spec fn variants_touched(types: Seq<TypeInfo>, l: Seq<TyEnumVariant>, m: Seq<(TypeId, TypeId)>) -> bool {
    exists|i: int| 0 <= i < l.len() && occurs(types, #[trigger] l[i].type_id.0 as nat, m)
}

pub open spec fn params_touched(
    types: Seq<TypeInfo>,
    l: Seq<TyFunctionParameter>,
    m: Seq<(TypeId, TypeId)>,
) -> bool {
    exists|i: int| 0 <= i < l.len() && occurs(types, #[trigger] l[i].type_id.0 as nat, m)
}

/// `r` is `l` with the substitution applied to each field's type.
pub open spec fn fields_subst(
    types: Seq<TypeInfo>,
    l: Seq<TyStructField>,
    r: Seq<TyStructField>,
    m: Seq<(TypeId, TypeId)>,
) -> bool {
    &&& l.len() == r.len()
    &&& forall|i: int|
        0 <= i < l.len() ==> {
            &&& (#[trigger] r[i]).name == l[i].name
            &&& r[i].span == l[i].span
            &&& subst_of(types, l[i].type_id.0 as nat, r[i].type_id.0 as nat, m)
        }
}

pub open spec fn variants_subst(
    types: Seq<TypeInfo>,
    l: Seq<TyEnumVariant>,
    r: Seq<TyEnumVariant>,
    m: Seq<(TypeId, TypeId)>,
) -> bool {
    &&& l.len() == r.len()
    &&& forall|i: int|
        0 <= i < l.len() ==> {
            &&& (#[trigger] r[i]).name == l[i].name
            &&& r[i].span == l[i].span
            &&& r[i].tag == l[i].tag
            &&& subst_of(types, l[i].type_id.0 as nat, r[i].type_id.0 as nat, m)
        }
}

pub open spec fn params_subst(
    types: Seq<TypeInfo>,
    l: Seq<TyFunctionParameter>,
    r: Seq<TyFunctionParameter>,
    m: Seq<(TypeId, TypeId)>,
) -> bool {
    &&& l.len() == r.len()
    &&& forall|i: int|
        0 <= i < l.len() ==> {
            &&& (#[trigger] r[i]).name == l[i].name
            &&& subst_of(types, l[i].type_id.0 as nat, r[i].type_id.0 as nat, m)
        }
}

fn subst_fields(te: &mut TypeEngine, items: &Vec<TyStructField>, m: &TypeSubstMap) -> (r: (Vec<TyStructField>, bool))
    requires
        old(te).wf(),
        fields_below(items@, old(te)@.len()),
        m.valid_for(old(te)@.len()),
    ensures
        final(te).wf(),
        extends(final(te)@, old(te)@),
        r.1 <==> fields_touched(old(te)@, items@, m.mapping@),
        fields_subst(final(te)@, items@, r.0@, m.mapping@),
        fields_below(r.0@, final(te)@.len()),
{
    let ghost pre = te@;
    let mut out: Vec<TyStructField> = Vec::new();
    let mut changed = false;
    let mut i: usize = 0;
    while i < items.len()
        invariant
            te.wf(),
            extends(te@, pre),
            fields_below(items@, pre.len()),
            m.valid_for(pre.len()),
            out@.len() == i,
            i <= items@.len(),
            forall|j: int|
                0 <= j < i ==> {
                    &&& (#[trigger] out@[j]).type_id.0 < te@.len()
                    &&& subst_of(te@, items@[j].type_id.0 as nat, out@[j].type_id.0 as nat, m.mapping@)
                    &&& out@[j].name == items@[j].name && out@[j].span == items@[j].span
                },
            changed <==> exists|j: int|
                0 <= j < i && occurs(pre, #[trigger] items@[j].type_id.0 as nat, m.mapping@),
        decreases items@.len() - i,
    {
        let ghost before = te@;
        let x = &items[i];
        proof {
            lemma_occurs_stable(pre, before, x.type_id.0 as nat, m.mapping@);
        }
        let t = match te.subst_type(x.type_id, m) {
            Some(n) => {
                changed = true;
                n
            },
            None => {
                proof {
                    lemma_match_from_stable(pre, te@, x.type_id.0 as nat, m.mapping@, 0);
                    lemma_occurs_stable(pre, te@, x.type_id.0 as nat, m.mapping@);
                }
                x.type_id
            },
        };
        out.push(TyStructField { name: x.name.duplicate(), type_id: t, span: x.span });
        proof {
            assert forall|j: int| 0 <= j < i implies {
                &&& (#[trigger] out@[j]).type_id.0 < te@.len()
                &&& subst_of(te@, items@[j].type_id.0 as nat, out@[j].type_id.0 as nat, m.mapping@)
            } by {
                lemma_subst_of_stable(
                    before,
                    te@,
                    items@[j].type_id.0 as nat,
                    out@[j].type_id.0 as nat,
                    m.mapping@,
                );
            }
        }
        i = i + 1;
    }
    (out, changed)
}

fn subst_variants(te: &mut TypeEngine, items: &Vec<TyEnumVariant>, m: &TypeSubstMap) -> (r: (Vec<TyEnumVariant>, bool))
    requires
        old(te).wf(),
        variants_below(items@, old(te)@.len()),
        m.valid_for(old(te)@.len()),
    ensures
        final(te).wf(),
        extends(final(te)@, old(te)@),
        r.1 <==> variants_touched(old(te)@, items@, m.mapping@),
        variants_subst(final(te)@, items@, r.0@, m.mapping@),
        variants_below(r.0@, final(te)@.len()),
{
    let ghost pre = te@;
    let mut out: Vec<TyEnumVariant> = Vec::new();
    let mut changed = false;
    let mut i: usize = 0;
    while i < items.len()
        invariant
            te.wf(),
            extends(te@, pre),
            variants_below(items@, pre.len()),
            m.valid_for(pre.len()),
            out@.len() == i,
            i <= items@.len(),
            forall|j: int|
                0 <= j < i ==> {
                    &&& (#[trigger] out@[j]).type_id.0 < te@.len()
                    &&& subst_of(te@, items@[j].type_id.0 as nat, out@[j].type_id.0 as nat, m.mapping@)
                    &&& out@[j].name == items@[j].name && out@[j].span == items@[j].span && out@[j].tag == items@[j].tag
                },
            changed <==> exists|j: int|
                0 <= j < i && occurs(pre, #[trigger] items@[j].type_id.0 as nat, m.mapping@),
        decreases items@.len() - i,
    {
        let ghost before = te@;
        let x = &items[i];
        proof {
            lemma_occurs_stable(pre, before, x.type_id.0 as nat, m.mapping@);
        }
        let t = match te.subst_type(x.type_id, m) {
            Some(n) => {
                changed = true;
                n
            },
            None => {
                proof {
                    lemma_match_from_stable(pre, te@, x.type_id.0 as nat, m.mapping@, 0);
                    lemma_occurs_stable(pre, te@, x.type_id.0 as nat, m.mapping@);
                }
                x.type_id
            },
        };
        out.push(TyEnumVariant { name: x.name.duplicate(), type_id: t, tag: x.tag, span: x.span });
        proof {
            assert forall|j: int| 0 <= j < i implies {
                &&& (#[trigger] out@[j]).type_id.0 < te@.len()
                &&& subst_of(te@, items@[j].type_id.0 as nat, out@[j].type_id.0 as nat, m.mapping@)
            } by {
                lemma_subst_of_stable(
                    before,
                    te@,
                    items@[j].type_id.0 as nat,
                    out@[j].type_id.0 as nat,
                    m.mapping@,
                );
            }
        }
        i = i + 1;
    }
    (out, changed)
}

fn subst_params(te: &mut TypeEngine, items: &Vec<TyFunctionParameter>, m: &TypeSubstMap) -> (r: (Vec<TyFunctionParameter>, bool))
    requires
        old(te).wf(),
        params_below(items@, old(te)@.len()),
        m.valid_for(old(te)@.len()),
    ensures
        final(te).wf(),
        extends(final(te)@, old(te)@),
        r.1 <==> params_touched(old(te)@, items@, m.mapping@),
        params_subst(final(te)@, items@, r.0@, m.mapping@),
        params_below(r.0@, final(te)@.len()),
{
    let ghost pre = te@;
    let mut out: Vec<TyFunctionParameter> = Vec::new();
    let mut changed = false;
    let mut i: usize = 0;
    while i < items.len()
        invariant
            te.wf(),
            extends(te@, pre),
            params_below(items@, pre.len()),
            m.valid_for(pre.len()),
            out@.len() == i,
            i <= items@.len(),
            forall|j: int|
                0 <= j < i ==> {
                    &&& (#[trigger] out@[j]).type_id.0 < te@.len()
                    &&& subst_of(te@, items@[j].type_id.0 as nat, out@[j].type_id.0 as nat, m.mapping@)
                    &&& out@[j].name == items@[j].name
                },
            changed <==> exists|j: int|
                0 <= j < i && occurs(pre, #[trigger] items@[j].type_id.0 as nat, m.mapping@),
        decreases items@.len() - i,
    {
        let ghost before = te@;
        let x = &items[i];
        proof {
            lemma_occurs_stable(pre, before, x.type_id.0 as nat, m.mapping@);
        }
        let t = match te.subst_type(x.type_id, m) {
            Some(n) => {
                changed = true;
                n
            },
            None => {
                proof {
                    lemma_match_from_stable(pre, te@, x.type_id.0 as nat, m.mapping@, 0);
                    lemma_occurs_stable(pre, te@, x.type_id.0 as nat, m.mapping@);
                }
                x.type_id
            },
        };
        out.push(TyFunctionParameter { name: x.name.duplicate(), type_id: t });
        proof {
            assert forall|j: int| 0 <= j < i implies {
                &&& (#[trigger] out@[j]).type_id.0 < te@.len()
                &&& subst_of(te@, items@[j].type_id.0 as nat, out@[j].type_id.0 as nat, m.mapping@)
            } by {
                lemma_subst_of_stable(
                    before,
                    te@,
                    items@[j].type_id.0 as nat,
                    out@[j].type_id.0 as nat,
                    m.mapping@,
                );
            }
        }
        i = i + 1;
    }
    (out, changed)
}


pub open spec fn struct_handle_subst(
    pre_types: Seq<TypeInfo>,
    types: Seq<TypeInfo>,
    pre: Seq<DeclPayload>,
    post: Seq<DeclPayload>,
    id: DeclId,
    id2: DeclId,
    m: Seq<(TypeId, TypeId)>,
) -> bool {
    let unchanged = id2 == id && post == pre;
    if id.0 < pre.len() {
        match pre[id.0 as int] {
            DeclPayload::Struct(s) => if fields_touched(pre_types, s.fields@, m) {
                &&& id2.0 == pre.len()
                &&& post.len() == pre.len() + 1
                &&& post == pre.push(post[pre.len() as int])
                &&& match post[pre.len() as int] {
                    DeclPayload::Struct(t) => t.name == s.name && t.visibility == s.visibility && t.span == s.span && fields_subst(types, s.fields@, t.fields@, m),
                    _ => false,
                }
            } else {
                unchanged
            },
            _ => unchanged,
        }
    } else {
        unchanged
    }
}

pub open spec fn enum_handle_subst(
    pre_types: Seq<TypeInfo>,
    types: Seq<TypeInfo>,
    pre: Seq<DeclPayload>,
    post: Seq<DeclPayload>,
    id: DeclId,
    id2: DeclId,
    m: Seq<(TypeId, TypeId)>,
) -> bool {
    let unchanged = id2 == id && post == pre;
    if id.0 < pre.len() {
        match pre[id.0 as int] {
            DeclPayload::Enum(s) => if variants_touched(pre_types, s.variants@, m) {
                &&& id2.0 == pre.len()
                &&& post.len() == pre.len() + 1
                &&& post == pre.push(post[pre.len() as int])
                &&& match post[pre.len() as int] {
                    DeclPayload::Enum(t) => t.name == s.name && t.visibility == s.visibility && t.span == s.span && variants_subst(types, s.variants@, t.variants@, m),
                    _ => false,
                }
            } else {
                unchanged
            },
            _ => unchanged,
        }
    } else {
        unchanged
    }
}

pub open spec fn function_handle_subst(
    pre_types: Seq<TypeInfo>,
    types: Seq<TypeInfo>,
    pre: Seq<DeclPayload>,
    post: Seq<DeclPayload>,
    id: DeclId,
    id2: DeclId,
    m: Seq<(TypeId, TypeId)>,
) -> bool {
    let unchanged = id2 == id && post == pre;
    if id.0 < pre.len() {
        match pre[id.0 as int] {
            DeclPayload::Function(s) => if (params_touched(pre_types, s.parameters@, m) || occurs(pre_types, s.return_type.0 as nat, m)) {
                &&& id2.0 == pre.len()
                &&& post.len() == pre.len() + 1
                &&& post == pre.push(post[pre.len() as int])
                &&& match post[pre.len() as int] {
                    DeclPayload::Function(t) => t.name == s.name && t.visibility == s.visibility && t.span == s.span && params_subst(types, s.parameters@, t.parameters@, m) && subst_of(types, s.return_type.0 as nat, t.return_type.0 as nat, m),
                    _ => false,
                }
            } else {
                unchanged
            },
            _ => unchanged,
        }
    } else {
        unchanged
    }
}

pub open spec fn impl_handle_subst(
    pre_types: Seq<TypeInfo>,
    types: Seq<TypeInfo>,
    pre: Seq<DeclPayload>,
    post: Seq<DeclPayload>,
    id: DeclId,
    id2: DeclId,
    m: Seq<(TypeId, TypeId)>,
) -> bool {
    let unchanged = id2 == id && post == pre;
    if id.0 < pre.len() {
        match pre[id.0 as int] {
            DeclPayload::ImplTrait(s) => if occurs(pre_types, s.implementing_for.0 as nat, m) {
                &&& id2.0 == pre.len()
                &&& post.len() == pre.len() + 1
                &&& post == pre.push(post[pre.len() as int])
                &&& match post[pre.len() as int] {
                    DeclPayload::ImplTrait(t) => t.trait_name == s.trait_name && t.span == s.span && subst_of(types, s.implementing_for.0 as nat, t.implementing_for.0 as nat, m),
                    _ => false,
                }
            } else {
                unchanged
            },
            _ => unchanged,
        }
    } else {
        unchanged
    }
}

/// The kinds whose types substitution can change: a variable's inline
/// types, and the payloads of structs, enums, functions and impls.
pub open spec fn subst_reaches(d: TyDeclaration) -> bool {
    d is VariableDeclaration || d is StructDeclaration || d is EnumDeclaration || d is FunctionDeclaration
        || d is ImplTrait
}

/// What substitution makes of declaration `d`: `e` is the declaration
/// afterwards, `pre_types`/`types` the type arena before and after, and
/// `pre`/`post` the declaration arena before and after. A variable's types
/// are substituted in place. A struct, enum, function or impl whose payload
/// mentions a replaced type gets a fresh handle to a new, substituted
/// payload; the old payload stays as it was. Every other kind is untouched.
pub open spec fn subst_outcome(
    d: TyDeclaration,
    e: TyDeclaration,
    pre_types: Seq<TypeInfo>,
    types: Seq<TypeInfo>,
    pre: Seq<DeclPayload>,
    post: Seq<DeclPayload>,
    m: Seq<(TypeId, TypeId)>,
) -> bool {
    match (d, e) {
        (TyDeclaration::VariableDeclaration(v), TyDeclaration::VariableDeclaration(w)) => {
            &&& w.name == v.name
            &&& w.mutability == v.mutability
            &&& w.type_ascription.span == v.type_ascription.span
            &&& w.body.span == v.body.span
            &&& subst_of(types, v.type_ascription.type_id.0 as nat, w.type_ascription.type_id.0 as nat, m)
            &&& subst_of(types, v.body.return_type.0 as nat, w.body.return_type.0 as nat, m)
            &&& post == pre
        },
        (
            TyDeclaration::StructDeclaration { name, decl_id, decl_span },
            TyDeclaration::StructDeclaration { name: n2, decl_id: i2, decl_span: s2 },
        ) => n2 == name && s2 == decl_span && struct_handle_subst(pre_types, types, pre, post, decl_id, i2, m),
        (
            TyDeclaration::EnumDeclaration { name, decl_id, decl_span },
            TyDeclaration::EnumDeclaration { name: n2, decl_id: i2, decl_span: s2 },
        ) => n2 == name && s2 == decl_span && enum_handle_subst(pre_types, types, pre, post, decl_id, i2, m),
        (
            TyDeclaration::FunctionDeclaration { name, decl_id, decl_span },
            TyDeclaration::FunctionDeclaration { name: n2, decl_id: i2, decl_span: s2 },
        ) => n2 == name && s2 == decl_span && function_handle_subst(pre_types, types, pre, post, decl_id, i2, m),
        (
            TyDeclaration::ImplTrait { name, decl_id, decl_span },
            TyDeclaration::ImplTrait { name: n2, decl_id: i2, decl_span: s2 },
        ) => n2 == name && s2 == decl_span && impl_handle_subst(pre_types, types, pre, post, decl_id, i2, m),
        _ => !subst_reaches(d) && e == d && post == pre && types == pre_types,
    }
}

pub proof fn lemma_decls_below_mono(decls: Seq<DeclPayload>, n: nat, k: nat)
    requires
        forall|j: int| 0 <= j < decls.len() ==> payload_below(#[trigger] decls[j], n),
        n <= k,
    ensures
        forall|j: int| 0 <= j < decls.len() ==> payload_below(#[trigger] decls[j], k),
{
    assert forall|j: int| 0 <= j < decls.len() implies payload_below(#[trigger] decls[j], k) by {
        assert(payload_below(decls[j], n));
    }
}

impl TyDeclaration {
    /// Applies a type substitution to the declaration; see [`subst_outcome`].
    pub fn subst(&mut self, m: &TypeSubstMap, te: &mut TypeEngine, de: &mut DeclEngine)
        requires
            old(te).wf(),
            old(de).wf_for(old(te)@.len()),
            m.valid_for(old(te)@.len()),
            inline_types_below(*old(self), old(te)@.len()),
        ensures
            final(te).wf(),
            extends(final(te)@, old(te)@),
            final(de).wf_for(final(te)@.len()),
            inline_types_below(*final(self), final(te)@.len()),
            subst_outcome(*old(self), *final(self), old(te)@, final(te)@, old(de)@, final(de)@, m.mapping@),
    {
        let ghost pre_types = te@;
        let ghost pre = de@;
        let replacement: Option<TyDeclaration> = match &*self {
            TyDeclaration::VariableDeclaration(v) => {
                let a = match te.subst_type(v.type_ascription.type_id, m) {
                    Some(n) => n,
                    None => {
                        proof {
                            lemma_match_from_stable(pre_types, te@, v.type_ascription.type_id.0 as nat, m.mapping@, 0);
                            lemma_occurs_stable(pre_types, te@, v.type_ascription.type_id.0 as nat, m.mapping@);
                        }
                        v.type_ascription.type_id
                    },
                };
                let ghost mid = te@;
                proof {
                    lemma_occurs_stable(pre_types, mid, v.body.return_type.0 as nat, m.mapping@);
                }
                let b = match te.subst_type(v.body.return_type, m) {
                    Some(n) => n,
                    None => {
                        proof {
                            lemma_match_from_stable(pre_types, te@, v.body.return_type.0 as nat, m.mapping@, 0);
                            lemma_occurs_stable(pre_types, te@, v.body.return_type.0 as nat, m.mapping@);
                        }
                        v.body.return_type
                    },
                };
                proof {
                    lemma_subst_of_stable(mid, te@, v.type_ascription.type_id.0 as nat, a.0 as nat, m.mapping@);
                }
                Some(TyDeclaration::VariableDeclaration(Box::new(TyVariableDeclaration {
                    name: v.name.duplicate(),
                    body: TyExpression { return_type: b, span: v.body.span },
                    mutability: v.mutability,
                    type_ascription: TypeArgument { type_id: a, span: v.type_ascription.span },
                })))
            },
            TyDeclaration::StructDeclaration { name, decl_id, decl_span } => {
                let mut out: Option<TyDeclaration> = None;
                if decl_id.0 < de.len() {
                    if let DeclPayload::Struct(sd) = de.get(*decl_id) {
                        proof {
                            assert(payload_below(de@[decl_id.0 as int], pre_types.len()));
                        }
                        let (fields, changed) = subst_fields(te, &sd.fields, m);
                        if changed {
                            let payload = DeclPayload::Struct(TyStructDeclaration {
                                name: sd.name.duplicate(),
                                fields,
                                visibility: sd.visibility,
                                span: sd.span,
                            });
                            let nid = de.insert(payload);
                            out = Some(TyDeclaration::StructDeclaration {
                                name: name.duplicate(),
                                decl_id: nid,
                                decl_span: *decl_span,
                            });
                        }
                    }
                }
                out
            },
            TyDeclaration::EnumDeclaration { name, decl_id, decl_span } => {
                let mut out: Option<TyDeclaration> = None;
                if decl_id.0 < de.len() {
                    if let DeclPayload::Enum(ed) = de.get(*decl_id) {
                        proof {
                            assert(payload_below(de@[decl_id.0 as int], pre_types.len()));
                        }
                        let (variants, changed) = subst_variants(te, &ed.variants, m);
                        if changed {
                            let payload = DeclPayload::Enum(TyEnumDeclaration {
                                name: ed.name.duplicate(),
                                variants,
                                visibility: ed.visibility,
                                span: ed.span,
                            });
                            let nid = de.insert(payload);
                            out = Some(TyDeclaration::EnumDeclaration {
                                name: name.duplicate(),
                                decl_id: nid,
                                decl_span: *decl_span,
                            });
                        }
                    }
                }
                out
            },
            TyDeclaration::FunctionDeclaration { name, decl_id, decl_span } => {
                let mut out: Option<TyDeclaration> = None;
                if decl_id.0 < de.len() {
                    if let DeclPayload::Function(fd) = de.get(*decl_id) {
                        proof {
                            assert(payload_below(de@[decl_id.0 as int], pre_types.len()));
                        }
                        let (params, changed) = subst_params(te, &fd.parameters, m);
                        let ghost mid = te@;
                        proof {
                            lemma_occurs_stable(pre_types, mid, fd.return_type.0 as nat, m.mapping@);
                        }
                        let (ret, ret_changed) = match te.subst_type(fd.return_type, m) {
                            Some(n) => (n, true),
                            None => {
                                proof {
                                    lemma_match_from_stable(pre_types, te@, fd.return_type.0 as nat, m.mapping@, 0);
                                    lemma_occurs_stable(pre_types, te@, fd.return_type.0 as nat, m.mapping@);
                                }
                                (fd.return_type, false)
                            },
                        };
                        proof {
                            assert forall|j: int| 0 <= j < fd.parameters@.len() implies subst_of(
                                te@,
                                #[trigger] fd.parameters@[j].type_id.0 as nat,
                                params@[j].type_id.0 as nat,
                                m.mapping@,
                            ) by {
                                assert(params@[j].type_id.0 < mid.len());
                                lemma_subst_of_stable(
                                    mid,
                                    te@,
                                    fd.parameters@[j].type_id.0 as nat,
                                    params@[j].type_id.0 as nat,
                                    m.mapping@,
                                );
                            }
                        }
                        if changed || ret_changed {
                            let payload = DeclPayload::Function(TyFunctionDeclaration {
                                name: fd.name.duplicate(),
                                parameters: params,
                                return_type: ret,
                                visibility: fd.visibility,
                                span: fd.span,
                            });
                            let nid = de.insert(payload);
                            out = Some(TyDeclaration::FunctionDeclaration {
                                name: name.duplicate(),
                                decl_id: nid,
                                decl_span: *decl_span,
                            });
                        }
                    }
                }
                out
            },
            TyDeclaration::ImplTrait { name, decl_id, decl_span } => {
                let mut out: Option<TyDeclaration> = None;
                if decl_id.0 < de.len() {
                    if let DeclPayload::ImplTrait(it) = de.get(*decl_id) {
                        proof {
                            assert(payload_below(de@[decl_id.0 as int], pre_types.len()));
                        }
                        if let Some(n) = te.subst_type(it.implementing_for, m) {
                            let payload = DeclPayload::ImplTrait(TyImplTrait {
                                trait_name: it.trait_name.duplicate(),
                                implementing_for: n,
                                span: it.span,
                            });
                            let nid = de.insert(payload);
                            out = Some(TyDeclaration::ImplTrait {
                                name: name.duplicate(),
                                decl_id: nid,
                                decl_span: *decl_span,
                            });
                        }
                    }
                }
                out
            },
            _ => None,
        };
        proof {
            lemma_decls_below_mono(pre, pre_types.len(), te@.len());
        }
        if let Some(d) = replacement {
            *self = d;
        }
    }
}


// ---------------------------------------------------------------------------
// Self type, return type, display, metadata
// ---------------------------------------------------------------------------

impl TyDeclaration {
    /// Replaces the `Self` placeholder with `self_type`. For the kinds that
    /// substitution reaches (see [`subst_reaches`]) a `SelfType` shape is
    /// stored as the placeholder and substitution maps it to `self_type`;
    /// every other kind, and both engines, are left as they are.
    pub fn replace_self_type(&mut self, te: &mut TypeEngine, de: &mut DeclEngine, self_type: TypeId)
        requires
            old(te).wf(),
            old(de).wf_for(old(te)@.len()),
            self_type.0 < old(te)@.len(),
            inline_types_below(*old(self), old(te)@.len()),
        ensures
            final(te).wf(),
            extends(final(te)@, old(te)@),
            final(de).wf_for(final(te)@.len()),
            inline_types_below(*final(self), final(te)@.len()),
            !subst_reaches(*old(self)) ==> {
                &&& *final(self) == *old(self)
                &&& final(te)@ == old(te)@
                &&& final(de)@ == old(de)@
            },
            subst_reaches(*old(self)) ==> subst_outcome(
                *old(self),
                *final(self),
                old(te)@.push(TypeInfo::SelfType),
                final(te)@,
                old(de)@,
                final(de)@,
                seq![(TypeId(old(te)@.len() as usize), self_type)],
            ),
    {
        let reaches = match self {
            TyDeclaration::VariableDeclaration(_)
            | TyDeclaration::StructDeclaration { .. }
            | TyDeclaration::EnumDeclaration { .. }
            | TyDeclaration::FunctionDeclaration { .. }
            | TyDeclaration::ImplTrait { .. } => true,
            _ => false,
        };
        if !reaches {
            return;
        }
        let ghost pre = te@;
        let placeholder = te.insert(TypeInfo::SelfType);
        let m = TypeSubstMap { mapping: vec![(placeholder, self_type)] };
        proof {
            lemma_decls_below_mono(de@, pre.len(), te@.len());
            assert(m.mapping@ =~= seq![(TypeId(pre.len() as usize), self_type)]);
        }
        self.subst(&m, te, de);
    }

    /// The declaration as diagnostics display it; see [`display_str`].
    pub fn display_string(&self, te: &TypeEngine) -> (r: String)
        requires
            te.wf(),
            inline_types_below(*self, te@.len()),
        ensures
            r@ == display_str(te@, *self),
    {
        let mut s = String::from_str(self.friendly_type_name());
        s.append(" declaration (");
        match self {
            TyDeclaration::VariableDeclaration(v) => {
                match v.mutability {
                    VariableMutability::Mutable => s.append("mut"),
                    VariableMutability::RefMutable => s.append("ref mut"),
                    VariableMutability::Immutable => {},
                }
                s.append(v.name.as_str());
                s.append(": ");
                let t = te.json_abi_str(v.type_ascription.type_id);
                s.append(t.as_str());
                s.append(" = ");
                let b = te.json_abi_str(v.body.return_type);
                s.append(b.as_str());
            },
            TyDeclaration::FunctionDeclaration { name, .. }
            | TyDeclaration::TraitDeclaration { name, .. }
            | TyDeclaration::StructDeclaration { name, .. }
            | TyDeclaration::EnumDeclaration { name, .. } => s.append(name.as_str()),
            _ => {},
        }
        s.append(")");
        s
    }

    /// The type a declaration stands for. Structs, enums and storage get a
    /// fresh type of their own fields; declarations that are no type give
    /// one `NotAType` diagnostic.
    pub fn return_type(&self, te: &mut TypeEngine, de: &DeclEngine, access_span: Span) -> (r: CompileResult<TypeId>)
        requires
            old(te).wf(),
            de.wf_for(old(te)@.len()),
            inline_types_below(*self, old(te)@.len()),
        ensures
            final(te).wf(),
            return_type_outcome(*self, r, old(te)@, final(te)@, de@, access_span),
    {
        match self {
            TyDeclaration::VariableDeclaration(decl) => Ok(decl.type_ascription.type_id),
            TyDeclaration::FunctionDeclaration { decl_id, .. } => match de.get_function(*decl_id, self.span()) {
                Ok(d) => Ok(d.return_type),
                Err(e) => Err(vec![e]),
            },
            TyDeclaration::StructDeclaration { decl_id, .. } => match de.get_struct(*decl_id, self.span()) {
                Ok(d) => {
                    proof {
                        assert(payload_below(de@[decl_id.0 as int], te@.len()));
                    }
                    let fields = copy_fields(&d.fields);
                    Ok(te.insert(TypeInfo::Struct { name: d.name.duplicate(), fields }))
                },
                Err(e) => Err(vec![e]),
            },
            TyDeclaration::EnumDeclaration { decl_id, .. } => match de.get_enum(*decl_id, access_span) {
                Ok(d) => {
                    proof {
                        assert(payload_below(de@[decl_id.0 as int], te@.len()));
                    }
                    let variants = copy_variants(&d.variants);
                    Ok(te.insert(TypeInfo::Enum { name: d.name.duplicate(), variant_types: variants }))
                },
                Err(e) => Err(vec![e]),
            },
            TyDeclaration::StorageDeclaration { decl_id, .. } => match de.get_storage(*decl_id, self.span()) {
                Ok(d) => {
                    proof {
                        assert(payload_below(de@[decl_id.0 as int], te@.len()));
                    }
                    let fields = copy_fields(&d.fields);
                    Ok(te.insert(TypeInfo::Storage { fields }))
                },
                Err(e) => Err(vec![e]),
            },
            TyDeclaration::GenericTypeForFunctionScope { type_id, .. } => Ok(*type_id),
            _ => {
                let name = self.display_string(te);
                Err(vec![CompileError::NotAType { span: self.span(), name, actually_is: self.kind_string() }])
            },
        }
    }

    /// The name used in diagnostics: for an impl, `<trait> for <type>`; for
    /// every other kind its identifier, or the empty string.
    pub fn friendly_name(&self, engines: &Engines) -> (r: String)
        requires
            engines.wf(),
            self is ImplTrait ==> resolves(*self, engines.de@),
        ensures
            r@ == friendly_name_str(engines.te@, engines.de@, *self),
    {
        let mut s = match self.get_decl_ident() {
            Some(ident) => ident.name,
            None => String::new(),
        };
        if let TyDeclaration::ImplTrait { decl_id, .. } = self {
            if let DeclPayload::ImplTrait(it) = engines.de.get(*decl_id) {
                proof {
                    assert(payload_below(engines.de@[decl_id.0 as int], engines.te@.len()));
                }
                s.append(" for ");
                let t = engines.te.json_abi_str(it.implementing_for);
                s.append(t.as_str());
            }
        }
        s
    }

    /// The types this declaration leaves unresolved; run on entry points.
    pub fn collect_types_metadata(&self, te: &TypeEngine, de: &DeclEngine) -> (r: CompileResult<Vec<TypeMetadata>>)
        requires
            te.wf(),
            de.wf_for(te@.len()),
            inline_types_below(*self, te@.len()),
        ensures
            metadata_outcome(*self, r, te@, de@),
    {
        match self {
            TyDeclaration::VariableDeclaration(decl) => {
                let mut body = type_metadata_of(te, decl.body.return_type);
                let mut asc = type_metadata_of(te, decl.type_ascription.type_id);
                body.append(&mut asc);
                Ok(body)
            },
            TyDeclaration::FunctionDeclaration { decl_id, decl_span, .. } => match de.get_function(*decl_id, *decl_span) {
                Ok(f) => {
                    proof {
                        assert(payload_below(de@[decl_id.0 as int], te@.len()));
                    }
                    let mut out: Vec<TypeMetadata> = Vec::new();
                    let mut i: usize = 0;
                    while i < f.parameters.len()
                        invariant
                            te.wf(),
                            params_below(f.parameters@, te@.len()),
                            i <= f.parameters@.len(),
                            out@ == params_metadata(te@, f.parameters@.subrange(0, i as int)),
                        decreases f.parameters@.len() - i,
                    {
                        assert(f.parameters@.subrange(0, i as int + 1).drop_last() =~= f.parameters@.subrange(0, i as int));
                        let mut m = type_metadata_of(te, f.parameters[i].type_id);
                        out.append(&mut m);
                        i = i + 1;
                    }
                    assert(f.parameters@.subrange(0, f.parameters@.len() as int) =~= f.parameters@);
                    let mut m = type_metadata_of(te, f.return_type);
                    out.append(&mut m);
                    Ok(out)
                },
                Err(e) => Err(vec![e]),
            },
            TyDeclaration::ConstantDeclaration { decl_id, decl_span, .. } => match de.get_constant(*decl_id, *decl_span) {
                Ok(c) => {
                    proof {
                        assert(payload_below(de@[decl_id.0 as int], te@.len()));
                    }
                    match &c.value {
                        Some(v) => Ok(type_metadata_of(te, v.return_type)),
                        None => Ok(Vec::new()),
                    }
                },
                Err(e) => Err(vec![e]),
            },
            _ => Ok(Vec::new()),
        }
    }
}

/// What a type contributes to type metadata: its name when it is a generic
/// parameter that was never resolved.
#[derive(Clone, Debug)]
pub enum TypeMetadata {
    UnresolvedType(Ident),
}

pub open spec fn type_metadata(types: Seq<TypeInfo>, id: nat) -> Seq<TypeMetadata> {
    let r = resolve(types, id);
    if r < types.len() {
        match types[r as int] {
            TypeInfo::UnknownGeneric { name } => seq![TypeMetadata::UnresolvedType(name)],
            _ => Seq::empty(),
        }
    } else {
        Seq::empty()
    }
}

pub open spec fn params_metadata(types: Seq<TypeInfo>, ps: Seq<TyFunctionParameter>) -> Seq<TypeMetadata>
    decreases ps.len(),
{
    if ps.len() == 0 {
        Seq::empty()
    } else {
        params_metadata(types, ps.drop_last()) + type_metadata(types, ps.last().type_id.0 as nat)
    }
}

/// Metadata collection: a variable gives its initializer's then its
/// ascription's; a function its parameters' then its return type's; a
/// constant its value's, if any; every other kind nothing. A handle that
/// does not resolve gives its diagnostic.
pub open spec fn metadata_outcome(
    d: TyDeclaration,
    r: CompileResult<Vec<TypeMetadata>>,
    types: Seq<TypeInfo>,
    decls: Seq<DeclPayload>,
) -> bool {
    match d {
        TyDeclaration::VariableDeclaration(v) => r matches Ok(ms) && ms@ == type_metadata(
            types,
            v.body.return_type.0 as nat,
        ) + type_metadata(types, v.type_ascription.type_id.0 as nat),
        TyDeclaration::FunctionDeclaration { decl_id, decl_span, .. } => match r {
            Ok(ms) => resolves(d, decls) && match decls[decl_id.0 as int] {
                DeclPayload::Function(f) => ms@ == params_metadata(types, f.parameters@) + type_metadata(
                    types,
                    f.return_type.0 as nat,
                ),
                _ => false,
            },
            Err(es) => !resolves(d, decls) && es@ =~= seq![CompileError::InvalidDeclHandle { span: decl_span }],
        },
        TyDeclaration::ConstantDeclaration { decl_id, decl_span, .. } => match r {
            Ok(ms) => resolves(d, decls) && match decls[decl_id.0 as int] {
                DeclPayload::Constant(c) => match c.value {
                    Some(v) => ms@ == type_metadata(types, v.return_type.0 as nat),
                    None => ms@.len() == 0,
                },
                _ => false,
            },
            Err(es) => !resolves(d, decls) && es@ =~= seq![CompileError::InvalidDeclHandle { span: decl_span }],
        },
        _ => r matches Ok(ms) && ms@.len() == 0,
    }
}

fn type_metadata_of(te: &TypeEngine, id: TypeId) -> (r: Vec<TypeMetadata>)
    requires
        te.wf(),
        id.0 < te@.len(),
    ensures
        r@ == type_metadata(te@, id.0 as nat),
{
    match te.look_up(id) {
        TypeInfo::UnknownGeneric { name } => {
            let mut v: Vec<TypeMetadata> = Vec::new();
            v.push(TypeMetadata::UnresolvedType(name.duplicate()));
            assert(v@ =~= type_metadata(te@, id.0 as nat));
            v
        },
        _ => {
            let v: Vec<TypeMetadata> = Vec::new();
            assert(v@ =~= type_metadata(te@, id.0 as nat));
            v
        },
    }
}

pub open spec fn mutability_prefix(m: VariableMutability) -> Seq<char> {
    match m {
        VariableMutability::Mutable => "mut"@,
        VariableMutability::RefMutable => "ref mut"@,
        VariableMutability::Immutable => Seq::empty(),
    }
}

/// A declaration as diagnostics display it: its kind, then in parentheses a
/// variable's binding or a function's, trait's, struct's or enum's name.
pub open spec fn display_str(types: Seq<TypeInfo>, d: TyDeclaration) -> Seq<char> {
    let inner = match d {
        TyDeclaration::VariableDeclaration(v) => mutability_prefix(v.mutability) + v.name.name@ + ": "@
            + type_str(types, v.type_ascription.type_id.0 as nat) + " = "@ + type_str(
            types,
            v.body.return_type.0 as nat,
        ),
        TyDeclaration::FunctionDeclaration { name, .. } => name.name@,
        TyDeclaration::TraitDeclaration { name, .. } => name.name@,
        TyDeclaration::StructDeclaration { name, .. } => name.name@,
        TyDeclaration::EnumDeclaration { name, .. } => name.name@,
        _ => Seq::empty(),
    };
    kind_label(d) + " declaration ("@ + inner + ")"@
}

pub open spec fn friendly_name_str(types: Seq<TypeInfo>, decls: Seq<DeclPayload>, d: TyDeclaration) -> Seq<char> {
    let own = match decl_ident(d) {
        Some(i) => i.name@,
        None => Seq::empty(),
    };
    match d {
        TyDeclaration::ImplTrait { decl_id, .. } => match decls[decl_id.0 as int] {
            DeclPayload::ImplTrait(it) => own + " for "@ + type_str(types, it.implementing_for.0 as nat),
            _ => own,
        },
        _ => own,
    }
}

/// What `return_type` gives; `pre`/`post` are the type arena before and after.
pub open spec fn return_type_outcome(
    d: TyDeclaration,
    r: CompileResult<TypeId>,
    pre: Seq<TypeInfo>,
    post: Seq<TypeInfo>,
    decls: Seq<DeclPayload>,
    access_span: Span,
) -> bool {
    match d {
        TyDeclaration::VariableDeclaration(v) => r == Ok::<TypeId, Vec<CompileError>>(v.type_ascription.type_id) && post == pre,
        TyDeclaration::GenericTypeForFunctionScope { type_id, .. } => r == Ok::<TypeId, Vec<CompileError>>(type_id) && post == pre,
        TyDeclaration::FunctionDeclaration { decl_id, decl_span, .. } => post == pre && match r {
            Ok(t) => resolves(d, decls) && match decls[decl_id.0 as int] {
                DeclPayload::Function(f) => t == f.return_type,
                _ => false,
            },
            Err(es) => !resolves(d, decls) && es@ =~= seq![CompileError::InvalidDeclHandle { span: decl_span }],
        },
        TyDeclaration::StructDeclaration { decl_id, decl_span, .. } => match r {
            Ok(t) => resolves(d, decls) && t.0 == pre.len() && post.len() == pre.len() + 1 && post.drop_last() =~= pre
                && match (decls[decl_id.0 as int], post.last()) {
                (DeclPayload::Struct(s), TypeInfo::Struct { name, fields }) => name == s.name && fields@ == s.fields@,
                _ => false,
            },
            Err(es) => !resolves(d, decls) && post == pre && es@ =~= seq![CompileError::InvalidDeclHandle { span: decl_span }],
        },
        TyDeclaration::EnumDeclaration { decl_id, .. } => match r {
            Ok(t) => resolves(d, decls) && t.0 == pre.len() && post.len() == pre.len() + 1 && post.drop_last() =~= pre
                && match (decls[decl_id.0 as int], post.last()) {
                (DeclPayload::Enum(e), TypeInfo::Enum { name, variant_types }) => name == e.name && variant_types@ == e.variants@,
                _ => false,
            },
            Err(es) => !resolves(d, decls) && post == pre && es@ =~= seq![CompileError::InvalidDeclHandle { span: access_span }],
        },
        TyDeclaration::StorageDeclaration { decl_id, decl_span, .. } => match r {
            Ok(t) => resolves(d, decls) && t.0 == pre.len() && post.len() == pre.len() + 1 && post.drop_last() =~= pre
                && match (decls[decl_id.0 as int], post.last()) {
                (DeclPayload::Storage(s), TypeInfo::Storage { fields }) => fields@ == s.fields@,
                _ => false,
            },
            Err(es) => !resolves(d, decls) && post == pre && es@ =~= seq![CompileError::InvalidDeclHandle { span: decl_span }],
        },
        _ => post == pre && match r {
            Ok(_) => false,
            Err(es) => es@.len() == 1 && match es@[0] {
                CompileError::NotAType { span, name, actually_is } => span == decl_span(d) && name@ == display_str(pre, d)
                    && actually_is@ == kind_label(d),
                _ => false,
            },
        },
    }
}

pub open spec fn struct_fields_of(p: DeclPayload) -> Seq<TyStructField> {
    match p {
        DeclPayload::Struct(s) => s.fields@,
        _ => Seq::empty(),
    }
}

/// Substituting in a struct leaves its handle alone when no field mentions a
/// replaced type. Otherwise the result has a fresh handle whose payload is the
/// substituted struct, and the template payload stays where it was.
pub proof fn law_subst_keeps_template(
    d: TyDeclaration,
    e: TyDeclaration,
    pre_types: Seq<TypeInfo>,
    types: Seq<TypeInfo>,
    pre: Seq<DeclPayload>,
    post: Seq<DeclPayload>,
    m: Seq<(TypeId, TypeId)>,
)
    requires
        d is StructDeclaration,
        resolves(d, pre),
        subst_outcome(d, e, pre_types, types, pre, post, m),
    ensures
        ({
            let id = decl_handle(d);
            let fs = struct_fields_of(pre[id.0 as int]);
            let nid = decl_handle(e);
            &&& e is StructDeclaration
            &&& !fields_touched(pre_types, fs, m) ==> nid == id && post == pre
            &&& fields_touched(pre_types, fs, m) ==> {
                &&& nid != id
                &&& nid.0 < post.len()
                &&& post[id.0 as int] == pre[id.0 as int]
                &&& post[nid.0 as int] is Struct
                &&& fields_subst(types, fs, struct_fields_of(post[nid.0 as int]), m)
            }
        }),
{
    let id = decl_handle(d);
    if let DeclPayload::Struct(sd) = pre[id.0 as int] {
        if fields_touched(pre_types, sd.fields@, m) {
            assert(post[id.0 as int] == pre.push(post[pre.len() as int])[id.0 as int]);
        }
    }
}

} // verus!
