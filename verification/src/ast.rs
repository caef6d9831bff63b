//! The structured representation of enum declarations that the rewriting
//! pass consumes and produces, together with the mathematical views the
//! contracts are stated over.

use vstd::prelude::*;

verus! {

/// An attribute attached to a declaration, variant or field, carried as its
/// textual form. `doc` marks documentation-style attributes, which the pass
/// strips unless configured to keep them.
#[derive(Debug, PartialEq, Eq)]
pub struct Attr {
    /// Whether this is a documentation/comment annotation.
    pub doc: bool,
    /// The attribute's textual form, e.g. `#[codec(compact)]`.
    pub text: String,
}

/// Mathematical view of an [`Attr`].
pub struct AttrView {
    pub doc: bool,
    pub text: Seq<char>,
}

impl View for Attr {
    type V = AttrView;

    open spec fn view(&self) -> AttrView {
        AttrView { doc: self.doc, text: self.text@ }
    }
}

/// A field's type expression: either a simple dotted path such as
/// `T::Balance`, held as its segments, or any other shape, which the pass
/// rejects.
#[derive(Debug, PartialEq, Eq)]
pub enum TyExpr {
    /// A dotted path, one string per segment.
    Path { segments: Vec<String> },
    /// Any type expression that is not a simple dotted path
    /// (a reference, a tuple, a function type, ...).
    Other,
}

/// Mathematical view of a [`TyExpr`].
pub enum TyExprView {
    Path { segments: Seq<Seq<char>> },
    Other,
}

/// The views of a sequence of strings.
pub open spec fn strs_view(ss: Seq<String>) -> Seq<Seq<char>> {
    ss.map_values(|s: String| s@)
}

/// The views of a sequence of attributes.
pub open spec fn attrs_view(attrs: Seq<Attr>) -> Seq<AttrView> {
    attrs.map_values(|a: Attr| a@)
}

impl View for TyExpr {
    type V = TyExprView;

    open spec fn view(&self) -> TyExprView {
        match self {
            TyExpr::Path { segments } => TyExprView::Path { segments: strs_view(segments@) },
            TyExpr::Other => TyExprView::Other,
        }
    }
}

/// One typed field of a variant.
#[derive(Debug, PartialEq, Eq)]
pub struct Field {
    pub ty: TyExpr,
    pub attrs: Vec<Attr>,
}

/// Mathematical view of a [`Field`].
pub struct FieldView {
    pub ty: TyExprView,
    pub attrs: Seq<AttrView>,
}

impl View for Field {
    type V = FieldView;

    open spec fn view(&self) -> FieldView {
        FieldView { ty: self.ty@, attrs: attrs_view(self.attrs@) }
    }
}

/// The views of a sequence of fields.
pub open spec fn fields_view(fs: Seq<Field>) -> Seq<FieldView> {
    fs.map_values(|f: Field| f@)
}

/// One variant of the input declaration.
#[derive(Debug, PartialEq, Eq)]
pub struct Variant {
    pub name: String,
    pub fields: Vec<Field>,
    pub attrs: Vec<Attr>,
}

/// Mathematical view of a [`Variant`].
pub struct VariantView {
    pub name: Seq<char>,
    pub fields: Seq<FieldView>,
    pub attrs: Seq<AttrView>,
}

impl View for Variant {
    type V = VariantView;

    open spec fn view(&self) -> VariantView {
        VariantView {
            name: self.name@,
            fields: fields_view(self.fields@),
            attrs: attrs_view(self.attrs@),
        }
    }
}

/// The views of a sequence of variants.
pub open spec fn variants_view(vs: Seq<Variant>) -> Seq<VariantView> {
    vs.map_values(|v: Variant| v@)
}

/// The input declaration: a sum type with one bound context type parameter,
/// whose variants carry ordered tuples of typed fields.
#[derive(Debug, PartialEq, Eq)]
pub struct InputDecl {
    /// The declared enum's name.
    pub name: String,
    /// The single generic parameter the context-bound types refer to,
    /// e.g. `T` in `T::Balance`.
    pub context_param: String,
    /// The variants, in declaration order.
    pub variants: Vec<Variant>,
    /// Declaration-level attributes.
    pub attrs: Vec<Attr>,
}

/// Mathematical view of an [`InputDecl`].
pub struct InputDeclView {
    pub name: Seq<char>,
    pub context_param: Seq<char>,
    pub variants: Seq<VariantView>,
    pub attrs: Seq<AttrView>,
}

impl View for InputDecl {
    type V = InputDeclView;

    open spec fn view(&self) -> InputDeclView {
        InputDeclView {
            name: self.name@,
            context_param: self.context_param@,
            variants: variants_view(self.variants@),
            attrs: attrs_view(self.attrs@),
        }
    }
}

/// One variant of the rewritten declaration.
#[derive(Debug, PartialEq, Eq)]
pub struct OutVariant {
    pub name: String,
    pub fields: Vec<Field>,
    pub attrs: Vec<Attr>,
}

/// Mathematical view of an [`OutVariant`].
pub struct OutVariantView {
    pub name: Seq<char>,
    pub fields: Seq<FieldView>,
    pub attrs: Seq<AttrView>,
}

impl View for OutVariant {
    type V = OutVariantView;

    open spec fn view(&self) -> OutVariantView {
        OutVariantView {
            name: self.name@,
            fields: fields_view(self.fields@),
            attrs: attrs_view(self.attrs@),
        }
    }
}

/// The views of a sequence of output variants.
pub open spec fn out_variants_view(vs: Seq<OutVariant>) -> Seq<OutVariantView> {
    vs.map_values(|v: OutVariant| v@)
}

/// The rewritten declaration assembled by the pass.
#[derive(Debug, PartialEq, Eq)]
pub struct OutputDecl {
    /// The target enum's name.
    pub name: String,
    /// The freshly introduced generic parameters, in first-seen order.
    pub generics: Vec<String>,
    /// The derive paths, baseline set first, then configured extras,
    /// then the optional runtime-debug derive.
    pub derives: Vec<String>,
    /// Declaration-level attributes: the (possibly filtered) input
    /// attributes followed by the configured extras.
    pub attrs: Vec<Attr>,
    /// The rewritten variants, in input order with the sentinel excluded.
    pub variants: Vec<OutVariant>,
}

/// Mathematical view of an [`OutputDecl`].
pub struct OutputDeclView {
    pub name: Seq<char>,
    pub generics: Seq<Seq<char>>,
    pub derives: Seq<Seq<char>>,
    pub attrs: Seq<AttrView>,
    pub variants: Seq<OutVariantView>,
}

impl View for OutputDecl {
    type V = OutputDeclView;

    open spec fn view(&self) -> OutputDeclView {
        OutputDeclView {
            name: self.name@,
            generics: strs_view(self.generics@),
            derives: strs_view(self.derives@),
            attrs: attrs_view(self.attrs@),
            variants: out_variants_view(self.variants@),
        }
    }
}

/// The reasons the pass can fail. The pass either fully succeeds or returns
/// one of these; no partial output is ever produced.
#[derive(Debug, PartialEq, Eq)]
pub enum PassError {
    /// The raw input did not parse as a declaration at all.
    MalformedSource,
    /// A field's type expression is not a simple dotted path; carries the
    /// positions of the offending variant and field in the input.
    UnsupportedFieldType { variant: usize, field: usize },
    /// A configured or derived string does not form a valid identifier.
    InvalidIdentifier { name: String },
    /// Two canonically distinct type expressions were mapped to the same
    /// generic name; `existing` and `conflicting` are their canonical forms.
    NamingCollision { name: String, existing: String, conflicting: String },
}

/// Mathematical view of a [`PassError`].
pub enum PassErrorView {
    MalformedSource,
    UnsupportedFieldType { variant: int, field: int },
    InvalidIdentifier { name: Seq<char> },
    NamingCollision { name: Seq<char>, existing: Seq<char>, conflicting: Seq<char> },
}

impl View for PassError {
    type V = PassErrorView;

    open spec fn view(&self) -> PassErrorView {
        match self {
            PassError::MalformedSource => PassErrorView::MalformedSource,
            PassError::UnsupportedFieldType { variant, field } => (
                PassErrorView::UnsupportedFieldType {
                    variant: *variant as int,
                    field: *field as int,
                }
            ),
            PassError::InvalidIdentifier { name } => (
                PassErrorView::InvalidIdentifier { name: name@ }
            ),
            PassError::NamingCollision { name, existing, conflicting } => (
                PassErrorView::NamingCollision {
                    name: name@,
                    existing: existing@,
                    conflicting: conflicting@,
                }
            ),
        }
    }
}

} // verus!
