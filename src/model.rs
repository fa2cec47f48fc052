//! The records of the document and the fragments they are built from.
//!
//! Every record has a deep view made of character sequences, so that a copy
//! can be stated to be exact.

use vstd::prelude::*;

verus! {

/// A value that can be copied with a proof that the copy is exact.
pub trait Duplicate: Sized + DeepView {
    fn duplicate(&self) -> (r: Self)
        ensures
            r.deep_view() == self.deep_view(),
    ;
}

impl Duplicate for String {
    fn duplicate(&self) -> (r: String) {
        self.clone()
    }
}

impl<T: Duplicate> Duplicate for Vec<T> {
    fn duplicate(&self) -> (r: Vec<T>) {
        let mut r: Vec<T> = Vec::new();
        let mut i: usize = 0;
        while i < self.len()
            invariant
                i <= self.len(),
                r.len() == i,
                forall|j: int| 0 <= j < i ==> r@[j].deep_view() == self@[j].deep_view(),
            decreases self.len() - i,
        {
            r.push(self[i].duplicate());
            i = i + 1;
        }
        assert(r.deep_view() =~= self.deep_view());
        r
    }
}

/// The back-reference from an entity to the header that owns it.
#[derive(Debug)]
pub struct HeaderSummary {
    /// The header's directory relative to the scan root.
    pub header_ref: String,
    /// `header_ref` followed by `.h`.
    pub name: String,
}

impl DeepView for HeaderSummary {
    type V = (Seq<char>, Seq<char>);

    open spec fn deep_view(&self) -> (Seq<char>, Seq<char>) {
        (self.header_ref@, self.name@)
    }
}

impl Duplicate for HeaderSummary {
    fn duplicate(&self) -> (r: HeaderSummary) {
        HeaderSummary { header_ref: self.header_ref.clone(), name: self.name.clone() }
    }
}

/// One documented header.
#[derive(Debug)]
pub struct Header {
    pub header_ref: String,
    pub name: String,
    pub summary: String,
    /// Union, in first-seen order, of the tags of every entity it owns.
    pub os_affinity: Vec<String>,
}

/// An enumeration variant: name and description.
#[derive(Debug)]
pub struct EnumVariant {
    pub name: String,
    pub description: String,
}

impl DeepView for EnumVariant {
    type V = (Seq<char>, Seq<char>);

    open spec fn deep_view(&self) -> (Seq<char>, Seq<char>) {
        (self.name@, self.description@)
    }
}

impl Duplicate for EnumVariant {
    fn duplicate(&self) -> (r: EnumVariant) {
        EnumVariant { name: self.name.clone(), description: self.description.clone() }
    }
}

/// A structure field: name, type and description.
#[derive(Debug)]
pub struct StructField {
    pub name: String,
    pub field_type: String,
    pub description: String,
}

impl DeepView for StructField {
    type V = (Seq<char>, Seq<char>, Seq<char>);

    open spec fn deep_view(&self) -> (Seq<char>, Seq<char>, Seq<char>) {
        (self.name@, self.field_type@, self.description@)
    }
}

impl Duplicate for StructField {
    fn duplicate(&self) -> (r: StructField) {
        StructField {
            name: self.name.clone(),
            field_type: self.field_type.clone(),
            description: self.description.clone(),
        }
    }
}

/// A function parameter: name, type and description.
#[derive(Debug)]
pub struct Parameter {
    pub name: String,
    pub param_type: String,
    pub description: String,
}

impl DeepView for Parameter {
    type V = (Seq<char>, Seq<char>, Seq<char>);

    open spec fn deep_view(&self) -> (Seq<char>, Seq<char>, Seq<char>) {
        (self.name@, self.param_type@, self.description@)
    }
}

impl Duplicate for Parameter {
    fn duplicate(&self) -> (r: Parameter) {
        Parameter {
            name: self.name.clone(),
            param_type: self.param_type.clone(),
            description: self.description.clone(),
        }
    }
}

/// A return descriptor: type and description.
#[derive(Debug)]
pub struct Return {
    pub return_type: String,
    pub description: String,
}

impl DeepView for Return {
    type V = (Seq<char>, Seq<char>);

    open spec fn deep_view(&self) -> (Seq<char>, Seq<char>) {
        (self.return_type@, self.description@)
    }
}

impl Duplicate for Return {
    fn duplicate(&self) -> (r: Return) {
        Return { return_type: self.return_type.clone(), description: self.description.clone() }
    }
}

/// A parameter of a function-like macro: name and description.
#[derive(Debug)]
pub struct TypelessParameter {
    pub name: String,
    pub description: String,
}

impl DeepView for TypelessParameter {
    type V = (Seq<char>, Seq<char>);

    open spec fn deep_view(&self) -> (Seq<char>, Seq<char>) {
        (self.name@, self.description@)
    }
}

impl Duplicate for TypelessParameter {
    fn duplicate(&self) -> (r: TypelessParameter) {
        TypelessParameter { name: self.name.clone(), description: self.description.clone() }
    }
}

/// The two shapes of a macro.
#[derive(Debug)]
pub enum MacroKind {
    Object,
    Function { result: Return, parameters: Vec<TypelessParameter> },
}

pub ghost enum MacroKindView {
    Object,
    Function { result: (Seq<char>, Seq<char>), parameters: Seq<(Seq<char>, Seq<char>)> },
}

impl DeepView for MacroKind {
    type V = MacroKindView;

    open spec fn deep_view(&self) -> MacroKindView {
        match self {
            MacroKind::Object => MacroKindView::Object,
            MacroKind::Function { result, parameters } => MacroKindView::Function {
                result: result.deep_view(),
                parameters: parameters.deep_view(),
            },
        }
    }
}

impl Duplicate for MacroKind {
    fn duplicate(&self) -> (r: MacroKind) {
        match self {
            MacroKind::Object => MacroKind::Object,
            MacroKind::Function { result, parameters } => MacroKind::Function {
                result: result.duplicate(),
                parameters: parameters.duplicate(),
            },
        }
    }
}

/// What a function fragment adds to the common entity fields.
#[derive(Debug)]
pub struct FunctionSignature {
    pub result: Return,
    pub parameters: Vec<Parameter>,
    /// Names of related entities.
    pub associated: Vec<String>,
}

impl DeepView for FunctionSignature {
    type V = ((Seq<char>, Seq<char>), Seq<(Seq<char>, Seq<char>, Seq<char>)>, Seq<Seq<char>>);

    open spec fn deep_view(&self) -> Self::V {
        (self.result.deep_view(), self.parameters.deep_view(), self.associated.deep_view())
    }
}

impl Duplicate for FunctionSignature {
    fn duplicate(&self) -> (r: FunctionSignature) {
        FunctionSignature {
            result: self.result.duplicate(),
            parameters: self.parameters.duplicate(),
            associated: self.associated.duplicate(),
        }
    }
}

/// What a type-alias fragment holds before its reference is resolved.
#[derive(Debug)]
pub struct TypedefSource {
    pub underlying: String,
    /// Empty, or `<header-ref>/<definition-name>`.
    pub associated_ref: String,
}

impl DeepView for TypedefSource {
    type V = (Seq<char>, Seq<char>);

    open spec fn deep_view(&self) -> (Seq<char>, Seq<char>) {
        (self.underlying@, self.associated_ref@)
    }
}

impl Duplicate for TypedefSource {
    fn duplicate(&self) -> (r: TypedefSource) {
        TypedefSource {
            underlying: self.underlying.clone(),
            associated_ref: self.associated_ref.clone(),
        }
    }
}

/// The fields common to every entity fragment, with the kind's own part.
#[derive(Debug)]
pub struct Fragment<D> {
    pub summary: String,
    pub description: String,
    pub os_affinity: Vec<String>,
    pub detail: D,
}

pub ghost struct FragmentView<V> {
    pub summary: Seq<char>,
    pub description: Seq<char>,
    pub os_affinity: Seq<Seq<char>>,
    pub detail: V,
}

impl<D: DeepView> DeepView for Fragment<D> {
    type V = FragmentView<D::V>;

    open spec fn deep_view(&self) -> FragmentView<D::V> {
        FragmentView {
            summary: self.summary@,
            description: self.description@,
            os_affinity: self.os_affinity.deep_view(),
            detail: self.detail.deep_view(),
        }
    }
}

/// A loaded entity, owned by one header.
#[derive(Debug)]
pub struct Entity<D> {
    pub name: String,
    pub header: HeaderSummary,
    pub summary: String,
    pub description: String,
    pub os_affinity: Vec<String>,
    pub detail: D,
}

pub ghost struct EntityView<V> {
    pub name: Seq<char>,
    pub header: (Seq<char>, Seq<char>),
    pub summary: Seq<char>,
    pub description: Seq<char>,
    pub os_affinity: Seq<Seq<char>>,
    pub detail: V,
}

impl<D: DeepView> DeepView for Entity<D> {
    type V = EntityView<D::V>;

    open spec fn deep_view(&self) -> EntityView<D::V> {
        EntityView {
            name: self.name@,
            header: self.header.deep_view(),
            summary: self.summary@,
            description: self.description@,
            os_affinity: self.os_affinity.deep_view(),
            detail: self.detail.deep_view(),
        }
    }
}

impl<D: Duplicate> Duplicate for Entity<D> {
    fn duplicate(&self) -> (r: Entity<D>) {
        Entity {
            name: self.name.clone(),
            header: self.header.duplicate(),
            summary: self.summary.clone(),
            description: self.description.clone(),
            os_affinity: self.os_affinity.duplicate(),
            detail: self.detail.duplicate(),
        }
    }
}

pub type Macro = Entity<MacroKind>;

pub type Enumeration = Entity<Vec<EnumVariant>>;

pub type Structure = Entity<Vec<StructField>>;

pub type Function = Entity<FunctionSignature>;

/// The resolved target of a type alias: an embedded copy, or nothing.
#[derive(Debug)]
pub enum TypedefRef {
    Unresolved,
    Enumeration(Enumeration),
    Structure(Structure),
}

pub ghost enum TypedefRefView {
    Unresolved,
    Enumeration(EntityView<Seq<(Seq<char>, Seq<char>)>>),
    Structure(EntityView<Seq<(Seq<char>, Seq<char>, Seq<char>)>>),
}

impl DeepView for TypedefRef {
    type V = TypedefRefView;

    open spec fn deep_view(&self) -> TypedefRefView {
        match self {
            TypedefRef::Unresolved => TypedefRefView::Unresolved,
            TypedefRef::Enumeration(e) => TypedefRefView::Enumeration(e.deep_view()),
            TypedefRef::Structure(s) => TypedefRefView::Structure(s.deep_view()),
        }
    }
}

/// What a type alias holds once its reference is resolved.
#[derive(Debug)]
pub struct TypedefDetail {
    pub underlying: String,
    pub associated_ref: TypedefRef,
}

impl DeepView for TypedefDetail {
    type V = (Seq<char>, TypedefRefView);

    open spec fn deep_view(&self) -> (Seq<char>, TypedefRefView) {
        (self.underlying@, self.associated_ref.deep_view())
    }
}

pub type Typedef = Entity<TypedefDetail>;

} // verus!
