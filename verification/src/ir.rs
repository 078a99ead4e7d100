//! The slice of the intermediate representation that the storage code
//! generator reads.
//!
//! Type layout (member offsets, element strides, type spans) is computed by
//! an external layout pass and arrives here precomputed; this module only
//! carries it. Types and expressions live in arenas and are referred to by
//! index; the arenas are acyclic by construction, which the well-formedness
//! predicates below record as "every component index is smaller than the
//! owner's index".

use vstd::prelude::*;

verus! {

/// The scalar encodings a buffer value can be reinterpreted as.
#[derive(Clone, Copy)]
pub enum ScalarKind {
    Sint,
    Uint,
    Float,
    Bool,
}

impl ScalarKind {
    /// The bit-reinterpretation call that turns a raw unsigned buffer word
    /// into this scalar encoding.
    pub open spec fn spec_cast_str(self) -> Seq<char> {
        match self {
            ScalarKind::Sint => "asint"@,
            ScalarKind::Uint => "asuint"@,
            ScalarKind::Float => "asfloat"@,
            ScalarKind::Bool => "bool"@,
        }
    }

    pub fn cast_str(self) -> (r: &'static str)
        ensures
            r@ == self.spec_cast_str(),
    {
        match self {
            ScalarKind::Sint => "asint",
            ScalarKind::Uint => "asuint",
            ScalarKind::Float => "asfloat",
            ScalarKind::Bool => "bool",
        }
    }
}

/// A vector's component count; the dialect only knows 2, 3 and 4.
#[derive(Clone, Copy)]
pub enum VectorSize {
    Bi,
    Tri,
    Quad,
}

impl VectorSize {
    pub open spec fn spec_count(self) -> int {
        match self {
            VectorSize::Bi => 2,
            VectorSize::Tri => 3,
            VectorSize::Quad => 4,
        }
    }

    pub fn count(self) -> (n: u32)
        ensures
            n == self.spec_count(),
    {
        match self {
            VectorSize::Bi => 2,
            VectorSize::Tri => 3,
            VectorSize::Quad => 4,
        }
    }

    /// The size as the single digit it appears as in `Load2`/`Store3`/`float4`.
    pub open spec fn spec_digit(self) -> Seq<char> {
        match self {
            VectorSize::Bi => "2"@,
            VectorSize::Tri => "3"@,
            VectorSize::Quad => "4"@,
        }
    }

    pub fn digit_str(self) -> (r: &'static str)
        ensures
            r@ == self.spec_digit(),
    {
        match self {
            VectorSize::Bi => "2",
            VectorSize::Tri => "3",
            VectorSize::Quad => "4",
        }
    }
}

/// The floating-point type name for a matrix element of the given byte width.
pub open spec fn spec_float_str(width: u8) -> Seq<char> {
    if width == 8 {
        "double"@
    } else {
        "float"@
    }
}

pub fn float_str(width: u8) -> (r: &'static str)
    requires
        width == 4 || width == 8,
    ensures
        r@ == spec_float_str(width),
{
    if width == 8 {
        "double"
    } else {
        "float"
    }
}

/// One member of a struct type: its emitted name, the handle of its type,
/// and its byte offset as the external layout pass fixed it.
pub struct StructMember {
    pub name: String,
    pub ty: usize,
    pub offset: u32,
}

/// The shape of a type. `Array` and `Struct` refer to other types by arena
/// index; element strides and member offsets are precomputed externally.
#[allow(inconsistent_fields)]
pub enum TypeInner {
    Scalar { kind: ScalarKind, width: u8 },
    Vector { size: VectorSize, kind: ScalarKind, width: u8 },
    Matrix { columns: VectorSize, rows: VectorSize, width: u8 },
    Array { base: usize, count: u32 },
    Struct { members: Vec<StructMember> },
    Pointer { base: usize },
    ValuePointer { size: Option<VectorSize>, width: u8 },
}

/// An entry of the type arena: the type's emitted name, its byte span as the
/// layout pass computed it (also the element stride of an array of it), and
/// its shape.
pub struct Type {
    pub name: String,
    pub span: u32,
    pub inner: TypeInner,
}

/// A resolved type: either a handle into the arena, or a shape held
/// directly (used for types, such as a matrix's rows, that need no arena
/// entry of their own).
pub enum TypeResolution {
    Handle(usize),
    Value(TypeInner),
}

impl TypeResolution {
    pub open spec fn spec_inner(self, types: Seq<Type>) -> TypeInner {
        match self {
            TypeResolution::Handle(h) => types[h as int].inner,
            TypeResolution::Value(inner) => inner,
        }
    }

    pub open spec fn in_range(self, types: Seq<Type>) -> bool {
        match self {
            TypeResolution::Handle(h) => (h as int) < types.len(),
            TypeResolution::Value(_) => true,
        }
    }

    pub fn inner_with<'a>(&'a self, types: &'a Vec<Type>) -> (r: &'a TypeInner)
        requires
            self.in_range(types@),
        ensures
            *r == self.spec_inner(types@),
    {
        match self {
            TypeResolution::Handle(h) => &types[*h].inner,
            TypeResolution::Value(inner) => inner,
        }
    }

    pub fn handle(&self) -> (r: Option<usize>)
        ensures
            match *self {
                TypeResolution::Handle(h) => r == Some(h),
                TypeResolution::Value(_) => r is None,
            },
    {
        match *self {
            TypeResolution::Handle(h) => Some(h),
            TypeResolution::Value(_) => None,
        }
    }
}

/// A pointer-typed expression, as far as the chain builder inspects it.
/// `Other` stands for every expression kind that cannot appear inside a
/// pointer access chain; its rendered text still exists in the context.
#[derive(Clone, Copy)]
#[allow(inconsistent_fields)]
pub enum Expression {
    GlobalVariable(usize),
    Access { base: usize, index: usize },
    AccessIndex { base: usize, index: u32 },
    Other,
}

/// The per-statement context the surrounding backend supplies: the
/// expression arena, the resolved type of every expression, and the text
/// the general expression renderer would emit for each.
pub struct FunctionCtx {
    pub expressions: Vec<Expression>,
    pub expr_types: Vec<TypeResolution>,
    pub expr_texts: Vec<String>,
}

/// The module-level inputs: the type arena and the emitted names of the
/// global buffer variables that chains can root in.
pub struct Module {
    pub types: Vec<Type>,
    pub global_variables: Vec<String>,
}

/// The measure that recursion over resolved types decreases: a handle
/// recurses only into strictly smaller handles, and a directly held shape
/// recurses at most once more (a matrix into its row vectors).
pub open spec fn res_tm(res: TypeResolution) -> int {
    match res {
        TypeResolution::Handle(h) => h as int + 1,
        TypeResolution::Value(_) => 0,
    }
}

/// The secondary measure: a matrix still recurses into directly held row
/// vectors, which recurse no further.
pub open spec fn res_rank(types: Seq<Type>, res: TypeResolution) -> int {
    match res.spec_inner(types) {
        TypeInner::Matrix { .. } => 1,
        _ => 0,
    }
}

/// Whether the type at arena index `h` may be stored in a byte buffer:
/// its shape is one of the five storable ones, component handles point
/// strictly downward in the arena, matrices have a float width the dialect
/// can name, and an array's total byte size fits the offset arithmetic.
pub open spec fn storable_at(types: Seq<Type>, h: int) -> bool
    decreases h,
{
    if !(0 <= h < types.len()) {
        false
    } else {
        match types[h].inner {
            TypeInner::Scalar { .. } => true,
            TypeInner::Vector { .. } => true,
            TypeInner::Matrix { columns: _, rows: _, width } => width == 4 || width == 8,
            TypeInner::Array { base, count } => (base as int) < h && storable_at(
                types,
                base as int,
            ) && (count as int) * (types[base as int].span as int) <= u32::MAX,
            TypeInner::Struct { members } => members@.len() <= u32::MAX && forall|i: int|
                0 <= i < members@.len() ==> ((#[trigger] members@[i].ty as int) < h && storable_at(
                    types,
                    members@[i].ty as int,
                )),
            _ => false,
        }
    }
}

/// `storable_at`, lifted to a resolved type. A directly held shape may only
/// be a scalar, vector or matrix: the shapes that hold no arena handles.
pub open spec fn storable_res(types: Seq<Type>, res: TypeResolution) -> bool {
    match res {
        TypeResolution::Handle(h) => storable_at(types, h as int),
        TypeResolution::Value(inner) => match inner {
            TypeInner::Scalar { .. } => true,
            TypeInner::Vector { .. } => true,
            TypeInner::Matrix { columns: _, rows: _, width } => width == 4 || width == 8,
            _ => false,
        },
    }
}

/// The pointee stride a pointer-typed expression contributes to a dynamic
/// index step: the span of the pointee for an arena pointer, component
/// count times width for a value pointer, and 0 where no stride applies.
pub open spec fn ptr_stride(types: Seq<Type>, res: TypeResolution) -> int {
    match res.spec_inner(types) {
        TypeInner::Pointer { base } => types[base as int].span as int,
        TypeInner::ValuePointer { size, width } => (match size {
            Some(s) => s.spec_count(),
            None => 1,
        }) * (width as int),
        _ => 0,
    }
}

/// Well-formedness of one expression within its context: access bases point
/// strictly downward in the arena (the arena is built bottom-up), dynamic
/// index expressions exist, a static index into a struct names an existing
/// member, and a static index into homogeneous elements has an offset that
/// fits the 32-bit address arithmetic.
pub open spec fn expr_wf(types: Seq<Type>, nvars: int, ctx: FunctionCtx, e: int) -> bool {
    match ctx.expressions@[e] {
        Expression::GlobalVariable(v) => (v as int) < nvars,
        Expression::Access { base, index } => (base as int) < e && (index as int)
            < ctx.expressions@.len(),
        Expression::AccessIndex { base, index } => (base as int) < e && match ctx.expr_types@[base as int].spec_inner(
            types,
        ) {
            TypeInner::Struct { members } => (index as int) < members@.len(),
            _ => (index as int) * ptr_stride(types, ctx.expr_types@[e]) <= u32::MAX,
        },
        Expression::Other => true,
    }
}

/// Context-level well-formedness: the three arrays describe the same
/// expressions, every resolved type is in range (a pointer's pointee too,
/// so its span can be looked up), and every expression is well formed.
pub open spec fn ctx_wf(types: Seq<Type>, nvars: int, ctx: FunctionCtx) -> bool {
    &&& ctx.expr_types@.len() == ctx.expressions@.len()
    &&& ctx.expr_texts@.len() == ctx.expressions@.len()
    &&& forall|e: int|
        0 <= e < ctx.expressions@.len() ==> (#[trigger] ctx.expr_types@[e]).in_range(types)
    &&& forall|e: int|
        0 <= e < ctx.expressions@.len() ==> match (#[trigger] ctx.expr_types@[e]).spec_inner(
            types,
        ) {
            TypeInner::Pointer { base } => (base as int) < types.len(),
            _ => true,
        }
    &&& forall|e: int| 0 <= e < ctx.expressions@.len() ==> expr_wf(types, nvars, ctx, e)
}

} // verus!
