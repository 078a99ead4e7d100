//! The storage code generator: access chain builder, address emitter, and
//! the load and store sequencers for byte-addressable buffers.
//!
//! The generator owns one shared chain buffer. The chain builder resets and
//! fills it from a pointer expression; the sequencers push one `Offset` step
//! before recursing into an element or member and pop it right after, so the
//! chain always describes the byte position of the value currently being
//! processed. Matrices are stored row-major but constructed column-major, so
//! every matrix load and store wraps an explicit transpose.

use crate::ir::{
    ctx_wf, ptr_stride, res_rank, res_tm, spec_float_str, storable_at, storable_res, Expression,
    FunctionCtx, Module, ScalarKind, StructMember, Type, TypeInner, TypeResolution, VectorSize,
};
use crate::text::{dec_str, indent_str, push_dec, push_indent};
use vstd::prelude::*;
use vstd::string::StringExecFns;

verus! {

/// One step of an access chain: a literal byte offset, or a dynamic index
/// (the handle of its index expression) with the element stride fixed when
/// the step was created.
#[derive(Clone, Copy)]
pub enum SubAccess {
    Offset(u32),
    Index { value: usize, stride: u32 },
}

/// How the store sequencer refers to the value currently being stored: the
/// original source expression, an indexed element of a temporary declared at
/// a given recursion depth, or a named member of such a temporary.
pub enum StoreValue {
    Expression(usize),
    TempIndex { depth: usize, index: u32, ty: TypeResolution },
    TempAccess { depth: usize, base: usize, member_index: u32 },
}

/// The one recoverable failure: a pointer chain contains an expression kind
/// the builder does not support. Shape mismatches are excluded up front by
/// the sequencers' preconditions instead.
#[derive(Debug)]
pub enum Error {
    Unsupported(String),
}

/// The generator: the text emitted so far, and the shared chain buffer.
pub struct Writer {
    pub out: String,
    pub temp_access_chain: Vec<SubAccess>,
}

/// Every dynamic step's index expression has a rendered text to consult.
pub open spec fn chain_wf(ctx: FunctionCtx, chain: Seq<SubAccess>) -> bool {
    forall|i: int|
        0 <= i < chain.len() ==> match #[trigger] chain[i] {
            SubAccess::Offset(_) => true,
            SubAccess::Index { value, stride: _ } => (value as int) < ctx.expr_texts@.len(),
        }
}

/// The text of one address term: a literal offset in decimal, or
/// `<index-expression>*<stride>`.
pub open spec fn term_text(ctx: FunctionCtx, a: SubAccess) -> Seq<char> {
    match a {
        SubAccess::Offset(offset) => dec_str(offset as int),
        SubAccess::Index { value, stride } => ctx.expr_texts@[value as int]@ + "*"@ + dec_str(
            stride as int,
        ),
    }
}

/// The address text of the first `i` chain steps, `+`-joined.
pub open spec fn address_prefix(ctx: FunctionCtx, chain: Seq<SubAccess>, i: int) -> Seq<char>
    decreases i,
{
    if i <= 0 {
        Seq::empty()
    } else {
        address_prefix(ctx, chain, i - 1) + (if i - 1 > 0 {
            "+"@
        } else {
            Seq::<char>::empty()
        }) + term_text(ctx, chain[i - 1])
    }
}

/// The full address text of a chain: its terms joined with `+`, literal
/// offsets in decimal, dynamic steps as `<expression>*<stride>`, no
/// parenthesization.
pub open spec fn address_text(ctx: FunctionCtx, chain: Seq<SubAccess>) -> Seq<char> {
    address_prefix(ctx, chain, chain.len() as int)
}

/// One step of the chain walk, for an `Access` or `AccessIndex` node: a
/// dynamic index paired with the pointee stride of the node's own pointer
/// type, or a literal offset (the member's precomputed offset when the base
/// is a struct, `index * stride` for homogeneous elements).
pub open spec fn chain_step(types: Seq<Type>, ctx: FunctionCtx, e: int) -> SubAccess {
    match ctx.expressions@[e] {
        Expression::Access { base: _, index } => SubAccess::Index {
            value: index,
            stride: ptr_stride(types, ctx.expr_types@[e]) as u32,
        },
        Expression::AccessIndex { base, index } => SubAccess::Offset(
            match ctx.expr_types@[base as int].spec_inner(types) {
                TypeInner::Struct { members } => members@[index as int].offset,
                _ => (index as int * ptr_stride(types, ctx.expr_types@[e])) as u32,
            },
        ),
        _ => SubAccess::Offset(0),
    }
}

/// The chain the builder produces for pointer expression `e`: one step per
/// access node, outermost first, down to the walk's terminal node.
pub open spec fn spec_chain(types: Seq<Type>, ctx: FunctionCtx, e: int) -> Seq<SubAccess>
    decreases e,
{
    match ctx.expressions@[e] {
        Expression::Access { base, index: _ } => seq![chain_step(types, ctx, e)] + (if 0 <= (
        base as int) < e {
            spec_chain(types, ctx, base as int)
        } else {
            Seq::empty()
        }),
        Expression::AccessIndex { base, index: _ } => seq![chain_step(types, ctx, e)] + (if 0 <= (
        base as int) < e {
            spec_chain(types, ctx, base as int)
        } else {
            Seq::empty()
        }),
        _ => Seq::empty(),
    }
}

/// The terminal node of the chain walk from `e`: the first node that is not
/// an access step.
pub open spec fn walk_end(ctx: FunctionCtx, e: int) -> int
    decreases e,
{
    match ctx.expressions@[e] {
        Expression::Access { base, index: _ } => if 0 <= (base as int) < e {
            walk_end(ctx, base as int)
        } else {
            e
        },
        Expression::AccessIndex { base, index: _ } => if 0 <= (base as int) < e {
            walk_end(ctx, base as int)
        } else {
            e
        },
        _ => e,
    }
}

/// A chain is supported exactly when its walk ends at a global buffer
/// variable.
pub open spec fn chain_supported(ctx: FunctionCtx, e: int) -> bool {
    ctx.expressions@[walk_end(ctx, e)] is GlobalVariable
}

/// The buffer variable a supported chain roots in.
pub open spec fn chain_root(ctx: FunctionCtx, e: int) -> int {
    match ctx.expressions@[walk_end(ctx, e)] {
        Expression::GlobalVariable(v) => v as int,
        _ => 0,
    }
}

/// The lexicographic bound the sequencers recurse under: the element's
/// measure lies strictly below `(b1, b2)`.
pub open spec fn pair_lt(types: Seq<Type>, res: TypeResolution, b1: int, b2: int) -> bool {
    res_tm(res) < b1 || (res_tm(res) == b1 && res_rank(types, res) < b2)
}

/// The element types and byte offsets a matrix decomposes into: one row
/// vector per row, at offsets `i * row_stride` with
/// `row_stride = width * columns`.
pub open spec fn matrix_pairs(columns: VectorSize, rows: VectorSize, width: u8) -> Seq<
    (TypeResolution, u32),
> {
    Seq::new(
        rows.spec_count() as nat,
        |i: int|
            (
                TypeResolution::Value(
                    TypeInner::Vector { size: columns, kind: ScalarKind::Float, width },
                ),
                (i * ((width as int) * columns.spec_count())) as u32,
            ),
    )
}

/// The element types and byte offsets of a fixed-size array: the element
/// type at offsets `0, stride, 2*stride, ...`.
pub open spec fn array_pairs(base: usize, count: u32, stride: u32) -> Seq<(TypeResolution, u32)> {
    Seq::new(
        count as nat,
        |i: int| (TypeResolution::Handle(base), (i * (stride as int)) as u32),
    )
}

/// The member types and byte offsets of a struct, in declaration order,
/// each at the member's precomputed offset.
pub open spec fn struct_pairs(members: Seq<StructMember>) -> Seq<(TypeResolution, u32)> {
    Seq::new(members.len(), |i: int| (TypeResolution::Handle(members[i].ty), members[i].offset))
}

/// The text of the first `i` element loads of a sequence, `, `-joined; each
/// element is loaded with its offset pushed onto the chain.
pub open spec fn load_items(
    types: Seq<Type>,
    ctx: FunctionCtx,
    var: Seq<char>,
    b1: int,
    b2: int,
    pairs: Seq<(TypeResolution, u32)>,
    chain: Seq<SubAccess>,
    i: int,
) -> Seq<char>
    decreases b1, b2, 0int, i,
{
    if i <= 0 {
        Seq::empty()
    } else {
        load_items(types, ctx, var, b1, b2, pairs, chain, i - 1) + (if i - 1 > 0 {
            ", "@
        } else {
            Seq::<char>::empty()
        }) + (if storable_res(types, pairs[i - 1].0) && pair_lt(types, pairs[i - 1].0, b1, b2) {
            load_text(
                types,
                ctx,
                var,
                pairs[i - 1].0,
                chain.push(SubAccess::Offset(pairs[i - 1].1)),
            )
        } else {
            Seq::<char>::empty()
        })
    }
}

/// The value expression a load of `res` at the chain's position emits:
/// scalars and vectors as one reinterpreted primitive load, matrices as a
/// transpose-wrapped column-major constructor over row loads, arrays and
/// structs as brace-enclosed literals of element loads.
pub open spec fn load_text(
    types: Seq<Type>,
    ctx: FunctionCtx,
    var: Seq<char>,
    res: TypeResolution,
    chain: Seq<SubAccess>,
) -> Seq<char>
    decreases res_tm(res), res_rank(types, res), 1int, 0int,
{
    match res.spec_inner(types) {
        TypeInner::Scalar { kind, width: _ } => kind.spec_cast_str() + "("@ + var + ".Load("@
            + address_text(ctx, chain) + "))"@,
        TypeInner::Vector { size, kind, width: _ } => kind.spec_cast_str() + "("@ + var + ".Load"@
            + size.spec_digit() + "("@ + address_text(ctx, chain) + "))"@,
        TypeInner::Matrix { columns, rows, width } => "transpose("@ + spec_float_str(width)
            + rows.spec_digit() + "x"@ + columns.spec_digit() + "("@ + load_items(
            types,
            ctx,
            var,
            res_tm(res),
            res_rank(types, res),
            matrix_pairs(columns, rows, width),
            chain,
            rows.spec_count(),
        ) + "))"@,
        TypeInner::Array { base, count } => "{"@ + load_items(
            types,
            ctx,
            var,
            res_tm(res),
            res_rank(types, res),
            array_pairs(base, count, types[base as int].span),
            chain,
            count as int,
        ) + "}"@,
        TypeInner::Struct { members } => "{"@ + load_items(
            types,
            ctx,
            var,
            res_tm(res),
            res_rank(types, res),
            struct_pairs(members@),
            chain,
            members@.len() as int,
        ) + "}"@,
        _ => Seq::empty(),
    }
}

/// The statically resolved type of a store value reference: type-of for an
/// expression, the carried type for a temporary's element, and the member's
/// type through the owning struct's member list for a temporary's member.
pub open spec fn resolved_ty(types: Seq<Type>, ctx: FunctionCtx, value: StoreValue) -> TypeResolution {
    match value {
        StoreValue::Expression(e) => ctx.expr_types@[e as int],
        StoreValue::TempIndex { depth: _, index: _, ty } => ty,
        StoreValue::TempAccess { depth: _, base, member_index } => match types[base as int].inner {
            TypeInner::Struct { members } => TypeResolution::Handle(
                members@[member_index as int].ty,
            ),
            _ => TypeResolution::Handle(0),
        },
    }
}

/// Well-formedness of a store value reference: an expression has a text and
/// a resolved type; a temporary's member names an existing member of an
/// actual struct type.
pub open spec fn store_value_wf(types: Seq<Type>, ctx: FunctionCtx, value: StoreValue) -> bool {
    match value {
        StoreValue::Expression(e) => (e as int) < ctx.expr_texts@.len() && (e as int)
            < ctx.expr_types@.len(),
        StoreValue::TempIndex { depth: _, index: _, ty: _ } => true,
        StoreValue::TempAccess { depth: _, base, member_index } => (base as int) < types.len()
            && (types[base as int].inner matches TypeInner::Struct { members } && (
        member_index as int) < members@.len()),
    }
}

/// The emitted name of a struct type's member.
pub open spec fn struct_member_name(types: Seq<Type>, base: int, m: int) -> Seq<char> {
    match types[base].inner {
        TypeInner::Struct { members } => members@[m].name@,
        _ => Seq::empty(),
    }
}

/// The emitted name of a resolved struct type.
pub open spec fn struct_res_name(types: Seq<Type>, res: TypeResolution) -> Seq<char> {
    match res {
        TypeResolution::Handle(h) => types[h as int].name@,
        TypeResolution::Value(_) => Seq::empty(),
    }
}

/// The arena handle of a resolved type (only meaningful for `Handle`).
pub open spec fn res_handle(res: TypeResolution) -> usize {
    match res {
        TypeResolution::Handle(h) => h,
        TypeResolution::Value(_) => 0,
    }
}

/// How a store value reference renders: the expression's text, or the
/// depth-named temporary indexed or projected.
pub open spec fn store_value_text(types: Seq<Type>, ctx: FunctionCtx, value: StoreValue) -> Seq<
    char,
> {
    match value {
        StoreValue::Expression(e) => ctx.expr_texts@[e as int]@,
        StoreValue::TempIndex { depth, index, ty: _ } => "_value"@ + dec_str(depth as int) + "["@
            + dec_str(index as int) + "]"@,
        StoreValue::TempAccess { depth, base, member_index } => "_value"@ + dec_str(depth as int)
            + "."@ + struct_member_name(types, base as int, member_index as int),
    }
}

/// The store values and byte offsets a matrix store decomposes into: the
/// temporary's rows at offsets `i * row_stride`.
pub open spec fn matrix_store_pairs(
    depth: usize,
    columns: VectorSize,
    rows: VectorSize,
    width: u8,
) -> Seq<(StoreValue, u32)> {
    Seq::new(
        rows.spec_count() as nat,
        |i: int|
            (
                StoreValue::TempIndex {
                    depth,
                    index: i as u32,
                    ty: TypeResolution::Value(
                        TypeInner::Vector { size: columns, kind: ScalarKind::Float, width },
                    ),
                },
                (i * ((width as int) * columns.spec_count())) as u32,
            ),
    )
}

/// The store values and byte offsets of an array store: the temporary's
/// elements at offsets `0, stride, 2*stride, ...`.
pub open spec fn array_store_pairs(depth: usize, base: usize, count: u32, stride: u32) -> Seq<
    (StoreValue, u32),
> {
    Seq::new(
        count as nat,
        |i: int|
            (
                StoreValue::TempIndex { depth, index: i as u32, ty: TypeResolution::Handle(base) },
                (i * (stride as int)) as u32,
            ),
    )
}

/// The store values and byte offsets of a struct store: the temporary's
/// members in declaration order, each at its precomputed offset.
pub open spec fn struct_store_pairs(depth: usize, base: usize, members: Seq<StructMember>) -> Seq<
    (StoreValue, u32),
> {
    Seq::new(
        members.len(),
        |i: int| (StoreValue::TempAccess { depth, base, member_index: i as u32 }, members[i].offset),
    )
}

/// The guard under which one element store stands: the reference is well
/// formed, its type storable, and its measure below the parent's.
pub open spec fn store_pair_ok(
    types: Seq<Type>,
    ctx: FunctionCtx,
    p: (StoreValue, u32),
    b1: int,
    b2: int,
) -> bool {
    &&& store_value_wf(types, ctx, p.0)
    &&& storable_res(types, resolved_ty(types, ctx, p.0))
    &&& pair_lt(types, resolved_ty(types, ctx, p.0), b1, b2)
}

/// The text of the first `i` element stores of a sequence; each element is
/// stored with its offset pushed onto the chain, one statement per element.
pub open spec fn store_items(
    types: Seq<Type>,
    ctx: FunctionCtx,
    var: Seq<char>,
    b1: int,
    b2: int,
    pairs: Seq<(StoreValue, u32)>,
    indent: int,
    chain: Seq<SubAccess>,
    i: int,
) -> Seq<char>
    decreases b1, b2, 0int, i,
{
    if i <= 0 {
        Seq::empty()
    } else {
        store_items(types, ctx, var, b1, b2, pairs, indent, chain, i - 1) + (if store_pair_ok(
            types,
            ctx,
            pairs[i - 1],
            b1,
            b2,
        ) {
            store_text(
                types,
                ctx,
                var,
                pairs[i - 1].0,
                indent,
                chain.push(SubAccess::Offset(pairs[i - 1].1)),
            )
        } else {
            Seq::<char>::empty()
        })
    }
}

/// The statement text a store of `value` at the chain's position emits:
/// scalars and vectors as one reinterpreted primitive store, composites as
/// a block that assigns the value once to a depth-named temporary and then
/// stores each piece (a matrix's temporary holds the transpose, restoring
/// row-major layout).
pub open spec fn store_text(
    types: Seq<Type>,
    ctx: FunctionCtx,
    var: Seq<char>,
    value: StoreValue,
    indent: int,
    chain: Seq<SubAccess>,
) -> Seq<char>
    decreases
            res_tm(resolved_ty(types, ctx, value)),
            res_rank(types, resolved_ty(types, ctx, value)),
            1int,
            0int,
{
    let res = resolved_ty(types, ctx, value);
    match res.spec_inner(types) {
        TypeInner::Scalar { kind: _, width: _ } => indent_str(indent) + var + ".Store("@
            + address_text(ctx, chain) + ", asuint("@ + store_value_text(types, ctx, value)
            + "));\n"@,
        TypeInner::Vector { size, kind: _, width: _ } => indent_str(indent) + var + ".Store"@
            + size.spec_digit() + "("@ + address_text(ctx, chain) + ", asuint("@
            + store_value_text(types, ctx, value) + "));\n"@,
        TypeInner::Matrix { columns, rows, width } => indent_str(indent) + "{\n"@ + indent_str(
            indent + 1,
        ) + spec_float_str(width) + rows.spec_digit() + "x"@ + columns.spec_digit() + " _value"@
            + dec_str(indent + 1) + " = transpose("@ + store_value_text(types, ctx, value) + ");\n"@
            + store_items(
            types,
            ctx,
            var,
            res_tm(res),
            res_rank(types, res),
            matrix_store_pairs((indent + 1) as usize, columns, rows, width),
            indent + 1,
            chain,
            rows.spec_count(),
        ) + indent_str(indent) + "}\n"@,
        TypeInner::Array { base, count } => indent_str(indent) + "{\n"@ + indent_str(indent + 1)
            + types[base as int].name@ + " _value"@ + dec_str(indent + 1) + "["@ + dec_str(
            count as int,
        ) + "]"@ + " = "@ + store_value_text(types, ctx, value) + ";\n"@ + store_items(
            types,
            ctx,
            var,
            res_tm(res),
            res_rank(types, res),
            array_store_pairs((indent + 1) as usize, base, count, types[base as int].span),
            indent + 1,
            chain,
            count as int,
        ) + indent_str(indent) + "}\n"@,
        TypeInner::Struct { members } => indent_str(indent) + "{\n"@ + indent_str(indent + 1)
            + struct_res_name(types, res) + " _value"@ + dec_str(indent + 1) + " = "@
            + store_value_text(types, ctx, value) + ";\n"@ + store_items(
            types,
            ctx,
            var,
            res_tm(res),
            res_rank(types, res),
            struct_store_pairs((indent + 1) as usize, res_handle(res), members@),
            indent + 1,
            chain,
            members@.len() as int,
        ) + indent_str(indent) + "}\n"@,
        _ => Seq::empty(),
    }
}

/// The machine-limit bound under which a store's nested temporaries' depth
/// numbers stay representable.
pub open spec fn store_fits(types: Seq<Type>, res: TypeResolution, indent: int) -> bool {
    indent + 2 * res_tm(res) + res_rank(types, res) + 2 <= usize::MAX
}

impl Writer {
    /// A fresh generator: no text emitted, an empty chain.
    pub fn new() -> (w: Writer)
        ensures
            w.out@ == Seq::<char>::empty(),
            w.temp_access_chain@ == Seq::<SubAccess>::empty(),
    {
        Writer { out: String::new(), temp_access_chain: Vec::new() }
    }

    /// Consults the surrounding expression renderer: appends the rendered
    /// text of expression `expr`.
    fn write_expr(&mut self, func_ctx: &FunctionCtx, expr: usize)
        requires
            (expr as int) < func_ctx.expr_texts@.len(),
        ensures
            final(self).temp_access_chain@ == old(self).temp_access_chain@,
            final(self).out@ == old(self).out@ + func_ctx.expr_texts@[expr as int]@,
    {
        self.out.append(func_ctx.expr_texts[expr].as_str());
    }

    /// Renders the current chain as one summed byte-address expression.
    pub fn write_storage_address(&mut self, func_ctx: &FunctionCtx)
        requires
            chain_wf(*func_ctx, old(self).temp_access_chain@),
        ensures
            final(self).temp_access_chain@ == old(self).temp_access_chain@,
            final(self).out@ == old(self).out@ + address_text(
                *func_ctx,
                old(self).temp_access_chain@,
            ),
    {
        let n = self.temp_access_chain.len();
        let mut i: usize = 0;
        proof {
            assert(self.out@ =~= old(self).out@ + address_prefix(
                *func_ctx,
                self.temp_access_chain@,
                0,
            ));
        }
        while i < n
            invariant
                i <= n,
                n == self.temp_access_chain@.len(),
                self.temp_access_chain@ == old(self).temp_access_chain@,
                chain_wf(*func_ctx, self.temp_access_chain@),
                self.out@ == old(self).out@ + address_prefix(
                    *func_ctx,
                    self.temp_access_chain@,
                    i as int,
                ),
            decreases n - i,
        {
            if i != 0 {
                self.out.append("+");
            }
            match self.temp_access_chain[i] {
                SubAccess::Offset(offset) => {
                    push_dec(&mut self.out, offset as u64);
                },
                SubAccess::Index { value, stride } => {
                    self.write_expr(func_ctx, value);
                    self.out.append("*");
                    push_dec(&mut self.out, stride as u64);
                },
            }
            i = i + 1;
            proof {
                assert(self.out@ =~= old(self).out@ + address_prefix(
                    *func_ctx,
                    self.temp_access_chain@,
                    i as int,
                ));
            }
        }
    }

    /// Resets the chain buffer and repopulates it by walking the pointer
    /// expression `cur_expr` backward to its root buffer variable. Returns
    /// the root's handle, or the unsupported-chain failure when the walk
    /// meets any other expression kind; no output text is emitted either
    /// way.
    pub fn fill_access_chain(
        &mut self,
        module: &Module,
        cur_expr: usize,
        func_ctx: &FunctionCtx,
    ) -> (r: Result<usize, Error>)
        requires
            ctx_wf(module.types@, module.global_variables@.len() as int, *func_ctx),
            (cur_expr as int) < func_ctx.expressions@.len(),
        ensures
            final(self).out == old(self).out,
            chain_supported(*func_ctx, cur_expr as int) <==> r is Ok,
            r matches Ok(v) ==> {
                &&& v as int == chain_root(*func_ctx, cur_expr as int)
                &&& (v as int) < module.global_variables@.len()
                &&& final(self).temp_access_chain@ == spec_chain(
                    module.types@,
                    *func_ctx,
                    cur_expr as int,
                )
                &&& chain_wf(*func_ctx, final(self).temp_access_chain@)
            },
            r matches Err(e) ==> e->Unsupported_0@ == "unsupported pointer chain expression: "@
                + func_ctx.expr_texts@[walk_end(*func_ctx, cur_expr as int)]@,
    {
        self.temp_access_chain.clear();
        let mut cur: usize = cur_expr;
        proof {
            assert(spec_chain(module.types@, *func_ctx, cur_expr as int)
                =~= self.temp_access_chain@ + spec_chain(module.types@, *func_ctx, cur as int));
        }
        loop
            invariant
                ctx_wf(module.types@, module.global_variables@.len() as int, *func_ctx),
                (cur_expr as int) < func_ctx.expressions@.len(),
                (cur as int) < func_ctx.expressions@.len(),
                walk_end(*func_ctx, cur as int) == walk_end(*func_ctx, cur_expr as int),
                spec_chain(module.types@, *func_ctx, cur_expr as int)
                    == self.temp_access_chain@ + spec_chain(module.types@, *func_ctx, cur as int),
                chain_wf(*func_ctx, self.temp_access_chain@),
                self.out == old(self).out,
            decreases cur,
        {
            proof {
                assert(crate::ir::expr_wf(
                    module.types@,
                    module.global_variables@.len() as int,
                    *func_ctx,
                    cur as int,
                ));
                assert(func_ctx.expr_types@[cur as int].in_range(module.types@));
            }
            // The stride of the pointee, for a dynamic or homogeneous step.
            let stride: u32 = match func_ctx.expr_types[cur].inner_with(&module.types) {
                TypeInner::Pointer { base } => module.types[*base].span,
                TypeInner::ValuePointer { size, width } => {
                    let count: u32 = match size {
                        Some(s) => s.count(),
                        None => 1,
                    };
                    let width_word: u32 = *width as u32;
                    proof {
                        assert(count * width_word <= 1020) by (nonlinear_arith)
                            requires
                                count <= 4,
                                width_word <= 255,
                        ;
                    }
                    count * width_word
                },
                _ => 0,
            };
            proof {
                assert(stride as int == ptr_stride(module.types@, func_ctx.expr_types@[cur as int]));
            }
            match func_ctx.expressions[cur] {
                Expression::GlobalVariable(handle) => {
                    proof {
                        assert(spec_chain(module.types@, *func_ctx, cur as int)
                            =~= Seq::<SubAccess>::empty());
                        assert(self.temp_access_chain@ =~= self.temp_access_chain@ + Seq::<
                            SubAccess,
                        >::empty());
                    }
                    return Ok(handle);
                },
                Expression::Access { base, index } => {
                    let sub = SubAccess::Index { value: index, stride };
                    self.temp_access_chain.push(sub);
                    proof {
                        assert(sub == chain_step(module.types@, *func_ctx, cur as int));
                        assert(spec_chain(module.types@, *func_ctx, cur as int) =~= seq![sub]
                            + spec_chain(module.types@, *func_ctx, base as int));
                        assert(spec_chain(module.types@, *func_ctx, cur_expr as int)
                            =~= self.temp_access_chain@ + spec_chain(
                            module.types@,
                            *func_ctx,
                            base as int,
                        ));
                    }
                    cur = base;
                },
                Expression::AccessIndex { base, index } => {
                    proof {
                        assert(func_ctx.expr_types@[base as int].in_range(module.types@));
                    }
                    let offset: u32 = match func_ctx.expr_types[base].inner_with(&module.types) {
                        TypeInner::Struct { members } => members[index as usize].offset,
                        _ => index * stride,
                    };
                    let sub = SubAccess::Offset(offset);
                    self.temp_access_chain.push(sub);
                    proof {
                        assert(sub == chain_step(module.types@, *func_ctx, cur as int));
                        assert(spec_chain(module.types@, *func_ctx, cur as int) =~= seq![sub]
                            + spec_chain(module.types@, *func_ctx, base as int));
                        assert(spec_chain(module.types@, *func_ctx, cur_expr as int)
                            =~= self.temp_access_chain@ + spec_chain(
                            module.types@,
                            *func_ctx,
                            base as int,
                        ));
                    }
                    cur = base;
                },
                Expression::Other => {
                    let mut message = String::new();
                    message.append("unsupported pointer chain expression: ");
                    message.append(func_ctx.expr_texts[cur].as_str());
                    proof {
                        assert(message@ =~= "unsupported pointer chain expression: "@
                            + func_ctx.expr_texts@[cur as int]@);
                    }
                    return Err(Error::Unsupported(message));
                },
            }
        }
    }

    /// Emits one element load per sequence entry, `, `-separated, pushing
    /// each entry's offset onto the chain around the recursive load. The
    /// ghost bound carries the caller's recursion measure; every entry lies
    /// strictly below it.
    pub fn write_storage_load_sequence(
        &mut self,
        module: &Module,
        var_handle: usize,
        sequence: &Vec<(TypeResolution, u32)>,
        func_ctx: &FunctionCtx,
        bound: Ghost<(int, int)>,
    )
        requires
            (var_handle as int) < module.global_variables@.len(),
            chain_wf(*func_ctx, old(self).temp_access_chain@),
            forall|j: int|
                0 <= j < sequence@.len() ==> storable_res(
                    module.types@,
                    (#[trigger] sequence@[j]).0,
                ) && pair_lt(module.types@, sequence@[j].0, bound@.0, bound@.1),
        ensures
            final(self).temp_access_chain@ == old(self).temp_access_chain@,
            final(self).out@ == old(self).out@ + load_items(
                module.types@,
                *func_ctx,
                module.global_variables@[var_handle as int]@,
                bound@.0,
                bound@.1,
                sequence@,
                old(self).temp_access_chain@,
                sequence@.len() as int,
            ),
        decreases bound@.0, bound@.1, 0int, 0int,
    {
        let n = sequence.len();
        let mut i: usize = 0;
        while i < n
            invariant
                i <= n,
                n == sequence@.len(),
                (var_handle as int) < module.global_variables@.len(),
                chain_wf(*func_ctx, self.temp_access_chain@),
                self.temp_access_chain@ == old(self).temp_access_chain@,
                forall|j: int|
                    0 <= j < sequence@.len() ==> storable_res(
                        module.types@,
                        (#[trigger] sequence@[j]).0,
                    ) && pair_lt(module.types@, sequence@[j].0, bound@.0, bound@.1),
                self.out@ == old(self).out@ + load_items(
                    module.types@,
                    *func_ctx,
                    module.global_variables@[var_handle as int]@,
                    bound@.0,
                    bound@.1,
                    sequence@,
                    old(self).temp_access_chain@,
                    i as int,
                ),
            decreases n - i,
        {
            if i != 0 {
                self.out.append(", ");
            }
            let offset = sequence[i].1;
            self.temp_access_chain.push(SubAccess::Offset(offset));
            self.write_storage_load(module, var_handle, &sequence[i].0, func_ctx);
            self.temp_access_chain.pop();
            proof {
                assert(self.temp_access_chain@ =~= old(self).temp_access_chain@);
                assert(self.out@ =~= old(self).out@ + load_items(
                    module.types@,
                    *func_ctx,
                    module.global_variables@[var_handle as int]@,
                    bound@.0,
                    bound@.1,
                    sequence@,
                    old(self).temp_access_chain@,
                    i as int + 1,
                ));
            }
            i = i + 1;
        }
    }

    /// Renders the reference to the value currently being stored: the
    /// source expression's text, or the depth-named temporary indexed or
    /// projected by member name.
    pub fn write_store_value(&mut self, module: &Module, value: &StoreValue, func_ctx: &FunctionCtx)
        requires
            store_value_wf(module.types@, *func_ctx, *value),
        ensures
            final(self).temp_access_chain@ == old(self).temp_access_chain@,
            final(self).out@ == old(self).out@ + store_value_text(
                module.types@,
                *func_ctx,
                *value,
            ),
    {
        match value {
            StoreValue::Expression(expr) => {
                self.write_expr(func_ctx, *expr);
            },
            StoreValue::TempIndex { depth, index, ty: _ } => {
                self.out.append("_value");
                push_dec(&mut self.out, *depth as u64);
                self.out.append("[");
                push_dec(&mut self.out, *index as u64);
                self.out.append("]");
                proof {
                    assert(self.out@ =~= old(self).out@ + store_value_text(
                        module.types@,
                        *func_ctx,
                        *value,
                    ));
                }
            },
            StoreValue::TempAccess { depth, base, member_index } => {
                self.out.append("_value");
                push_dec(&mut self.out, *depth as u64);
                self.out.append(".");
                match &module.types[*base].inner {
                    TypeInner::Struct { members } => {
                        self.out.append(members[*member_index as usize].name.as_str());
                    },
                    _ => {
                        proof {
                            assert(false);
                        }
                    },
                }
                proof {
                    assert(self.out@ =~= old(self).out@ + store_value_text(
                        module.types@,
                        *func_ctx,
                        *value,
                    ));
                }
            },
        }
    }

    /// Decomposes a store of `value` into the buffer position the current
    /// chain describes: one primitive store for a scalar or vector, and for
    /// a composite a nested block that evaluates the source once into a
    /// depth-named temporary and recursively stores its pieces.
    #[verifier::rlimit(100)]
    #[verifier::loop_isolation(false)]
    pub fn write_storage_store(
        &mut self,
        module: &Module,
        var_handle: usize,
        value: &StoreValue,
        func_ctx: &FunctionCtx,
        indent: usize,
    )
        requires
            store_value_wf(module.types@, *func_ctx, *value),
            storable_res(module.types@, resolved_ty(module.types@, *func_ctx, *value)),
            (var_handle as int) < module.global_variables@.len(),
            chain_wf(*func_ctx, old(self).temp_access_chain@),
            store_fits(
                module.types@,
                resolved_ty(module.types@, *func_ctx, *value),
                indent as int,
            ),
        ensures
            final(self).temp_access_chain@ == old(self).temp_access_chain@,
            final(self).out@ == old(self).out@ + store_text(
                module.types@,
                *func_ctx,
                module.global_variables@[var_handle as int]@,
                *value,
                indent as int,
                old(self).temp_access_chain@,
            ),
        decreases
                res_tm(resolved_ty(module.types@, *func_ctx, *value)),
                res_rank(module.types@, resolved_ty(module.types@, *func_ctx, *value)),
                2int,
                0int,
    {
        let ghost types = module.types@;
        let ghost var = module.global_variables@[var_handle as int]@;
        let ghost chain0 = self.temp_access_chain@;
        let ghost res_g = resolved_ty(types, *func_ctx, *value);
        let ghost b1g = res_tm(res_g);
        let ghost b2g = res_rank(types, res_g);
        let temp_resolution: TypeResolution;
        let ty_resolution: &TypeResolution = match value {
            StoreValue::Expression(expr) => &func_ctx.expr_types[*expr],
            StoreValue::TempIndex { depth: _, index: _, ty } => ty,
            StoreValue::TempAccess { depth: _, base, member_index } => {
                let ty_handle: usize = match &module.types[*base].inner {
                    TypeInner::Struct { members } => members[*member_index as usize].ty,
                    _ => {
                        proof {
                            assert(false);
                        }
                        0
                    },
                };
                temp_resolution = TypeResolution::Handle(ty_handle);
                &temp_resolution
            },
        };
        proof {
            assert(*ty_resolution == res_g);
        }
        match ty_resolution.inner_with(&module.types) {
            TypeInner::Scalar { kind: _, width: _ } => {
                push_indent(&mut self.out, indent);
                self.out.append(module.global_variables[var_handle].as_str());
                self.out.append(".Store(");
                self.write_storage_address(func_ctx);
                self.out.append(", asuint(");
                self.write_store_value(module, value, func_ctx);
                self.out.append("));\n");
                proof {
                    assert(self.out@ =~= old(self).out@ + store_text(
                        types,
                        *func_ctx,
                        var,
                        *value,
                        indent as int,
                        chain0,
                    ));
                }
            },
            TypeInner::Vector { size, kind: _, width: _ } => {
                let size = *size;
                push_indent(&mut self.out, indent);
                self.out.append(module.global_variables[var_handle].as_str());
                self.out.append(".Store");
                self.out.append(size.digit_str());
                self.out.append("(");
                self.write_storage_address(func_ctx);
                self.out.append(", asuint(");
                self.write_store_value(module, value, func_ctx);
                self.out.append("));\n");
                proof {
                    assert(self.out@ =~= old(self).out@ + store_text(
                        types,
                        *func_ctx,
                        var,
                        *value,
                        indent as int,
                        chain0,
                    ));
                }
            },
            TypeInner::Matrix { columns, rows, width } => {
                let columns = *columns;
                let rows = *rows;
                let width = *width;
                self.write_store_matrix(module, var_handle, value, func_ctx, indent, columns, rows, width);
            },
            TypeInner::Array { base, count } => {
                let base = *base;
                let count = *count;
                self.write_store_array(module, var_handle, value, func_ctx, indent, base, count);
            },
            TypeInner::Struct { members: _ } => {
                let struct_ty: usize = match ty_resolution.handle() {
                    Some(t) => t,
                    None => {
                        proof {
                            assert(false);
                        }
                        0
                    },
                };
                self.write_store_struct(module, var_handle, value, func_ctx, indent, struct_ty);
            },
            _ => {
                proof {
                    assert(false);
                }
            },
        }
    }



    /// The row stores of a matrix store: one recursive store per row of the
    /// depth-named temporary, at offsets `i * row_stride`.
    #[verifier::rlimit(80)]
    #[verifier::loop_isolation(false)]
    fn write_store_matrix_rows(
        &mut self,
        module: &Module,
        var_handle: usize,
        func_ctx: &FunctionCtx,
        depth: usize,
        columns: VectorSize,
        rows: VectorSize,
        width: u8,
        row_stride: u32,
        res: Ghost<TypeResolution>,
    )
        requires
            (var_handle as int) < module.global_variables@.len(),
            chain_wf(*func_ctx, old(self).temp_access_chain@),
            storable_res(module.types@, res@),
            res@.spec_inner(module.types@) == (TypeInner::Matrix { columns, rows, width }),
            row_stride as int == (width as int) * columns.spec_count(),
            row_stride <= 1020,
            depth + 2 <= usize::MAX,
        ensures
            final(self).temp_access_chain@ == old(self).temp_access_chain@,
            final(self).out@ == old(self).out@ + store_items(
                module.types@,
                *func_ctx,
                module.global_variables@[var_handle as int]@,
                res_tm(res@),
                res_rank(module.types@, res@),
                matrix_store_pairs(depth, columns, rows, width),
                depth as int,
                old(self).temp_access_chain@,
                rows.spec_count(),
            ),
        decreases res_tm(res@), res_rank(module.types@, res@), 0int, 0int,
    {
        let ghost types = module.types@;
        let ghost var = module.global_variables@[var_handle as int]@;
        let ghost chain0 = self.temp_access_chain@;
        let ghost b1g = res_tm(res@);
        let ghost b2g = res_rank(types, res@);
        let ghost pairs_g = matrix_store_pairs(depth, columns, rows, width);
        let ghost head = self.out@;
        let row_count: u32 = rows.count();
        let mut i: u32 = 0;
        while i < row_count
            invariant
                i <= row_count,
                self.temp_access_chain@ == chain0,
                self.out@ == head + store_items(
                    types,
                    *func_ctx,
                    var,
                    b1g,
                    b2g,
                    pairs_g,
                    depth as int,
                    chain0,
                    i as int,
                ),
            decreases row_count - i,
        {
            proof {
                assert(i * row_stride <= 3060) by (nonlinear_arith)
                    requires
                        i <= 3,
                        row_stride <= 1020,
                ;
            }
            self.temp_access_chain.push(SubAccess::Offset(i * row_stride));
            let sv = StoreValue::TempIndex {
                depth,
                index: i,
                ty: TypeResolution::Value(
                    TypeInner::Vector { size: columns, kind: ScalarKind::Float, width },
                ),
            };
            proof {
                assert(store_pair_ok(types, *func_ctx, pairs_g[i as int], b1g, b2g));
            }
            self.write_storage_store(module, var_handle, &sv, func_ctx, depth);
            self.temp_access_chain.pop();
            proof {
                assert(self.temp_access_chain@ =~= chain0);
                assert(self.out@ =~= head + store_items(
                    types,
                    *func_ctx,
                    var,
                    b1g,
                    b2g,
                    pairs_g,
                    depth as int,
                    chain0,
                    i as int + 1,
                ));
            }
            i = i + 1;
        }
    }

    /// The matrix case of `write_storage_store`: a block assigning the
    /// transpose to a depth-named temporary, then one store per row.
    #[verifier::rlimit(100)]
    #[verifier::loop_isolation(false)]
    fn write_store_matrix(
        &mut self,
        module: &Module,
        var_handle: usize,
        value: &StoreValue,
        func_ctx: &FunctionCtx,
        indent: usize,
        columns: VectorSize,
        rows: VectorSize,
        width: u8,
    )
        requires
            store_value_wf(module.types@, *func_ctx, *value),
            storable_res(module.types@, resolved_ty(module.types@, *func_ctx, *value)),
            (var_handle as int) < module.global_variables@.len(),
            chain_wf(*func_ctx, old(self).temp_access_chain@),
            store_fits(
                module.types@,
                resolved_ty(module.types@, *func_ctx, *value),
                indent as int,
            ),
            resolved_ty(module.types@, *func_ctx, *value).spec_inner(module.types@) == (
            TypeInner::Matrix { columns, rows, width }),
        ensures
            final(self).temp_access_chain@ == old(self).temp_access_chain@,
            final(self).out@ == old(self).out@ + store_text(
                module.types@,
                *func_ctx,
                module.global_variables@[var_handle as int]@,
                *value,
                indent as int,
                old(self).temp_access_chain@,
            ),
        decreases
                res_tm(resolved_ty(module.types@, *func_ctx, *value)),
                res_rank(module.types@, resolved_ty(module.types@, *func_ctx, *value)),
                1int,
                0int,
    {
        let ghost types = module.types@;
        let ghost var = module.global_variables@[var_handle as int]@;
        let ghost chain0 = self.temp_access_chain@;
        let ghost res_g = resolved_ty(types, *func_ctx, *value);
        let ghost b1g = res_tm(res_g);
        let ghost b2g = res_rank(types, res_g);
                // assign the value once to a temporary holding the transpose
                push_indent(&mut self.out, indent);
                self.out.append("{\n");
                let depth = indent + 1;
                push_indent(&mut self.out, depth);
                self.out.append(crate::ir::float_str(width));
                self.out.append(rows.digit_str());
                self.out.append("x");
                self.out.append(columns.digit_str());
                self.out.append(" _value");
                push_dec(&mut self.out, depth as u64);
                self.out.append(" = transpose(");
                self.write_store_value(module, value, func_ctx);
                self.out.append(");\n");
                let ghost decl = indent_str(indent as int) + "{\n"@ + indent_str(indent as int + 1)
                    + spec_float_str(width) + rows.spec_digit() + "x"@ + columns.spec_digit()
                    + " _value"@ + dec_str(indent as int + 1) + " = transpose("@
                    + store_value_text(types, *func_ctx, *value) + ");\n"@;
                proof {
                    assert(self.out@ =~= old(self).out@ + decl);
                }
                let ghost head = self.out@;
                // then store its rows
                let col_count: u32 = columns.count();
                proof {
                    assert((width as u32) * col_count <= 1020) by (nonlinear_arith)
                        requires
                            width <= 255,
                            col_count <= 4,
                    ;
                }
                let row_stride: u32 = (width as u32) * col_count;
                self.write_store_matrix_rows(
                    module,
                    var_handle,
                    func_ctx,
                    depth,
                    columns,
                    rows,
                    width,
                    row_stride,
                    Ghost(res_g),
                );
                let ghost items = store_items(
                    types,
                    *func_ctx,
                    var,
                    res_tm(res_g),
                    res_rank(types, res_g),
                    matrix_store_pairs(depth, columns, rows, width),
                    indent as int + 1,
                    chain0,
                    rows.spec_count(),
                );
                proof {
                    assert(self.out@ == head + items);
                }
                push_indent(&mut self.out, indent);
                self.out.append("}\n");
                proof {
                    assert(store_text(types, *func_ctx, var, *value, indent as int, chain0) =~= decl
                        + items + indent_str(indent as int) + "}\n"@);
                    assert(self.out@ =~= old(self).out@ + (decl + items + indent_str(
                        indent as int,
                    ) + "}\n"@));
                }
    }

    /// The fixed-size-array case of `write_storage_store`: a block
    /// assigning the value to a depth-named temporary, then one store per
    /// element at offsets `0, stride, 2*stride, ...`.
    #[verifier::rlimit(80)]
    #[verifier::loop_isolation(false)]
    fn write_store_array(
        &mut self,
        module: &Module,
        var_handle: usize,
        value: &StoreValue,
        func_ctx: &FunctionCtx,
        indent: usize,
        base: usize,
        count: u32,
    )
        requires
            store_value_wf(module.types@, *func_ctx, *value),
            storable_res(module.types@, resolved_ty(module.types@, *func_ctx, *value)),
            (var_handle as int) < module.global_variables@.len(),
            chain_wf(*func_ctx, old(self).temp_access_chain@),
            store_fits(
                module.types@,
                resolved_ty(module.types@, *func_ctx, *value),
                indent as int,
            ),
            resolved_ty(module.types@, *func_ctx, *value).spec_inner(module.types@) == (
            TypeInner::Array { base, count }),
        ensures
            final(self).temp_access_chain@ == old(self).temp_access_chain@,
            final(self).out@ == old(self).out@ + store_text(
                module.types@,
                *func_ctx,
                module.global_variables@[var_handle as int]@,
                *value,
                indent as int,
                old(self).temp_access_chain@,
            ),
        decreases
                res_tm(resolved_ty(module.types@, *func_ctx, *value)),
                res_rank(module.types@, resolved_ty(module.types@, *func_ctx, *value)),
                1int,
                0int,
    {
        let ghost types = module.types@;
        let ghost var = module.global_variables@[var_handle as int]@;
        let ghost chain0 = self.temp_access_chain@;
        let ghost res_g = resolved_ty(types, *func_ctx, *value);
        let ghost b1g = res_tm(res_g);
        let ghost b2g = res_rank(types, res_g);
                proof {
                    if !(res_g is Handle) {
                        assert(false);
                    }
                }
                let ghost h = res_handle(res_g) as int;
                // assign the value once to a temporary
                push_indent(&mut self.out, indent);
                self.out.append("{\n");
                let depth = indent + 1;
                push_indent(&mut self.out, depth);
                self.out.append(module.types[base].name.as_str());
                self.out.append(" _value");
                push_dec(&mut self.out, depth as u64);
                self.out.append("[");
                push_dec(&mut self.out, count as u64);
                self.out.append("]");
                self.out.append(" = ");
                self.write_store_value(module, value, func_ctx);
                self.out.append(";\n");
                // then store its elements
                let stride: u32 = module.types[base].span;
                let ghost pairs_g = array_store_pairs(depth, base, count, stride);
                let ghost head = self.out@;
                let mut i: u32 = 0;
                while i < count
                    invariant
                        i <= count,
                        self.temp_access_chain@ == chain0,
                        self.out@ == head + store_items(
                            types,
                            *func_ctx,
                            var,
                            b1g,
                            b2g,
                            pairs_g,
                            indent as int + 1,
                            chain0,
                            i as int,
                        ),
                    decreases count - i,
                {
                    proof {
                        vstd::arithmetic::mul::lemma_mul_inequality(
                            i as int,
                            count as int,
                            stride as int,
                        );
                    }
                    self.temp_access_chain.push(SubAccess::Offset(i * stride));
                    let sv = StoreValue::TempIndex {
                        depth,
                        index: i,
                        ty: TypeResolution::Handle(base),
                    };
                    proof {
                        assert(store_pair_ok(types, *func_ctx, pairs_g[i as int], b1g, b2g));
                    }
                    self.write_storage_store(module, var_handle, &sv, func_ctx, depth);
                    self.temp_access_chain.pop();
                    proof {
                        assert(self.temp_access_chain@ =~= chain0);
                        assert(self.out@ =~= head + store_items(
                            types,
                            *func_ctx,
                            var,
                            b1g,
                            b2g,
                            pairs_g,
                            indent as int + 1,
                            chain0,
                            i as int + 1,
                        ));
                    }
                    i = i + 1;
                }
                push_indent(&mut self.out, indent);
                self.out.append("}\n");
                proof {
                    assert(self.out@ =~= old(self).out@ + store_text(
                        types,
                        *func_ctx,
                        var,
                        *value,
                        indent as int,
                        chain0,
                    ));
                }
    }

    /// The struct case of `write_storage_store`: a block assigning the
    /// value to a depth-named temporary, then one store per member, in
    /// declaration order, at each member's precomputed offset.
    #[verifier::rlimit(80)]
    #[verifier::loop_isolation(false)]
    fn write_store_struct(
        &mut self,
        module: &Module,
        var_handle: usize,
        value: &StoreValue,
        func_ctx: &FunctionCtx,
        indent: usize,
        struct_ty: usize,
    )
        requires
            store_value_wf(module.types@, *func_ctx, *value),
            storable_res(module.types@, resolved_ty(module.types@, *func_ctx, *value)),
            (var_handle as int) < module.global_variables@.len(),
            chain_wf(*func_ctx, old(self).temp_access_chain@),
            store_fits(
                module.types@,
                resolved_ty(module.types@, *func_ctx, *value),
                indent as int,
            ),
            resolved_ty(module.types@, *func_ctx, *value) == TypeResolution::Handle(struct_ty),
            module.types@[struct_ty as int].inner is Struct,
        ensures
            final(self).temp_access_chain@ == old(self).temp_access_chain@,
            final(self).out@ == old(self).out@ + store_text(
                module.types@,
                *func_ctx,
                module.global_variables@[var_handle as int]@,
                *value,
                indent as int,
                old(self).temp_access_chain@,
            ),
        decreases
                res_tm(resolved_ty(module.types@, *func_ctx, *value)),
                res_rank(module.types@, resolved_ty(module.types@, *func_ctx, *value)),
                1int,
                0int,
    {
        let ghost types = module.types@;
        let ghost var = module.global_variables@[var_handle as int]@;
        let ghost chain0 = self.temp_access_chain@;
        let ghost res_g = resolved_ty(types, *func_ctx, *value);
        let ghost b1g = res_tm(res_g);
        let ghost b2g = res_rank(types, res_g);
                proof {
                    if !(res_g is Handle) {
                        assert(false);
                    }
                }
                let ghost h = res_handle(res_g) as int;
                // assign the value once to a temporary
                push_indent(&mut self.out, indent);
                self.out.append("{\n");
                let depth = indent + 1;
                push_indent(&mut self.out, depth);
                match &module.types[struct_ty].inner {
                    TypeInner::Struct { members } => {
                    self.out.append(module.types[struct_ty].name.as_str());
                    self.out.append(" _value");
                    push_dec(&mut self.out, depth as u64);
                    self.out.append(" = ");
                    self.write_store_value(module, value, func_ctx);
                    self.out.append(";\n");
                    // then store its members
                    let ghost pairs_g = struct_store_pairs(depth, struct_ty, members@);
                    let ghost head = self.out@;
                    let n = members.len();
                    let mut i: usize = 0;
                    while i < n
                        invariant
                            i <= n,
                            self.temp_access_chain@ == chain0,
                            self.out@ == head + store_items(
                                types,
                                *func_ctx,
                                var,
                                b1g,
                                b2g,
                                pairs_g,
                                indent as int + 1,
                                chain0,
                                i as int,
                            ),
                        decreases n - i,
                    {
                        self.temp_access_chain.push(SubAccess::Offset(members[i].offset));
                        let sv = StoreValue::TempAccess {
                            depth,
                            base: struct_ty,
                            member_index: i as u32,
                        };
                        proof {
                            assert((members@[i as int].ty as int) < h && storable_at(
                                types,
                                members@[i as int].ty as int,
                            ));
                            assert(resolved_ty(types, *func_ctx, sv) == TypeResolution::Handle(
                                members@[i as int].ty,
                            ));
                            assert(store_pair_ok(types, *func_ctx, pairs_g[i as int], b1g, b2g));
                        }
                        self.write_storage_store(module, var_handle, &sv, func_ctx, depth);
                        self.temp_access_chain.pop();
                        proof {
                            assert(self.temp_access_chain@ =~= chain0);
                            assert(self.out@ =~= head + store_items(
                                types,
                                *func_ctx,
                                var,
                                b1g,
                                b2g,
                                pairs_g,
                                indent as int + 1,
                                chain0,
                                i as int + 1,
                            ));
                        }
                        i = i + 1;
                    }
                    push_indent(&mut self.out, indent);
                    self.out.append("}\n");
                    proof {
                        assert(self.out@ =~= old(self).out@ + store_text(
                            types,
                            *func_ctx,
                            var,
                            *value,
                            indent as int,
                            chain0,
                        ));
                    }
                    },
                    _ => {
                        proof {
                            assert(false);
                        }
                    },
                }
    }

    /// Emits the value expression that reconstructs a value of type
    /// `result_ty` at the buffer position the current chain describes.
    #[verifier::rlimit(80)]
    pub fn write_storage_load(
        &mut self,
        module: &Module,
        var_handle: usize,
        result_ty: &TypeResolution,
        func_ctx: &FunctionCtx,
    )
        requires
            storable_res(module.types@, *result_ty),
            (var_handle as int) < module.global_variables@.len(),
            chain_wf(*func_ctx, old(self).temp_access_chain@),
        ensures
            final(self).temp_access_chain@ == old(self).temp_access_chain@,
            final(self).out@ == old(self).out@ + load_text(
                module.types@,
                *func_ctx,
                module.global_variables@[var_handle as int]@,
                *result_ty,
                old(self).temp_access_chain@,
            ),
        decreases res_tm(*result_ty), res_rank(module.types@, *result_ty), 1int, 0int,
    {
        let ghost types = module.types@;
        let ghost var = module.global_variables@[var_handle as int]@;
        let ghost chain0 = self.temp_access_chain@;
        match result_ty.inner_with(&module.types) {
            TypeInner::Scalar { kind, width: _ } => {
                let kind = *kind;
                self.out.append(kind.cast_str());
                self.out.append("(");
                self.out.append(module.global_variables[var_handle].as_str());
                self.out.append(".Load(");
                self.write_storage_address(func_ctx);
                self.out.append("))");
                proof {
                    assert(self.out@ =~= old(self).out@ + load_text(
                        types,
                        *func_ctx,
                        var,
                        *result_ty,
                        chain0,
                    ));
                }
            },
            TypeInner::Vector { size, kind, width: _ } => {
                let size = *size;
                let kind = *kind;
                self.out.append(kind.cast_str());
                self.out.append("(");
                self.out.append(module.global_variables[var_handle].as_str());
                self.out.append(".Load");
                self.out.append(size.digit_str());
                self.out.append("(");
                self.write_storage_address(func_ctx);
                self.out.append("))");
                proof {
                    assert(self.out@ =~= old(self).out@ + load_text(
                        types,
                        *func_ctx,
                        var,
                        *result_ty,
                        chain0,
                    ));
                }
            },
            TypeInner::Matrix { columns, rows, width } => {
                let columns = *columns;
                let rows = *rows;
                let width = *width;
                self.out.append("transpose(");
                self.out.append(crate::ir::float_str(width));
                self.out.append(rows.digit_str());
                self.out.append("x");
                self.out.append(columns.digit_str());
                self.out.append("(");
                let col_count: u32 = columns.count();
                proof {
                    assert((width as u32) * col_count <= 1020) by (nonlinear_arith)
                        requires
                            width <= 255,
                            col_count <= 4,
                    ;
                }
                let row_stride: u32 = (width as u32) * col_count;
                let row_count: u32 = rows.count();
                let mut sequence: Vec<(TypeResolution, u32)> = Vec::new();
                let mut i: u32 = 0;
                while i < row_count
                    invariant
                        i <= row_count,
                        row_count == rows.spec_count(),
                        row_stride as int == (width as int) * columns.spec_count(),
                        row_stride <= 1020,
                        sequence@ == matrix_pairs(columns, rows, width).take(i as int),
                    decreases row_count - i,
                {
                    proof {
                        assert(i * row_stride <= 3060) by (nonlinear_arith)
                            requires
                                i <= 3,
                                row_stride <= 1020,
                        ;
                    }
                    sequence.push(
                        (
                            TypeResolution::Value(
                                TypeInner::Vector {
                                    size: columns,
                                    kind: ScalarKind::Float,
                                    width,
                                },
                            ),
                            i * row_stride,
                        ),
                    );
                    proof {
                        assert(sequence@ =~= matrix_pairs(columns, rows, width).take(i as int + 1));
                    }
                    i = i + 1;
                }
                proof {
                    assert(sequence@ =~= matrix_pairs(columns, rows, width));
                    assert forall|j: int| 0 <= j < sequence@.len() implies storable_res(
                        types,
                        (#[trigger] sequence@[j]).0,
                    ) && pair_lt(
                        types,
                        sequence@[j].0,
                        res_tm(*result_ty),
                        res_rank(types, *result_ty),
                    ) by {
                        assert(res_rank(types, *result_ty) == 1);
                    }
                }
                self.write_storage_load_sequence(
                    module,
                    var_handle,
                    &sequence,
                    func_ctx,
                    Ghost((res_tm(*result_ty), res_rank(module.types@, *result_ty))),
                );
                self.out.append("))");
                proof {
                    assert(self.out@ =~= old(self).out@ + load_text(
                        types,
                        *func_ctx,
                        var,
                        *result_ty,
                        chain0,
                    ));
                }
            },
            TypeInner::Array { base, count } => {
                let base = *base;
                let count = *count;
                proof {
                    if !(*result_ty is Handle) {
                        assert(false);
                    }
                }
                let ghost h = result_ty->Handle_0 as int;
                self.out.append("{");
                let stride: u32 = module.types[base].span;
                let mut sequence: Vec<(TypeResolution, u32)> = Vec::new();
                let mut i: u32 = 0;
                while i < count
                    invariant
                        i <= count,
                        (base as int) < types.len(),
                        stride == types[base as int].span,
                        (count as int) * (stride as int) <= u32::MAX,
                        sequence@ == array_pairs(base, count, stride).take(i as int),
                    decreases count - i,
                {
                    proof {
                        vstd::arithmetic::mul::lemma_mul_inequality(
                            i as int,
                            count as int,
                            stride as int,
                        );
                    }
                    sequence.push((TypeResolution::Handle(base), i * stride));
                    proof {
                        assert(sequence@ =~= array_pairs(base, count, stride).take(i as int + 1));
                    }
                    i = i + 1;
                }
                proof {
                    assert(sequence@ =~= array_pairs(base, count, stride));
                    assert forall|j: int| 0 <= j < sequence@.len() implies storable_res(
                        types,
                        (#[trigger] sequence@[j]).0,
                    ) && pair_lt(
                        types,
                        sequence@[j].0,
                        res_tm(*result_ty),
                        res_rank(types, *result_ty),
                    ) by {
                        assert(storable_at(types, h));
                        assert((base as int) < h);
                    }
                }
                self.write_storage_load_sequence(
                    module,
                    var_handle,
                    &sequence,
                    func_ctx,
                    Ghost((res_tm(*result_ty), res_rank(module.types@, *result_ty))),
                );
                self.out.append("}");
                proof {
                    assert(self.out@ =~= old(self).out@ + load_text(
                        types,
                        *func_ctx,
                        var,
                        *result_ty,
                        chain0,
                    ));
                }
            },
            TypeInner::Struct { members } => {
                proof {
                    if !(*result_ty is Handle) {
                        assert(false);
                    }
                }
                let ghost h = result_ty->Handle_0 as int;
                self.out.append("{");
                let n = members.len();
                let mut sequence: Vec<(TypeResolution, u32)> = Vec::new();
                let mut i: usize = 0;
                while i < n
                    invariant
                        i <= n,
                        n == members@.len(),
                        sequence@ == struct_pairs(members@).take(i as int),
                    decreases n - i,
                {
                    sequence.push((TypeResolution::Handle(members[i].ty), members[i].offset));
                    proof {
                        assert(sequence@ =~= struct_pairs(members@).take(i as int + 1));
                    }
                    i = i + 1;
                }
                proof {
                    assert(sequence@ =~= struct_pairs(members@));
                    assert forall|j: int| 0 <= j < sequence@.len() implies storable_res(
                        types,
                        (#[trigger] sequence@[j]).0,
                    ) && pair_lt(
                        types,
                        sequence@[j].0,
                        res_tm(*result_ty),
                        res_rank(types, *result_ty),
                    ) by {
                        assert(storable_at(types, h));
                        assert((members@[j].ty as int) < h && storable_at(
                            types,
                            members@[j].ty as int,
                        ));
                    }
                }
                self.write_storage_load_sequence(
                    module,
                    var_handle,
                    &sequence,
                    func_ctx,
                    Ghost((res_tm(*result_ty), res_rank(module.types@, *result_ty))),
                );
                self.out.append("}");
                proof {
                    assert(self.out@ =~= old(self).out@ + load_text(
                        types,
                        *func_ctx,
                        var,
                        *result_ty,
                        chain0,
                    ));
                }
            },
            _ => {
                proof {
                    assert(false);
                }
            },
        }
    }
}

} // verus!
