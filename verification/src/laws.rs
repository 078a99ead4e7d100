//! Structural guarantees of the emitted code, stated and proved over the
//! same spec functions the generator's contracts use.

use crate::ir::{res_rank, res_tm, storable_at, storable_res, Expression, FunctionCtx,
    StructMember, Type, TypeInner, TypeResolution};
use crate::storage::{address_prefix, address_text, array_pairs, array_store_pairs, load_items,
    load_text, pair_lt, resolved_ty, spec_chain, store_items, store_pair_ok, store_text,
    store_value_wf, struct_pairs, struct_store_pairs, term_text, StoreValue, SubAccess};
use vstd::prelude::*;

verus! {

/// A matrix as the abstract grid of its element bit patterns: `rows` rows,
/// each of `cols` elements.
pub open spec fn mat_wf(m: Seq<Seq<int>>, rows: int, cols: int) -> bool {
    m.len() == rows && forall|i: int| 0 <= i < rows ==> (#[trigger] m[i]).len() == cols
}

/// The transpose of an `rows` by `cols` grid.
pub open spec fn mat_transpose(m: Seq<Seq<int>>, rows: int, cols: int) -> Seq<Seq<int>> {
    Seq::new(cols as nat, |j: int| Seq::new(rows as nat, |i: int| m[i][j]))
}

/// What a matrix store writes into the buffer, row by row: the store
/// sequencer assigns `transpose(value)` to its temporary and writes that
/// temporary's row `i` at offset `i * row_stride`.
pub open spec fn matrix_rows_stored(m: Seq<Seq<int>>, rows: int, cols: int) -> Seq<Seq<int>> {
    mat_transpose(m, rows, cols)
}

/// What a matrix load reconstructs from buffer rows: the load sequencer
/// reads row `i` at offset `i * row_stride`, hands the rows in order to a
/// column-major constructor, and transposes the result.
pub open spec fn matrix_value_loaded(stored: Seq<Seq<int>>, rows: int, cols: int) -> Seq<
    Seq<int>,
> {
    mat_transpose(stored, rows, cols)
}

/// For any matrix, loading what a store wrote yields the matrix again: the
/// store's transpose before writing and the load's transpose after reading
/// cancel.
pub proof fn lemma_matrix_store_load_round_trip(m: Seq<Seq<int>>, rows: int, cols: int)
    requires
        0 <= rows,
        0 <= cols,
        mat_wf(m, rows, cols),
    ensures
        matrix_value_loaded(matrix_rows_stored(m, rows, cols), cols, rows) == m,
{
    let t = mat_transpose(m, rows, cols);
    let tt = mat_transpose(t, cols, rows);
    assert forall|i: int| 0 <= i < rows implies tt[i] =~= m[i] by {
        assert(m[i].len() == cols);
    }
    assert(tt =~~= m);
}

/// Load and store decompose a matrix over the same offsets: row `i` of the
/// transposed grid travels through offset `i * row_stride` in both
/// directions, which is what lets the two transposes cancel value-wise.
pub proof fn lemma_matrix_load_store_offsets_agree(
    depth: usize,
    columns: crate::ir::VectorSize,
    rows: crate::ir::VectorSize,
    width: u8,
)
    ensures
        crate::storage::matrix_pairs(columns, rows, width).len() == rows.spec_count(),
        crate::storage::matrix_store_pairs(depth, columns, rows, width).len()
            == rows.spec_count(),
        forall|i: int|
            0 <= i < rows.spec_count() ==> (#[trigger] crate::storage::matrix_pairs(
                columns,
                rows,
                width,
            )[i]).1 == crate::storage::matrix_store_pairs(depth, columns, rows, width)[i].1,
{
}

/// The terms of an address, one per chain step, in chain order.
pub open spec fn address_terms(ctx: FunctionCtx, chain: Seq<SubAccess>) -> Seq<Seq<char>> {
    Seq::new(chain.len(), |i: int| term_text(ctx, chain[i]))
}

/// Texts joined with `+`.
pub open spec fn join_plus(parts: Seq<Seq<char>>) -> Seq<char>
    decreases parts.len(),
{
    if parts.len() == 0 {
        Seq::empty()
    } else {
        join_plus(parts.drop_last()) + (if parts.len() > 1 {
            "+"@
        } else {
            Seq::<char>::empty()
        }) + parts.last()
    }
}

/// Texts joined with `, `.
pub open spec fn join_comma(parts: Seq<Seq<char>>) -> Seq<char>
    decreases parts.len(),
{
    if parts.len() == 0 {
        Seq::empty()
    } else {
        join_comma(parts.drop_last()) + (if parts.len() > 1 {
            ", "@
        } else {
            Seq::<char>::empty()
        }) + parts.last()
    }
}

/// Texts concatenated without separator.
pub open spec fn concat_texts(parts: Seq<Seq<char>>) -> Seq<char>
    decreases parts.len(),
{
    if parts.len() == 0 {
        Seq::empty()
    } else {
        concat_texts(parts.drop_last()) + parts.last()
    }
}

proof fn lemma_address_prefix_join(ctx: FunctionCtx, chain: Seq<SubAccess>, i: int)
    requires
        0 <= i <= chain.len(),
    ensures
        address_prefix(ctx, chain, i) == join_plus(address_terms(ctx, chain).take(i)),
    decreases i,
{
    let terms = address_terms(ctx, chain);
    if i > 0 {
        lemma_address_prefix_join(ctx, chain, i - 1);
        assert(terms.take(i).drop_last() =~= terms.take(i - 1));
        assert(terms.take(i).last() == term_text(ctx, chain[i - 1]));
    } else {
        assert(terms.take(0) =~= Seq::<Seq<char>>::empty());
    }
}

/// A chain of depth `D` renders as exactly `D` summed terms: one term per
/// step, joined with `+`.
pub proof fn lemma_address_is_terms_joined(ctx: FunctionCtx, chain: Seq<SubAccess>)
    ensures
        address_terms(ctx, chain).len() == chain.len(),
        address_text(ctx, chain) == join_plus(address_terms(ctx, chain)),
{
    lemma_address_prefix_join(ctx, chain, chain.len() as int);
    assert(address_terms(ctx, chain).take(chain.len() as int) =~= address_terms(ctx, chain));
}

/// The depth of a pointer chain: the number of access nodes its walk
/// passes before reaching the terminal node.
pub open spec fn chain_depth(ctx: FunctionCtx, e: int) -> int
    decreases e,
{
    match ctx.expressions@[e] {
        Expression::Access { base, index: _ } => 1 + (if 0 <= (base as int) < e {
            chain_depth(ctx, base as int)
        } else {
            0
        }),
        Expression::AccessIndex { base, index: _ } => 1 + (if 0 <= (base as int) < e {
            chain_depth(ctx, base as int)
        } else {
            0
        }),
        _ => 0,
    }
}

/// The builder pushes exactly one step per access node: for a chain of
/// depth `D` the populated chain holds `D` entries, so with
/// `lemma_address_is_terms_joined` its address holds `D` summed terms.
pub proof fn lemma_chain_length_is_depth(types: Seq<Type>, ctx: FunctionCtx, e: int)
    ensures
        spec_chain(types, ctx, e).len() == chain_depth(ctx, e),
    decreases e,
{
    match ctx.expressions@[e] {
        Expression::Access { base, index: _ } => {
            if 0 <= (base as int) < e {
                lemma_chain_length_is_depth(types, ctx, base as int);
            }
        },
        Expression::AccessIndex { base, index: _ } => {
            if 0 <= (base as int) < e {
                lemma_chain_length_is_depth(types, ctx, base as int);
            }
        },
        _ => {},
    }
}

proof fn lemma_load_items_join(
    types: Seq<Type>,
    ctx: FunctionCtx,
    var: Seq<char>,
    b1: int,
    b2: int,
    pairs: Seq<(TypeResolution, u32)>,
    chain: Seq<SubAccess>,
    i: int,
)
    requires
        0 <= i <= pairs.len(),
        forall|j: int|
            0 <= j < pairs.len() ==> storable_res(types, (#[trigger] pairs[j]).0) && pair_lt(
                types,
                pairs[j].0,
                b1,
                b2,
            ),
    ensures
        load_items(types, ctx, var, b1, b2, pairs, chain, i) == join_comma(
            Seq::new(
                i as nat,
                |j: int|
                    load_text(
                        types,
                        ctx,
                        var,
                        pairs[j].0,
                        chain.push(SubAccess::Offset(pairs[j].1)),
                    ),
            ),
        ),
    decreases i,
{
    let f = |j: int|
        load_text(types, ctx, var, pairs[j].0, chain.push(SubAccess::Offset(pairs[j].1)));
    if i > 0 {
        lemma_load_items_join(types, ctx, var, b1, b2, pairs, chain, i - 1);
        assert(Seq::new(i as nat, f).drop_last() =~= Seq::new((i - 1) as nat, f));
        assert(Seq::new(i as nat, f).last() == f(i - 1));
    } else {
        assert(Seq::new(0, f) =~= Seq::<Seq<char>>::empty());
    }
}

/// For a fixed-size array of length `N` with element stride `S`, a load
/// emits exactly `N` element loads, in index order, at offsets
/// `0, S, 2S, ..., (N-1)S` pushed onto the chain.
pub proof fn lemma_array_load_elements(
    types: Seq<Type>,
    ctx: FunctionCtx,
    var: Seq<char>,
    res: TypeResolution,
    base: usize,
    count: u32,
    chain: Seq<SubAccess>,
)
    requires
        storable_res(types, res),
        res.spec_inner(types) == (TypeInner::Array { base, count }),
    ensures
        ({
            let stride = types[base as int].span as int;
            let elems = Seq::new(
                count as nat,
                |i: int|
                    load_text(
                        types,
                        ctx,
                        var,
                        TypeResolution::Handle(base),
                        chain.push(SubAccess::Offset(((i * stride) as u32))),
                    ),
            );
            &&& elems.len() == count
            &&& load_text(types, ctx, var, res, chain) == "{"@ + join_comma(elems) + "}"@
        }),
{
    if !(res is Handle) {
        assert(false);
    }
    let h = match res {
        TypeResolution::Handle(hh) => hh as int,
        TypeResolution::Value(_) => 0,
    };
    assert(storable_at(types, h));
    let stride = types[base as int].span;
    let pairs = array_pairs(base, count, stride);
    assert forall|j: int| 0 <= j < pairs.len() implies storable_res(
        types,
        (#[trigger] pairs[j]).0,
    ) && pair_lt(types, pairs[j].0, res_tm(res), res_rank(types, res)) by {
        assert((base as int) < h);
    }
    lemma_load_items_join(
        types,
        ctx,
        var,
        res_tm(res),
        res_rank(types, res),
        pairs,
        chain,
        count as int,
    );
    let f = |j: int|
        load_text(types, ctx, var, pairs[j].0, chain.push(SubAccess::Offset(pairs[j].1)));
    let elems = Seq::new(
        count as nat,
        |i: int|
            load_text(
                types,
                ctx,
                var,
                TypeResolution::Handle(base),
                chain.push(SubAccess::Offset(((i * types[base as int].span as int) as u32))),
            ),
    );
    assert(Seq::new(count as nat, f) =~= elems);
}

/// For a struct, a load emits exactly one element load per member, in
/// declaration order, each at the member's precomputed offset pushed onto
/// the chain — never at an offset computed from an index and a uniform
/// stride.
pub proof fn lemma_struct_load_members(
    types: Seq<Type>,
    ctx: FunctionCtx,
    var: Seq<char>,
    res: TypeResolution,
    members: Vec<StructMember>,
    chain: Seq<SubAccess>,
)
    requires
        storable_res(types, res),
        res.spec_inner(types) == (TypeInner::Struct { members }),
    ensures
        ({
            let elems = Seq::new(
                members@.len(),
                |i: int|
                    load_text(
                        types,
                        ctx,
                        var,
                        TypeResolution::Handle(members@[i].ty),
                        chain.push(SubAccess::Offset(members@[i].offset)),
                    ),
            );
            &&& elems.len() == members@.len()
            &&& load_text(types, ctx, var, res, chain) == "{"@ + join_comma(elems) + "}"@
        }),
{
    if !(res is Handle) {
        assert(false);
    }
    let h = match res {
        TypeResolution::Handle(hh) => hh as int,
        TypeResolution::Value(_) => 0,
    };
    assert(storable_at(types, h));
    let pairs = struct_pairs(members@);
    assert forall|j: int| 0 <= j < pairs.len() implies storable_res(
        types,
        (#[trigger] pairs[j]).0,
    ) && pair_lt(types, pairs[j].0, res_tm(res), res_rank(types, res)) by {
        assert((members@[j].ty as int) < h && storable_at(types, members@[j].ty as int));
    }
    lemma_load_items_join(
        types,
        ctx,
        var,
        res_tm(res),
        res_rank(types, res),
        pairs,
        chain,
        members@.len() as int,
    );
    let f = |j: int|
        load_text(types, ctx, var, pairs[j].0, chain.push(SubAccess::Offset(pairs[j].1)));
    let elems = Seq::new(
        members@.len(),
        |i: int|
            load_text(
                types,
                ctx,
                var,
                TypeResolution::Handle(members@[i].ty),
                chain.push(SubAccess::Offset(members@[i].offset)),
            ),
    );
    assert(Seq::new(members@.len(), f) =~= elems);
}

proof fn lemma_store_items_concat(
    types: Seq<Type>,
    ctx: FunctionCtx,
    var: Seq<char>,
    b1: int,
    b2: int,
    pairs: Seq<(StoreValue, u32)>,
    indent: int,
    chain: Seq<SubAccess>,
    i: int,
)
    requires
        0 <= i <= pairs.len(),
        forall|j: int| 0 <= j < pairs.len() ==> store_pair_ok(types, ctx, #[trigger] pairs[j], b1, b2),
    ensures
        store_items(types, ctx, var, b1, b2, pairs, indent, chain, i) == concat_texts(
            Seq::new(
                i as nat,
                |j: int|
                    store_text(
                        types,
                        ctx,
                        var,
                        pairs[j].0,
                        indent,
                        chain.push(SubAccess::Offset(pairs[j].1)),
                    ),
            ),
        ),
    decreases i,
{
    let f = |j: int|
        store_text(types, ctx, var, pairs[j].0, indent, chain.push(SubAccess::Offset(pairs[j].1)));
    if i > 0 {
        lemma_store_items_concat(types, ctx, var, b1, b2, pairs, indent, chain, i - 1);
        assert(Seq::new(i as nat, f).drop_last() =~= Seq::new((i - 1) as nat, f));
        assert(Seq::new(i as nat, f).last() == f(i - 1));
    } else {
        assert(Seq::new(0, f) =~= Seq::<Seq<char>>::empty());
    }
}

/// For a store of a fixed-size array of length `N` with element stride
/// `S`, the block holds exactly `N` element stores of the temporary's
/// elements, in index order, at offsets `0, S, 2S, ..., (N-1)S`.
pub proof fn lemma_array_store_elements(
    types: Seq<Type>,
    ctx: FunctionCtx,
    var: Seq<char>,
    value: StoreValue,
    base: usize,
    count: u32,
    indent: int,
    chain: Seq<SubAccess>,
)
    requires
        store_value_wf(types, ctx, value),
        storable_res(types, resolved_ty(types, ctx, value)),
        resolved_ty(types, ctx, value).spec_inner(types) == (TypeInner::Array { base, count }),
        0 <= indent,
        indent + 1 <= usize::MAX,
    ensures
        ({
            let res = resolved_ty(types, ctx, value);
            let stride = types[base as int].span as int;
            let elems = Seq::new(
                count as nat,
                |i: int|
                    store_text(
                        types,
                        ctx,
                        var,
                        StoreValue::TempIndex {
                            depth: (indent + 1) as usize,
                            index: i as u32,
                            ty: TypeResolution::Handle(base),
                        },
                        indent + 1,
                        chain.push(SubAccess::Offset(((i * stride) as u32))),
                    ),
            );
            &&& elems.len() == count
            &&& exists|head: Seq<char>, tail: Seq<char>|
                store_text(types, ctx, var, value, indent, chain) == head + concat_texts(elems)
                    + tail
        }),
{
    let res = resolved_ty(types, ctx, value);
    if !(res is Handle) {
        assert(false);
    }
    let h = match res {
        TypeResolution::Handle(hh) => hh as int,
        TypeResolution::Value(_) => 0,
    };
    assert(storable_at(types, h));
    let stride = types[base as int].span;
    let depth = (indent + 1) as usize;
    let pairs = array_store_pairs(depth, base, count, stride);
    assert forall|j: int| 0 <= j < pairs.len() implies store_pair_ok(
        types,
        ctx,
        #[trigger] pairs[j],
        res_tm(res),
        res_rank(types, res),
    ) by {
        assert((base as int) < h);
    }
    lemma_store_items_concat(
        types,
        ctx,
        var,
        res_tm(res),
        res_rank(types, res),
        pairs,
        indent + 1,
        chain,
        count as int,
    );
    let f = |j: int|
        store_text(
            types,
            ctx,
            var,
            pairs[j].0,
            indent + 1,
            chain.push(SubAccess::Offset(pairs[j].1)),
        );
    let elems = Seq::new(
        count as nat,
        |i: int|
            store_text(
                types,
                ctx,
                var,
                StoreValue::TempIndex {
                    depth: (indent + 1) as usize,
                    index: i as u32,
                    ty: TypeResolution::Handle(base),
                },
                indent + 1,
                chain.push(SubAccess::Offset(((i * types[base as int].span as int) as u32))),
            ),
    );
    assert(Seq::new(count as nat, f) =~= elems);
    let head = crate::text::indent_str(indent) + "{\n"@ + crate::text::indent_str(indent + 1)
        + types[base as int].name@ + " _value"@ + crate::text::dec_str(indent + 1) + "["@
        + crate::text::dec_str(count as int) + "]"@ + " = "@ + crate::storage::store_value_text(
        types,
        ctx,
        value,
    ) + ";\n"@;
    let tail = crate::text::indent_str(indent) + "}\n"@;
    assert(store_text(types, ctx, var, value, indent, chain) =~= head + concat_texts(elems) + tail);
}

/// For a store of a struct, the block holds exactly one member store per
/// member of the temporary, in declaration order, each at the member's
/// precomputed offset.
pub proof fn lemma_struct_store_members(
    types: Seq<Type>,
    ctx: FunctionCtx,
    var: Seq<char>,
    value: StoreValue,
    members: Vec<StructMember>,
    indent: int,
    chain: Seq<SubAccess>,
)
    requires
        store_value_wf(types, ctx, value),
        storable_res(types, resolved_ty(types, ctx, value)),
        resolved_ty(types, ctx, value).spec_inner(types) == (TypeInner::Struct { members }),
        0 <= indent,
        indent + 1 <= usize::MAX,
    ensures
        ({
            let res = resolved_ty(types, ctx, value);
            let h = crate::storage::res_handle(res);
            let elems = Seq::new(
                members@.len(),
                |i: int|
                    store_text(
                        types,
                        ctx,
                        var,
                        StoreValue::TempAccess {
                            depth: (indent + 1) as usize,
                            base: h,
                            member_index: i as u32,
                        },
                        indent + 1,
                        chain.push(SubAccess::Offset(members@[i].offset)),
                    ),
            );
            &&& elems.len() == members@.len()
            &&& exists|head: Seq<char>, tail: Seq<char>|
                store_text(types, ctx, var, value, indent, chain) == head + concat_texts(elems)
                    + tail
        }),
{
    let res = resolved_ty(types, ctx, value);
    if !(res is Handle) {
        assert(false);
    }
    let h = match res {
        TypeResolution::Handle(hh) => hh,
        TypeResolution::Value(_) => 0,
    };
    assert(storable_at(types, h as int));
    let depth = (indent + 1) as usize;
    let pairs = struct_store_pairs(depth, h, members@);
    assert forall|j: int| 0 <= j < pairs.len() implies store_pair_ok(
        types,
        ctx,
        #[trigger] pairs[j],
        res_tm(res),
        res_rank(types, res),
    ) by {
        assert((members@[j].ty as int) < h && storable_at(types, members@[j].ty as int));
    }
    lemma_store_items_concat(
        types,
        ctx,
        var,
        res_tm(res),
        res_rank(types, res),
        pairs,
        indent + 1,
        chain,
        members@.len() as int,
    );
    let f = |j: int|
        store_text(
            types,
            ctx,
            var,
            pairs[j].0,
            indent + 1,
            chain.push(SubAccess::Offset(pairs[j].1)),
        );
    let elems = Seq::new(
        members@.len(),
        |i: int|
            store_text(
                types,
                ctx,
                var,
                StoreValue::TempAccess {
                    depth: (indent + 1) as usize,
                    base: h,
                    member_index: i as u32,
                },
                indent + 1,
                chain.push(SubAccess::Offset(members@[i].offset)),
            ),
    );
    assert(Seq::new(members@.len(), f) =~= elems);
    let head = crate::text::indent_str(indent) + "{\n"@ + crate::text::indent_str(indent + 1)
        + crate::storage::struct_res_name(types, res) + " _value"@ + crate::text::dec_str(
        indent + 1,
    ) + " = "@ + crate::storage::store_value_text(types, ctx, value) + ";\n"@;
    let tail = crate::text::indent_str(indent) + "}\n"@;
    assert(store_text(types, ctx, var, value, indent, chain) =~= head + concat_texts(elems) + tail);
}

} // verus!
