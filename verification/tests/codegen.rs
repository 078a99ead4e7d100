use hlsl_storage::ir::{Expression, FunctionCtx, Module, ScalarKind, StructMember, Type,
    TypeInner, TypeResolution, VectorSize};
use hlsl_storage::storage::{Error, StoreValue, SubAccess, Writer};

fn scalar_ty(name: &str, kind: ScalarKind) -> Type {
    Type { name: String::from(name), span: 4, inner: TypeInner::Scalar { kind, width: 4 } }
}

fn vector_ty(name: &str, size: VectorSize, kind: ScalarKind, span: u32) -> Type {
    Type { name: String::from(name), span, inner: TypeInner::Vector { size, kind, width: 4 } }
}

/// A context with one expression: an opaque value expression with the given
/// rendered text, of the given resolved type.
fn value_ctx(text: &str, ty: TypeResolution) -> FunctionCtx {
    FunctionCtx {
        expressions: vec![Expression::Other],
        expr_types: vec![ty],
        expr_texts: vec![String::from(text)],
    }
}

fn buf_module(types: Vec<Type>) -> Module {
    Module { types, global_variables: vec![String::from("buf")] }
}

#[test]
fn scalar_store_at_member_offset() {
    // A 32-bit float value `v` stored at struct-member offset 16.
    let module = buf_module(vec![scalar_ty("float", ScalarKind::Float)]);
    let ctx = value_ctx("v", TypeResolution::Handle(0));
    let mut w = Writer::new();
    w.temp_access_chain.push(SubAccess::Offset(16));
    w.write_storage_store(&module, 0, &StoreValue::Expression(0), &ctx, 0);
    assert_eq!(w.out, "buf.Store(16, asuint(v));\n");
}

#[test]
fn matrix_load_three_rows() {
    // A 3-row-by-4-column float matrix loaded at offset 0.
    let module = buf_module(vec![Type {
        name: String::from("float3x4"),
        span: 48,
        inner: TypeInner::Matrix { columns: VectorSize::Quad, rows: VectorSize::Tri, width: 4 },
    }]);
    let ctx = value_ctx("v", TypeResolution::Handle(0));
    let mut w = Writer::new();
    w.write_storage_load(&module, 0, &TypeResolution::Handle(0), &ctx);
    assert_eq!(
        w.out,
        "transpose(float3x4(asfloat(buf.Load4(0)), asfloat(buf.Load4(16)), asfloat(buf.Load4(32))))"
    );
}

#[test]
fn struct_store_two_members() {
    // A struct with a float at offset 0 and a float2 at offset 16,
    // stored from expression `v`.
    let module = buf_module(vec![
        scalar_ty("float", ScalarKind::Float),
        vector_ty("float2", VectorSize::Bi, ScalarKind::Float, 8),
        Type {
            name: String::from("LightData"),
            span: 24,
            inner: TypeInner::Struct {
                members: vec![
                    StructMember { name: String::from("a"), ty: 0, offset: 0 },
                    StructMember { name: String::from("b"), ty: 1, offset: 16 },
                ],
            },
        },
    ]);
    let ctx = value_ctx("v", TypeResolution::Handle(2));
    let mut w = Writer::new();
    w.write_storage_store(&module, 0, &StoreValue::Expression(0), &ctx, 0);
    assert_eq!(
        w.out,
        "{\n    LightData _value1 = v;\n    buf.Store(0, asuint(_value1.a));\n    buf.Store2(16, asuint(_value1.b));\n}\n"
    );
}

#[test]
fn unsupported_chain_expression_fails_without_output() {
    // A chain containing an unrecognized pointer-producing node.
    let module = buf_module(vec![scalar_ty("float", ScalarKind::Float)]);
    let ctx = value_ctx("fptr", TypeResolution::Handle(0));
    let mut w = Writer::new();
    let r = w.fill_access_chain(&module, 0, &ctx);
    match r {
        Err(Error::Unsupported(message)) => {
            assert_eq!(message, "unsupported pointer chain expression: fptr");
        },
        Ok(_) => panic!("an unsupported chain must be rejected"),
    }
    assert_eq!(w.out, "");
}

#[test]
fn chain_of_depth_two_sums_two_terms() {
    // A dynamic index into an array member of a struct: the walk pushes one
    // step per access node and the address sums exactly those terms.
    let types = vec![
        scalar_ty("float", ScalarKind::Float),
        Type {
            name: String::from("S"),
            span: 32,
            inner: TypeInner::Struct {
                members: vec![
                    StructMember { name: String::from("x"), ty: 0, offset: 0 },
                    StructMember { name: String::from("arr"), ty: 0, offset: 16 },
                ],
            },
        },
        Type { name: String::from("ptr_float"), span: 4, inner: TypeInner::Pointer { base: 0 } },
    ];
    let module = Module { types, global_variables: vec![String::from("buf")] };
    let ctx = FunctionCtx {
        expressions: vec![
            Expression::GlobalVariable(0),
            Expression::AccessIndex { base: 0, index: 1 },
            Expression::Other,
            Expression::Access { base: 1, index: 2 },
        ],
        expr_types: vec![
            TypeResolution::Handle(1),
            TypeResolution::Handle(1),
            TypeResolution::Handle(0),
            TypeResolution::Handle(2),
        ],
        expr_texts: vec![
            String::from("buf"),
            String::from("buf.arr"),
            String::from("i"),
            String::from("buf.arr[i]"),
        ],
    };
    let mut w = Writer::new();
    let root = w.fill_access_chain(&module, 3, &ctx).unwrap();
    assert_eq!(root, 0);
    assert_eq!(w.temp_access_chain.len(), 2);
    w.write_storage_address(&ctx);
    assert_eq!(w.out, "i*4+16");
}

#[test]
fn array_load_elements_at_strided_offsets() {
    // An array of 3 floats with stride 4 loads elements at 0, 4, 8.
    let module = buf_module(vec![
        scalar_ty("float", ScalarKind::Float),
        Type { name: String::from("float"), span: 12, inner: TypeInner::Array { base: 0, count: 3 } },
    ]);
    let ctx = value_ctx("v", TypeResolution::Handle(1));
    let mut w = Writer::new();
    w.write_storage_load(&module, 0, &TypeResolution::Handle(1), &ctx);
    assert_eq!(
        w.out,
        "{asfloat(buf.Load(0)), asfloat(buf.Load(4)), asfloat(buf.Load(8))}"
    );
}

#[test]
fn matrix_store_transposes_once_and_stores_rows() {
    // A 2x2 float matrix store assigns the transpose to a temporary and
    // stores both rows; the matching load transposes again, so the two
    // corrections cancel.
    let module = buf_module(vec![Type {
        name: String::from("float2x2"),
        span: 16,
        inner: TypeInner::Matrix { columns: VectorSize::Bi, rows: VectorSize::Bi, width: 4 },
    }]);
    let ctx = value_ctx("m", TypeResolution::Handle(0));
    let mut w = Writer::new();
    w.write_storage_store(&module, 0, &StoreValue::Expression(0), &ctx, 0);
    assert_eq!(
        w.out,
        "{\n    float2x2 _value1 = transpose(m);\n    buf.Store2(0, asuint(_value1[0]));\n    buf.Store2(8, asuint(_value1[1]));\n}\n"
    );
    let mut r = Writer::new();
    r.write_storage_load(&module, 0, &TypeResolution::Handle(0), &ctx);
    assert_eq!(r.out, "transpose(float2x2(asfloat(buf.Load2(0)), asfloat(buf.Load2(8))))");
}

#[test]
fn array_store_declares_temporary_with_size() {
    // An array of 2 float2 values: the temporary carries the element type
    // name and an array-size suffix, and the elements store at 0 and 8.
    let module = buf_module(vec![
        vector_ty("float2", VectorSize::Bi, ScalarKind::Float, 8),
        Type { name: String::from("float2"), span: 16, inner: TypeInner::Array { base: 0, count: 2 } },
    ]);
    let ctx = value_ctx("v", TypeResolution::Handle(1));
    let mut w = Writer::new();
    w.write_storage_store(&module, 0, &StoreValue::Expression(0), &ctx, 0);
    assert_eq!(
        w.out,
        "{\n    float2 _value1[2] = v;\n    buf.Store2(0, asuint(_value1[0]));\n    buf.Store2(8, asuint(_value1[1]));\n}\n"
    );
}

#[test]
fn nested_struct_store_nests_blocks_and_depth_names() {
    // A struct wrapping a matrix: the inner store opens its own block, the
    // temporaries are named by recursion depth, and the member offset joins
    // the row offsets as summed terms.
    let module = buf_module(vec![
        Type {
            name: String::from("float2x2"),
            span: 16,
            inner: TypeInner::Matrix { columns: VectorSize::Bi, rows: VectorSize::Bi, width: 4 },
        },
        Type {
            name: String::from("Wrap"),
            span: 16,
            inner: TypeInner::Struct {
                members: vec![StructMember { name: String::from("m"), ty: 0, offset: 0 }],
            },
        },
    ]);
    let ctx = value_ctx("w", TypeResolution::Handle(1));
    let mut w = Writer::new();
    w.write_storage_store(&module, 0, &StoreValue::Expression(0), &ctx, 0);
    assert_eq!(
        w.out,
        "{\n    Wrap _value1 = w;\n    {\n        float2x2 _value2 = transpose(_value1.m);\n        buf.Store2(0+0, asuint(_value2[0]));\n        buf.Store2(0+8, asuint(_value2[1]));\n    }\n}\n"
    );
}

#[test]
fn vector_load_uses_kind_cast_and_width() {
    let module = buf_module(vec![vector_ty("int3", VectorSize::Tri, ScalarKind::Sint, 12)]);
    let ctx = value_ctx("v", TypeResolution::Handle(0));
    let mut w = Writer::new();
    w.temp_access_chain.push(SubAccess::Offset(4));
    w.write_storage_load(&module, 0, &TypeResolution::Handle(0), &ctx);
    assert_eq!(w.out, "asint(buf.Load3(4))");
}

#[test]
fn scalar_load_renders_large_offset() {
    let module = buf_module(vec![scalar_ty("uint", ScalarKind::Uint)]);
    let ctx = value_ctx("v", TypeResolution::Handle(0));
    let mut w = Writer::new();
    w.temp_access_chain.push(SubAccess::Offset(4294967295));
    w.write_storage_load(&module, 0, &TypeResolution::Handle(0), &ctx);
    assert_eq!(w.out, "asuint(buf.Load(4294967295))");
}

#[test]
fn store_honors_caller_indentation() {
    let module = buf_module(vec![scalar_ty("float", ScalarKind::Float)]);
    let ctx = value_ctx("v", TypeResolution::Handle(0));
    let mut w = Writer::new();
    w.temp_access_chain.push(SubAccess::Offset(0));
    w.write_storage_store(&module, 0, &StoreValue::Expression(0), &ctx, 2);
    assert_eq!(w.out, "        buf.Store(0, asuint(v));\n");
}

#[test]
fn fill_then_load_reads_through_member_offset() {
    // Resolving a member pointer and loading through it: the chain built by
    // the resolver addresses the load.
    let types = vec![
        scalar_ty("float", ScalarKind::Float),
        Type {
            name: String::from("S"),
            span: 20,
            inner: TypeInner::Struct {
                members: vec![
                    StructMember { name: String::from("x"), ty: 0, offset: 0 },
                    StructMember { name: String::from("y"), ty: 0, offset: 16 },
                ],
            },
        },
    ];
    let module = Module { types, global_variables: vec![String::from("buf")] };
    let ctx = FunctionCtx {
        expressions: vec![
            Expression::GlobalVariable(0),
            Expression::AccessIndex { base: 0, index: 1 },
        ],
        expr_types: vec![TypeResolution::Handle(1), TypeResolution::Handle(0)],
        expr_texts: vec![String::from("buf"), String::from("buf.y")],
    };
    let mut w = Writer::new();
    let root = w.fill_access_chain(&module, 1, &ctx).unwrap();
    w.write_storage_load(&module, root, &TypeResolution::Handle(0), &ctx);
    assert_eq!(w.out, "asfloat(buf.Load(16))");
}

#[test]
fn fill_resets_a_previous_chain() {
    let module = buf_module(vec![scalar_ty("float", ScalarKind::Float)]);
    let ctx = FunctionCtx {
        expressions: vec![Expression::GlobalVariable(0)],
        expr_types: vec![TypeResolution::Handle(0)],
        expr_texts: vec![String::from("buf")],
    };
    let mut w = Writer::new();
    w.temp_access_chain.push(SubAccess::Offset(8));
    w.temp_access_chain.push(SubAccess::Offset(12));
    let root = w.fill_access_chain(&module, 0, &ctx).unwrap();
    assert_eq!(root, 0);
    assert_eq!(w.temp_access_chain.len(), 0);
}

#[test]
fn dynamic_index_term_keeps_created_stride() {
    // The stride of a dynamic step is fixed from the pointee when the step
    // is created; a value pointer contributes component-count times width.
    let types = vec![
        vector_ty("float3", VectorSize::Tri, ScalarKind::Float, 12),
    ];
    let module = Module { types, global_variables: vec![String::from("buf")] };
    let ctx = FunctionCtx {
        expressions: vec![
            Expression::GlobalVariable(0),
            Expression::Other,
            Expression::Access { base: 0, index: 1 },
        ],
        expr_types: vec![
            TypeResolution::Handle(0),
            TypeResolution::Handle(0),
            TypeResolution::Value(TypeInner::ValuePointer { size: Some(VectorSize::Tri), width: 4 }),
        ],
        expr_texts: vec![String::from("buf"), String::from("k"), String::from("buf[k]")],
    };
    let mut w = Writer::new();
    let root = w.fill_access_chain(&module, 2, &ctx).unwrap();
    assert_eq!(root, 0);
    w.write_storage_address(&ctx);
    assert_eq!(w.out, "k*12");
}

#[test]
fn array_of_structs_reuses_depth_named_temporaries() {
    // Sibling recursive stores at the same depth are never simultaneously in
    // scope: both nested blocks name their temporary by the shared depth.
    let module = buf_module(vec![
        scalar_ty("float", ScalarKind::Float),
        Type {
            name: String::from("P"),
            span: 4,
            inner: TypeInner::Struct {
                members: vec![StructMember { name: String::from("a"), ty: 0, offset: 0 }],
            },
        },
        Type { name: String::from("P"), span: 8, inner: TypeInner::Array { base: 1, count: 2 } },
    ]);
    let ctx = value_ctx("v", TypeResolution::Handle(2));
    let mut w = Writer::new();
    w.write_storage_store(&module, 0, &StoreValue::Expression(0), &ctx, 0);
    assert_eq!(
        w.out,
        "{\n    P _value1[2] = v;\n    {\n        P _value2 = _value1[0];\n        buf.Store(0+0, asuint(_value2.a));\n    }\n    {\n        P _value2 = _value1[1];\n        buf.Store(4+0, asuint(_value2.a));\n    }\n}\n"
    );
}

#[test]
fn double_matrix_uses_double_constructor_and_wider_rows() {
    let module = buf_module(vec![Type {
        name: String::from("double2x2"),
        span: 32,
        inner: TypeInner::Matrix { columns: VectorSize::Bi, rows: VectorSize::Bi, width: 8 },
    }]);
    let ctx = value_ctx("v", TypeResolution::Handle(0));
    let mut w = Writer::new();
    w.write_storage_load(&module, 0, &TypeResolution::Handle(0), &ctx);
    assert_eq!(
        w.out,
        "transpose(double2x2(asfloat(buf.Load2(0)), asfloat(buf.Load2(16))))"
    );
}

#[test]
fn vector_store_writes_width_tagged_primitive() {
    let module = buf_module(vec![vector_ty("uint3", VectorSize::Tri, ScalarKind::Uint, 12)]);
    let ctx = value_ctx("v", TypeResolution::Handle(0));
    let mut w = Writer::new();
    w.temp_access_chain.push(SubAccess::Offset(12));
    w.write_storage_store(&module, 0, &StoreValue::Expression(0), &ctx, 0);
    assert_eq!(w.out, "buf.Store3(12, asuint(v));\n");
}
