use irbuild::attr::AttributeIndex;
use irbuild::cc::CallConv;
use irbuild::context::Context;
use irbuild::err::IrError;
use irbuild::link::Linkage;
use irbuild::target::{ByteOrdering, OptLevel, Target, TargetMachine};
use irbuild::types::{create_named_struct, ty_i, ty_i32, ty_i64, ty_void};

#[test]
fn type_identity_roundtrip() {
    let mut ctx = Context::create(1);
    let t = ty_i32(&ctx);
    let c = t.const_int(&mut ctx, 42);
    assert_eq!(c.ty(&ctx).unwrap(), t);
    // a factory returns the same handle on every call
    assert_eq!(ty_i32(&ctx), ty_i32(&ctx));
    assert_eq!(ty_i(&mut ctx, 32), t);
    let w = ty_i(&mut ctx, 17);
    assert_eq!(ty_i(&mut ctx, 17), w);
    assert_eq!(w.const_int(&mut ctx, 5).ty(&ctx).unwrap(), w);
}

#[test]
fn struct_body_set_once() {
    let mut ctx = Context::create(1);
    let s = create_named_struct(&mut ctx, "pair").unwrap();
    assert_eq!(s.field_count(&ctx), Err(IrError::OpaqueType));
    let a = ty_i32(&ctx);
    let b = ty_i64(&ctx);
    assert_eq!(s.struct_set_body(&mut ctx, vec![a, b], false), Ok(()));
    assert_eq!(s.field_count(&ctx), Ok(2));
    assert_eq!(s.field_at(&ctx, 0), Ok(a));
    assert_eq!(s.field_at(&ctx, 1), Ok(b));
    assert_eq!(
        s.struct_set_body(&mut ctx, vec![a], true),
        Err(IrError::BodyAlreadySet)
    );
    // the body it has is still the first one
    assert_eq!(s.field_count(&ctx), Ok(2));
}

fn build_add_module(ctx: &mut Context) -> irbuild::module::Module {
    let m = ctx.create_module("m").unwrap();
    let i32t = ty_i32(ctx);
    let fnty = i32t.function(ctx, vec![i32t, i32t], false);
    let f = m.add_function(ctx, "add", fnty).unwrap();
    let entry = f.append_basic_block(ctx, "entry").unwrap();
    let mut b = ctx.create_builder();
    b.position_at_end(ctx, entry).unwrap();
    let p0 = f.param(ctx, 0).unwrap();
    let p1 = f.param(ctx, 1).unwrap();
    let sum = b.build_int_add(ctx, p0, p1).unwrap();
    let tmp = sum.name(ctx, "tmp").unwrap();
    b.build_ret(ctx, tmp).unwrap();
    m
}

#[test]
fn scenario_add_function_renders() {
    let mut ctx = Context::create(1);
    let m = build_add_module(&mut ctx);
    let text = m.to_text(&ctx).unwrap();
    assert!(text.contains("module m"));
    assert!(text.contains("define @add"));
    assert!(text.contains("entry:"));
    // exactly one block holding exactly the two instructions, in order
    assert_eq!(text.matches(':').count(), 1);
    let body: Vec<&str> = text.lines().filter(|l| l.starts_with("  ")).collect();
    assert_eq!(body, vec!["  add", "  ret"]);
}

#[test]
fn render_is_deterministic() {
    let mut ctx1 = Context::create(1);
    let m1 = build_add_module(&mut ctx1);
    let t1 = m1.to_text(&ctx1).unwrap();
    let t1again = m1.to_text(&ctx1).unwrap();
    assert_eq!(t1, t1again);
    // an identically built module renders identically
    let mut ctx2 = Context::create(2);
    let m2 = build_add_module(&mut ctx2);
    let t2 = m2.to_text(&ctx2).unwrap();
    assert_eq!(t1, t2);
}

#[test]
fn phi_with_empty_incoming_fails_fast() {
    let mut ctx = Context::create(1);
    let m = ctx.create_module("m").unwrap();
    let vt = ty_void(&ctx);
    let fnty = vt.function(&mut ctx, vec![], false);
    let f = m.add_function(&mut ctx, "f", fnty).unwrap();
    let entry = f.append_basic_block(&mut ctx, "entry").unwrap();
    let mut b = ctx.create_builder();
    b.position_at_end(&ctx, entry).unwrap();
    assert_eq!(b.build_phi(&mut ctx, vec![]), Err(IrError::EmptyPhi));
}

#[test]
fn emitting_without_position_fails_fast() {
    let mut ctx = Context::create(1);
    let t = ty_i32(&ctx);
    let one = t.const_int(&mut ctx, 1);
    let mut b = ctx.create_builder();
    assert_eq!(b.build_int_add(&mut ctx, one, one), Err(IrError::NoPosition));
}

#[test]
fn functions_iterate_in_declaration_order() {
    let mut ctx = Context::create(1);
    let m = ctx.create_module("m").unwrap();
    let mut it = m.functions(&ctx).unwrap();
    assert!(it.next(&ctx).is_none());
    let vt = ty_void(&ctx);
    let fnty = vt.function(&mut ctx, vec![], false);
    let f1 = m.add_function(&mut ctx, "one", fnty).unwrap();
    let f2 = m.add_function(&mut ctx, "two", fnty).unwrap();
    let f3 = m.add_function(&mut ctx, "three", fnty).unwrap();
    let mut it = m.functions(&ctx).unwrap();
    let all = it.collect(&ctx);
    assert_eq!(all, vec![f1, f2, f3]);
    assert!(it.next(&ctx).is_none());
}

#[test]
fn deleted_function_handle_is_stale() {
    let mut ctx = Context::create(1);
    let m = ctx.create_module("m").unwrap();
    let vt = ty_void(&ctx);
    let fnty = vt.function(&mut ctx, vec![], false);
    let f = m.add_function(&mut ctx, "gone", fnty).unwrap();
    let p = f.params(&ctx).unwrap();
    let _ = p;
    assert_eq!(f.delete_function(&mut ctx), Ok(()));
    assert_eq!(f.append_basic_block(&mut ctx, "entry"), Err(IrError::Stale));
    assert_eq!(f.ty(&ctx), Err(IrError::Stale));
    assert_eq!(f.get_name(&ctx), Err(IrError::Stale));
    assert_eq!(f.delete_function(&mut ctx), Err(IrError::Stale));
    // the module no longer lists it
    assert_eq!(m.get_function(&ctx, "gone"), Ok(None));
    let mut it = m.functions(&ctx).unwrap();
    assert!(it.next(&ctx).is_none());
}

#[test]
fn duplicate_global_name_returns_existing() {
    let mut ctx = Context::create(1);
    let m = ctx.create_module("m").unwrap();
    let t = ty_i32(&ctx);
    let g1 = m.add_global(&mut ctx, "g", t).unwrap();
    let g2 = m.add_global(&mut ctx, "g", t).unwrap();
    assert_eq!(g1, g2);
    assert_eq!(m.get_global(&ctx, "g").unwrap(), Some(g1));
    let mut it = m.globals(&ctx).unwrap();
    assert_eq!(it.next(&ctx), Some(g1));
    assert!(it.next(&ctx).is_none());
}

#[test]
fn cross_context_handles_are_rejected() {
    let mut ctx1 = Context::create(1);
    let mut ctx2 = Context::create(2);
    let m2 = ctx2.create_module("m").unwrap();
    let t1 = ty_i32(&ctx1);
    let one = t1.const_int(&mut ctx1, 1);
    assert_eq!(
        m2.add_global(&mut ctx1, "g", t1),
        Err(IrError::CrossContext)
    );
    assert_eq!(one.ty(&ctx2), Err(IrError::CrossContext));
}

#[test]
fn nul_in_names_is_rejected() {
    let mut ctx = Context::create(1);
    assert_eq!(ctx.create_module("a\0b").unwrap_err(), IrError::InvalidName);
    let m = ctx.create_module("m").unwrap();
    let t = ty_i32(&ctx);
    assert_eq!(
        m.add_global(&mut ctx, "g\0", t).unwrap_err(),
        IrError::InvalidName
    );
}

#[test]
fn struct_init_folds_inserts_in_order() {
    let mut ctx = Context::create(1);
    let m = ctx.create_module("m").unwrap();
    let i32t = ty_i32(&ctx);
    let st = irbuild::types::ty_struct(&mut ctx, vec![i32t, i32t], false);
    let fnty = st.function(&mut ctx, vec![], false);
    let f = m.add_function(&mut ctx, "mk", fnty).unwrap();
    let entry = f.append_basic_block(&mut ctx, "entry").unwrap();
    let mut b = ctx.create_builder();
    b.position_at_end(&ctx, entry).unwrap();
    let x = i32t.const_int(&mut ctx, 7);
    let y = i32t.const_int(&mut ctx, 9);
    let agg = b.build_struct_init(&mut ctx, st, vec![x, y]).unwrap();
    assert_eq!(agg.ty(&ctx).unwrap(), st);
    assert_eq!(
        agg.get_name(&ctx).unwrap(),
        Some(String::from("insert_1"))
    );
    b.build_ret(&mut ctx, agg).unwrap();
    let text = m.to_text(&ctx).unwrap();
    let body: Vec<&str> = text.lines().filter(|l| l.starts_with("  ")).collect();
    assert_eq!(body, vec!["  insertvalue", "  insertvalue", "  ret"]);
}

#[test]
fn memory_helpers_emit_in_call_order() {
    let mut ctx = Context::create(1);
    let m = ctx.create_module("m").unwrap();
    let i32t = ty_i32(&ctx);
    let fnty = i32t.function(&mut ctx, vec![], false);
    let f = m.add_function(&mut ctx, "mem", fnty).unwrap();
    let entry = f.append_basic_block(&mut ctx, "entry").unwrap();
    let mut b = ctx.create_builder();
    b.position_at_end(&ctx, entry).unwrap();
    let v = i32t.const_int(&mut ctx, 3);
    let p = b.build_malloc_store(&mut ctx, v).unwrap();
    let loaded = b.build_load_free(&mut ctx, p).unwrap();
    assert_eq!(loaded.ty(&ctx).unwrap(), i32t);
    b.build_ret(&mut ctx, loaded).unwrap();
    let text = m.to_text(&ctx).unwrap();
    let body: Vec<&str> = text.lines().filter(|l| l.starts_with("  ")).collect();
    assert_eq!(body, vec!["  malloc", "  store", "  load", "  free", "  ret"]);
}

#[test]
fn deleted_block_is_stale() {
    let mut ctx = Context::create(1);
    let m = ctx.create_module("m").unwrap();
    let vt = ty_void(&ctx);
    let fnty = vt.function(&mut ctx, vec![], false);
    let f = m.add_function(&mut ctx, "f", fnty).unwrap();
    let bb = f.append_basic_block(&mut ctx, "entry").unwrap();
    assert_eq!(bb.delete(&mut ctx), Ok(()));
    assert_eq!(bb.get_name(&ctx), Err(IrError::Stale));
    let mut b = ctx.create_builder();
    assert_eq!(b.position_at_end(&ctx, bb), Err(IrError::Stale));
}

#[test]
fn targets_resolve_from_triples() {
    let t = Target::from_triple(String::from("x86_64-unknown-linux-gnu")).unwrap();
    assert_eq!(t.byte_order, ByteOrdering::LittleEndian);
    assert_eq!(t.ptr_bytes, 8);
    assert_eq!(t.name(), String::from("x86_64"));
    let t2 = Target::from_triple(String::from("mips-unknown-linux-gnu")).unwrap();
    assert_eq!(t2.byte_order, ByteOrdering::BigEndian);
    assert_eq!(t2.ptr_bytes, 4);
    assert!(Target::from_triple(String::from("m68k-unknown-none")).is_err());
    let m = TargetMachine::new(String::from("wasm32-unknown-unknown")).unwrap();
    assert_eq!(m.level, OptLevel::Standard);
    let dl = m.data_layout();
    assert_eq!(dl.size_of_ptr(), 4);
    assert_eq!(dl.bit_size_of_ptr(), 32);
}

#[test]
fn numeric_codes_match_the_documented_table() {
    assert_eq!(CallConv::C.inner(), 0);
    assert_eq!(CallConv::Fast.inner(), 8);
    assert_eq!(CallConv::X86Fastcall.inner(), 65);
    assert_eq!(Linkage::External.inner(), 0);
    assert_eq!(Linkage::Common.inner(), 14);
    assert_eq!(AttributeIndex::Return.inner(), 0);
    assert_eq!(AttributeIndex::Parameter(2).inner(), 3);
    assert_eq!(AttributeIndex::Function.inner(), u32::MAX);
    assert_eq!(OptLevel::NoOpt.inner(), 0);
    assert_eq!(OptLevel::Aggressive.inner(), 3);
    assert_eq!(irbuild::target::FileType::Assembly.inner(), 0);
    assert_eq!(irbuild::target::FileType::Object.inner(), 1);
}

#[test]
fn string_constants_carry_the_array_type() {
    let mut ctx = Context::create(1);
    let s = irbuild::context::const_string(&mut ctx, "hi", true);
    let i8t = irbuild::types::ty_i8(&ctx);
    let expected = irbuild::types::ty_array(&mut ctx, i8t, 3);
    assert_eq!(s.ty(&ctx).unwrap(), expected);
    let bare = irbuild::context::const_string(&mut ctx, "hi", false);
    let expected2 = irbuild::types::ty_array(&mut ctx, i8t, 2);
    assert_eq!(bare.ty(&ctx).unwrap(), expected2);
}

#[test]
fn anonymous_struct_constants_take_the_fields_types() {
    let mut ctx = Context::create(1);
    let i32t = ty_i32(&ctx);
    let i64t = ty_i64(&ctx);
    let a = i32t.const_int(&mut ctx, 1);
    let b = i64t.const_int(&mut ctx, 2);
    let v = irbuild::context::const_struct(&mut ctx, vec![a, b], false);
    let expected = irbuild::types::ty_struct(&mut ctx, vec![i32t, i64t], false);
    assert_eq!(v.ty(&ctx).unwrap(), expected);
}

#[test]
fn global_strings_declare_private_constants() {
    let mut ctx = Context::create(1);
    let m = build_add_module(&mut ctx);
    let f = m.get_function(&ctx, "add").unwrap().unwrap();
    let entry = {
        let mut it = f.blocks(&ctx).unwrap();
        it.next(&ctx).unwrap()
    };
    let mut b = ctx.create_builder();
    b.position_at_end(&ctx, entry).unwrap();
    let g = b.build_global_string(&mut ctx, "greeting", "hello").unwrap();
    assert_eq!(m.get_global(&ctx, "greeting").unwrap(), Some(g));
    assert_eq!(g.get_name(&ctx).unwrap().as_deref(), Some("greeting"));
    let p = b.build_global_string_ptr(&mut ctx, "farewell", "bye").unwrap();
    let i8t = irbuild::types::ty_i8(&ctx);
    let expected = i8t.pointer(&mut ctx);
    assert_eq!(p.ty(&ctx).unwrap(), expected);
    assert!(m.get_global(&ctx, "farewell").unwrap().is_some());
    // a NUL in the name is rejected before anything is created
    assert_eq!(b.build_global_string(&mut ctx, "b\0ad", "x"), Err(IrError::InvalidName));
}

#[test]
fn field_queries_report_each_error() {
    let mut ctx = Context::create(1);
    let i32t = ty_i32(&ctx);
    assert_eq!(i32t.field_at(&ctx, 0), Err(IrError::NotAStruct));
    let named = create_named_struct(&mut ctx, "pair").unwrap();
    assert_eq!(named.field_at(&ctx, 0), Err(IrError::OpaqueType));
    named.struct_set_body(&mut ctx, vec![i32t, i32t], false).unwrap();
    assert_eq!(named.field_at(&ctx, 1).unwrap(), i32t);
    assert_eq!(named.field_at(&ctx, 2), Err(IrError::BadIndex));
}

#[test]
fn positioning_reports_each_error() {
    let mut ctx = Context::create(1);
    let m = build_add_module(&mut ctx);
    let f = m.get_function(&ctx, "add").unwrap().unwrap();
    let entry = {
        let mut it = f.blocks(&ctx).unwrap();
        it.next(&ctx).unwrap()
    };
    let i32t = ty_i32(&ctx);
    let c = i32t.const_int(&mut ctx, 7);
    let mut b = ctx.create_builder();
    // a constant is not an instruction
    assert_eq!(b.position_before(&ctx, c), Err(IrError::NotAnInstruction));
    // a value that is no instruction of the block is not a position in it
    assert_eq!(b.position_in_block(&ctx, entry, c), Err(IrError::BadIndex));
    // a parameter position past the signature is out of range
    assert_eq!(f.param(&ctx, 2), Err(IrError::BadIndex));
    assert!(b.position_at_end(&ctx, entry).is_ok());
}

#[test]
fn setters_keep_the_other_global_fields() {
    let mut ctx = Context::create(1);
    let m = ctx.create_module("m").unwrap();
    let i32t = ty_i32(&ctx);
    let g = m.add_global(&mut ctx, "g", i32t).unwrap();
    let init = i32t.const_int(&mut ctx, 5);
    g.set_global_initializer(&mut ctx, init).unwrap();
    g.set_linkage(&mut ctx, Linkage::Internal).unwrap();
    g.set_global_const(&mut ctx, true).unwrap();
    g.set_unnamed_addr(&mut ctx, true).unwrap();
    // the name and the declaration survive every setter
    assert_eq!(g.get_name(&ctx).unwrap().as_deref(), Some("g"));
    assert_eq!(m.get_global(&ctx, "g").unwrap(), Some(g));
}

#[test]
fn dispose_is_idempotent() {
    let mut ctx = Context::create(1);
    let _ = ctx.create_module("m").unwrap();
    ctx.dispose();
    ctx.dispose();
}
