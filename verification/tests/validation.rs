use std::rc::Rc;

use front_end::file::identifier::{GlobalIdentifier, Identifier, Namespace};
use front_end::file::source_file::SourceFile;
use front_end::validation::data_type::{DataType, PrimitiveType};
use front_end::validation::error::CompilerError;
use front_end::validation::function_context::FunctionContext;
use front_end::validation::module::Module;
use front_end::validation::registry::functions::FunctionPrototype;
use front_end::validation::registry::variable::VariableInfo;
use front_end::validation::registry::ModuleRegistry;

#[test]
fn module() {
    let _module = Module::new();
}

#[test]
fn registry_refuses_a_second_module_of_the_same_name() {
    let mut registry = ModuleRegistry::create_global();
    assert!(registry.register_sub_module("a".into()).is_ok());
    assert!(registry.register_sub_module("b".into()).is_ok());
    match registry.register_sub_module("a".into()) {
        Err(CompilerError::DuplicateNamespace(namespace)) => {
            assert_eq!(namespace, Namespace { chain: vec!["main".into(), "a".into()] });
        }
        other => panic!("expected a duplicate namespace, got {:?}", other),
    }
    assert!(registry.register_sub_module("c".into()).is_ok());
}

#[test]
fn a_refused_registration_changes_nothing() {
    let mut registry = ModuleRegistry::create_global();
    assert!(registry.register_sub_module("a".into()).is_ok());
    let before = format!("{:?}", registry);
    assert!(registry.register_sub_module("a".into()).is_err());
    assert_eq!(format!("{:?}", registry), before);
    assert!(registry.register_sub_module("b".into()).is_ok());
    let after = format!("{:?}", registry);
    assert_ne!(after, before);
    assert_eq!(registry, ModuleRegistry::create_global());
}

#[test]
fn registry_qualifies_names_with_its_path() {
    let registry = ModuleRegistry::create_global();
    assert_eq!(
        registry.create_identifier("f".into()),
        GlobalIdentifier(Namespace::global(), Identifier::from("f"))
    );
    assert!(matches!(registry.get_function_by_identifier("f".into(), vec![]), Ok(None)));
}

#[test]
fn files_register_under_their_module_names() {
    let mut module = Module::new();
    let a = SourceFile::new("fun a() {}").rc();
    let b = Rc::new(SourceFile { module_name: "other".into(), source: String::new() });
    assert!(module.process_modules(&[(Rc::clone(&b), vec![])]).is_ok());
    // `a` is named `<main>`, which is new; `b` is there already.
    match module.process_modules(&[(a, vec![]), (b, vec![])]) {
        Err(CompilerError::DuplicateNamespace(namespace)) => {
            assert_eq!(namespace, Namespace { chain: vec!["main".into(), "other".into()] });
        }
        other => panic!("expected a duplicate namespace, got {:?}", other),
    }
}

#[test]
fn primitive_types_by_name() {
    assert_eq!(PrimitiveType::try_from("u32"), Ok(PrimitiveType::U32));
    assert_eq!(PrimitiveType::try_from("u64"), Ok(PrimitiveType::U64));
    assert_eq!(PrimitiveType::try_from("usize"), Ok(PrimitiveType::Usize));
    assert_eq!(PrimitiveType::try_from("i32"), Ok(PrimitiveType::I32));
    assert_eq!(PrimitiveType::try_from("i64"), Ok(PrimitiveType::I64));
    assert_eq!(PrimitiveType::try_from("f32"), Ok(PrimitiveType::F32));
    assert_eq!(PrimitiveType::try_from("f64"), Ok(PrimitiveType::F64));
    assert_eq!(PrimitiveType::try_from("char"), Ok(PrimitiveType::Char));
    assert_eq!(PrimitiveType::try_from("I32"), Err(()));
    assert_eq!(PrimitiveType::try_from(""), Err(()));
}

#[test]
fn functions_are_told_apart_by_name_and_argument_types() {
    let argument = |name: &str, ty: PrimitiveType| VariableInfo {
        name: name.into(),
        data_type: DataType::Primitive(ty),
        mutable: false,
    };
    let f = |name: &str, arguments: Vec<VariableInfo>, returns: Option<DataType>| {
        FunctionPrototype {
            name: GlobalIdentifier(Namespace::global(), name.into()),
            arguments,
            returns,
        }
    };
    let base = f("f", vec![argument("x", PrimitiveType::I32)], None);
    assert!(base == f("f", vec![argument("y", PrimitiveType::I32)], Some(DataType::Structure())));
    assert!(base != f("g", vec![argument("x", PrimitiveType::I32)], None));
    assert!(base != f("f", vec![argument("x", PrimitiveType::I64)], None));
    assert!(base != f("f", vec![], None));
    assert!(base == base.clone());
    let pointer = DataType::Pointer(Box::new(DataType::Primitive(PrimitiveType::Char)));
    assert!(pointer.same_as(&pointer.clone()));
    assert!(!pointer.same_as(&DataType::Primitive(PrimitiveType::Char)));
}

fn local(name: &str, ty: PrimitiveType, mutable: bool) -> VariableInfo {
    VariableInfo { name: name.into(), data_type: DataType::Primitive(ty), mutable }
}

#[test]
fn locals_are_found_innermost_and_latest_first() {
    let mut context = FunctionContext::new(Rc::new(ModuleRegistry::create_global()));
    assert!(context.get_local(&"a".into()).is_none());
    context.push_scope();
    context.declare_as(local("a", PrimitiveType::I32, false), 1);
    context.declare_as(local("b", PrimitiveType::I64, false), 2);
    context.declare_as(local("a", PrimitiveType::F32, true), 3);
    assert_eq!(context.get_local(&"a".into()), Some((3, &local("a", PrimitiveType::F32, true))));
    assert_eq!(context.get_local(&"b".into()), Some((2, &local("b", PrimitiveType::I64, false))));
    assert!(context.get_local(&"c".into()).is_none());
    context.push_scope();
    assert_eq!(context.get_local(&"b".into()).map(|found| found.0), Some(2));
    context.declare_as(local("b", PrimitiveType::Char, false), 4);
    assert_eq!(context.get_local(&"b".into()).map(|found| found.0), Some(4));
    assert_eq!(context.get_local(&"a".into()).map(|found| found.0), Some(3));
    context.pop_scope();
    assert_eq!(context.get_local(&"b".into()).map(|found| found.0), Some(2));
    assert_eq!(context.get_locals_table().len(), 4);
    assert_eq!(context.get_locals_table().get(&4), Some(&local("b", PrimitiveType::Char, false)));
    context.pop_scope();
    assert!(context.get_local(&"a".into()).is_none());
    assert_eq!(context.get_locals_table().len(), 4);
}

#[test]
fn a_declaration_under_a_used_identifier_replaces_the_variable() {
    let mut context = FunctionContext::new(Rc::new(ModuleRegistry::create_global()));
    context.push_scope();
    context.declare_as(local("a", PrimitiveType::I32, false), 7);
    context.declare_as(local("b", PrimitiveType::I64, false), 7);
    assert_eq!(context.get_locals_table().len(), 1);
    assert_eq!(context.get_local(&"a".into()), Some((7, &local("b", PrimitiveType::I64, false))));
}

#[test]
fn declarations_get_fresh_random_identifiers() {
    let mut context = FunctionContext::new(Rc::new(ModuleRegistry::create_global()));
    context.push_scope();
    let a = context.declare_variable(local("a", PrimitiveType::I32, false)).unwrap();
    let b = context.declare_variable(local("b", PrimitiveType::I32, true)).unwrap();
    assert_ne!(a, b);
    for id in [a, b] {
        assert_eq!((id >> 76) & 0xf, 4);
        assert_eq!((id >> 62) & 0x3, 2);
    }
    assert_eq!(context.get_local(&"a".into()), Some((a, &local("a", PrimitiveType::I32, false))));
    assert_eq!(context.get_local(&"b".into()), Some((b, &local("b", PrimitiveType::I32, true))));
    assert_eq!(context.get_locals_table().len(), 2);
}

#[test]
fn compiler_errors_know_their_place() {
    let file = SourceFile::new("import a").rc();
    let unknown = CompilerError::UnknownNamespace(Namespace { chain: vec!["a".into()] }, file.trace(7..8));
    assert_eq!(unknown.trace(), Some(&file.trace(7..8)));
    let duplicate = CompilerError::DuplicateNamespace(Namespace::global());
    assert_eq!(duplicate.trace(), None);
}
