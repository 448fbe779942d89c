use gtirb::{Addr, GraphError, IRData, Module, ModuleData, NodeData, Section, IR};

#[test]
fn can_create_new_ir() {
    let (ctx, ir) = IRData::new();
    assert_eq!(ir.version(&ctx), Ok(1));
    assert_eq!(ir.modules(&ctx).unwrap().len(), 0);
}

#[test]
fn new_ir_is_unique() {
    let (_, first) = IRData::new();
    let (_, second) = IRData::new();
    assert_ne!(first, second);
}

#[test]
fn new_irs_have_distinct_uuids() {
    let (first_ctx, first) = IRData::new();
    let (second_ctx, second) = IRData::new();
    assert_ne!(first.uuid(&first_ctx).unwrap(), second.uuid(&second_ctx).unwrap());
}

#[test]
fn can_set_version() {
    let (mut ctx, ir) = IRData::new();
    ir.set_version(&mut ctx, 42).unwrap();
    assert_eq!(ir.version(&ctx), Ok(42));
}

#[test]
fn can_add_new_module() {
    let (mut ctx, ir) = IRData::new();
    let module = ModuleData::new("dummy");
    ir.add_module(&mut ctx, module).unwrap();
    let module = ir.modules(&ctx).unwrap().get(0).copied();
    assert!(module.is_some());
    assert_eq!(module.unwrap().ir(&ctx), Ok(ir));
}

#[test]
fn can_remove_module() {
    let (mut ctx, ir) = IRData::new();
    let module = ModuleData::new("dummy");
    let module = ir.add_module(&mut ctx, module).unwrap();
    let uuid = module.uuid(&ctx).unwrap();

    ir.remove_module(&mut ctx, module).unwrap();
    assert_eq!(ir.modules(&ctx).unwrap().len(), 0);

    let node: Option<Module> = ir.find_node(&ctx, uuid).unwrap();
    assert!(node.is_none());
}

#[test]
fn can_find_node_by_uuid() {
    let (mut ctx, ir) = IRData::new();
    let module = ModuleData::new("dummy");
    let uuid = module.uuid();
    ir.add_module(&mut ctx, module).unwrap();
    let node: Option<Module> = ir.find_node(&ctx, uuid).unwrap();
    assert!(node.is_some());
    assert_eq!(Ok(uuid), node.unwrap().uuid(&ctx));
}

#[test]
fn can_modify_modules() {
    let (mut ctx, ir) = IRData::new();
    ir.add_module(&mut ctx, ModuleData::new("foo")).unwrap();
    ir.add_module(&mut ctx, ModuleData::new("bar")).unwrap();
    for module in ir.modules(&ctx).unwrap() {
        module.set_preferred_address(&mut ctx, Addr(1)).unwrap();
    }
    assert!(ir
        .modules(&ctx)
        .unwrap()
        .iter()
        .all(|m| m.preferred_address(&ctx) == Ok(1.into())));
}

#[test]
fn module_is_found_under_its_name_and_ir() {
    let (mut ctx, ir) = IRData::new();
    let module = ir.add_module(&mut ctx, ModuleData::new("foo.exe")).unwrap();
    assert_eq!(module.name(&ctx).unwrap(), "foo.exe");
    assert_eq!(module.ir(&ctx), Ok(ir));
    assert_eq!(ir.modules(&ctx).unwrap(), vec![module]);
}

#[test]
fn find_node_of_another_kind_is_absent() {
    let (mut ctx, ir) = IRData::new();
    let module = ir.add_module(&mut ctx, ModuleData::new("m")).unwrap();
    let uuid = module.uuid(&ctx).unwrap();
    let as_section: Option<Section> = ir.find_node(&ctx, uuid).unwrap();
    assert!(as_section.is_none());
    let as_ir: Option<IR> = ir.find_node(&ctx, ir.uuid(&ctx).unwrap()).unwrap();
    assert_eq!(as_ir, Some(ir));
}

#[test]
fn handle_of_another_context_is_stale() {
    let (mut first, ir) = IRData::new();
    let (second, _) = IRData::new();
    let module = ir.add_module(&mut first, ModuleData::new("m")).unwrap();
    assert_eq!(ir.version(&second), Err(GraphError::StaleHandle));
    assert_eq!(module.name(&second), Err(GraphError::StaleHandle));
}

#[test]
fn duplicate_uuid_is_refused() {
    let (mut ctx, ir) = IRData::new();
    let first = ir.add_module(&mut ctx, ModuleData::with_uuid(7, "a")).unwrap();
    assert_eq!(
        ir.add_module(&mut ctx, ModuleData::with_uuid(7, "b")),
        Err(GraphError::DuplicateUuid)
    );
    assert_eq!(ir.modules(&ctx).unwrap(), vec![first]);
    let second = ir.add_module(&mut ctx, ModuleData::with_uuid(8, "b")).unwrap();
    assert_eq!(second.set_uuid(&mut ctx, 7), Err(GraphError::DuplicateUuid));
    assert_eq!(second.set_uuid(&mut ctx, 8), Ok(()));
    assert_eq!(second.set_uuid(&mut ctx, 9), Ok(()));
    assert_eq!(second.uuid(&ctx), Ok(9));
    let found: Option<Module> = ir.find_node(&ctx, 9).unwrap();
    assert_eq!(found, Some(second));
    let gone: Option<Module> = ir.find_node(&ctx, 8).unwrap();
    assert_eq!(gone, None);
}
