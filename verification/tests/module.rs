use gtirb::{
    Addr, ByteIntervalData, CodeBlock, CodeBlockData, FileFormat, GraphError, IRData, Module,
    ModuleData, SectionData, Uuid,
};

#[test]
fn new_module_is_unique() {
    assert_ne!(ModuleData::new("a"), ModuleData::new("a"));
}

#[test]
fn new_module_is_empty() {
    let (mut ctx, ir) = IRData::new();
    let module = ir.add_module(&mut ctx, ModuleData::new("dummy")).unwrap();

    assert_eq!(module.symbols(&ctx).unwrap().len(), 0);
    assert_eq!(module.sections(&ctx).unwrap().len(), 0);
    assert_eq!(module.proxy_blocks(&ctx).unwrap().len(), 0);
}

#[test]
fn can_set_binary_path() {
    let (mut ctx, ir) = IRData::new();
    let path = "/home/gt/irb/foo";
    let module = ir.add_module(&mut ctx, ModuleData::new("dummy")).unwrap();
    module.set_binary_path(&mut ctx, path).unwrap();
    assert_eq!(module.binary_path(&ctx).unwrap(), path);
}

#[test]
fn can_get_file_format_default() {
    let (mut ctx, ir) = IRData::new();
    let module = ir.add_module(&mut ctx, ModuleData::new("dummy")).unwrap();
    assert_eq!(module.file_format(&ctx), Ok(FileFormat::FormatUndefined));
}

#[test]
fn can_set_file_format() {
    let (mut ctx, ir) = IRData::new();
    let module = ir.add_module(&mut ctx, ModuleData::new("dummy")).unwrap();
    module.set_file_format(&mut ctx, FileFormat::Coff).unwrap();
    assert_eq!(module.file_format(&ctx), Ok(FileFormat::Coff));

    module.set_file_format(&mut ctx, FileFormat::Macho).unwrap();
    assert_eq!(module.file_format(&ctx), Ok(FileFormat::Macho));
}

#[test]
fn can_set_name() {
    let (mut ctx, ir) = IRData::new();
    let module = ir.add_module(&mut ctx, ModuleData::new("dummy")).unwrap();
    module.set_name(&mut ctx, "example").unwrap();
    assert_eq!(module.name(&ctx).unwrap(), "example");
}

#[test]
fn can_relocate_module() {
    let (mut ctx, ir) = IRData::new();
    let module = ir.add_module(&mut ctx, ModuleData::new("dummy")).unwrap();
    assert!(!module.is_relocated(&ctx).unwrap());
    assert_eq!(module.rebase_delta(&ctx), Ok(0));

    module.set_rebase_delta(&mut ctx, 0x1000).unwrap();
    assert!(module.is_relocated(&ctx).unwrap());
    assert_eq!(module.rebase_delta(&ctx), Ok(0x1000));

    module.set_rebase_delta(&mut ctx, 0).unwrap();
    assert!(!module.is_relocated(&ctx).unwrap());
}

#[test]
fn can_add_new_section() {
    let (mut ctx, ir) = IRData::new();
    let module = ModuleData::new("dummy");
    let module = ir.add_module(&mut ctx, module).unwrap();
    assert_eq!(module.ir(&ctx), Ok(ir));
}

#[test]
fn can_remove_section() {
    let (mut ctx, ir) = IRData::new();
    let module = ir.add_module(&mut ctx, ModuleData::new("foo")).unwrap();
    let section = module.add_section(&mut ctx, SectionData::new("bar")).unwrap();
    module.remove_section(&mut ctx, section).unwrap();
    assert_eq!(module.sections(&ctx).unwrap().len(), 0);
}

#[test]
fn can_iterate_over_code_blocks() {
    let (mut ctx, ir) = IRData::new();
    let module = ir.add_module(&mut ctx, ModuleData::new("dummy")).unwrap();
    let section = module.add_section(&mut ctx, SectionData::new(".dummy")).unwrap();
    let b1 = section.add_byte_interval(&mut ctx, ByteIntervalData::new()).unwrap();
    let b2 = section.add_byte_interval(&mut ctx, ByteIntervalData::new()).unwrap();
    let cb1 = b1.add_code_block(&mut ctx, CodeBlockData::new()).unwrap();
    let cb2 = b2.add_code_block(&mut ctx, CodeBlockData::new()).unwrap();
    assert_eq!(
        module
            .code_blocks(&ctx)
            .unwrap()
            .iter()
            .map(|cb| cb.uuid(&ctx).unwrap())
            .collect::<Vec<Uuid>>(),
        vec![cb1.uuid(&ctx).unwrap(), cb2.uuid(&ctx).unwrap()]
    );
    assert_eq!(
        section
            .code_blocks(&ctx)
            .unwrap()
            .iter()
            .map(|cb| cb.uuid(&ctx).unwrap())
            .collect::<Vec<Uuid>>(),
        vec![cb1.uuid(&ctx).unwrap(), cb2.uuid(&ctx).unwrap()]
    );
}

#[test]
fn module_can_calculate_size() {
    let (mut ctx, ir) = IRData::new();
    let module = ir.add_module(&mut ctx, ModuleData::new("dummy")).unwrap();
    assert_eq!(module.size(&ctx), Ok(None));
    assert_eq!(module.address(&ctx), Ok(None));

    let text = module.add_section(&mut ctx, SectionData::new(".text")).unwrap();
    let bytes = text.add_byte_interval(&mut ctx, ByteIntervalData::new()).unwrap();
    bytes.set_address(&mut ctx, Some(Addr(200))).unwrap();
    bytes.set_size(&mut ctx, 100).unwrap();

    assert!(module.address(&ctx).unwrap().is_some());
    assert_eq!(module.size(&ctx), Ok(Some(100)));
    assert_eq!(module.address(&ctx), Ok(Some(Addr(200))));
    assert_eq!(text.size(&ctx), Ok(Some(100)));
    assert_eq!(text.address(&ctx), Ok(Some(Addr(200))));

    bytes.set_address(&mut ctx, Some(Addr(0))).unwrap();
    assert_eq!(module.address(&ctx), Ok(Some(Addr(0))));

    let data = module.add_section(&mut ctx, SectionData::new(".data")).unwrap();
    let bytes = data.add_byte_interval(&mut ctx, ByteIntervalData::new()).unwrap();
    bytes.set_address(&mut ctx, Some(Addr(300))).unwrap();
    bytes.set_size(&mut ctx, 100).unwrap();
    assert_eq!(module.size(&ctx), Ok(Some(400)));
    assert_eq!(module.address(&ctx), Ok(Some(Addr(0))));

    assert_eq!(module.byte_intervals(&ctx).unwrap().len(), 2);
}

#[test]
fn removing_a_section_removes_what_lies_below() {
    let (mut ctx, ir) = IRData::new();
    let module = ir.add_module(&mut ctx, ModuleData::new("m")).unwrap();
    let section = module.add_section(&mut ctx, SectionData::new(".text")).unwrap();
    let interval = section.add_byte_interval(&mut ctx, ByteIntervalData::new()).unwrap();
    let block = interval.add_code_block(&mut ctx, CodeBlockData::new()).unwrap();
    let uuids = vec![
        section.uuid(&ctx).unwrap(),
        interval.uuid(&ctx).unwrap(),
        block.uuid(&ctx).unwrap(),
    ];
    let module_uuid = module.uuid(&ctx).unwrap();

    module.remove_section(&mut ctx, section).unwrap();

    for uuid in uuids {
        assert_eq!(ctx.find(uuid), None);
    }
    assert!(!section.is_valid(&ctx));
    assert!(!interval.is_valid(&ctx));
    assert!(!block.is_valid(&ctx));
    assert_eq!(block.uuid(&ctx), Err(GraphError::StaleHandle));
    assert_eq!(interval.code_blocks(&ctx), Err(GraphError::StaleHandle));
    let found: Option<Module> = ir.find_node(&ctx, module_uuid).unwrap();
    assert_eq!(found, Some(module));
    assert_eq!(module.sections(&ctx), Ok(vec![]));
}

#[test]
fn add_then_remove_leaves_the_lists_as_they_were() {
    let (mut ctx, ir) = IRData::new();
    let module = ir.add_module(&mut ctx, ModuleData::new("m")).unwrap();
    let first = module.add_section(&mut ctx, SectionData::new("a")).unwrap();
    let second = module.add_section(&mut ctx, SectionData::new("b")).unwrap();
    let uuid = second.uuid(&ctx).unwrap();
    module.remove_section(&mut ctx, second).unwrap();
    assert_eq!(module.sections(&ctx), Ok(vec![first]));
    assert_eq!(ctx.find(uuid), None);
    assert_eq!(module.remove_section(&mut ctx, second), Err(GraphError::StaleHandle));
}

#[test]
fn removing_from_the_wrong_parent_is_refused() {
    let (mut ctx, ir) = IRData::new();
    let first = ir.add_module(&mut ctx, ModuleData::new("a")).unwrap();
    let second = ir.add_module(&mut ctx, ModuleData::new("b")).unwrap();
    let section = first.add_section(&mut ctx, SectionData::new("s")).unwrap();
    assert_eq!(second.remove_section(&mut ctx, section), Err(GraphError::WrongParent));
    assert_eq!(first.sections(&ctx), Ok(vec![section]));
    assert_eq!(section.parent(&ctx), Ok(first));
}

#[test]
fn entry_point_dangles_after_its_block_is_removed() {
    let (mut ctx, ir) = IRData::new();
    let module = ir.add_module(&mut ctx, ModuleData::new("m")).unwrap();
    let section = module.add_section(&mut ctx, SectionData::new(".text")).unwrap();
    let interval = section.add_byte_interval(&mut ctx, ByteIntervalData::new()).unwrap();
    let block = interval.add_code_block(&mut ctx, CodeBlockData::new()).unwrap();
    let uuid = block.uuid(&ctx).unwrap();
    assert_eq!(module.entry_point(&ctx), Ok(None));
    module.set_entry_point(&mut ctx, block).unwrap();
    assert_eq!(module.entry_point(&ctx), Ok(Some(block)));

    interval.remove_code_block(&mut ctx, block).unwrap();
    assert_eq!(module.entry_point_uuid(&ctx), Ok(Some(uuid)));
    let gone: Option<CodeBlock> = None;
    assert_eq!(module.entry_point(&ctx), Ok(gone));
    assert_eq!(module.set_entry_point(&mut ctx, block), Err(GraphError::StaleHandle));
}

#[test]
fn a_freed_slot_does_not_revive_an_old_handle() {
    let (mut ctx, ir) = IRData::new();
    let old = ir.add_module(&mut ctx, ModuleData::new("old")).unwrap();
    ir.remove_module(&mut ctx, old).unwrap();
    let new = ir.add_module(&mut ctx, ModuleData::new("new")).unwrap();
    assert_ne!(old, new);
    assert_eq!(old.name(&ctx), Err(GraphError::StaleHandle));
    assert_eq!(new.name(&ctx).unwrap(), "new");
}
