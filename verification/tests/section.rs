use gtirb::{Addr, ByteIntervalData, GraphError, IRData, ModuleData, SectionData, SectionFlag};

#[test]
fn section_can_set_attributes() {
    let (mut ctx, ir) = IRData::new();
    let module = ir.add_module(&mut ctx, ModuleData::new("dummy")).unwrap();
    let section = module.add_section(&mut ctx, SectionData::new(".text")).unwrap();
    assert_eq!(section.name(&ctx).unwrap(), ".text");

    section.set_name(&mut ctx, ".data").unwrap();
    assert_eq!(section.name(&ctx).unwrap(), ".data");
}

#[test]
fn can_set_flags() {
    let (mut ctx, ir) = IRData::new();
    let module = ir.add_module(&mut ctx, ModuleData::new("dummy")).unwrap();
    let section = module.add_section(&mut ctx, SectionData::new(".text")).unwrap();
    assert_eq!(section.name(&ctx).unwrap(), ".text");

    assert!(section.flags(&ctx).unwrap().is_empty());
    section.add_flag(&mut ctx, SectionFlag::Readable).unwrap();
    section.add_flag(&mut ctx, SectionFlag::Writable).unwrap();
    assert!(section.is_flag_set(&ctx, SectionFlag::Readable).unwrap());
    assert!(section.is_flag_set(&ctx, SectionFlag::Writable).unwrap());

    section.remove_flag(&mut ctx, SectionFlag::Writable).unwrap();
    assert!(!section.is_flag_set(&ctx, SectionFlag::Writable).unwrap());
}

#[test]
fn a_flag_is_held_once() {
    let (mut ctx, ir) = IRData::new();
    let module = ir.add_module(&mut ctx, ModuleData::new("dummy")).unwrap();
    let section = module.add_section(&mut ctx, SectionData::new(".text")).unwrap();
    section.add_flag(&mut ctx, SectionFlag::Loaded).unwrap();
    section.add_flag(&mut ctx, SectionFlag::Loaded).unwrap();
    assert_eq!(section.flags(&ctx), Ok(vec![SectionFlag::Loaded]));
    section.remove_flag(&mut ctx, SectionFlag::Executable).unwrap();
    assert_eq!(section.flags(&ctx), Ok(vec![SectionFlag::Loaded]));
}

#[test]
fn section_can_calculate_size() {
    let (mut ctx, ir) = IRData::new();
    let module = ir.add_module(&mut ctx, ModuleData::new("dummy")).unwrap();

    let section = module.add_section(&mut ctx, SectionData::new(".text")).unwrap();
    assert_eq!(section.size(&ctx), Ok(None));
    assert_eq!(section.address(&ctx), Ok(None));

    let byte_interval = section.add_byte_interval(&mut ctx, ByteIntervalData::new()).unwrap();
    byte_interval.set_address(&mut ctx, Some(Addr(5))).unwrap();
    byte_interval.set_size(&mut ctx, 10).unwrap();
    assert_eq!(section.size(&ctx), Ok(Some(10)));
    assert_eq!(section.address(&ctx), Ok(Some(Addr(5))));

    let byte_interval = section.add_byte_interval(&mut ctx, ByteIntervalData::new()).unwrap();
    byte_interval.set_address(&mut ctx, Some(Addr(15))).unwrap();
    byte_interval.set_size(&mut ctx, 10).unwrap();
    assert_eq!(section.size(&ctx), Ok(Some(20)));
    assert_eq!(section.address(&ctx), Ok(Some(Addr(5))));

    section.add_byte_interval(&mut ctx, ByteIntervalData::new()).unwrap();
    assert_eq!(section.size(&ctx), Ok(None));
    assert_eq!(section.address(&ctx), Ok(None));
}

#[test]
fn removing_the_only_child_leaves_an_empty_list() {
    let (mut ctx, ir) = IRData::new();
    let module = ir.add_module(&mut ctx, ModuleData::new("dummy")).unwrap();
    let section = module.add_section(&mut ctx, SectionData::new(".text")).unwrap();
    let interval = section.add_byte_interval(&mut ctx, ByteIntervalData::new()).unwrap();
    section.remove_byte_interval(&mut ctx, interval).unwrap();
    assert_eq!(section.byte_intervals(&ctx), Ok(vec![]));
    assert_eq!(interval.size(&ctx), Err(GraphError::StaleHandle));
}
