use gtirb::{
    Addr, ByteIntervalData, DataBlockData, IRData, ModuleData, SectionData, Symbol, SymbolData,
    SymbolicExpression,
};

#[test]
fn byte_interval_can_set_attributes() {
    let (mut ctx, ir) = IRData::new();
    let module = ir.add_module(&mut ctx, ModuleData::new("dummy")).unwrap();
    let section = module.add_section(&mut ctx, SectionData::new(".dummy")).unwrap();
    let interval = section.add_byte_interval(&mut ctx, ByteIntervalData::new()).unwrap();
    interval.set_size(&mut ctx, 0xDEAD).unwrap();
    interval.set_address(&mut ctx, Some(Addr(0xBEEF))).unwrap();
    assert_eq!(interval.size(&ctx), Ok(0xDEAD));
    assert_eq!(interval.address(&ctx), Ok(Some(Addr(0xBEEF))));
}

#[test]
fn initialized_size_grows_the_size_and_never_shrinks_it() {
    let (mut ctx, ir) = IRData::new();
    let module = ir.add_module(&mut ctx, ModuleData::new("dummy")).unwrap();
    let section = module.add_section(&mut ctx, SectionData::new(".dummy")).unwrap();
    let interval = section.add_byte_interval(&mut ctx, ByteIntervalData::new()).unwrap();
    interval.set_bytes(&mut ctx, &[1, 2, 3]).unwrap();
    interval.set_size(&mut ctx, 4).unwrap();
    assert_eq!(interval.initialized_size(&ctx), Ok(3));

    interval.set_initialized_size(&mut ctx, 6).unwrap();
    assert_eq!(interval.size(&ctx), Ok(6));
    assert_eq!(interval.bytes(&ctx), Ok(vec![1, 2, 3, 0, 0, 0]));

    interval.set_initialized_size(&mut ctx, 2).unwrap();
    assert_eq!(interval.size(&ctx), Ok(6));
    assert_eq!(interval.bytes(&ctx), Ok(vec![1, 2]));
    assert_eq!(interval.initialized_size(&ctx), Ok(2));
}

#[test]
fn data_blocks_come_in_the_order_of_their_adding() {
    let (mut ctx, ir) = IRData::new();
    let module = ir.add_module(&mut ctx, ModuleData::new("dummy")).unwrap();
    let section = module.add_section(&mut ctx, SectionData::new(".data")).unwrap();
    let first = section.add_byte_interval(&mut ctx, ByteIntervalData::new()).unwrap();
    let second = section.add_byte_interval(&mut ctx, ByteIntervalData::new()).unwrap();
    let a = second.add_data_block(&mut ctx, DataBlockData::new()).unwrap();
    let b = first.add_data_block(&mut ctx, DataBlockData::new()).unwrap();
    let c = first.add_data_block(&mut ctx, DataBlockData::new()).unwrap();
    assert_eq!(first.data_blocks(&ctx), Ok(vec![b, c]));
    assert_eq!(module.data_blocks(&ctx), Ok(vec![b, c, a]));
    assert_eq!(section.data_blocks(&ctx), Ok(vec![b, c, a]));
    assert_eq!(a.parent(&ctx), Ok(second));
    first.remove_data_block(&mut ctx, b).unwrap();
    assert_eq!(module.data_blocks(&ctx), Ok(vec![c, a]));
}

#[test]
fn symbolic_expressions_are_kept_by_their_offsets() {
    let (mut ctx, ir) = IRData::new();
    let module = ir.add_module(&mut ctx, ModuleData::new("dummy")).unwrap();
    let section = module.add_section(&mut ctx, SectionData::new(".text")).unwrap();
    let interval = section.add_byte_interval(&mut ctx, ByteIntervalData::new()).unwrap();
    let symbol = module.add_symbol(&mut ctx, SymbolData::new("f")).unwrap();
    let uuid = symbol.uuid(&ctx).unwrap();
    let first = SymbolicExpression::AddrConst { offset: 0, symbol: uuid };
    let second = SymbolicExpression::AddrConst { offset: 16, symbol: uuid };
    assert_eq!(interval.symbolic_expression(&ctx, 8), Ok(None));
    interval.add_symbolic_expression(&mut ctx, 8, first).unwrap();
    interval.add_symbolic_expression(&mut ctx, 2, first).unwrap();
    assert_eq!(interval.symbolic_expression(&ctx, 8), Ok(Some(first)));
    interval.add_symbolic_expression(&mut ctx, 8, second).unwrap();
    assert_eq!(interval.symbolic_expression(&ctx, 8), Ok(Some(second)));
    assert_eq!(interval.symbolic_expressions(&ctx), Ok(vec![(2, first), (8, second)]));
    interval.remove_symbolic_expression(&mut ctx, 2).unwrap();
    interval.remove_symbolic_expression(&mut ctx, 3).unwrap();
    assert_eq!(interval.symbolic_expressions(&ctx), Ok(vec![(8, second)]));

    let named: Option<Symbol> = ir.find_node(&ctx, uuid).unwrap();
    assert_eq!(named, Some(symbol));
    module.remove_symbol(&mut ctx, symbol).unwrap();
    assert_eq!(interval.symbolic_expression(&ctx, 8), Ok(Some(second)));
    let gone: Option<Symbol> = ir.find_node(&ctx, uuid).unwrap();
    assert_eq!(gone, None);
}
