use gtirb::{
    decode, duplicate, encode, Addr, BlockMessage, ByteIntervalData, ByteIntervalMessage, ByteOrder,
    CodeBlockData, Context, DataBlockData, ExpressionMessage, FileFormat, GraphError, IRData,
    IrMessage, ModuleData, ModuleMessage, Payload, PayloadMessage, ProxyBlockData, SectionData,
    SectionFlag, SectionMessage, SymbolData, SymbolMessage, SymbolicExpression,
    SymbolicExpressionMessage, Uuid, IR, ISA,
};

fn bytes(n: u8) -> Vec<u8> {
    let mut out = vec![0u8; 16];
    out[15] = n;
    out
}

fn module_message(n: u8) -> ModuleMessage {
    ModuleMessage {
        uuid: bytes(n),
        binary_path: String::new(),
        preferred_addr: 0,
        rebase_delta: 0,
        file_format: 0,
        isa: 0,
        name: String::from("m"),
        symbols: vec![],
        proxies: vec![],
        sections: vec![],
        entry_point: vec![],
        byte_order: 0,
    }
}

fn sample() -> (Context, IR) {
    let (mut ctx, ir) = IRData::create(1000, 1);
    ir.set_version(&mut ctx, 3).unwrap();
    let module = ir.add_module(&mut ctx, ModuleData::with_uuid(2, "foo.exe")).unwrap();
    module.set_binary_path(&mut ctx, "/bin/foo").unwrap();
    module.set_file_format(&mut ctx, FileFormat::Elf).unwrap();
    module.set_isa(&mut ctx, ISA::X64).unwrap();
    module.set_byte_order(&mut ctx, ByteOrder::LittleEndian).unwrap();
    module.set_preferred_address(&mut ctx, Addr(0x400000)).unwrap();
    module.set_rebase_delta(&mut ctx, -16).unwrap();
    let text = module.add_section(&mut ctx, SectionData::with_uuid(3, ".text")).unwrap();
    text.add_flag(&mut ctx, SectionFlag::Executable).unwrap();
    text.add_flag(&mut ctx, SectionFlag::Readable).unwrap();
    let interval = text.add_byte_interval(&mut ctx, ByteIntervalData::with_uuid(4)).unwrap();
    interval.set_address(&mut ctx, Some(Addr(0x1000))).unwrap();
    interval.set_size(&mut ctx, 8).unwrap();
    interval.set_bytes(&mut ctx, &[0x90, 0xC3]).unwrap();
    interval
        .add_symbolic_expression(
            &mut ctx,
            4,
            SymbolicExpression::AddrAddr { scale: 2, offset: -4, symbol1: 10, symbol2: 11 },
        )
        .unwrap();
    interval
        .add_symbolic_expression(
            &mut ctx,
            1,
            SymbolicExpression::AddrConst { offset: 8, symbol: 10 },
        )
        .unwrap();
    let code = interval.add_code_block(&mut ctx, CodeBlockData::with_uuid(5)).unwrap();
    interval.add_data_block(&mut ctx, DataBlockData::with_uuid(6)).unwrap();
    let bare = text.add_byte_interval(&mut ctx, ByteIntervalData::with_uuid(7)).unwrap();
    bare.add_code_block(&mut ctx, CodeBlockData::with_uuid(8)).unwrap();
    module.add_section(&mut ctx, SectionData::with_uuid(9, ".data")).unwrap();
    let main = module.add_symbol(&mut ctx, SymbolData::with_uuid(10, "main")).unwrap();
    main.set_payload(&mut ctx, Some(Payload::Referent(5))).unwrap();
    let base = module.add_symbol(&mut ctx, SymbolData::with_uuid(11, "base")).unwrap();
    base.set_payload(&mut ctx, Some(Payload::Value(Addr(0x400000)))).unwrap();
    module.add_symbol(&mut ctx, SymbolData::with_uuid(12, "none")).unwrap();
    module.add_proxy_block(&mut ctx, ProxyBlockData::with_uuid(13)).unwrap();
    module.set_entry_point(&mut ctx, code).unwrap();
    ir.add_module(&mut ctx, ModuleData::with_uuid(14, "bar.so")).unwrap();
    (ctx, ir)
}

fn uuids<T, F: Fn(&T) -> Result<Uuid, GraphError>>(items: Vec<T>, uuid: F) -> Vec<Uuid> {
    items.iter().map(|item| uuid(item).unwrap()).collect()
}

#[test]
fn encode_writes_every_node() {
    let (ctx, ir) = sample();
    let message = encode(&ctx, &ir).unwrap();
    assert_eq!(message.uuid, bytes(1));
    assert_eq!(message.version, 3);
    assert_eq!(message.modules.len(), 2);
    let module = &message.modules[0];
    assert_eq!(module.uuid, bytes(2));
    assert_eq!(module.name, "foo.exe");
    assert_eq!(module.binary_path, "/bin/foo");
    assert_eq!(module.file_format, 2);
    assert_eq!(module.isa, 3);
    assert_eq!(module.byte_order, 2);
    assert_eq!(module.preferred_addr, 0x400000);
    assert_eq!(module.rebase_delta, -16);
    assert_eq!(module.entry_point, bytes(5));
    assert_eq!(module.proxies, vec![BlockMessage { uuid: bytes(13) }]);
    assert_eq!(
        module.symbols,
        vec![
            SymbolMessage {
                uuid: bytes(10),
                name: String::from("main"),
                payload: Some(PayloadMessage::Referent(bytes(5))),
            },
            SymbolMessage {
                uuid: bytes(11),
                name: String::from("base"),
                payload: Some(PayloadMessage::Value(0x400000)),
            },
            SymbolMessage { uuid: bytes(12), name: String::from("none"), payload: None },
        ]
    );
    assert_eq!(
        module.sections,
        vec![
            SectionMessage {
                uuid: bytes(3),
                name: String::from(".text"),
                section_flags: vec![1, 3],
                byte_intervals: vec![
                    ByteIntervalMessage {
                        uuid: bytes(4),
                        has_address: true,
                        address: 0x1000,
                        size: 8,
                        contents: vec![0x90, 0xC3],
                        symbolic_expressions: vec![
                            SymbolicExpressionMessage {
                                offset: 4,
                                expression: ExpressionMessage::AddrAddr {
                                    scale: 2,
                                    offset: -4,
                                    symbol1: bytes(10),
                                    symbol2: bytes(11),
                                },
                            },
                            SymbolicExpressionMessage {
                                offset: 1,
                                expression: ExpressionMessage::AddrConst {
                                    offset: 8,
                                    symbol: bytes(10),
                                },
                            },
                        ],
                        code_blocks: vec![BlockMessage { uuid: bytes(5) }],
                        data_blocks: vec![BlockMessage { uuid: bytes(6) }],
                    },
                    ByteIntervalMessage {
                        uuid: bytes(7),
                        has_address: false,
                        address: 0,
                        size: 0,
                        contents: vec![],
                        symbolic_expressions: vec![],
                        code_blocks: vec![BlockMessage { uuid: bytes(8) }],
                        data_blocks: vec![],
                    },
                ],
            },
            SectionMessage {
                uuid: bytes(9),
                name: String::from(".data"),
                section_flags: vec![],
                byte_intervals: vec![],
            },
        ]
    );
    assert_eq!(message.modules[1].entry_point, Vec::<u8>::new());
}

#[test]
fn decode_of_encode_gives_the_same_graph() {
    let (ctx, ir) = sample();
    let message = encode(&ctx, &ir).unwrap();
    let (copy, root) = decode(&message).unwrap();

    assert_eq!(encode(&copy, &root).unwrap(), message);
    assert_eq!(root.uuid(&copy), ir.uuid(&ctx));
    assert_eq!(root.version(&copy), Ok(3));

    let old_modules = ir.modules(&ctx).unwrap();
    let new_modules = root.modules(&copy).unwrap();
    assert_eq!(
        uuids(new_modules.clone(), |m| m.uuid(&copy)),
        uuids(old_modules.clone(), |m| m.uuid(&ctx))
    );
    let old = old_modules[0];
    let new = new_modules[0];
    assert_eq!(new.name(&copy), old.name(&ctx));
    assert_eq!(new.binary_path(&copy), old.binary_path(&ctx));
    assert_eq!(new.file_format(&copy), Ok(FileFormat::Elf));
    assert_eq!(new.isa(&copy), Ok(ISA::X64));
    assert_eq!(new.byte_order(&copy), Ok(ByteOrder::LittleEndian));
    assert_eq!(new.preferred_address(&copy), Ok(Addr(0x400000)));
    assert_eq!(new.rebase_delta(&copy), Ok(-16));
    assert_eq!(new.entry_point_uuid(&copy), Ok(Some(5)));
    assert_eq!(new.entry_point(&copy).unwrap().unwrap().uuid(&copy), Ok(5));
    assert_eq!(new.ir(&copy), Ok(root));

    assert_eq!(uuids(new.sections(&copy).unwrap(), |s| s.uuid(&copy)), vec![3, 9]);
    assert_eq!(uuids(new.symbols(&copy).unwrap(), |s| s.uuid(&copy)), vec![10, 11, 12]);
    assert_eq!(uuids(new.proxy_blocks(&copy).unwrap(), |s| s.uuid(&copy)), vec![13]);
    assert_eq!(uuids(new.byte_intervals(&copy).unwrap(), |s| s.uuid(&copy)), vec![4, 7]);
    assert_eq!(uuids(new.code_blocks(&copy).unwrap(), |s| s.uuid(&copy)), vec![5, 8]);
    assert_eq!(uuids(new.data_blocks(&copy).unwrap(), |s| s.uuid(&copy)), vec![6]);

    let text = new.sections(&copy).unwrap()[0];
    assert_eq!(text.name(&copy).unwrap(), ".text");
    assert_eq!(text.parent(&copy), Ok(new));
    assert_eq!(text.is_flag_set(&copy, SectionFlag::Executable), Ok(true));
    assert_eq!(text.is_flag_set(&copy, SectionFlag::Readable), Ok(true));
    assert_eq!(text.is_flag_set(&copy, SectionFlag::Writable), Ok(false));
    assert_eq!(text.address(&copy), Ok(None));
    let interval = text.byte_intervals(&copy).unwrap()[0];
    assert_eq!(interval.address(&copy), Ok(Some(Addr(0x1000))));
    assert_eq!(interval.size(&copy), Ok(8));
    assert_eq!(interval.bytes(&copy), Ok(vec![0x90, 0xC3]));
    assert_eq!(
        interval.symbolic_expression(&copy, 1),
        Ok(Some(SymbolicExpression::AddrConst { offset: 8, symbol: 10 }))
    );
    assert_eq!(
        interval.symbolic_expressions(&copy),
        Ok(vec![
            (4, SymbolicExpression::AddrAddr { scale: 2, offset: -4, symbol1: 10, symbol2: 11 }),
            (1, SymbolicExpression::AddrConst { offset: 8, symbol: 10 }),
        ])
    );
    let bare = text.byte_intervals(&copy).unwrap()[1];
    assert_eq!(bare.address(&copy), Ok(None));

    let symbols = new.symbols(&copy).unwrap();
    assert_eq!(symbols[0].name(&copy).unwrap(), "main");
    assert_eq!(symbols[0].payload(&copy), Ok(Some(Payload::Referent(5))));
    assert_eq!(symbols[1].payload(&copy), Ok(Some(Payload::Value(Addr(0x400000)))));
    assert_eq!(symbols[2].payload(&copy), Ok(None));

    for uuid in 1..=14u128 {
        assert_eq!(copy.find(uuid).is_some(), ctx.find(uuid).is_some());
        assert_eq!(copy.find(uuid).map(|n| n.kind), ctx.find(uuid).map(|n| n.kind));
    }
    assert_eq!(copy.find(15), None);
}

#[test]
fn decode_reads_the_bytes_of_an_identifier_most_significant_first() {
    let mut message = IrMessage { uuid: vec![0u8; 16], version: 1, modules: vec![] };
    message.uuid[0] = 0x12;
    message.uuid[15] = 0x34;
    let (ctx, ir) = decode(&message).unwrap();
    assert_eq!(ir.uuid(&ctx), Ok(0x1200_0000_0000_0000_0000_0000_0000_0034));
    assert_eq!(encode(&ctx, &ir).unwrap(), message);
}

#[test]
fn decode_refuses_an_identifier_of_the_wrong_length() {
    let message = IrMessage { uuid: vec![1, 2, 3], version: 1, modules: vec![] };
    assert_eq!(decode(&message).err(), Some(GraphError::InvalidUuid));

    let mut module = module_message(2);
    module.entry_point = vec![1];
    let message = IrMessage { uuid: bytes(1), version: 1, modules: vec![module] };
    assert_eq!(decode(&message).err(), Some(GraphError::InvalidUuid));

    let mut module = module_message(2);
    module.symbols.push(SymbolMessage {
        uuid: bytes(3),
        name: String::from("s"),
        payload: Some(PayloadMessage::Referent(vec![])),
    });
    let message = IrMessage { uuid: bytes(1), version: 1, modules: vec![module] };
    assert_eq!(decode(&message).err(), Some(GraphError::InvalidUuid));
}

#[test]
fn decode_refuses_a_symbolic_expression_with_a_short_identifier() {
    let mut module = module_message(2);
    module.sections.push(SectionMessage {
        uuid: bytes(3),
        name: String::from("s"),
        section_flags: vec![],
        byte_intervals: vec![ByteIntervalMessage {
            uuid: bytes(4),
            has_address: false,
            address: 0,
            size: 0,
            contents: vec![],
            symbolic_expressions: vec![SymbolicExpressionMessage {
                offset: 0,
                expression: ExpressionMessage::AddrConst { offset: 0, symbol: vec![1, 2] },
            }],
            code_blocks: vec![],
            data_blocks: vec![],
        }],
    });
    let message = IrMessage { uuid: bytes(1), version: 1, modules: vec![module] };
    assert_eq!(decode(&message).err(), Some(GraphError::InvalidUuid));
}

#[test]
fn decode_refuses_a_number_outside_an_enum() {
    let mut module = module_message(2);
    module.file_format = 9;
    let message = IrMessage { uuid: bytes(1), version: 1, modules: vec![module] };
    assert_eq!(decode(&message).err(), Some(GraphError::InvalidEnum));

    let mut module = module_message(2);
    module.isa = -1;
    let message = IrMessage { uuid: bytes(1), version: 1, modules: vec![module] };
    assert_eq!(decode(&message).err(), Some(GraphError::InvalidEnum));

    let mut module = module_message(2);
    module.sections.push(SectionMessage {
        uuid: bytes(3),
        name: String::from("s"),
        section_flags: vec![1, 7],
        byte_intervals: vec![],
    });
    let message = IrMessage { uuid: bytes(1), version: 1, modules: vec![module] };
    assert_eq!(decode(&message).err(), Some(GraphError::InvalidEnum));
}

#[test]
fn decode_refuses_an_identifier_that_occurs_twice() {
    let message = IrMessage {
        uuid: bytes(1),
        version: 1,
        modules: vec![module_message(2), module_message(2)],
    };
    assert_eq!(decode(&message).err(), Some(GraphError::DuplicateUuid));

    let message = IrMessage { uuid: bytes(1), version: 1, modules: vec![module_message(1)] };
    assert_eq!(decode(&message).err(), Some(GraphError::DuplicateUuid));

    let mut module = module_message(2);
    module.proxies.push(BlockMessage { uuid: bytes(2) });
    let message = IrMessage { uuid: bytes(1), version: 1, modules: vec![module] };
    assert_eq!(decode(&message).err(), Some(GraphError::DuplicateUuid));
}

#[test]
fn an_unreadable_message_is_refused_before_a_repeated_identifier() {
    let mut bad = module_message(3);
    bad.byte_order = 3;
    let message = IrMessage {
        uuid: bytes(1),
        version: 1,
        modules: vec![module_message(2), module_message(2), bad],
    };
    assert_eq!(decode(&message).err(), Some(GraphError::InvalidEnum));
}

#[test]
fn decode_reads_repeated_flags_once() {
    let mut module = module_message(2);
    module.sections.push(SectionMessage {
        uuid: bytes(3),
        name: String::from("s"),
        section_flags: vec![4, 2, 4],
        byte_intervals: vec![],
    });
    let message = IrMessage { uuid: bytes(1), version: 1, modules: vec![module] };
    let (ctx, ir) = decode(&message).unwrap();
    let section = ir.modules(&ctx).unwrap()[0].sections(&ctx).unwrap()[0];
    assert_eq!(section.flags(&ctx), Ok(vec![SectionFlag::Loaded, SectionFlag::Writable]));
    let again = encode(&ctx, &ir).unwrap();
    assert_eq!(again.modules[0].sections[0].section_flags, vec![2, 4]);
}

#[test]
fn encode_through_a_stale_handle_is_refused() {
    let (ctx, _) = sample();
    let (_, other) = IRData::new();
    assert_eq!(encode(&ctx, &other).err(), Some(GraphError::StaleHandle));
}

#[test]
fn duplicate_gives_an_equal_graph_in_another_context() {
    let (ctx, ir) = sample();
    let (copy, root) = duplicate(&ctx, &ir).unwrap();
    assert_ne!(copy.id(), ctx.id());
    assert_eq!(encode(&copy, &root).unwrap(), encode(&ctx, &ir).unwrap());
    assert_eq!(ir.uuid(&copy), Err(GraphError::StaleHandle));
    let (_, other) = IRData::new();
    assert_eq!(duplicate(&ctx, &other).err(), Some(GraphError::StaleHandle));
}
