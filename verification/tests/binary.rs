use penguin::binary::codec::{peng_binary_decode, peng_binary_encode, peng_binary_validate_file};
use penguin::binary::format::{
    PengBinaryBindedCell, PengBinaryBytecode, PengBinaryCell, PengBinaryEntryKind, PengBinaryFile,
    PengBinaryGlobal, PengBinaryHeapId, PengBinaryHeapValue, PengBinaryOpcode, PengBinaryRef,
    PengBinaryType, PengBinaryValue,
};
use penguin::binary::header::{PengBinaryEndian, PengBinaryHeader, PENG_BINARY_MAGIC};
use penguin::error::PengError;
use penguin::function::PengBytecodeFunctionParams;
use penguin::position::PengPosition;

fn sample_file() -> PengBinaryFile {
    let code = PengBinaryBytecode {
        bytecode: vec![
            PengBinaryOpcode::PushConst(0),
            PengBinaryOpcode::PushHeap(PengBinaryRef::Heap(PengBinaryHeapId(0))),
            PengBinaryOpcode::GetAttribute("name".to_string()),
            PengBinaryOpcode::JumpIfFalse(4),
            PengBinaryOpcode::Return,
        ],
        positions: vec![
            PengPosition::new(0, 1, Some(1)),
            PengPosition::new(0, 1, Some(5)),
            PengPosition::new(0, 2, None),
            PengPosition::new(0, 3, Some(2)),
            PengPosition::new(0, 4, Some(1)),
        ],
        consts: vec![PengBinaryValue::Cell(PengBinaryCell::Uint(7))],
        using_values: vec![PengBinaryRef::External("io".to_string())],
    };
    PengBinaryFile {
        header: PengBinaryHeader::new(),
        entry_kind: PengBinaryEntryKind::Program,
        heap: vec![
            PengBinaryHeapValue {
                id: PengBinaryHeapId(0),
                value: PengBinaryValue::Cell(PengBinaryCell::Int(-5)),
            },
            PengBinaryHeapValue {
                id: PengBinaryHeapId(1),
                value: PengBinaryValue::Function { code, params: PengBytecodeFunctionParams::Fixed(1) },
            },
            PengBinaryHeapValue {
                id: PengBinaryHeapId(2),
                value: PengBinaryValue::Vector(vec![
                    PengBinaryBindedCell::Mutable(PengBinaryCell::Bool(true)),
                    PengBinaryBindedCell::Immutable(PengBinaryCell::Float64(0x4000_0000_0000_0000)),
                ]),
            },
            PengBinaryHeapValue {
                id: PengBinaryHeapId(3),
                value: PengBinaryValue::Type(PengBinaryType::Vector(Box::new(PengBinaryType::String))),
            },
            PengBinaryHeapValue {
                id: PengBinaryHeapId(4),
                value: PengBinaryValue::String("héllo".to_string()),
            },
        ],
        globals: vec![PengBinaryGlobal {
            name: "main".to_string(),
            mutable: false,
            value: PengBinaryRef::Heap(PengBinaryHeapId(1)),
        }],
        init: Some(PengBinaryRef::Heap(PengBinaryHeapId(1))),
    }
}

#[test]
fn encode_starts_with_magic_and_version() {
    let bytes = peng_binary_encode(&sample_file()).unwrap();
    assert_eq!(&bytes[0..4], &PENG_BINARY_MAGIC);
    assert_eq!(&bytes[0..4], b"peng");
    assert_eq!(bytes[4], 1);
    assert_eq!(bytes[5], 0);
    // little endian tag, then four zero flag bytes, then the program tag
    assert_eq!(bytes[7], 0);
    assert_eq!(&bytes[8..12], &[0, 0, 0, 0]);
    assert_eq!(bytes[12], 0);
    // the heap holds five values
    assert_eq!(&bytes[13..21], &[5, 0, 0, 0, 0, 0, 0, 0]);
}

#[test]
fn decode_gives_back_what_encode_wrote() {
    let file = sample_file();
    let bytes = peng_binary_encode(&file).unwrap();
    let decoded = peng_binary_decode(&bytes).unwrap();
    assert_eq!(decoded.heap.len(), 5);
    assert_eq!(decoded.globals.len(), 1);
    assert_eq!(decoded.globals[0].name, "main");
    assert!(!decoded.globals[0].mutable);
    assert!(matches!(decoded.init, Some(PengBinaryRef::Heap(PengBinaryHeapId(1)))));
    assert!(matches!(decoded.heap[0].value, PengBinaryValue::Cell(PengBinaryCell::Int(-5))));
    match &decoded.heap[1].value {
        PengBinaryValue::Function { code, params } => {
            assert!(matches!(params, PengBytecodeFunctionParams::Fixed(1)));
            assert_eq!(code.bytecode.len(), 5);
            assert_eq!(code.positions.len(), 5);
            assert_eq!(code.positions[2].column, None);
            assert!(matches!(&code.bytecode[2], PengBinaryOpcode::GetAttribute(s) if s == "name"));
        }
        _ => panic!("expected a function"),
    }
    match &decoded.heap[4].value {
        PengBinaryValue::String(s) => assert_eq!(s, "héllo"),
        _ => panic!("expected a string"),
    }
    let again = peng_binary_encode(&decoded).unwrap();
    assert_eq!(again, bytes);
}

#[test]
fn decode_refuses_truncated_bytes() {
    let bytes = peng_binary_encode(&sample_file()).unwrap();
    for cut in [0usize, 3, 7, 13, 20, bytes.len() - 1] {
        let res = peng_binary_decode(&bytes[..cut]);
        assert!(matches!(res, Err(PengError::InvalidState(_))));
    }
}

#[test]
fn decode_refuses_trailing_bytes() {
    let mut bytes = peng_binary_encode(&sample_file()).unwrap();
    bytes.push(0);
    assert!(matches!(peng_binary_decode(&bytes), Err(PengError::InvalidState(_))));
}

#[test]
fn decode_refuses_wrong_magic() {
    let mut bytes = peng_binary_encode(&sample_file()).unwrap();
    bytes[0] = b'x';
    assert!(matches!(peng_binary_decode(&bytes), Err(PengError::InvalidState(_))));
}

#[test]
fn encode_refuses_a_dangling_reference() {
    let mut file = sample_file();
    file.init = Some(PengBinaryRef::Heap(PengBinaryHeapId(9)));
    assert!(matches!(peng_binary_validate_file(&file), Err(PengError::InvalidState(_))));
    assert!(matches!(peng_binary_encode(&file), Err(PengError::InvalidState(_))));
}

#[test]
fn encode_refuses_out_of_order_heap_ids() {
    let mut file = sample_file();
    file.heap[0].id = PengBinaryHeapId(3);
    assert!(matches!(peng_binary_encode(&file), Err(PengError::InvalidState(_))));
}

#[test]
fn encode_refuses_big_endian_header() {
    let mut file = sample_file();
    file.header.endian = PengBinaryEndian::Big;
    assert!(matches!(peng_binary_encode(&file), Err(PengError::InvalidState(_))));
}

#[test]
fn encode_refuses_constant_index_out_of_range() {
    let mut file = sample_file();
    if let PengBinaryValue::Function { code, .. } = &mut file.heap[1].value {
        code.bytecode[0] = PengBinaryOpcode::PushConst(3);
    }
    assert!(matches!(peng_binary_encode(&file), Err(PengError::InvalidState(_))));
}

#[test]
fn empty_program_round_trips() {
    let file = PengBinaryFile {
        header: PengBinaryHeader::default(),
        entry_kind: PengBinaryEntryKind::Script,
        heap: vec![],
        globals: vec![],
        init: None,
    };
    let bytes = peng_binary_encode(&file).unwrap();
    // header (12) + kind (1) + two counts (16) + no initializer (1)
    assert_eq!(bytes.len(), 30);
    let decoded = peng_binary_decode(&bytes).unwrap();
    assert!(matches!(decoded.entry_kind, PengBinaryEntryKind::Script));
    assert!(decoded.init.is_none());
}

fn message_of<T>(res: Result<T, PengError>) -> String {
    match res {
        Err(PengError::InvalidState(m)) => m,
        _ => panic!("expected an invalid state"),
    }
}

#[test]
fn errors_name_the_first_failed_check() {
    let mut file = sample_file();
    file.init = Some(PengBinaryRef::Heap(PengBinaryHeapId(9)));
    assert_eq!(message_of(peng_binary_validate_file(&file)), "invalid Penguin binary: invalid init reference");
    assert_eq!(message_of(peng_binary_encode(&file)), "invalid Penguin binary: invalid init reference");

    let mut file = sample_file();
    if let PengBinaryValue::Function { code, .. } = &mut file.heap[1].value {
        code.bytecode[3] = PengBinaryOpcode::Jump(6);
        code.bytecode[0] = PengBinaryOpcode::PushConst(3);
    }
    file.init = Some(PengBinaryRef::Heap(PengBinaryHeapId(9)));
    assert_eq!(message_of(peng_binary_encode(&file)), "invalid Penguin binary: constant index out of range");

    let mut file = sample_file();
    if let PengBinaryValue::Function { code, .. } = &mut file.heap[1].value {
        code.bytecode[3] = PengBinaryOpcode::Jump(6);
    }
    assert_eq!(message_of(peng_binary_encode(&file)), "invalid Penguin binary: jump target out of range");
    if let PengBinaryValue::Function { code, .. } = &mut file.heap[1].value {
        code.bytecode[3] = PengBinaryOpcode::Jump(5);
    }
    assert!(peng_binary_encode(&file).is_ok());

    let mut file = sample_file();
    file.header.endian = PengBinaryEndian::Big;
    assert_eq!(message_of(peng_binary_encode(&file)), "invalid Penguin binary: unsupported endian");
}

#[test]
fn trailing_bytes_are_named() {
    let mut bytes = peng_binary_encode(&sample_file()).unwrap();
    bytes.push(7);
    assert_eq!(message_of(peng_binary_decode(&bytes)), "invalid Penguin binary: trailing bytes");
}
