use wit_codec::{
    Error, ErrorKind, Export, Func, Import, Instruction, Parser, Section, Type, ValType,
};

/// The version string as it stands at the head of every stream.
const HEAD: [u8; 6] = [5, b'0', b'.', b'1', b'.', b'0'];

fn stream(rest: &[u8]) -> Vec<u8> {
    let mut bytes = HEAD.to_vec();
    bytes.extend_from_slice(rest);
    bytes
}

fn failure<T>(r: Result<T, Error>) -> (usize, ErrorKind) {
    match r {
        Ok(_) => panic!("decoding went through"),
        Err(e) => (e.at(), e.kind().clone()),
    }
}

fn pull_failure<T>(r: Option<Result<T, Error>>) -> (usize, ErrorKind) {
    match r {
        Some(r) => failure(r),
        None => panic!("the stream ended"),
    }
}

#[test]
fn opens_on_the_expected_version() {
    let bytes = stream(&[]);
    let parser = Parser::new(&bytes).unwrap();
    assert!(parser.is_empty());
    assert_eq!(parser.pos(), 6);
}

#[test]
fn expected_version_is_the_schema_version_constant() {
    let version = wit_schema_version::VERSION.as_bytes();
    let mut bytes = vec![version.len() as u8];
    bytes.extend_from_slice(version);
    assert_eq!(bytes, HEAD.to_vec());
    assert!(Parser::new(&bytes).is_ok());
}

#[test]
fn opening_twice_gives_the_same_cursor() {
    let bytes = stream(&[0, 1, 0]);
    let first = Parser::new(&bytes).unwrap();
    let second = Parser::new(&bytes).unwrap();
    assert_eq!(first.pos(), second.pos());
    assert_eq!(first.is_empty(), second.is_empty());
    let copy = first.clone();
    assert_eq!(copy.pos(), first.pos());
}

#[test]
fn opening_twice_gives_the_same_failure() {
    let bytes = [3, b'1', b'.', b'0', 0, 0];
    let first = failure(Parser::new(&bytes));
    let second = failure(Parser::new(&bytes));
    assert_eq!(first, second);
    assert_eq!(first, (0, ErrorKind::InvalidVersion("1.0".to_string())));
}

#[test]
fn wrong_version_fails_at_offset_zero() {
    let bytes = [5, b'0', b'.', b'1', b'.', b'1', 0, 1, 0];
    assert_eq!(
        failure(Parser::new(&bytes)),
        (0, ErrorKind::InvalidVersion("0.1.1".to_string()))
    );
    let empty_version = [0];
    assert_eq!(
        failure(Parser::new(&empty_version)),
        (0, ErrorKind::InvalidVersion(String::new()))
    );
}

#[test]
fn empty_input_has_no_version() {
    assert_eq!(failure(Parser::new(&[])), (0, ErrorKind::VarintMalformed));
}

#[test]
fn version_cut_short_is_truncated() {
    let bytes = [5, b'0', b'.', b'1'];
    assert_eq!(failure(Parser::new(&bytes)), (0, ErrorKind::Truncated(5)));
}

#[test]
fn version_that_is_not_utf8_is_refused() {
    let bytes = [2, 0xc3, 0x28];
    assert_eq!(failure(Parser::new(&bytes)), (0, ErrorKind::InvalidUtf8));
}

#[test]
fn type_section_with_one_type() {
    // id 0, payload of 4 bytes: count 1, no params, one result, u32
    let bytes = stream(&[0, 4, 1, 0, 1, 7]);
    let mut parser = Parser::new(&bytes).unwrap();
    let mut types = match parser.section().unwrap() {
        Section::Type(types) => types,
        _ => panic!("not a type section"),
    };
    assert!(parser.is_empty());
    assert_eq!(parser.pos(), 12);
    let ty = types.next().unwrap().unwrap();
    assert_eq!(ty, Type { params: vec![], results: vec![ValType::U32] });
    assert!(types.next().is_none());
    assert!(types.next().is_none());
}

#[test]
fn type_with_params_and_results() {
    let bytes = stream(&[0, 8, 1, 3, 0, 1, 10, 2, 8, 9]);
    let mut parser = Parser::new(&bytes).unwrap();
    let mut types = match parser.section().unwrap() {
        Section::Type(types) => types,
        _ => panic!("not a type section"),
    };
    let ty = types.next().unwrap().unwrap();
    assert_eq!(
        ty,
        Type {
            params: vec![ValType::String, ValType::S8, ValType::F64],
            results: vec![ValType::U64, ValType::F32],
        }
    );
    assert!(types.next().is_none());
}

#[test]
fn every_value_type_code_decodes() {
    let bytes = stream(&[11, 0, 1, 2, 3, 4, 5, 6, 7, 8, 9, 10, 0]);
    let mut parser = Parser::new(&bytes).unwrap();
    let ty = parser.parse::<Type>().unwrap();
    assert_eq!(
        ty.params,
        vec![
            ValType::String,
            ValType::S8,
            ValType::S16,
            ValType::S32,
            ValType::S64,
            ValType::U8,
            ValType::U16,
            ValType::U32,
            ValType::U64,
            ValType::F32,
            ValType::F64,
        ]
    );
    assert!(ty.results.is_empty());
    assert!(parser.is_empty());
}

#[test]
fn value_type_codes_read_the_same_both_ways() {
    for code in 0..=255u8 {
        match ValType::from_code(code) {
            Some(ty) => {
                assert!(code <= 10);
                assert_eq!(ty.code(), code);
            }
            None => assert!(code > 10),
        }
    }
    assert_eq!(ValType::U32.code(), 7);
    assert_eq!(ValType::String.code(), 0);
    assert_eq!(ValType::from_code(10), Some(ValType::F64));
}

#[test]
fn unknown_value_type_fails_at_its_byte() {
    // payload starts at offset 8: count 1, one param, code 11
    let bytes = stream(&[0, 4, 1, 1, 11, 0]);
    let mut parser = Parser::new(&bytes).unwrap();
    let mut types = match parser.section().unwrap() {
        Section::Type(types) => types,
        _ => panic!("not a type section"),
    };
    assert_eq!(pull_failure(types.next()), (10, ErrorKind::InvalidValType(11)));
}

#[test]
fn unknown_value_type_leaves_the_cursor_on_it() {
    let bytes = stream(&[2, 7, 200]);
    let mut parser = Parser::new(&bytes).unwrap();
    assert_eq!(failure(parser.parse::<Type>()), (8, ErrorKind::InvalidValType(200)));
    assert_eq!(parser.pos(), 8);
    assert_eq!(parser.parse::<u8>().unwrap(), 200);
}

#[test]
fn import_section() {
    let mut payload = vec![2];
    payload.extend_from_slice(&[3, b'e', b'n', b'v', 4, b'r', b'e', b'a', b'd', 7]);
    payload.extend_from_slice(&[0, 2, 0xc3, 0xa9, 0x80, 0x01]);
    let mut body = vec![1, payload.len() as u8];
    body.extend_from_slice(&payload);
    let bytes = stream(&body);
    let mut parser = Parser::new(&bytes).unwrap();
    let mut imports = match parser.section().unwrap() {
        Section::Import(imports) => imports,
        _ => panic!("not an import section"),
    };
    assert_eq!(
        imports.next().unwrap().unwrap(),
        Import { module: "env", name: "read", ty: 7 }
    );
    assert_eq!(
        imports.next().unwrap().unwrap(),
        Import { module: "", name: "\u{e9}", ty: 128 }
    );
    assert!(imports.next().is_none());
    assert!(parser.is_empty());
}

#[test]
fn export_section() {
    let bytes = stream(&[2, 6, 1, 0xac, 0x02, 2, b'g', b'o']);
    let mut parser = Parser::new(&bytes).unwrap();
    let mut exports = match parser.section().unwrap() {
        Section::Export(exports) => exports,
        _ => panic!("not an export section"),
    };
    assert_eq!(exports.next().unwrap().unwrap(), Export { func: 300, name: "go" });
    assert!(exports.next().is_none());
}

#[test]
fn export_name_that_is_not_utf8_fails_at_its_length_prefix() {
    // payload at offset 8: count 1, func 5, then a string of one bad byte
    let bytes = stream(&[2, 4, 1, 5, 1, 0xff]);
    let mut parser = Parser::new(&bytes).unwrap();
    let mut exports = match parser.section().unwrap() {
        Section::Export(exports) => exports,
        _ => panic!("not an export section"),
    };
    assert_eq!(pull_failure(exports.next()), (10, ErrorKind::InvalidUtf8));
}

fn first_func(bytes: &[u8]) -> Func<'_> {
    let mut parser = Parser::new(bytes).unwrap();
    let mut funcs = match parser.section().unwrap() {
        Section::Func(funcs) => funcs,
        _ => panic!("not a function section"),
    };
    funcs.next().unwrap().unwrap()
}

#[test]
fn func_body_with_two_instructions() {
    // id 3, payload: count 1, body of 4 bytes: type 0, arg.get 3, end
    let bytes = stream(&[3, 6, 1, 4, 0, 0x00, 3, 0x02]);
    let func = first_func(&bytes);
    assert_eq!(func.ty, 0);
    assert_eq!(func.ty(), 0);
    let mut instrs = func.instrs();
    assert_eq!(instrs.next().unwrap().unwrap(), Instruction::ArgGet(3));
    assert!(instrs.next().is_none());
}

#[test]
fn func_body_decodes_instruction_by_instruction() {
    let bytes = stream(&[0x00, 3, 0x02]);
    let mut parser = Parser::new(&bytes).unwrap();
    assert_eq!(parser.parse::<Instruction>().unwrap(), Instruction::ArgGet(3));
    assert_eq!(parser.parse::<Instruction>().unwrap(), Instruction::End);
    assert!(parser.is_empty());
}

#[test]
fn func_body_without_end_runs_out_of_input() {
    let bytes = stream(&[3, 5, 1, 3, 0, 0x00, 3]);
    let func = first_func(&bytes);
    let mut instrs = func.instrs();
    assert_eq!(instrs.next().unwrap().unwrap(), Instruction::ArgGet(3));
    assert_eq!(pull_failure(instrs.next()), (13, ErrorKind::UnexpectedEndOfInput));
}

#[test]
fn instruction_streams_of_one_func_are_independent() {
    let bytes = stream(&[3, 9, 1, 7, 9, 0x01, 0x80, 0x01, 0x00, 0x02, 0x02]);
    let func = first_func(&bytes);
    assert_eq!(func.ty, 9);
    let mut first = func.instrs();
    assert_eq!(first.next().unwrap().unwrap(), Instruction::CallCore(128));
    let mut second = func.instrs();
    assert_eq!(second.next().unwrap().unwrap(), Instruction::CallCore(128));
    assert_eq!(second.next().unwrap().unwrap(), Instruction::ArgGet(2));
    assert!(second.next().is_none());
    assert_eq!(first.next().unwrap().unwrap(), Instruction::ArgGet(2));
    assert!(first.next().is_none());
}

#[test]
fn end_before_the_last_byte_leaves_trailing_bytes() {
    let bytes = stream(&[3, 5, 1, 3, 0, 0x02, 0x02]);
    let func = first_func(&bytes);
    let mut instrs = func.instrs();
    assert_eq!(pull_failure(instrs.next()), (12, ErrorKind::TrailingBytes));
}

#[test]
fn unknown_opcode_fails_at_its_byte() {
    let bytes = stream(&[3, 5, 1, 3, 0, 0x03, 0x02]);
    let func = first_func(&bytes);
    let mut instrs = func.instrs();
    assert_eq!(pull_failure(instrs.next()), (11, ErrorKind::InvalidInstruction(3)));
}

#[test]
fn unknown_opcode_leaves_the_cursor_on_it() {
    let bytes = stream(&[0x01, 4, 0x7f, 0x02]);
    let mut parser = Parser::new(&bytes).unwrap();
    assert_eq!(parser.parse::<Instruction>().unwrap(), Instruction::CallCore(4));
    assert_eq!(
        failure(parser.parse::<Instruction>()),
        (8, ErrorKind::InvalidInstruction(0x7f))
    );
    assert_eq!(parser.pos(), 8);
}

#[test]
fn bad_operand_fails_after_the_opcode() {
    let bytes = stream(&[0x00, 0x80]);
    let mut parser = Parser::new(&bytes).unwrap();
    assert_eq!(failure(parser.parse::<Instruction>()), (7, ErrorKind::VarintMalformed));
    assert_eq!(parser.pos(), 7);
}

#[test]
fn func_longer_than_the_input_is_truncated() {
    // payload at offset 8: count 1, then a body that announces 9 bytes and has 2
    let bytes = stream(&[3, 4, 1, 9, 0, 2]);
    let mut parser = Parser::new(&bytes).unwrap();
    let mut funcs = match parser.section().unwrap() {
        Section::Func(funcs) => funcs,
        _ => panic!("not a function section"),
    };
    assert_eq!(pull_failure(funcs.next()), (9, ErrorKind::Truncated(9)));
}

#[test]
fn func_parse_reports_truncation_at_the_length_prefix() {
    let bytes = stream(&[0x85, 0x00, 1, 2, 3, 4]);
    let mut parser = Parser::new(&bytes).unwrap();
    assert_eq!(failure(parser.parse::<Func>()), (6, ErrorKind::Truncated(5)));
    assert_eq!(parser.pos(), 6);
}

#[test]
fn func_with_an_empty_body_has_no_type_index() {
    let bytes = stream(&[0, 7]);
    let mut parser = Parser::new(&bytes).unwrap();
    assert_eq!(failure(parser.parse::<Func>()), (7, ErrorKind::VarintMalformed));
    assert_eq!(parser.pos(), 7);
}

#[test]
fn varint_boundary() {
    let bytes = stream(&[0xff, 0xff, 0xff, 0xff, 0x0f, 0x80, 0x80, 0x80, 0x80, 0x10]);
    let mut parser = Parser::new(&bytes).unwrap();
    assert_eq!(parser.parse::<u32>().unwrap(), 4294967295);
    assert_eq!(parser.pos(), 11);
    assert_eq!(
        failure(parser.parse::<u32>()),
        (11, ErrorKind::VarintTooLarge(4294967296))
    );
    assert_eq!(parser.pos(), 11);
}

#[test]
fn varint_values() {
    let bytes = stream(&[0, 0x7f, 0x80, 0x01, 0xe5, 0x8e, 0x26, 0x80, 0x00]);
    let mut parser = Parser::new(&bytes).unwrap();
    assert_eq!(parser.parse::<u32>().unwrap(), 0);
    assert_eq!(parser.parse::<u32>().unwrap(), 127);
    assert_eq!(parser.parse::<u32>().unwrap(), 128);
    assert_eq!(parser.parse::<u32>().unwrap(), 624485);
    assert_eq!(parser.pos(), 13);
    // a zero padded with an empty group
    assert_eq!(parser.parse::<u32>().unwrap(), 0);
    assert!(parser.is_empty());
}

#[test]
fn varint_that_never_ends_is_malformed() {
    let bytes = stream(&[0x80, 0x80]);
    let mut parser = Parser::new(&bytes).unwrap();
    assert_eq!(failure(parser.parse::<u32>()), (6, ErrorKind::VarintMalformed));
    assert_eq!(parser.pos(), 6);
    assert_eq!(parser.parse::<u8>().unwrap(), 0x80);
}

#[test]
fn varint_over_64_bits_is_malformed() {
    let ten = [0xff, 0xff, 0xff, 0xff, 0xff, 0xff, 0xff, 0xff, 0xff, 0x02];
    let bytes = stream(&ten);
    let mut parser = Parser::new(&bytes).unwrap();
    assert_eq!(failure(parser.parse::<u32>()), (6, ErrorKind::VarintMalformed));
    let eleven = [0x80, 0x80, 0x80, 0x80, 0x80, 0x80, 0x80, 0x80, 0x80, 0x80, 0x00];
    let bytes = stream(&eleven);
    let mut parser = Parser::new(&bytes).unwrap();
    assert_eq!(failure(parser.parse::<u32>()), (6, ErrorKind::VarintMalformed));
}

#[test]
fn varint_of_64_bits_is_too_large() {
    let max = [0xff, 0xff, 0xff, 0xff, 0xff, 0xff, 0xff, 0xff, 0xff, 0x01];
    let bytes = stream(&max);
    let mut parser = Parser::new(&bytes).unwrap();
    assert_eq!(
        failure(parser.parse::<u32>()),
        (6, ErrorKind::VarintTooLarge(u64::MAX))
    );
}

#[test]
fn byte_at_the_end_of_input() {
    let bytes = stream(&[42]);
    let mut parser = Parser::new(&bytes).unwrap();
    assert_eq!(parser.parse::<u8>().unwrap(), 42);
    assert_eq!(parser.pos(), 7);
    assert_eq!(failure(parser.parse::<u8>()), (7, ErrorKind::UnexpectedEndOfInput));
    assert_eq!(parser.pos(), 7);
}

#[test]
fn byte_range_and_string() {
    let bytes = stream(&[3, 1, 2, 3, 0, 2, b'h', b'i']);
    let mut parser = Parser::new(&bytes).unwrap();
    assert_eq!(parser.parse::<&[u8]>().unwrap(), &[1u8, 2, 3][..]);
    assert_eq!(parser.pos(), 10);
    assert_eq!(parser.parse::<&[u8]>().unwrap(), &[0u8; 0][..]);
    assert_eq!(parser.parse::<&str>().unwrap(), "hi");
    assert!(parser.is_empty());
}

#[test]
fn byte_range_cut_short_restores_the_cursor() {
    let bytes = stream(&[4, 1, 2, 3]);
    let mut parser = Parser::new(&bytes).unwrap();
    assert_eq!(failure(parser.parse::<&[u8]>()), (6, ErrorKind::Truncated(4)));
    assert_eq!(parser.pos(), 6);
    assert_eq!(parser.parse::<u8>().unwrap(), 4);
}

#[test]
fn bad_string_restores_the_cursor() {
    let bytes = stream(&[2, 0xe2, 0x82]);
    let mut parser = Parser::new(&bytes).unwrap();
    assert_eq!(failure(parser.parse::<&str>()), (6, ErrorKind::InvalidUtf8));
    assert_eq!(parser.pos(), 6);
    assert_eq!(parser.parse::<&[u8]>().unwrap(), &[0xe2u8, 0x82][..]);
}

#[test]
fn carved_range_keeps_its_offset_and_its_end() {
    let bytes = stream(&[2, 10, 20, 30]);
    let mut parser = Parser::new(&bytes).unwrap();
    let mut range = parser.carve().unwrap();
    assert_eq!(range.pos(), 7);
    assert_eq!(parser.pos(), 9);
    assert_eq!(range.parse::<u8>().unwrap(), 10);
    assert_eq!(range.parse::<u8>().unwrap(), 20);
    assert!(range.is_empty());
    assert_eq!(failure(range.parse::<u8>()), (9, ErrorKind::UnexpectedEndOfInput));
    assert_eq!(parser.parse::<u8>().unwrap(), 30);
}

#[test]
fn unknown_section_fails_at_its_id() {
    let bytes = stream(&[0, 1, 0, 9, 2, 1, 0]);
    let mut parser = Parser::new(&bytes).unwrap();
    assert!(parser.section().is_ok());
    assert_eq!(parser.pos(), 9);
    assert_eq!(failure(parser.section()), (9, ErrorKind::InvalidSection(9)));
    assert_eq!(parser.pos(), 9);
    assert_eq!(parser.parse::<u8>().unwrap(), 9);
}

#[test]
fn lowest_unknown_section_id() {
    let bytes = stream(&[4, 1, 0]);
    let mut parser = Parser::new(&bytes).unwrap();
    assert_eq!(failure(parser.section()), (6, ErrorKind::InvalidSection(4)));
}

#[test]
fn section_cut_short_is_reported_before_its_id() {
    let bytes = stream(&[9, 3, 0]);
    let mut parser = Parser::new(&bytes).unwrap();
    assert_eq!(failure(parser.section()), (7, ErrorKind::Truncated(3)));
    assert_eq!(parser.pos(), 7);
}

#[test]
fn section_without_a_count() {
    let bytes = stream(&[1, 0]);
    let mut parser = Parser::new(&bytes).unwrap();
    assert_eq!(failure(parser.section()), (8, ErrorKind::VarintMalformed));
    assert_eq!(parser.pos(), 8);
}

#[test]
fn section_at_the_end_of_input() {
    let bytes = stream(&[]);
    let mut parser = Parser::new(&bytes).unwrap();
    assert_eq!(failure(parser.section()), (6, ErrorKind::UnexpectedEndOfInput));
}

#[test]
fn section_with_stray_bytes_after_its_items() {
    // count 1, one type without params or results, then a stray byte
    let bytes = stream(&[0, 4, 1, 0, 0, 0xaa]);
    let mut parser = Parser::new(&bytes).unwrap();
    let mut types = match parser.section().unwrap() {
        Section::Type(types) => types,
        _ => panic!("not a type section"),
    };
    assert_eq!(
        types.next().unwrap().unwrap(),
        Type { params: vec![], results: vec![] }
    );
    assert_eq!(pull_failure(types.next()), (11, ErrorKind::TrailingBytes));
}

#[test]
fn empty_section_with_stray_bytes() {
    let bytes = stream(&[2, 2, 0, 1]);
    let mut parser = Parser::new(&bytes).unwrap();
    let mut exports = match parser.section().unwrap() {
        Section::Export(exports) => exports,
        _ => panic!("not an export section"),
    };
    assert_eq!(pull_failure(exports.next()), (9, ErrorKind::TrailingBytes));
}

#[test]
fn section_that_announces_more_items_than_it_holds() {
    let bytes = stream(&[2, 3, 2, 1, 0]);
    let mut parser = Parser::new(&bytes).unwrap();
    let mut exports = match parser.section().unwrap() {
        Section::Export(exports) => exports,
        _ => panic!("not an export section"),
    };
    assert_eq!(exports.next().unwrap().unwrap(), Export { func: 1, name: "" });
    // the payload ends where the second item should begin
    assert_eq!(pull_failure(exports.next()), (11, ErrorKind::VarintMalformed));
}

#[test]
fn items_cannot_read_past_their_section() {
    // the export's name announces 2 bytes, the payload has 1 left, the input more
    let bytes = stream(&[2, 4, 1, 0, 2, b'a', b'b', b'c']);
    let mut parser = Parser::new(&bytes).unwrap();
    let mut exports = match parser.section().unwrap() {
        Section::Export(exports) => exports,
        _ => panic!("not an export section"),
    };
    assert_eq!(parser.pos(), 12);
    assert_eq!(pull_failure(exports.next()), (10, ErrorKind::Truncated(2)));
}

#[test]
fn stream_of_all_four_sections() {
    let mut body = vec![];
    body.extend_from_slice(&[0, 5, 1, 1, 7, 1, 7]);
    body.extend_from_slice(&[1, 5, 1, 1, b'm', 0, 0]);
    body.extend_from_slice(&[2, 4, 1, 0, 1, b'f']);
    body.extend_from_slice(&[3, 9, 2, 2, 0, 0x02, 4, 0, 0x01, 0, 0x02]);
    let bytes = stream(&body);
    let mut parser = Parser::new(&bytes).unwrap();
    let mut seen = vec![];
    while !parser.is_empty() {
        match parser.section().unwrap() {
            Section::Type(mut types) => {
                let ty = types.next().unwrap().unwrap();
                assert_eq!(ty.params, vec![ValType::U32]);
                assert_eq!(ty.results, vec![ValType::U32]);
                assert!(types.next().is_none());
                seen.push(0);
            }
            Section::Import(mut imports) => {
                assert_eq!(
                    imports.next().unwrap().unwrap(),
                    Import { module: "m", name: "", ty: 0 }
                );
                assert!(imports.next().is_none());
                seen.push(1);
            }
            Section::Export(mut exports) => {
                assert_eq!(exports.next().unwrap().unwrap(), Export { func: 0, name: "f" });
                assert!(exports.next().is_none());
                seen.push(2);
            }
            Section::Func(mut funcs) => {
                let first = funcs.next().unwrap().unwrap();
                assert!(first.instrs().next().is_none());
                let second = funcs.next().unwrap().unwrap();
                let mut instrs = second.instrs();
                assert_eq!(instrs.next().unwrap().unwrap(), Instruction::CallCore(0));
                assert!(instrs.next().is_none());
                assert!(funcs.next().is_none());
                seen.push(3);
            }
        }
    }
    assert_eq!(seen, vec![0, 1, 2, 3]);
}
