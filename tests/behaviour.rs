use eof::{
    parse_eof_container, simulate_eof_step, validate_eof_container, EOFContainer, EOFError,
    EOFHeader, SectionHeader, SectionKind, SimulatedStack, ADD, PUSH1, PUSH2, PUSH32, RJUMP,
    RJUMPI, SELFDESTRUCT,
};

/// Magic, version, one type section of 4 bytes, one code section `PUSH1 01 PUSH1 02 ADD`.
fn minimal() -> Vec<u8> {
    vec![
        0xEF, 0x00, 0x01, 0x01, 0x00, 0x04, 0x02, 0x00, 0x05, 0x00, 0x00, 0x00, 0x00, 0x00, PUSH1,
        0x01, PUSH1, 0x02, ADD,
    ]
}

fn container(kinds: &[(SectionKind, Vec<u8>)]) -> EOFContainer {
    EOFContainer {
        header: EOFHeader {
            version: 1,
            section_headers: kinds
                .iter()
                .map(|(k, c)| SectionHeader { kind: *k, size: c.len() as u16 })
                .collect(),
        },
        sections: kinds.iter().map(|(_, c)| c.clone()).collect(),
    }
}

fn serialize(c: &EOFContainer) -> Vec<u8> {
    let mut out = vec![0xEF, 0x00, c.header.version];
    for h in &c.header.section_headers {
        out.push(h.kind.to_byte());
        out.extend_from_slice(&h.size.to_be_bytes());
    }
    out.push(0x00);
    for s in &c.sections {
        out.extend_from_slice(s);
    }
    out
}

#[test]
fn minimal_container_parses_and_validates() {
    let c = parse_eof_container(&minimal()).unwrap();
    assert_eq!(c.header.version, 1);
    assert_eq!(
        c.header.section_headers,
        vec![
            SectionHeader { kind: SectionKind::Type, size: 4 },
            SectionHeader { kind: SectionKind::Code, size: 5 }
        ]
    );
    assert_eq!(c.sections, vec![vec![0, 0, 0, 0], vec![PUSH1, 0x01, PUSH1, 0x02, ADD]]);
    assert_eq!(validate_eof_container(&c), Ok(()));
}

#[test]
fn selfdestruct_as_last_byte_is_rejected() {
    let mut b = minimal();
    let last = b.len() - 1;
    b[last] = SELFDESTRUCT;
    let c = parse_eof_container(&b).unwrap();
    assert_eq!(validate_eof_container(&c), Err(EOFError::InvalidOpcode(0xFF)));
}

#[test]
fn push2_with_one_byte_left_is_truncated() {
    let c = container(&[(SectionKind::Type, vec![0; 4]), (SectionKind::Code, vec![PUSH2, 0x01])]);
    assert_eq!(validate_eof_container(&c), Err(EOFError::TruncatedPushData));
    let ok = container(&[(SectionKind::Type, vec![0; 4]), (SectionKind::Code, vec![PUSH2, 1, 2])]);
    assert_eq!(validate_eof_container(&ok), Ok(()));
}

#[test]
fn push32_skips_its_immediates() {
    let mut code = vec![PUSH32];
    code.extend(vec![SELFDESTRUCT; 32]);
    let c = container(&[(SectionKind::Type, vec![0; 4]), (SectionKind::Code, code)]);
    assert_eq!(validate_eof_container(&c), Ok(()));
}

#[test]
fn type_size_eight_with_one_code_section_is_malformed() {
    let c = container(&[(SectionKind::Type, vec![0; 8]), (SectionKind::Code, vec![ADD])]);
    assert_eq!(validate_eof_container(&c), Err(EOFError::MalformedSectionHeader));
    let two = container(&[
        (SectionKind::Type, vec![0; 8]),
        (SectionKind::Code, vec![ADD]),
        (SectionKind::Code, vec![ADD]),
    ]);
    assert_eq!(validate_eof_container(&two), Ok(()));
}

#[test]
fn canonical_order_is_enforced() {
    let t = (SectionKind::Type, vec![0u8; 4]);
    let code = (SectionKind::Code, vec![ADD]);
    let sub = (SectionKind::Container, vec![1]);
    let data = (SectionKind::Data, vec![2]);
    let full = container(&[t.clone(), code.clone(), sub.clone(), sub.clone(), data.clone()]);
    assert_eq!(validate_eof_container(&full), Ok(()));
    let bad = [
        vec![code.clone(), t.clone()],
        vec![t.clone(), code.clone(), data.clone(), sub.clone()],
        vec![t.clone(), code.clone(), sub.clone(), code.clone()],
        vec![t.clone(), code.clone(), data.clone(), data.clone()],
        vec![t.clone(), code.clone(), t.clone()],
    ];
    for kinds in bad.iter() {
        assert_eq!(validate_eof_container(&container(kinds)), Err(EOFError::MalformedSectionHeader));
    }
}

#[test]
fn missing_code_section_is_reported() {
    let c = container(&[(SectionKind::Type, vec![0; 4]), (SectionKind::Data, vec![1])]);
    assert_eq!(validate_eof_container(&c), Err(EOFError::MissingTerminator));
}

#[test]
fn empty_type_section_is_rejected() {
    let c = container(&[(SectionKind::Type, vec![]), (SectionKind::Code, vec![ADD])]);
    assert_eq!(validate_eof_container(&c), Err(EOFError::SectionSizeMismatch));
}

#[test]
fn parse_errors_each_have_an_input() {
    assert_eq!(parse_eof_container(&[0xEF]), Err(EOFError::UnexpectedEndOfInput));
    assert_eq!(parse_eof_container(&[0xEF, 0x00]), Err(EOFError::UnexpectedEndOfInput));
    assert_eq!(parse_eof_container(&[0xEF, 0x00, 0x01, 0x07]), Err(EOFError::InvalidSectionKind(7)));
    assert_eq!(
        parse_eof_container(&[0xEF, 0x00, 0x01, 0x01, 0x00, 0x04, 0x01, 0x00, 0x04, 0x00]),
        Err(EOFError::DuplicateSection(SectionKind::Type))
    );
    assert_eq!(
        parse_eof_container(&[0xEF, 0x00, 0x01, 0x01, 0x00, 0x04, 0x04, 0x00, 0x01, 0x04, 0x00, 0x01]),
        Err(EOFError::DuplicateSection(SectionKind::Data))
    );
    assert_eq!(parse_eof_container(&[0xEF, 0x00, 0x01, 0x00]), Err(EOFError::MissingTerminator));
    assert_eq!(
        parse_eof_container(&[0xEF, 0x00, 0x01, 0x02, 0x00, 0x01, 0x00, ADD]),
        Err(EOFError::MissingTerminator)
    );
    let mut trailing = minimal();
    trailing.push(0x00);
    assert_eq!(parse_eof_container(&trailing), Err(EOFError::SectionSizeMismatch));
}

#[test]
fn repeated_code_and_container_sections_parse() {
    let c = container(&[
        (SectionKind::Type, vec![0; 8]),
        (SectionKind::Code, vec![ADD]),
        (SectionKind::Code, vec![ADD, ADD]),
        (SectionKind::Container, vec![9]),
        (SectionKind::Container, vec![]),
    ]);
    assert_eq!(parse_eof_container(&serialize(&c)), Ok(c));
}

#[test]
fn serialize_then_parse_gives_back_the_container() {
    let c = container(&[
        (SectionKind::Type, vec![1, 2, 3, 4]),
        (SectionKind::Code, vec![PUSH1, 7, ADD]),
        (SectionKind::Data, vec![5; 300]),
    ]);
    let b = serialize(&c);
    assert_eq!(b[9..12], [0x04, 0x01, 0x2C]);
    assert_eq!(parse_eof_container(&b), Ok(c));
}

#[test]
fn every_proper_prefix_is_truncated() {
    let b = minimal();
    for k in 0..b.len() {
        assert_eq!(parse_eof_container(&b[..k]), Err(EOFError::UnexpectedEndOfInput), "prefix {}", k);
    }
}

#[test]
fn parse_and_validate_repeat_their_results() {
    let b = minimal();
    assert_eq!(parse_eof_container(&b), parse_eof_container(&b));
    let bad = [0xEF, 0x00, 0x01, 0x09];
    assert_eq!(parse_eof_container(&bad), parse_eof_container(&bad));
    let c = parse_eof_container(&b).unwrap();
    let before = c.clone();
    let first = validate_eof_container(&c);
    assert_eq!(validate_eof_container(&c), first);
    assert_eq!(validate_eof_container(&c), first);
    assert_eq!(c, before);
}

#[test]
fn section_kind_bytes_round_trip() {
    for k in [SectionKind::Type, SectionKind::Code, SectionKind::Container, SectionKind::Data] {
        assert_eq!(SectionKind::try_from(k.to_byte()), Ok(k));
    }
    assert_eq!(SectionKind::Container.to_byte(), 0x03);
    assert_eq!(SectionKind::try_from(0x05), Err(EOFError::InvalidSectionKind(5)));
}

#[test]
fn conditional_jump_on_zero_moves_three() {
    let mut pc: usize = 2;
    let mut stack = SimulatedStack::new();
    stack.push(0).unwrap();
    let code = vec![ADD, ADD, RJUMPI, 0x00, 0x10];
    simulate_eof_step(&code, &mut pc, &mut stack).unwrap();
    assert_eq!(pc, 5);
    assert_eq!(stack.len(), 0);
}

#[test]
fn underflow_leaves_cursor_alone() {
    let mut pc: usize = 1;
    let mut stack = SimulatedStack::new();
    let code = vec![ADD, RJUMPI, 0x00, 0x02, 0xFF];
    assert_eq!(simulate_eof_step(&code, &mut pc, &mut stack), Err(EOFError::StackUnderflow));
    assert_eq!(pc, 1);
}

#[test]
fn add_pops_two_pushes_one() {
    let mut pc: usize = 0;
    let mut stack = SimulatedStack::new();
    stack.push(3).unwrap();
    stack.push(4).unwrap();
    simulate_eof_step(&[ADD], &mut pc, &mut stack).unwrap();
    assert_eq!(pc, 1);
    assert_eq!(stack.len(), 1);
    assert_eq!(stack.pop(), Ok(0));
    let mut pc: usize = 0;
    stack.push(3).unwrap();
    assert_eq!(simulate_eof_step(&[ADD], &mut pc, &mut stack), Err(EOFError::StackUnderflow));
    assert_eq!(pc, 0);
}

#[test]
fn push_step_skips_immediates() {
    let mut pc: usize = 0;
    let mut stack = SimulatedStack::new();
    let code = vec![PUSH2, 0xAA, 0xBB, 0x5B];
    simulate_eof_step(&code, &mut pc, &mut stack).unwrap();
    assert_eq!(pc, 3);
    assert_eq!(stack.pop(), Ok(PUSH2));
    simulate_eof_step(&code, &mut pc, &mut stack).unwrap();
    assert_eq!(pc, 4);
    assert_eq!(stack.len(), 0);
    assert_eq!(simulate_eof_step(&code, &mut pc, &mut stack), Err(EOFError::UnexpectedEndOfInput));
    let mut pc: usize = 0;
    assert_eq!(simulate_eof_step(&[PUSH2, 1], &mut pc, &mut stack), Err(EOFError::TruncatedPushData));
}

#[test]
fn stack_holds_at_most_1024() {
    let mut stack = SimulatedStack::new();
    for i in 0..1024 {
        stack.push((i % 256) as u8).unwrap();
    }
    assert_eq!(stack.push(1), Err(EOFError::StackOverflow));
    assert_eq!(stack.len(), 1024);
    let mut pc: usize = 0;
    assert_eq!(simulate_eof_step(&[PUSH1, 1], &mut pc, &mut stack), Err(EOFError::StackOverflow));
    assert_eq!(pc, 0);
    let mut empty = SimulatedStack::new();
    assert_eq!(empty.pop(), Err(EOFError::StackUnderflow));
}

#[test]
fn jump_with_missing_offset_is_end_of_input() {
    let mut pc: usize = 0;
    let mut stack = SimulatedStack::new();
    assert_eq!(simulate_eof_step(&[RJUMP, 0x00], &mut pc, &mut stack), Err(EOFError::UnexpectedEndOfInput));
    assert_eq!(pc, 0);
}

#[test]
fn backward_jump_before_start_wraps() {
    let mut pc: usize = 0;
    let mut stack = SimulatedStack::new();
    simulate_eof_step(&[RJUMP, 0xFF, 0xF0], &mut pc, &mut stack).unwrap();
    assert_eq!(pc, usize::MAX - 12);
    assert_eq!(simulate_eof_step(&[RJUMP, 0xFF, 0xF0], &mut pc, &mut stack), Err(EOFError::UnexpectedEndOfInput));
}

#[test]
fn error_messages_name_the_offending_value() {
    assert_eq!(EOFError::InvalidVersion(2).message(), "Invalid EOF version: 2");
    assert_eq!(EOFError::InvalidSectionKind(200).message(), "Invalid section kind: 200");
    assert_eq!(EOFError::UnsupportedSectionKind(42).message(), "Unsupported section kind: 42");
    assert_eq!(EOFError::InvalidOpcode(0xFE).message(), "Code section contains invalid opcode: 0xfe");
    assert_eq!(
        EOFError::JumpDestForbidden(0x0A).message(),
        "Forbidden JUMPDEST related opcode in EOF: 0x0a"
    );
    assert_eq!(EOFError::DuplicateSection(SectionKind::Data).message(), "Duplicate section kind: Data");
    assert_eq!(EOFError::MissingTerminator.message(), "Missing EOF section terminator (0x00)");
    assert_eq!(EOFError::StackOverflow.message(), "Simulated stack overflow");
}
