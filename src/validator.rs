use crate::catalog::{kind_rank, SectionKind};
use crate::error::EOFError;
use crate::opcodes::{
    is_push, push_len, push_size, INVALID, JUMP, JUMPI, PC, PUSH1, PUSH32, SELFDESTRUCT,
};
use crate::parser::{ContainerView, EOFContainer, SectionHeader};
use vstd::prelude::*;

verus! {

/// Header `i` stands where the canonical order `Type, Code*, Container*, Data?`
/// lets it stand, given the header before it.
pub open spec fn order_ok(hs: Seq<SectionHeader>, i: int) -> bool {
    if i == 0 {
        hs[0].kind == SectionKind::Type
    } else {
        let prev = hs[i - 1].kind;
        let k = hs[i].kind;
        &&& k != SectionKind::Type
        &&& kind_rank(prev) <= kind_rank(k)
        &&& !(prev == SectionKind::Data && k == SectionKind::Data)
    }
}

/// Type and code sections must carry content.
pub open spec fn must_have_content(k: SectionKind) -> bool {
    k == SectionKind::Type || k == SectionKind::Code
}

/// The order and emptiness rules over headers `i..`, first failure first.
pub open spec fn check_headers(hs: Seq<SectionHeader>, i: nat) -> Result<(), EOFError>
    decreases hs.len() - i,
{
    if i >= hs.len() {
        Ok(())
    } else if !order_ok(hs, i as int) {
        Err(EOFError::MalformedSectionHeader)
    } else if hs[i as int].size == 0 && must_have_content(hs[i as int].kind) {
        Err(EOFError::SectionSizeMismatch)
    } else {
        check_headers(hs, i + 1)
    }
}

/// The number of code headers among headers `i..`.
pub open spec fn code_count_from(hs: Seq<SectionHeader>, i: nat) -> nat
    decreases hs.len() - i,
{
    if i >= hs.len() {
        0
    } else {
        (if hs[i as int].kind == SectionKind::Code {
            1nat
        } else {
            0nat
        }) + code_count_from(hs, i + 1)
    }
}

pub open spec fn code_count(hs: Seq<SectionHeader>) -> nat {
    code_count_from(hs, 0)
}

/// The instruction rules over `code` from the instruction that starts at `i`.
pub open spec fn check_code(code: Seq<u8>, i: nat) -> Result<(), EOFError>
    decreases code.len() - i,
{
    if i >= code.len() {
        Ok(())
    } else {
        let op = code[i as int];
        if op == INVALID || op == SELFDESTRUCT {
            Err(EOFError::InvalidOpcode(op))
        } else if op == JUMP || op == JUMPI || op == PC {
            Err(EOFError::JumpDestForbidden(op))
        } else if is_push(op) {
            if i + 1 + push_len(op) > code.len() {
                Err(EOFError::TruncatedPushData)
            } else {
                check_code(code, i + 1 + push_len(op))
            }
        } else {
            check_code(code, i + 1)
        }
    }
}

/// The instruction rules over every code section among sections `i..`.
pub open spec fn check_sections(hs: Seq<SectionHeader>, secs: Seq<Seq<u8>>, i: nat) -> Result<
    (),
    EOFError,
>
    decreases hs.len() - i,
{
    if i >= hs.len() {
        Ok(())
    } else if hs[i as int].kind == SectionKind::Code && check_code(secs[i as int], 0) is Err {
        check_code(secs[i as int], 0)
    } else {
        check_sections(hs, secs, i + 1)
    }
}

/// The type section holds one 4-byte record per code section.
pub open spec fn types_match_code(hs: Seq<SectionHeader>) -> bool {
    hs[0].size % 4 == 0 && hs[0].size / 4 == code_count(hs)
}

/// What validating a container gives: success, or the first rule it breaks.
pub open spec fn validate_spec(c: ContainerView) -> Result<(), EOFError> {
    if check_headers(c.headers, 0) is Err {
        check_headers(c.headers, 0)
    } else if code_count(c.headers) == 0 {
        Err(EOFError::MissingTerminator)
    } else if check_sections(c.headers, c.sections, 0) is Err {
        check_sections(c.headers, c.sections, 0)
    } else if !types_match_code(c.headers) {
        Err(EOFError::MalformedSectionHeader)
    } else {
        Ok(())
    }
}

/// Scans one code section instruction by instruction.
pub fn validate_code(code: &Vec<u8>) -> (r: Result<(), EOFError>)
    ensures
        r == check_code(code@, 0),
{
    let len = code.len();
    let mut i: usize = 0;
    while i < len
        invariant
            len == code@.len(),
            i <= len,
            check_code(code@, 0) == check_code(code@, i as nat),
        decreases len - i,
    {
        let opcode = code[i];
        if opcode == INVALID || opcode == SELFDESTRUCT {
            return Err(EOFError::InvalidOpcode(opcode));
        }
        if opcode == JUMP || opcode == JUMPI || opcode == PC {
            return Err(EOFError::JumpDestForbidden(opcode));
        }
        if PUSH1 <= opcode && opcode <= PUSH32 {
            let n = push_size(opcode);
            if n >= len - i {
                return Err(EOFError::TruncatedPushData);
            }
            i += n;
        }
        i += 1;
    }
    Ok(())
}

/// Checks a decoded container against the section order, emptiness and count
/// rules and every code section against the instruction rules; reports the
/// first rule broken.
pub fn validate_eof_container(container: &EOFContainer) -> (r: Result<(), EOFError>)
    requires
        container.wf(),
    ensures
        r == validate_spec(container@),
{
    let hs = &container.header.section_headers;
    let n = hs.len();
    let mut code_section_count: usize = 0;
    let mut i: usize = 0;
    while i < n
        invariant
            n == hs@.len(),
            hs == &container.header.section_headers,
            i <= n,
            code_section_count <= i,
            check_headers(hs@, 0) == check_headers(hs@, i as nat),
            code_section_count + code_count_from(hs@, i as nat) == code_count(hs@),
        decreases n - i,
    {
        let h = hs[i];
        let in_order = if i == 0 {
            h.kind == SectionKind::Type
        } else {
            let prev = hs[i - 1].kind;
            h.kind != SectionKind::Type && prev.rank() <= h.kind.rank() && !(prev
                == SectionKind::Data && h.kind == SectionKind::Data)
        };
        if !in_order {
            return Err(EOFError::MalformedSectionHeader);
        }
        if h.size == 0 && (h.kind == SectionKind::Type || h.kind == SectionKind::Code) {
            return Err(EOFError::SectionSizeMismatch);
        }
        if h.kind == SectionKind::Code {
            code_section_count += 1;
        }
        i += 1;
    }

    if code_section_count == 0 {
        return Err(EOFError::MissingTerminator);
    }

    let mut idx: usize = 0;
    while idx < n
        invariant
            n == hs@.len(),
            hs == &container.header.section_headers,
            container.wf(),
            idx <= n,
            check_headers(hs@, 0) is Ok,
            code_section_count == code_count(hs@),
            code_section_count > 0,
            check_sections(hs@, container@.sections, 0) == check_sections(
                hs@,
                container@.sections,
                idx as nat,
            ),
        decreases n - idx,
    {
        if hs[idx].kind == SectionKind::Code {
            let code = &container.sections[idx];
            assert(code@ == container@.sections[idx as int]);
            match validate_code(code) {
                Ok(()) => {},
                Err(e) => return Err(e),
            }
        }
        idx += 1;
    }

    let type_size = hs[0].size;
    if type_size % 4 != 0 {
        return Err(EOFError::MalformedSectionHeader);
    }
    if (type_size / 4) as usize != code_section_count {
        return Err(EOFError::MalformedSectionHeader);
    }
    Ok(())
}

proof fn lemma_headers_each_in_order(hs: Seq<SectionHeader>, i: nat)
    requires
        check_headers(hs, i) is Ok,
    ensures
        forall|j: int| i <= j < hs.len() ==> #[trigger] order_ok(hs, j),
    decreases hs.len() - i,
{
    if i < hs.len() {
        lemma_headers_each_in_order(hs, i + 1);
        assert forall|j: int| i <= j < hs.len() implies #[trigger] order_ok(hs, j) by {
            if j > i {
                assert(order_ok(hs, j));
            }
        }
    }
}

proof fn lemma_rank_grows(hs: Seq<SectionHeader>, i: int, j: int)
    requires
        0 <= i <= j < hs.len(),
        forall|m: int| 0 <= m < hs.len() ==> #[trigger] order_ok(hs, m),
    ensures
        kind_rank(hs[i].kind) <= kind_rank(hs[j].kind),
        hs[i].kind == SectionKind::Data ==> hs[j].kind == SectionKind::Data,
        i < j && hs[i].kind == SectionKind::Data ==> j == i + 1,
    decreases j - i,
{
    if i < j {
        lemma_rank_grows(hs, i, j - 1);
        assert(order_ok(hs, j));
        if j - 1 > i && hs[i].kind == SectionKind::Data {
            assert(order_ok(hs, j - 1));
            lemma_rank_grows(hs, i + 1, j - 1);
            assert(order_ok(hs, i + 1));
        }
    }
}

proof fn lemma_some_code(hs: Seq<SectionHeader>, i: nat) -> (m: int)
    requires
        code_count_from(hs, i) > 0,
    ensures
        i <= m < hs.len(),
        hs[m].kind == SectionKind::Code,
    decreases hs.len() - i,
{
    if hs[i as int].kind == SectionKind::Code {
        i as int
    } else {
        lemma_some_code(hs, i + 1)
    }
}

/// A container that passes validation declares its sections in the one
/// canonical order `Type, Code+, Container*, Data?`: a type section first,
/// then at least one code section, no kind ever following a later one in that
/// order, no second type section and no second data section.
pub proof fn lemma_accepted_order_is_canonical(c: ContainerView)
    requires
        validate_spec(c) is Ok,
    ensures
        c.headers.len() >= 2,
        c.headers[0].kind == SectionKind::Type,
        c.headers[1].kind == SectionKind::Code,
        forall|i: int, j: int|
            0 <= i < j < c.headers.len() ==> {
                &&& kind_rank(#[trigger] c.headers[i].kind) <= kind_rank(
                    #[trigger] c.headers[j].kind,
                )
                &&& c.headers[j].kind != SectionKind::Type
                &&& !(c.headers[i].kind == SectionKind::Data && c.headers[j].kind
                    == SectionKind::Data)
            },
{
    let hs = c.headers;
    lemma_headers_each_in_order(hs, 0);
    let m = lemma_some_code(hs, 0);
    assert(order_ok(hs, 0));
    assert(m >= 1);
    lemma_rank_grows(hs, 1, m);
    assert(order_ok(hs, 1));
    assert forall|i: int, j: int| 0 <= i < j < hs.len() implies {
        &&& kind_rank(#[trigger] hs[i].kind) <= kind_rank(#[trigger] hs[j].kind)
        &&& hs[j].kind != SectionKind::Type
        &&& !(hs[i].kind == SectionKind::Data && hs[j].kind == SectionKind::Data)
    } by {
        lemma_rank_grows(hs, i, j);
        assert(order_ok(hs, j));
        if hs[i].kind == SectionKind::Data && j == i + 1 {
            assert(order_ok(hs, i + 1));
        }
    }
}

} // verus!
