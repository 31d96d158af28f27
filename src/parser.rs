use crate::catalog::{decode_kind, may_repeat, SectionKind, TERMINATOR};
use crate::error::EOFError;
use vstd::prelude::*;

verus! {

/// The two bytes every container starts with, read big-endian.
pub const EOF_MAGIC: u16 = 0xEF00;

/// The one container version this library accepts.
pub const EOF_VERSION: u8 = 0x01;

/// One declared section: its kind and the exact length of its content.
#[derive(Debug, Clone, Copy, PartialEq, Eq, Structural)]
pub struct SectionHeader {
    pub kind: SectionKind,
    pub size: u16,
}

#[derive(Debug, Clone, PartialEq, Eq)]
pub struct EOFHeader {
    pub version: u8,
    pub section_headers: Vec<SectionHeader>,
}

/// A decoded container: the header and the content of each declared section,
/// in declaration order.
#[derive(Debug, Clone, PartialEq, Eq)]
pub struct EOFContainer {
    pub header: EOFHeader,
    pub sections: Vec<Vec<u8>>,
}

/// The mathematical value of a container.
pub struct ContainerView {
    pub version: u8,
    pub headers: Seq<SectionHeader>,
    pub sections: Seq<Seq<u8>>,
}

impl ContainerView {
    /// One content per header, each exactly as long as its header declares.
    pub open spec fn wf(self) -> bool {
        &&& self.sections.len() == self.headers.len()
        &&& forall|i: int|
            0 <= i < self.headers.len() ==> #[trigger] self.sections[i].len()
                == self.headers[i].size
    }
}

pub open spec fn section_views(s: Seq<Vec<u8>>) -> Seq<Seq<u8>> {
    s.map_values(|v: Vec<u8>| v@)
}

impl View for EOFContainer {
    type V = ContainerView;

    open spec fn view(&self) -> ContainerView {
        ContainerView {
            version: self.header.version,
            headers: self.header.section_headers@,
            sections: section_views(self.sections@),
        }
    }
}

impl EOFContainer {
    pub open spec fn wf(&self) -> bool {
        self@.wf()
    }
}

pub open spec fn result_view(r: Result<EOFContainer, EOFError>) -> Result<ContainerView, EOFError> {
    match r {
        Ok(c) => Ok(c@),
        Err(e) => Err(e),
    }
}

/// A big-endian unsigned 16-bit value.
pub open spec fn be16(hi: u8, lo: u8) -> u16 {
    (hi as int * 256 + lo as int) as u16
}

pub open spec fn has_kind(hs: Seq<SectionHeader>, k: SectionKind) -> bool {
    exists|i: int| 0 <= i < hs.len() && #[trigger] hs[i].kind == k
}

/// Reads section headers from `pos` on, `acc` being those already read; gives
/// all headers and the position just past the terminator.
pub open spec fn parse_headers(b: Seq<u8>, pos: nat, acc: Seq<SectionHeader>) -> Result<
    (Seq<SectionHeader>, nat),
    EOFError,
>
    decreases b.len() - pos,
{
    if pos >= b.len() {
        Err(EOFError::UnexpectedEndOfInput)
    } else if b[pos as int] == TERMINATOR {
        Ok((acc, pos + 1))
    } else {
        match decode_kind(b[pos as int]) {
            Err(e) => Err(e),
            Ok(k) => if pos + 3 > b.len() {
                Err(EOFError::UnexpectedEndOfInput)
            } else if !may_repeat(k) && has_kind(acc, k) {
                Err(EOFError::DuplicateSection(k))
            } else {
                let h = SectionHeader { kind: k, size: be16(b[pos + 1int], b[pos + 2int]) };
                parse_headers(b, pos + 3, acc.push(h))
            },
        }
    }
}

/// Cuts the contents of headers `i..` out of `b` from `pos` on, `acc` being the
/// contents already cut and `total` their summed length; gives all contents and
/// the position just past the last.
pub open spec fn parse_contents(
    b: Seq<u8>,
    pos: nat,
    total: nat,
    hs: Seq<SectionHeader>,
    i: nat,
    acc: Seq<Seq<u8>>,
) -> Result<(Seq<Seq<u8>>, nat), EOFError>
    decreases hs.len() - i,
{
    if i >= hs.len() {
        Ok((acc, pos))
    } else {
        let size = hs[i as int].size as nat;
        if total + size > usize::MAX {
            Err(EOFError::SectionSizeMismatch)
        } else if pos + size > b.len() {
            Err(EOFError::UnexpectedEndOfInput)
        } else {
            parse_contents(
                b,
                pos + size,
                total + size,
                hs,
                i + 1,
                acc.push(b.subrange(pos as int, (pos + size) as int)),
            )
        }
    }
}

/// What decoding `b` gives: a container, or the first structural error.
pub open spec fn parse_spec(b: Seq<u8>) -> Result<ContainerView, EOFError> {
    if b.len() < 2 {
        Err(EOFError::UnexpectedEndOfInput)
    } else if be16(b[0], b[1]) != EOF_MAGIC {
        Err(EOFError::InvalidMagic)
    } else if b.len() < 3 {
        Err(EOFError::UnexpectedEndOfInput)
    } else if b[2] != EOF_VERSION {
        Err(EOFError::InvalidVersion(b[2]))
    } else {
        match parse_headers(b, 3, seq![]) {
            Err(e) => Err(e),
            Ok((hs, p)) => if hs.len() == 0 || !has_kind(hs, SectionKind::Type) {
                Err(EOFError::MissingTerminator)
            } else {
                match parse_contents(b, p, 0, hs, 0, seq![]) {
                    Err(e) => Err(e),
                    Ok((secs, q)) => if q < b.len() {
                        Err(EOFError::SectionSizeMismatch)
                    } else {
                        Ok(ContainerView { version: b[2], headers: hs, sections: secs })
                    },
                }
            },
        }
    }
}

pub(crate) fn read_be16(hi: u8, lo: u8) -> (r: u16)
    ensures
        r == be16(hi, lo),
{
    (hi as u16) * 256 + (lo as u16)
}

/// Copies `b[start..end]` into a vector of its own.
fn copy_range(b: &[u8], start: usize, end: usize) -> (r: Vec<u8>)
    requires
        start <= end <= b@.len(),
    ensures
        r@ == b@.subrange(start as int, end as int),
{
    let mut r: Vec<u8> = Vec::with_capacity(end - start);
    let mut i: usize = start;
    while i < end
        invariant
            start <= i <= end <= b@.len(),
            r@ == b@.subrange(start as int, i as int),
        decreases end - i,
    {
        r.push(b[i]);
        i += 1;
        assert(r@ =~= b@.subrange(start as int, i as int));
    }
    r
}

proof fn lemma_has_kind_push(hs: Seq<SectionHeader>, h: SectionHeader, k: SectionKind)
    ensures
        has_kind(hs.push(h), k) == (has_kind(hs, k) || h.kind == k),
{
    if has_kind(hs, k) {
        let i = choose|i: int| 0 <= i < hs.len() && #[trigger] hs[i].kind == k;
        assert(hs.push(h)[i].kind == k);
    }
    if h.kind == k {
        assert(hs.push(h)[hs.len() as int].kind == k);
    }
    if has_kind(hs.push(h), k) {
        let i = choose|i: int| 0 <= i < hs.push(h).len() && #[trigger] hs.push(h)[i].kind == k;
        if i < hs.len() {
            assert(hs[i].kind == k);
        }
    }
}

/// Decodes `bytecode` into a container, checking its structure only: magic,
/// version, the header list and its terminator, and that the declared sizes
/// cover the input exactly.
pub fn parse_eof_container(bytecode: &[u8]) -> (r: Result<EOFContainer, EOFError>)
    ensures
        result_view(r) == parse_spec(bytecode@),
        r is Ok ==> r->Ok_0.wf(),
{
    let len = bytecode.len();
    if len < 2 {
        return Err(EOFError::UnexpectedEndOfInput);
    }
    let magic = read_be16(bytecode[0], bytecode[1]);
    if magic != EOF_MAGIC {
        return Err(EOFError::InvalidMagic);
    }
    if len < 3 {
        return Err(EOFError::UnexpectedEndOfInput);
    }
    let version = bytecode[2];
    if version != EOF_VERSION {
        return Err(EOFError::InvalidVersion(version));
    }

    let ghost b = bytecode@;
    let mut cursor: usize = 3;
    let mut section_headers: Vec<SectionHeader> = Vec::new();
    let mut seen_type = false;
    let mut seen_data = false;
    loop
        invariant_except_break
            3 <= cursor <= len,
            parse_headers(b, 3, seq![]) == parse_headers(b, cursor as nat, section_headers@),
            seen_type == has_kind(section_headers@, SectionKind::Type),
            seen_data == has_kind(section_headers@, SectionKind::Data),
        invariant
            len == b.len(),
            b == bytecode@,
            be16(b[0], b[1]) == EOF_MAGIC,
            b[2] == EOF_VERSION,
        ensures
            cursor <= len,
            parse_headers(b, 3, seq![]) == Ok::<(Seq<SectionHeader>, nat), EOFError>(
                (section_headers@, cursor as nat),
            ),
            seen_type == has_kind(section_headers@, SectionKind::Type),
        decreases len - cursor,
    {
        if cursor >= len {
            assert(parse_headers(b, cursor as nat, section_headers@) == Err::<(Seq<SectionHeader>, nat), EOFError>(EOFError::UnexpectedEndOfInput));
            return Err(EOFError::UnexpectedEndOfInput);
        }
        let kind_byte = bytecode[cursor];
        if kind_byte == TERMINATOR {
            cursor += 1;
            break;
        }
        let kind = match SectionKind::try_from(kind_byte) {
            Ok(k) => k,
            Err(e) => return Err(e),
        };
        if len - cursor < 3 {
            return Err(EOFError::UnexpectedEndOfInput);
        }
        let size = read_be16(bytecode[cursor + 1], bytecode[cursor + 2]);
        match kind {
            SectionKind::Type => {
                if seen_type {
                    return Err(EOFError::DuplicateSection(kind));
                }
                seen_type = true;
            },
            SectionKind::Data => {
                if seen_data {
                    return Err(EOFError::DuplicateSection(kind));
                }
                seen_data = true;
            },
            _ => {},
        }
        let h = SectionHeader { kind, size };
        proof {
            lemma_has_kind_push(section_headers@, h, SectionKind::Type);
            lemma_has_kind_push(section_headers@, h, SectionKind::Data);
        }
        section_headers.push(h);
        cursor += 3;
    }

    if section_headers.len() == 0 || !seen_type {
        return Err(EOFError::MissingTerminator);
    }

    let ghost contents_start = cursor as nat;
    let mut sections: Vec<Vec<u8>> = Vec::new();
    let mut total: usize = 0;
    let mut i: usize = 0;
    assert(section_views(sections@) =~= seq![]);
    while i < section_headers.len()
        invariant
            len == b.len(),
            b == bytecode@,
            be16(b[0], b[1]) == EOF_MAGIC,
            b[2] == EOF_VERSION,
            version == b[2],
            parse_headers(b, 3, seq![]) == Ok::<(Seq<SectionHeader>, nat), EOFError>(
                (section_headers@, contents_start),
            ),
            section_headers@.len() > 0,
            has_kind(section_headers@, SectionKind::Type),
            i <= section_headers@.len(),
            cursor <= len,
            sections@.len() == i,
            forall|j: int|
                0 <= j < i ==> #[trigger] sections@[j]@.len() == section_headers@[j].size,
            parse_contents(b, contents_start, 0, section_headers@, 0, seq![]) == parse_contents(
                b,
                cursor as nat,
                total as nat,
                section_headers@,
                i as nat,
                section_views(sections@),
            ),
        decreases section_headers@.len() - i,
    {
        let size = section_headers[i].size as usize;
        total = match total.checked_add(size) {
            Some(t) => t,
            None => return Err(EOFError::SectionSizeMismatch),
        };
        if size > len - cursor {
            return Err(EOFError::UnexpectedEndOfInput);
        }
        let content = copy_range(bytecode, cursor, cursor + size);
        proof {
            assert(section_views(sections@.push(content)) =~= section_views(sections@).push(
                content@,
            ));
        }
        sections.push(content);
        cursor += size;
        i += 1;
    }

    if len > cursor {
        return Err(EOFError::SectionSizeMismatch);
    }

    let c = EOFContainer { header: EOFHeader { version, section_headers }, sections };
    assert(c@.wf());
    Ok(c)
}

} // verus!
