use crate::catalog::{
    byte_of_kind, decode_kind, lemma_kind_byte_round_trip, may_repeat, SectionKind,
};
use crate::error::EOFError;
use crate::parser::{
    be16, has_kind, parse_contents, parse_headers, parse_spec, ContainerView, SectionHeader,
    EOF_VERSION,
};
use crate::validator::validate_spec;
use vstd::prelude::*;

verus! {

/// The three wire bytes of one section header.
pub open spec fn header_bytes(h: SectionHeader) -> Seq<u8> {
    seq![byte_of_kind(h.kind), (h.size / 256) as u8, (h.size % 256) as u8]
}

/// The wire bytes of headers `i..`, in order.
pub open spec fn headers_bytes_from(hs: Seq<SectionHeader>, i: nat) -> Seq<u8>
    decreases hs.len() - i,
{
    if i >= hs.len() {
        seq![]
    } else {
        header_bytes(hs[i as int]) + headers_bytes_from(hs, i + 1)
    }
}

/// The contents of sections `i..`, concatenated.
pub open spec fn contents_from(secs: Seq<Seq<u8>>, i: nat) -> Seq<u8>
    decreases secs.len() - i,
{
    if i >= secs.len() {
        seq![]
    } else {
        secs[i as int] + contents_from(secs, i + 1)
    }
}

/// The wire encoding of a container: magic, version, headers, terminator, contents.
pub open spec fn serialize(c: ContainerView) -> Seq<u8> {
    seq![0xEFu8, 0x00u8, c.version] + headers_bytes_from(c.headers, 0) + seq![0u8]
        + contents_from(c.sections, 0)
}

/// No kind that must be unique is declared twice.
pub open spec fn no_forbidden_repeats(hs: Seq<SectionHeader>) -> bool {
    forall|i: int, j: int|
        0 <= i < j < hs.len() && #[trigger] hs[i].kind == #[trigger] hs[j].kind ==> may_repeat(
            hs[i].kind,
        )
}

proof fn lemma_headers_bytes_len(hs: Seq<SectionHeader>, i: nat)
    requires
        i <= hs.len(),
    ensures
        headers_bytes_from(hs, i).len() == 3 * (hs.len() - i),
    decreases hs.len() - i,
{
    if i < hs.len() {
        lemma_headers_bytes_len(hs, i + 1);
    }
}

proof fn lemma_be16_split(size: u16)
    ensures
        be16((size / 256) as u8, (size % 256) as u8) == size,
{
    assert((size / 256) * 256 + size % 256 == size) by (nonlinear_arith);
}

proof fn lemma_parse_encoded_headers(b: Seq<u8>, pos: nat, hs: Seq<SectionHeader>, i: nat)
    requires
        i <= hs.len(),
        no_forbidden_repeats(hs),
        pos + 3 * (hs.len() - i) < b.len(),
        b.subrange(pos as int, pos + 3 * (hs.len() - i)) == headers_bytes_from(hs, i),
        b[pos + 3 * (hs.len() - i)] == 0,
    ensures
        parse_headers(b, pos, hs.take(i as int)) == Ok::<(Seq<SectionHeader>, nat), EOFError>(
            (hs, (pos + 3 * (hs.len() - i) + 1) as nat),
        ),
    decreases hs.len() - i,
{
    let end = pos + 3 * (hs.len() - i);
    if i == hs.len() {
        assert(hs.take(i as int) =~= hs);
    } else {
        let h = hs[i as int];
        lemma_headers_bytes_len(hs, i + 1);
        let enc = headers_bytes_from(hs, i);
        assert(enc =~= header_bytes(h) + headers_bytes_from(hs, i + 1));
        assert(b[pos as int] == enc[0]);
        assert(b[pos + 1int] == enc[1]);
        assert(b[pos + 2int] == enc[2]);
        lemma_kind_byte_round_trip(h.kind);
        lemma_be16_split(h.size);
        assert(decode_kind(b[pos as int]) == Ok::<SectionKind, EOFError>(h.kind));
        if !may_repeat(h.kind) && has_kind(hs.take(i as int), h.kind) {
            let j = choose|j: int|
                0 <= j < hs.take(i as int).len() && #[trigger] hs.take(i as int)[j].kind == h.kind;
            assert(hs[j].kind == hs[i as int].kind);
        }
        assert(hs.take(i as int).push(h) =~= hs.take(i + 1int));
        assert(b.subrange(pos + 3int, end as int) =~= enc.subrange(3, enc.len() as int));
        assert(enc.subrange(3, enc.len() as int) =~= headers_bytes_from(hs, i + 1));
        lemma_parse_encoded_headers(b, pos + 3, hs, i + 1);
    }
}

proof fn lemma_parse_encoded_contents(
    b: Seq<u8>,
    pos: nat,
    total: nat,
    c: ContainerView,
    i: nat,
)
    requires
        c.wf(),
        i <= c.headers.len(),
        pos + contents_from(c.sections, i).len() <= b.len(),
        b.subrange(pos as int, (pos + contents_from(c.sections, i).len()) as int) == contents_from(
            c.sections,
            i,
        ),
        total + contents_from(c.sections, i).len() <= usize::MAX,
    ensures
        parse_contents(b, pos, total, c.headers, i, c.sections.take(i as int)) == Ok::<
            (Seq<Seq<u8>>, nat),
            EOFError,
        >((c.sections, pos + contents_from(c.sections, i).len())),
    decreases c.headers.len() - i,
{
    let rest = contents_from(c.sections, i);
    if i == c.headers.len() {
        assert(c.sections.take(i as int) =~= c.sections);
    } else {
        let s = c.sections[i as int];
        let size = c.headers[i as int].size as nat;
        assert(s.len() == size);
        assert(rest =~= s + contents_from(c.sections, i + 1));
        let end = pos + rest.len();
        assert(b.subrange(pos as int, (pos + size) as int) =~= rest.subrange(0, size as int));
        assert(rest.subrange(0, size as int) =~= s);
        assert(b.subrange((pos + size) as int, end as int) =~= rest.subrange(
            size as int,
            rest.len() as int,
        ));
        assert(rest.subrange(size as int, rest.len() as int) =~= contents_from(c.sections, i + 1));
        assert(c.sections.take(i as int).push(s) =~= c.sections.take(i + 1int));
        lemma_parse_encoded_contents(b, pos + size, total + size, c, i + 1);
    }
}

/// Encoding a well-formed container and decoding the bytes gives the same
/// container back, provided the container is one the decoder accepts at all:
/// the supported version, a type section, no repeated type or data section,
/// and an encoding short enough to be addressed.
pub proof fn lemma_parse_serialize_round_trip(c: ContainerView)
    requires
        c.wf(),
        c.version == EOF_VERSION,
        has_kind(c.headers, SectionKind::Type),
        no_forbidden_repeats(c.headers),
        serialize(c).len() <= usize::MAX,
    ensures
        parse_spec(serialize(c)) == Ok::<ContainerView, EOFError>(c),
{
    let b = serialize(c);
    let hs = c.headers;
    let hb = headers_bytes_from(hs, 0);
    let cb = contents_from(c.sections, 0);
    lemma_headers_bytes_len(hs, 0);
    let p = 3 + hb.len();
    assert(b.len() == p + 1 + cb.len());
    assert(b[0] == 0xEF && b[1] == 0x00 && b[2] == c.version);
    assert(be16(b[0], b[1]) == 0xEF00);
    assert(b.subrange(3, p as int) =~= hb);
    assert(b[p as int] == 0);
    assert(hs.take(0) =~= seq![]);
    lemma_parse_encoded_headers(b, 3, hs, 0);
    assert(b.subrange(p + 1int, b.len() as int) =~= cb);
    assert(c.sections.take(0) =~= seq![]);
    lemma_parse_encoded_contents(b, p + 1, 0, c, 0);
}

proof fn lemma_headers_on_prefix(b: Seq<u8>, k: nat, pos: nat, acc: Seq<SectionHeader>)
    requires
        k <= b.len(),
        parse_headers(b, pos, acc) is Ok,
    ensures
        pos < parse_headers(b, pos, acc)->Ok_0.1 <= b.len(),
        k >= parse_headers(b, pos, acc)->Ok_0.1 ==> parse_headers(b.take(k as int), pos, acc)
            == parse_headers(b, pos, acc),
        k < parse_headers(b, pos, acc)->Ok_0.1 ==> parse_headers(b.take(k as int), pos, acc)
            == Err::<(Seq<SectionHeader>, nat), EOFError>(EOFError::UnexpectedEndOfInput),
    decreases b.len() - pos,
{
    let t = b.take(k as int);
    if pos < k {
        assert(t[pos as int] == b[pos as int]);
    }
    if b[pos as int] != 0 {
        let k2 = decode_kind(b[pos as int])->Ok_0;
        let h = SectionHeader { kind: k2, size: be16(b[pos + 1int], b[pos + 2int]) };
        if pos + 3 <= k {
            assert(t[pos + 1int] == b[pos + 1int]);
            assert(t[pos + 2int] == b[pos + 2int]);
        }
        lemma_headers_on_prefix(b, k, pos + 3, acc.push(h));
    }
}

proof fn lemma_contents_on_prefix(
    b: Seq<u8>,
    k: nat,
    pos: nat,
    total: nat,
    hs: Seq<SectionHeader>,
    i: nat,
    acc: Seq<Seq<u8>>,
)
    requires
        pos <= k <= b.len(),
        parse_contents(b, pos, total, hs, i, acc) is Ok,
    ensures
        pos <= parse_contents(b, pos, total, hs, i, acc)->Ok_0.1 <= b.len(),
        k >= parse_contents(b, pos, total, hs, i, acc)->Ok_0.1 ==> parse_contents(
            b.take(k as int),
            pos,
            total,
            hs,
            i,
            acc,
        ) == parse_contents(b, pos, total, hs, i, acc),
        k < parse_contents(b, pos, total, hs, i, acc)->Ok_0.1 ==> parse_contents(
            b.take(k as int),
            pos,
            total,
            hs,
            i,
            acc,
        ) == Err::<(Seq<Seq<u8>>, nat), EOFError>(EOFError::UnexpectedEndOfInput),
    decreases hs.len() - i,
{
    let t = b.take(k as int);
    if i < hs.len() {
        let size = hs[i as int].size as nat;
        let next = (pos + size) as nat;
        let piece = b.subrange(pos as int, next as int);
        if next <= k {
            assert(t.subrange(pos as int, next as int) =~= piece);
            lemma_contents_on_prefix(b, k, next, total + size, hs, i + 1, acc.push(piece));
        } else {
            lemma_contents_on_prefix(b, next, next, total + size, hs, i + 1, acc.push(piece));
        }
    }
}

/// No proper prefix of an accepted encoding is accepted: decoding every
/// shorter prefix fails for want of input.
pub proof fn lemma_truncation_rejected(b: Seq<u8>, k: nat)
    requires
        parse_spec(b) is Ok,
        k < b.len(),
    ensures
        parse_spec(b.take(k as int)) == Err::<ContainerView, EOFError>(
            EOFError::UnexpectedEndOfInput,
        ),
{
    let t = b.take(k as int);
    if k >= 3 {
        assert(t[0] == b[0] && t[1] == b[1] && t[2] == b[2]);
        let empty = Seq::<SectionHeader>::empty();
        lemma_headers_on_prefix(b, k, 3, empty);
        let hp = parse_headers(b, 3, empty)->Ok_0;
        if k >= hp.1 {
            let empty_secs = Seq::<Seq<u8>>::empty();
            lemma_contents_on_prefix(b, k, hp.1, 0, hp.0, 0, empty_secs);
        }
    }
}

/// Decoding depends on the bytes alone: equal inputs give equal results.
pub proof fn lemma_parse_deterministic(a: Seq<u8>, b: Seq<u8>)
    requires
        a == b,
    ensures
        parse_spec(a) == parse_spec(b),
{
}

/// Validation depends on the container's value alone, so it gives the same
/// result however often it runs on the same container.
pub proof fn lemma_validate_deterministic(c: ContainerView, d: ContainerView)
    requires
        c == d,
    ensures
        validate_spec(c) == validate_spec(d),
{
}

} // verus!
