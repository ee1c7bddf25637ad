//! The tag-length-value tree codec.
//!
//! A node carries a BER-style tag (one to several bytes: a first byte whose
//! low five bits are all set announces continuation bytes, which follow while
//! their high bit is set) and a definite-form length (one byte up to 0x7F,
//! else a `0x80 | k` marker followed by `k` big-endian bytes).  A tag whose
//! most significant byte has bit 0x20 set is constructed and holds child
//! nodes; otherwise it is primitive and holds raw bytes.
//!
//! The module states the codec over a mathematical view of the tree
//! ([`SpecTlv`]): [`spec_encoded`] is the serialised byte string and
//! [`spec_parse_tlv`] the decoder, and [`lemma_tlv_round_trip`] proves that
//! the decoder inverts the encoder on every well-formed tree.

use vstd::prelude::*;

verus! {

pub type Tag = usize;

#[derive(Debug)]
pub enum TlvError {
    TruncatedTlv,
    InvalidLength,
    InvalidTagNumber,
    TooShortBody { expected: usize, found: usize },
    TlvListExpected { tag_number: usize },
    ValExpected { tag_number: usize },
    TagPathError,
    ParseTagValue(String),
}

#[derive(Debug)]
pub enum Value {
    TlvList(Vec<Tlv>),
    Val(Vec<u8>),
    Nothing,
}

#[derive(Debug)]
pub struct Tlv {
    tag: Tag,
    val: Value,
}

/// Mathematical view of a [`Value`].
pub enum SpecValue {
    List(Seq<SpecTlv>),
    Bytes(Seq<u8>),
    Nothing,
}

/// Mathematical view of a [`Tlv`] node.
pub struct SpecTlv {
    pub tag: nat,
    pub val: SpecValue,
}

pub closed spec fn view_of_value(v: Value) -> SpecValue
    decreases v,
{
    match v {
        Value::TlvList(list) => SpecValue::List(view_of_list(list@)),
        Value::Val(bytes) => SpecValue::Bytes(bytes@),
        Value::Nothing => SpecValue::Nothing,
    }
}

pub open spec fn view_of_list(l: Seq<Tlv>) -> Seq<SpecTlv>
    decreases l,
{
    if l.len() == 0 {
        Seq::empty()
    } else {
        seq![view_of_tlv(l[0])] + view_of_list(l.drop_first())
    }
}

pub closed spec fn view_of_tlv(t: Tlv) -> SpecTlv
    decreases t,
{
    SpecTlv { tag: t.tag as nat, val: view_of_value(t.val) }
}

impl View for Tlv {
    type V = SpecTlv;

    closed spec fn view(&self) -> SpecTlv {
        view_of_tlv(*self)
    }
}

impl View for Value {
    type V = SpecValue;

    closed spec fn view(&self) -> SpecValue {
        view_of_value(*self)
    }
}

/// Minimal big-endian byte string of `n`: no leading zero, empty for zero.
pub open spec fn spec_min_be_bytes(n: nat) -> Seq<u8>
    decreases n,
{
    if n == 0 {
        Seq::empty()
    } else {
        spec_min_be_bytes(n / 256).push((n % 256) as u8)
    }
}

/// The value a big-endian byte string denotes.
pub open spec fn spec_be_value(s: Seq<u8>) -> nat
    decreases s.len(),
{
    if s.len() == 0 {
        0
    } else {
        (spec_be_value(s.drop_last()) * 256 + s.last()) as nat
    }
}

/// Whether bit 0x20 of the most significant tag byte is set: such a tag
/// announces a constructed node.
pub open spec fn spec_constructed(tag: nat) -> bool
    decreases tag,
{
    if tag < 256 {
        tag as u8 & 0x20 == 0x20
    } else {
        spec_constructed(tag / 256)
    }
}

/// Number of bytes the tag is stored in (a zero tag still occupies one byte).
pub open spec fn spec_tag_len(tag: nat) -> nat {
    if tag == 0 {
        1
    } else {
        spec_min_be_bytes(tag).len()
    }
}

/// The definite-form length field for a value of `len` bytes.
pub open spec fn spec_ber_len(len: nat) -> Seq<u8> {
    if len <= 0x7f {
        seq![len as u8]
    } else {
        seq![(0x80 + spec_min_be_bytes(len).len()) as u8] + spec_min_be_bytes(len)
    }
}

/// Serialised bytes of a whole node: tag, length field, then the value.
pub open spec fn spec_encoded(g: SpecTlv) -> Seq<u8>
    decreases g,
{
    spec_min_be_bytes(g.tag) + spec_ber_len(spec_value_len(g.val)) + spec_value_bytes(g.val)
}

/// Value size as the length accessors report it: for a child list, the sum of
/// the children's reported sizes.  On well-formed trees this equals the
/// serialised value's byte count ([`lemma_wf_len`]).
pub open spec fn spec_value_len(v: SpecValue) -> nat
    decreases v,
{
    match v {
        SpecValue::List(l) => spec_list_len(l),
        SpecValue::Bytes(b) => b.len(),
        SpecValue::Nothing => 0,
    }
}

pub open spec fn spec_list_len(l: Seq<SpecTlv>) -> nat
    decreases l,
{
    if l.len() == 0 {
        0
    } else {
        spec_tlv_len(l[0]) + spec_list_len(l.drop_first())
    }
}

/// Serialised bytes of a value alone.
pub open spec fn spec_value_bytes(v: SpecValue) -> Seq<u8>
    decreases v,
{
    match v {
        SpecValue::List(l) => spec_encoded_list(l),
        SpecValue::Bytes(b) => b,
        SpecValue::Nothing => Seq::empty(),
    }
}

/// Serialised bytes of a run of sibling nodes, in stored order.
pub open spec fn spec_encoded_list(l: Seq<SpecTlv>) -> Seq<u8>
    decreases l,
{
    if l.len() == 0 {
        Seq::empty()
    } else {
        spec_encoded(l[0]) + spec_encoded_list(l.drop_first())
    }
}

/// Total reported size: tag bytes, length-field bytes, and the value size.
pub open spec fn spec_tlv_len(g: SpecTlv) -> nat
    decreases g,
{
    spec_tag_len(g.tag) + spec_ber_len(spec_value_len(g.val)).len() + spec_value_len(g.val)
}

/// A tag the decoder reads back as it was written: non-zero, within the
/// machine word, and with the continuation structure its own bytes announce.
pub open spec fn spec_valid_tag(tag: nat) -> bool {
    let bs = spec_min_be_bytes(tag);
    &&& tag > 0
    &&& tag <= usize::MAX
    &&& if bs.len() <= 1 {
        bs[0] & 0x1f != 0x1f
    } else {
        &&& bs[0] & 0x1f == 0x1f
        &&& forall|i: int| 1 <= i < bs.len() - 1 ==> #[trigger] bs[i] & 0x80 != 0
        &&& bs[bs.len() - 1] & 0x80 == 0
    }
}

/// Typed conversion between raw primitive-value bytes and a richer value.
/// `spec_bytes` names a value's encoded form and `from_ok` the byte strings
/// that decode; decoding succeeds exactly on those and returns a value that
/// encodes back to the same bytes.  Implementations state more of their own
/// values.
pub trait TagValue: Sized {
    type Value;

    spec fn spec_bytes(&self) -> Seq<u8>;

    spec fn from_ok(raw: Seq<u8>) -> bool;

    fn new(val: Self::Value) -> Self;

    fn from_raw(raw: &[u8]) -> (r: Result<Self, TlvError>)
        ensures
            r is Ok <==> Self::from_ok(raw@),
            r matches Ok(x) ==> x.spec_bytes() == raw@,
    ;

    fn bytes(&self) -> (r: Vec<u8>)
        ensures
            r@ == self.spec_bytes(),
    ;
}

/// Whether `c` is an ASCII hexadecimal digit: 0-9, a-f or A-F.
pub open spec fn spec_is_hex_digit(c: char) -> bool {
    (48 <= c as u32 && c as u32 <= 57) || (97 <= c as u32 && c as u32 <= 102) || (65 <= c as u32
        && c as u32 <= 70)
}

pub open spec fn spec_hex_digit_val(c: char) -> nat {
    if 48 <= c as u32 && c as u32 <= 57 {
        (c as u32 - 48) as nat
    } else if 97 <= c as u32 && c as u32 <= 102 {
        (c as u32 - 97 + 10) as nat
    } else if 65 <= c as u32 && c as u32 <= 70 {
        (c as u32 - 65 + 10) as nat
    } else {
        0
    }
}

/// Reads a path string: hexadecimal digits accumulate into the current tag,
/// a slash closes the tag before it, and every other character is skipped.
/// A tag with no digits, anywhere in the path, fails, as does a tag beyond
/// the machine word.
pub open spec fn spec_get_path(s: Seq<char>) -> Option<Seq<nat>> {
    spec_get_path_at(s, 0, Seq::empty(), 0, false)
}

pub open spec fn spec_get_path_at(
    s: Seq<char>,
    i: nat,
    done: Seq<nat>,
    acc: nat,
    seen: bool,
) -> Option<Seq<nat>>
    decreases s.len() - i,
{
    if i >= s.len() {
        if seen {
            Some(done.push(acc))
        } else {
            None
        }
    } else {
        let c = s[i as int];
        if spec_is_hex_digit(c) {
            if acc * 16 + spec_hex_digit_val(c) > usize::MAX {
                None
            } else {
                spec_get_path_at(s, i + 1, done, acc * 16 + spec_hex_digit_val(c), true)
            }
        } else if c == '/' {
            if seen {
                spec_get_path_at(s, i + 1, done.push(acc), 0, false)
            } else {
                None
            }
        } else {
            spec_get_path_at(s, i + 1, done, acc, seen)
        }
    }
}

/// The first sibling carrying `tag`, if any.
pub open spec fn spec_first_match(l: Seq<SpecTlv>, tag: nat) -> Option<SpecTlv>
    decreases l.len(),
{
    if l.len() == 0 {
        None
    } else if l[0].tag == tag {
        Some(l[0])
    } else {
        spec_first_match(l.drop_first(), tag)
    }
}

/// Resolves a tag path against a node: the first tag must be the node's own,
/// and each further tag selects the first direct child carrying it inside a
/// constructed value.
pub open spec fn spec_resolve(g: SpecTlv, tags: Seq<nat>) -> Option<SpecValue> {
    if tags.len() == 0 || tags[0] != g.tag {
        None
    } else {
        spec_resolve_in(g.val, tags.drop_first())
    }
}

pub open spec fn spec_resolve_in(v: SpecValue, tags: Seq<nat>) -> Option<SpecValue>
    decreases tags.len(),
{
    if tags.len() == 0 {
        Some(v)
    } else {
        match v {
            SpecValue::List(l) => match spec_first_match(l, tags[0]) {
                Some(c) => spec_resolve_in(c.val, tags.drop_first()),
                None => None,
            },
            _ => None,
        }
    }
}

/// A tree the codec round-trips: valid tags, tag kind agreeing with the value
/// kind, no `Nothing` leaves (parsing yields an empty byte string instead),
/// and value sizes within the four length bytes the decoder accepts.
pub open spec fn spec_well_formed(g: SpecTlv) -> bool
    decreases g,
{
    &&& spec_valid_tag(g.tag)
    &&& match g.val {
        SpecValue::List(l) => {
            &&& spec_constructed(g.tag)
            &&& spec_encoded_list(l).len() <= 0xffff_ffff
            &&& spec_well_formed_list(l)
        },
        SpecValue::Bytes(b) => {
            &&& !spec_constructed(g.tag)
            &&& b.len() <= 0xffff_ffff
        },
        SpecValue::Nothing => false,
    }
}

pub open spec fn spec_well_formed_list(l: Seq<SpecTlv>) -> bool
    decreases l,
{
    if l.len() == 0 {
        true
    } else {
        spec_well_formed(l[0]) && spec_well_formed_list(l.drop_first())
    }
}

/// Reads a tag off the front of `s`: the tag number and the bytes consumed.
pub open spec fn spec_parse_tag(s: Seq<u8>) -> Result<(nat, nat), TlvError> {
    if s.len() == 0 {
        Err(TlvError::TruncatedTlv)
    } else if s[0] & 0x1f == 0x1f {
        spec_parse_tag_cont(s, 1, s[0] as nat)
    } else if s[0] == 0 {
        Err(TlvError::InvalidTagNumber)
    } else {
        Ok((s[0] as nat, 1))
    }
}

/// Continuation bytes of a long-form tag: each is shifted in while its high
/// bit is set; a tag that would leave the machine word is rejected.
pub open spec fn spec_parse_tag_cont(s: Seq<u8>, i: nat, acc: nat) -> Result<(nat, nat), TlvError>
    decreases s.len() - i,
{
    if i >= s.len() {
        Err(TlvError::TruncatedTlv)
    } else if acc > usize::MAX as nat / 256 {
        Err(TlvError::InvalidTagNumber)
    } else if s[i as int] & 0x80 == 0 {
        Ok(((acc * 256 + s[i as int]) as nat, (i + 1) as nat))
    } else {
        spec_parse_tag_cont(s, (i + 1) as nat, (acc * 256 + s[i as int]) as nat)
    }
}

/// Reads a definite-form length off the front of `s`: the announced value
/// length and the bytes consumed.  Long forms of more than four length bytes
/// are rejected.
pub open spec fn spec_parse_len(s: Seq<u8>) -> Result<(nat, nat), TlvError> {
    if s.len() == 0 {
        Err(TlvError::TruncatedTlv)
    } else if s[0] & 0x80 != 0 {
        let k = (s[0] & 0x7f) as nat;
        if k > 4 {
            Err(TlvError::InvalidLength)
        } else if s.len() < 1 + k {
            Err(TlvError::TruncatedTlv)
        } else {
            Ok((spec_be_value(s.subrange(1, 1 + k as int)), (1 + k) as nat))
        }
    } else {
        Ok((s[0] as nat, 1))
    }
}

/// Decodes one node off the front of `s`: the node and the bytes consumed.
/// A constructed tag has its value parsed as a run of children filling the
/// announced length exactly.
pub open spec fn spec_parse_tlv(s: Seq<u8>) -> Result<(SpecTlv, nat), TlvError>
    decreases s.len(), 0int,
{
    match spec_parse_tag(s) {
        Err(e) => Err(e),
        Ok((tag, n1)) => if !(1 <= n1 <= s.len()) {
            Err(TlvError::TruncatedTlv)  // tag parses stay in bounds; never reached
        } else {
            match spec_parse_len(s.skip(n1 as int)) {
                Err(e) => Err(e),
                Ok((len, n2)) => if !(1 <= n2 <= s.len() - n1) {
                    Err(TlvError::TruncatedTlv)  // length parses stay in bounds; never reached
                } else if s.len() - n1 - n2 < len {
                    Err(
                        TlvError::TooShortBody {
                            expected: len as usize,
                            found: (s.len() - n1 - n2) as usize,
                        },
                    )
                } else {
                    let body = s.subrange((n1 + n2) as int, (n1 + n2 + len) as int);
                    if !spec_constructed(tag) {
                        Ok(
                            (
                                SpecTlv { tag, val: SpecValue::Bytes(body) },
                                (n1 + n2 + len) as nat,
                            ),
                        )
                    } else {
                        match spec_parse_list(body) {
                            Err(e) => Err(e),
                            Ok(children) => Ok(
                                (
                                    SpecTlv { tag, val: SpecValue::List(children) },
                                    (n1 + n2 + len) as nat,
                                ),
                            ),
                        }
                    }
                },
            }
        },
    }
}

/// Decodes a run of sibling nodes that together fill `s` exactly.
pub open spec fn spec_parse_list(s: Seq<u8>) -> Result<Seq<SpecTlv>, TlvError>
    decreases s.len(), 1int,
{
    if s.len() == 0 {
        Ok(Seq::empty())
    } else {
        match spec_parse_tlv(s) {
            Err(e) => Err(e),
            Ok((g, n)) => if !(1 <= n <= s.len()) {
                Err(TlvError::TruncatedTlv)  // node parses stay in bounds; never reached
            } else {
                match spec_parse_list(s.skip(n as int)) {
                    Err(e) => Err(e),
                    Ok(rest) => Ok(seq![g] + rest),
                }
            },
        }
    }
}

pub proof fn lemma_parse_tag_cont_bounds(s: Seq<u8>, i: nat, acc: nat)
    requires
        1 <= i <= s.len(),
        0 < acc <= usize::MAX,
    ensures
        spec_parse_tag_cont(s, i, acc) matches Ok((tag, n)) ==> i < n <= s.len() && 0 < tag
            <= usize::MAX,
    decreases s.len() - i,
{
    if i < s.len() && acc <= usize::MAX as nat / 256 {
        let acc2 = (acc * 256 + s[i as int]) as nat;
        assert(acc2 <= (usize::MAX as nat / 256) * 256 + 255);
        assert((usize::MAX as nat / 256) * 256 + 255 <= usize::MAX) by {
            assert(usize::MAX as nat == 0xffff_ffff || usize::MAX as nat == 0xffff_ffff_ffff_ffff);
        }
        if s[i as int] & 0x80 != 0 {
            lemma_parse_tag_cont_bounds(s, (i + 1) as nat, acc2);
        }
    }
}

pub proof fn lemma_parse_tag_bounds(s: Seq<u8>)
    ensures
        spec_parse_tag(s) matches Ok((tag, n)) ==> 1 <= n <= s.len() && 0 < tag <= usize::MAX,
{
    if s.len() > 0 && s[0] & 0x1f == 0x1f {
        let b = s[0];
        assert(b > 0) by (bit_vector)
            requires
                b & 0x1f == 0x1f,
        ;
        lemma_parse_tag_cont_bounds(s, 1, b as nat);
    }
}

pub proof fn lemma_parse_len_bounds(s: Seq<u8>)
    ensures
        spec_parse_len(s) matches Ok((len, n)) ==> 1 <= n <= s.len() && len <= 0xffff_ffff,
{
    if s.len() > 0 && s[0] & 0x80 != 0 {
        let k = (s[0] & 0x7f) as nat;
        if k <= 4 && s.len() >= 1 + k {
            lemma_be_value_bound(s.subrange(1, 1 + k as int));
            assert(spec_pow256(4) == 0x1_0000_0000) by {
                reveal_with_fuel(spec_pow256, 5);
            }
            if k < 4 {
                lemma_pow256_increases(k, 4);
            }
        }
    }
}

/// 256 raised to `k`.
pub open spec fn spec_pow256(k: nat) -> nat
    decreases k,
{
    if k == 0 {
        1
    } else {
        256 * spec_pow256((k - 1) as nat)
    }
}

pub proof fn lemma_pow256_increases(j: nat, k: nat)
    requires
        j <= k,
    ensures
        spec_pow256(j) <= spec_pow256(k),
    decreases k,
{
    if j < k {
        lemma_pow256_increases(j, (k - 1) as nat);
    }
}

/// A big-endian byte string of length `n` denotes a value under 256^n.
pub proof fn lemma_be_value_bound(s: Seq<u8>)
    ensures
        spec_be_value(s) < spec_pow256(s.len()),
    decreases s.len(),
{
    if s.len() > 0 {
        lemma_be_value_bound(s.drop_last());
    }
}

pub proof fn lemma_be_value_single(b: u8)
    ensures
        spec_be_value(seq![b]) == b,
{
    assert(seq![b].drop_last() =~= Seq::<u8>::empty());
    assert(spec_be_value(Seq::<u8>::empty()) == 0);
}

pub proof fn lemma_min_be_bytes_value(n: nat)
    ensures
        spec_be_value(spec_min_be_bytes(n)) == n,
    decreases n,
{
    if n > 0 {
        lemma_min_be_bytes_value(n / 256);
        assert(spec_min_be_bytes(n).drop_last() =~= spec_min_be_bytes(n / 256));
    }
}

pub proof fn lemma_min_be_bytes_len(n: nat, k: nat)
    requires
        n < spec_pow256(k),
    ensures
        spec_min_be_bytes(n).len() <= k,
    decreases k,
{
    if n > 0 {
        assert(k > 0) by {
            if k == 0 {
                assert(spec_pow256(0) == 1);
            }
        }
        lemma_min_be_bytes_len(n / 256, (k - 1) as nat);
    }
}

/// Each step of reading a big-endian byte string extends the value by one
/// byte's worth.
pub proof fn lemma_be_value_take_step(s: Seq<u8>, j: int)
    requires
        0 <= j < s.len(),
    ensures
        spec_be_value(s.take(j + 1)) == spec_be_value(s.take(j)) * 256 + s[j],
{
    assert(s.take(j + 1).drop_last() =~= s.take(j));
    assert(s.take(j + 1).last() == s[j]);
}

pub proof fn lemma_be_value_take_monotonic(s: Seq<u8>, i: int, j: int)
    requires
        0 <= i <= j <= s.len(),
    ensures
        spec_be_value(s.take(i)) <= spec_be_value(s.take(j)),
    decreases j - i,
{
    if i < j {
        lemma_be_value_take_monotonic(s, i, j - 1);
        lemma_be_value_take_step(s, j - 1);
    }
}

/// A well-formed tag's bytes drive the continuation parser to the tag value.
proof fn lemma_tag_cont_roundtrip(tag: nat, rest: Seq<u8>, j: int)
    requires
        spec_valid_tag(tag),
        spec_min_be_bytes(tag).len() >= 2,
        1 <= j < spec_min_be_bytes(tag).len(),
    ensures
        spec_parse_tag_cont(
            spec_min_be_bytes(tag) + rest,
            j as nat,
            spec_be_value(spec_min_be_bytes(tag).take(j)),
        ) == Ok::<(nat, nat), TlvError>((tag, spec_min_be_bytes(tag).len() as nat)),
    decreases spec_min_be_bytes(tag).len() - j,
{
    let bs = spec_min_be_bytes(tag);
    let s = bs + rest;
    let len = bs.len() as int;
    let acc = spec_be_value(bs.take(j));
    lemma_min_be_bytes_value(tag);
    assert(bs.take(len) =~= bs);
    lemma_be_value_take_monotonic(bs, j + 1, len);
    lemma_be_value_take_step(bs, j);
    // the accumulator so far stays within a machine word
    assert(acc * 256 + bs[j] <= tag);
    assert(acc <= usize::MAX as nat / 256) by {
        assert(acc * 256 <= usize::MAX);
        assert(usize::MAX as nat / 256 * 256 + usize::MAX as nat % 256 == usize::MAX);
        if acc > usize::MAX as nat / 256 {
            assert(acc * 256 >= (usize::MAX as nat / 256 + 1) * 256);
        }
    }
    assert(s[j] == bs[j]);
    if j == len - 1 {
        assert(bs[j] & 0x80 == 0);
        assert(acc * 256 + bs[j] == spec_be_value(bs.take(j + 1)));
        assert(spec_be_value(bs.take(j + 1)) == tag);
    } else {
        assert(bs[j] & 0x80 != 0);
        lemma_tag_cont_roundtrip(tag, rest, j + 1);
    }
}

/// Reading back the minimal byte string of a well-formed tag yields the tag.
pub proof fn lemma_tag_roundtrip(tag: nat, rest: Seq<u8>)
    requires
        spec_valid_tag(tag),
    ensures
        spec_parse_tag(spec_min_be_bytes(tag) + rest) == Ok::<(nat, nat), TlvError>(
            (tag, spec_min_be_bytes(tag).len() as nat),
        ),
{
    let bs = spec_min_be_bytes(tag);
    let s = bs + rest;
    lemma_min_be_bytes_value(tag);
    assert(bs.len() >= 1);
    assert(s[0] == bs[0]);
    if bs.len() == 1 {
        assert(bs =~= seq![bs[0]]);
        lemma_be_value_single(bs[0]);
        assert(bs[0] != 0);
    } else {
        assert(bs.take(1) =~= seq![bs[0]]);
        lemma_be_value_single(bs[0]);
        lemma_tag_cont_roundtrip(tag, rest, 1);
    }
}

/// Reading back the minimal length field of a value size yields that size.
pub proof fn lemma_len_roundtrip(len: nat, rest: Seq<u8>)
    requires
        len <= 0xffff_ffff,
    ensures
        spec_parse_len(spec_ber_len(len) + rest) == Ok::<(nat, nat), TlvError>(
            (len, spec_ber_len(len).len() as nat),
        ),
{
    let lf = spec_ber_len(len);
    let s = lf + rest;
    if len <= 0x7f {
        let b = len as u8;
        assert(b & 0x80 == 0) by (bit_vector)
            requires
                b <= 0x7f,
        ;
        assert(s[0] == b);
    } else {
        let bs = spec_min_be_bytes(len);
        assert(spec_pow256(4) == 0x1_0000_0000) by {
            reveal_with_fuel(spec_pow256, 5);
        }
        lemma_min_be_bytes_len(len, 4);
        let k = bs.len() as u8;
        assert(1 <= k <= 4);
        let first = (0x80 + k) as u8;
        assert(first & 0x80 != 0 && (first & 0x7f) == k) by (bit_vector)
            requires
                1 <= k <= 4,
                first == (0x80 + k) as u8,
        ;
        assert(s[0] == first);
        assert(s.len() >= 1 + k);
        assert(s.subrange(1, 1 + k as int) =~= bs);
        lemma_min_be_bytes_value(len);
    }
}

/// Any node with a non-zero tag occupies at least a tag byte and a length
/// byte.
pub proof fn lemma_encoded_len_min(g: SpecTlv)
    requires
        spec_valid_tag(g.tag),
    ensures
        spec_encoded(g).len() >= 2,
{
}

/// Serialised bytes never outnumber the reported size (a zero tag reports a
/// byte it does not emit).
pub proof fn lemma_encoded_le_tlv_len(g: SpecTlv)
    ensures
        spec_value_bytes(g.val).len() <= spec_value_len(g.val),
        spec_encoded(g).len() <= spec_tlv_len(g),
    decreases g, 0int,
{
    match g.val {
        SpecValue::List(l) => {
            lemma_encoded_list_le_list_len(l);
        },
        _ => {},
    }
}

pub proof fn lemma_encoded_list_le_list_len(l: Seq<SpecTlv>)
    ensures
        spec_encoded_list(l).len() <= spec_list_len(l),
    decreases l, 1int,
{
    if l.len() > 0 {
        lemma_encoded_le_tlv_len(l[0]);
        lemma_encoded_list_le_list_len(l.drop_first());
    }
}

/// On a well-formed tree, the reported sizes equal the serialised byte
/// counts.
pub proof fn lemma_wf_len(g: SpecTlv)
    requires
        spec_well_formed(g),
    ensures
        spec_value_len(g.val) == spec_value_bytes(g.val).len(),
        spec_tlv_len(g) == spec_encoded(g).len(),
    decreases g, 0int,
{
    match g.val {
        SpecValue::List(l) => {
            lemma_wf_list_len(l);
        },
        _ => {},
    }
}

pub proof fn lemma_wf_list_len(l: Seq<SpecTlv>)
    requires
        spec_well_formed_list(l),
    ensures
        spec_list_len(l) == spec_encoded_list(l).len(),
    decreases l, 1int,
{
    if l.len() > 0 {
        lemma_wf_len(l[0]);
        lemma_wf_list_len(l.drop_first());
    }
}

pub proof fn lemma_list_len_singleton(g: SpecTlv)
    ensures
        spec_list_len(seq![g]) == spec_tlv_len(g),
{
    assert(seq![g].drop_first() =~= Seq::<SpecTlv>::empty());
    assert(spec_list_len(Seq::<SpecTlv>::empty()) == 0);
    assert(seq![g][0] == g);
}

pub proof fn lemma_list_len_concat(a: Seq<SpecTlv>, b: Seq<SpecTlv>)
    ensures
        spec_list_len(a + b) == spec_list_len(a) + spec_list_len(b),
    decreases a,
{
    if a.len() == 0 {
        assert(a + b =~= b);
    } else {
        lemma_list_len_concat(a.drop_first(), b);
        assert((a + b).drop_first() =~= a.drop_first() + b);
        assert((a + b)[0] == a[0]);
    }
}

/// A child's reported size is no larger than the whole run's.
pub proof fn lemma_list_len_child_bound(l: Seq<SpecTlv>, i: int)
    requires
        0 <= i < l.len(),
    ensures
        spec_tlv_len(l[i]) <= spec_list_len(l),
    decreases l,
{
    if i > 0 {
        lemma_list_len_child_bound(l.drop_first(), i - 1);
        assert(l.drop_first()[i - 1] == l[i]);
    }
}

/// Parsing the serialised bytes of a well-formed node, with anything at all
/// after them, yields that node back and consumes exactly its bytes.
pub proof fn lemma_encoded_parses(g: SpecTlv, rest: Seq<u8>)
    requires
        spec_well_formed(g),
    ensures
        spec_parse_tlv(spec_encoded(g) + rest) == Ok::<(SpecTlv, nat), TlvError>(
            (g, spec_encoded(g).len() as nat),
        ),
    decreases g, 0int,
{
    lemma_wf_len(g);
    let bs = spec_min_be_bytes(g.tag);
    let vb = spec_value_bytes(g.val);
    let lf = spec_ber_len(vb.len());
    assert(spec_ber_len(spec_value_len(g.val)) == lf);
    let s = spec_encoded(g) + rest;
    let n1 = bs.len() as int;
    let n2 = lf.len() as int;
    let len = vb.len() as int;

    assert(s =~= bs + (lf + (vb + rest)));
    lemma_tag_roundtrip(g.tag, lf + (vb + rest));
    assert(spec_parse_tag(s) == Ok::<(nat, nat), TlvError>((g.tag, bs.len() as nat)));
    assert(s.skip(n1) =~= lf + (vb + rest));
    lemma_len_roundtrip(vb.len(), vb + rest);
    assert(spec_parse_len(s.skip(n1)) == Ok::<(nat, nat), TlvError>(
        (vb.len(), lf.len() as nat),
    ));
    assert(s.len() - n1 - n2 >= len);
    let body = s.subrange(n1 + n2, n1 + n2 + len);
    assert(body =~= vb);
    match g.val {
        SpecValue::List(l) => {
            assert(spec_constructed(g.tag));
            lemma_encoded_list_parses(l);
            assert(spec_parse_list(body) == Ok::<Seq<SpecTlv>, TlvError>(l));
        },
        SpecValue::Bytes(b) => {
            assert(!spec_constructed(g.tag));
            assert(body == b);
        },
        SpecValue::Nothing => {
            assert(false);
        },
    }
}

/// Parsing the concatenated serialised bytes of well-formed siblings yields
/// the same run of siblings.
pub proof fn lemma_encoded_list_parses(l: Seq<SpecTlv>)
    requires
        spec_well_formed_list(l),
    ensures
        spec_parse_list(spec_encoded_list(l)) == Ok::<Seq<SpecTlv>, TlvError>(l),
    decreases l, 1int,
{
    let s = spec_encoded_list(l);
    if l.len() == 0 {
        assert(s.len() == 0);
        assert(Seq::<SpecTlv>::empty() =~= l);
    } else {
        let head = l[0];
        let tail = l.drop_first();
        let e0 = spec_encoded(head);
        assert(spec_well_formed(head));
        lemma_encoded_len_min(head);
        assert(s =~= e0 + spec_encoded_list(tail));
        assert(s.len() > 0);
        lemma_encoded_parses(head, spec_encoded_list(tail));
        assert(spec_parse_tlv(s) == Ok::<(SpecTlv, nat), TlvError>((head, e0.len() as nat)));
        assert(s.skip(e0.len() as int) =~= spec_encoded_list(tail));
        lemma_encoded_list_parses(tail);
        assert(seq![head] + tail =~= l);
    }
}

/// Round trip: parsing the serialised bytes of any well-formed tree yields
/// the same tree back, consuming exactly its serialised length, and that
/// length equals the node's reported size.
pub proof fn lemma_tlv_round_trip(g: SpecTlv)
    requires
        spec_well_formed(g),
    ensures
        spec_parse_tlv(spec_encoded(g)) == Ok::<(SpecTlv, nat), TlvError>(
            (g, spec_encoded(g).len() as nat),
        ),
        spec_encoded(g).len() == spec_tlv_len(g),
{
    lemma_encoded_parses(g, Seq::empty());
    assert(spec_encoded(g) + Seq::<u8>::empty() =~= spec_encoded(g));
    lemma_wf_len(g);
}

pub proof fn lemma_parse_tlv_bounds(s: Seq<u8>)
    ensures
        spec_parse_tlv(s) matches Ok((g, n)) ==> 2 <= n <= s.len(),
{
    lemma_parse_tag_bounds(s);
    match spec_parse_tag(s) {
        Ok((tag, n1)) => if 1 <= n1 <= s.len() {
            lemma_parse_len_bounds(s.skip(n1 as int));
        },
        _ => (),
    }
}

/// A node's view is the view function applied to it, for callers outside
/// this module.
pub proof fn lemma_tlv_view(t: Tlv)
    ensures
        t@ == view_of_tlv(t),
{
}

/// How a value's view mirrors its variant, for callers outside this module.
pub proof fn lemma_value_view(v: &Value)
    ensures
        v is Val <==> v@ is Bytes,
        v is TlvList <==> v@ is List,
        v is Nothing <==> v@ is Nothing,
        v matches Value::Val(b) ==> v@->Bytes_0 == b@,
        v matches Value::TlvList(l) ==> v@->List_0 == view_of_list(l@),
{
}

pub proof fn lemma_view_of_list_push(l: Seq<Tlv>, t: Tlv)
    ensures
        view_of_list(l.push(t)) == view_of_list(l).push(view_of_tlv(t)),
    decreases l,
{
    if l.len() == 0 {
        assert(l.push(t).drop_first() =~= Seq::<Tlv>::empty());
        assert(l.push(t)[0] == t);
        assert(view_of_list(Seq::<Tlv>::empty()) =~= Seq::<SpecTlv>::empty());
        assert(view_of_list(l.push(t)) =~= view_of_list(l).push(view_of_tlv(t)));
    } else {
        lemma_view_of_list_push(l.drop_first(), t);
        assert(l.push(t).drop_first() =~= l.drop_first().push(t));
        assert(l.push(t)[0] == l[0]);
        assert(seq![view_of_tlv(l[0])] + view_of_list(l.drop_first()).push(view_of_tlv(t))
            =~= (seq![view_of_tlv(l[0])] + view_of_list(l.drop_first())).push(view_of_tlv(t)));
    }
}

pub proof fn lemma_view_of_list_props(l: Seq<Tlv>)
    ensures
        view_of_list(l).len() == l.len(),
        forall|i: int| 0 <= i < l.len() ==> #[trigger] view_of_list(l)[i] == view_of_tlv(l[i]),
    decreases l,
{
    if l.len() > 0 {
        lemma_view_of_list_props(l.drop_first());
        assert forall|i: int| 0 <= i < l.len() implies #[trigger] view_of_list(l)[i]
            == view_of_tlv(l[i]) by {
            if i > 0 {
                assert(view_of_list(l)[i] == view_of_list(l.drop_first())[i - 1]);
                assert(l.drop_first()[i - 1] == l[i]);
            }
        }
    }
}

pub proof fn lemma_encoded_list_singleton(g: SpecTlv)
    ensures
        spec_encoded_list(seq![g]) == spec_encoded(g),
{
    assert(seq![g].drop_first() =~= Seq::<SpecTlv>::empty());
    assert(spec_encoded_list(Seq::<SpecTlv>::empty()) == Seq::<u8>::empty());
    assert(seq![g][0] == g);
    assert(spec_encoded(g) + Seq::<u8>::empty() =~= spec_encoded(g));
}

pub proof fn lemma_encoded_list_concat(a: Seq<SpecTlv>, b: Seq<SpecTlv>)
    ensures
        spec_encoded_list(a + b) == spec_encoded_list(a) + spec_encoded_list(b),
    decreases a,
{
    if a.len() == 0 {
        assert(a + b =~= b);
        assert(spec_encoded_list(a) + spec_encoded_list(b) =~= spec_encoded_list(b));
    } else {
        lemma_encoded_list_concat(a.drop_first(), b);
        assert((a + b).drop_first() =~= a.drop_first() + b);
        assert((a + b)[0] == a[0]);
        assert(spec_encoded(a[0]) + (spec_encoded_list(a.drop_first()) + spec_encoded_list(b))
            =~= (spec_encoded(a[0]) + spec_encoded_list(a.drop_first())) + spec_encoded_list(b));
    }
}

/// No value under a machine word takes more than eight bytes.
pub proof fn lemma_min_be_bytes_len_usize(n: nat)
    requires
        n <= usize::MAX,
    ensures
        spec_min_be_bytes(n).len() <= 8,
{
    assert(usize::MAX as nat == 0xffff_ffff || usize::MAX as nat == 0xffff_ffff_ffff_ffff);
    assert(spec_pow256(8) == 0x1_0000_0000_0000_0000) by {
        reveal_with_fuel(spec_pow256, 9);
    }
    lemma_min_be_bytes_len(n, 8);
}

/// Appends the minimal big-endian bytes of `n` to `out`.
fn push_min_be_bytes(n: usize, out: &mut Vec<u8>)
    ensures
        final(out)@ == old(out)@ + spec_min_be_bytes(n as nat),
    decreases n,
{
    if n > 0 {
        push_min_be_bytes(n / 256, out);
        out.push((n % 256) as u8);
        proof {
            assert(out@ =~= old(out)@ + spec_min_be_bytes(n as nat));
        }
    } else {
        proof {
            assert(out@ =~= old(out)@ + spec_min_be_bytes(0));
        }
    }
}

/// Whether the tag's most significant byte has its constructed bit set.
fn tag_is_constructed(tag: Tag) -> (r: bool)
    ensures
        r == spec_constructed(tag as nat),
{
    let mut t: usize = tag;
    while t > 255
        invariant
            spec_constructed(tag as nat) == spec_constructed(t as nat),
        decreases t,
    {
        t = t / 256;
    }
    (t as u8) & 0x20 == 0x20
}

impl Value {
    /// Returns size of value in bytes
    fn len(&self) -> (r: usize)
        requires
            spec_value_len(self@) <= usize::MAX,
        ensures
            r == spec_value_len(self@),
        decreases spec_value_len(self@), 1int,
    {
        match self {
            Value::TlvList(list) => {
                let ghost l = view_of_list(list@);
                proof {
                    lemma_view_of_list_props(list@);
                }
                let mut sum: usize = 0;
                let mut i: usize = 0;
                while i < list.len()
                    invariant
                        i <= list@.len(),
                        self@ == SpecValue::List(l),
                        l == view_of_list(list@),
                        l.len() == list@.len(),
                        forall|j: int| 0 <= j < l.len() ==> #[trigger] l[j] == view_of_tlv(
                            list@[j],
                        ),
                        spec_list_len(l) <= usize::MAX,
                        sum == spec_list_len(l.take(i as int)),
                    decreases list@.len() - i,
                {
                    proof {
                        assert(l =~= l.take(i as int) + seq![l[i as int]] + l.skip(i + 1));
                        lemma_list_len_concat(l.take(i as int) + seq![l[i as int]], l.skip(i + 1));
                        lemma_list_len_concat(l.take(i as int), seq![l[i as int]]);
                        lemma_list_len_singleton(l[i as int]);
                        assert(l.take(i + 1) =~= l.take(i as int) + seq![l[i as int]]);
                        lemma_list_len_child_bound(l, i as int);
                    }
                    let c = &list[i];
                    let cl = c.len();
                    sum = sum + cl;
                    i = i + 1;
                }
                proof {
                    assert(l.take(l.len() as int) =~= l);
                }
                sum
            },
            Value::Val(v) => v.len(),
            Value::Nothing => 0,
        }
    }

    /// Returns true if Value is empty (len() == 0)
    pub fn is_empty(&self) -> (r: bool)
        ensures
            r == match self@ {
                SpecValue::List(l) => l.len() == 0,
                SpecValue::Bytes(b) => b.len() == 0,
                SpecValue::Nothing => true,
            },
    {
        match self {
            Value::TlvList(list) => {
                proof {
                    lemma_view_of_list_props(list@);
                }
                list.is_empty()
            },
            Value::Val(v) => v.is_empty(),
            Value::Nothing => true,
        }
    }

    /// Returns bytes array that represents encoded-len
    ///
    /// Note: implements only definite form
    pub fn encode_len(&self) -> (r: Vec<u8>)
        requires
            spec_value_len(self@) <= usize::MAX,
        ensures
            r@ == spec_ber_len(spec_value_len(self@)),
        decreases spec_value_len(self@), 2int,
    {
        let len = self.len();
        if len <= 0x7f {
            let mut out: Vec<u8> = Vec::new();
            out.push(len as u8);
            proof {
                assert(out@ =~= spec_ber_len(len as nat));
            }
            out
        } else {
            let mut out: Vec<u8> = Vec::new();
            push_min_be_bytes(len, &mut out);
            proof {
                lemma_min_be_bytes_len_usize(len as nat);
                assert(Seq::<u8>::empty() + spec_min_be_bytes(len as nat) =~= spec_min_be_bytes(
                    len as nat,
                ));
            }
            let bytes = out.len() as u8;
            out.insert(0, 0x80 | bytes);
            proof {
                let k = bytes;
                assert((0x80 | k) == (0x80 + k) as u8) by (bit_vector)
                    requires
                        1 <= k <= 8,
                ;
                assert(out@ =~= spec_ber_len(len as nat));
            }
            out
        }
    }
}

impl Tlv {
    /// Creates a node after checking that the tag's kind agrees with the
    /// value's: a constructed tag must carry a child list, a primitive tag
    /// raw bytes; an explicit `Nothing` is accepted under either kind.
    pub fn new(tag: Tag, value: Value) -> (r: Result<Tlv, TlvError>)
        ensures
            match r {
                Ok(t) => {
                    &&& t@ == (SpecTlv { tag: tag as nat, val: value@ })
                    &&& (value@ is List ==> spec_constructed(tag as nat))
                    &&& (value@ is Bytes ==> !spec_constructed(tag as nat))
                },
                Err(e) => {
                    ||| {
                        &&& value@ is List
                        &&& !spec_constructed(tag as nat)
                        &&& e == (TlvError::ValExpected { tag_number: tag })
                    }
                    ||| {
                        &&& value@ is Bytes
                        &&& spec_constructed(tag as nat)
                        &&& e == (TlvError::TlvListExpected { tag_number: tag })
                    }
                },
            },
    {
        let constructed = tag_is_constructed(tag);
        match &value {
            Value::TlvList(_) => {
                if !constructed {
                    return Err(TlvError::ValExpected { tag_number: tag });
                }
            },
            Value::Val(_) => {
                if constructed {
                    return Err(TlvError::TlvListExpected { tag_number: tag });
                }
            },
            Value::Nothing => {},
        }
        Ok(Tlv { tag, val: value })
    }

    /// Returns tag number of TLV
    pub fn tag(&self) -> (r: Tag)
        ensures
            r as nat == self@.tag,
    {
        self.tag
    }

    /// Returns length of tag number in bytes
    pub fn tag_len(&self) -> (r: usize)
        ensures
            r as nat == spec_tag_len(self@.tag),
    {
        let mut tag: usize = self.tag;
        let mut len: usize = 0;
        proof {
            lemma_min_be_bytes_len_usize(self.tag as nat);
        }
        while tag != 0
            invariant
                spec_min_be_bytes(self.tag as nat).len() <= 8,
                spec_min_be_bytes(self.tag as nat).len() == spec_min_be_bytes(tag as nat).len()
                    + len,
                len <= 8,
            decreases tag,
        {
            len = len + 1;
            tag = tag / 256;
        }
        if len == 0 {
            len + 1
        } else {
            len
        }
    }

    /// Returns size of TLV-string in bytes
    pub fn len(&self) -> (r: usize)
        requires
            spec_tlv_len(self@) <= usize::MAX,
        ensures
            r == spec_tlv_len(self@),
        decreases spec_tlv_len(self@), 0int,
    {
        self.tag_len() + self.val.encode_len().len() + self.val.len()
    }

    /// Returns true if Value of TLV is empty
    pub fn is_empty(&self) -> (r: bool)
        ensures
            r == match self@.val {
                SpecValue::List(l) => l.len() == 0,
                SpecValue::Bytes(b) => b.len() == 0,
                SpecValue::Nothing => true,
            },
    {
        self.val.is_empty()
    }

    /// Returns value of TLV
    pub fn val(&self) -> (r: &Value)
        ensures
            r@ == self@.val,
    {
        &self.val
    }

    /// Returns true if TLV is primitive
    pub fn is_primitive(&self) -> (r: bool)
        ensures
            r == !spec_constructed(self@.tag),
    {
        !tag_is_constructed(self.tag)
    }

    /// Reads out tag number
    fn read_tag(slice: &[u8], pos: usize, end: usize) -> (r: Result<(Tag, usize), TlvError>)
        requires
            pos <= end <= slice@.len(),
        ensures
            match spec_parse_tag(slice@.subrange(pos as int, end as int)) {
                Ok(p) => r matches Ok(q) && q.0 as nat == p.0 && q.1 as nat == pos + p.1,
                Err(e) => r matches Err(e2) && e2 == e,
            },
    {
        let ghost s = slice@.subrange(pos as int, end as int);
        if pos >= end {
            return Err(TlvError::TruncatedTlv);
        }
        let first = slice[pos];
        assert(s[0] == first);
        if first & 0x1f == 0x1f {
            let mut i: usize = pos + 1;
            let mut acc: usize = first as usize;
            loop
                invariant
                    pos < i <= end <= slice@.len(),
                    s == slice@.subrange(pos as int, end as int),
                    spec_parse_tag(s) == spec_parse_tag_cont(s, (i - pos) as nat, acc as nat),
                decreases end - i,
            {
                if i >= end {
                    return Err(TlvError::TruncatedTlv);
                }
                if acc > usize::MAX / 256 {
                    return Err(TlvError::InvalidTagNumber);
                }
                let b = slice[i];
                assert(s[i - pos] == b);
                proof {
                    assert(usize::MAX as nat == 0xffff_ffff || usize::MAX as nat
                        == 0xffff_ffff_ffff_ffff);
                    assert(acc * 256 + 255 <= usize::MAX);
                }
                acc = acc * 256 + b as usize;
                if b & 0x80 == 0 {
                    return Ok((acc, i + 1));
                }
                i = i + 1;
            }
        } else if first == 0 {
            Err(TlvError::InvalidTagNumber)
        } else {
            Ok((first as usize, pos + 1))
        }
    }

    /// Reads out TLV value's length
    fn read_len(slice: &[u8], pos: usize, end: usize) -> (r: Result<(usize, usize), TlvError>)
        requires
            pos <= end <= slice@.len(),
        ensures
            match spec_parse_len(slice@.subrange(pos as int, end as int)) {
                Ok(p) => r matches Ok(q) && q.0 as nat == p.0 && q.1 as nat == pos + p.1,
                Err(e) => r matches Err(e2) && e2 == e,
            },
    {
        let ghost s = slice@.subrange(pos as int, end as int);
        if pos >= end {
            return Err(TlvError::TruncatedTlv);
        }
        let first = slice[pos];
        assert(s[0] == first);
        if first & 0x80 != 0 {
            let k = (first & 0x7f) as usize;
            if k > 4 {
                return Err(TlvError::InvalidLength);
            }
            if end - pos < 1 + k {
                return Err(TlvError::TruncatedTlv);
            }
            proof {
                assert(spec_pow256(4) == 0x1_0000_0000) by {
                    reveal_with_fuel(spec_pow256, 5);
                }
                assert(usize::MAX as nat == 0xffff_ffff || usize::MAX as nat
                    == 0xffff_ffff_ffff_ffff);
            }
            let mut len: usize = 0;
            let mut j: usize = 0;
            proof {
                assert(s.subrange(1, 1) =~= Seq::<u8>::empty());
            }
            while j < k
                invariant
                    j <= k <= 4,
                    pos + 1 + k <= end <= slice@.len(),
                    s == slice@.subrange(pos as int, end as int),
                    len as nat == spec_be_value(s.subrange(1, 1 + j as int)),
                    usize::MAX >= 0xffff_ffff,
                decreases k - j,
            {
                proof {
                    lemma_be_value_bound(s.subrange(1, 1 + j as int));
                    lemma_pow256_increases((j) as nat, 3);
                    assert(spec_pow256(3) == 0x100_0000 && spec_pow256(4) == 0x1_0000_0000) by {
                        reveal_with_fuel(spec_pow256, 5);
                    }
                    assert(s.subrange(1, 1 + (j + 1)).drop_last() =~= s.subrange(1, 1 + j as int));
                    assert(s.subrange(1, 1 + (j + 1)).last() == s[1 + j]);
                    assert(s[1 + j] == slice@[pos + 1 + j]);
                }
                len = len * 256 + slice[pos + 1 + j] as usize;
                j = j + 1;
            }
            Ok((len, pos + 1 + k))
        } else {
            Ok((first as usize, pos + 1))
        }
    }

    /// Decodes the node that starts at `pos` and may reach up to `end`.
    #[verifier::loop_isolation(false)]
    fn from_slice_at(slice: &[u8], pos: usize, end: usize) -> (r: Result<(Tlv, usize), TlvError>)
        requires
            pos <= end <= slice@.len(),
        ensures
            match spec_parse_tlv(slice@.subrange(pos as int, end as int)) {
                Ok(p) => r matches Ok(q) && q.0@ == p.0 && q.1 as nat == pos + p.1 && pos < q.1
                    <= end,
                Err(e) => r matches Err(e2) && e2 == e,
            },
        decreases end - pos,
    {
        let ghost s = slice@.subrange(pos as int, end as int);
        proof {
            lemma_parse_tag_bounds(s);
        }
        let (tag, p1) = match Self::read_tag(slice, pos, end) {
            Ok(x) => x,
            Err(e) => {
                return Err(e);
            },
        };
        proof {
            assert(slice@.subrange(p1 as int, end as int) =~= s.skip(p1 - pos));
            lemma_parse_len_bounds(s.skip(p1 - pos));
        }
        let (len, p2) = match Self::read_len(slice, p1, end) {
            Ok(x) => x,
            Err(e) => {
                return Err(e);
            },
        };
        if end - p2 < len {
            return Err(TlvError::TooShortBody { expected: len, found: end - p2 });
        }
        let vend = p2 + len;
        let ghost body = s.subrange(p1 - pos + (p2 - p1), p1 - pos + (p2 - p1) + len);
        proof {
            assert(body =~= slice@.subrange(p2 as int, vend as int));
        }
        if !tag_is_constructed(tag) {
            let raw = vstd::slice::slice_to_vec(vstd::slice::slice_subrange(slice, p2, vend));
            let t = Tlv { tag, val: Value::Val(raw) };
            proof {
                assert(t@ == SpecTlv { tag: tag as nat, val: SpecValue::Bytes(body) });
            }
            Ok((t, vend))
        } else {
            let mut children: Vec<Tlv> = Vec::new();
            let mut cur: usize = p2;
            proof {
                assert(view_of_list(children@) =~= Seq::<SpecTlv>::empty());
                assert(match spec_parse_list(slice@.subrange(cur as int, vend as int)) {
                    Ok(rest) => spec_parse_list(slice@.subrange(p2 as int, vend as int))
                        == Ok::<Seq<SpecTlv>, TlvError>(view_of_list(children@) + rest),
                    Err(e) => spec_parse_list(slice@.subrange(p2 as int, vend as int))
                        == Err::<Seq<SpecTlv>, TlvError>(e),
                }) by {
                    match spec_parse_list(slice@.subrange(cur as int, vend as int)) {
                        Ok(rest) => {
                            assert(view_of_list(children@) + rest =~= rest);
                        },
                        Err(e) => {},
                    }
                }
            }
            while cur < vend
                invariant
                    pos < p2 <= cur <= vend <= end <= slice@.len(),
                    match spec_parse_list(slice@.subrange(cur as int, vend as int)) {
                        Ok(rest) => spec_parse_list(slice@.subrange(p2 as int, vend as int))
                            == Ok::<Seq<SpecTlv>, TlvError>(view_of_list(children@) + rest),
                        Err(e) => spec_parse_list(slice@.subrange(p2 as int, vend as int))
                            == Err::<Seq<SpecTlv>, TlvError>(e),
                    },
                decreases vend - cur,
            {
                let ghost sc = slice@.subrange(cur as int, vend as int);
                proof {
                    lemma_parse_tlv_bounds(sc);
                }
                let (child, np) = match Self::from_slice_at(slice, cur, vend) {
                    Ok(x) => x,
                    Err(e) => {
                        return Err(e);
                    },
                };
                proof {
                    assert(sc.skip(np - cur) =~= slice@.subrange(np as int, vend as int));
                    lemma_view_of_list_push(children@, child);
                    match spec_parse_list(slice@.subrange(np as int, vend as int)) {
                        Ok(rest2) => {
                            assert(view_of_list(children@) + (seq![child@] + rest2)
                                =~= view_of_list(children@.push(child)) + rest2);
                        },
                        Err(e) => {},
                    }
                }
                children.push(child);
                cur = np;
            }
            proof {
                assert(slice@.subrange(cur as int, vend as int).len() == 0);
                assert(view_of_list(children@) + Seq::<SpecTlv>::empty() =~= view_of_list(
                    children@,
                ));
            }
            let t = Tlv { tag, val: Value::TlvList(children) };
            proof {
                assert(t@ == SpecTlv {
                    tag: tag as nat,
                    val: SpecValue::List(view_of_list(children@)),
                });
            }
            Ok((t, vend))
        }
    }

    /// Initializes Tlv object from [u8] slice
    pub fn from_vec(slice: &[u8]) -> (r: Result<Tlv, TlvError>)
        ensures
            match spec_parse_tlv(slice@) {
                Ok(p) => r matches Ok(t) && t@ == p.0,
                Err(e) => r matches Err(e2) && e2 == e,
            },
    {
        proof {
            assert(slice@.subrange(0, slice@.len() as int) =~= slice@);
        }
        match Self::from_slice_at(slice, 0, slice.len()) {
            Ok((t, _)) => Ok(t),
            Err(e) => Err(e),
        }
    }

    /// Returns TLV-encoded array of bytes
    pub fn to_vec(&self) -> (r: Vec<u8>)
        requires
            spec_tlv_len(self@) <= usize::MAX,
        ensures
            r@ == spec_encoded(self@),
        decreases spec_tlv_len(self@), 0int,
    {
        let mut out: Vec<u8> = Vec::new();
        push_min_be_bytes(self.tag, &mut out);
        let mut lf = self.val.encode_len();
        let ghost head = out@ + lf@;
        out.append(&mut lf);
        match &self.val {
            Value::TlvList(list) => {
                let ghost l = view_of_list(list@);
                proof {
                    lemma_view_of_list_props(list@);
                }
                let mut i: usize = 0;
                while i < list.len()
                    invariant
                        i <= list@.len(),
                        self@.val == SpecValue::List(l),
                        spec_tlv_len(self@) <= usize::MAX,
                        l == view_of_list(list@),
                        l.len() == list@.len(),
                        forall|j: int| 0 <= j < l.len() ==> #[trigger] l[j] == view_of_tlv(
                            list@[j],
                        ),
                        spec_list_len(l) <= usize::MAX,
                        out@ == head + spec_encoded_list(l.take(i as int)),
                    decreases list@.len() - i,
                {
                    proof {
                        assert(l =~= l.take(i as int) + seq![l[i as int]] + l.skip(i + 1));
                        lemma_encoded_list_concat(l.take(i as int) + seq![l[i as int]], l.skip(i + 1));
                        lemma_encoded_list_concat(l.take(i as int), seq![l[i as int]]);
                        lemma_encoded_list_singleton(l[i as int]);
                        assert(l.take(i + 1) =~= l.take(i as int) + seq![l[i as int]]);
                        lemma_list_len_child_bound(l, i as int);
                    }
                    let mut cv = (&list[i]).to_vec();
                    out.append(&mut cv);
                    i = i + 1;
                }
                proof {
                    assert(l.take(l.len() as int) =~= l);
                }
            },
            Value::Val(v) => {
                let mut tail = vstd::slice::slice_to_vec(v.as_slice());
                out.append(&mut tail);
            },
            Value::Nothing => {},
        }
        proof {
            assert(out@ =~= spec_encoded(self@));
        }
        out
    }
}


/// First element of `list` carrying `want`, if any.
fn first_match_in<'a>(list: &'a Vec<Tlv>, want: usize) -> (r: Option<&'a Tlv>)
    ensures
        match spec_first_match(view_of_list(list@), want as nat) {
            Some(c) => r matches Some(t) && t@ == c,
            None => r is None,
        },
{
    let ghost l = view_of_list(list@);
    proof {
        lemma_view_of_list_props(list@);
        assert(l.skip(0) =~= l);
    }
    let mut j: usize = 0;
    while j < list.len()
        invariant
            j <= list@.len(),
            l == view_of_list(list@),
            l.len() == list@.len(),
            forall|k: int| 0 <= k < l.len() ==> #[trigger] l[k] == view_of_tlv(list@[k]),
            spec_first_match(l, want as nat) == spec_first_match(l.skip(j as int), want as nat),
        decreases list@.len() - j,
    {
        proof {
            assert(l.skip(j as int)[0] == l[j as int]);
            assert(l.skip(j as int).drop_first() =~= l.skip(j + 1));
        }
        if (&list[j]).tag() == want {
            return Some(&list[j]);
        }
        j = j + 1;
    }
    proof {
        assert(l.skip(list@.len() as int) =~= Seq::<SpecTlv>::empty());
    }
    None
}

impl Tlv {
    /// Parses string like "6F / A5" into tag numbers
    #[verifier::loop_isolation(false)]
    fn get_path(path: &str) -> (r: Result<Vec<usize>, TlvError>)
        ensures
            match spec_get_path(path@) {
                Some(tags) => r matches Ok(v) && v@.map_values(|t: usize| t as nat) == tags,
                None => r == Err::<Vec<usize>, TlvError>(TlvError::TagPathError),
            },
    {
        let n = path.unicode_len();
        let mut done: Vec<usize> = Vec::new();
        let mut acc: usize = 0;
        let mut seen: bool = false;
        let mut i: usize = 0;
        proof {
            assert(done@.map_values(|t: usize| t as nat) =~= Seq::<nat>::empty());
        }
        while i < n
            invariant
                i <= n,
                n == path@.len(),
                spec_get_path(path@) == spec_get_path_at(
                    path@,
                    i as nat,
                    done@.map_values(|t: usize| t as nat),
                    acc as nat,
                    seen,
                ),
            decreases n - i,
        {
            let c = path.get_char(i);
            let u = c as u32;
            if (48 <= u && u <= 57) || (97 <= u && u <= 102) || (65 <= u && u <= 70) {
                let d: usize = if u <= 57 {
                    (u - 48) as usize
                } else if u >= 97 {
                    (u - 97 + 10) as usize
                } else {
                    (u - 65 + 10) as usize
                };
                proof {
                    assert((usize::MAX - d as usize) / 16 * 16 + (usize::MAX - d as usize) % 16
                        == usize::MAX - d as usize);
                }
                if acc > (usize::MAX - d) / 16 {
                    return Err(TlvError::TagPathError);
                }
                acc = acc * 16 + d;
                seen = true;
            } else if u == 47 {
                if !seen {
                    return Err(TlvError::TagPathError);
                }
                proof {
                    assert(done@.push(acc).map_values(|t: usize| t as nat) =~= done@.map_values(
                        |t: usize| t as nat,
                    ).push(acc as nat));
                }
                done.push(acc);
                acc = 0;
                seen = false;
            }
            i = i + 1;
        }
        if !seen {
            return Err(TlvError::TagPathError);
        }
        proof {
            assert(done@.push(acc).map_values(|t: usize| t as nat) =~= done@.map_values(
                |t: usize| t as nat,
            ).push(acc as nat));
        }
        done.push(acc);
        Ok(done)
    }

    /// Returns the value that a path such as "6F / A5 / DF7F" selects, or
    /// `None` when the path does not read as tags or no node lies on it.
    #[verifier::loop_isolation(false)]
    pub fn find_val(&self, path: &str) -> (r: Option<&Value>)
        ensures
            match spec_get_path(path@) {
                Some(tags) => match spec_resolve(self@, tags) {
                    Some(v) => r matches Some(rv) && rv@ == v,
                    None => r is None,
                },
                None => r is None,
            },
    {
        let tags = match Self::get_path(path) {
            Ok(x) => x,
            Err(_) => {
                return None;
            },
        };
        let ghost tags_nat = tags@.map_values(|t: usize| t as nat);
        if tags.len() == 0 {
            return None;
        }
        if tags[0] != self.tag {
            return None;
        }
        let mut tlv: &Tlv = self;
        let mut i: usize = 1;
        proof {
            assert(tags_nat.drop_first() =~= tags_nat.skip(1));
        }
        loop
            invariant
                1 <= i <= tags@.len(),
                spec_resolve(self@, tags_nat) == spec_resolve_in(
                    tlv@.val,
                    tags_nat.skip(i as int),
                ),
            decreases tags@.len() - i,
        {
            if i >= tags.len() {
                proof {
                    assert(tags_nat.skip(i as int) =~= Seq::<nat>::empty());
                }
                return Some(&tlv.val);
            }
            let want = tags[i];
            proof {
                assert(tags_nat.skip(i as int)[0] == tags_nat[i as int]);
            }
            match &tlv.val {
                Value::TlvList(list) => {
                    match first_match_in(list, want) {
                        Some(child) => {
                            proof {
                                assert(tags_nat.skip(i as int).drop_first() =~= tags_nat.skip(
                                    i + 1,
                                ));
                            }
                            tlv = child;
                            i = i + 1;
                        },
                        None => {
                            return None;
                        },
                    }
                },
                _ => {
                    return None;
                },
            }
        }
    }

    /// Returns the first direct child carrying `tag`, an error when none does
    /// or when this node is not constructed.
    pub fn child(&self, tag: usize) -> (r: Result<&Tlv, TlvError>)
        ensures
            match self@.val {
                SpecValue::List(l) => match spec_first_match(l, tag as nat) {
                    Some(c) => r matches Ok(t) && t@ == c,
                    None => r == Err::<&Tlv, TlvError>(TlvError::TagPathError),
                },
                _ => r == Err::<&Tlv, TlvError>(TlvError::TlvListExpected { tag_number: tag }),
            },
    {
        match &self.val {
            Value::TlvList(list) => match first_match_in(list, tag) {
                Some(t) => Ok(t),
                None => Err(TlvError::TagPathError),
            },
            _ => Err(TlvError::TlvListExpected { tag_number: tag }),
        }
    }

    /// Builds a primitive node whose value is the typed value's encoding.
    pub fn new_spec<T: TagValue>(tag: usize, value: T) -> (r: Result<Tlv, TlvError>)
        ensures
            match r {
                Ok(t) => t@ == (SpecTlv {
                    tag: tag as nat,
                    val: SpecValue::Bytes(value.spec_bytes()),
                }) && !spec_constructed(tag as nat),
                Err(e) => spec_constructed(tag as nat) && e == (TlvError::TlvListExpected {
                    tag_number: tag,
                }),
            },
    {
        Tlv::new(tag, Value::Val(value.bytes()))
    }
}

} // verus!
