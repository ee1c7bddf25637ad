//! Typed tag values: the conversions between raw primitive-value bytes and
//! the numbers, strings and codes the device protocol speaks of.

use vstd::arithmetic::div_mod::{lemma_basic_div, lemma_div_denominator, lemma_small_div_converse};
use vstd::prelude::*;
use vstd::utf8::{decode_utf8, encode_utf8, valid_utf8};

use crate::device::ExtDisplayMode;
use crate::number::{get_bytes_big_endian, to_u16_big_endian};
use crate::text::{hex_string, spec_hex};
use crate::tlv_parser::{TagValue, TlvError};

verus! {

/// A 16-bit value stored as exactly two big-endian bytes.
pub struct U16BigEndianTagValue {
    val: u16,
}

impl U16BigEndianTagValue {
    /// The stored 16-bit value.
    pub fn value(&self) -> (r: u16)
        ensures
            r == self.spec_value(),
    {
        self.val
    }

    pub closed spec fn spec_value(&self) -> u16 {
        self.val
    }
}

impl TagValue for U16BigEndianTagValue {
    type Value = u16;

    open spec fn spec_bytes(&self) -> Seq<u8> {
        seq![(self.spec_value() / 256) as u8, (self.spec_value() % 256) as u8]
    }

    open spec fn from_ok(raw: Seq<u8>) -> bool {
        raw.len() == 2
    }

    fn new(val: u16) -> (r: Self)
        ensures
            r.spec_value() == val,
    {
        Self { val }
    }

    fn from_raw(raw: &[u8]) -> (r: Result<Self, TlvError>)
        ensures
            r matches Ok(x) ==> x.spec_value() == raw@[0] * 256 + raw@[1],
    {
        if raw.len() != 2 {
            return Err(TlvError::ParseTagValue("expected 2 bytes".to_owned()));
        }
        match to_u16_big_endian(raw) {
            Some(v) => Ok(Self { val: v }),
            None => Err(TlvError::ParseTagValue("expected 2 bytes".to_owned())),
        }
    }

    fn bytes(&self) -> (r: Vec<u8>) {
        get_bytes_big_endian(self.val)
    }
}

/// 10 raised to `k`.
pub open spec fn spec_pow10(k: nat) -> nat
    decreases k,
{
    if k == 0 {
        1
    } else {
        10 * spec_pow10((k - 1) as nat)
    }
}

/// Packed binary-coded-decimal bytes of `v`, most significant digits first,
/// padded with leading zero digits to `size` digits (an odd size gains one
/// more pad digit to fill its high nibble).
pub open spec fn spec_bcd(v: nat, size: nat) -> Seq<u8> {
    spec_bcd_pairs(v, (size + 1) / 2)
}

pub open spec fn spec_bcd_pairs(v: nat, k: nat) -> Seq<u8>
    decreases k,
{
    if k == 0 {
        Seq::empty()
    } else {
        spec_bcd_pairs(v / 100, (k - 1) as nat).push((((v / 10) % 10) * 16 + v % 10) as u8)
    }
}

/// The decimal number a packed BCD byte string denotes.
pub open spec fn spec_bcd_value(raw: Seq<u8>) -> nat
    decreases raw.len(),
{
    if raw.len() == 0 {
        0
    } else {
        (spec_bcd_value(raw.drop_last()) * 100 + (raw.last() / 16) * 10 + raw.last() % 16) as nat
    }
}

/// Every nibble of the byte string is a decimal digit.
pub open spec fn spec_bcd_digits_ok(raw: Seq<u8>) -> bool {
    forall|i: int| 0 <= i < raw.len() ==> (#[trigger] raw[i]) / 16 <= 9 && raw[i] % 16 <= 9
}

proof fn lemma_bcd_pairs_round_trip(v: nat, k: nat)
    requires
        v < spec_pow10(2 * k),
    ensures
        spec_bcd_pairs(v, k).len() == k,
        spec_bcd_digits_ok(spec_bcd_pairs(v, k)),
        spec_bcd_value(spec_bcd_pairs(v, k)) == v,
    decreases k,
{
    if k == 0 {
        assert(spec_pow10(0) == 1);
    } else {
        let k1 = (k - 1) as nat;
        assert(spec_pow10(2 * k) == 10 * spec_pow10((2 * k - 1) as nat));
        assert(spec_pow10((2 * k - 1) as nat) == 10 * spec_pow10(2 * k1));
        assert(v < 100 * spec_pow10(2 * k1));
        assert(spec_pow10(2 * k1) >= 1) by {
            lemma_pow10_increases(0, 2 * k1);
        }
        assert(v / 100 < spec_pow10(2 * k1)) by {
            lemma_div_denominator(v as int, 100, spec_pow10(2 * k1) as int);
            lemma_basic_div(v as int, 100 * spec_pow10(2 * k1) as int);
            lemma_small_div_converse(v as int / 100, spec_pow10(2 * k1) as int);
        }
        lemma_bcd_pairs_round_trip(v / 100, (k - 1) as nat);
        let hi = (v / 10) % 10;
        let lo = v % 10;
        let b = (hi * 16 + lo) as u8;
        assert(b / 16 == hi && b % 16 == lo);
        let s = spec_bcd_pairs(v, k);
        assert(s.drop_last() =~= spec_bcd_pairs(v / 100, (k - 1) as nat));
        assert(v / 10 / 10 == v / 100) by {
            lemma_div_denominator(v as int, 10, 10);
        }
        assert(v == (v / 100) * 100 + hi * 10 + lo);
        assert forall|i: int| 0 <= i < s.len() implies (#[trigger] s[i]) / 16 <= 9 && s[i] % 16
            <= 9 by {
            if i < s.len() - 1 {
                assert(s[i] == spec_bcd_pairs(v / 100, (k - 1) as nat)[i]);
            }
        }
    }
}

/// BCD round trip: an integer below ten-to-the-`size` packs into
/// `(size + 1) / 2` bytes of decimal digit pairs that decode to the same
/// integer.
pub proof fn lemma_bcd_round_trip(v: nat, size: nat)
    requires
        v < spec_pow10(size),
    ensures
        spec_bcd(v, size).len() == (size + 1) / 2,
        spec_bcd_digits_ok(spec_bcd(v, size)),
        spec_bcd_value(spec_bcd(v, size)) == v,
{
    let k = (size + 1) / 2;
    assert(v < spec_pow10(2 * k)) by {
        lemma_pow10_increases(size, 2 * k);
    }
    lemma_bcd_pairs_round_trip(v, k);
}

pub proof fn lemma_pow10_increases(j: nat, k: nat)
    requires
        j <= k,
    ensures
        spec_pow10(j) <= spec_pow10(k),
    decreases k,
{
    if j < k {
        lemma_pow10_increases(j, (k - 1) as nat);
    }
}

/// The longer a valid BCD string grows, the larger the number it denotes.
proof fn lemma_bcd_value_take_monotonic(s: Seq<u8>, i: int, j: int)
    requires
        0 <= i <= j <= s.len(),
    ensures
        spec_bcd_value(s.take(i)) <= spec_bcd_value(s.take(j)),
    decreases j - i,
{
    if i < j {
        lemma_bcd_value_take_monotonic(s, i, j - 1);
        assert(s.take(j).drop_last() =~= s.take(j - 1));
    }
}

/// A valid BCD byte string is the canonical packing of the number it
/// denotes, at its own digit count.
proof fn lemma_bcd_canonical(raw: Seq<u8>)
    requires
        spec_bcd_digits_ok(raw),
    ensures
        spec_bcd_pairs(spec_bcd_value(raw), raw.len()) == raw,
    decreases raw.len(),
{
    if raw.len() > 0 {
        assert forall|i: int| 0 <= i < raw.drop_last().len() implies (#[trigger] raw.drop_last()[i])
            / 16 <= 9 && raw.drop_last()[i] % 16 <= 9 by {
            assert(raw.drop_last()[i] == raw[i]);
        }
        lemma_bcd_canonical(raw.drop_last());
        let a = spec_bcd_value(raw.drop_last());
        let b = raw.last();
        let hi = (b / 16) as nat;
        let lo = (b % 16) as nat;
        let v = spec_bcd_value(raw);
        assert(v == a * 100 + hi * 10 + lo);
        assert(v / 100 == a && (v / 10) % 10 == hi && v % 10 == lo) by (nonlinear_arith)
            requires
                v == a * 100 + hi * 10 + lo,
                hi <= 9,
                lo <= 9,
        ;
        assert(spec_bcd_pairs(v, raw.len()) =~= raw);
    }
}

/// A decimal number padded to a digit count, stored as packed BCD bytes.
pub struct IntTagValue {
    val: u64,
    size: usize,
}

impl IntTagValue {
    /// The stored decimal value.
    pub fn value(&self) -> (r: u64)
        ensures
            r == self.spec_value(),
    {
        self.val
    }

    pub closed spec fn spec_value(&self) -> u64 {
        self.val
    }

    pub closed spec fn spec_size(&self) -> usize {
        self.size
    }
}

/// Appends the BCD digit pairs of `v`, padded to `k` bytes.
fn push_bcd_pairs(v: u64, k: usize, out: &mut Vec<u8>)
    ensures
        final(out)@ == old(out)@ + spec_bcd_pairs(v as nat, k as nat),
    decreases k,
{
    if k > 0 {
        push_bcd_pairs(v / 100, k - 1, out);
        out.push((((v / 10) % 10) * 16 + v % 10) as u8);
        proof {
            assert(final(out)@ =~= old(out)@ + spec_bcd_pairs(v as nat, k as nat));
        }
    } else {
        proof {
            assert(final(out)@ =~= old(out)@ + spec_bcd_pairs(v as nat, 0));
        }
    }
}

impl TagValue for IntTagValue {
    type Value = (u64, usize);

    open spec fn spec_bytes(&self) -> Seq<u8> {
        spec_bcd(self.spec_value() as nat, self.spec_size() as nat)
    }

    open spec fn from_ok(raw: Seq<u8>) -> bool {
        &&& 2 * raw.len() <= usize::MAX
        &&& spec_bcd_digits_ok(raw)
        &&& spec_bcd_value(raw) <= u64::MAX
    }

    /// The value must fit within the asked-for digit count.
    fn new(val: (u64, usize)) -> (r: Self)
        ensures
            r.spec_value() == val.0,
            r.spec_size() == val.1,
    {
        Self { val: val.0, size: val.1 }
    }

    fn from_raw(raw: &[u8]) -> (r: Result<Self, TlvError>)
        ensures
            r matches Ok(x) ==> x.spec_value() as nat == spec_bcd_value(raw@) && x.spec_size()
                == 2 * raw@.len(),
    {
        if raw.len() > usize::MAX / 2 {
            proof {
                assert(usize::MAX / 2 * 2 + usize::MAX % 2 == usize::MAX);
            }
            return Err(TlvError::ParseTagValue("too many digits".to_owned()));
        }
        let mut acc: u64 = 0;
        let mut i: usize = 0;
        proof {
            assert(usize::MAX / 2 * 2 + usize::MAX % 2 == usize::MAX);
            assert(raw@.take(0) =~= Seq::<u8>::empty());
        }
        while i < raw.len()
            invariant
                i <= raw@.len(),
                2 * raw@.len() <= usize::MAX,
                spec_bcd_digits_ok(raw@.take(i as int)),
                acc as nat == spec_bcd_value(raw@.take(i as int)),
            decreases raw@.len() - i,
        {
            let b = raw[i];
            let hi = b / 16;
            let lo = b % 16;
            if hi > 9 || lo > 9 {
                return Err(TlvError::ParseTagValue("expected a decimal digit".to_owned()));
            }
            proof {
                assert(raw@.take(i + 1).drop_last() =~= raw@.take(i as int));
                assert(raw@.take(i + 1).last() == raw@[i as int]);
                assert((u64::MAX as nat - (hi * 10 + lo)) / 100 * 100 + (u64::MAX as nat - (hi
                    * 10 + lo)) % 100 == u64::MAX as nat - (hi * 10 + lo));
            }
            if acc > (u64::MAX - (hi as u64 * 10 + lo as u64)) / 100 {
                proof {
                    lemma_bcd_value_take_monotonic(raw@, i + 1, raw@.len() as int);
                    assert(raw@.take(raw@.len() as int) =~= raw@);
                }
                return Err(TlvError::ParseTagValue("decimal value is too large".to_owned()));
            }
            acc = acc * 100 + hi as u64 * 10 + lo as u64;
            i = i + 1;
        }
        proof {
            assert(raw@.take(raw@.len() as int) =~= raw@);
            lemma_bcd_canonical(raw@);
            assert((2 * raw@.len() + 1) / 2 == raw@.len());
        }
        Ok(Self { val: acc, size: 2 * raw.len() })
    }

    fn bytes(&self) -> (r: Vec<u8>) {
        let k = self.size / 2 + self.size % 2;
        let mut out: Vec<u8> = Vec::new();
        push_bcd_pairs(self.val, k, &mut out);
        proof {
            assert(Seq::<u8>::empty() + spec_bcd_pairs(self.val as nat, k as nat)
                =~= spec_bcd_pairs(self.val as nat, k as nat));
            assert(k as nat == (self.size as nat + 1) / 2);
        }
        out
    }
}

/// Relies on `String::from_utf8`: it accepts exactly the valid UTF-8 byte
/// strings and decodes them to their scalar values.
#[verifier::external_body]
pub(crate) fn string_from_utf8(bytes: Vec<u8>) -> (r: Option<String>)
    ensures
        r is Some <==> valid_utf8(bytes@),
        r matches Some(s) ==> s@ == decode_utf8(bytes@),
{
    match String::from_utf8(bytes) {
        Ok(s) => Some(s),
        Err(_) => None,
    }
}

/// A textual value carried as its UTF-8 bytes.
pub struct StringAsciiTagValue {
    val: String,
}

impl StringAsciiTagValue {
    /// The stored text.
    pub fn text(&self) -> (r: &String)
        ensures
            r@ == self.spec_chars(),
    {
        &self.val
    }

    pub closed spec fn spec_chars(&self) -> Seq<char> {
        self.val@
    }
}

impl TagValue for StringAsciiTagValue {
    type Value = String;

    open spec fn spec_bytes(&self) -> Seq<u8> {
        encode_utf8(self.spec_chars())
    }

    open spec fn from_ok(raw: Seq<u8>) -> bool {
        valid_utf8(raw)
    }

    fn new(val: String) -> (r: Self)
        ensures
            r.spec_chars() == val@,
    {
        Self { val }
    }

    fn from_raw(raw: &[u8]) -> (r: Result<Self, TlvError>)
        ensures
            r matches Ok(x) ==> x.spec_chars() == decode_utf8(raw@),
    {
        proof {
            broadcast use vstd::utf8::decode_utf8_encode_utf8;

        }
        match string_from_utf8(vstd::slice::slice_to_vec(raw)) {
            Some(s) => Ok(Self { val: s }),
            None => Err(TlvError::ParseTagValue("invalid UTF-8 text".to_owned())),
        }
    }

    fn bytes(&self) -> (r: Vec<u8>) {
        self.val.as_str().as_bytes_vec()
    }
}

/// An opaque byte string, rendered as upper-case hexadecimal for display.
pub struct HexTagValue {
    raw: Vec<u8>,
}

impl HexTagValue {
    /// The upper-case hexadecimal rendering of the bytes.
    pub fn text(&self) -> (r: String)
        ensures
            r@ == spec_hex(self.spec_raw()),
    {
        hex_string(self.raw.as_slice())
    }

    pub closed spec fn spec_raw(&self) -> Seq<u8> {
        self.raw@
    }
}

impl TagValue for HexTagValue {
    type Value = Vec<u8>;

    open spec fn spec_bytes(&self) -> Seq<u8> {
        self.spec_raw()
    }

    open spec fn from_ok(raw: Seq<u8>) -> bool {
        true
    }

    fn new(val: Vec<u8>) -> (r: Self)
        ensures
            r.spec_raw() == val@,
    {
        Self { raw: val }
    }

    fn from_raw(raw: &[u8]) -> (r: Result<Self, TlvError>)
        ensures
            r matches Ok(x) ==> x.spec_raw() == raw@,
    {
        Ok(Self { raw: vstd::slice::slice_to_vec(raw) })
    }

    fn bytes(&self) -> (r: Vec<u8>) {
        vstd::slice::slice_to_vec(self.raw.as_slice())
    }
}

/// The transaction-termination reason codes a poll reply may carry.
#[derive(Copy, Clone, PartialEq, Eq, Structural, Debug)]
pub enum AnnexE {
    CollisionMoreThanOnePICCDetected,
    EmvTransactionTerminated,
    EmvTransactionTerminatedSeePhone,
    EmvTransactionTerminatedUseContactChannel,
    EmvTransactionTerminatedTryAgain,
}

/// The single wire byte for each termination reason.
pub open spec fn spec_annex_e_code(a: AnnexE) -> u8 {
    match a {
        AnnexE::CollisionMoreThanOnePICCDetected => 0x06,
        AnnexE::EmvTransactionTerminated => 0x09,
        AnnexE::EmvTransactionTerminatedSeePhone => 0x29,
        AnnexE::EmvTransactionTerminatedUseContactChannel => 0x2a,
        AnnexE::EmvTransactionTerminatedTryAgain => 0x2b,
    }
}

pub struct AnnexETagValue {
    val: AnnexE,
}

impl AnnexETagValue {
    /// The stored termination reason.
    pub fn value(&self) -> (r: AnnexE)
        ensures
            r == self.spec_value(),
    {
        self.val
    }

    pub closed spec fn spec_value(&self) -> AnnexE {
        self.val
    }
}

impl TagValue for AnnexETagValue {
    type Value = AnnexE;

    open spec fn spec_bytes(&self) -> Seq<u8> {
        seq![spec_annex_e_code(self.spec_value())]
    }

    open spec fn from_ok(raw: Seq<u8>) -> bool {
        raw.len() == 1 && (raw[0] == 0x06 || raw[0] == 0x09 || raw[0] == 0x29 || raw[0] == 0x2a
            || raw[0] == 0x2b)
    }

    fn new(val: AnnexE) -> (r: Self)
        ensures
            r.spec_value() == val,
    {
        Self { val }
    }

    fn from_raw(raw: &[u8]) -> (r: Result<Self, TlvError>)
        ensures
            r matches Ok(x) ==> spec_annex_e_code(x.spec_value()) == raw@[0],
    {
        if raw.len() != 1 {
            return Err(TlvError::ParseTagValue("expected 1 byte".to_owned()));
        }
        let val = match raw[0] {
            0x06 => AnnexE::CollisionMoreThanOnePICCDetected,
            0x09 => AnnexE::EmvTransactionTerminated,
            0x29 => AnnexE::EmvTransactionTerminatedSeePhone,
            0x2a => AnnexE::EmvTransactionTerminatedUseContactChannel,
            0x2b => AnnexE::EmvTransactionTerminatedTryAgain,
            _ => {
                return Err(TlvError::ParseTagValue("unknown termination code".to_owned()));
            },
        };
        proof {
            assert(seq![spec_annex_e_code(val)] =~= raw@);
        }
        Ok(Self { val })
    }

    fn bytes(&self) -> (r: Vec<u8>) {
        let mut out: Vec<u8> = Vec::new();
        let code: u8 = match self.val {
            AnnexE::CollisionMoreThanOnePICCDetected => 0x06,
            AnnexE::EmvTransactionTerminated => 0x09,
            AnnexE::EmvTransactionTerminatedSeePhone => 0x29,
            AnnexE::EmvTransactionTerminatedUseContactChannel => 0x2a,
            AnnexE::EmvTransactionTerminatedTryAgain => 0x2b,
        };
        out.push(code);
        proof {
            assert(out@ =~= self.spec_bytes());
        }
        out
    }
}

/// The external display mode carried as one byte.
pub open spec fn spec_display_mode_code(m: ExtDisplayMode) -> u8 {
    match m {
        ExtDisplayMode::NoDisplay => 0x00,
        ExtDisplayMode::Simple => 0x01,
        ExtDisplayMode::Full => 0x02,
    }
}

pub struct ExternalDisplayModeTagValue {
    val: ExtDisplayMode,
}

impl ExternalDisplayModeTagValue {
    /// The stored display mode.
    pub fn value(&self) -> (r: ExtDisplayMode)
        ensures
            r == self.spec_value(),
    {
        self.val
    }

    pub closed spec fn spec_value(&self) -> ExtDisplayMode {
        self.val
    }
}

impl TagValue for ExternalDisplayModeTagValue {
    type Value = ExtDisplayMode;

    open spec fn spec_bytes(&self) -> Seq<u8> {
        seq![spec_display_mode_code(self.spec_value())]
    }

    open spec fn from_ok(raw: Seq<u8>) -> bool {
        raw.len() == 1 && raw[0] <= 0x02
    }

    fn new(val: ExtDisplayMode) -> (r: Self)
        ensures
            r.spec_value() == val,
    {
        Self { val }
    }

    fn from_raw(raw: &[u8]) -> (r: Result<Self, TlvError>)
        ensures
            r matches Ok(x) ==> spec_display_mode_code(x.spec_value()) == raw@[0],
    {
        if raw.len() != 1 {
            return Err(TlvError::ParseTagValue("expected 1 byte".to_owned()));
        }
        let val = match raw[0] {
            0x00 => ExtDisplayMode::NoDisplay,
            0x01 => ExtDisplayMode::Simple,
            0x02 => ExtDisplayMode::Full,
            _ => {
                return Err(TlvError::ParseTagValue("unknown display mode code".to_owned()));
            },
        };
        proof {
            assert(seq![spec_display_mode_code(val)] =~= raw@);
        }
        Ok(Self { val })
    }

    fn bytes(&self) -> (r: Vec<u8>) {
        let mut out: Vec<u8> = Vec::new();
        let code: u8 = match self.val {
            ExtDisplayMode::NoDisplay => 0x00,
            ExtDisplayMode::Simple => 0x01,
            ExtDisplayMode::Full => 0x02,
        };
        out.push(code);
        proof {
            assert(out@ =~= self.spec_bytes());
        }
        out
    }
}

/// The 8-byte composite serial number: board version, partial part number,
/// and a 4-byte unique identifier.
pub struct SerialNumberTagValue {
    bom_version: U16BigEndianTagValue,
    partial_pn: U16BigEndianTagValue,
    unique_id: HexTagValue,
}

impl SerialNumberTagValue {
    pub fn get_bom_version(&self) -> (r: u16)
        ensures
            r == self.spec_bom_version(),
    {
        self.bom_version.value()
    }

    pub fn get_partial_pn(&self) -> (r: u16)
        ensures
            r == self.spec_partial_pn(),
    {
        self.partial_pn.value()
    }

    pub fn get_unique_id(&self) -> (r: String)
        ensures
            r@ == spec_hex(self.spec_unique_id()),
    {
        self.unique_id.text()
    }

    pub closed spec fn spec_bom_version(&self) -> u16 {
        self.bom_version.spec_value()
    }

    pub closed spec fn spec_partial_pn(&self) -> u16 {
        self.partial_pn.spec_value()
    }

    pub closed spec fn spec_unique_id(&self) -> Seq<u8> {
        self.unique_id.spec_raw()
    }
}

impl TagValue for SerialNumberTagValue {
    type Value = (U16BigEndianTagValue, U16BigEndianTagValue, HexTagValue);

    open spec fn spec_bytes(&self) -> Seq<u8> {
        seq![
            (self.spec_bom_version() / 256) as u8,
            (self.spec_bom_version() % 256) as u8,
            (self.spec_partial_pn() / 256) as u8,
            (self.spec_partial_pn() % 256) as u8,
        ] + self.spec_unique_id()
    }

    open spec fn from_ok(raw: Seq<u8>) -> bool {
        raw.len() == 8
    }

    fn new(val: Self::Value) -> (r: Self)
        ensures
            r.spec_bom_version() == val.0.spec_value(),
            r.spec_partial_pn() == val.1.spec_value(),
            r.spec_unique_id() == val.2.spec_raw(),
    {
        Self { bom_version: val.0, partial_pn: val.1, unique_id: val.2 }
    }

    fn from_raw(raw: &[u8]) -> (r: Result<Self, TlvError>)
        ensures
            r matches Ok(x) ==> {
                &&& x.spec_bom_version() == raw@[0] * 256 + raw@[1]
                &&& x.spec_partial_pn() == raw@[2] * 256 + raw@[3]
                &&& x.spec_unique_id() == raw@.subrange(4, 8)
            },
    {
        if raw.len() != 8 {
            return Err(TlvError::ParseTagValue("expected 8 bytes".to_owned()));
        }
        let bom_version = match U16BigEndianTagValue::from_raw(
            vstd::slice::slice_subrange(raw, 0, 2),
        ) {
            Ok(x) => x,
            Err(e) => {
                return Err(e);
            },
        };
        let partial_pn = match U16BigEndianTagValue::from_raw(
            vstd::slice::slice_subrange(raw, 2, 4),
        ) {
            Ok(x) => x,
            Err(e) => {
                return Err(e);
            },
        };
        let unique_id = match HexTagValue::from_raw(vstd::slice::slice_subrange(raw, 4, 8)) {
            Ok(x) => x,
            Err(e) => {
                return Err(e);
            },
        };
        let r = Self { bom_version, partial_pn, unique_id };
        proof {
            assert(r.spec_bytes() =~= raw@);
        }
        Ok(r)
    }

    fn bytes(&self) -> (r: Vec<u8>) {
        let mut out = self.bom_version.bytes();
        let mut pn = self.partial_pn.bytes();
        let mut uid = self.unique_id.bytes();
        out.append(&mut pn);
        out.append(&mut uid);
        out
    }
}

} // verus!
