//! Extensions around the TLV codec: typed value reads with their own error
//! type, convenience constructors, and a plain-text tree renderer.

use vstd::prelude::*;
use vstd::utf8::{decode_utf8, encode_utf8, valid_utf8};

use crate::error::TlvValueParseError;
use crate::text::push_digit_pair;
use crate::tlv_parser::{
    lemma_value_view, spec_resolve, SpecValue, Tlv, TlvError, Value,
};

verus! {

/// Typed conversion between raw primitive-value bytes and a richer value,
/// with the value-parse error type.  `spec_raw_ok` names the byte strings
/// that decode; decoding succeeds exactly on those and returns a value that
/// encodes back to the same bytes.
pub trait TlvValue<T>: Sized {
    spec fn spec_value_bytes(&self) -> Seq<u8>;

    spec fn spec_raw_ok(raw: Seq<u8>) -> bool;

    fn from_raw(raw: &[u8]) -> (r: Result<Self, TlvValueParseError>)
        ensures
            r is Ok <==> Self::spec_raw_ok(raw@),
            r matches Ok(x) ==> x.spec_value_bytes() == raw@,
    ;

    fn bytes(&self) -> (r: Vec<u8>)
        ensures
            r@ == self.spec_value_bytes(),
    ;
}

/// A textual value carried as its UTF-8 bytes.
pub struct AsciiString {
    val: String,
}

impl AsciiString {
    pub fn new(val: String) -> (r: Self)
        ensures
            r.spec_chars() == val@,
    {
        Self { val }
    }

    /// The stored text.
    pub fn text(&self) -> (r: &String)
        ensures
            r@ == self.spec_chars(),
    {
        &self.val
    }

    pub closed spec fn spec_chars(&self) -> Seq<char> {
        self.val@
    }
}

impl TlvValue<AsciiString> for AsciiString {
    open spec fn spec_value_bytes(&self) -> Seq<u8> {
        encode_utf8(self.spec_chars())
    }

    open spec fn spec_raw_ok(raw: Seq<u8>) -> bool {
        valid_utf8(raw)
    }

    fn from_raw(raw: &[u8]) -> (r: Result<AsciiString, TlvValueParseError>)
        ensures
            r matches Ok(x) ==> x.spec_chars() == decode_utf8(raw@),
    {
        proof {
            broadcast use vstd::utf8::decode_utf8_encode_utf8;

        }
        match crate::tag_value::string_from_utf8(vstd::slice::slice_to_vec(raw)) {
            Some(s) => Ok(AsciiString { val: s }),
            None => Err(TlvValueParseError::Other("invalid UTF-8 text".to_owned())),
        }
    }

    fn bytes(&self) -> (r: Vec<u8>) {
        self.val.as_str().as_bytes_vec()
    }
}

impl Tlv {
    /// Reads the typed value a path selects: `None` when no node lies on the
    /// path, `ManyValues` when the node is constructed, the value parser's
    /// error when its bytes do not decode, and otherwise the decoded value
    /// (an explicitly empty node decodes from no bytes).
    pub fn get_val<T: TlvValue<T>>(&self, path: &str) -> (r: Result<Option<T>, TlvValueParseError>)
        ensures
            match crate::tlv_parser::spec_get_path(path@) {
                Some(tags) => match spec_resolve(self@, tags) {
                    Some(v) => match v {
                        SpecValue::Bytes(b) => if T::spec_raw_ok(b) {
                            r matches Ok(o) && o matches Some(x) && x.spec_value_bytes() == b
                        } else {
                            r is Err && !(r == Err::<Option<T>, TlvValueParseError>(
                                TlvValueParseError::ManyValues,
                            ))
                        },
                        SpecValue::Nothing => if T::spec_raw_ok(Seq::empty()) {
                            r matches Ok(o) && o matches Some(x) && x.spec_value_bytes()
                                == Seq::<u8>::empty()
                        } else {
                            r is Err
                        },
                        SpecValue::List(_) => r == Err::<Option<T>, TlvValueParseError>(
                            TlvValueParseError::ManyValues,
                        ),
                    },
                    None => r matches Ok(o) && o is None,
                },
                None => r matches Ok(o) && o is None,
            },
    {
        let value = match self.find_val(path) {
            Some(v) => v,
            None => {
                return Ok(None);
            },
        };
        proof {
            lemma_value_view(value);
        }
        match value {
            Value::TlvList(_) => Err(TlvValueParseError::ManyValues),
            Value::Val(b) => match T::from_raw(b.as_slice()) {
                Ok(x) => Ok(Some(x)),
                Err(e) => match e {
                    TlvValueParseError::ManyValues => Err(
                        TlvValueParseError::Other("value parser failed".to_owned()),
                    ),
                    other => Err(other),
                },
            },
            Value::Nothing => {
                let empty: [u8; 0] = [];
                proof {
                    assert(empty@ =~= Seq::<u8>::empty());
                }
                match T::from_raw(empty.as_slice()) {
                    Ok(x) => Ok(Some(x)),
                    Err(e) => Err(e),
                }
            },
        }
    }

}

/// Convenience constructors and typed reads on the tree type.
pub trait TlvExtensions: Sized {
    fn new_with_val<T: TlvValue<T>>(tag: usize, val: T) -> Result<Self, TlvError>;

    fn new_with_childs(tag: usize, vals: Vec<Self>) -> Result<Self, TlvError>;

    fn new_with_raw_val(tag: usize, val: Vec<u8>) -> Result<Self, TlvError>;

    fn find_val_ext<T: TlvValue<T>>(&self, path: &str) -> Result<Option<T>, TlvValueParseError>;

    fn val_ext<T: TlvValue<T>>(&self) -> Result<T, TlvValueParseError>;
}

impl TlvExtensions for Tlv {
    /// Builds a primitive node holding a typed value's bytes.
    fn new_with_val<T: TlvValue<T>>(tag: usize, val: T) -> (r: Result<Tlv, TlvError>)
        ensures
            r matches Ok(t) ==> t@.tag == tag && t@.val == SpecValue::Bytes(
                val.spec_value_bytes(),
            ),
            r is Err ==> crate::tlv_parser::spec_constructed(tag as nat),
    {
        let bytes = val.bytes();
        let v = Value::Val(bytes);
        proof {
            lemma_value_view(&v);
        }
        Tlv::new(tag, v)
    }

    /// Builds a constructed node over child nodes.
    fn new_with_childs(tag: usize, vals: Vec<Tlv>) -> (r: Result<Tlv, TlvError>)
        ensures
            r matches Ok(t) ==> t@.tag == tag && t@.val == SpecValue::List(
                crate::tlv_parser::view_of_list(vals@),
            ),
            r is Err ==> !crate::tlv_parser::spec_constructed(tag as nat),
    {
        let v = Value::TlvList(vals);
        proof {
            lemma_value_view(&v);
        }
        Tlv::new(tag, v)
    }

    /// Builds a primitive node over raw bytes.
    fn new_with_raw_val(tag: usize, val: Vec<u8>) -> (r: Result<Tlv, TlvError>)
        ensures
            r matches Ok(t) ==> t@.tag == tag && t@.val == SpecValue::Bytes(val@),
            r is Err ==> crate::tlv_parser::spec_constructed(tag as nat),
    {
        let v = Value::Val(val);
        proof {
            lemma_value_view(&v);
        }
        Tlv::new(tag, v)
    }

    /// Reads the typed value a path selects, as [`Tlv::get_val`] does.
    fn find_val_ext<T: TlvValue<T>>(&self, path: &str) -> (r: Result<
        Option<T>,
        TlvValueParseError,
    >)
        ensures
            match crate::tlv_parser::spec_get_path(path@) {
                Some(tags) => match spec_resolve(self@, tags) {
                    Some(v) => match v {
                        SpecValue::Bytes(b) => if T::spec_raw_ok(b) {
                            r matches Ok(o) && o matches Some(x) && x.spec_value_bytes() == b
                        } else {
                            r is Err
                        },
                        SpecValue::Nothing => if T::spec_raw_ok(Seq::empty()) {
                            r matches Ok(o) && o matches Some(x) && x.spec_value_bytes()
                                == Seq::<u8>::empty()
                        } else {
                            r is Err
                        },
                        SpecValue::List(_) => r == Err::<Option<T>, TlvValueParseError>(
                            TlvValueParseError::ManyValues,
                        ),
                    },
                    None => r matches Ok(o) && o is None,
                },
                None => r matches Ok(o) && o is None,
            },
    {
        self.get_val::<T>(path)
    }

    /// Reads this node's own value as a typed value: a child list is
    /// `ManyValues`, an explicitly empty value decodes from no bytes.
    fn val_ext<T: TlvValue<T>>(&self) -> (r: Result<T, TlvValueParseError>)
        ensures
            match self@.val {
                SpecValue::Bytes(b) => if T::spec_raw_ok(b) {
                    r matches Ok(x) && x.spec_value_bytes() == b
                } else {
                    r is Err
                },
                SpecValue::Nothing => if T::spec_raw_ok(Seq::empty()) {
                    r matches Ok(x) && x.spec_value_bytes() == Seq::<u8>::empty()
                } else {
                    r is Err
                },
                SpecValue::List(_) => r == Err::<T, TlvValueParseError>(
                    TlvValueParseError::ManyValues,
                ),
            },
    {
        let value = self.val();
        proof {
            lemma_value_view(value);
        }
        match value {
            Value::TlvList(_) => Err(TlvValueParseError::ManyValues),
            Value::Val(b) => T::from_raw(b.as_slice()),
            Value::Nothing => {
                let empty: [u8; 0] = [];
                proof {
                    assert(empty@ =~= Seq::<u8>::empty());
                }
                T::from_raw(empty.as_slice())
            },
        }
    }
}

/// A borrowed tree together with its human-readable rendering: each node on
/// a line of its own, indented under its parent, as `- TAG: [bytes]`.
pub struct TlvDecorator<'a> {
    tlv: &'a Tlv,
}

impl<'a> TlvDecorator<'a> {
    pub fn new(tlv: &'a Tlv) -> Self {
        TlvDecorator { tlv }
    }

    /// Renders the borrowed tree.
    pub fn text(&self) -> String {
        let mut ident = String::new();
        let mut output = String::new();
        Self::display_write(self.tlv, &mut ident, &mut output);
        output
    }

    /// Writes one node and its children; nesting deepens the indent.
    #[verifier::loop_isolation(false)]
    fn display_write(tlv: &Tlv, ident: &mut String, output: &mut String)
        decreases crate::tlv_parser::spec_tlv_len(tlv@),
    {
        output.append(ident.as_str());
        output.append("- ");
        push_tag_hex(tlv.tag(), output);
        output.append(": ");
        let v = tlv.val();
        proof {
            lemma_value_view(v);
        }
        match v {
            Value::Val(val) => {
                output.append("[");
                let mut i: usize = 0;
                while i < val.len()
                    decreases val@.len() - i,
                {
                    if i > 0 {
                        output.append(", ");
                    }
                    push_digit_pair(val[i], output);
                    i = i + 1;
                }
                output.append("]");
            },
            Value::TlvList(childs) => {
                proof {
                    crate::tlv_parser::lemma_view_of_list_props(childs@);
                }
                output.append("\n");
                ident.append("  ");
                let mut i: usize = 0;
                while i < childs.len()
                    decreases childs@.len() - i,
                {
                    proof {
                        crate::tlv_parser::lemma_tlv_view(childs@[i as int]);
                        crate::tlv_parser::lemma_list_len_child_bound(
                            crate::tlv_parser::view_of_list(childs@),
                            i as int,
                        );
                    }
                    Self::display_write(&childs[i], ident, output);
                    i = i + 1;
                }
            },
            Value::Nothing => {},
        }
    }
}

/// Appends the tag's bytes as upper-case hexadecimal pairs; a zero tag still
/// prints one pair.
fn push_tag_hex(tag: usize, output: &mut String) {
    if tag == 0 {
        push_digit_pair(0, output);
        return ;
    }
    let mut bytes: Vec<u8> = Vec::new();
    let mut t: usize = tag;
    while t != 0
        decreases t,
    {
        bytes.push((t % 256) as u8);
        t = t / 256;
    }
    let mut i: usize = bytes.len();
    while i > 0
        invariant
            i <= bytes@.len(),
        decreases i,
    {
        i = i - 1;
        push_digit_pair(bytes[i], output);
    }
}

} // verus!
