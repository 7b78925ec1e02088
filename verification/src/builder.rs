//! A growable byte buffer that accepts anything convertible to bytes and can
//! be turned into a `String` once its contents are valid UTF-8.

use vstd::prelude::*;
use vstd::string::*;
use vstd::utf8::*;

verus! {

/// Capacity reserved by `Builder::default`.
pub const DEFAULT_CAPACITY: usize = 1024;

/// The longest UTF-8 encoding of a single `char`, in bytes.
pub const MAX_UNICODE_WIDTH: usize = 4;

/// Values that have a byte representation which a `Builder` can append.
pub trait ToBytes {
    /// The bytes that stand for this value.
    spec fn bytes(&self) -> Seq<u8>;

    fn to_bytes(&self) -> (out: Vec<u8>)
        ensures
            out@ == self.bytes(),
    ;
}

/// A buffer of `len` zero bytes.
pub fn make_copyable_buf(len: usize) -> (buf: Vec<u8>)
    ensures
        buf@ == Seq::new(len as nat, |i: int| 0u8),
{
    let mut buf: Vec<u8> = Vec::with_capacity(len);
    let mut i: usize = 0;
    while i < len
        invariant
            i <= len,
            buf@ == Seq::new(i as nat, |j: int| 0u8),
        decreases len - i,
    {
        buf.push(0u8);
        i = i + 1;
    }
    buf
}

/// An owned copy of the slice.
pub fn slice_to_vec(s: &[u8]) -> (res: Vec<u8>)
    ensures
        res@ == s@,
{
    let mut res = make_copyable_buf(s.len());
    let mut i: usize = 0;
    while i < s.len()
        invariant
            i <= s.len(),
            res.len() == s.len(),
            forall|j: int| 0 <= j < i ==> res[j] == s[j],
        decreases s.len() - i,
    {
        res.set(i, s[i]);
        i = i + 1;
    }
    res
}

impl ToBytes for String {
    /// The UTF-8 encoding of the text.
    open spec fn bytes(&self) -> Seq<u8> {
        encode_utf8(self@)
    }

    fn to_bytes(&self) -> (out: Vec<u8>) {
        slice_to_vec(self.as_str().as_bytes())
    }
}

impl<'a> ToBytes for &'a str {
    /// The UTF-8 encoding of the text.
    open spec fn bytes(&self) -> Seq<u8> {
        encode_utf8(self@)
    }

    fn to_bytes(&self) -> (out: Vec<u8>) {
        slice_to_vec(self.as_bytes())
    }
}

impl ToBytes for u8 {
    /// The byte itself.
    open spec fn bytes(&self) -> Seq<u8> {
        seq![*self]
    }

    fn to_bytes(&self) -> (out: Vec<u8>) {
        let mut out: Vec<u8> = Vec::with_capacity(1);
        out.push(*self);
        out
    }
}

impl ToBytes for char {
    /// The UTF-8 encoding of the character, one to four bytes.
    open spec fn bytes(&self) -> Seq<u8> {
        encode_scalar(*self as u32)
    }

    fn to_bytes(&self) -> (out: Vec<u8>) {
        let code: u32 = *self as u32;
        proof {
            char_is_scalar(*self);
        }
        let mut out: Vec<u8> = Vec::with_capacity(MAX_UNICODE_WIDTH);
        if code <= 0x7F {
            out.push((code & 0x7F) as u8);
        } else if code <= 0x7FF {
            out.push(0xC0 | ((code >> 6) & 0x1F) as u8);
            out.push(0x80 | (code & 0x3F) as u8);
        } else if code <= 0xFFFF {
            out.push(0xE0 | ((code >> 12) & 0x0F) as u8);
            out.push(0x80 | ((code >> 6) & 0x3F) as u8);
            out.push(0x80 | (code & 0x3F) as u8);
        } else {
            out.push(0xF0 | ((code >> 18) & 0x7) as u8);
            out.push(0x80 | ((code >> 12) & 0x3F) as u8);
            out.push(0x80 | ((code >> 6) & 0x3F) as u8);
            out.push(0x80 | (code & 0x3F) as u8);
        }
        assert(out@ =~= encode_scalar(code));
        out
    }
}

impl<'a> ToBytes for &'a [u8] {
    /// The bytes of the slice.
    open spec fn bytes(&self) -> Seq<u8> {
        self@
    }

    fn to_bytes(&self) -> (out: Vec<u8>) {
        slice_to_vec(self)
    }
}

/// The bytes of a builder that could not become a `String`.
#[derive(Debug)]
pub struct InvalidUtf8 {
    bytes: Vec<u8>,
}

impl View for InvalidUtf8 {
    type V = Seq<u8>;

    closed spec fn view(&self) -> Seq<u8> {
        self.bytes@
    }
}

impl InvalidUtf8 {
    /// The bytes that were rejected, as they stood in the builder.
    pub fn into_bytes(self) -> (bytes: Vec<u8>)
        ensures
            bytes@ == self@,
    {
        self.bytes
    }
}

/// `String::from_utf8`, with the rejected bytes taken out of its error. Valid
/// UTF-8 gives the text that the bytes encode; anything else gives the bytes
/// back unchanged.
#[verifier::external_body]
fn string_from_utf8(bytes: Vec<u8>) -> (decoded: Result<String, Vec<u8>>)
    ensures
        match decoded {
            Ok(text) => valid_utf8(bytes@) && text@ == decode_utf8(bytes@),
            Err(rejected) => !valid_utf8(bytes@) && rejected@ == bytes@,
        },
{
    match String::from_utf8(bytes) {
        Ok(text) => Ok(text),
        Err(error) => Err(error.into_bytes()),
    }
}

/// A byte buffer that grows by appending.
pub struct Builder(Vec<u8>);

impl View for Builder {
    type V = Seq<u8>;

    closed spec fn view(&self) -> Seq<u8> {
        self.0@
    }
}

impl Default for Builder {
    /// An empty builder with room for `DEFAULT_CAPACITY` bytes.
    fn default() -> (builder: Builder)
        ensures
            builder@ == Seq::<u8>::empty(),
    {
        Builder(Vec::with_capacity(DEFAULT_CAPACITY))
    }
}

impl Builder {
    /// An empty builder with room for `size` bytes.
    pub fn new(size: usize) -> (builder: Builder)
        ensures
            builder@ == Seq::<u8>::empty(),
    {
        Builder(Vec::with_capacity(size))
    }

    /// Appends the bytes of `buf` behind what the builder holds.
    pub fn append<T: ToBytes>(&mut self, buf: T)
        ensures
            final(self)@ == old(self)@ + buf.bytes(),
    {
        let mut bytes = buf.to_bytes();
        self.0.append(&mut bytes);
    }

    /// The number of bytes appended so far.
    pub fn len(&self) -> (len: usize)
        ensures
            len == self@.len(),
    {
        self.0.len()
    }

    /// The bytes appended so far.
    pub fn into_bytes(self) -> (bytes: Vec<u8>)
        ensures
            bytes@ == self@,
    {
        self.0
    }

    /// The contents as text. It succeeds exactly when the bytes are valid
    /// UTF-8; otherwise the error holds the bytes.
    pub fn string(self) -> (text: Result<String, InvalidUtf8>)
        ensures
            match text {
                Ok(s) => valid_utf8(self@) && s@ == decode_utf8(self@),
                Err(e) => !valid_utf8(self@) && e@ == self@,
            },
    {
        match string_from_utf8(self.0) {
            Ok(text) => Ok(text),
            Err(bytes) => Err(InvalidUtf8 { bytes }),
        }
    }
}

} // verus!
