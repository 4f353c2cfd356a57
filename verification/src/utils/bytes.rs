use vstd::prelude::*;

verus! {

/// The bytes of a text under the one-to-one mapping: each character is cut
/// down to its low eight bits.
pub open spec fn raw_bytes(text: Seq<char>) -> Seq<u8> {
    Seq::new(text.len(), |i: int| text[i] as u8)
}

/// The text of a byte string under the one-to-one mapping: byte `b` becomes
/// the character with code point `b`.
pub open spec fn raw_text(bytes: Seq<u8>) -> Seq<char> {
    Seq::new(bytes.len(), |i: int| bytes[i] as char)
}

/// Appends one character to a `String` (`String::push`).
///
/// Trusted: the text grows by exactly that character.
#[verifier::external_body]
pub(crate) fn push_char(text: &mut String, c: char)
    ensures
        final(text)@ == old(text)@.push(c),
{
    text.push(c)
}

/// Turns bytes into the text that they write in UTF-8 (`String::from_utf8`).
///
/// Trusted: there is a text exactly when the bytes are valid UTF-8, and it
/// is the text that they decode to.
#[verifier::external_body]
pub(crate) fn string_from_utf8(bytes: Vec<u8>) -> (text: Option<String>)
    ensures
        text is Some <==> vstd::utf8::valid_utf8(bytes@),
        text matches Some(s) ==> s@ == vstd::utf8::decode_utf8(bytes@),
{
    String::from_utf8(bytes).ok()
}

/// Whether two byte strings hold the same bytes.
pub fn bytes_equal(a: &[u8], b: &[u8]) -> (same: bool)
    ensures
        same == (a@ == b@),
{
    if a.len() != b.len() {
        return false;
    }
    let mut i: usize = 0;
    while i < a.len()
        invariant
            a@.len() == b@.len(),
            i <= a@.len(),
            a@.subrange(0, i as int) == b@.subrange(0, i as int),
        decreases a@.len() - i,
    {
        if a[i] != b[i] {
            return false;
        }
        i += 1;
        assert(a@.subrange(0, i as int) =~= a@.subrange(0, i - 1).push(a@[i - 1]));
        assert(b@.subrange(0, i as int) =~= b@.subrange(0, i - 1).push(b@[i - 1]));
    }
    assert(a@.subrange(0, i as int) =~= a@);
    assert(b@.subrange(0, i as int) =~= b@);
    true
}

/// Appends the bytes of `src` to `out`.
pub fn extend_bytes(out: &mut Vec<u8>, src: &[u8])
    ensures
        final(out)@ == old(out)@ + src@,
{
    out.extend_from_slice(src);
    assert(out@ =~= old(out)@ + src@);
}

/// The bytes of `target` with those of `data` written over them from
/// position `at` on.
pub open spec fn overwritten(target: Seq<u8>, at: int, data: Seq<u8>) -> Seq<u8> {
    target.subrange(0, at) + data + target.subrange(at + data.len(), target.len() as int)
}

/// Writes the bytes of `data` over those of `target` from position `at` on.
pub fn copy_into(target: &mut Vec<u8>, at: usize, data: &[u8])
    requires
        at + data@.len() <= old(target)@.len(),
    ensures
        final(target)@ == overwritten(old(target)@, at as int, data@),
        final(target)@.len() == old(target)@.len(),
{
    let mut i: usize = 0;
    let total: usize = target.len();
    assert(target@ =~= overwritten(old(target)@, at as int, data@.subrange(0, 0)));
    while i < data.len()
        invariant
            i <= data@.len(),
            at + data@.len() <= target@.len() == total,
            target@.len() == old(target)@.len(),
            target@ == overwritten(old(target)@, at as int, data@.subrange(0, i as int)),
        decreases data@.len() - i,
    {
        target[at + i] = data[i];
        i += 1;
        assert(target@ =~= overwritten(old(target)@, at as int, data@.subrange(0, i as int)));
    }
    assert(data@.subrange(0, i as int) =~= data@);
}

/// A copy of `src[from..to]`.
pub fn copy_range(src: &[u8], from: usize, to: usize) -> (copy: Vec<u8>)
    requires
        from <= to <= src@.len(),
    ensures
        copy@ == src@.subrange(from as int, to as int),
{
    let mut copy: Vec<u8> = Vec::new();
    extend_bytes(&mut copy, vstd::slice::slice_subrange(src, from, to));
    assert(copy@ =~= src@.subrange(from as int, to as int));
    copy
}

/// Conversion of text into raw bytes, one byte per character.
///
/// Characters above U+00FF lose their high bits; use `str::as_bytes` for the
/// UTF-8 encoding.
pub trait RawBytesExt {
    fn to_raw_bytes(&self) -> Vec<u8>;
}

/// Conversion of raw bytes into text, one character per byte.
pub trait RawStringExt {
    fn to_raw_string(&self) -> String;
}

impl RawStringExt for [u8] {
    fn to_raw_string(&self) -> (text: String)
        ensures
            text@ == raw_text(self@),
    {
        let mut text = String::new();
        let mut i: usize = 0;
        while i < self.len()
            invariant
                i <= self@.len(),
                text@ == raw_text(self@.subrange(0, i as int)),
            decreases self@.len() - i,
        {
            let b: u8 = self[i];
            push_char(&mut text, b as char);
            i += 1;
            assert(text@ =~= raw_text(self@.subrange(0, i as int)));
        }
        assert(self@.subrange(0, i as int) =~= self@);
        text
    }
}

impl RawBytesExt for str {
    fn to_raw_bytes(&self) -> (bytes: Vec<u8>)
        ensures
            bytes@ == raw_bytes(self@),
    {
        let mut bytes: Vec<u8> = Vec::new();
        for c in it: self.chars()
            invariant
                it.seq() == self@,
                bytes@ == raw_bytes(self@.subrange(0, it.index() as int)),
        {
            bytes.push(#[verifier::truncate] (c as u8));
            assert(bytes@ =~= raw_bytes(self@.subrange(0, it.index() + 1)));
        }
        assert(self@.subrange(0, self@.len() as int) =~= self@);
        bytes
    }
}

/// Raw bytes back to text and to bytes again give the same bytes.
pub proof fn lemma_raw_text_roundtrip(bytes: Seq<u8>)
    ensures
        raw_bytes(raw_text(bytes)) == bytes,
{
    assert forall|i: int| 0 <= i < bytes.len() implies (bytes[i] as char) as u8 == bytes[i] by {
        let c = bytes[i] as char;
        assert(c as u32 == bytes[i] as u32);
    }
    assert(raw_bytes(raw_text(bytes)) =~= bytes);
}

} // verus!
