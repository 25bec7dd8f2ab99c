use vstd::prelude::*;
use vstd::utf8::decode_utf8;
use vstd::utf8::valid_utf8;

verus! {

/// An owned text that keeps short contents inline, as tags, roles and user
/// names mostly are.
///
/// The value is a `smartstring` string. Verus does not look inside it: all
/// that is known of it is the text it holds, `smart_text`.
#[derive(Debug, PartialEq, Eq)]
#[verifier::external_body]
pub struct SmartStr {
    inner: smartstring::alias::String,
}

/// The characters that a `SmartStr` holds.
pub uninterp spec fn smart_text(s: SmartStr) -> Seq<char>;

/// What `String::from_utf8_lossy` makes of a byte string: its text where the
/// bytes are valid UTF-8, and otherwise the text in which each invalid run
/// has become U+FFFD.
pub uninterp spec fn lossy_utf8(bytes: Seq<u8>) -> Seq<char>;

impl View for SmartStr {
    type V = Seq<char>;

    open spec fn view(&self) -> Seq<char> {
        smart_text(*self)
    }
}

/// `smartstring`'s `From<&str>`: the new string holds the characters of `s`.
#[verifier::external_body]
fn smart_from_str(s: &str) -> (r: SmartStr)
    ensures
        smart_text(r) == s@,
{
    SmartStr { inner: smartstring::alias::String::from(s) }
}

/// `SmartString::as_str`: the slice holds the characters of the string.
#[verifier::external_body]
fn smart_as_str(s: &SmartStr) -> (r: &str)
    ensures
        r@ == smart_text(*s),
{
    s.inner.as_str()
}

/// `smartstring`'s `PartialEq`: two strings are equal when their texts are.
#[verifier::external_body]
fn smart_eq(a: &SmartStr, b: &SmartStr) -> (r: bool)
    ensures
        r == (smart_text(*a) == smart_text(*b)),
{
    a.inner == b.inner
}

/// `String::from_utf8_lossy`: the result is a function of the bytes alone,
/// and for valid UTF-8 it is the text that the bytes encode.
#[verifier::external_body]
fn utf8_lossy(bytes: &[u8]) -> (r: String)
    ensures
        r@ == lossy_utf8(bytes@),
        valid_utf8(bytes@) ==> r@ == decode_utf8(bytes@),
{
    String::from_utf8_lossy(bytes).into_owned()
}

impl SmartStr {
    /// A string with the characters of `s`.
    pub fn new(s: &str) -> (r: SmartStr)
        ensures
            r@ == s@,
    {
        smart_from_str(s)
    }

    /// The text as a slice.
    pub fn as_str(&self) -> (r: &str)
        ensures
            r@ == self@,
    {
        smart_as_str(self)
    }

    /// Whether two strings hold the same text.
    pub fn same_text(&self, other: &SmartStr) -> (r: bool)
        ensures
            r == (self@ == other@),
    {
        smart_eq(self, other)
    }

    /// The text of a byte string, with U+FFFD in place of what is not UTF-8.
    pub fn from_utf8_lossy(bytes: &[u8]) -> (r: SmartStr)
        ensures
            r@ == lossy_utf8(bytes@),
            valid_utf8(bytes@) ==> r@ == decode_utf8(bytes@),
    {
        let owned = utf8_lossy(bytes);
        smart_from_str(owned.as_str())
    }
}

} // verus!
