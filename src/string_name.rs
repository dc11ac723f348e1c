//! Immutable, cheaply shared string handles.
use std::sync::Arc;
use vstd::prelude::*;
use vstd::string::StringExecFns;
use vstd::utf8::encode_utf8;

verus! {

/// Relies on `<[char]>::iter` collected into a `String`: the string holds
/// exactly the given characters, in order.
#[verifier::external_body]
pub(crate) fn string_from_chars(cs: &[char]) -> (r: String)
    ensures
        r@ == cs@,
{
    cs.iter().collect()
}

/// Relies on `str::chars` collected into a `Vec`: the characters of the
/// string, in order.
#[verifier::external_body]
pub(crate) fn chars_of(s: &str) -> (r: Vec<char>)
    ensures
        r@ == s@,
{
    s.chars().collect()
}

/// An interned name: an immutable character sequence behind a shared pointer,
/// so that clones share their storage.
#[derive(Clone, Debug, Default, PartialEq, Eq, Hash)]
pub struct StringName {
    s: Arc<String>,
}

impl View for StringName {
    type V = Seq<char>;

    closed spec fn view(&self) -> Seq<char> {
        self.s@
    }
}

impl StringName {
    /// A name holding the characters of a literal.
    pub fn from_static_str(s: &'static str) -> (r: Self)
        ensures
            r@ == s@,
    {
        StringName { s: Arc::new(s.to_owned()) }
    }

    /// A name holding the characters of `s`.
    pub fn from_str(s: &str) -> (r: Self)
        ensures
            r@ == s@,
    {
        StringName { s: Arc::new(s.to_owned()) }
    }

    /// A name that takes over `s`.
    pub fn from_string(s: String) -> (r: Self)
        ensures
            r@ == s@,
    {
        StringName { s: Arc::new(s) }
    }

    /// A name that shares the storage of `s`.
    pub fn from_arc_string(s: Arc<String>) -> (r: Self)
        ensures
            r@ == s@,
    {
        StringName { s }
    }

    /// A name holding the given characters.
    pub fn from_chars(cs: &[char]) -> (r: Self)
        ensures
            r@ == cs@,
    {
        StringName { s: Arc::new(string_from_chars(cs)) }
    }

    pub fn as_str(&self) -> (r: &str)
        ensures
            r@ == self@,
    {
        self.s.as_str()
    }

    /// The UTF-8 bytes of the name.
    pub fn to_vec(&self) -> (r: Vec<u8>)
        ensures
            r@ == encode_utf8(self@),
    {
        vstd::slice::slice_to_vec(self.as_str().as_bytes())
    }

    /// Whether `c` occurs in the name.
    pub fn contains(&self, c: char) -> (r: bool)
        ensures
            r == self@.contains(c),
    {
        let cs = chars_of(self.as_str());
        let mut i: usize = 0;
        while i < cs.len()
            invariant
                i <= cs@.len(),
                cs@ == self@,
                forall|k: int| 0 <= k < i ==> cs@[k] != c,
            decreases cs@.len() - i,
        {
            if cs[i] == c {
                return true;
            }
            i += 1;
        }
        false
    }

    /// A name with the same characters.
    pub fn clone_name(&self) -> (r: Self)
        ensures
            r@ == self@,
    {
        StringName { s: self.s.clone() }
    }

    /// Byte-for-byte equality.
    pub fn equals(&self, other: &StringName) -> (r: bool)
        ensures
            r == (self@ == other@),
    {
        *self.s == *other.s
    }

    /// A new name: this one followed by `rhs`.
    pub fn concat(&self, rhs: &str) -> (r: Self)
        ensures
            r@ == self@ + rhs@,
    {
        let mut s = self.as_str().to_owned();
        s.append(rhs);
        StringName { s: Arc::new(s) }
    }
}

} // verus!
