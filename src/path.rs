use vstd::prelude::*;
use vstd::string::*;
use vstd::utf8::*;
use crate::error::Error;

verus! {

/// The text of a path value: it is rooted, that is it starts with `/`.
pub open spec fn is_path_text(s: Seq<char>) -> bool {
    s.len() > 0 && s[0] == '/'
}

/// The path that a stored record holds: its bytes decoded as UTF-8, when
/// they are valid UTF-8 and the text is a path.
pub open spec fn record_path(bytes: Seq<u8>) -> Option<Seq<char>> {
    if valid_utf8(bytes) && is_path_text(decode_utf8(bytes)) {
        Some(decode_utf8(bytes))
    } else {
        None
    }
}

/// Relies on `String::from_utf8`: it accepts exactly the valid UTF-8 byte
/// sequences and then holds the characters that they encode.
#[verifier::external_body]
fn string_from_utf8(bytes: Vec<u8>) -> (r: Option<String>)
    ensures
        match r {
            Some(s) => valid_utf8(bytes@) && s@ == decode_utf8(bytes@),
            None => !valid_utf8(bytes@),
        },
{
    String::from_utf8(bytes).ok()
}

/// A path value, kept in its canonical text form.
#[derive(Debug)]
pub struct IpfsPath {
    text: String,
}

impl View for IpfsPath {
    type V = Seq<char>;

    closed spec fn view(&self) -> Seq<char> {
        self.text@
    }
}

impl IpfsPath {
    #[verifier::type_invariant]
    closed spec fn rooted(&self) -> bool {
        is_path_text(self.text@)
    }

    /// Parses a path from its text; a text that is not rooted is a decode error.
    pub fn from_str(s: &str) -> (r: Result<IpfsPath, Error>)
        ensures
            r is Ok <==> is_path_text(s@),
            r matches Ok(p) ==> p@ == s@,
            r matches Err(e) ==> e is Decode,
    {
        if s.is_empty() {
            return Err(Error::Decode);
        }
        if s.get_char(0) != '/' {
            return Err(Error::Decode);
        }
        Ok(IpfsPath { text: s.to_owned() })
    }

    /// The canonical text of the path.
    pub fn to_string(&self) -> (r: String)
        ensures
            r@ == self@,
            is_path_text(self@),
    {
        proof {
            use_type_invariant(self);
        }
        self.text.clone()
    }

    /// The canonical text of the path, borrowed.
    pub fn as_str(&self) -> (r: &str)
        ensures
            r@ == self@,
            is_path_text(self@),
    {
        proof {
            use_type_invariant(self);
        }
        self.text.as_str()
    }

    /// The stored form of the path: the UTF-8 bytes of its text.
    pub fn to_record(&self) -> (r: Vec<u8>)
        ensures
            r@ == encode_utf8(self@),
            is_path_text(self@),
    {
        proof {
            use_type_invariant(self);
        }
        self.text.as_str().as_bytes_vec()
    }

    /// Reads a path back from its stored form.
    pub fn from_record(bytes: Vec<u8>) -> (r: Result<IpfsPath, Error>)
        ensures
            r is Ok <==> record_path(bytes@) is Some,
            r matches Ok(p) ==> record_path(bytes@) == Some(p@),
            r matches Err(e) ==> e is Decode,
    {
        match string_from_utf8(bytes) {
            Some(s) => IpfsPath::from_str(s.as_str()),
            None => Err(Error::Decode),
        }
    }
}

/// Storing a path and reading it back gives the same path.
pub proof fn lemma_record_round_trip(p: Seq<char>)
    requires
        is_path_text(p),
    ensures
        record_path(encode_utf8(p)) == Some(p),
{
    encode_utf8_valid_utf8(p);
    encode_utf8_decode_utf8(p);
}

} // verus!
