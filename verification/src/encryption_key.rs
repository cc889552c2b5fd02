//! The 16-byte key of the asset container and its keystream.

use vstd::prelude::*;
use vstd::string::is_ascii_spec_bytes;
use vstd::string::StringExecFns;
use vstd::string::StringSliceAdditionalSpecFns;

use crate::error::Error;

verus! {

/// Number of bytes in a key.
pub const KEY_LEN: usize = 16;

/// True for `0-9`, `a-f` and `A-F`.
pub open spec fn is_hex_digit(c: char) -> bool {
    ||| '0' <= c <= '9'
    ||| 'a' <= c <= 'f'
    ||| 'A' <= c <= 'F'
}

/// The number that a hexadecimal digit stands for.
pub open spec fn hex_digit_value(c: char) -> int {
    if '0' <= c <= '9' {
        c as int - '0' as int
    } else if 'a' <= c <= 'f' {
        c as int - 'a' as int + 10
    } else {
        c as int - 'A' as int + 10
    }
}

/// A key text is exactly 32 hexadecimal digits.
pub open spec fn is_key_text(s: Seq<char>) -> bool {
    &&& s.len() == 2 * KEY_LEN
    &&& forall|i: int| 0 <= i < s.len() ==> is_hex_digit(#[trigger] s[i])
}

/// The key that a key text spells: byte `i` is written by the digits `2i` and `2i + 1`,
/// high digit first.
pub open spec fn key_text_bytes(s: Seq<char>) -> Seq<u8> {
    Seq::new(
        KEY_LEN as nat,
        |i: int| (16 * hex_digit_value(s[2 * i]) + hex_digit_value(s[2 * i + 1])) as u8,
    )
}

/// The message of the error that a text which is no key text is refused with.
pub open spec fn key_text_refusal(s: &str) -> Seq<char> {
    if s.spec_bytes().len() != 2 * KEY_LEN {
        "Invalid encryption key length: "@ + s@
    } else {
        "Invalid encryption key data: invalid digit found in string"@
    }
}

/// `data` with byte `i` combined by exclusive or with byte `i mod key.len()` of `key`.
pub open spec fn xor_stream(key: Seq<u8>, data: Seq<u8>) -> Seq<u8> {
    Seq::new(data.len(), |i: int| data[i] ^ key[i % (key.len() as int)])
}

/// The value of one ASCII hexadecimal digit, if the byte is one.
fn hex_value(b: u8) -> (r: Option<u8>)
    ensures
        r is Some <==> is_hex_digit(b as char),
        r matches Some(v) ==> v == hex_digit_value(b as char),
{
    if b >= 0x30 && b <= 0x39 {
        Some(b - 0x30)
    } else if b >= 0x61 && b <= 0x66 {
        Some(b - 0x61 + 10)
    } else if b >= 0x41 && b <= 0x46 {
        Some(b - 0x41 + 10)
    } else {
        None
    }
}

/// A 16-byte secret. It cannot be changed once made.
#[derive(Debug, PartialEq, Eq)]
pub struct EncryptionKey([u8; 16]);

impl View for EncryptionKey {
    type V = Seq<u8>;

    closed spec fn view(&self) -> Seq<u8> {
        self.0@
    }
}

impl EncryptionKey {
    /// The key made of the given bytes.
    pub fn new(inner: [u8; 16]) -> (key: Self)
        ensures
            key@ == inner@,
    {
        Self(inner)
    }

    /// Reads a key from 32 hexadecimal digits, upper or lower case.
    ///
    /// Anything else is refused, and no key is made of a part of it.
    pub fn from_hex_str(s: &str) -> (r: Result<Self, Error>)
        ensures
            r is Ok <==> is_key_text(s@),
            r matches Ok(key) ==> key@ == key_text_bytes(s@),
            r matches Err(e) ==> e matches Error::Key(msg) && msg@ == key_text_refusal(s),
    {
        proof {
            if is_key_text(s@) {
                assert(vstd::utf8::is_ascii_chars(s@));
                vstd::utf8::is_ascii_chars_encode_utf8(s@);
            }
        }
        let bytes = s.as_bytes();
        if bytes.len() != 32 {
            return Err(Error::Key(String::from_str("Invalid encryption key length: ").concat(s)));
        }
        if !s.is_ascii() {
            proof {
                let i = choose|i: int| 0 <= i < s@.len() && !('\0' <= #[trigger] s@[i] <= '\u{7f}');
                assert(!is_hex_digit(s@[i]));
            }
            return Err(
                Error::Key(
                    String::from_str("Invalid encryption key data: invalid digit found in string"),
                ),
            );
        }
        proof {
            is_ascii_spec_bytes(s);
            assert(bytes@.len() == s@.len());
            assert forall|j: int| 0 <= j < 32 implies bytes@[j] as char == #[trigger] s@[j] by {
                assert(bytes@[j] == s@[j] as u8);
                assert('\0' <= s@[j] <= '\u{7f}');
            }
        }
        let mut key: [u8; 16] = [0u8; 16];
        let mut i: usize = 0;
        while i < 16
            invariant
                i <= 16,
                bytes@.len() == 32,
                s@.len() == 32,
                s.spec_bytes().len() == 32,
                forall|j: int| 0 <= j < 32 ==> bytes@[j] as char == #[trigger] s@[j],
                forall|j: int| 0 <= j < 2 * i ==> is_hex_digit(#[trigger] s@[j]),
                forall|j: int| 0 <= j < i ==> key@[j] == #[trigger] key_text_bytes(s@)[j],
            decreases 16 - i,
        {
            let high = hex_value(bytes[2 * i]);
            let low = hex_value(bytes[2 * i + 1]);
            match (high, low) {
                (Some(h), Some(l)) => {
                    key[i] = h * 16 + l;
                },
                _ => {
                    assert(!is_hex_digit(s@[2 * i]) || !is_hex_digit(s@[2 * i + 1]));
                    return Err(
                        Error::Key(
                            String::from_str(
                                "Invalid encryption key data: invalid digit found in string",
                            ),
                        ),
                    );
                },
            }
            i += 1;
        }
        assert(key@ =~= key_text_bytes(s@));
        Ok(Self(key))
    }

    /// Runs the keystream over `data`: byte `i` of the result is byte `i` of `data`
    /// combined by exclusive or with byte `i mod 16` of the key.
    pub fn xor(&self, data: &[u8]) -> (out: Vec<u8>)
        ensures
            out@ == xor_stream(self@, data@),
    {
        let mut out: Vec<u8> = Vec::with_capacity(data.len());
        let mut i: usize = 0;
        while i < data.len()
            invariant
                i <= data@.len(),
                out@.len() == i,
                forall|j: int| 0 <= j < i ==> out@[j] == data@[j] ^ self@[j % 16],
            decreases data@.len() - i,
        {
            out.push(data[i] ^ self.0[i % 16]);
            i += 1;
        }
        assert(out@ =~= xor_stream(self@, data@));
        out
    }

    /// A key is always 16 bytes long.
    pub proof fn has_key_len(self)
        ensures
            self@.len() == KEY_LEN,
    {
    }
}

/// A letter's lower-case form; any other character is left as it is.
pub open spec fn ascii_lowercase(c: char) -> char {
    if 'A' <= c <= 'Z' {
        (c as int + 32) as char
    } else {
        c
    }
}

/// A key text spells the same key whatever the case of its letters: a text that differs
/// from a key text only in case is a key text too, of the same bytes.
pub proof fn key_text_ignores_case(s: Seq<char>, t: Seq<char>)
    requires
        is_key_text(s),
        t.len() == s.len(),
        forall|i: int| 0 <= i < s.len() ==> ascii_lowercase(s[i]) == ascii_lowercase(t[i]),
    ensures
        is_key_text(t),
        key_text_bytes(t) == key_text_bytes(s),
{
    assert forall|i: int| 0 <= i < s.len() implies is_hex_digit(#[trigger] t[i])
        && hex_digit_value(t[i]) == hex_digit_value(s[i]) by {
        assert(is_hex_digit(s[i]));
        assert(ascii_lowercase(s[i]) == ascii_lowercase(t[i]));
    }
    assert forall|i: int| 0 <= i < KEY_LEN implies key_text_bytes(t)[i] == key_text_bytes(s)[i] by {
        assert(is_hex_digit(t[2 * i]) && hex_digit_value(t[2 * i]) == hex_digit_value(s[2 * i]));
        assert(is_hex_digit(t[2 * i + 1]) && hex_digit_value(t[2 * i + 1]) == hex_digit_value(
            s[2 * i + 1],
        ));
    }
    assert(key_text_bytes(t) =~= key_text_bytes(s));
}

/// Running the keystream twice gives the data back.
pub proof fn xor_twice_is_identity(key: EncryptionKey, data: Seq<u8>)
    ensures
        xor_stream(key@, xor_stream(key@, data)) == data,
{
    let once = xor_stream(key@, data);
    assert forall|i: int| 0 <= i < data.len() implies (#[trigger] once[i]) ^ key@[i % 16]
        == data[i] by {
        let d = data[i];
        let k = key@[i % 16];
        assert((d ^ k) ^ k == d) by (bit_vector);
    }
    assert(xor_stream(key@, once) =~= data);
}

} // verus!
