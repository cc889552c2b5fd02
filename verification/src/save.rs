//! The save text: JSON, compressed and written in base64 symbols.

use vstd::prelude::*;
use vstd::string::is_ascii_spec_bytes;
use vstd::string::StringExecFns;
use vstd::string::StringSliceAdditionalSpecFns;

use crate::error::Error;
use crate::error::LzErrorKind;

verus! {

/// A JSON value as the parser models it: a number is an unsigned integer, a negative
/// integer, or anything else kept as the text that prints it. The parser gives the
/// fields of an object in the order of their names, each name once.
#[derive(Debug, PartialEq, Eq)]
pub enum SaveValue {
    Null,
    Bool(bool),
    /// An integer from 0 to 2^64 - 1.
    PosInt(u64),
    /// An integer below 0.
    NegInt(i64),
    /// A number with a fraction or an exponent, as JSON text.
    Float(String),
    String(String),
    Array(Vec<SaveValue>),
    Object(Vec<(String, SaveValue)>),
}

/// What a `SaveValue` holds.
pub enum JsonTree {
    Null,
    Bool(bool),
    PosInt(u64),
    NegInt(i64),
    Float(Seq<char>),
    String(Seq<char>),
    Array(Seq<JsonTree>),
    Object(Seq<(Seq<char>, JsonTree)>),
}

/// What a value holds: what its variant holds, item by item and field by field.
pub open spec fn tree_of(value: SaveValue) -> JsonTree
    decreases value,
{
    match value {
        SaveValue::Null => JsonTree::Null,
        SaveValue::Bool(b) => JsonTree::Bool(b),
        SaveValue::PosInt(n) => JsonTree::PosInt(n),
        SaveValue::NegInt(n) => JsonTree::NegInt(n),
        SaveValue::Float(text) => JsonTree::Float(text@),
        SaveValue::String(text) => JsonTree::String(text@),
        SaveValue::Array(items) => JsonTree::Array(
            Seq::new(
                items@.len(),
                |i: int|
                    if 0 <= i < items@.len() {
                        tree_of(items@[i])
                    } else {
                        JsonTree::Null
                    },
            ),
        ),
        SaveValue::Object(fields) => JsonTree::Object(
            Seq::new(
                fields@.len(),
                |i: int|
                    if 0 <= i < fields@.len() {
                        (fields@[i].0@, tree_of(fields@[i].1))
                    } else {
                        (Seq::empty(), JsonTree::Null)
                    },
            ),
        ),
    }
}

impl View for SaveValue {
    type V = JsonTree;

    open spec fn view(&self) -> JsonTree {
        tree_of(*self)
    }
}

/// What the fields of an object hold.
pub open spec fn fields_view(fields: Seq<(String, SaveValue)>) -> Seq<(Seq<char>, JsonTree)> {
    Seq::new(fields.len(), |i: int| (fields[i].0@, fields[i].1@))
}

/// What the items of an array hold.
pub open spec fn items_view(items: Seq<SaveValue>) -> Seq<JsonTree> {
    Seq::new(items.len(), |i: int| items[i]@)
}

/// An array holds what its items hold, and an object what its fields hold.
pub proof fn lemma_tree_of(value: SaveValue)
    ensures
        value matches SaveValue::Object(fields) ==> value@ == JsonTree::Object(
            fields_view(fields@),
        ),
        value matches SaveValue::Array(items) ==> value@ == JsonTree::Array(items_view(items@)),
{
    match value {
        SaveValue::Object(fields) => {
            assert(value@->Object_0 =~= fields_view(fields@));
        },
        SaveValue::Array(items) => {
            assert(value@->Array_0 =~= items_view(items@));
        },
        _ => {},
    }
}

/// The deepest nesting of arrays and objects that is printed: the parser reads none
/// deeper, and the printer descends once for each level.
pub const MAX_NESTING: usize = 128;

/// Arrays and objects are nested no deeper than `limit`: a value that is neither is
/// within any limit, and an array or object is within a limit above 0 if what it
/// holds is within the limit below.
pub open spec fn is_nested_within(tree: JsonTree, limit: nat) -> bool
    decreases limit,
{
    match tree {
        JsonTree::Array(items) => limit > 0 && forall|i: int|
            0 <= i < items.len() ==> is_nested_within(#[trigger] items[i], (limit - 1) as nat),
        JsonTree::Object(fields) => limit > 0 && forall|i: int|
            0 <= i < fields.len() ==> is_nested_within(
                (#[trigger] fields[i]).1,
                (limit - 1) as nat,
            ),
        _ => true,
    }
}

/// The message for a value that is nested too deep to be printed.
pub open spec fn too_deep_message() -> Seq<char> {
    "recursion limit exceeded"@
}

/// What printing a value gives: the refusal of one that is nested deeper than
/// `MAX_NESTING`, and else what the printer gives.
pub open spec fn printed(
    tree: JsonTree,
    printer_gives: Result<Seq<char>, Seq<char>>,
) -> Result<Seq<char>, Seq<char>> {
    if is_nested_within(tree, MAX_NESTING as nat) {
        printer_gives
    } else {
        Err(too_deep_message())
    }
}

/// The longest text, in bytes, that is handed to the compression codec. Its dictionary
/// codes are 32 bits wide, and a text of this length cannot use them up.
pub const MAX_TEXT_LEN: usize = 0x1000_0000;

/// True for the 64 symbols of base64 and for the padding sign `=`.
pub open spec fn is_base64_symbol(c: char) -> bool {
    ||| 'A' <= c <= 'Z'
    ||| 'a' <= c <= 'z'
    ||| '0' <= c <= '9'
    ||| c == '+'
    ||| c == '/'
    ||| c == '='
}

/// The text holds base64 symbols and nothing else.
pub open spec fn is_base64_text(text: Seq<char>) -> bool {
    forall|i: int| 0 <= i < text.len() ==> is_base64_symbol(#[trigger] text[i])
}

/// The text that a sequence of UTF-16 code units spells, if it is well formed: a unit
/// outside the surrogate range is a character by itself, a high surrogate followed by a
/// low one makes one character beyond U+FFFF, and any other surrogate is an error.
pub open spec fn utf16_text(units: Seq<u16>) -> Option<Seq<char>>
    decreases units.len(),
{
    if units.len() == 0 {
        Some(Seq::empty())
    } else if units[0] < 0xD800 || units[0] > 0xDFFF {
        match utf16_text(units.skip(1)) {
            Some(rest) => Some(seq![units[0] as char] + rest),
            None => None,
        }
    } else if units[0] <= 0xDBFF && units.len() >= 2 && 0xDC00 <= units[1] <= 0xDFFF {
        match utf16_text(units.skip(2)) {
            Some(rest) => Some(
                seq![(0x10000 + (units[0] - 0xD800) * 0x400 + (units[1] - 0xDC00)) as char] + rest,
            ),
            None => None,
        }
    } else {
        None
    }
}

/// The code units that the codec decompresses a text of base64 symbols to, if the text
/// is a compressed stream.
pub uninterp spec fn lz_decompressed(text: Seq<char>) -> Option<Seq<u16>>;

/// The base64 text that the codec compresses a text to.
pub uninterp spec fn lz_compressed(text: Seq<char>) -> Seq<char>;

/// The value that the JSON parser reads a text as, or the message it refuses it with.
pub uninterp spec fn json_parsed(text: Seq<char>) -> Result<JsonTree, Seq<char>>;

/// The JSON text of a value on one line, or the message the printer refuses it with.
pub uninterp spec fn json_printed(tree: JsonTree) -> Result<Seq<char>, Seq<char>>;

/// The JSON text of a value, indented, or the message the printer refuses it with.
pub uninterp spec fn json_printed_pretty(tree: JsonTree) -> Result<Seq<char>, Seq<char>>;

/// What a decompressed payload means: nothing where the codec gave none, else the text
/// that its code units spell.
pub open spec fn payload_text(payload: Option<Seq<u16>>) -> Result<Seq<char>, LzErrorKind> {
    match payload {
        None => Err(LzErrorKind::Decompression),
        Some(units) => match utf16_text(units) {
            Some(text) => Ok(text),
            None => Err(LzErrorKind::Utf16),
        },
    }
}

/// The text that a compressed text stands for, or why it stands for none.
pub open spec fn decompressed(text: Seq<char>) -> Result<Seq<char>, LzErrorKind> {
    if !is_base64_text(text) {
        Err(LzErrorKind::Alphabet)
    } else if text.len() > MAX_TEXT_LEN {
        Err(LzErrorKind::Decompression)
    } else {
        payload_text(lz_decompressed(text))
    }
}

/// Calls `lz_str::decompress_from_base64`, which maps each symbol to its six bits and
/// runs the decompressor over them. The result is a function of the text alone, and is
/// named `lz_decompressed`. The codec shifts by the width of its dictionary codes, which
/// stays under 32 bits for a text within `MAX_TEXT_LEN`.
#[verifier::external_body]
fn lz_decompress_from_base64(text: &str) -> (r: Option<Vec<u16>>)
    requires
        text@.len() <= MAX_TEXT_LEN,
    ensures
        match lz_decompressed(text@) {
            Some(units) => r matches Some(v) && v@ == units,
            None => r is None,
        },
{
    lz_str::decompress_from_base64(text)
}

/// Calls `lz_str::compress_to_base64`. The result is a function of the text alone, and
/// is named `lz_compressed`. The codec numbers its dictionary entries in 32 bits and
/// adds at most two for each UTF-16 code unit, of which a text has no more than bytes.
#[verifier::external_body]
fn lz_compress_to_base64(text: &str) -> (r: String)
    requires
        text.spec_bytes().len() <= MAX_TEXT_LEN,
    ensures
        r@ == lz_compressed(text@),
{
    lz_str::compress_to_base64(text)
}

/// Calls `String::from_utf16`, which decodes UTF-16 and fails on a surrogate that has no
/// partner.
#[verifier::external_body]
fn string_from_utf16(units: &[u16]) -> (r: Option<String>)
    ensures
        match utf16_text(units@) {
            Some(text) => r matches Some(s) && s@ == text,
            None => r is None,
        },
{
    String::from_utf16(units).ok()
}

/// Whether arrays and objects are nested no deeper than `limit`.
pub fn nests_within(value: &SaveValue, limit: usize) -> (r: bool)
    ensures
        r == is_nested_within(value@, limit as nat),
    decreases limit,
{
    proof {
        lemma_tree_of(*value);
    }
    match value {
        SaveValue::Array(items) => {
            if limit == 0 {
                return false;
            }
            let ghost trees = items_view(items@);
            let mut i: usize = 0;
            while i < items.len()
                invariant
                    i <= items@.len(),
                    limit > 0,
                    trees == items_view(items@),
                    value@ == JsonTree::Array(trees),
                    forall|j: int|
                        0 <= j < i ==> is_nested_within(#[trigger] trees[j], (limit - 1) as nat),
                decreases items@.len() - i,
            {
                assert(trees[i as int] == items@[i as int]@);
                if !nests_within(&items[i], limit - 1) {
                    assert(value@->Array_0[i as int] == trees[i as int]);
                    return false;
                }
                i += 1;
            }
            assert(value@->Array_0 == trees);
            true
        },
        SaveValue::Object(fields) => {
            if limit == 0 {
                return false;
            }
            let ghost trees = fields_view(fields@);
            let mut i: usize = 0;
            while i < fields.len()
                invariant
                    i <= fields@.len(),
                    limit > 0,
                    trees == fields_view(fields@),
                    value@ == JsonTree::Object(trees),
                    forall|j: int|
                        0 <= j < i ==> is_nested_within(
                            (#[trigger] trees[j]).1,
                            (limit - 1) as nat,
                        ),
                decreases fields@.len() - i,
            {
                assert(trees[i as int] == (fields@[i as int].0@, fields@[i as int].1@));
                if !nests_within(&fields[i].1, limit - 1) {
                    assert(value@->Object_0[i as int] == trees[i as int]);
                    return false;
                }
                i += 1;
            }
            assert(value@->Object_0 == trees);
            true
        },
        _ => true,
    }
}

fn is_base64_byte(b: u8) -> (r: bool)
    ensures
        r == is_base64_symbol(b as char),
{
    (b >= 0x41 && b <= 0x5a) || (b >= 0x61 && b <= 0x7a) || (b >= 0x30 && b <= 0x39) || b == 0x2b
        || b == 0x2f || b == 0x3d
}

/// Whether the text holds base64 symbols and nothing else.
pub fn is_base64(data: &str) -> (r: bool)
    ensures
        r == is_base64_text(data@),
        r ==> data@.len() == data.spec_bytes().len(),
{
    if !data.is_ascii() {
        proof {
            let i = choose|i: int|
                0 <= i < data@.len() && !('\0' <= #[trigger] data@[i] <= '\u{7f}');
            assert(!is_base64_symbol(data@[i]));
        }
        return false;
    }
    let bytes = data.as_bytes();
    proof {
        is_ascii_spec_bytes(data);
        assert(bytes@.len() == data@.len());
        assert forall|j: int| 0 <= j < bytes@.len() implies bytes@[j] as char == #[trigger] data@[j] by {
            assert(bytes@[j] == data@[j] as u8);
            assert('\0' <= data@[j] <= '\u{7f}');
        }
    }
    let mut i: usize = 0;
    while i < bytes.len()
        invariant
            i <= bytes@.len(),
            bytes@.len() == data@.len(),
            forall|j: int| 0 <= j < bytes@.len() ==> bytes@[j] as char == #[trigger] data@[j],
            forall|j: int| 0 <= j < i ==> is_base64_symbol(#[trigger] data@[j]),
        decreases bytes@.len() - i,
    {
        if !is_base64_byte(bytes[i]) {
            assert(!is_base64_symbol(data@[i as int]));
            return false;
        }
        i += 1;
    }
    true
}

/// Reads the payload that the codec decompressed: no payload means that the text was no
/// compressed stream, and a payload must be well-formed UTF-16.
pub fn text_of_payload(payload: Option<Vec<u16>>) -> (r: Result<String, Error>)
    ensures
        match payload_text(
            match payload {
                Some(units) => Some(units@),
                None => None,
            },
        ) {
            Ok(text) => r matches Ok(s) && s@ == text,
            Err(kind) => r matches Err(Error::Lz(k)) && k == kind,
        },
{
    match payload {
        None => Err(Error::Lz(LzErrorKind::Decompression)),
        Some(units) => match string_from_utf16(units.as_slice()) {
            Some(text) => Ok(text),
            None => Err(Error::Lz(LzErrorKind::Utf16)),
        },
    }
}

/// Decompresses a save text.
///
/// A text with a character outside the base64 alphabet is refused as such. So is one
/// longer than `MAX_TEXT_LEN`, one that is no compressed stream, and one whose payload
/// is not UTF-16.
pub fn decompress(data: &str) -> (r: Result<String, Error>)
    ensures
        match decompressed(data@) {
            Ok(text) => r matches Ok(s) && s@ == text,
            Err(kind) => r matches Err(Error::Lz(k)) && k == kind,
        },
{
    if !is_base64(data) {
        return Err(Error::Lz(LzErrorKind::Alphabet));
    }
    if data.as_bytes().len() > MAX_TEXT_LEN {
        return Err(Error::Lz(LzErrorKind::Decompression));
    }
    text_of_payload(lz_decompress_from_base64(data))
}

/// Compresses a text into base64 symbols.
pub fn compress(data: &str) -> (r: String)
    requires
        data.spec_bytes().len() <= MAX_TEXT_LEN,
    ensures
        r@ == lz_compressed(data@),
{
    lz_compress_to_base64(data)
}

#[verifier::external_type_specification]
#[verifier::external_body]
pub struct ExJsonValue(serde_json::Value);

/// Carries a `serde_json::Value` over into a `SaveValue`, variant by variant. A number
/// that `as_u64` gives is unsigned, one that only `as_i64` gives is negative, and any
/// other is kept as the text that `to_string` prints. The fields of an object come in
/// the order in which its map yields them.
#[verifier::external_body]
fn tree_from(value: serde_json::Value) -> SaveValue {
    match value {
        serde_json::Value::Null => SaveValue::Null,
        serde_json::Value::Bool(b) => SaveValue::Bool(b),
        serde_json::Value::Number(n) => match (n.as_u64(), n.as_i64()) {
            (Some(u), _) => SaveValue::PosInt(u),
            (None, Some(i)) => SaveValue::NegInt(i),
            _ => SaveValue::Float(n.to_string()),
        },
        serde_json::Value::String(s) => SaveValue::String(s),
        serde_json::Value::Array(a) => SaveValue::Array(a.into_iter().map(tree_from).collect()),
        serde_json::Value::Object(m) => SaveValue::Object(
            m.into_iter().map(|(k, v)| (k, tree_from(v))).collect(),
        ),
    }
}

/// Carries a `SaveValue` over into a `serde_json::Value`, variant by variant. The text
/// of a `Float` is read by `serde_json::from_str` as a number, and stands for `null`
/// where it is none. Of two fields of one name the map keeps the later.
#[verifier::external_body]
fn tree_into(value: &SaveValue) -> serde_json::Value {
    match value {
        SaveValue::Null => serde_json::Value::Null,
        SaveValue::Bool(b) => serde_json::Value::Bool(*b),
        SaveValue::PosInt(n) => serde_json::Value::from(*n),
        SaveValue::NegInt(n) => serde_json::Value::from(*n),
        SaveValue::Float(text) => serde_json::from_str::<serde_json::Number>(text).map_or(
            serde_json::Value::Null,
            serde_json::Value::Number,
        ),
        SaveValue::String(s) => serde_json::Value::String(s.clone()),
        SaveValue::Array(a) => serde_json::Value::Array(a.iter().map(tree_into).collect()),
        SaveValue::Object(m) => serde_json::Value::Object(
            m.iter().map(|(k, v)| (k.clone(), tree_into(v))).collect(),
        ),
    }
}

/// Calls `serde_json::from_str` for a `serde_json::Value` and carries the value over
/// with `tree_from`, or gives the message of the parser's error. The outcome is a
/// function of the text alone, and is named `json_parsed`.
#[verifier::external_body]
fn parse_json(text: &str) -> (r: Result<SaveValue, String>)
    ensures
        match json_parsed(text@) {
            Ok(tree) => r matches Ok(value) && value@ == tree,
            Err(message) => r matches Err(m) && m@ == message,
        },
{
    match serde_json::from_str::<serde_json::Value>(text) {
        Ok(value) => Ok(tree_from(value)),
        Err(e) => Err(e.to_string()),
    }
}

/// Calls `serde_json::to_string` on the value that `tree_into` makes, or gives the
/// message of the printer's error. The outcome is a function of what the value holds,
/// and is named `json_printed`. Both descend once for each level of nesting, so the
/// value must be within `MAX_NESTING`.
#[verifier::external_body]
fn print_json(value: &SaveValue) -> (r: Result<String, String>)
    requires
        is_nested_within(value@, MAX_NESTING as nat),
    ensures
        match json_printed(value@) {
            Ok(text) => r matches Ok(s) && s@ == text,
            Err(message) => r matches Err(m) && m@ == message,
        },
{
    serde_json::to_string(&tree_into(value)).map_err(|e| e.to_string())
}

/// Calls `serde_json::to_string_pretty` on the value that `tree_into` makes, or gives
/// the message of the printer's error. The outcome is a function of what the value
/// holds, and is named `json_printed_pretty`. Both descend once for each level of
/// nesting, so the value must be within `MAX_NESTING`.
#[verifier::external_body]
fn print_json_pretty(value: &SaveValue) -> (r: Result<String, String>)
    requires
        is_nested_within(value@, MAX_NESTING as nat),
    ensures
        match json_printed_pretty(value@) {
            Ok(text) => r matches Ok(s) && s@ == text,
            Err(message) => r matches Err(m) && m@ == message,
        },
{
    serde_json::to_string_pretty(&tree_into(value)).map_err(|e| e.to_string())
}

/// What reading a JSON text gives: the value that the parser reads, or the parser's
/// message as a `Json` error.
pub open spec fn is_parse_of(r: Result<Json, Error>, text: Seq<char>) -> bool {
    match json_parsed(text) {
        Ok(tree) => r matches Ok(json) && json@ == tree,
        Err(message) => r matches Err(Error::Json(m)) && m@ == message,
    }
}

/// What printing gives: the printer's text, or the printer's message as a `Json` error.
pub open spec fn is_print_of(r: Result<String, Error>, printed: Result<Seq<char>, Seq<char>>) -> bool {
    match printed {
        Ok(text) => r matches Ok(s) && s@ == text,
        Err(message) => r matches Err(Error::Json(m)) && m@ == message,
    }
}

/// A parsed JSON document.
#[derive(Debug)]
pub struct Json(SaveValue);

impl View for Json {
    type V = JsonTree;

    closed spec fn view(&self) -> JsonTree {
        self.0@
    }
}

impl Json {
    /// The document that holds `value`.
    pub fn new(value: SaveValue) -> (json: Self)
        ensures
            json@ == value@,
    {
        Json(value)
    }

    /// Decompresses a save text and reads it as JSON.
    pub fn decompress(data: &str) -> (r: Result<Self, Error>)
        ensures
            match decompressed(data@) {
                Ok(text) => is_parse_of(r, text),
                Err(kind) => r matches Err(Error::Lz(k)) && k == kind,
            },
    {
        match decompress(data) {
            Ok(text) => Self::from_string(text.as_str()),
            Err(e) => Err(e),
        }
    }

    /// Reads a JSON text.
    pub fn from_string(s: &str) -> (r: Result<Self, Error>)
        ensures
            is_parse_of(r, s@),
    {
        match parse_json(s) {
            Ok(value) => Ok(Json(value)),
            Err(message) => Err(Error::Json(message)),
        }
    }

    /// Prints the document on one line and compresses that text. A text longer than
    /// `MAX_TEXT_LEN` is not compressed.
    pub fn compress(&self) -> (r: Result<String, Error>)
        ensures
            match printed(self@, json_printed(self@)) {
                Ok(text) => if vstd::utf8::encode_utf8(text).len() <= MAX_TEXT_LEN {
                    r matches Ok(s) && s@ == lz_compressed(text)
                } else {
                    r matches Err(Error::Lz(k)) && k == LzErrorKind::Compression
                },
                Err(message) => r matches Err(Error::Json(m)) && m@ == message,
            },
    {
        match self.to_string() {
            Ok(text) => {
                if text.as_str().as_bytes().len() > MAX_TEXT_LEN {
                    Err(Error::Lz(LzErrorKind::Compression))
                } else {
                    Ok(compress(text.as_str()))
                }
            },
            Err(e) => Err(e),
        }
    }

    /// Gives the value up.
    pub fn inner(self) -> (value: SaveValue)
        ensures
            value@ == self@,
    {
        self.0
    }

    /// The document as JSON text on one line, the form that is compressed. A document
    /// that is nested deeper than `MAX_NESTING` is refused.
    pub fn to_string(&self) -> (r: Result<String, Error>)
        ensures
            is_print_of(r, printed(self@, json_printed(self@))),
    {
        if !nests_within(&self.0, MAX_NESTING) {
            return Err(Error::Json(String::from_str("recursion limit exceeded")));
        }
        match print_json(&self.0) {
            Ok(text) => Ok(text),
            Err(message) => Err(Error::Json(message)),
        }
    }

    /// The document as indented JSON text, for a reader. A document that is nested
    /// deeper than `MAX_NESTING` is refused.
    pub fn to_string_pretty(&self) -> (r: Result<String, Error>)
        ensures
            is_print_of(r, printed(self@, json_printed_pretty(self@))),
    {
        if !nests_within(&self.0, MAX_NESTING) {
            return Err(Error::Json(String::from_str("recursion limit exceeded")));
        }
        match print_json_pretty(&self.0) {
            Ok(text) => Ok(text),
            Err(message) => Err(Error::Json(message)),
        }
    }
}

} // verus!
