//! The JSON header parser.

use vstd::prelude::*;

use serde_json::{Number, Value};

use crate::header::{FileHeaderData, FileHeaderSpec, ParserError};
use crate::json::{header_of, header_sorted, json_sorted, json_wf, lemma_sorted_is_wf, visit_json, JsonMember, JsonTree, JsonValue};
use crate::laws::{lemma_read_is_canonical, lemma_read_is_sorted, lemma_read_then_write};
use crate::writer::{canonical, json_of, lemma_json_of_wf, serializable, to_json};
use vstd::utf8::{decode_utf8, valid_utf8};

verus! {

/// Reads and writes file headers as JSON.
#[derive(Debug)]
pub struct JsonHeaderParser {
    spec: Option<FileHeaderSpec>,
}

/// The bytes decoded as UTF-8 text, if they are valid UTF-8.
///
/// Trusted: `String::from_utf8` returns `Ok` exactly on valid UTF-8, with
/// the text that the bytes encode.
#[verifier::external_body]
fn utf8_text(bytes: Vec<u8>) -> (r: Option<String>)
    ensures
        r is Some <==> valid_utf8(bytes@),
        r matches Some(s) ==> s@ == decode_utf8(bytes@),
{
    String::from_utf8(bytes).ok()
}

#[verifier::external_type_specification]
#[verifier::external_body]
pub struct ExSerdeJsonValue(Value);

/// The document that serde_json reads from `text`, or the error it reports:
/// the error's text, and the " at line L column C" position that its text
/// ends with when it has a position.
pub uninterp spec fn parsed_json(text: Seq<char>) -> Result<JsonTree, (Seq<char>, Seq<char>)>;

/// The pretty-printed JSON text, as bytes, that serde_json writes for a
/// document.
pub uninterp spec fn pretty_json(doc: JsonTree) -> Seq<u8>;

/// Trusted: a serde_json value as the library's document, variant by
/// variant; a number is a non-negative integer when serde_json reads it as a
/// `u64`, else a (negative) integer when it reads it as an `i64`, else a
/// float, held as serde_json's decimal text of it. serde_json's map (a
/// `BTreeMap` without its `preserve_order` feature, which this build does not
/// enable) yields its entries once each, in ascending order of the keys.
#[verifier::external_body]
fn document_of(v: &Value) -> (d: JsonValue)
    ensures
        json_sorted(d.tree()),
{
    match v {
        Value::Null => JsonValue::Null,
        Value::Bool(b) => JsonValue::Bool(*b),
        Value::Number(n) => match (n.as_u64(), n.as_i64()) {
            (Some(u), _) => JsonValue::UInt(u),
            (None, Some(i)) => JsonValue::NegInt(i),
            (None, None) => JsonValue::Float(n.to_string()),
        },
        Value::String(t) => JsonValue::Text(t.clone()),
        Value::Array(vs) => JsonValue::Array(vs.iter().map(document_of).collect()),
        Value::Object(m) => JsonValue::Object(
            m.iter().map(|(k, x)| JsonMember { name: k.clone(), value: document_of(x) }).collect(),
        ),
    }
}

/// Trusted: serde_json's `from_str` parses the text into a value (its
/// result depends on the text alone), handed back as the library's
/// document; or its error, as the error's `Display` text together with the
/// position part of that text, which serde_json writes as
/// " at line {line} column {column}" after the error's message.
#[verifier::external_body]
fn parse_json(text: &str) -> (r: Result<JsonValue, (String, String)>)
    ensures
        r matches Ok(v) ==> json_sorted(v.tree()),
        r matches Ok(v) ==> (parsed_json(text@) matches Ok(t) && t == v.tree()),
        r matches Err(m) ==> (parsed_json(text@) matches Err(e) && e.0 == m.0@ && e.1 == m.1@),
{
    match serde_json::from_str::<Value>(text) {
        Ok(v) => Ok(document_of(&v)),
        Err(e) => Err((e.to_string(), format!(" at line {} column {}", e.line(), e.column()))),
    }
}

/// `m` without `suffix` at its end, when it ends with it.
pub open spec fn without_suffix(m: Seq<char>, suffix: Seq<char>) -> Seq<char> {
    if suffix.len() <= m.len() && m.subrange(m.len() - suffix.len(), m.len() as int) == suffix {
        m.subrange(0, m.len() - suffix.len())
    } else {
        m
    }
}

/// The message of a parse error: its text without the position at its end.
pub open spec fn error_message(e: (Seq<char>, Seq<char>)) -> Seq<char> {
    without_suffix(e.0, e.1)
}

fn strip_suffix(m: &str, suffix: &str) -> (r: String)
    ensures
        r@ == without_suffix(m@, suffix@),
{
    let n = m.unicode_len();
    let k = suffix.unicode_len();
    if k > n {
        return String::from_str(m);
    }
    let mut i: usize = 0;
    while i < k
        invariant
            n == m@.len(),
            k == suffix@.len(),
            k <= n,
            i <= k,
            forall|j: int| 0 <= j < i ==> m@[n - k + j] == suffix@[j],
        decreases k - i,
    {
        if m.get_char(n - k + i) != suffix.get_char(i) {
            proof {
                assert(m@.subrange(n - k, n as int)[i as int] != suffix@[i as int]);
            }
            return String::from_str(m);
        }
        i += 1;
    }
    assert(m@.subrange(n - k, n as int) =~= suffix@);
    String::from_str(m.substring_char(0, n - k))
}

/// Trusted: the library's document as a serde_json value, variant by
/// variant; a float is read back from its decimal text by serde_json's
/// `Number::from_str` (text that is no JSON number becomes `null`).
#[verifier::external_body]
fn serde_value_of(d: &JsonValue) -> Value {
    match d {
        JsonValue::Null => Value::Null,
        JsonValue::Bool(b) => Value::Bool(*b),
        JsonValue::UInt(u) => Value::from(*u),
        JsonValue::NegInt(i) => Value::from(*i),
        JsonValue::Float(t) => t.parse::<Number>()
            .map_or(Value::Null, Value::Number),
        JsonValue::Text(t) => Value::String(t.clone()),
        JsonValue::Array(vs) => Value::Array(vs.iter().map(serde_value_of).collect()),
        JsonValue::Object(ms) => Value::Object(
            ms.iter().map(|m| (m.name.clone(), serde_value_of(&m.value))).collect(),
        ),
    }
}

/// Trusted: serde_json's `to_vec_pretty` of the document; what it writes
/// depends on the document alone, and serde_json emits only valid UTF-8.
/// Writing a value into a vector cannot fail.
#[verifier::external_body]
fn pretty_bytes(doc: &JsonValue) -> (b: Vec<u8>)
    ensures
        b@ == pretty_json(doc.tree()),
        valid_utf8(b@),
{
    serde_json::to_vec_pretty(&serde_value_of(doc)).unwrap_or_default()
}

impl JsonHeaderParser {
    pub closed spec fn header_spec(&self) -> Option<FileHeaderSpec> {
        self.spec
    }

    pub fn new(spec: Option<FileHeaderSpec>) -> (p: JsonHeaderParser)
        ensures
            p.header_spec() == spec,
    {
        JsonHeaderParser { spec: spec }
    }

    /// Reads a header from the outcome of parsing its JSON text: no text
    /// reads as `Null`, a parsed document is converted with [`visit_json`],
    /// and a parse failure with message `msg` becomes an error whose summary
    /// and text are both "JSON parser error: " followed by `msg`.
    pub fn read_parsed(&self, parsed: Option<Result<JsonValue, String>>) -> (r: Result<
        FileHeaderData,
        ParserError,
    >)
        ensures
            parsed is None ==> (r matches Ok(d) && d is Null),
            parsed matches Some(Ok(v)) ==> (r matches Ok(d) && d.tree() == header_of(v.tree())),
            parsed matches Some(Err(msg)) ==> (r matches Err(e) && e.summary@ == "JSON parser error: "@
                + msg@ && e.parsertext@ == e.summary@ && e.index == 0 && e.explanation is None),
    {
        match parsed {
            None => Ok(FileHeaderData::Null),
            Some(Ok(v)) => Ok(visit_json(&v)),
            Some(Err(msg)) => {
                let mut s = String::from_str("JSON parser error: ");
                s.append(msg.as_str());
                let text = s.clone();
                Err(ParserError::short(s.as_str(), text, 0))
            },
        }
    }

    /// Reads a header from its JSON text: no text reads as `Null`; text that
    /// parses reads as the header of its document, which is canonical, has
    /// its mapping keys in ascending order, and is written back as the same
    /// document; text that does not parse gives an error whose summary and
    /// text are both "JSON parser error: " followed by the parser's message
    /// (without the position in the text).
    pub fn read(&self, string: Option<String>) -> (r: Result<FileHeaderData, ParserError>)
        ensures
            string is None ==> (r matches Ok(d) && d is Null),
            string matches Some(s) ==> (parsed_json(s@) matches Ok(t) ==> (r matches Ok(d)
                && d.tree() == header_of(t) && canonical(d.tree()) && header_sorted(d.tree())
                && json_of(d.tree()) == t)),
            string matches Some(s) ==> (parsed_json(s@) matches Err(m) ==> (r matches Err(e)
                && e.summary@ == "JSON parser error: "@ + error_message(m) && e.parsertext@ == e.summary@ && e.index
                == 0 && e.explanation is None)),
    {
        match string {
            None => Ok(FileHeaderData::Null),
            Some(s) => {
                match parse_json(s.as_str()) {
                    Ok(v) => {
                        proof {
                            let t = v.tree();
                            lemma_sorted_is_wf(t);
                            lemma_read_then_write(t);
                            lemma_read_is_canonical(t);
                            lemma_read_is_sorted(t);
                        }
                        self.read_parsed(Some(Ok(v)))
                    },
                    Err((text, position)) => {
                        let msg = strip_suffix(text.as_str(), position.as_str());
                        self.read_parsed(Some(Err(msg)))
                    },
                }
            },
        }
    }

    /// Writes header data as pretty-printed JSON text: the text of the
    /// document that the data is written as.
    pub fn write(&self, data: &FileHeaderData) -> (r: Result<String, ParserError>)
        requires
            serializable(data.tree()),
        ensures
            r matches Ok(t) && t@ == decode_utf8(pretty_json(json_of(data.tree()))),
    {
        let doc = self.write_json(data);
        let bytes = pretty_bytes(&doc);
        self.write_bytes(bytes)
    }

    /// The JSON document that header data is written as.
    pub fn write_json(&self, data: &FileHeaderData) -> (j: JsonValue)
        requires
            serializable(data.tree()),
        ensures
            j.tree() == json_of(data.tree()),
            json_wf(j.tree()),
    {
        proof {
            lemma_json_of_wf(data.tree());
        }
        to_json(data)
    }

    /// Turns the bytes that a header was serialized to into its text; bytes
    /// that are not UTF-8 give the error "Cannot parse utf8 bytes".
    pub fn write_bytes(&self, bytes: Vec<u8>) -> (r: Result<String, ParserError>)
        ensures
            r is Ok <==> valid_utf8(bytes@),
            r matches Ok(s) ==> s@ == decode_utf8(bytes@),
            r matches Err(e) ==> e.summary@ == "Cannot parse utf8 bytes"@ && e.parsertext@
                == "<not printable>"@ && e.index == 0 && e.explanation is None,
    {
        match utf8_text(bytes) {
            Some(s) => Ok(s),
            None => Err(ParserError::short("Cannot parse utf8 bytes", String::from_str("<not printable>"), 0)),
        }
    }
}

} // verus!
