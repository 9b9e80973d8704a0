//! File headers: their expected shape, their data and their errors.

use vstd::prelude::*;

verus! {

/// The shape that a file header is expected to have.
#[derive(Debug)]
pub enum FileHeaderSpec {
    Null,
    Bool,
    Integer,
    UInteger,
    Float,
    Text,
    Key { name: String, value_type: Box<FileHeaderSpec> },
    Mapping { keys: Vec<FileHeaderSpec> },
    Array { allowed_types: Vec<FileHeaderSpec> },
}

/// The data of a file header.
///
/// A floating-point number is held as the decimal text that the JSON
/// reader gives it (the shortest text that reads back as the same number).
#[derive(Debug)]
pub enum FileHeaderData {
    Null,
    Bool(bool),
    Integer(i64),
    UInteger(u64),
    Float(String),
    Text(String),
    Key { name: String, value: Box<FileHeaderData> },
    Mapping { keys: Vec<FileHeaderData> },
    Array { values: Box<Vec<FileHeaderData>> },
}

/// Why a header could not be read or written.
#[derive(Debug)]
pub struct ParserError {
    pub summary: String,
    pub parsertext: String,
    pub index: i32,
    pub explanation: Option<String>,
}

impl ParserError {
    /// An error with a summary, the text it is about and a position in that
    /// text, and no further explanation.
    pub fn short(sum: &str, text: String, idx: i32) -> (e: ParserError)
        ensures
            e.summary@ == sum@,
            e.parsertext@ == text@,
            e.index == idx,
            e.explanation is None,
    {
        ParserError { summary: sum.to_owned(), parsertext: text, index: idx, explanation: None }
    }
}

/// The mathematical value of a [`FileHeaderData`].
pub enum HeaderTree {
    Null,
    Bool(bool),
    Integer(i64),
    UInteger(u64),
    Float(Seq<char>),
    Text(Seq<char>),
    Key { name: Seq<char>, value: Box<HeaderTree> },
    Mapping { keys: Seq<HeaderTree> },
    Array { values: Seq<HeaderTree> },
}

impl FileHeaderData {
    pub open spec fn tree(self) -> HeaderTree
        decreases self,
    {
        match self {
            FileHeaderData::Null => HeaderTree::Null,
            FileHeaderData::Bool(b) => HeaderTree::Bool(b),
            FileHeaderData::Integer(i) => HeaderTree::Integer(i),
            FileHeaderData::UInteger(u) => HeaderTree::UInteger(u),
            FileHeaderData::Float(f) => HeaderTree::Float(f@),
            FileHeaderData::Text(s) => HeaderTree::Text(s@),
            FileHeaderData::Key { name, value } => HeaderTree::Key {
                name: name@,
                value: Box::new((*value).tree()),
            },
            FileHeaderData::Mapping { keys } => HeaderTree::Mapping { keys: trees(keys@) },
            FileHeaderData::Array { values } => HeaderTree::Array { values: trees((*values)@) },
        }
    }
}

/// The tree of a `name: value` key.
pub open spec fn key_tree(name: Seq<char>, value: HeaderTree) -> HeaderTree {
    HeaderTree::Key { name, value: Box::new(value) }
}

/// The trees of a sequence of header values, element by element.
pub open spec fn trees(s: Seq<FileHeaderData>) -> Seq<HeaderTree>
    decreases s,
{
    if s.len() == 0 {
        Seq::empty()
    } else {
        trees(s.drop_last()).push(s.last().tree())
    }
}

/// `trees` maps each element to its tree.
pub proof fn lemma_trees_pointwise(s: Seq<FileHeaderData>)
    ensures
        trees(s).len() == s.len(),
        forall|i: int| 0 <= i < s.len() ==> #[trigger] trees(s)[i] == s[i].tree(),
    decreases s.len(),
{
    if s.len() > 0 {
        lemma_trees_pointwise(s.drop_last());
    }
}

} // verus!
