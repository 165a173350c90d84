//! The configuration document: the typed tree that the values source holds.
use vstd::prelude::*;

verus! {

/// The mathematical value of a [`ConfigDocument`].
///
/// Text is a sequence of characters; a sequence and a table are sequences of
/// their items, a table's items being pairs of a key and a document.
pub enum DocumentModel {
    Integer(i64),
    Float(u64),
    Boolean(bool),
    String(Seq<char>),
    Timestamp(Seq<char>),
    Sequence(Seq<DocumentModel>),
    Table(Seq<(Seq<char>, DocumentModel)>),
}

/// The keys of a table's entries, in the order of the entries.
pub open spec fn table_keys(entries: Seq<(Seq<char>, DocumentModel)>) -> Seq<Seq<char>> {
    Seq::new(entries.len(), |i: int| entries[i].0)
}

impl DocumentModel {
    /// No table of the document, at any depth, holds a key twice.
    pub open spec fn well_formed(self) -> bool
        decreases self,
    {
        match self {
            DocumentModel::Sequence(items) => forall|i: int|
                0 <= i < items.len() ==> (#[trigger] items[i]).well_formed(),
            DocumentModel::Table(entries) => {
                &&& table_keys(entries).no_duplicates()
                &&& forall|i: int|
                    0 <= i < entries.len() ==> (#[trigger] entries[i]).1.well_formed()
            },
            _ => true,
        }
    }
}

/// A configuration document.
///
/// A float is held as the bit pattern of a double-precision number, a
/// timestamp as its canonical text.  A table holds its entries in order, each
/// a key with its document.
#[derive(Debug, PartialEq, Eq)]
pub enum ConfigDocument {
    Integer(i64),
    Float(u64),
    Boolean(bool),
    String(String),
    Timestamp(String),
    Sequence(Vec<ConfigDocument>),
    Table(Vec<(String, ConfigDocument)>),
}

impl ConfigDocument {
    /// The document as a mathematical value.
    pub open spec fn model(&self) -> DocumentModel
        decreases self,
    {
        match self {
            ConfigDocument::Integer(i) => DocumentModel::Integer(*i),
            ConfigDocument::Float(bits) => DocumentModel::Float(*bits),
            ConfigDocument::Boolean(b) => DocumentModel::Boolean(*b),
            ConfigDocument::String(text) => DocumentModel::String(text@),
            ConfigDocument::Timestamp(text) => DocumentModel::Timestamp(text@),
            ConfigDocument::Sequence(items) => DocumentModel::Sequence(
                Seq::new(
                    items@.len(),
                    |i: int|
                        if 0 <= i < items@.len() {
                            items@[i].model()
                        } else {
                            DocumentModel::Boolean(false)
                        },
                ),
            ),
            ConfigDocument::Table(entries) => DocumentModel::Table(
                Seq::new(
                    entries@.len(),
                    |i: int|
                        if 0 <= i < entries@.len() {
                            (entries@[i].0@, entries@[i].1.model())
                        } else {
                            (Seq::empty(), DocumentModel::Boolean(false))
                        },
                ),
            ),
        }
    }

    /// No table of the document, at any depth, holds a key twice.
    pub open spec fn well_formed(&self) -> bool {
        self.model().well_formed()
    }
}

impl View for ConfigDocument {
    type V = DocumentModel;

    open spec fn view(&self) -> DocumentModel {
        self.model()
    }
}

} // verus!
