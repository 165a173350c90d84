//! From a configuration document to a dynamic value.
use crate::document::{table_keys, ConfigDocument, DocumentModel};
use crate::single::{narrow_double, narrow_integer, single_of_double, single_of_integer};
use crate::value::{object_keys, DynamicValue, ValueModel};
use vstd::prelude::*;

verus! {

/// The dynamic value that stands for a document.
///
/// An integer and a float become the nearest single-precision number, a
/// boolean and a string stay what they are, and a timestamp becomes the
/// string of its text.  A sequence becomes the array of its converted items
/// in their order; a table becomes the object of its keys, each with its
/// converted document.
pub open spec fn converted(doc: DocumentModel) -> ValueModel
    decreases doc,
{
    match doc {
        DocumentModel::Integer(i) => ValueModel::Number(single_of_integer(i as int)),
        DocumentModel::Float(bits) => ValueModel::Number(single_of_double(bits)),
        DocumentModel::Boolean(b) => ValueModel::Boolean(b),
        DocumentModel::String(text) => ValueModel::String(text),
        DocumentModel::Timestamp(text) => ValueModel::String(text),
        DocumentModel::Sequence(items) => ValueModel::Array(
            Seq::new(
                items.len(),
                |i: int|
                    if 0 <= i < items.len() {
                        converted(items[i])
                    } else {
                        ValueModel::Boolean(false)
                    },
            ),
        ),
        DocumentModel::Table(entries) => ValueModel::Object(
            Seq::new(
                entries.len(),
                |i: int|
                    if 0 <= i < entries.len() {
                        (entries[i].0, converted(entries[i].1))
                    } else {
                        (Seq::empty(), ValueModel::Boolean(false))
                    },
            ),
        ),
    }
}

/// Converts a document into the dynamic value that stands for it.
///
/// Every document has a value: there is no input on which this fails.  The
/// value of a well-formed document is well formed.
pub fn convert(doc: &ConfigDocument) -> (value: DynamicValue)
    ensures
        value@ == converted(doc@),
        doc.well_formed() ==> value.well_formed(),
    decreases doc,
{
    proof {
        if doc.well_formed() {
            lemma_converted_well_formed(doc@);
        }
    }
    match doc {
        ConfigDocument::Integer(i) => DynamicValue::Number(narrow_integer(*i)),
        ConfigDocument::Float(bits) => DynamicValue::Number(narrow_double(*bits)),
        ConfigDocument::Boolean(b) => DynamicValue::Boolean(*b),
        ConfigDocument::String(text) => DynamicValue::String(text.clone()),
        ConfigDocument::Timestamp(text) => DynamicValue::String(text.clone()),
        ConfigDocument::Sequence(items) => {
            let mut array: Vec<DynamicValue> = Vec::new();
            let mut k: usize = 0;
            while k < items.len()
                invariant
                    k <= items.len(),
                    array.len() == k,
                    doc matches ConfigDocument::Sequence(v) && v == items,
                    forall|j: int| 0 <= j < k ==> (#[trigger] array[j])@ == converted(items[j]@),
                decreases items.len() - k,
            {
                array.push(convert(&items[k]));
                k = k + 1;
            }
            let value = DynamicValue::Array(array);
            assert(value@->Array_0 =~= converted(doc@)->Array_0);
            value
        },
        ConfigDocument::Table(entries) => {
            let mut members: Vec<(String, DynamicValue)> = Vec::new();
            let mut k: usize = 0;
            while k < entries.len()
                invariant
                    k <= entries.len(),
                    members.len() == k,
                    doc matches ConfigDocument::Table(v) && v == entries,
                    forall|j: int|
                        0 <= j < k ==> (#[trigger] members[j]).0@ == entries[j].0@
                            && members[j].1@ == converted(entries[j].1@),
                decreases entries.len() - k,
            {
                let entry = &entries[k];
                members.push((entry.0.clone(), convert(&entry.1)));
                k = k + 1;
            }
            let value = DynamicValue::Object(members);
            assert(value@->Object_0 =~= converted(doc@)->Object_0);
            value
        },
    }
}

/// What each kind of document becomes.
///
/// An integer and a float become a number; a boolean and a string stay what
/// they are; a timestamp becomes the string of its text.  A sequence becomes
/// an array of the same length, item for item.  A table becomes an object
/// with the same keys in the same places, each with its converted document.
pub proof fn lemma_converted_kinds(doc: DocumentModel)
    ensures
        doc matches DocumentModel::Integer(i) ==> converted(doc) == ValueModel::Number(
            single_of_integer(i as int),
        ),
        doc matches DocumentModel::Float(bits) ==> converted(doc) == ValueModel::Number(
            single_of_double(bits),
        ),
        doc matches DocumentModel::Boolean(b) ==> converted(doc) == ValueModel::Boolean(b),
        doc matches DocumentModel::String(text) ==> converted(doc) == ValueModel::String(text),
        doc matches DocumentModel::Timestamp(text) ==> converted(doc) == ValueModel::String(text),
        doc matches DocumentModel::Sequence(items) ==> {
            &&& converted(doc) matches ValueModel::Array(array)
            &&& array.len() == items.len()
            &&& forall|i: int| 0 <= i < items.len() ==> #[trigger] array[i] == converted(items[i])
        },
        doc matches DocumentModel::Table(entries) ==> {
            &&& converted(doc) matches ValueModel::Object(members)
            &&& members.len() == entries.len()
            &&& object_keys(members) == table_keys(entries)
            &&& forall|i: int|
                0 <= i < entries.len() ==> (#[trigger] members[i]).1 == converted(entries[i].1)
        },
{
    if let DocumentModel::Table(entries) = doc {
        let members = converted(doc)->Object_0;
        assert(object_keys(members) =~= table_keys(entries));
    }
}

/// A well-formed document becomes a well-formed value: where no table holds
/// a key twice, no object does.
pub proof fn lemma_converted_well_formed(doc: DocumentModel)
    requires
        doc.well_formed(),
    ensures
        converted(doc).well_formed(),
    decreases doc,
{
    match doc {
        DocumentModel::Sequence(items) => {
            let array = converted(doc)->Array_0;
            assert forall|i: int| 0 <= i < array.len() implies (#[trigger] array[i]).well_formed() by {
                assert(items[i].well_formed());
                lemma_converted_well_formed(items[i]);
            }
        },
        DocumentModel::Table(entries) => {
            let members = converted(doc)->Object_0;
            assert(object_keys(members) =~= table_keys(entries));
            assert forall|i: int| 0 <= i < members.len() implies (
            #[trigger] members[i]).1.well_formed() by {
                assert(entries[i].1.well_formed());
                lemma_converted_well_formed(entries[i].1);
            }
        },
        _ => {},
    }
}

} // verus!
