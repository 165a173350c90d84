//! The rendering context: the names that a template can see, each with its value.
use crate::convert::{convert, converted};
use crate::document::{ConfigDocument, DocumentModel};
use crate::value::{
    lemma_members_map_keys, lemma_members_map_size, lemma_members_map_update,
    lemma_members_map_value, members_map, members_model, object_keys, DynamicValue, ValueModel,
};
use vstd::prelude::*;

verus! {

/// Why a document cannot become a rendering context.
#[derive(Debug, Clone, Copy, PartialEq, Eq)]
pub enum ConversionError {
    /// The document is not a table at its top level.
    NotATable,
}

/// A mapping from names to dynamic values, for one rendering.
///
/// Its view is the mapping itself.  Inside, the bindings stand in a list in
/// which no name occurs twice.
#[derive(Debug)]
pub struct RenderContext {
    bindings: Vec<(String, DynamicValue)>,
}

impl View for RenderContext {
    type V = Map<Seq<char>, ValueModel>;

    closed spec fn view(&self) -> Map<Seq<char>, ValueModel> {
        members_map(members_model(self.bindings@))
    }
}

impl RenderContext {
    #[verifier::type_invariant]
    spec fn names_differ(&self) -> bool {
        object_keys(members_model(self.bindings@)).no_duplicates()
    }

    /// A context that binds no name.
    pub fn new() -> (context: RenderContext)
        ensures
            context@ == Map::<Seq<char>, ValueModel>::empty(),
    {
        RenderContext { bindings: Vec::new() }
    }

    /// Where in the list `name` is bound, if it is.
    fn position(&self, name: &String) -> (place: Option<usize>)
        ensures
            match place {
                Some(i) => i < self.bindings@.len() && self.bindings@[i as int].0@ == name@,
                None => forall|j: int|
                    0 <= j < self.bindings@.len() ==> (#[trigger] self.bindings@[j]).0@ != name@,
            },
    {
        let mut i: usize = 0;
        while i < self.bindings.len()
            invariant
                i <= self.bindings@.len(),
                forall|j: int| 0 <= j < i ==> (#[trigger] self.bindings@[j]).0@ != name@,
            decreases self.bindings@.len() - i,
        {
            if self.bindings[i].0 == *name {
                return Some(i);
            }
            i = i + 1;
        }
        None
    }

    /// The number of names bound.
    pub fn len(&self) -> (count: usize)
        ensures
            self@.dom().finite(),
            count == self@.dom().len(),
    {
        proof {
            use_type_invariant(self);
            lemma_members_map_size(members_model(self.bindings@));
        }
        self.bindings.len()
    }

    /// Whether no name is bound.
    pub fn is_empty(&self) -> (answer: bool)
        ensures
            answer == (self@ == Map::<Seq<char>, ValueModel>::empty()),
    {
        proof {
            use_type_invariant(self);
            lemma_members_map_size(members_model(self.bindings@));
            if self.bindings@.len() == 0 {
                assert(self@ =~= Map::<Seq<char>, ValueModel>::empty());
            }
        }
        self.bindings.len() == 0
    }

    /// The value bound to `name`, if there is one.
    pub fn get_val(&self, name: &str) -> (found: Option<&DynamicValue>)
        ensures
            match found {
                Some(value) => self@.contains_key(name@) && value@ == self@[name@],
                None => !self@.contains_key(name@),
            },
    {
        let key = name.to_owned();
        proof {
            use_type_invariant(self);
            lemma_members_map_keys(members_model(self.bindings@), name@);
        }
        match self.position(&key) {
            Some(i) => {
                proof {
                    lemma_members_map_value(members_model(self.bindings@), i as int);
                }
                Some(&self.bindings[i].1)
            },
            None => {
                assert forall|j: int| 0 <= j < self.bindings@.len() implies (
                #[trigger] members_model(self.bindings@)[j]).0 != name@ by {
                    assert(self.bindings@[j].0@ != name@);
                }
                None
            },
        }
    }

    /// Binds `name` to `value`, in place of what it was bound to before, and
    /// returns what that was.
    pub fn set_val(&mut self, name: &str, value: DynamicValue) -> (previous: Option<DynamicValue>)
        ensures
            final(self)@ == old(self)@.insert(name@, value@),
            match previous {
                Some(before) => old(self)@.contains_key(name@) && before@ == old(self)@[name@],
                None => !old(self)@.contains_key(name@),
            },
    {
        let key = name.to_owned();
        let ghost before = members_model(self.bindings@);
        proof {
            use_type_invariant(&*self);
            lemma_members_map_keys(before, name@);
        }
        let place = self.position(&key);
        let mut list: Vec<(String, DynamicValue)> = Vec::new();
        core::mem::swap(&mut self.bindings, &mut list);
        let previous = match place {
            Some(i) => {
                proof {
                    lemma_members_map_value(before, i as int);
                    lemma_members_map_update(before, i as int, value@);
                }
                let replaced = list.remove(i);
                list.insert(i, (key, value));
                proof {
                    let after = members_model(list@);
                    assert(after =~= before.update(i as int, (name@, value@)));
                    assert(object_keys(after) =~= object_keys(before));
                }
                Some(replaced.1)
            },
            None => {
                assert forall|j: int| 0 <= j < before.len() implies (#[trigger] before[j]).0
                    != name@ by {
                    assert(list@[j].0@ != name@);
                }
                list.push((key, value));
                proof {
                    let after = members_model(list@);
                    assert(after.drop_last() =~= before);
                    assert(object_keys(after) =~= object_keys(before).push(name@));
                }
                None
            },
        };
        self.bindings = list;
        previous
    }

    /// The bindings as a list, each name once.
    pub fn bindings(&self) -> (list: &Vec<(String, DynamicValue)>)
        ensures
            members_map(members_model(list@)) == self@,
            object_keys(members_model(list@)).no_duplicates(),
    {
        proof {
            use_type_invariant(self);
        }
        &self.bindings
    }
}

/// The bindings that a table makes: each of its keys with the converted
/// document of the last entry that has it.
pub open spec fn bound(entries: Seq<(Seq<char>, DocumentModel)>) -> Map<Seq<char>, ValueModel> {
    members_map(converted(DocumentModel::Table(entries))->Object_0)
}

/// Builds the rendering context of a document.
///
/// The document must be a table at its top level: then each key of the table
/// is bound to the converted document of its entry, and no other name is
/// bound.  Any other document is refused as not a table.
pub fn build(doc: &ConfigDocument) -> (result: Result<RenderContext, ConversionError>)
    ensures
        match doc@ {
            DocumentModel::Table(entries) => result matches Ok(context) && context@ == bound(
                entries,
            ),
            _ => result matches Err(e) && e == ConversionError::NotATable,
        },
{
    match doc {
        ConfigDocument::Table(entries) => {
            let ghost members = converted(doc@)->Object_0;
            let mut context = RenderContext::new();
            let mut k: usize = 0;
            assert(members.take(0) =~= Seq::empty());
            while k < entries.len()
                invariant
                    k <= entries.len(),
                    doc matches ConfigDocument::Table(v) && v == entries,
                    members == converted(doc@)->Object_0,
                    context@ == members_map(members.take(k as int)),
                decreases entries.len() - k,
            {
                let entry = &entries[k];
                proof {
                    assert(members.take(k + 1).drop_last() =~= members.take(k as int));
                }
                context.set_val(entry.0.as_str(), convert(&entry.1));
                k = k + 1;
            }
            assert(members.take(k as int) =~= members);
            Ok(context)
        },
        _ => Err(ConversionError::NotATable),
    }
}

/// A table without entries binds no name.
pub proof fn lemma_empty_table_binds_nothing()
    ensures
        bound(Seq::empty()) == Map::<Seq<char>, ValueModel>::empty(),
{
    assert(converted(DocumentModel::Table(Seq::empty()))->Object_0 =~= Seq::empty());
}

/// A table in which no key occurs twice binds exactly its keys, each to the
/// converted document of its entry.
pub proof fn lemma_table_binds_each_key(entries: Seq<(Seq<char>, DocumentModel)>)
    requires
        DocumentModel::Table(entries).well_formed(),
    ensures
        bound(entries).dom().finite(),
        bound(entries).dom().len() == entries.len(),
        forall|key: Seq<char>|
            bound(entries).contains_key(key) <==> exists|i: int|
                0 <= i < entries.len() && (#[trigger] entries[i]).0 == key,
        forall|i: int|
            0 <= i < entries.len() ==> bound(entries)[(#[trigger] entries[i]).0] == converted(
                entries[i].1,
            ),
{
    let members = converted(DocumentModel::Table(entries))->Object_0;
    assert(object_keys(members) =~= crate::document::table_keys(entries));
    lemma_members_map_size(members);
    assert forall|key: Seq<char>|
        bound(entries).contains_key(key) <==> exists|i: int|
            0 <= i < entries.len() && (#[trigger] entries[i]).0 == key by {
        lemma_members_map_keys(members, key);
        if bound(entries).contains_key(key) {
            let i = choose|i: int| 0 <= i < members.len() && (#[trigger] members[i]).0 == key;
            assert(entries[i].0 == key);
        }
        if exists|i: int| 0 <= i < entries.len() && (#[trigger] entries[i]).0 == key {
            let i = choose|i: int| 0 <= i < entries.len() && (#[trigger] entries[i]).0 == key;
            assert(members[i].0 == key);
        }
    }
    assert forall|i: int| 0 <= i < entries.len() implies bound(entries)[(
    #[trigger] entries[i]).0] == converted(entries[i].1) by {
        lemma_members_map_value(members, i);
    }
}

} // verus!
