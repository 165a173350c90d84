//! The dynamic value: what a template sees of a document.
use vstd::prelude::*;

verus! {

/// The mathematical value of a [`DynamicValue`].
pub enum ValueModel {
    Number(nat),
    Boolean(bool),
    String(Seq<char>),
    Array(Seq<ValueModel>),
    Object(Seq<(Seq<char>, ValueModel)>),
}

/// The keys of an object's members, in the order of the members.
pub open spec fn object_keys(members: Seq<(Seq<char>, ValueModel)>) -> Seq<Seq<char>> {
    Seq::new(members.len(), |i: int| members[i].0)
}

/// The mapping that a list of members stands for: each key with the value of
/// the last member that has it.
pub open spec fn members_map(members: Seq<(Seq<char>, ValueModel)>) -> Map<Seq<char>, ValueModel>
    decreases members.len(),
{
    if members.len() == 0 {
        Map::empty()
    } else {
        members_map(members.drop_last()).insert(members.last().0, members.last().1)
    }
}

/// The mathematical values of a list of members.
pub open spec fn members_model(members: Seq<(String, DynamicValue)>) -> Seq<(Seq<char>, ValueModel)> {
    Seq::new(members.len(), |i: int| (members[i].0@, members[i].1@))
}

impl ValueModel {
    /// No object of the value, at any depth, holds a key twice.
    pub open spec fn well_formed(self) -> bool
        decreases self,
    {
        match self {
            ValueModel::Array(items) => forall|i: int|
                0 <= i < items.len() ==> (#[trigger] items[i]).well_formed(),
            ValueModel::Object(members) => {
                &&& object_keys(members).no_duplicates()
                &&& forall|i: int|
                    0 <= i < members.len() ==> (#[trigger] members[i]).1.well_formed()
            },
            _ => true,
        }
    }
}

/// Where no key occurs twice among some members, none does among all but the last.
proof fn lemma_front_keys_differ(members: Seq<(Seq<char>, ValueModel)>)
    requires
        object_keys(members).no_duplicates(),
        members.len() > 0,
    ensures
        object_keys(members.drop_last()).no_duplicates(),
{
    let front = members.drop_last();
    assert forall|a: int, b: int| 0 <= a < front.len() && 0 <= b < front.len() && a != b implies object_keys(
        front,
    )[a] != object_keys(front)[b] by {
        assert(object_keys(members)[a] != object_keys(members)[b]);
    }
}

/// A key is bound by a list of members exactly when one of them has it.
pub proof fn lemma_members_map_keys(members: Seq<(Seq<char>, ValueModel)>, key: Seq<char>)
    ensures
        members_map(members).contains_key(key) <==> exists|i: int|
            0 <= i < members.len() && (#[trigger] members[i]).0 == key,
    decreases members.len(),
{
    if members.len() > 0 {
        let front = members.drop_last();
        lemma_members_map_keys(front, key);
        if members_map(members).contains_key(key) {
            if members.last().0 == key {
                assert(members[members.len() - 1].0 == key);
            } else {
                let i = choose|i: int| 0 <= i < front.len() && (#[trigger] front[i]).0 == key;
                assert(members[i].0 == key);
            }
        }
        if exists|i: int| 0 <= i < members.len() && (#[trigger] members[i]).0 == key {
            let i = choose|i: int| 0 <= i < members.len() && (#[trigger] members[i]).0 == key;
            if i < members.len() - 1 {
                assert(front[i].0 == key);
            }
        }
    }
}

/// Where no key occurs twice, each member's key is bound to that member's value.
pub proof fn lemma_members_map_value(members: Seq<(Seq<char>, ValueModel)>, i: int)
    requires
        object_keys(members).no_duplicates(),
        0 <= i < members.len(),
    ensures
        members_map(members).contains_key(members[i].0),
        members_map(members)[members[i].0] == members[i].1,
    decreases members.len(),
{
    let front = members.drop_last();
    let last = members.len() - 1;
    if i < last {
        assert(object_keys(members)[i] != object_keys(members)[last]);
        lemma_front_keys_differ(members);
        lemma_members_map_value(front, i);
    }
}

/// Where no key occurs twice, giving the member at `i` a new value binds its
/// key to that value and leaves every other key as it was.
pub proof fn lemma_members_map_update(
    members: Seq<(Seq<char>, ValueModel)>,
    i: int,
    value: ValueModel,
)
    requires
        object_keys(members).no_duplicates(),
        0 <= i < members.len(),
    ensures
        members_map(members.update(i, (members[i].0, value))) == members_map(members).insert(
            members[i].0,
            value,
        ),
    decreases members.len(),
{
    let key = members[i].0;
    let updated = members.update(i, (key, value));
    let front = members.drop_last();
    let last = members.len() - 1;
    if i == last {
        assert(updated.drop_last() =~= front);
        assert(members_map(updated) =~= members_map(members).insert(key, value));
    } else {
        assert(object_keys(members)[i] != object_keys(members)[last]);
        lemma_front_keys_differ(members);
        lemma_members_map_update(front, i, value);
        assert(updated.drop_last() =~= front.update(i, (key, value)));
        assert(members_map(updated) =~= members_map(members).insert(key, value));
    }
}

/// A list of members binds finitely many keys: as many as it has members
/// where no key occurs twice.
pub proof fn lemma_members_map_size(members: Seq<(Seq<char>, ValueModel)>)
    ensures
        members_map(members).dom().finite(),
        members_map(members).dom().len() <= members.len(),
        object_keys(members).no_duplicates() ==> members_map(members).dom().len()
            == members.len(),
    decreases members.len(),
{
    if members.len() > 0 {
        let front = members.drop_last();
        let last = members.len() - 1;
        lemma_members_map_size(front);
        lemma_members_map_keys(front, members.last().0);
        if object_keys(members).no_duplicates() {
            lemma_front_keys_differ(members);
            if members_map(front).contains_key(members.last().0) {
                let j = choose|j: int| 0 <= j < front.len() && (#[trigger] front[j]).0 == members.last().0;
                assert(object_keys(members)[j] != object_keys(members)[last]);
            }
        }
    }
}

/// A value of the template engine's dynamic model.
///
/// A number is held as the bit pattern of a single-precision number.  An
/// object holds its members in order, each a key with its value; to a
/// template only the key counts, not the place.
#[derive(Debug, PartialEq, Eq)]
pub enum DynamicValue {
    Number(u32),
    Boolean(bool),
    String(String),
    Array(Vec<DynamicValue>),
    Object(Vec<(String, DynamicValue)>),
}

impl DynamicValue {
    /// The value as a mathematical value.
    pub open spec fn model(&self) -> ValueModel
        decreases self,
    {
        match self {
            DynamicValue::Number(bits) => ValueModel::Number(*bits as nat),
            DynamicValue::Boolean(b) => ValueModel::Boolean(*b),
            DynamicValue::String(text) => ValueModel::String(text@),
            DynamicValue::Array(items) => ValueModel::Array(
                Seq::new(
                    items@.len(),
                    |i: int|
                        if 0 <= i < items@.len() {
                            items@[i].model()
                        } else {
                            ValueModel::Boolean(false)
                        },
                ),
            ),
            DynamicValue::Object(members) => ValueModel::Object(
                Seq::new(
                    members@.len(),
                    |i: int|
                        if 0 <= i < members@.len() {
                            (members@[i].0@, members@[i].1.model())
                        } else {
                            (Seq::empty(), ValueModel::Boolean(false))
                        },
                ),
            ),
        }
    }
}

impl DynamicValue {
    /// No object of the value, at any depth, holds a key twice.
    pub open spec fn well_formed(&self) -> bool {
        self.model().well_formed()
    }
}

impl View for DynamicValue {
    type V = ValueModel;

    open spec fn view(&self) -> ValueModel {
        self.model()
    }
}

} // verus!
