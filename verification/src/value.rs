use vstd::prelude::*;
use vstd::string::StringExecFns;

verus! {

/// The local part of a record identifier.
#[derive(Debug, Clone)]
pub enum Id {
    Number(i64),
    String(String),
}

/// Mathematical value of an [`Id`].
pub enum IdView {
    Number(int),
    String(Seq<char>),
}

impl View for Id {
    type V = IdView;

    open spec fn view(&self) -> IdView {
        match self {
            Id::Number(n) => IdView::Number(*n as int),
            Id::String(s) => IdView::String(s@),
        }
    }
}

/// A record identifier: table name and local id.
#[derive(Debug, Clone)]
pub struct Thing {
    pub tb: String,
    pub id: Id,
}

/// Mathematical value of a [`Thing`].
pub struct ThingView {
    pub tb: Seq<char>,
    pub id: IdView,
}

impl View for Thing {
    type V = ThingView;

    open spec fn view(&self) -> ThingView {
        ThingView { tb: self.tb@, id: self.id@ }
    }
}

/// An ordered sequence of dynamic values.
#[derive(Debug)]
pub struct Array(pub Vec<Value>);

/// A dynamic object: named fields, each name at most once. The fields are reached
/// through the methods only, which keep the names distinct.
#[derive(Debug)]
pub struct Object {
    pub(crate) entries: Vec<(String, Value)>,
}

/// A dynamic value as the document store hands it out.
#[derive(Debug)]
pub enum Value {
    /// No value at all: what the store gives for a field that is not there.
    Nothing,
    /// The null value.
    Null,
    Bool(bool),
    /// A number, as the integer it stands for.
    Number(i64),
    /// A string.
    Strand(String),
    /// A reference to a record.
    Thing(Thing),
    Array(Array),
    Object(Object),
    /// A value of a kind that this layer does not decode.
    Other,
}

/// Mathematical value of a [`Value`].
pub enum ValueView {
    Nothing,
    Null,
    Bool(bool),
    Number(int),
    Strand(Seq<char>),
    Thing(ThingView),
    Array(Seq<ValueView>),
    Object(Fields),
    Other,
}

/// The fields of an object: what each name that occurs maps to.
pub type Fields = Map<Seq<char>, ValueView>;

/// Some position in `entries` holds `key`.
spec fn has_key(entries: Seq<(String, Value)>, key: Seq<char>) -> bool {
    exists|i: int| 0 <= i < entries.len() && #[trigger] entries[i].0@ == key
}

/// A position in `entries` that holds `key`, where there is one.
spec fn key_index(entries: Seq<(String, Value)>, key: Seq<char>) -> int {
    choose|i: int| 0 <= i < entries.len() && #[trigger] entries[i].0@ == key
}

/// No name occurs at two positions.
spec fn distinct_keys(entries: Seq<(String, Value)>) -> bool {
    forall|i: int, j: int|
        0 <= i < j < entries.len() ==> #[trigger] entries[i].0@ != #[trigger] entries[j].0@
}

/// The fields that a list of entries stands for.
spec fn fields_of(entries: Seq<(String, Value)>) -> Fields
    decreases entries,
{
    Map::new(
        |k: Seq<char>| has_key(entries, k),
        |k: Seq<char>|
            {
                let i = key_index(entries, k);
                if 0 <= i < entries.len() {
                    entries[i].1.view()
                } else {
                    ValueView::Nothing
                }
            },
    )
}

impl View for Value {
    type V = ValueView;

    open spec fn view(&self) -> ValueView
        decreases self,
    {
        match self {
            Value::Nothing => ValueView::Nothing,
            Value::Null => ValueView::Null,
            Value::Bool(b) => ValueView::Bool(*b),
            Value::Number(n) => ValueView::Number(*n as int),
            Value::Strand(s) => ValueView::Strand(s@),
            Value::Thing(t) => ValueView::Thing(t@),
            Value::Array(a) => ValueView::Array(a.view()),
            Value::Object(o) => ValueView::Object(o.view()),
            Value::Other => ValueView::Other,
        }
    }
}

impl View for Array {
    type V = Seq<ValueView>;

    open spec fn view(&self) -> Seq<ValueView>
        decreases self,
    {
        Seq::new(
            self.0@.len(),
            |i: int|
                if 0 <= i < self.0@.len() {
                    self.0@[i].view()
                } else {
                    ValueView::Nothing
                },
        )
    }
}

impl View for Object {
    type V = Fields;

    closed spec fn view(&self) -> Fields
        decreases self,
    {
        fields_of(self.entries@)
    }
}

/// Under distinct names, the entry at a position is what its name maps to.
proof fn lemma_lookup(entries: Seq<(String, Value)>, i: int)
    requires
        distinct_keys(entries),
        0 <= i < entries.len(),
    ensures
        has_key(entries, entries[i].0@),
        key_index(entries, entries[i].0@) == i,
        fields_of(entries).dom().contains(entries[i].0@),
        fields_of(entries)[entries[i].0@] == entries[i].1@,
{
    let k = entries[i].0@;
    assert(0 <= i < entries.len() && entries[i].0@ == k);
    let j = key_index(entries, k);
    assert(0 <= j < entries.len() && entries[j].0@ == k);
    if j < i {
        assert(entries[j].0@ != entries[i].0@);
    } else if i < j {
        assert(entries[i].0@ != entries[j].0@);
    }
}

/// Appending an entry under a new name adds that field.
proof fn lemma_push(entries: Seq<(String, Value)>, entry: (String, Value))
    requires
        distinct_keys(entries),
        !has_key(entries, entry.0@),
    ensures
        distinct_keys(entries.push(entry)),
        fields_of(entries.push(entry)) == fields_of(entries).insert(entry.0@, entry.1@),
{
    let after = entries.push(entry);
    assert forall|i: int, j: int| 0 <= i < j < after.len() implies #[trigger] after[i].0@
        != #[trigger] after[j].0@ by {
        if j == entries.len() {
            if after[i].0@ == after[j].0@ {
                assert(0 <= i < entries.len() && entries[i].0@ == entry.0@);
            }
        } else {
            assert(entries[i].0@ != entries[j].0@);
        }
    }
    let m = fields_of(entries).insert(entry.0@, entry.1@);
    assert forall|k: Seq<char>| fields_of(after).dom().contains(k) <==> m.dom().contains(k) by {
        if has_key(after, k) {
            let i = key_index(after, k);
            if i < entries.len() {
                assert(0 <= i < entries.len() && entries[i].0@ == k);
            }
        }
        if has_key(entries, k) {
            let i = key_index(entries, k);
            assert(0 <= i < after.len() && after[i].0@ == k);
        }
        if k == entry.0@ {
            let i = entries.len() as int;
            assert(0 <= i < after.len() && after[i].0@ == k);
        }
    }
    assert forall|k: Seq<char>| m.dom().contains(k) implies fields_of(after)[k] == m[k] by {
        if k == entry.0@ {
            lemma_lookup(after, entries.len() as int);
        } else {
            let i = key_index(entries, k);
            lemma_lookup(entries, i);
            lemma_lookup(after, i);
        }
    }
    assert(fields_of(after) =~= m);
}

/// Dropping the entry at a position drops its field.
proof fn lemma_remove(entries: Seq<(String, Value)>, i: int)
    requires
        distinct_keys(entries),
        0 <= i < entries.len(),
    ensures
        distinct_keys(entries.remove(i)),
        fields_of(entries.remove(i)) == fields_of(entries).remove(entries[i].0@),
{
    let after = entries.remove(i);
    let gone = entries[i].0@;
    assert forall|a: int, b: int| 0 <= a < b < after.len() implies #[trigger] after[a].0@
        != #[trigger] after[b].0@ by {
        let a0 = if a < i { a } else { a + 1 };
        let b0 = if b < i { b } else { b + 1 };
        assert(entries[a0].0@ != entries[b0].0@);
    }
    let m = fields_of(entries).remove(gone);
    assert forall|k: Seq<char>| fields_of(after).dom().contains(k) <==> m.dom().contains(k) by {
        if has_key(after, k) {
            let a = key_index(after, k);
            let a0 = if a < i { a } else { a + 1 };
            assert(0 <= a0 < entries.len() && entries[a0].0@ == k);
            if k == gone {
                if a0 < i {
                    assert(entries[a0].0@ != entries[i].0@);
                } else {
                    assert(entries[i].0@ != entries[a0].0@);
                }
            }
        }
        if has_key(entries, k) && k != gone {
            let a0 = key_index(entries, k);
            let a = if a0 < i { a0 } else { a0 - 1 };
            assert(0 <= a < after.len() && after[a].0@ == k);
        }
    }
    assert forall|k: Seq<char>| m.dom().contains(k) implies fields_of(after)[k] == m[k] by {
        let a0 = key_index(entries, k);
        let a = if a0 < i { a0 } else { a0 - 1 };
        lemma_lookup(entries, a0);
        lemma_lookup(after, a);
    }
    assert(fields_of(after) =~= m);
}

/// Replacing the value at a position, under the same name, replaces that field.
proof fn lemma_update(entries: Seq<(String, Value)>, i: int, entry: (String, Value))
    requires
        distinct_keys(entries),
        0 <= i < entries.len(),
        entries[i].0@ == entry.0@,
    ensures
        distinct_keys(entries.update(i, entry)),
        fields_of(entries.update(i, entry)) == fields_of(entries).insert(entry.0@, entry.1@),
{
    let after = entries.update(i, entry);
    assert forall|a: int, b: int| 0 <= a < b < after.len() implies #[trigger] after[a].0@
        != #[trigger] after[b].0@ by {
        assert(entries[a].0@ != entries[b].0@);
    }
    let m = fields_of(entries).insert(entry.0@, entry.1@);
    assert forall|k: Seq<char>| fields_of(after).dom().contains(k) <==> m.dom().contains(k) by {
        if has_key(after, k) {
            let a = key_index(after, k);
            assert(0 <= a < entries.len() && entries[a].0@ == k);
        }
        if has_key(entries, k) {
            let a = key_index(entries, k);
            assert(0 <= a < after.len() && after[a].0@ == k);
        }
        if k == entry.0@ {
            assert(0 <= i < after.len() && after[i].0@ == k);
        }
    }
    assert forall|k: Seq<char>| m.dom().contains(k) implies fields_of(after)[k] == m[k] by {
        let a = key_index(after, k);
        lemma_lookup(after, a);
        if a != i {
            lemma_lookup(entries, a);
        }
    }
    assert(fields_of(after) =~= m);
}

/// The position in `entries` that holds `key`, if any does.
fn position(entries: &Vec<(String, Value)>, key: &String) -> (r: Option<usize>)
    ensures
        match r {
            Some(i) => i < entries@.len() && entries@[i as int].0@ == key@,
            None => !has_key(entries@, key@),
        },
{
    let mut i: usize = 0;
    while i < entries.len()
        invariant
            i <= entries@.len(),
            forall|j: int| 0 <= j < i ==> (#[trigger] entries@[j]).0@ != key@,
        decreases entries@.len() - i,
    {
        if entries[i].0 == *key {
            return Some(i);
        }
        i += 1;
    }
    None
}

impl Object {
    #[verifier::type_invariant]
    spec fn inv(&self) -> bool {
        distinct_keys(self.entries@)
    }

    /// An object without fields.
    pub fn new() -> (r: Object)
        ensures
            r@ == Fields::empty(),
    {
        let r = Object { entries: Vec::new() };
        assert(r@ =~= Fields::empty());
        r
    }

    /// The fields as a list of names and values, each name once.
    pub fn into_entries(self) -> (r: Vec<(String, Value)>)
        ensures
            forall|i: int, j: int|
                0 <= i < j < r@.len() ==> (#[trigger] r@[i]).0@ != (#[trigger] r@[j]).0@,
            forall|k: Seq<char>|
                self@.dom().contains(k) <==> exists|i: int|
                    0 <= i < r@.len() && (#[trigger] r@[i]).0@ == k,
            forall|i: int|
                0 <= i < r@.len() ==> self@.dom().contains((#[trigger] r@[i]).0@) && self@[r@[i].0@]
                    == r@[i].1@,
    {
        proof {
            use_type_invariant(&self);
            assert forall|i: int| 0 <= i < self.entries@.len() implies self@.dom().contains(
                (#[trigger] self.entries@[i]).0@,
            ) && self@[self.entries@[i].0@] == self.entries@[i].1@ by {
                lemma_lookup(self.entries@, i);
            }
        }
        self.entries
    }

    /// Whether the object has a field of that name.
    pub fn contains_key(&self, key: &str) -> (r: bool)
        ensures
            r == self@.dom().contains(key@),
    {
        let k = String::from_str(key);
        position(&self.entries, &k).is_some()
    }

    /// The value of the field of that name, if the object has one.
    pub fn get(&self, key: &str) -> (r: Option<&Value>)
        ensures
            match r {
                Some(v) => self@.dom().contains(key@) && v@ == self@[key@],
                None => !self@.dom().contains(key@),
            },
    {
        let k = String::from_str(key);
        match position(&self.entries, &k) {
            Some(i) => {
                proof {
                    use_type_invariant(self);
                    lemma_lookup(self.entries@, i as int);
                }
                Some(&self.entries[i].1)
            },
            None => None,
        }
    }

    /// Sets the field `key` to `value`, whether or not it was there before.
    pub fn insert(&mut self, key: String, value: Value)
        ensures
            final(self)@ == old(self)@.insert(key@, value@),
    {
        proof {
            use_type_invariant(&*self);
        }
        let mut entries: Vec<(String, Value)> = Vec::new();
        core::mem::swap(&mut self.entries, &mut entries);
        match position(&entries, &key) {
            Some(i) => {
                proof {
                    lemma_update(entries@, i as int, (key, value));
                }
                entries.set(i, (key, value));
            },
            None => {
                proof {
                    lemma_push(entries@, (key, value));
                }
                entries.push((key, value));
            },
        }
        core::mem::swap(&mut self.entries, &mut entries);
    }

    /// Takes the field `key` out of the object and hands its value back.
    pub fn remove(&mut self, key: &str) -> (r: Option<Value>)
        ensures
            final(self)@ == old(self)@.remove(key@),
            match r {
                Some(v) => old(self)@.dom().contains(key@) && v@ == old(self)@[key@],
                None => !old(self)@.dom().contains(key@),
            },
    {
        proof {
            use_type_invariant(&*self);
        }
        let k = String::from_str(key);
        match position(&self.entries, &k) {
            Some(i) => {
                proof {
                    lemma_lookup(self.entries@, i as int);
                    lemma_remove(self.entries@, i as int);
                }
                let mut entries: Vec<(String, Value)> = Vec::new();
                core::mem::swap(&mut self.entries, &mut entries);
                let entry = entries.remove(i);
                core::mem::swap(&mut self.entries, &mut entries);
                Some(entry.1)
            },
            None => {
                assert(old(self)@.remove(key@) =~= old(self)@);
                None
            },
        }
    }
}

} // verus!
