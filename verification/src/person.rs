use vstd::prelude::*;
use vstd::string::StringExecFns;
use crate::convert::{
    spec_take_bool, spec_take_object, spec_take_string, spec_take_thing, take_bool, take_object,
    take_string, take_thing,
};
use crate::error::{yields, Decoded, Error, ErrorView, Result};
use crate::ident::{id_text, thing_text, IdWrapper, Record};
use crate::store::{
    decode_create, decode_delete, decode_get, decode_list, decode_update, spec_create_failure,
    spec_decode_get, spec_decode_list, spec_patch_failure, views_of, Castable, Creatable,
    Patchable,
};
use crate::value::{Fields, Object, ThingView, Value, ValueView};

verus! {

/// A person's name.
#[derive(Debug, Clone, PartialEq)]
pub struct Name {
    pub first: String,
    pub last: String,
}

/// Mathematical value of a [`Name`].
pub struct NameView {
    pub first: Seq<char>,
    pub last: Seq<char>,
}

impl View for Name {
    type V = NameView;

    open spec fn view(&self) -> NameView {
        NameView { first: self.first@, last: self.last@ }
    }
}

/// A stored person, as handed to callers.
#[derive(Debug, Clone, PartialEq)]
pub struct Person {
    pub id: String,
    pub title: String,
    pub name: Name,
    pub marketing: bool,
}

/// Mathematical value of a [`Person`].
pub struct PersonView {
    pub id: Seq<char>,
    pub title: Seq<char>,
    pub name: NameView,
    pub marketing: bool,
}

impl View for Person {
    type V = PersonView;

    open spec fn view(&self) -> PersonView {
        PersonView { id: self.id@, title: self.title@, name: self.name@, marketing: self.marketing }
    }
}

/// A stored person as decoded from the store, its identifier still in parts.
#[derive(Debug, Clone)]
pub struct PersonMapping {
    pub id: IdWrapper,
    pub title: String,
    pub name: Name,
    pub marketing: bool,
}

/// Mathematical value of a [`PersonMapping`].
pub struct PersonMappingView {
    pub id: ThingView,
    pub title: Seq<char>,
    pub name: NameView,
    pub marketing: bool,
}

impl View for PersonMapping {
    type V = PersonMappingView;

    open spec fn view(&self) -> PersonMappingView {
        PersonMappingView {
            id: self.id@,
            title: self.title@,
            name: self.name@,
            marketing: self.marketing,
        }
    }
}

/// What a caller supplies to create a person.
#[derive(Debug, Clone, PartialEq)]
pub struct PersonForCreate {
    pub title: String,
    pub name: Name,
    pub marketing: Option<bool>,
}

/// Mathematical value of a [`PersonForCreate`].
pub struct PersonForCreateView {
    pub title: Seq<char>,
    pub name: NameView,
    pub marketing: Option<bool>,
}

impl View for PersonForCreate {
    type V = PersonForCreateView;

    open spec fn view(&self) -> PersonForCreateView {
        PersonForCreateView { title: self.title@, name: self.name@, marketing: self.marketing }
    }
}

/// What a caller supplies to change a person: absent fields stay as they are.
#[derive(Debug, Clone, PartialEq)]
pub struct PersonForUpdate {
    pub title: Option<String>,
    pub name: Option<Name>,
    pub marketing: Option<bool>,
}

/// Mathematical value of a [`PersonForUpdate`].
pub struct PersonForUpdateView {
    pub title: Option<Seq<char>>,
    pub name: Option<NameView>,
    pub marketing: Option<bool>,
}

impl View for PersonForUpdate {
    type V = PersonForUpdateView;

    open spec fn view(&self) -> PersonForUpdateView {
        PersonForUpdateView {
            title: match self.title {
                Some(t) => Some(t@),
                None => None,
            },
            name: match self.name {
                Some(n) => Some(n@),
                None => None,
            },
            marketing: self.marketing,
        }
    }
}

/// The fields a name is stored as.
pub open spec fn name_fields(n: NameView) -> Fields {
    Fields::empty().insert("first"@, ValueView::Strand(n.first)).insert(
        "last"@,
        ValueView::Strand(n.last),
    )
}

/// The fields a new person is stored as; `marketing` is false where the caller left it out.
pub open spec fn create_fields(p: PersonForCreateView) -> Fields {
    Fields::empty().insert("title"@, ValueView::Strand(p.title)).insert(
        "name"@,
        ValueView::Object(name_fields(p.name)),
    ).insert(
        "marketing"@,
        ValueView::Bool(
            match p.marketing {
                Some(b) => b,
                None => false,
            },
        ),
    )
}

/// The fields an update sets: one for each field that is present, none for the others.
pub open spec fn patch_fields(u: PersonForUpdateView) -> Fields {
    let m0 = Fields::empty();
    let m1 = match u.title {
        Some(t) => m0.insert("title"@, ValueView::Strand(t)),
        None => m0,
    };
    let m2 = match u.name {
        Some(n) => m1.insert("name"@, ValueView::Object(name_fields(n))),
        None => m1,
    };
    match u.marketing {
        Some(b) => m2.insert("marketing"@, ValueView::Bool(b)),
        None => m2,
    }
}

/// What decoding a name from these fields yields: `first`, then `last`.
pub open spec fn spec_name(fields: Fields) -> Decoded<NameView> {
    match spec_take_string(fields, "first"@) {
        Err(e) => Err(e),
        Ok(first) => match spec_take_string(fields, "last"@) {
            Err(e) => Err(e),
            Ok(last) => Ok(NameView { first, last }),
        },
    }
}

/// What decoding a person from these fields yields. The `name` field must be an object
/// before anything else is looked at; what is wrong inside it is reported after `id` and
/// `title`, and before `marketing`.
pub open spec fn spec_person(fields: Fields) -> Decoded<PersonView> {
    match spec_take_object(fields, "name"@) {
        Err(e) => Err(e),
        Ok(name_fields) => match spec_take_string(fields, "id"@) {
            Err(e) => Err(e),
            Ok(id) => match spec_take_string(fields, "title"@) {
                Err(e) => Err(e),
                Ok(title) => match spec_name(name_fields) {
                    Err(e) => Err(e),
                    Ok(name) => match spec_take_bool(fields, "marketing"@) {
                        Err(e) => Err(e),
                        Ok(marketing) => Ok(PersonView { id, title, name, marketing }),
                    },
                },
            },
        },
    }
}

/// What decoding a person with its identifier in parts yields: `id`, `title`, `name`,
/// `marketing`, in that order.
pub open spec fn spec_person_mapping(fields: Fields) -> Decoded<PersonMappingView> {
    match spec_take_thing(fields, "id"@) {
        Err(e) => Err(e),
        Ok(id) => match spec_take_string(fields, "title"@) {
            Err(e) => Err(e),
            Ok(title) => match spec_take_object(fields, "name"@) {
                Err(e) => Err(e),
                Ok(name_fields) => match spec_name(name_fields) {
                    Err(e) => Err(e),
                    Ok(name) => match spec_take_bool(fields, "marketing"@) {
                        Err(e) => Err(e),
                        Ok(marketing) => Ok(PersonMappingView { id, title, name, marketing }),
                    },
                },
            },
        },
    }
}

/// The person that a decoded mapping is handed out as: its id is the local id alone.
pub open spec fn person_of_mapping(m: PersonMappingView) -> PersonView {
    PersonView { id: id_text(m.id.id), title: m.title, name: m.name, marketing: m.marketing }
}

/// The field names differ from one another.
pub proof fn lemma_field_names_differ()
    ensures
        "first"@ != "last"@,
        "id"@ != "title"@,
        "id"@ != "name"@,
        "id"@ != "marketing"@,
        "title"@ != "name"@,
        "title"@ != "marketing"@,
        "name"@ != "marketing"@,
{
    reveal_strlit("first");
    reveal_strlit("last");
    reveal_strlit("id");
    reveal_strlit("title");
    reveal_strlit("name");
    reveal_strlit("marketing");
    assert("first"@.len() == 5);
    assert("last"@.len() == 4);
    assert("id"@.len() == 2);
    assert("title"@.len() == 5);
    assert("name"@.len() == 4);
    assert("marketing"@.len() == 9);
}

impl From<Name> for Value {
    fn from(val: Name) -> (r: Value)
        ensures
            r@ == ValueView::Object(name_fields(val@)),
    {
        let mut data = Object::new();
        data.insert(String::from_str("first"), Value::Strand(val.first));
        data.insert(String::from_str("last"), Value::Strand(val.last));
        Value::Object(data)
    }
}

impl vstd::std_specs::convert::FromSpecImpl<Name> for Value {
    open spec fn obeys_from_spec() -> bool {
        false
    }

    open spec fn from_spec(val: Name) -> Value {
        arbitrary()
    }
}

impl From<PersonForCreate> for Value {
    fn from(val: PersonForCreate) -> (r: Value)
        ensures
            r@ == ValueView::Object(create_fields(val@)),
    {
        let marketing = match val.marketing {
            Some(b) => b,
            None => false,
        };
        let mut data = Object::new();
        data.insert(String::from_str("title"), Value::Strand(val.title));
        data.insert(String::from_str("name"), Value::from(val.name));
        data.insert(String::from_str("marketing"), Value::Bool(marketing));
        Value::Object(data)
    }
}

impl vstd::std_specs::convert::FromSpecImpl<PersonForCreate> for Value {
    open spec fn obeys_from_spec() -> bool {
        false
    }

    open spec fn from_spec(val: PersonForCreate) -> Value {
        arbitrary()
    }
}

impl From<PersonForUpdate> for Value {
    fn from(val: PersonForUpdate) -> (r: Value)
        ensures
            r@ == ValueView::Object(patch_fields(val@)),
    {
        Value::Object(val.patch())
    }
}

impl vstd::std_specs::convert::FromSpecImpl<PersonForUpdate> for Value {
    open spec fn obeys_from_spec() -> bool {
        false
    }

    open spec fn from_spec(val: PersonForUpdate) -> Value {
        arbitrary()
    }
}

impl TryFrom<Object> for Name {
    type Error = Error;

    fn try_from(val: Object) -> (r: Result<Name>)
        ensures
            yields(r, spec_name(val@)),
    {
        let mut val = val;
        proof {
            lemma_field_names_differ();
        }
        let first = take_string(&mut val, "first")?;
        let last = take_string(&mut val, "last")?;
        Ok(Name { first, last })
    }
}

impl vstd::std_specs::convert::TryFromSpecImpl<Object> for Name {
    open spec fn obeys_try_from_spec() -> bool {
        false
    }

    open spec fn try_from_spec(val: Object) -> Result<Name> {
        arbitrary()
    }
}

impl TryFrom<Object> for Person {
    type Error = Error;

    fn try_from(val: Object) -> (r: Result<Person>)
        ensures
            yields(r, spec_person(val@)),
    {
        let mut val = val;
        proof {
            lemma_field_names_differ();
        }
        let name: Result<Name> = Name::try_from(take_object(&mut val, "name")?);
        let id = take_string(&mut val, "id")?;
        let title = take_string(&mut val, "title")?;
        let name = name?;
        let marketing = take_bool(&mut val, "marketing")?;
        Ok(Person { id, title, name, marketing })
    }
}

impl vstd::std_specs::convert::TryFromSpecImpl<Object> for Person {
    open spec fn obeys_try_from_spec() -> bool {
        false
    }

    open spec fn try_from_spec(val: Object) -> Result<Person> {
        arbitrary()
    }
}

impl TryFrom<PersonMapping> for Person {
    type Error = Error;

    fn try_from(val: PersonMapping) -> (r: Result<Person>)
        ensures
            r is Ok,
            r->Ok_0@ == person_of_mapping(val@),
    {
        let task = Person {
            id: val.id.get_id(),
            name: val.name,
            title: val.title,
            marketing: val.marketing,
        };
        Ok(task)
    }
}

impl vstd::std_specs::convert::TryFromSpecImpl<PersonMapping> for Person {
    open spec fn obeys_try_from_spec() -> bool {
        false
    }

    open spec fn try_from_spec(val: PersonMapping) -> Result<Person> {
        arbitrary()
    }
}

impl Castable for PersonMapping {
    open spec fn spec_cast(fields: Fields) -> Decoded<PersonMappingView> {
        spec_person_mapping(fields)
    }

    fn cast(obj: Object) -> (r: Result<PersonMapping>) {
        let mut obj = obj;
        proof {
            lemma_field_names_differ();
        }
        let id = IdWrapper(take_thing(&mut obj, "id")?);
        let title = take_string(&mut obj, "title")?;
        let name = Name::try_from(take_object(&mut obj, "name")?)?;
        let marketing = take_bool(&mut obj, "marketing")?;
        Ok(PersonMapping { id, title, name, marketing })
    }
}

impl Creatable for PersonForCreate {
    open spec fn spec_content(self) -> ValueView {
        ValueView::Object(create_fields(self@))
    }

    fn content(self) -> (r: Value) {
        Value::from(self)
    }
}

impl Patchable for PersonForUpdate {
    open spec fn spec_patch(self) -> Fields {
        patch_fields(self@)
    }

    fn patch(self) -> (r: Object) {
        let mut data = Object::new();
        if let Some(title) = self.title {
            data.insert(String::from_str("title"), Value::Strand(title));
        }
        if let Some(name) = self.name {
            data.insert(String::from_str("name"), Value::from(name));
        }
        if let Some(marketing) = self.marketing {
            data.insert(String::from_str("marketing"), Value::Bool(marketing));
        }
        data
    }
}

/// A name that was encoded decodes to itself.
pub proof fn lemma_name_round_trip(n: NameView)
    ensures
        spec_name(name_fields(n)) == Ok::<NameView, ErrorView>(n),
{
    lemma_field_names_differ();
}

/// The record that the store keeps for a created person: the fields of the payload and
/// the identifier that the store assigned, under `id`.
pub open spec fn stored_fields(p: PersonForCreateView, id: ThingView) -> Fields {
    create_fields(p).insert("id"@, ValueView::Thing(id))
}

/// What was created reads back: the record of a person that was created from the payload
/// `p`, and to which the store gave the identifier `id`, decodes to a person with the
/// title and the name of `p`, with the `marketing` of `p` (false where `p` left it out),
/// and with that identifier. This holds of both decoders, and of the decoded answer to a
/// get call.
pub proof fn lemma_create_get_round_trip(p: PersonForCreateView, id: ThingView, tid: Seq<char>)
    ensures
        ({
            let marketing = match p.marketing {
                Some(b) => b,
                None => false,
            };
            let mapping = PersonMappingView { id, title: p.title, name: p.name, marketing };
            let answer = ValueView::Array(seq![ValueView::Object(stored_fields(p, id))]);
            &&& spec_person_mapping(stored_fields(p, id)) == Ok::<PersonMappingView, ErrorView>(
                mapping,
            )
            &&& spec_person(stored_fields(p, id)) == Ok::<PersonView, ErrorView>(
                PersonView { id: thing_text(id), title: p.title, name: p.name, marketing },
            )
            &&& spec_decode_get::<PersonMapping>(ENTITY@, tid, answer) == Ok::<
                PersonMappingView,
                ErrorView,
            >(mapping)
            &&& person_of_mapping(mapping) == PersonView {
                id: id_text(id.id),
                title: p.title,
                name: p.name,
                marketing,
            }
        }),
{
    lemma_field_names_differ();
    lemma_name_round_trip(p.name);
}

/// The record that the store keeps after a partial update: a field that the update sets
/// has the update's value, every other field is as it was.
pub open spec fn merged_fields(
    stored: Fields,
    u: PersonForUpdateView,
) -> Fields {
    stored.union_prefer_right(patch_fields(u))
}

/// The person that a stored person becomes by a partial update.
pub open spec fn patched_mapping(
    m: PersonMappingView,
    u: PersonForUpdateView,
) -> PersonMappingView {
    PersonMappingView {
        id: m.id,
        title: match u.title {
            Some(t) => t,
            None => m.title,
        },
        name: match u.name {
            Some(n) => n,
            None => m.name,
        },
        marketing: match u.marketing {
            Some(b) => b,
            None => m.marketing,
        },
    }
}

/// A partial update keeps what it does not name: where the stored record decodes to a
/// person, the updated record decodes to the same person but for the fields that the
/// update holds. An update of the title alone leaves `name` and `marketing` (and the
/// identifier) unchanged.
pub proof fn lemma_patch_keeps_absent_fields(stored: Fields, u: PersonForUpdateView)
    requires
        spec_person_mapping(stored) is Ok,
    ensures
        spec_person_mapping(merged_fields(stored, u)) == Ok::<PersonMappingView, ErrorView>(
            patched_mapping(spec_person_mapping(stored)->Ok_0, u),
        ),
        forall|k: Seq<char>|
            !patch_fields(u).dom().contains(k) ==> (merged_fields(stored, u).dom().contains(k)
                <==> stored.dom().contains(k)),
        forall|k: Seq<char>|
            !patch_fields(u).dom().contains(k) && stored.dom().contains(k) ==> merged_fields(
                stored,
                u,
            )[k] == stored[k],
        patch_fields(u).dom().contains("title"@) <==> u.title is Some,
        patch_fields(u).dom().contains("name"@) <==> u.name is Some,
        patch_fields(u).dom().contains("marketing"@) <==> u.marketing is Some,
        !patch_fields(u).dom().contains("id"@),
{
    lemma_field_names_differ();
    if u.name is Some {
        lemma_name_round_trip(u.name.unwrap());
    }
}

/// The table that persons are stored in.
pub const ENTITY: &'static str = "person";

/// The persons that decoded mappings are handed out as.
pub open spec fn persons_of_mappings(ms: Seq<PersonMappingView>) -> Seq<PersonView> {
    Seq::new(ms.len(), |i: int| person_of_mapping(ms[i]))
}

/// The accessor for persons: every call is bound to the table `person`.
pub struct PersonController;

impl PersonController {
    /// Decodes the engine's answer to fetching the person `id`.
    pub fn get(response: Value, id: &str) -> (r: Result<Person>)
        ensures
            match spec_decode_get::<PersonMapping>(ENTITY@, id@, response@) {
                Ok(m) => r is Ok && r->Ok_0@ == person_of_mapping(m),
                Err(e) => r is Err && r->Err_0@ == e,
            },
    {
        Person::try_from(decode_get::<PersonMapping>(ENTITY, id, response)?)
    }

    /// Decodes the engine's answer to creating a person: the new record's `table:id`.
    pub fn create(records: Vec<Record>) -> (r: Result<String>)
        ensures
            records@.len() > 0 ==> r is Ok && r->Ok_0@ == thing_text(records@[0]@),
            records@.len() == 0 ==> r is Err && r->Err_0@ == spec_create_failure(ENTITY@),
    {
        Ok(decode_create(ENTITY, records)?.id.get_full_id())
    }

    /// Decodes the engine's answer to updating the person `id`: the record's `table:id`.
    pub fn update(record: Option<Record>, id: &str) -> (r: Result<String>)
        ensures
            record is Some ==> r is Ok && r->Ok_0@ == thing_text(record.unwrap()@),
            record is None ==> r is Err && r->Err_0@ == spec_patch_failure(
                "update"@,
                ENTITY@,
                id@,
            ),
    {
        Ok(decode_update(ENTITY, id, record)?.id.get_full_id())
    }

    /// Decodes the engine's answer to deleting the person `id`: the record's `table:id`.
    pub fn delete(record: Option<Record>, id: &str) -> (r: Result<String>)
        ensures
            record is Some ==> r is Ok && r->Ok_0@ == thing_text(record.unwrap()@),
            record is None ==> r is Err && r->Err_0@ == spec_patch_failure(
                "delete"@,
                ENTITY@,
                id@,
            ),
    {
        Ok(decode_delete(ENTITY, id, record)?.id.get_full_id())
    }

    /// Decodes the engine's answer to listing persons, in the engine's order.
    pub fn list(response: Value) -> (r: Result<Vec<Person>>)
        ensures
            match spec_decode_list::<PersonMapping>(response@) {
                Ok(ms) => r is Ok && views_of(r->Ok_0@) == persons_of_mappings(ms),
                Err(e) => r is Err && r->Err_0@ == e,
            },
    {
        let mappings = decode_list::<PersonMapping>(response)?;
        let ghost ms = views_of(mappings@);
        let mut out: Vec<Person> = Vec::new();
        for mapping in it: mappings.into_iter()
            invariant
                it.seq() == mappings@,
                ms == views_of(mappings@),
                out@.len() == it.index(),
                forall|j: int|
                    0 <= j < out@.len() ==> (#[trigger] out@[j])@ == person_of_mapping(ms[j]),
        {
            out.push(Person::try_from(mapping)?);
        }
        assert(views_of(out@) =~= persons_of_mappings(ms));
        Ok(out)
    }
}

} // verus!
