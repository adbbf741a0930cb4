use vstd::prelude::*;
use crate::text::int_text;
use crate::value::{Id, IdView, Thing, ThingView};

verus! {

/// A name inside an identifier as the engine writes it: the name itself where it is a
/// plain word, else the name set off so that it reads as one part.
pub uninterp spec fn part_text(part: Seq<char>) -> Seq<char>;

/// A local id inside an identifier: a number in decimal notation, a string as a part.
pub open spec fn id_part_text(id: IdView) -> Seq<char> {
    match id {
        IdView::Number(n) => int_text(n),
        IdView::String(s) => part_text(s),
    }
}

/// The canonical text of a record identifier: table, colon, local id.
pub open spec fn thing_text(thing: ThingView) -> Seq<char> {
    part_text(thing.tb) + seq![':'] + id_part_text(thing.id)
}

/// The bare text of a local id: a number in decimal notation, a string as it is.
pub open spec fn id_text(id: IdView) -> Seq<char> {
    match id {
        IdView::Number(n) => int_text(n),
        IdView::String(s) => s,
    }
}

/// `surrealdb::sql::Thing::to_raw`, on the engine's identifier with the same table and
/// local id. Trusted: the text is the table, a colon and the local id; the table and a
/// local id that is a string are written as `part_text` names it, which depends on the
/// characters of the name alone; a local id that is a number is written in decimal
/// notation.
#[verifier::external_body]
fn engine_thing_raw(thing: &Thing) -> (r: String)
    ensures
        r@ == part_text(thing@.tb) + seq![':'] + id_part_text(thing@.id),
{
    let id = match &thing.id {
        Id::Number(n) => surrealdb::sql::Id::Number(*n),
        Id::String(s) => surrealdb::sql::Id::String(s.clone()),
    };
    surrealdb::sql::Thing::from((thing.tb.as_str(), id)).to_raw()
}

/// `surrealdb::sql::Id::to_raw`, on the engine's local id of the same kind and content.
/// Trusted: a number comes back in decimal notation, a string unchanged.
#[verifier::external_body]
fn engine_id_raw(id: &Id) -> (r: String)
    ensures
        r@ == id_text(id@),
{
    let id = match id {
        Id::Number(n) => surrealdb::sql::Id::Number(*n),
        Id::String(s) => surrealdb::sql::Id::String(s.clone()),
    };
    id.to_raw()
}

impl Id {
    /// The bare text of this local id.
    pub fn to_raw(&self) -> (r: String)
        ensures
            r@ == id_text(self@),
    {
        engine_id_raw(self)
    }
}

impl Thing {
    /// The canonical text `table:id` of this identifier.
    pub fn to_raw(&self) -> (r: String)
        ensures
            r@ == thing_text(self@),
    {
        engine_thing_raw(self)
    }
}

/// A record identifier as it travels with a record.
#[derive(Debug, Clone)]
pub struct IdWrapper(pub Thing);

impl View for IdWrapper {
    type V = ThingView;

    open spec fn view(&self) -> ThingView {
        self.0@
    }
}

impl IdWrapper {
    /// The local id, without the table.
    pub fn get_id(&self) -> (r: String)
        ensures
            r@ == id_text(self@.id),
    {
        self.0.id.to_raw()
    }

    /// The canonical text `table:id`.
    pub fn get_full_id(&self) -> (r: String)
        ensures
            r@ == thing_text(self@),
    {
        self.0.to_raw()
    }
}

/// What the store hands back for a call that only confirms which record it touched.
#[derive(Debug, Clone)]
pub struct Record {
    pub id: IdWrapper,
}

impl View for Record {
    type V = ThingView;

    open spec fn view(&self) -> ThingView {
        self.id@
    }
}

impl Record {
    /// The table the record lives in.
    pub fn get_table(&self) -> (r: &str)
        ensures
            r@ == self@.tb,
    {
        self.id.0.tb.as_str()
    }

    /// The local id, without the table.
    pub fn get_id(&self) -> (r: String)
        ensures
            r@ == id_text(self@.id),
    {
        self.id.get_id()
    }

    /// The canonical text `table:id`.
    pub fn get_full_id(&self) -> (r: String)
        ensures
            r@ == thing_text(self@),
    {
        self.id.get_full_id()
    }
}

} // verus!
