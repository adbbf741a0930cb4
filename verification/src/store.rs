use vstd::prelude::*;
use vstd::string::StringExecFns;
use crate::convert::{array_of, object_of, W};
use crate::error::{yields, Decoded, Error, ErrorView, Result};
use crate::ident::Record;
use crate::page::{Page, PAGE_LIMIT};
use crate::text::{nat_text, push_decimal};
use crate::value::{Array, Fields, Object, Value, ValueView};

verus! {

/// A type that may be sent as the payload of a create call.
pub trait Creatable: Sized {
    /// The dynamic value that the payload is stored as.
    spec fn spec_content(self) -> ValueView;

    /// Encodes the payload for the store.
    fn content(self) -> (r: Value)
        ensures
            r@ == self.spec_content(),
    ;
}

/// A type that may be sent as the payload of a partial update.
pub trait Patchable: Sized {
    /// The fields that the payload sets; what is absent from it is absent here.
    spec fn spec_patch(self) -> Fields;

    /// Encodes the fields that are present, and no others.
    fn patch(self) -> (r: Object)
        ensures
            r@ == self.spec_patch(),
    ;
}

/// A type that may be decoded from a stored object.
pub trait Castable: Sized + View {
    /// What decoding an object with these fields yields.
    spec fn spec_cast(fields: Fields) -> Decoded<Self::V>;

    /// Decodes a stored object, field by field.
    fn cast(obj: Object) -> (r: Result<Self>)
        ensures
            yields(r, Self::spec_cast(obj@)),
    ;
}

impl Castable for Object {
    open spec fn spec_cast(fields: Fields) -> Decoded<Fields> {
        Ok(fields)
    }

    fn cast(obj: Object) -> (r: Result<Object>) {
        Ok(obj)
    }
}

/// A statement for the engine and the texts bound to its parameters.
#[derive(Debug, Clone, PartialEq)]
pub struct Statement {
    pub sql: String,
    pub bindings: Vec<(String, String)>,
}

/// Mathematical value of a [`Statement`].
pub struct StatementView {
    pub sql: Seq<char>,
    pub bindings: Seq<(Seq<char>, Seq<char>)>,
}

impl View for Statement {
    type V = StatementView;

    open spec fn view(&self) -> StatementView {
        StatementView {
            sql: self.sql@,
            bindings: Seq::new(
                self.bindings@.len(),
                |i: int| (self.bindings@[i].0@, self.bindings@[i].1@),
            ),
        }
    }
}

/// The statement that fetches one record by table and local id.
pub open spec fn spec_get_query(tb: Seq<char>, tid: Seq<char>) -> StatementView {
    StatementView {
        sql: "SELECT * FROM type::thing($tb, $tid)"@,
        bindings: seq![("tb"@, tb), ("tid"@, tid)],
    }
}

/// The text of the statement that lists a table: every record where no page is given,
/// else `limit` records from the page's offset on.
pub open spec fn spec_list_sql(page: Option<Page>) -> Seq<char> {
    match page {
        None => "SELECT * FROM type::table($tb)"@,
        Some(p) => "SELECT * FROM type::table($tb)"@ + " LIMIT "@ + nat_text(p.limit as nat)
            + " START "@ + nat_text(p.spec_offset()),
    }
}

/// What listing a table asks of the engine; a page size above the maximum is refused.
pub open spec fn spec_list_query(tb: Seq<char>, page: Option<Page>) -> Decoded<StatementView> {
    if page is Some && !page.unwrap().spec_in_bounds() {
        Err(ErrorView::ErrLimitOutOfBonds)
    } else {
        Ok(StatementView { sql: spec_list_sql(page), bindings: seq![("tb"@, tb)] })
    }
}

/// Builds the statement that fetches the record `tid` of table `tb`.
pub fn get_query(tb: &str, tid: &str) -> (r: Statement)
    ensures
        r@ == spec_get_query(tb@, tid@),
{
    let sql = String::from_str("SELECT * FROM type::thing($tb, $tid)");
    let mut bindings: Vec<(String, String)> = Vec::new();
    bindings.push((String::from_str("tb"), String::from_str(tb)));
    bindings.push((String::from_str("tid"), String::from_str(tid)));
    let r = Statement { sql, bindings };
    assert(r@.bindings =~= spec_get_query(tb@, tid@).bindings);
    r
}

/// Builds the statement that lists table `tb`, all of it or one page.
pub fn list_query(tb: &str, page: Option<Page>) -> (r: Result<Statement>)
    ensures
        yields(r, spec_list_query(tb@, page)),
{
    let mut sql = String::from_str("SELECT * FROM type::table($tb)");
    if let Some(page) = page {
        let (limit, offset) = page.compute()?;
        sql.append(" LIMIT ");
        push_decimal(&mut sql, limit as u64);
        sql.append(" START ");
        push_decimal(&mut sql, offset);
    }
    let mut bindings: Vec<(String, String)> = Vec::new();
    bindings.push((String::from_str("tb"), String::from_str(tb)));
    let r = Statement { sql, bindings };
    assert(r@.bindings =~= seq![("tb"@, tb@)]);
    Ok(r)
}

/// The key under which a missing record is reported: `tb:tid`.
pub open spec fn spec_record_key(tb: Seq<char>, tid: Seq<char>) -> Seq<char> {
    tb + ":"@ + tid
}

/// What one element of an answer decodes to: it must be an object, and its fields
/// must decode.
pub open spec fn spec_cast_one<T: Castable>(item: ValueView) -> Decoded<T::V> {
    match object_of(item) {
        None => Err(ErrorView::XValueNotOfType("Object"@)),
        Some(fields) => T::spec_cast(fields),
    }
}

/// What the answer to a get call decodes to: the answer must be an array, its first
/// element the record; an empty array means that nothing is stored under the id.
pub open spec fn spec_decode_get<T: Castable>(
    tb: Seq<char>,
    tid: Seq<char>,
    response: ValueView,
) -> Decoded<T::V> {
    match array_of(response) {
        None => Err(ErrorView::XValueNotOfType("Array"@)),
        Some(items) => if items.len() == 0 {
            Err(ErrorView::XValueNotFound(spec_record_key(tb, tid)))
        } else {
            spec_cast_one::<T>(items[0])
        },
    }
}

/// What a sequence of listed values decodes to, element by element: the first element
/// that is no object, or that does not decode, decides the error.
pub open spec fn spec_cast_all<T: Castable>(items: Seq<ValueView>) -> Decoded<Seq<T::V>>
    decreases items.len(),
{
    if items.len() == 0 {
        Ok(Seq::empty())
    } else {
        match spec_cast_all::<T>(items.drop_last()) {
            Err(e) => Err(e),
            Ok(prefix) => match spec_cast_one::<T>(items.last()) {
                Err(e) => Err(e),
                Ok(t) => Ok(prefix.push(t)),
            },
        }
    }
}

/// What the answer to a list call decodes to.
pub open spec fn spec_decode_list<T: Castable>(response: ValueView) -> Decoded<Seq<T::V>> {
    match array_of(response) {
        None => Err(ErrorView::XValueNotOfType("Array"@)),
        Some(items) => spec_cast_all::<T>(items),
    }
}

/// The views of a vector's elements.
pub open spec fn views_of<T: View>(v: Seq<T>) -> Seq<T::V> {
    Seq::new(v.len(), |i: int| v[i]@)
}

/// Decodes the engine's answer to a get call for record `tid` of table `tb`.
pub fn decode_get<T: Castable>(tb: &str, tid: &str, response: Value) -> (r: Result<T>)
    ensures
        yields(r, spec_decode_get::<T>(tb@, tid@, response@)),
{
    let mut items = Array::try_from(W(response))?.0;
    if items.len() == 0 {
        let mut key = String::from_str(tb);
        key.append(":");
        key.append(tid);
        return Err(Error::XValueNotFound(key));
    }
    let first = items.swap_remove(0);
    T::cast(Object::try_from(W(first))?)
}

/// Decodes the engine's answer to a list call, in the order the engine gave.
pub fn decode_list<T: Castable>(response: Value) -> (r: Result<Vec<T>>)
    ensures
        match r {
            Ok(v) => spec_decode_list::<T>(response@) == Ok::<Seq<T::V>, ErrorView>(views_of(v@)),
            Err(e) => spec_decode_list::<T>(response@) == Err::<Seq<T::V>, ErrorView>(e@),
        },
{
    let mut items = Array::try_from(W(response))?.0;
    let ghost all = array_of(response@).unwrap();
    let n = items.len();
    let mut out: Vec<T> = Vec::new();
    let mut i: usize = 0;
    assert(all.take(0) =~= Seq::<ValueView>::empty());
    assert(views_of(out@) =~= Seq::<T::V>::empty());
    while i < n
        invariant
            i <= n,
            array_of(response@) == Some(all),
            n == items@.len(),
            n == all.len(),
            forall|j: int| i <= j < n ==> (#[trigger] items@[j])@ == all[j],
            spec_cast_all::<T>(all.take(i as int)) == Ok::<Seq<T::V>, ErrorView>(views_of(out@)),
        decreases n - i,
    {
        let mut item = Value::Null;
        core::mem::swap(&mut item, &mut items[i]);
        proof {
            assert(all.take(i + 1).drop_last() =~= all.take(i as int));
            assert(all.take(i + 1).last() == all[i as int]);
            if spec_cast_one::<T>(all[i as int]) is Err {
                lemma_cast_all_error::<T>(all, i + 1);
            }
        }
        let t = T::cast(Object::try_from(W(item))?)?;
        let ghost before = out@;
        out.push(t);
        assert(views_of(out@) =~= views_of(before).push(t@));
        i += 1;
    }
    assert(all.take(n as int) =~= all);
    Ok(out)
}

/// The report that a create call on table `tb` came back without a record.
pub open spec fn spec_create_failure(tb: Seq<char>) -> ErrorView {
    ErrorView::StoreFailToCreate("exec_create "@ + tb + " got empty result."@)
}

/// The report that an update or delete found no record under `tb:tid`.
pub open spec fn spec_patch_failure(method: Seq<char>, tb: Seq<char>, tid: Seq<char>) -> ErrorView {
    ErrorView::StoreFailToPatch { method, tb, tid }
}

/// Decodes the engine's answer to a create call on table `tb`: the record it made.
pub fn decode_create(tb: &str, records: Vec<Record>) -> (r: Result<Record>)
    ensures
        records@.len() > 0 ==> r == Ok::<Record, Error>(records@[0]),
        records@.len() == 0 ==> r is Err && r->Err_0@ == spec_create_failure(tb@),
{
    let mut records = records;
    if records.len() == 0 {
        let mut message = String::from_str("exec_create ");
        message.append(tb);
        message.append(" got empty result.");
        return Err(Error::StoreFailToCreate(message));
    }
    Ok(records.swap_remove(0))
}

/// Decodes the engine's answer to an update or delete call: the record it touched, or
/// the report that there was none.
fn decode_patch(method: &str, tb: &str, tid: &str, record: Option<Record>) -> (r: Result<Record>)
    ensures
        record is Some ==> r == Ok::<Record, Error>(record.unwrap()),
        record is None ==> r is Err && r->Err_0@ == spec_patch_failure(method@, tb@, tid@),
{
    match record {
        Some(record) => Ok(record),
        None => Err(
            Error::StoreFailToPatch {
                method: String::from_str(method),
                tb: String::from_str(tb),
                tid: String::from_str(tid),
            },
        ),
    }
}

/// Decodes the engine's answer to an update of record `tid` of table `tb`.
pub fn decode_update(tb: &str, tid: &str, record: Option<Record>) -> (r: Result<Record>)
    ensures
        record is Some ==> r == Ok::<Record, Error>(record.unwrap()),
        record is None ==> r is Err && r->Err_0@ == spec_patch_failure("update"@, tb@, tid@),
{
    decode_patch("update", tb, tid, record)
}

/// Decodes the engine's answer to a delete of record `tid` of table `tb`: its last state.
pub fn decode_delete(tb: &str, tid: &str, record: Option<Record>) -> (r: Result<Record>)
    ensures
        record is Some ==> r == Ok::<Record, Error>(record.unwrap()),
        record is None ==> r is Err && r->Err_0@ == spec_patch_failure("delete"@, tb@, tid@),
{
    decode_patch("delete", tb, tid, record)
}

/// Listing with a page is refused if and only if the page size is above `PAGE_LIMIT`,
/// and then as a size out of bounds; listing without a page is never refused.
pub proof fn lemma_list_query_bound(tb: Seq<char>, page: Option<Page>)
    ensures
        spec_list_query(tb, page) is Err <==> page is Some && page.unwrap().limit > PAGE_LIMIT,
        spec_list_query(tb, page) is Err ==> spec_list_query(tb, page)->Err_0
            == ErrorView::ErrLimitOutOfBonds,
        spec_list_query(tb, None) is Ok,
{
}

/// What is not stored is not found: the answer that the engine gives for an identifier
/// under which nothing is stored, an array without elements, decodes to "not found" under
/// the key `tb:tid`, whatever type was asked for.
pub proof fn lemma_empty_answer_is_not_found<T: Castable>(tb: Seq<char>, tid: Seq<char>)
    ensures
        spec_decode_get::<T>(tb, tid, ValueView::Array(Seq::empty())) == Err::<T::V, ErrorView>(
            ErrorView::XValueNotFound(tb + ":"@ + tid),
        ),
{
}

/// A sequence decodes if and only if each of its elements does, and then to one decoded
/// element for each, in the same order.
pub proof fn lemma_cast_all_ok<T: Castable>(items: Seq<ValueView>)
    ensures
        spec_cast_all::<T>(items) is Ok <==> forall|i: int|
            0 <= i < items.len() ==> spec_cast_one::<T>(#[trigger] items[i]) is Ok,
        spec_cast_all::<T>(items) is Ok ==> spec_cast_all::<T>(items)->Ok_0.len() == items.len(),
        spec_cast_all::<T>(items) is Ok ==> forall|i: int|
            0 <= i < items.len() ==> spec_cast_one::<T>(#[trigger] items[i]) == Ok::<
                T::V,
                ErrorView,
            >(spec_cast_all::<T>(items)->Ok_0[i]),
    decreases items.len(),
{
    if items.len() > 0 {
        let front = items.drop_last();
        lemma_cast_all_ok::<T>(front);
        assert forall|i: int| 0 <= i < front.len() implies front[i] == items[i] by {}
        if spec_cast_all::<T>(items) is Ok {
            assert forall|i: int| 0 <= i < items.len() implies spec_cast_one::<T>(
                #[trigger] items[i],
            ) is Ok by {
                if i < front.len() {
                    assert(front[i] == items[i]);
                }
            }
        } else if spec_cast_all::<T>(front) is Ok {
            assert(spec_cast_one::<T>(items[items.len() - 1]) is Err);
        } else {
            let i = choose|i: int| 0 <= i < front.len() && !(spec_cast_one::<T>(front[i]) is Ok);
            assert(front[i] == items[i]);
        }
    }
}

/// An error among the first `k` elements is the error of the whole sequence.
pub proof fn lemma_cast_all_error<T: Castable>(items: Seq<ValueView>, k: int)
    requires
        0 <= k <= items.len(),
        spec_cast_all::<T>(items.take(k)) is Err,
    ensures
        spec_cast_all::<T>(items) == spec_cast_all::<T>(items.take(k)),
    decreases items.len() - k,
{
    if k == items.len() {
        assert(items.take(k) =~= items);
    } else {
        assert(items.take(k + 1).drop_last() =~= items.take(k));
        lemma_cast_all_error::<T>(items, k + 1);
    }
}

} // verus!
