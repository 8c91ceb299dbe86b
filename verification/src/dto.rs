//! The user-list data rows and their bridge into the keyed store.
//!
//! A list of user records is shown through the keyed store: each record
//! becomes one reconcile item, keyed by its id, with one field cell per
//! displayed column — so editing one user's name touches only that row's
//! name cell.

use vstd::prelude::*;

use crate::keyed::RowInput;
use crate::value::Value;
use crate::value::ValueView;

verus! {

/// One user record.
#[derive(Debug)]
pub struct UsersDto {
    pub id: Option<i64>,
    pub fullname: String,
    pub email: String,
    pub create_at: Option<String>,
    pub ws_id: i64,
}

/// The rows backing a reactive user list; reconciled into a `KeyedStore`
/// keyed by each row's id.
#[derive(Debug)]
pub struct UsersDtoDataStore {
    pub rows: Vec<UsersDto>,
}

impl Clone for UsersDto {
    /// A clone is the same record.
    fn clone(&self) -> (r: Self)
        ensures
            r == *self,
    {
        UsersDto {
            id: self.id,
            fullname: self.fullname.clone(),
            email: self.email.clone(),
            create_at: match &self.create_at {
                Option::Some(s) => Some(s.clone()),
                Option::None => None,
            },
            ws_id: self.ws_id,
        }
    }
}

impl UsersDto {
    pub fn new(
        id: Option<i64>,
        fullname: String,
        email: String,
        create_at: Option<String>,
        ws_id: i64,
    ) -> (r: Self)
        ensures
            r.id == id,
            r.fullname == fullname,
            r.email == email,
            r.create_at == create_at,
            r.ws_id == ws_id,
    {
        UsersDto { id, fullname, email, create_at, ws_id }
    }
}

impl Default for UsersDto {
    /// The placeholder record: id -1, everything else empty.
    fn default() -> (r: Self)
        ensures
            r.id == Some(-1i64),
            r.fullname@ == Seq::<char>::empty(),
            r.email@ == Seq::<char>::empty(),
            r.create_at is None,
            r.ws_id == 0,
    {
        UsersDto {
            id: Some(-1),
            fullname: String::new(),
            email: String::new(),
            create_at: None,
            ws_id: 0,
        }
    }
}

/// How one record maps to a reconcile item: keyed by id, with the
/// displayed columns as field values in a fixed order.
pub open spec fn user_item(u: UsersDto, r: RowInput) -> bool {
    &&& u.id is Some
    &&& r.key@ == ValueView::Int(u.id->0 as int)
    &&& r.fields@.len() == 4
    &&& r.fields@[0]@ == ValueView::Text(u.fullname@)
    &&& r.fields@[1]@ == ValueView::Text(u.email@)
    &&& r.fields@[2]@ == match u.create_at {
        Option::Some(s) => ValueView::Text(s@),
        Option::None => ValueView::Unit,
    }
    &&& r.fields@[3]@ == ValueView::Int(u.ws_id as int)
}

/// The reconcile item for one record. Records are keyed by their id, so a
/// record must have one.
pub fn user_row_input(u: &UsersDto) -> (r: RowInput)
    requires
        u.id is Some,
    ensures
        user_item(*u, r),
{
    let id = u.id.unwrap();
    let mut fields: Vec<Value> = Vec::new();
    fields.push(Value::Text(u.fullname.clone()));
    fields.push(Value::Text(u.email.clone()));
    match &u.create_at {
        Option::Some(s) => fields.push(Value::Text(s.clone())),
        Option::None => fields.push(Value::Unit),
    }
    fields.push(Value::Int(u.ws_id));
    RowInput { key: Value::Int(id), fields }
}

impl UsersDtoDataStore {
    /// The reconcile items for all rows, in order, keyed by id as the list
    /// itself is.
    pub fn row_inputs(&self) -> (r: Vec<RowInput>)
        requires
            forall|i: int| 0 <= i < self.rows@.len() ==> (#[trigger] self.rows@[i]).id is Some,
        ensures
            r@.len() == self.rows@.len(),
            forall|i: int| 0 <= i < r@.len() ==> user_item(self.rows@[i], #[trigger] r@[i]),
    {
        let n = self.rows.len();
        let mut r: Vec<RowInput> = Vec::new();
        let mut i: usize = 0;
        while i < n
            invariant
                i <= n,
                n == self.rows@.len(),
                forall|t: int| 0 <= t < self.rows@.len() ==> (#[trigger] self.rows@[t]).id is Some,
                r@.len() == i,
                forall|t: int| 0 <= t < i ==> user_item(self.rows@[t], #[trigger] r@[t]),
            decreases n - i,
        {
            r.push(user_row_input(&self.rows[i]));
            i += 1;
        }
        r
    }
}

} // verus!
