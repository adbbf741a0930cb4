use vstd::prelude::*;
use crate::page::Page;

verus! {

/// Arguments of a create call.
pub struct CreateParams<D> {
    pub data: D,
}

/// Arguments of an update call.
pub struct UpdateParams<D> {
    pub id: String,
    pub data: D,
}

/// Arguments of a delete call.
pub struct DeleteParams {
    pub id: String,
}

/// Arguments of a list call.
pub struct ListParams {
    pub page: Option<Page>,
}

/// Arguments of a get call.
pub struct GetParams {
    pub id: String,
}

} // verus!
