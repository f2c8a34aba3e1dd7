use vstd::prelude::*;

use std::sync::Arc;

verus! {

/// Data that is not loaded, being loaded, or loaded and shared.
#[derive(Debug)]
pub enum AsyncData<T> {
    NotLoaded,
    Loading,
    Loaded(Arc<T>),
}

impl<T> AsyncData<T> {
    /// Wraps data as loaded.
    pub fn new(data: T) -> (r: AsyncData<T>)
        ensures
            r matches AsyncData::Loaded(a) && *a == data,
    {
        AsyncData::Loaded(Arc::new(data))
    }
}

impl<T> Clone for AsyncData<T> {
    /// Shares the loaded data rather than copying it.
    fn clone(&self) -> (r: Self)
        ensures
            r == *self,
    {
        match self {
            AsyncData::Loaded(this) => AsyncData::Loaded(Arc::clone(this)),
            AsyncData::NotLoaded => AsyncData::NotLoaded,
            AsyncData::Loading => AsyncData::Loading,
        }
    }
}

} // verus!
