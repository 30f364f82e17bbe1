use vstd::prelude::*;
use crate::error::AppError;
use crate::models::{AppData, AppDataView};

verus! {

/// The games and rankings last read or written, kept so that they are not read again.
pub struct CacheState {
    pub games: Option<AppData>,
}

/// What the cache holds, by value.
pub open spec fn cached_view(c: CacheState) -> Option<AppDataView> {
    match c.games {
        Some(d) => Some(d@),
        None => None,
    }
}

/// What a read through the cache hands back: the cached data when there is some, else what
/// reading the files gave (`None` when that read failed). The cache holds the same afterwards.
pub open spec fn read_through(cached: Option<AppDataView>, read: Result<AppData, AppError>) -> Option<
    AppDataView,
> {
    match cached {
        Some(d) => Some(d),
        None => match read {
            Ok(x) => Some(x@),
            Err(_) => None,
        },
    }
}

impl CacheState {
    /// An empty cache.
    pub fn new() -> (c: Self)
        ensures
            cached_view(c) is None,
    {
        CacheState { games: None }
    }

    /// A copy of what the cache holds, if it holds anything.
    pub fn get_cache(&self) -> (d: Option<AppData>)
        ensures
            match d {
                Some(x) => cached_view(*self) == Some(x@),
                None => cached_view(*self) is None,
            },
    {
        match &self.games {
            Some(data) => Some(data.clone()),
            None => None,
        }
    }

    /// The data of the library: the cached copy when there is one; else `read`, the outcome
    /// of reading the files, which is kept when it succeeded. An error of the read is handed
    /// back and leaves the cache empty.
    pub fn get_cached_games(&mut self, read: Result<AppData, AppError>) -> (r: Result<
        AppData,
        AppError,
    >)
        ensures
            cached_view(*final(self)) == read_through(cached_view(*old(self)), read),
            match r {
                Ok(x) => read_through(cached_view(*old(self)), read) == Some(x@),
                Err(_) => read_through(cached_view(*old(self)), read) is None && r == read,
            },
    {
        match &self.games {
            Some(data) => Ok(data.clone()),
            None => match read {
                Ok(data) => {
                    self.games = Some(data.clone());
                    Ok(data)
                },
                Err(e) => Err(e),
            },
        }
    }

    /// Replaces what the cache holds with a copy of `data`.
    pub fn update_cache(&mut self, data: &AppData)
        ensures
            cached_view(*final(self)) == Some(data@),
    {
        self.games = Some(data.clone());
    }
}

/// What is written to the cache is what the next read gives back, whatever the files hold;
/// and once a read has loaded the data, later reads give back the same.
pub proof fn law_cache_read_after_write(data: AppData, read: Result<AppData, AppError>, later: Result<AppData, AppError>)
    ensures
        read_through(Some(data@), read) == Some(data@),
        read_through(read_through(None, read), later) == read_through(None, read) || read is Err,
{
}

} // verus!
