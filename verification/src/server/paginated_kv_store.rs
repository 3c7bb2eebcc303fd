//! A store that can be listed page by page.
use crate::error::IoErrorKind;
use vstd::prelude::*;

verus! {

/// Provides an interface that allows storage and retrieval of persisted values that are associated with
/// given keys, with support for pagination with time-based ordering.
///
/// In order to avoid collisions, the key space is segmented based on the given `primary_namespace`s and
/// `secondary_namespace`s. Implementations of this trait are free to handle them in different ways, as
/// long as per-namespace key uniqueness is asserted.
///
/// Empty primary namespaces and secondary namespaces (`""`) are considered valid; however, if
/// `primary_namespace` is empty, `secondary_namespace` must also be empty. This means that concerns
/// should always be separated by primary namespace first, before secondary namespaces are used.
pub trait PaginatedKVStore {
    /// Returns the data stored for the given `primary_namespace`, `secondary_namespace`, and `key`.
    ///
    /// Returns [`IoErrorKind::NotFound`] if the given `key` could not be found in the given
    /// `primary_namespace` and `secondary_namespace`.
    fn read(&self, primary_namespace: &str, secondary_namespace: &str, key: &str) -> Result<
        Vec<u8>,
        IoErrorKind,
    >;

    /// Persists the given data under the given `key` with an associated `time`.
    ///
    /// The `time` parameter is a monotonic counter or logical timestamp. It is used to follow the order
    /// of keys for list operations.
    ///
    /// Will create the given `primary_namespace` and `secondary_namespace` if not already present in
    /// the store.
    fn write(
        &self,
        primary_namespace: &str,
        secondary_namespace: &str,
        key: &str,
        time: i64,
        buf: &[u8],
    ) -> Result<(), IoErrorKind>;

    /// Removes any data that had previously been persisted under the given `key`.
    ///
    /// If the `lazy` flag is set to `true`, the backend implementation might choose to lazily remove the
    /// given `key` at some point in time after the method returns.
    ///
    /// Returns successfully if no data will be stored for the given `primary_namespace`,
    /// `secondary_namespace`, and `key`, independently of whether it was present before its invocation
    /// or not.
    fn remove(
        &self,
        primary_namespace: &str,
        secondary_namespace: &str,
        key: &str,
        lazy: bool,
    ) -> Result<(), IoErrorKind>;

    /// Returns a paginated list of keys that are stored under the given `secondary_namespace` in
    /// `primary_namespace`, ordered in descending order of `time`.
    ///
    /// If `next_page_token` is `None`, the listing starts from the most recent entry. The
    /// `next_page_token` in the returned [`ListResponse`] can be used to fetch the next page of results.
    ///
    /// Returns an empty list if `primary_namespace` or `secondary_namespace` is unknown or if there are
    /// no more keys to return.
    fn list(
        &self,
        primary_namespace: &str,
        secondary_namespace: &str,
        next_page_token: Option<String>,
    ) -> Result<ListResponse, IoErrorKind>;
}

/// Represents the response from a paginated `list` operation.
///
/// Contains the list of keys and an optional `next_page_token` that can be used to retrieve the next set
/// of keys.
#[derive(Debug)]
pub struct ListResponse {
    /// A vector of keys, ordered in descending order of `time`.
    pub keys: Vec<String>,
    /// A token that can be used to retrieve the next set of keys.
    pub next_page_token: Option<String>,
}

} // verus!
