use vstd::prelude::*;

verus! {

/// The uniform outcome of a request: success without a body, failure without
/// detail, or success carrying a body that is sent as JSON.
#[derive(Debug, Clone, PartialEq, Eq)]
pub enum ApiResponse<T> {
    OK,
    Error,
    JsonData(T),
}

/// HTTP status of a successful response.
pub const STATUS_OK: u16 = 200;

/// HTTP status of a failed response.
pub const STATUS_INTERNAL_SERVER_ERROR: u16 = 500;

impl<T> ApiResponse<T> {
    /// The status this outcome is sent with.
    pub open spec fn spec_status(self) -> u16 {
        match self {
            ApiResponse::Error => STATUS_INTERNAL_SERVER_ERROR,
            _ => STATUS_OK,
        }
    }

    /// The body this outcome is sent with, if it has one.
    pub open spec fn spec_body(self) -> Option<T> {
        match self {
            ApiResponse::JsonData(data) => Some(data),
            _ => None,
        }
    }

    /// The HTTP status code of the response.
    pub fn status(&self) -> (code: u16)
        ensures
            code == self.spec_status(),
            code == 500 <==> (*self matches ApiResponse::Error),
            code == 200 <==> !(*self matches ApiResponse::Error),
    {
        match self {
            ApiResponse::Error => STATUS_INTERNAL_SERVER_ERROR,
            _ => STATUS_OK,
        }
    }

    /// Splits the response into its status code and its body. Only
    /// `JsonData` has a body; `Error` never carries any detail.
    pub fn into_parts(self) -> (parts: (u16, Option<T>))
        ensures
            parts.0 == self.spec_status(),
            parts.1 == self.spec_body(),
    {
        match self {
            ApiResponse::OK => (STATUS_OK, None),
            ApiResponse::Error => (STATUS_INTERNAL_SERVER_ERROR, None),
            ApiResponse::JsonData(data) => (STATUS_OK, Some(data)),
        }
    }
}

} // verus!
