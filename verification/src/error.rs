use crate::text::{decimal, decimal_string, joined, joined3};
use vstd::prelude::*;
use vstd::string::StringExecFns;

verus! {

/// What is known of a request that failed before an answer came.
#[derive(Debug, Clone)]
pub struct HttpFailure {
    /// The connection could not be made.
    pub connect: bool,
    /// The request ran out of time.
    pub timeout: bool,
    /// The transport's own description.
    pub message: String,
}

/// The ways in which talking to the collection endpoint can fail.
#[derive(Debug, Clone)]
pub enum Error {
    HttpError(HttpFailure),
    UrlError(String),
    JsonError(String),
    ApiServerError(u16),
    ApiRateLimitError(Option<u64>),
    ApiClientError(u16, String),
    ApiPayloadTooLarge,
    ApiHttpError(u16, String),
    ApiUnexpectedResponse(String),
    TimeError,
    MaxRetriesReached(String),
}

/// The mathematical content of an [`Error`].
pub enum ErrorView {
    HttpError { connect: bool, timeout: bool, message: Seq<char> },
    UrlError(Seq<char>),
    JsonError(Seq<char>),
    ApiServerError(u16),
    ApiRateLimitError(Option<u64>),
    ApiClientError(u16, Seq<char>),
    ApiPayloadTooLarge,
    ApiHttpError(u16, Seq<char>),
    ApiUnexpectedResponse(Seq<char>),
    TimeError,
    MaxRetriesReached(Seq<char>),
}

impl View for Error {
    type V = ErrorView;

    open spec fn view(&self) -> ErrorView {
        match self {
            Error::HttpError(f) => ErrorView::HttpError {
                connect: f.connect,
                timeout: f.timeout,
                message: f.message@,
            },
            Error::UrlError(m) => ErrorView::UrlError(m@),
            Error::JsonError(m) => ErrorView::JsonError(m@),
            Error::ApiServerError(code) => ErrorView::ApiServerError(*code),
            Error::ApiRateLimitError(after) => ErrorView::ApiRateLimitError(*after),
            Error::ApiClientError(code, m) => ErrorView::ApiClientError(*code, m@),
            Error::ApiPayloadTooLarge => ErrorView::ApiPayloadTooLarge,
            Error::ApiHttpError(code, m) => ErrorView::ApiHttpError(*code, m@),
            Error::ApiUnexpectedResponse(m) => ErrorView::ApiUnexpectedResponse(m@),
            Error::TimeError => ErrorView::TimeError,
            Error::MaxRetriesReached(m) => ErrorView::MaxRetriesReached(m@),
        }
    }
}

/// An optional number as it is shown in a message.
pub open spec fn shown(n: Option<u64>) -> Seq<char> {
    match n {
        Some(n) => "Some("@ + decimal(n as nat) + ")"@,
        None => "None"@,
    }
}

impl Error {
    /// The text of `message`.
    pub open spec fn message_view(self) -> Seq<char> {
        match self {
            Error::HttpError(f) => "HTTP request error: "@ + f.message@,
            Error::UrlError(m) => "URL parsing error: "@ + m@,
            Error::JsonError(m) => "JSON serialization error: "@ + m@,
            Error::ApiServerError(code) => "Mixpanel API server error (HTTP "@ + decimal(
                code as nat,
            ) + ")"@,
            Error::ApiRateLimitError(after) => "Mixpanel API rate limited (Retry after: "@ + shown(
                after,
            ) + " seconds)"@,
            Error::ApiClientError(code, m) => "Mixpanel API client error (HTTP "@ + decimal(
                code as nat,
            ) + "): "@ + m@,
            Error::ApiPayloadTooLarge => "Mixpanel API payload too large (HTTP 413)"@,
            Error::ApiHttpError(code, m) => "Mixpanel API HTTP error (HTTP "@ + decimal(
                code as nat,
            ) + "): "@ + m@,
            Error::ApiUnexpectedResponse(m) => "Mixpanel API unexpected response: "@ + m@,
            Error::TimeError => "Time conversion error"@,
            Error::MaxRetriesReached(m) => "Max retries reached: "@ + m@,
        }
    }

    /// What the error says to a reader.
    pub fn message(&self) -> (r: String)
        ensures
            r@ == self.message_view(),
    {
        match self {
            Error::HttpError(f) => joined("HTTP request error: ", f.message.as_str()),
            Error::UrlError(m) => joined("URL parsing error: ", m.as_str()),
            Error::JsonError(m) => joined("JSON serialization error: ", m.as_str()),
            Error::ApiServerError(code) => joined3(
                "Mixpanel API server error (HTTP ",
                decimal_string(*code as u64).as_str(),
                ")",
            ),
            Error::ApiRateLimitError(after) => {
                let shown = match after {
                    Some(n) => joined3("Some(", decimal_string(*n).as_str(), ")"),
                    None => "None".to_owned(),
                };
                joined3("Mixpanel API rate limited (Retry after: ", shown.as_str(), " seconds)")
            },
            Error::ApiClientError(code, m) => {
                let mut r = joined3(
                    "Mixpanel API client error (HTTP ",
                    decimal_string(*code as u64).as_str(),
                    "): ",
                );
                r.append(m.as_str());
                r
            },
            Error::ApiPayloadTooLarge => "Mixpanel API payload too large (HTTP 413)".to_owned(),
            Error::ApiHttpError(code, m) => {
                let mut r = joined3(
                    "Mixpanel API HTTP error (HTTP ",
                    decimal_string(*code as u64).as_str(),
                    "): ",
                );
                r.append(m.as_str());
                r
            },
            Error::ApiUnexpectedResponse(m) => joined(
                "Mixpanel API unexpected response: ",
                m.as_str(),
            ),
            Error::TimeError => "Time conversion error".to_owned(),
            Error::MaxRetriesReached(m) => joined("Max retries reached: ", m.as_str()),
        }
    }
}

} // verus!
