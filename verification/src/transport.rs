use crate::client::{stamped, Config, Event, EventView, Mixpanel, MAX_BATCH_SIZE};
use crate::error::{Error, ErrorView};
use crate::json::{Value, ValueView};
use crate::props::{object_map, PropertyMap};
use crate::text::{
    base64_encode, base64_standard, decimal, decimal_string, has_prefix, joined, joined3,
    parse_u64, parsed_u64, parsed_path, str_eq, str_starts_with, to_uppercase, uppercased,
    url_append_pair, url_path, url_set_path, url_with_pair, url_with_path, MAX_ADDRESS,
    MAX_ADDRESS_PART, MAX_ENCODED_INPUT, MAX_PATH, MAX_QUERY_PART,
};
use vstd::prelude::*;
use vstd::string::{StrSliceExecFns, StringSliceAdditionalSpecFns};

verus! {

/// How a request is sent.
#[derive(Debug, Clone, Copy, PartialEq, Eq, Structural)]
pub enum HttpMethod {
    Get,
    Post,
}

/// A request as the transport sends it: the path of the endpoint is
/// appended to the path of the base address, and the pairs make up the
/// query.
#[derive(Debug, Clone)]
pub struct HttpRequest {
    pub method: HttpMethod,
    pub base_url: String,
    pub endpoint: String,
    pub query: Vec<(String, String)>,
    pub content_type: Option<String>,
    pub body: Option<String>,
    pub authorization: Option<String>,
}

/// One pair of a query.
pub struct PairView {
    pub name: Seq<char>,
    pub value: Seq<char>,
}

/// The pairs of a query, in order.
pub open spec fn query_view(query: Seq<(String, String)>) -> Seq<PairView> {
    Seq::new(query.len(), |i: int| PairView { name: query[i].0@, value: query[i].1@ })
}

/// The flag `1` or `0`.
pub open spec fn flag(b: bool) -> Seq<char> {
    if b {
        "1"@
    } else {
        "0"@
    }
}

/// The endpoint without the slash that it may begin with.
pub open spec fn relative(endpoint: Seq<char>) -> Seq<char> {
    if has_prefix(endpoint, "/"@) {
        endpoint.subrange(1, endpoint.len() as int)
    } else {
        endpoint
    }
}

/// The query of a request.
pub open spec fn query_pairs(
    geolocate: bool,
    verbose: bool,
    test: bool,
    method: HttpMethod,
    encoded: Seq<char>,
) -> Seq<PairView> {
    let q1 = seq![
        PairView { name: "ip"@, value: flag(geolocate) },
        PairView { name: "verbose"@, value: flag(verbose) },
    ];
    let q2 = if method == HttpMethod::Get {
        q1.push(PairView { name: "data"@, value: encoded })
    } else {
        q1
    };
    if test {
        q2.push(PairView { name: "test"@, value: "1"@ })
    } else {
        q2
    }
}

/// The method that a name stands for, whatever its case.
pub open spec fn method_of(name: Seq<char>) -> Option<HttpMethod> {
    method_named(uppercased(name))
}

/// Whether a status says that the request succeeded.
pub open spec fn is_success(status: u16) -> bool {
    200 <= status < 300
}

/// What the transport is to do after a failed attempt.
#[derive(Debug)]
pub enum RetryDecision {
    /// Give up with this error.
    Fail(Error),
    /// Try again after this many seconds.
    WaitSeconds(u64),
    /// Try again after this many milliseconds.
    WaitMillis(u64),
}

/// Two to the power of `n`.
pub open spec fn pow2(n: nat) -> nat
    decreases n,
{
    if n == 0 {
        1
    } else {
        2 * pow2((n - 1) as nat)
    }
}

/// The wait before the attempt after `retries` failed ones: the base wait
/// doubled for each, but no more than the cap.
pub open spec fn backoff(base: u64, cap: u64, retries: u32) -> u64 {
    if base * pow2(retries as nat) <= cap {
        (base * pow2(retries as nat)) as u64
    } else {
        cap
    }
}

/// Whether an error is one after which another attempt is made.
pub open spec fn is_transient(e: Error) -> bool {
    match e {
        Error::HttpError(f) => f.connect || f.timeout,
        Error::ApiServerError(_) => true,
        Error::ApiRateLimitError(_) => true,
        _ => false,
    }
}

/// The message of the error that ends the attempts.
pub open spec fn gave_up(retries: u32, last: Seq<char>) -> Seq<char> {
    "Failed after "@ + decimal(retries as nat) + " retries. Last error: "@ + last
}

/// The wait before the attempt after `retries` failed ones.
pub fn backoff_delay(base: u64, cap: u64, retries: u32) -> (r: u64)
    ensures
        r == backoff(base, cap, retries),
{
    let mut delay: u64 = if base <= cap {
        base
    } else {
        cap
    };
    let mut i: u32 = 0;
    assert(base * pow2(0) == base) by (nonlinear_arith)
        requires
            pow2(0) == 1,
    ;
    while i < retries
        invariant
            i <= retries,
            delay == backoff(base, cap, i),
        decreases retries - i,
    {
        proof {
            let p = pow2(i as nat);
            assert(pow2((i + 1) as nat) == 2 * p);
            assert(base * (2 * p) == 2 * (base * p)) by (nonlinear_arith);
        }
        if delay <= cap / 2 {
            delay = delay * 2;
        } else {
            delay = cap;
        }
        i += 1;
    }
    delay
}

impl Mixpanel {
    /// What to do after an attempt has failed with `err`, `retries` failed
    /// attempts having gone before: give up once the configured number of
    /// retries is used up, or at once on an error that another attempt
    /// would not mend; else wait, as long as a rate limit says, or for the
    /// base wait doubled with each retry up to the cap.
    pub fn retry_decision(&self, retries: u32, err: Error) -> (r: RetryDecision)
        ensures
            retries >= self.config.max_retries ==> r is Fail && r->Fail_0@
                == ErrorView::MaxRetriesReached(gave_up(retries, err.message_view())),
            retries < self.config.max_retries && !is_transient(err) ==> r is Fail && r->Fail_0
                == err,
            retries < self.config.max_retries && is_transient(err) ==> (match err {
                Error::ApiRateLimitError(Some(secs)) => r == RetryDecision::WaitSeconds(secs),
                _ => r == RetryDecision::WaitMillis(
                    backoff(
                        self.config.retry_base_delay_ms,
                        self.config.retry_max_delay_ms,
                        retries,
                    ),
                ),
            }),
    {
        if retries >= self.config.max_retries {
            let last = err.message();
            let mut m = joined("Failed after ", decimal_string(retries as u64).as_str());
            m.append(" retries. Last error: ");
            m.append(last.as_str());
            return RetryDecision::Fail(Error::MaxRetriesReached(m));
        }
        let should_retry = match &err {
            Error::HttpError(f) => f.connect || f.timeout,
            Error::ApiServerError(_) => true,
            Error::ApiRateLimitError(_) => true,
            _ => false,
        };
        if !should_retry {
            return RetryDecision::Fail(err);
        }
        match err {
            Error::ApiRateLimitError(Some(retry_after)) => RetryDecision::WaitSeconds(retry_after),
            _ => RetryDecision::WaitMillis(
                backoff_delay(
                    self.config.retry_base_delay_ms,
                    self.config.retry_max_delay_ms,
                    retries,
                ),
            ),
        }
    }

    /// The address that the paths of the endpoints are appended to.
    pub fn base_url(&self) -> (r: String)
        ensures
            r@ == base_address(self.config),
    {
        let r = joined3(self.config.protocol.as_str(), "://", self.config.host.as_str());
        joined(r.as_str(), self.config.path.as_str())
    }

    /// The request that carries an encoded payload to `endpoint` as the
    /// configuration says. The payload goes in the query of a GET and in the
    /// body of a POST. `credentials` is the secret with its colon, encoded,
    /// where there is a secret.
    pub fn frame_request(
        &self,
        method: HttpMethod,
        endpoint: &str,
        encoded_data: String,
        credentials: Option<String>,
    ) -> (r: HttpRequest)
        ensures
            framed(
                r,
                self.config,
                method,
                endpoint@,
                encoded_data@,
                match credentials {
                    Some(c) => Some(c@),
                    None => None,
                },
            ),
    {
        let mut query: Vec<(String, String)> = Vec::new();
        query.push(("ip".to_owned(), flag_text(self.config.geolocate)));
        query.push(("verbose".to_owned(), flag_text(self.config.verbose)));
        let mut content_type: Option<String> = None;
        let mut body: Option<String> = None;
        match method {
            HttpMethod::Get => {
                query.push(("data".to_owned(), encoded_data));
            },
            HttpMethod::Post => {
                content_type = Some("application/x-www-form-urlencoded".to_owned());
                body = Some(joined("data=", encoded_data.as_str()));
            },
        }
        if self.config.test {
            query.push(("test".to_owned(), "1".to_owned()));
        }
        let authorization = match credentials {
            Some(c) => Some(joined("Basic ", c.as_str())),
            None => None,
        };
        proof {
            assert(query_view(query@) =~= query_pairs(
                self.config.geolocate,
                self.config.verbose,
                self.config.test,
                method,
                encoded_data@,
            ));
        }
        HttpRequest {
            method,
            base_url: self.base_url(),
            endpoint: relative_endpoint(endpoint),
            query,
            content_type,
            body,
            authorization,
        }
    }

    /// The request that carries `data_json`, the payload as JSON text, to
    /// `endpoint`. The payload goes base64-encoded: in the query of a GET,
    /// in the body of a POST. A payload too long to encode is an error; so
    /// is a base address that is none or too long; and so, after these, is
    /// any other method.
    pub fn prepare_request(&self, method: &str, endpoint: &str, data_json: &str) -> (r: Result<
        HttpRequest,
        Error,
    >)
        ensures
            too_long(self.config, data_json@) ==> r is Err && r->Err_0 is ApiPayloadTooLarge,
            !too_long(self.config, data_json@) ==> match start_address(
                base_address(self.config),
                relative(endpoint@),
            ) {
                AddressView::TooLong => r is Err && r->Err_0 is ApiPayloadTooLarge,
                AddressView::Bad(e) => r is Err && r->Err_0@ == ErrorView::UrlError(e),
                AddressView::Text(_) => match method_of(method@) {
                    Some(m) => r is Ok && prepared(
                        r->Ok_0,
                        self.config,
                        m,
                        endpoint@,
                        base64_standard(data_json.spec_bytes()),
                    ),
                    None => r is Err && r->Err_0@ == ErrorView::ApiClientError(
                        0,
                        "Unsupported HTTP method: "@ + method@,
                    ),
                },
            },
    {
        let bytes = data_json.as_bytes();
        if bytes.len() > MAX_ENCODED_INPUT {
            return Err(Error::ApiPayloadTooLarge);
        }
        let encoded_data = base64_encode(bytes);
        let credentials = match &self.config.secret {
            Some(secret) => {
                let credentials = joined(secret.as_str(), ":");
                let bytes = credentials.as_str().as_bytes();
                if bytes.len() > MAX_ENCODED_INPUT {
                    return Err(Error::ApiPayloadTooLarge);
                }
                Some(base64_encode(bytes))
            },
            None => None,
        };
        let base = self.base_url();
        let path = relative_endpoint(endpoint);
        match start_of_address(base.as_str(), path.as_str()) {
            Address::Text(_) => {},
            Address::Bad(e) => {
                return Err(Error::UrlError(e));
            },
            Address::TooLong => {
                return Err(Error::ApiPayloadTooLarge);
            },
        }
        let upper = to_uppercase(method);
        match method_from_upper(upper.as_str()) {
            Some(http_method) => Ok(
                self.frame_request(http_method, endpoint, encoded_data, credentials),
            ),
            None => Err(Error::ApiClientError(0, joined("Unsupported HTTP method: ", method))),
        }
    }

    /// The address of a request as text: the base address with the endpoint
    /// appended to its path and the pairs as its query; or the error that
    /// says why it is no address, or that it is too long.
    pub fn request_url(request: &HttpRequest) -> (r: Result<String, Error>)
        ensures
            match with_pairs(
                start_address(request.base_url@, request.endpoint@),
                query_view(request.query@),
            ) {
                AddressView::Text(u) => r is Ok && r->Ok_0@ == u,
                AddressView::Bad(e) => r is Err && r->Err_0@ == ErrorView::UrlError(e),
                AddressView::TooLong => r is Err && r->Err_0 is ApiPayloadTooLarge,
            },
    {
        let ghost pairs = query_view(request.query@);
        let ghost start = start_address(request.base_url@, request.endpoint@);
        let mut url = match start_of_address(
            request.base_url.as_str(),
            request.endpoint.as_str(),
        ) {
            Address::Text(u) => u,
            Address::Bad(e) => {
                proof {
                    lemma_no_address_stays(start, pairs);
                }
                return Err(Error::UrlError(e));
            },
            Address::TooLong => {
                proof {
                    lemma_no_address_stays(start, pairs);
                }
                return Err(Error::ApiPayloadTooLarge);
            },
        };
        let n = request.query.len();
        let mut i: usize = 0;
        proof {
            assert(pairs.take(0) =~= Seq::<PairView>::empty());
        }
        while i < n
            invariant
                i <= n,
                n == request.query.len(),
                pairs == query_view(request.query@),
                start == start_address(request.base_url@, request.endpoint@),
                with_pairs(start, pairs.take(i as int)) == AddressView::Text(url@),
            decreases n - i,
        {
            proof {
                assert(pairs.take(i + 1).drop_last() =~= pairs.take(i as int));
                assert(pairs.take(i + 1).last() == pairs[i as int]);
                assert(with_pairs(start, pairs.take(i + 1)) == with_pair(
                    AddressView::Text(url@),
                    pairs[i as int],
                ));
            }
            match address_with_pair(
                url.as_str(),
                request.query[i].0.as_str(),
                request.query[i].1.as_str(),
            ) {
                Address::Text(u) => {
                    url = u;
                },
                Address::Bad(e) => {
                    proof {
                        lemma_no_address_grows(start, pairs, i + 1);
                    }
                    return Err(Error::UrlError(e));
                },
                Address::TooLong => {
                    proof {
                        lemma_no_address_grows(start, pairs, i + 1);
                    }
                    return Err(Error::ApiPayloadTooLarge);
                },
            }
            i += 1;
        }
        proof {
            assert(pairs.take(n as int) =~= pairs);
        }
        Ok(url)
    }

    /// Whether the body of an answer with this status counts for what the
    /// answer means: it does not where the status alone says that the
    /// payload was too large, that the rate is limited, or that the server
    /// failed.
    pub fn body_counts(status: u16) -> (r: bool)
        ensures
            r == reads_body(status),
    {
        (200 <= status && status < 300) || !(status == 413 || status == 429 || status >= 500)
    }

    /// What an answer means: success, or the error that it stands for.
    /// `retry_after` is the header of that name, where the answer has
    /// one. `parsed` is the body as JSON, or why it is none; it counts only
    /// for an answer to a verbose request that succeeded.
    pub fn classify_response(
        &self,
        status: u16,
        body: &str,
        retry_after: Option<&str>,
        parsed: Result<Value, String>,
    ) -> (r: Result<(), Error>)
        ensures
            match response_error(
                self.config.verbose,
                status,
                body@,
                match retry_after {
                    Some(s) => Some(s@),
                    None => None,
                },
                match parsed {
                    Ok(v) => Ok(v@),
                    Err(e) => Err(e@),
                },
            ) {
                Some(e) => r is Err && r->Err_0@ == e,
                None => r is Ok,
            },
    {
        if 200 <= status && status < 300 {
            if self.config.verbose {
                match parsed {
                    Ok(json) => {
                        let fields = match json {
                            Value::Object(members) => {
                                proof {
                                    crate::json::lemma_object_view(members);
                                }
                                PropertyMap::from_members(members)
                            },
                            _ => PropertyMap::new(),
                        };
                        let api_status = match fields.get("status") {
                            Some(v) => v.as_u64(),
                            None => None,
                        };
                        match api_status {
                            Some(api_status) => {
                                if api_status != 1 {
                                    let message = match fields.get("error") {
                                        Some(v) => v.as_str(),
                                        None => None,
                                    };
                                    match message {
                                        Some(error_msg) => Err(
                                            Error::ApiClientError(status, error_msg.to_owned()),
                                        ),
                                        None => Err(
                                            Error::ApiUnexpectedResponse(
                                                joined("Response status was not 1: ", body),
                                            ),
                                        ),
                                    }
                                } else {
                                    Ok(())
                                }
                            },
                            None => Err(
                                Error::ApiUnexpectedResponse(
                                    joined("Response missing status: ", body),
                                ),
                            ),
                        }
                    },
                    Err(e) => Err(Error::JsonError(e)),
                }
            } else if !str_eq(body, "1") {
                Err(Error::ApiUnexpectedResponse(body.to_owned()))
            } else {
                Ok(())
            }
        } else if status == 413 {
            Err(Error::ApiPayloadTooLarge)
        } else if status == 429 {
            let after = match retry_after {
                Some(s) => parse_u64(s),
                None => None,
            };
            Err(Error::ApiRateLimitError(after))
        } else if status >= 500 {
            Err(Error::ApiServerError(status))
        } else if status >= 400 {
            Err(Error::ApiClientError(status, body.to_owned()))
        } else {
            Err(Error::ApiHttpError(status, body.to_owned()))
        }
    }

    /// The events with what every event carries, in batches of at most
    /// [`MAX_BATCH_SIZE`], each to be sent with POST.
    pub fn track_batch(&self, events: Vec<Event>) -> (batches: Vec<Vec<Event>>)
        ensures
            batches.len() == (events.len() + MAX_BATCH_SIZE - 1) / (MAX_BATCH_SIZE as int),
            forall|b: int|
                0 <= b < batches.len() ==> batches[b].len() == batch_len(events.len() as int, b),
            forall|b: int, i: int|
                0 <= b < batches.len() && 0 <= i < batches[b].len() ==> (#[trigger] batches[b][i])@
                    == stamped_event(events[MAX_BATCH_SIZE * b + i]@, self.token@),
    {
        let mut batches: Vec<Vec<Event>> = Vec::new();
        let mut current: Vec<Event> = Vec::new();
        let ghost n = events.len() as int;
        for event in it: events
            invariant
                it.seq() == events@,
                n == events.len(),
                current.len() < MAX_BATCH_SIZE,
                it.index() == MAX_BATCH_SIZE * batches.len() + current.len(),
                forall|b: int| 0 <= b < batches.len() ==> batches[b].len() == MAX_BATCH_SIZE,
                forall|b: int, i: int|
                    0 <= b < batches.len() && 0 <= i < batches[b].len() ==> (
                    #[trigger] batches[b][i])@ == stamped_event(
                        events[MAX_BATCH_SIZE * b + i]@,
                        self.token@,
                    ),
                forall|i: int|
                    0 <= i < current.len() ==> (#[trigger] current[i])@ == stamped_event(
                        events[MAX_BATCH_SIZE * batches.len() + i]@,
                        self.token@,
                    ),
        {
            let mut props = event.properties;
            self.stamp(&mut props);
            current.push(Event { event: event.event, properties: props });
            if current.len() == MAX_BATCH_SIZE {
                let mut full: Vec<Event> = Vec::new();
                std::mem::swap(&mut full, &mut current);
                batches.push(full);
            }
        }
        if current.len() > 0 {
            batches.push(current);
        }
        batches
    }
}

/// An event with what every event carries.
pub open spec fn stamped_event(e: EventView, token: Seq<char>) -> EventView {
    EventView { event: e.event, properties: stamped(e.properties, token) }
}

/// The number of events in batch `b` of `n` events.
pub open spec fn batch_len(n: int, b: int) -> int {
    if n - MAX_BATCH_SIZE * b >= MAX_BATCH_SIZE {
        MAX_BATCH_SIZE as int
    } else {
        n - MAX_BATCH_SIZE * b
    }
}

/// A field of the body of a verbose answer.
pub open spec fn field(json: ValueView, name: Seq<char>) -> Option<ValueView> {
    if object_map(json).contains_key(name) {
        Some(object_map(json)[name])
    } else {
        None
    }
}

/// The error that an answer stands for; none for success. An answer to a
/// verbose request succeeds where its body is JSON with the status 1; to
/// any other request, where its body is `1`.
pub open spec fn response_error(
    verbose: bool,
    status: u16,
    body: Seq<char>,
    retry_after: Option<Seq<char>>,
    parsed: Result<ValueView, Seq<char>>,
) -> Option<ErrorView> {
    if is_success(status) {
        if verbose {
            match parsed {
                Ok(json) => {
                    let api_status = match field(json, "status"@) {
                        Some(v) => v.as_u64(),
                        None => None,
                    };
                    let message = match field(json, "error"@) {
                        Some(v) => v.as_str(),
                        None => None,
                    };
                    match api_status {
                        Some(api_status) => if api_status != 1 {
                            match message {
                                Some(m) => Some(ErrorView::ApiClientError(status, m)),
                                None => Some(
                                    ErrorView::ApiUnexpectedResponse(
                                        "Response status was not 1: "@ + body,
                                    ),
                                ),
                            }
                        } else {
                            None
                        },
                        None => Some(
                            ErrorView::ApiUnexpectedResponse("Response missing status: "@ + body),
                        ),
                    }
                },
                Err(e) => Some(ErrorView::JsonError(e)),
            }
        } else if body != "1"@ {
            Some(ErrorView::ApiUnexpectedResponse(body))
        } else {
            None
        }
    } else if status == 413 {
        Some(ErrorView::ApiPayloadTooLarge)
    } else if status == 429 {
        Some(
            ErrorView::ApiRateLimitError(
                match retry_after {
                    Some(s) => parsed_u64(s),
                    None => None,
                },
            ),
        )
    } else if status >= 500 {
        Some(ErrorView::ApiServerError(status))
    } else if status >= 400 {
        Some(ErrorView::ApiClientError(status, body))
    } else {
        Some(ErrorView::ApiHttpError(status, body))
    }
}

/// Whether the payload, or the secret with its colon, is too long to
/// encode.
pub open spec fn too_long(config: Config, data_json: Seq<char>) -> bool {
    crate::text::utf8(data_json).len() > MAX_ENCODED_INPUT || (config.secret is Some
        && crate::text::utf8(config.secret->Some_0@ + ":"@).len() > MAX_ENCODED_INPUT)
}

/// The base address of a configuration.
pub open spec fn base_address(config: Config) -> Seq<char> {
    config.protocol@ + "://"@ + config.host@ + config.path@
}

/// Whether a request is the one that carries the encoded payload to the
/// endpoint as the configuration says, with the given encoded credentials.
pub open spec fn framed(
    r: HttpRequest,
    config: Config,
    method: HttpMethod,
    endpoint: Seq<char>,
    encoded: Seq<char>,
    credentials: Option<Seq<char>>,
) -> bool {
    &&& r.method == method
    &&& r.base_url@ == base_address(config)
    &&& r.endpoint@ == relative(endpoint)
    &&& query_view(r.query@) == query_pairs(
        config.geolocate,
        config.verbose,
        config.test,
        method,
        encoded,
    )
    &&& match method {
        HttpMethod::Get => r.content_type is None && r.body is None,
        HttpMethod::Post => r.content_type is Some && r.content_type->Some_0@
            == "application/x-www-form-urlencoded"@ && r.body is Some && r.body->Some_0@ == "data="@
            + encoded,
    }
    &&& match credentials {
        Some(c) => r.authorization is Some && r.authorization->Some_0@ == "Basic "@ + c,
        None => r.authorization is None,
    }
}

/// Whether a request is the one that carries the encoded payload to the
/// endpoint as the configuration says, with the secret of the
/// configuration as its credentials.
pub open spec fn prepared(
    r: HttpRequest,
    config: Config,
    method: HttpMethod,
    endpoint: Seq<char>,
    encoded: Seq<char>,
) -> bool {
    framed(
        r,
        config,
        method,
        endpoint,
        encoded,
        match config.secret {
            Some(secret) => Some(base64_standard(crate::text::utf8(secret@ + ":"@))),
            None => None,
        },
    )
}

/// An address in the making: its text, why it is none, or that it is too
/// long to be worked on.
#[derive(Debug)]
pub enum Address {
    Text(String),
    Bad(String),
    TooLong,
}

/// The mathematical content of an [`Address`].
pub enum AddressView {
    Text(Seq<char>),
    Bad(Seq<char>),
    TooLong,
}

impl View for Address {
    type V = AddressView;

    open spec fn view(&self) -> AddressView {
        match self {
            Address::Text(u) => AddressView::Text(u@),
            Address::Bad(e) => AddressView::Bad(e@),
            Address::TooLong => AddressView::TooLong,
        }
    }
}

/// Whether a string takes no more than `limit` bytes.
pub open spec fn fits(s: Seq<char>, limit: usize) -> bool {
    crate::text::utf8(s).len() <= limit
}

/// The base address with the endpoint appended to its path: the path
/// that is read in the base, followed by the endpoint, is set as the path.
pub open spec fn start_address(base: Seq<char>, endpoint: Seq<char>) -> AddressView {
    if !fits(base, MAX_ADDRESS_PART) || !fits(endpoint, MAX_ADDRESS_PART) {
        AddressView::TooLong
    } else {
        match parsed_path(base) {
            Ok(path) => if !fits(path + endpoint, MAX_PATH) {
                AddressView::TooLong
            } else {
                match url_with_path(base, path + endpoint) {
                    Ok(u) => AddressView::Text(u),
                    Err(e) => AddressView::Bad(e),
                }
            },
            Err(e) => AddressView::Bad(e),
        }
    }
}

/// The address with one more pair in its query.
pub open spec fn with_pair(address: AddressView, pair: PairView) -> AddressView {
    match address {
        AddressView::Text(u) => if !fits(u, MAX_ADDRESS) || !fits(pair.name, MAX_QUERY_PART)
            || !fits(pair.value, MAX_QUERY_PART) {
            AddressView::TooLong
        } else {
            match url_with_pair(u, pair.name, pair.value) {
                Ok(v) => AddressView::Text(v),
                Err(e) => AddressView::Bad(e),
            }
        },
        other => other,
    }
}

/// The address after the pairs have been appended to its query, one after
/// the other.
pub open spec fn with_pairs(address: AddressView, pairs: Seq<PairView>) -> AddressView
    decreases pairs.len(),
{
    if pairs.len() == 0 {
        address
    } else {
        with_pair(with_pairs(address, pairs.drop_last()), pairs.last())
    }
}

/// What is no address stays none, whatever is appended.
pub proof fn lemma_no_address_stays(address: AddressView, pairs: Seq<PairView>)
    requires
        !(address is Text),
    ensures
        with_pairs(address, pairs) == address,
    decreases pairs.len(),
{
    if pairs.len() > 0 {
        lemma_no_address_stays(address, pairs.drop_last());
    }
}

/// Where appending the first `i` pairs gives no address, appending all of
/// them gives none in the same way.
pub proof fn lemma_no_address_grows(address: AddressView, pairs: Seq<PairView>, i: int)
    requires
        0 <= i <= pairs.len(),
        !(with_pairs(address, pairs.take(i)) is Text),
    ensures
        with_pairs(address, pairs) == with_pairs(address, pairs.take(i)),
    decreases pairs.len() - i,
{
    if i == pairs.len() {
        assert(pairs.take(i) =~= pairs);
    } else {
        assert(pairs.take(i + 1).drop_last() =~= pairs.take(i));
        lemma_no_address_grows(address, pairs, i + 1);
    }
}

/// The base address with the endpoint appended to its path.
pub fn start_of_address(base: &str, endpoint: &str) -> (r: Address)
    ensures
        r@ == start_address(base@, endpoint@),
{
    if base.as_bytes().len() > MAX_ADDRESS_PART || endpoint.as_bytes().len() > MAX_ADDRESS_PART {
        return Address::TooLong;
    }
    let path = match url_path(base) {
        Ok(p) => joined(p.as_str(), endpoint),
        Err(e) => {
            return Address::Bad(e);
        },
    };
    if path.as_str().as_bytes().len() > MAX_PATH {
        return Address::TooLong;
    }
    match url_set_path(base, path.as_str()) {
        Ok(u) => Address::Text(u),
        Err(e) => Address::Bad(e),
    }
}

/// The address with one more pair in its query.
pub fn address_with_pair(url: &str, name: &str, value: &str) -> (r: Address)
    ensures
        r@ == with_pair(AddressView::Text(url@), PairView { name: name@, value: value@ }),
{
    if url.as_bytes().len() > MAX_ADDRESS || name.as_bytes().len() > MAX_QUERY_PART
        || value.as_bytes().len() > MAX_QUERY_PART {
        return Address::TooLong;
    }
    match url_append_pair(url, name, value) {
        Ok(u) => Address::Text(u),
        Err(e) => Address::Bad(e),
    }
}

/// Whether the body of an answer with this status counts for what the
/// answer means.
pub open spec fn reads_body(status: u16) -> bool {
    is_success(status) || !(status == 413 || status == 429 || status >= 500)
}

/// The method that an upper-case name stands for.
pub open spec fn method_named(upper: Seq<char>) -> Option<HttpMethod> {
    if upper == "GET"@ {
        Some(HttpMethod::Get)
    } else if upper == "POST"@ {
        Some(HttpMethod::Post)
    } else {
        None
    }
}

/// The method that an upper-case name stands for: `GET` or `POST`, and no
/// other.
pub fn method_from_upper(upper: &str) -> (r: Option<HttpMethod>)
    ensures
        r == method_named(upper@),
{
    if str_eq(upper, "GET") {
        Some(HttpMethod::Get)
    } else if str_eq(upper, "POST") {
        Some(HttpMethod::Post)
    } else {
        None
    }
}

/// The flag `1` or `0`.
pub fn flag_text(b: bool) -> (r: String)
    ensures
        r@ == flag(b),
{
    if b {
        "1".to_owned()
    } else {
        "0".to_owned()
    }
}

/// The endpoint without the slash that it may begin with.
pub fn relative_endpoint(endpoint: &str) -> (r: String)
    ensures
        r@ == relative(endpoint@),
{
    if str_starts_with(endpoint, "/") {
        proof {
            reveal_strlit("/");
        }
        let n = endpoint.unicode_len();
        endpoint.substring_char(1, n).to_owned()
    } else {
        endpoint.to_owned()
    }
}

} // verus!
