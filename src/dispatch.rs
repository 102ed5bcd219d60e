//! Completion of API requests: the in-flight counter and the routing of a
//! transport result to exactly one outcome, after the completion hook.

use vstd::prelude::*;

verus! {

/// Counts the requests in flight; the client is busy while it is not zero.
pub struct Loading {
    count: u64,
}

impl Loading {
    pub closed spec fn in_flight(&self) -> nat {
        self.count as nat
    }

    /// No request in flight.
    pub fn new() -> (r: Self)
        ensures
            r.in_flight() == 0,
    {
        Loading { count: 0 }
    }

    /// Counts one more request in flight.
    pub fn start_loading(&mut self)
        requires
            old(self).in_flight() < u64::MAX,
        ensures
            final(self).in_flight() == old(self).in_flight() + 1,
    {
        self.count = self.count + 1;
    }

    /// Counts one request fewer in flight (none stays none).
    pub fn loading_done(&mut self)
        ensures
            final(self).in_flight() == if old(self).in_flight() > 0 {
                (old(self).in_flight() - 1) as nat
            } else {
                0
            },
    {
        if self.count > 0 {
            self.count = self.count - 1;
        }
    }

    /// Whether any request is in flight.
    pub fn is_loading(&self) -> (r: bool)
        ensures
            r == (self.in_flight() > 0),
    {
        self.count > 0
    }

    /// How many requests are in flight.
    pub fn count(&self) -> (r: u64)
        ensures
            r as nat == self.in_flight(),
    {
        self.count
    }
}

/// What the server answered: its status, and its body when that is text.
pub struct HttpReply {
    pub status: u16,
    pub text: Option<String>,
}

/// Why a request failed.
pub enum ApiError {
    /// The request did not reach the server, or its answer was lost.
    Transport(String),
    /// A status other than 200; the message is the body, if any.
    Http { status: u16, message: String },
    /// Status 200, but the body was missing or of another shape.
    Decode(String),
}

pub enum ApiErrorView {
    Transport(Seq<char>),
    Http { status: u16, message: Seq<char> },
    Decode(Seq<char>),
}

impl View for ApiError {
    type V = ApiErrorView;

    open spec fn view(&self) -> ApiErrorView {
        match self {
            ApiError::Transport(m) => ApiErrorView::Transport(m@),
            ApiError::Http { status, message } => ApiErrorView::Http { status: *status, message: message@ },
            ApiError::Decode(m) => ApiErrorView::Decode(m@),
        }
    }
}

impl ApiError {
    /// The text shown to the user beside "Api request failed.".
    pub fn message(&self) -> (r: &String)
        ensures
            r@ == match self@ {
                ApiErrorView::Transport(m) => m,
                ApiErrorView::Http { message, .. } => message,
                ApiErrorView::Decode(m) => m,
            },
    {
        match self {
            ApiError::Transport(m) => m,
            ApiError::Http { message, .. } => message,
            ApiError::Decode(m) => m,
        }
    }
}

/// One call of a completion hook.
pub enum Hook<T> {
    /// Fired on every completion, before the outcome.
    Done,
    Success(T),
    Error(ApiError),
}

pub const EMPTY_BODY: &'static str = "Response was empty.";

pub const DECODE_FAILED: &'static str = "Could not decode Api response: ";

/// The body to decode, or the error that a reply stands for.
pub open spec fn checked(fetched: Result<HttpReply, String>) -> Result<String, ApiErrorView> {
    match fetched {
        Err(m) => Err(ApiErrorView::Transport(m@)),
        Ok(reply) => if reply.status != 200 {
            Err(
                ApiErrorView::Http {
                    status: reply.status,
                    message: match reply.text {
                        Some(t) => t@,
                        None => Seq::empty(),
                    },
                },
            )
        } else {
            match reply.text {
                Some(t) => Ok(t),
                None => Err(ApiErrorView::Decode(EMPTY_BODY@)),
            }
        },
    }
}

/// Classifies what the transport handed back: a failure of the transport, a
/// status other than 200, a missing body, or a body to decode.
pub fn check_reply(fetched: Result<HttpReply, String>) -> (r: Result<String, ApiError>)
    ensures
        match (r, checked(fetched)) {
            (Ok(t), Ok(u)) => t == u,
            (Err(e), Err(v)) => e@ == v,
            _ => false,
        },
{
    match fetched {
        Err(m) => Err(ApiError::Transport(m)),
        Ok(reply) => {
            if reply.status != 200 {
                let message = match reply.text {
                    Some(t) => t,
                    None => String::new(),
                };
                Err(ApiError::Http { status: reply.status, message })
            } else {
                match reply.text {
                    Some(t) => Ok(t),
                    None => Err(ApiError::Decode(String::from_str(EMPTY_BODY))),
                }
            }
        },
    }
}

/// `h` is the outcome of decoding `body` with `decode`.
pub open spec fn decoded_hook<T, F: Fn(&String) -> Result<T, String>>(decode: F, body: String, h: Hook<T>) -> bool {
    exists|d: Result<T, String>|
        #[trigger] decode.ensures((&body,), d) && match d {
            Ok(v) => h == Hook::<T>::Success(v),
            Err(m) => match h {
                Hook::Error(e) => e@ == ApiErrorView::Decode(DECODE_FAILED@ + m@),
                _ => false,
            },
        }
}

/// How many of the hooks in `h` are `Done`.
pub open spec fn count_done<T>(h: Seq<Hook<T>>) -> nat
    decreases h.len(),
{
    if h.len() == 0 {
        0
    } else {
        count_done(h.drop_last()) + if h.last() is Done {
            1nat
        } else {
            0nat
        }
    }
}

/// How many of the hooks in `h` are an outcome, `Success` or `Error`.
pub open spec fn count_outcomes<T>(h: Seq<Hook<T>>) -> nat
    decreases h.len(),
{
    if h.len() == 0 {
        0
    } else {
        count_outcomes(h.drop_last()) + if h.last() is Done {
            0nat
        } else {
            1nat
        }
    }
}

/// The hooks of a completion, `Done` and then one outcome, fire `Done`
/// exactly once and exactly one of `Success` and `Error`.
pub proof fn lemma_completion_fires_once<T>(h: Seq<Hook<T>>)
    requires
        h.len() == 2,
        h[0] is Done,
        !(h[1] is Done),
    ensures
        count_done(h) == 1,
        count_outcomes(h) == 1,
{
    let h1 = h.drop_last();
    let h0 = h1.drop_last();
    assert(h1.len() == 1);
    assert(h1.last() == h[0]);
    assert(h.last() == h[1]);
    assert(h0.len() == 0);
    assert(count_done(h0) == 0);
    assert(count_outcomes(h0) == 0);
    assert(count_done(h1) == 1);
    assert(count_outcomes(h1) == 0);
}

/// The hook for a body to decode.
fn decoded<T, F: Fn(&String) -> Result<T, String>>(decode: F, body: String) -> (h: Hook<T>)
    requires
        forall|s: &String| #[trigger] decode.requires((s,)),
    ensures
        decoded_hook(decode, body, h),
{
    let d = decode(&body);
    match d {
        Ok(v) => Hook::Success(v),
        Err(m) => {
            let message = String::from_str(DECODE_FAILED).concat(m.as_str());
            Hook::Error(ApiError::Decode(message))
        },
    }
}

/// Completes a request: counts it out of the in-flight counter and returns
/// the hooks to fire, in order. The first is always `Done`; the second is
/// the one outcome, `Success` with the decoded body or `Error`.
pub fn settle<T, F: Fn(&String) -> Result<T, String>>(
    loading: &mut Loading,
    fetched: Result<HttpReply, String>,
    decode: F,
) -> (r: Vec<Hook<T>>)
    requires
        forall|s: &String| #[trigger] decode.requires((s,)),
    ensures
        final(loading).in_flight() == if old(loading).in_flight() > 0 {
            (old(loading).in_flight() - 1) as nat
        } else {
            0
        },
        r@.len() == 2,
        r@[0] is Done,
        !(r@[1] is Done),
        count_done(r@) == 1,
        count_outcomes(r@) == 1,
        match checked(fetched) {
            Err(v) => match r@[1] {
                Hook::Error(e) => e@ == v,
                _ => false,
            },
            Ok(body) => decoded_hook(decode, body, r@[1]),
        },
{
    loading.loading_done();
    let mut hooks: Vec<Hook<T>> = Vec::new();
    hooks.push(Hook::Done);
    match check_reply(fetched) {
        Err(e) => hooks.push(Hook::Error(e)),
        Ok(body) => hooks.push(decoded(decode, body)),
    }
    proof {
        lemma_completion_fires_once(hooks@);
    }
    hooks
}

/// What a reply to an acknowledgement-only request stands for: success
/// with nothing to decode (status 200, no body or an empty one), a body to
/// decode, or an error.
pub open spec fn ack_checked(fetched: Result<HttpReply, String>) -> Result<Option<String>, ApiErrorView> {
    match fetched {
        Err(m) => Err(ApiErrorView::Transport(m@)),
        Ok(reply) => if reply.status != 200 {
            Err(
                ApiErrorView::Http {
                    status: reply.status,
                    message: match reply.text {
                        Some(t) => t@,
                        None => Seq::empty(),
                    },
                },
            )
        } else {
            match reply.text {
                Some(t) => if t@.len() == 0 {
                    Ok(None)
                } else {
                    Ok(Some(t))
                },
                None => Ok(None),
            }
        },
    }
}

/// Completes an acknowledgement-only request, as `settle` does, except that
/// a 200 reply with no body or an empty one is a success.
pub fn settle_ack<F: Fn(&String) -> Result<(), String>>(
    loading: &mut Loading,
    fetched: Result<HttpReply, String>,
    decode: F,
) -> (r: Vec<Hook<()>>)
    requires
        forall|s: &String| #[trigger] decode.requires((s,)),
    ensures
        final(loading).in_flight() == if old(loading).in_flight() > 0 {
            (old(loading).in_flight() - 1) as nat
        } else {
            0
        },
        r@.len() == 2,
        r@[0] is Done,
        !(r@[1] is Done),
        count_done(r@) == 1,
        count_outcomes(r@) == 1,
        match ack_checked(fetched) {
            Err(v) => match r@[1] {
                Hook::Error(e) => e@ == v,
                _ => false,
            },
            Ok(None) => r@[1] == Hook::<()>::Success(()),
            Ok(Some(body)) => decoded_hook(decode, body, r@[1]),
        },
{
    loading.loading_done();
    let mut hooks: Vec<Hook<()>> = Vec::new();
    hooks.push(Hook::Done);
    let ghost expected = ack_checked(fetched);
    match fetched {
        Err(m) => hooks.push(Hook::Error(ApiError::Transport(m))),
        Ok(reply) => {
            if reply.status != 200 {
                let message = match reply.text {
                    Some(t) => t,
                    None => String::new(),
                };
                hooks.push(Hook::Error(ApiError::Http { status: reply.status, message }));
            } else {
                match reply.text {
                    None => hooks.push(Hook::Success(())),
                    Some(t) => {
                        if t.as_str().unicode_len() == 0 {
                            hooks.push(Hook::Success(()));
                        } else {
                            hooks.push(decoded(decode, t));
                        }
                    },
                }
            }
        },
    }
    proof {
        lemma_completion_fires_once(hooks@);
    }
    hooks
}

} // verus!
