//! Read-through caching over the backend and the key store, and write
//! pass-through. Each flow is a state machine: it is told what came of the
//! last action and answers with the next one; whoever drives it performs the
//! storage and network work.
use vstd::prelude::*;

use crate::backend::{build_request, BackendConfig, CoreError, Method, RemoteRequest};
use crate::naming::opt_view;
use crate::store::{lookup, MemoryStore};

verus! {

/// Where a read-through stands.
#[derive(Clone, Copy, Debug, PartialEq, Eq, Structural)]
pub enum ReadStage {
    CheckCache,
    FetchRemote,
    StoreCache,
    Done,
    Failed,
}

/// What the driver of a flow has to do next.
pub enum ProxyAction {
    /// Look up the key in the store and report with `on_cache_read`.
    ReadCache(String),
    /// Send the flow's request and report with `on_response`.
    Send,
    /// Store the value under the key and report with `on_cache_written`.
    WriteCache(String, String),
    /// The flow is over, with this result for the caller.
    Finish(Result<String, CoreError>),
}

impl ProxyAction {
    /// Whether the action reads or writes the key store.
    pub open spec fn touches_store(&self) -> bool {
        self is ReadCache || self is WriteCache
    }

    /// The action ends the flow with `text`.
    pub open spec fn finishes_with(&self, text: Seq<char>) -> bool {
        self matches ProxyAction::Finish(Ok(t)) && t@ == text
    }

    /// The action ends the flow with a backend error carrying `message`.
    pub open spec fn fails_with(&self, message: Seq<char>) -> bool {
        self matches ProxyAction::Finish(Err(CoreError::Backend(m))) && m@ == message
    }
}

impl ProxyAction {
    /// The result that a finishing action hands to the caller.
    pub fn into_result(self) -> (r: Result<String, CoreError>)
        requires
            self is Finish,
        ensures
            self == ProxyAction::Finish(r),
    {
        match self {
            ProxyAction::Finish(r) => r,
            _ => {
                proof {
                    assert(false);
                }
                Err(CoreError::Backend(String::new()))
            }
        }
    }
}

/// A read-through of one endpoint, optionally cached under a key.
pub struct ReadThrough {
    pub request: RemoteRequest,
    pub cache_key: Option<String>,
    pub stage: ReadStage,
    /// The fetched body, while it is being stored.
    pub fetched: Option<String>,
}

impl ReadThrough {
    /// Starts a read-through of `endpoint`: with a key, the store is asked
    /// first; without one, the backend is.
    pub fn start(config: &BackendConfig, endpoint: &str, token: &str, cache_key: Option<String>) -> (r: (
        ReadThrough,
        ProxyAction,
    ))
        ensures
            r.0.request.is_request(config, Method::Get, endpoint@, None, token@),
            r.0.cache_key == cache_key,
            r.0.fetched is None,
            match cache_key {
                Some(k) => r.0.stage == ReadStage::CheckCache && (r.1 matches ProxyAction::ReadCache(
                    c,
                ) && c@ == k@),
                None => r.0.stage == ReadStage::FetchRemote && r.1 is Send,
            },
    {
        let request = build_request(config, Method::Get, endpoint, None, token);
        match cache_key {
            Some(k) => {
                let lookup = k.clone();
                (
                    ReadThrough {
                        request,
                        cache_key: Some(k),
                        stage: ReadStage::CheckCache,
                        fetched: None,
                    },
                    ProxyAction::ReadCache(lookup),
                )
            },
            None => (
                ReadThrough {
                    request,
                    cache_key: None,
                    stage: ReadStage::FetchRemote,
                    fetched: None,
                },
                ProxyAction::Send,
            ),
        }
    }

    /// The store answered the lookup: a stored value is returned as it is,
    /// and the backend is not asked; on a miss the backend is asked; a
    /// failed read of the store ends the flow with that storage error.
    pub fn on_cache_read(self, outcome: Result<Option<String>, String>) -> (r: (
        ReadThrough,
        ProxyAction,
    ))
        requires
            self.stage == ReadStage::CheckCache,
        ensures
            r.0.request == self.request,
            r.0.cache_key == self.cache_key,
            match outcome {
                Ok(Some(v)) => r.0.stage == ReadStage::Done && r.1.finishes_with(v@),
                Ok(None) => r.0.stage == ReadStage::FetchRemote && r.1 is Send,
                Err(e) => r.0.stage == ReadStage::Failed && (r.1 matches ProxyAction::Finish(
                    Err(CoreError::StorageIo(m)),
                ) && m@ == e@),
            },
    {
        let ReadThrough { request, cache_key, stage: _, fetched } = self;
        match outcome {
            Ok(Some(v)) => (
                ReadThrough { request, cache_key, stage: ReadStage::Done, fetched },
                ProxyAction::Finish(Ok(v)),
            ),
            Ok(None) => (
                ReadThrough { request, cache_key, stage: ReadStage::FetchRemote, fetched },
                ProxyAction::Send,
            ),
            Err(e) => (
                ReadThrough { request, cache_key, stage: ReadStage::Failed, fetched },
                ProxyAction::Finish(Err(CoreError::StorageIo(e))),
            ),
        }
    }

    /// The backend answered: a body is stored under the key when there is
    /// one, else returned; a transport failure ends the flow with a backend
    /// error.
    pub fn on_response(self, outcome: Result<String, String>) -> (r: (ReadThrough, ProxyAction))
        requires
            self.stage == ReadStage::FetchRemote,
        ensures
            r.0.request == self.request,
            r.0.cache_key == self.cache_key,
            match outcome {
                Ok(text) => match self.cache_key {
                    Some(k) => {
                        &&& r.0.stage == ReadStage::StoreCache
                        &&& opt_view(r.0.fetched) == Some(text@)
                        &&& r.1 matches ProxyAction::WriteCache(ck, v) && ck@ == k@ && v@ == text@
                    },
                    None => r.0.stage == ReadStage::Done && r.1.finishes_with(text@),
                },
                Err(e) => r.0.stage == ReadStage::Failed && r.1.fails_with(e@),
            },
    {
        let ReadThrough { request, cache_key, stage: _, fetched } = self;
        match outcome {
            Ok(text) => match &cache_key {
                Some(k) => {
                    let key = k.clone();
                    let value = text.clone();
                    (
                        ReadThrough {
                            request,
                            cache_key,
                            stage: ReadStage::StoreCache,
                            fetched: Some(text),
                        },
                        ProxyAction::WriteCache(key, value),
                    )
                },
                None => (
                    ReadThrough { request, cache_key, stage: ReadStage::Done, fetched },
                    ProxyAction::Finish(Ok(text)),
                ),
            },
            Err(e) => (
                ReadThrough { request, cache_key, stage: ReadStage::Failed, fetched },
                ProxyAction::Finish(Err(CoreError::Backend(e))),
            ),
        }
    }

    /// The store has been written, or failed to be: either way the fetched
    /// body is returned.
    pub fn on_cache_written(self, outcome: Result<(), String>) -> (r: (ReadThrough, ProxyAction))
        requires
            self.stage == ReadStage::StoreCache,
            self.fetched is Some,
        ensures
            r.0.request == self.request,
            r.0.cache_key == self.cache_key,
            r.0.stage == ReadStage::Done,
            r.1.finishes_with(self.fetched->Some_0@),
    {
        let ReadThrough { request, cache_key, stage: _, fetched } = self;
        let text = fetched.unwrap();
        (
            ReadThrough { request, cache_key, stage: ReadStage::Done, fetched: None },
            ProxyAction::Finish(Ok(text)),
        )
    }
}

/// A write to the backend: it goes straight to the backend and never to the
/// key store.
pub struct WriteThrough {
    pub request: RemoteRequest,
}

impl WriteThrough {
    /// Starts a write of `body` to `endpoint` with `method`, one of POST,
    /// PATCH and DELETE.
    pub fn start(
        config: &BackendConfig,
        method: Method,
        endpoint: &str,
        body: Option<String>,
        token: &str,
    ) -> (r: (WriteThrough, ProxyAction))
        requires
            method != Method::Get,
        ensures
            r.0.request.is_request(config, method, endpoint@, opt_view(body), token@),
            r.1 is Send,
            !r.1.touches_store(),
    {
        let request = build_request(config, method, endpoint, body, token);
        (WriteThrough { request }, ProxyAction::Send)
    }

    /// The backend answered: its body is returned, a transport failure is
    /// reported as a backend error; nothing is queued or retried.
    pub fn on_response(self, outcome: Result<String, String>) -> (r: ProxyAction)
        ensures
            match outcome {
                Ok(text) => r.finishes_with(text@),
                Err(e) => r.fails_with(e@),
            },
            !r.touches_store(),
    {
        match outcome {
            Ok(text) => ProxyAction::Finish(Ok(text)),
            Err(e) => ProxyAction::Finish(Err(CoreError::Backend(e))),
        }
    }
}

/// The store already holds a value for the cache key.
pub open spec fn is_hit(store: Map<Seq<char>, Seq<char>>, cache_key: Option<String>) -> bool {
    cache_key matches Some(k) && store.contains_key(k@)
}

/// A read-through that missed the store and fetched `text` leaves `text`
/// for the next read of the key.
pub proof fn law_miss_then_get(
    before: Map<Seq<char>, Seq<char>>,
    after: Map<Seq<char>, Seq<char>>,
    key: String,
    text: String,
)
    requires
        !is_hit(before, Some(key)),
        after == before.insert(key@, text@),
    ensures
        lookup(after, key@) == Some(text@),
{
}

/// Runs a read-through against an in-memory store; `answer` stands for what
/// the backend replies if it is asked. Returns the caller's result and
/// whether the backend was asked.
pub fn read_through_with(
    store: &mut MemoryStore,
    config: &BackendConfig,
    endpoint: &str,
    token: &str,
    cache_key: Option<String>,
    answer: Result<String, String>,
) -> (r: (Result<String, CoreError>, bool))
    requires
        old(store).wf(),
        cache_key matches Some(k) ==> k@.len() > 0,
    ensures
        final(store).wf(),
        if is_hit(old(store)@, cache_key) {
            &&& !r.1
            &&& r.0 matches Ok(t) && t@ == old(store)@[cache_key->Some_0@]
            &&& final(store)@ == old(store)@
        } else {
            &&& r.1
            &&& match answer {
                Ok(y) => {
                    &&& r.0 matches Ok(t) && t@ == y@
                    &&& final(store)@ == match cache_key {
                        Some(k) => old(store)@.insert(k@, y@),
                        None => old(store)@,
                    }
                },
                Err(e) => {
                    &&& r.0 matches Err(CoreError::Backend(m)) && m@ == e@
                    &&& final(store)@ == old(store)@
                },
            }
        },
{
    let (flow, action) = ReadThrough::start(config, endpoint, token, cache_key);
    let (flow, action) = match action {
        ProxyAction::ReadCache(k) => {
            let found = store.get(k.as_str());
            flow.on_cache_read(Ok(found))
        },
        other => (flow, other),
    };
    let mut asked = false;
    let (flow, action) = match action {
        ProxyAction::Send => {
            asked = true;
            flow.on_response(answer)
        },
        other => (flow, other),
    };
    let (_flow, action) = match action {
        ProxyAction::WriteCache(k, v) => {
            store.put(k.as_str(), v.as_str());
            flow.on_cache_written(Ok(()))
        },
        other => (flow, other),
    };
    (action.into_result(), asked)
}

} // verus!
