//! Information on the request that an envelope came with.
use crate::dsn::{Dsn, DsnView};
use crate::views::{opt_str, opt_view};
use std::time::Instant;
use vstd::prelude::*;

verus! {

/// Declares `std::time::Instant`, a point in time that is only carried along.
#[verifier::external_type_specification]
#[verifier::external_body]
pub struct ExInstant(Instant);

/// `Instant::now`: the current time. Nothing is said of which it is.
pub assume_specification[ Instant::now ]() -> Instant
;

/// The protocol version of a request that does not state one.
pub const DEFAULT_VERSION: u16 = 7;

/// What the headers of a request or an envelope say of the request.
pub struct MetaView {
    /// The address of the project.
    pub dsn: Option<DsnView>,
    /// The client that sent the request.
    pub client: Option<Seq<char>>,
    /// The protocol version that the client uses.
    pub version: u16,
    /// The origin of the request.
    pub origin: Option<Seq<char>>,
    /// The address that the request came from.
    pub remote_addr: Option<Seq<char>>,
    /// The addresses that the request was forwarded for.
    pub forwarded_for: Seq<char>,
    /// The user agent that sent the request.
    pub user_agent: Option<Seq<char>>,
}

/// Request information as far as an envelope's headers state it.
#[derive(Debug)]
pub struct PartialMeta {
    /// The address of the project.
    pub dsn: Option<Dsn>,
    /// The client that sent the request.
    pub client: Option<String>,
    /// The protocol version that the client uses.
    pub version: u16,
    /// The origin of the request.
    pub origin: Option<String>,
    /// The address that the request came from.
    pub remote_addr: Option<String>,
    /// The addresses that the request was forwarded for.
    pub forwarded_for: String,
    /// The user agent that sent the request.
    pub user_agent: Option<String>,
}

impl View for PartialMeta {
    type V = MetaView;

    open spec fn view(&self) -> MetaView {
        MetaView {
            dsn: opt_view(self.dsn),
            client: opt_view(self.client),
            version: self.version,
            origin: opt_view(self.origin),
            remote_addr: opt_view(self.remote_addr),
            forwarded_for: self.forwarded_for@,
            user_agent: opt_view(self.user_agent),
        }
    }
}

/// Information on a request.
#[derive(Debug)]
pub struct RequestMeta {
    /// The address of the project.
    pub dsn: Dsn,
    /// The client that sent the request.
    pub client: Option<String>,
    /// The protocol version that the client uses.
    pub version: u16,
    /// The origin of the request.
    pub origin: Option<String>,
    /// The address that the request came from.
    pub remote_addr: Option<String>,
    /// The addresses that the request was forwarded for.
    pub forwarded_for: String,
    /// The user agent that sent the request.
    pub user_agent: Option<String>,
    /// When handling the request started. This does not stand in any header.
    pub start_time: Instant,
}

/// What a [`RequestMeta`] stands for.
pub struct RequestMetaView {
    /// What headers say of the request.
    pub fields: MetaView,
    /// When handling the request started.
    pub start_time: Instant,
}

impl View for RequestMeta {
    type V = RequestMetaView;

    open spec fn view(&self) -> RequestMetaView {
        RequestMetaView {
            fields: MetaView {
                dsn: Some(self.dsn@),
                client: opt_view(self.client),
                version: self.version,
                origin: opt_view(self.origin),
                remote_addr: opt_view(self.remote_addr),
                forwarded_for: self.forwarded_for@,
                user_agent: opt_view(self.user_agent),
            },
            start_time: self.start_time,
        }
    }
}

/// What is stated in `partial`, and otherwise what `complete` says. The address of the project is
/// that of `complete`.
pub open spec fn copied_to(partial: MetaView, complete: MetaView) -> MetaView {
    MetaView {
        dsn: complete.dsn,
        client: if partial.client is Some {
            partial.client
        } else {
            complete.client
        },
        version: if partial.version != DEFAULT_VERSION {
            partial.version
        } else {
            complete.version
        },
        origin: if partial.origin is Some {
            partial.origin
        } else {
            complete.origin
        },
        remote_addr: if partial.remote_addr is Some {
            partial.remote_addr
        } else {
            complete.remote_addr
        },
        forwarded_for: if partial.forwarded_for.len() > 0 {
            partial.forwarded_for
        } else {
            complete.forwarded_for
        },
        user_agent: if partial.user_agent is Some {
            partial.user_agent
        } else {
            complete.user_agent
        },
    }
}

impl PartialMeta {
    /// Copies what is stated here into `complete`, except for the DSN, which the caller validates.
    pub fn copy_to(self, complete: RequestMeta) -> (r: RequestMeta)
        ensures
            r@.fields == copied_to(self@, complete@.fields),
            r@.start_time == complete@.start_time,
    {
        let mut complete = complete;
        if self.client.is_some() {
            complete.client = self.client;
        }
        if self.version != DEFAULT_VERSION {
            complete.version = self.version;
        }
        if self.origin.is_some() {
            complete.origin = self.origin;
        }
        if self.remote_addr.is_some() {
            complete.remote_addr = self.remote_addr;
        }
        if !self.forwarded_for.as_str().is_empty() {
            complete.forwarded_for = self.forwarded_for;
        }
        if self.user_agent.is_some() {
            complete.user_agent = self.user_agent;
        }
        complete
    }

    /// Turns the information into that of a request which started at `start_time`, if it states
    /// the address of the project.
    pub fn into_request(self, start_time: Instant) -> (r: Option<RequestMeta>)
        ensures
            match r {
                Some(meta) => self@.dsn is Some && meta@.fields == self@ && meta@.start_time
                    == start_time,
                None => self@.dsn is None,
            },
    {
        match self.dsn {
            None => None,
            Some(dsn) => Some(
                RequestMeta {
                    dsn,
                    client: self.client,
                    version: self.version,
                    origin: self.origin,
                    remote_addr: self.remote_addr,
                    forwarded_for: self.forwarded_for,
                    user_agent: self.user_agent,
                    start_time,
                },
            ),
        }
    }
}

impl RequestMeta {
    /// The address of the project.
    pub fn dsn(&self) -> (r: &Dsn)
        ensures
            Some(r@) == self@.fields.dsn,
    {
        &self.dsn
    }

    /// The project id in the address of the project.
    pub fn project_id(&self) -> (r: Option<u64>)
        ensures
            self@.fields.dsn matches Some(dsn) && r == dsn.project_id,
    {
        self.dsn.project_id()
    }

    /// The public key in the address of the project.
    pub fn public_key(&self) -> (r: &str)
        ensures
            self@.fields.dsn matches Some(dsn) && r@ == dsn.public_key,
    {
        self.dsn.public_key()
    }

    /// The client that sent the request.
    pub fn client(&self) -> (r: Option<&str>)
        ensures
            opt_view(r) == self@.fields.client,
    {
        opt_str(&self.client)
    }

    /// The protocol version that the client uses.
    pub fn version(&self) -> (r: u16)
        ensures
            r == self@.fields.version,
    {
        self.version
    }

    /// The origin of the request.
    pub fn origin(&self) -> (r: Option<&str>)
        ensures
            opt_view(r) == self@.fields.origin,
    {
        opt_str(&self.origin)
    }

    /// The address that the request came from.
    pub fn remote_addr(&self) -> (r: Option<&str>)
        ensures
            opt_view(r) == self@.fields.remote_addr,
    {
        opt_str(&self.remote_addr)
    }

    /// The addresses that the request was forwarded for.
    pub fn forwarded_for(&self) -> (r: &str)
        ensures
            r@ == self@.fields.forwarded_for,
    {
        self.forwarded_for.as_str()
    }

    /// The user agent that sent the request.
    pub fn user_agent(&self) -> (r: Option<&str>)
        ensures
            opt_view(r) == self@.fields.user_agent,
    {
        opt_str(&self.user_agent)
    }

    /// When handling the request started.
    pub fn start_time(&self) -> (r: Instant)
        ensures
            r == self@.start_time,
    {
        self.start_time
    }

    /// Sets when handling the request started.
    pub fn set_start_time(&mut self, start_time: Instant)
        ensures
            final(self)@ == (RequestMetaView { start_time, ..old(self)@ }),
    {
        self.start_time = start_time;
    }
}

impl Clone for PartialMeta {
    fn clone(&self) -> (r: Self)
        ensures
            r@ == self@,
    {
        PartialMeta {
            dsn: match &self.dsn {
                Some(dsn) => Some(dsn.clone()),
                None => None,
            },
            client: self.client.clone(),
            version: self.version,
            origin: self.origin.clone(),
            remote_addr: self.remote_addr.clone(),
            forwarded_for: self.forwarded_for.clone(),
            user_agent: self.user_agent.clone(),
        }
    }
}

impl Clone for RequestMeta {
    fn clone(&self) -> (r: Self)
        ensures
            r@ == self@,
    {
        RequestMeta {
            dsn: self.dsn.clone(),
            client: self.client.clone(),
            version: self.version,
            origin: self.origin.clone(),
            remote_addr: self.remote_addr.clone(),
            forwarded_for: self.forwarded_for.clone(),
            user_agent: self.user_agent.clone(),
            start_time: self.start_time,
        }
    }
}

} // verus!
