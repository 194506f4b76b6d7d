use vstd::prelude::*;

use crate::query::QueryBuilder;

verus! {

/// The ureq HTTP agent that carries the authenticated session cookie.
#[verifier::external_type_specification]
#[verifier::external_body]
pub struct ExAgent(ureq::Agent);

/// Root address of the Space-Track service.
pub const BASE_URL: &'static str = "https://www.space-track.org";

/// An authenticated session: the service's base address and the transport
/// that holds the login. It is never changed after construction and is shared
/// by reference among the queries built on it.
#[derive(Debug)]
pub struct SpaceTrackClient {
    base_url: String,
    agent: ureq::Agent,
}

impl SpaceTrackClient {
    /// The base address that every query URL starts with.
    pub closed spec fn base_address(&self) -> Seq<char> {
        self.base_url@
    }

    /// Binds an authenticated agent to a base address.
    pub fn new(base_url: &str, agent: ureq::Agent) -> (r: Self)
        ensures
            r.base_address() == base_url@,
    {
        SpaceTrackClient { base_url: String::from_str(base_url), agent }
    }

    pub fn base_url(&self) -> (r: &str)
        ensures
            r@ == self.base_address(),
    {
        self.base_url.as_str()
    }

    /// The transport through which queries are sent.
    pub fn agent(&self) -> &ureq::Agent {
        &self.agent
    }

    /// A fresh builder for `class` under the collection group `controller`,
    /// with no clauses and the default format.
    pub fn query_builder<'a, T>(&'a self, controller: &'static str, class: &'static str) -> (r:
        QueryBuilder<'a, T>)
        ensures
            r@.base == self.base_address(),
            r@.group == controller@,
            r@.class == class@,
            r@.clauses == Seq::<Seq<char>>::empty(),
            r@.format == crate::format::Format::Json,
    {
        QueryBuilder::new(self, controller, class)
    }
}

} // verus!
