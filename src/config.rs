//! The routing document handed to the reverse proxy: routers, services, and the
//! load-balancing targets behind each service.
use vstd::prelude::*;

use crate::labels::keys_distinct;

verus! {

/// One backend a load balancer forwards to.
#[derive(Debug, PartialEq, Eq)]
pub struct ServerConfig {
    pub url: String,
    pub weight: u32,
    pub preserve_path: bool,
}

/// Mathematical model of a [`ServerConfig`].
pub struct ServerView {
    pub url: Seq<char>,
    pub weight: u32,
    pub preserve_path: bool,
}

impl DeepView for ServerConfig {
    type V = ServerView;

    open spec fn deep_view(&self) -> ServerView {
        ServerView { url: self.url@, weight: self.weight, preserve_path: self.preserve_path }
    }
}

/// A load balancer over a list of backends.
#[derive(Debug, PartialEq, Eq)]
pub struct LoadBalancerConfig {
    pub servers: Vec<ServerConfig>,
}

/// A service a router forwards to. Load balancing is the one kind of service
/// that container labels give rise to.
#[derive(Debug, PartialEq, Eq)]
pub enum ServiceConfig {
    LoadBalancer(LoadBalancerConfig),
}

/// Mathematical model of a [`ServiceConfig`].
pub enum ServiceView {
    LoadBalancer(Seq<ServerView>),
}

impl DeepView for ServiceConfig {
    type V = ServiceView;

    open spec fn deep_view(&self) -> ServiceView {
        match self {
            ServiceConfig::LoadBalancer(lb) => ServiceView::LoadBalancer(lb.servers.deep_view()),
        }
    }
}

/// A router: requests that match `rule` on one of `entry_points` go to the
/// service named `service`, through `middlewares` in order.
#[derive(Debug, PartialEq, Eq)]
pub struct RouterConfig {
    pub entry_points: Vec<String>,
    pub middlewares: Vec<String>,
    pub service: String,
    pub rule: String,
}

/// Mathematical model of a [`RouterConfig`].
pub struct RouterView {
    pub entry_points: Seq<Seq<char>>,
    pub middlewares: Seq<Seq<char>>,
    pub service: Seq<char>,
    pub rule: Seq<char>,
}

impl DeepView for RouterConfig {
    type V = RouterView;

    open spec fn deep_view(&self) -> RouterView {
        RouterView {
            entry_points: self.entry_points.deep_view(),
            middlewares: self.middlewares.deep_view(),
            service: self.service@,
            rule: self.rule@,
        }
    }
}

/// The HTTP section of the document: routers and services, each keyed by its
/// generated name. The middleware section is always empty and has no entries
/// to hold here.
#[derive(Debug, PartialEq, Eq)]
pub struct HttpConfig {
    pub routers: Vec<(String, RouterConfig)>,
    pub services: Vec<(String, ServiceConfig)>,
}

/// Mathematical model of an [`HttpConfig`]: association lists keyed by
/// generated name.
pub struct HttpView {
    pub routers: Seq<(Seq<char>, RouterView)>,
    pub services: Seq<(Seq<char>, ServiceView)>,
}

impl HttpView {
    /// Each router name and each service name is bound once.
    pub open spec fn well_formed(self) -> bool {
        keys_distinct(self.routers) && keys_distinct(self.services)
    }
}

impl DeepView for HttpConfig {
    type V = HttpView;

    open spec fn deep_view(&self) -> HttpView {
        HttpView { routers: self.routers.deep_view(), services: self.services.deep_view() }
    }
}

/// The whole dynamic configuration document.
#[derive(Debug, PartialEq, Eq)]
pub struct TraefikConfig {
    pub http: Option<HttpConfig>,
}

} // verus!
