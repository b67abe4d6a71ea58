//! Translation of container labels into the routing document.
use vstd::prelude::*;

use crate::config::{
    HttpConfig, HttpView, LoadBalancerConfig, RouterConfig, RouterView, ServerConfig,
    ServerView, ServiceConfig, ServiceView, TraefikConfig,
};
use crate::container::{ContainerInfo, ContainerView};
use crate::labels::{
    get_label, key_of, label_key, lemma_with_entry_keeps_keys_distinct, lookup, put_entry,
    split_commas, split_on_commas, with_entry,
};

verus! {

/// Generated name of a container's router.
pub open spec fn router_name(name: Seq<char>) -> Seq<char> {
    name + "-router"@
}

/// Generated name of a container's service.
pub open spec fn service_name(name: Seq<char>) -> Seq<char> {
    name + "-service"@
}

/// The container asks to be exposed: its `enabled` label is exactly `true`.
pub open spec fn is_enabled(labels: Seq<(Seq<char>, Seq<char>)>) -> bool {
    lookup(labels, key_of("enabled"@)) == Some("true"@)
}

/// The match rule of the container's router; empty when the label is absent.
pub open spec fn rule_of(labels: Seq<(Seq<char>, Seq<char>)>) -> Seq<char> {
    match lookup(labels, key_of("rule"@)) {
        Some(r) => r,
        None => Seq::empty(),
    }
}

/// The backend port, `80` when the label is absent.
pub open spec fn port_of(labels: Seq<(Seq<char>, Seq<char>)>) -> Seq<char> {
    match lookup(labels, key_of("port"@)) {
        Some(p) => p,
        None => "80"@,
    }
}

/// The entry points, `http` alone when the label is absent.
pub open spec fn entry_points_of(labels: Seq<(Seq<char>, Seq<char>)>) -> Seq<Seq<char>> {
    match lookup(labels, key_of("entrypoints"@)) {
        Some(e) => split_commas(e),
        None => seq!["http"@],
    }
}

/// Address of the backend a container's service forwards to.
pub open spec fn backend_url(ip: Seq<char>, port: Seq<char>) -> Seq<char> {
    "http://"@ + ip + ":"@ + port
}

/// The container gets a router and a service: it is enabled and has a rule.
pub open spec fn is_exposed(c: ContainerView) -> bool {
    is_enabled(c.labels) && rule_of(c.labels).len() > 0
}

/// The router generated for an exposed container.
pub open spec fn router_for(c: ContainerView) -> RouterView {
    RouterView {
        entry_points: entry_points_of(c.labels),
        middlewares: Seq::empty(),
        service: service_name(c.name),
        rule: rule_of(c.labels),
    }
}

/// The service generated for an exposed container: one backend.
pub open spec fn service_for(c: ContainerView) -> ServiceView {
    ServiceView::LoadBalancer(
        seq![ServerView { url: backend_url(c.ip, port_of(c.labels)), weight: 1, preserve_path: true }],
    )
}

/// Routers and services of a list of containers, taken in order: each exposed
/// container binds its router and its service under their generated names.
pub open spec fn routing_of(cs: Seq<ContainerView>) -> HttpView
    decreases cs.len(),
{
    if cs.len() == 0 {
        HttpView { routers: Seq::empty(), services: Seq::empty() }
    } else {
        let prev = routing_of(cs.drop_last());
        let c = cs.last();
        if is_exposed(c) {
            HttpView {
                routers: with_entry(prev.routers, router_name(c.name), router_for(c)),
                services: with_entry(prev.services, service_name(c.name), service_for(c)),
            }
        } else {
            prev
        }
    }
}

/// The router and the service that one container contributes.
#[derive(Debug)]
pub struct ContainerRoute {
    pub router_name: String,
    pub router: RouterConfig,
    pub service_name: String,
    pub service: ServiceConfig,
}

/// What one container contributes to the document: nothing unless it is
/// enabled and has a non-empty rule.
pub fn route_for_container(c: &ContainerInfo) -> (r: Option<ContainerRoute>)
    ensures
        r is Some <==> is_exposed(c.deep_view()),
        r matches Some(route) ==> {
            &&& route.router_name@ == router_name(c.deep_view().name)
            &&& route.router.deep_view() == router_for(c.deep_view())
            &&& route.service_name@ == service_name(c.deep_view().name)
            &&& route.service.deep_view() == service_for(c.deep_view())
        },
{
    let labels = c.labels();
    let enabled = get_label(labels, &label_key("enabled"));
    match enabled {
        Some(v) => {
            if v != String::from_str("true") {
                return None;
            }
        },
        None => {
            return None;
        },
    }
    let rule = match get_label(labels, &label_key("rule")) {
        Some(r) => r,
        None => String::new(),
    };
    if rule.as_str().unicode_len() == 0 {
        return None;
    }
    let port = match get_label(labels, &label_key("port")) {
        Some(p) => p,
        None => String::from_str("80"),
    };
    let url = String::from_str("http://").concat(c.ip().as_str()).concat(":").concat(port.as_str());
    let server = ServerConfig { url, weight: 1, preserve_path: true };
    assert(server.deep_view() == (ServerView {
        url: backend_url(c.deep_view().ip, port_of(c.deep_view().labels)),
        weight: 1,
        preserve_path: true,
    }));
    let ghost server_view = server.deep_view();
    let mut servers: Vec<ServerConfig> = Vec::new();
    servers.push(server);
    assert(servers.deep_view() =~= seq![server_view]);
    let entry_points = match get_label(labels, &label_key("entrypoints")) {
        Some(e) => split_on_commas(e.as_str()),
        None => {
            let mut d: Vec<String> = Vec::new();
            d.push(String::from_str("http"));
            d
        },
    };
    let svc_name = c.name().clone().concat("-service");
    let router = RouterConfig {
        entry_points,
        middlewares: Vec::new(),
        service: svc_name.clone(),
        rule,
    };
    let route = ContainerRoute {
        router_name: c.name().clone().concat("-router"),
        router,
        service_name: svc_name,
        service: ServiceConfig::LoadBalancer(LoadBalancerConfig { servers }),
    };
    assert(route.router.entry_points.deep_view() =~= entry_points_of(c.deep_view().labels));
    assert(route.router.middlewares.deep_view() =~= Seq::<Seq<char>>::empty());
    Some(route)
}

/// The document binds every router name and every service name once.
pub proof fn lemma_routing_well_formed(cs: Seq<ContainerView>)
    ensures
        routing_of(cs).well_formed(),
    decreases cs.len(),
{
    if cs.len() > 0 {
        let prev = routing_of(cs.drop_last());
        let c = cs.last();
        lemma_routing_well_formed(cs.drop_last());
        lemma_with_entry_keeps_keys_distinct(prev.routers, router_name(c.name), router_for(c));
        lemma_with_entry_keeps_keys_distinct(prev.services, service_name(c.name), service_for(c));
    }
}

/// A container that is not exposed contributes nothing: the document for a
/// list is the document for the list without it, wherever it stands.
pub proof fn lemma_unexposed_contributes_nothing(cs: Seq<ContainerView>, i: int)
    requires
        0 <= i < cs.len(),
        !is_exposed(cs[i]),
    ensures
        routing_of(cs) == routing_of(cs.remove(i)),
    decreases cs.len(),
{
    if i == cs.len() - 1 {
        assert(cs.remove(i) =~= cs.drop_last());
    } else {
        lemma_unexposed_contributes_nothing(cs.drop_last(), i);
        assert(cs.remove(i).drop_last() =~= cs.drop_last().remove(i));
        assert(cs.remove(i).last() == cs.last());
    }
}

/// A container whose labels lack `enabled` = `true` produces neither a router
/// nor a service.
pub proof fn lemma_disabled_container_ignored(cs: Seq<ContainerView>, i: int)
    requires
        0 <= i < cs.len(),
        !is_enabled(cs[i].labels),
    ensures
        routing_of(cs) == routing_of(cs.remove(i)),
{
    lemma_unexposed_contributes_nothing(cs, i);
}

/// An enabled container whose rule label is missing or empty produces neither
/// a router nor a service.
pub proof fn lemma_ruleless_container_ignored(cs: Seq<ContainerView>, i: int)
    requires
        0 <= i < cs.len(),
        is_enabled(cs[i].labels),
        lookup(cs[i].labels, key_of("rule"@)) is None
            || lookup(cs[i].labels, key_of("rule"@)) == Some(Seq::<char>::empty()),
    ensures
        routing_of(cs) == routing_of(cs.remove(i)),
{
    lemma_unexposed_contributes_nothing(cs, i);
}

/// An exposed container gets a router named `<name>-router` and a service
/// named `<name>-service`, and its router forwards to exactly that service.
pub proof fn lemma_generated_names(cs: Seq<ContainerView>, c: ContainerView)
    requires
        is_exposed(c),
    ensures
        lookup(routing_of(cs.push(c)).routers, c.name + "-router"@) == Some(router_for(c)),
        lookup(routing_of(cs.push(c)).services, c.name + "-service"@) == Some(service_for(c)),
        router_for(c).service == c.name + "-service"@,
{
    let prev = routing_of(cs);
    assert(cs.push(c).drop_last() =~= cs);
    crate::labels::lemma_lookup_with_entry(prev.routers, router_name(c.name), router_for(c));
    crate::labels::lemma_lookup_with_entry(prev.services, service_name(c.name), service_for(c));
}

/// Without a `port` label the backend port is `80`; without an `entrypoints`
/// label the router listens on the `http` entry point alone.
pub proof fn lemma_defaults(c: ContainerView)
    ensures
        lookup(c.labels, key_of("port"@)) is None
            ==> service_for(c) == ServiceView::LoadBalancer(
                seq![ServerView { url: "http://"@ + c.ip + ":"@ + "80"@, weight: 1, preserve_path: true }],
            ),
        lookup(c.labels, key_of("entrypoints"@)) is None
            ==> router_for(c).entry_points == seq!["http"@],
{
}

impl TraefikConfig {
    /// The routing document for a list of containers. It depends on the list
    /// alone, so the same list always gives the same document.
    pub fn from_containers(cs: &Vec<ContainerInfo>) -> (r: TraefikConfig)
        ensures
            r.http.deep_view() == Some(routing_of(cs.deep_view())),
            routing_of(cs.deep_view()).well_formed(),
    {
        proof {
            lemma_routing_well_formed(cs.deep_view());
        }
        let ghost all = cs.deep_view();
        let mut routers: Vec<(String, RouterConfig)> = Vec::new();
        let mut services: Vec<(String, ServiceConfig)> = Vec::new();
        let mut i: usize = 0;
        proof {
            assert(all.take(0) =~= Seq::<ContainerView>::empty());
            assert(routers.deep_view() =~= Seq::empty());
            assert(services.deep_view() =~= Seq::empty());
        }
        while i < cs.len()
            invariant
                i <= cs.len(),
                all == cs.deep_view(),
                (HttpView { routers: routers.deep_view(), services: services.deep_view() })
                    == routing_of(all.take(i as int)),
            decreases cs.len() - i,
        {
            proof {
                assert(all.take(i + 1).drop_last() =~= all.take(i as int));
            }
            match route_for_container(&cs[i]) {
                Some(route) => {
                    put_entry(&mut services, route.service_name, route.service);
                    put_entry(&mut routers, route.router_name, route.router);
                },
                None => {},
            }
            i += 1;
        }
        proof {
            assert(all.take(i as int) =~= all);
        }
        TraefikConfig { http: Some(HttpConfig { routers, services }) }
    }
}

} // verus!
