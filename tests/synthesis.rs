use traefik_exposer::config::{
    HttpConfig, LoadBalancerConfig, RouterConfig, ServerConfig, ServiceConfig, TraefikConfig,
};
use traefik_exposer::container::ContainerInfo;
use traefik_exposer::synth::route_for_container;

fn s(x: &str) -> String {
    x.to_string()
}

fn label(k: &str, v: &str) -> (String, String) {
    (format!("kasama.traefik-exposer.{}", k), s(v))
}

fn container(name: &str, ip: &str, labels: Vec<(String, String)>) -> ContainerInfo {
    ContainerInfo::new(s(name), s(ip), labels)
}

fn http(cfg: &TraefikConfig) -> &HttpConfig {
    cfg.http.as_ref().expect("the http section is always present")
}

fn server_urls(service: &ServiceConfig) -> Vec<String> {
    match service {
        ServiceConfig::LoadBalancer(lb) => lb.servers.iter().map(|x| x.url.clone()).collect(),
    }
}

#[test]
fn single_enabled_container_end_to_end() {
    let cs = vec![container(
        "web",
        "10.0.0.5",
        vec![label("enabled", "true"), label("rule", "Host(`a.com`)")],
    )];
    let cfg = TraefikConfig::from_containers(&cs);
    let h = http(&cfg);
    assert_eq!(h.routers.len(), 1);
    assert_eq!(h.services.len(), 1);
    assert_eq!(h.routers[0].0, "web-router");
    assert_eq!(
        h.routers[0].1,
        RouterConfig {
            entry_points: vec![s("http")],
            middlewares: vec![],
            service: s("web-service"),
            rule: s("Host(`a.com`)"),
        }
    );
    assert_eq!(h.services[0].0, "web-service");
    assert_eq!(
        h.services[0].1,
        ServiceConfig::LoadBalancer(LoadBalancerConfig {
            servers: vec![ServerConfig {
                url: s("http://10.0.0.5:80"),
                weight: 1,
                preserve_path: true,
            }],
        })
    );
}

#[test]
fn disabled_container_yields_empty_maps() {
    let cs = vec![container(
        "web",
        "10.0.0.5",
        vec![
            label("enabled", "false"),
            label("rule", "Host(`a.com`)"),
            label("port", "8080"),
            label("entrypoints", "web,websecure"),
        ],
    )];
    let cfg = TraefikConfig::from_containers(&cs);
    let h = http(&cfg);
    assert!(h.routers.is_empty());
    assert!(h.services.is_empty());
}

#[test]
fn missing_enabled_label_is_skipped() {
    let cs = vec![container("api", "10.0.0.6", vec![label("rule", "Host(`b.com`)")])];
    let cfg = TraefikConfig::from_containers(&cs);
    assert!(http(&cfg).routers.is_empty());
    assert!(http(&cfg).services.is_empty());
}

#[test]
fn enabled_needs_exact_lowercase_true() {
    for v in ["True", "TRUE", "1", "yes", "true "] {
        let c = container("web", "10.0.0.5", vec![label("enabled", v), label("rule", "Host(`a.com`)")]);
        assert!(route_for_container(&c).is_none(), "value {:?} must not enable", v);
    }
}

#[test]
fn enabled_without_rule_is_skipped() {
    let missing = container("web", "10.0.0.5", vec![label("enabled", "true")]);
    let empty = container("api", "10.0.0.6", vec![label("enabled", "true"), label("rule", "")]);
    assert!(route_for_container(&missing).is_none());
    assert!(route_for_container(&empty).is_none());
    let cfg = TraefikConfig::from_containers(&vec![missing, empty]);
    assert!(http(&cfg).routers.is_empty());
    assert!(http(&cfg).services.is_empty());
}

#[test]
fn port_and_entrypoints_labels_are_used() {
    let c = container(
        "shop",
        "172.17.0.3",
        vec![
            label("enabled", "true"),
            label("rule", "PathPrefix(`/shop`)"),
            label("port", "8080"),
            label("entrypoints", "web,websecure"),
        ],
    );
    let route = route_for_container(&c).expect("exposed");
    assert_eq!(route.router_name, "shop-router");
    assert_eq!(route.service_name, "shop-service");
    assert_eq!(route.router.service, "shop-service");
    assert_eq!(route.router.entry_points, vec![s("web"), s("websecure")]);
    assert_eq!(server_urls(&route.service), vec![s("http://172.17.0.3:8080")]);
}

#[test]
fn entrypoints_keep_empty_pieces() {
    let c = container(
        "a",
        "1.2.3.4",
        vec![label("enabled", "true"), label("rule", "r"), label("entrypoints", "web,,x,")],
    );
    let route = route_for_container(&c).expect("exposed");
    assert_eq!(route.router.entry_points, vec![s("web"), s(""), s("x"), s("")]);
    let c = container(
        "b",
        "1.2.3.4",
        vec![label("enabled", "true"), label("rule", "r"), label("entrypoints", "")],
    );
    let route = route_for_container(&c).expect("exposed");
    assert_eq!(route.router.entry_points, vec![s("")]);
}

#[test]
fn defaults_for_port_and_entrypoints() {
    let c = container("svc", "", vec![label("enabled", "true"), label("rule", "Host(`x`)")]);
    let route = route_for_container(&c).expect("exposed");
    assert_eq!(route.router.entry_points, vec![s("http")]);
    assert_eq!(server_urls(&route.service), vec![s("http://:80")]);
    assert!(route.router.middlewares.is_empty());
}

#[test]
fn generated_names_follow_container_names() {
    let cs = vec![
        container("alpha", "10.0.0.1", vec![label("enabled", "true"), label("rule", "Host(`a`)")]),
        container("beta", "10.0.0.2", vec![label("enabled", "false"), label("rule", "Host(`b`)")]),
        container("gamma", "10.0.0.3", vec![label("enabled", "true"), label("rule", "Host(`c`)")]),
    ];
    let cfg = TraefikConfig::from_containers(&cs);
    let h = http(&cfg);
    let routers: Vec<&str> = h.routers.iter().map(|(k, _)| k.as_str()).collect();
    let services: Vec<&str> = h.services.iter().map(|(k, _)| k.as_str()).collect();
    assert_eq!(routers, vec!["alpha-router", "gamma-router"]);
    assert_eq!(services, vec!["alpha-service", "gamma-service"]);
    for (name, router) in &h.routers {
        let base = name.strip_suffix("-router").unwrap();
        assert_eq!(router.service, format!("{}-service", base));
    }
}

#[test]
fn same_name_later_container_replaces_entry() {
    let cs = vec![
        container("web", "10.0.0.1", vec![label("enabled", "true"), label("rule", "Host(`a`)")]),
        container("web", "10.0.0.2", vec![label("enabled", "true"), label("rule", "Host(`b`)")]),
    ];
    let cfg = TraefikConfig::from_containers(&cs);
    let h = http(&cfg);
    assert_eq!(h.routers.len(), 1);
    assert_eq!(h.routers[0].1.rule, "Host(`b`)");
    assert_eq!(server_urls(&h.services[0].1), vec![s("http://10.0.0.2:80")]);
}

#[test]
fn synthesis_twice_gives_identical_output() {
    let cs = vec![
        container(
            "web",
            "10.0.0.5",
            vec![label("enabled", "true"), label("rule", "Host(`a.com`)"), label("port", "3000")],
        ),
        container("db", "10.0.0.9", vec![label("enabled", "false")]),
        container("api", "10.0.0.7", vec![label("enabled", "true"), label("rule", "Host(`b.com`)")]),
    ];
    let first = TraefikConfig::from_containers(&cs);
    let second = TraefikConfig::from_containers(&cs);
    assert_eq!(first, second);
    assert_eq!(format!("{:?}", first), format!("{:?}", second));
}

#[test]
fn empty_snapshot_gives_empty_sections() {
    let cfg = TraefikConfig::from_containers(&vec![]);
    assert!(http(&cfg).routers.is_empty());
    assert!(http(&cfg).services.is_empty());
}
