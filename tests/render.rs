use compose_render::{
    needs_quoting, parse_compose, Command, Compose, ComposeError, Dependency, Environment,
    Extension, Label, Network, Policy, Port, Service, Volume,
};

fn s(v: &str) -> String {
    v.to_string()
}

fn service(name: &str, image: &str) -> Service {
    Service {
        image: s(image),
        container_name: s(name),
        ports: vec![],
        volumes: vec![],
        networks: vec![],
        depends_on: vec![],
        restart: Policy { condition: s("") },
        environments: vec![],
        command: Command { value: s("") },
        labels: vec![],
    }
}

fn document(services: Vec<Service>) -> Compose {
    Compose {
        version: Some(s("3.8")),
        services,
        volumes: vec![],
        networks: vec![],
        environments: vec![],
        extensions: vec![],
    }
}

fn render_ok(c: Compose) -> String {
    match parse_compose(c) {
        Ok(text) => text,
        Err(e) => panic!("unexpected error {:?}", e),
    }
}

#[test]
fn single_web_service_exact_output() {
    let mut web = service("web", "nginx");
    web.ports.push(Port { host: s("80"), container: s("80") });
    let text = render_ok(document(vec![web]));
    let expected = "version: 3.8\n\
services:\n\
\x20 web:\n\
\x20   image: nginx\n\
\x20   container_name: web\n\
\x20   ports:\n\
\x20     - 80:80\n\
\x20   volumes:\n\
volumes:\n\
networks:\n";
    assert_eq!(text, expected);
}

#[test]
fn full_service_exact_output() {
    let mut db = service("mysql", "mysql");
    db.ports.push(Port { host: s("3306"), container: s("3306") });
    db.volumes.push(Volume { title: s("./mysql"), driver: s("/var/lib/mysql") });
    db.networks.push(Network { driver: s("web"), external: false });
    db.environments.push(Environment { title: s("MYSQL_ROOT_PASSWORD"), value: s("123456") });
    db.restart = Policy { condition: s("always") };
    db.command = Command { value: s("mysqld") };
    db.labels.push(Label { key: s("com.example.description"), value: s("db") });
    db.depends_on.push(Dependency { service: s("cache") });
    let mut c = document(vec![db, service("cache", "redis")]);
    c.volumes.push(Volume { title: s("data"), driver: s("local") });
    c.networks.push(Network { driver: s("web"), external: true });
    c.networks.push(Network { driver: s("back"), external: false });
    let text = render_ok(c);
    let expected = "version: 3.8\n\
services:\n\
\x20 mysql:\n\
\x20   image: mysql\n\
\x20   container_name: mysql\n\
\x20   ports:\n\
\x20     - 3306:3306\n\
\x20   volumes:\n\
\x20     - ./mysql:/var/lib/mysql\n\
\x20   depends_on:\n\
\x20     - cache\n\
\x20   restart: always\n\
\x20   command: mysqld\n\
\x20   labels:\n\
\x20     - com.example.description=db\n\
\x20   environment:\n\
\x20     - MYSQL_ROOT_PASSWORD=123456\n\
\x20   networks:\n\
\x20     - web\n\
\x20 cache:\n\
\x20   image: redis\n\
\x20   container_name: cache\n\
\x20   ports:\n\
\x20   volumes:\n\
volumes:\n\
\x20 data:\n\
\x20   driver: local\n\
networks:\n\
\x20 web:\n\
\x20   external: true\n\
\x20 back:\n\
\x20   external: false\n";
    assert_eq!(text, expected);
}

#[test]
fn rendering_twice_gives_identical_text() {
    let mut web = service("web", "nginx");
    web.labels.push(Label { key: s("a"), value: s("b: c") });
    let c = document(vec![web, service("db", "postgres")]);
    let first = render_ok(c.clone());
    let second = render_ok(c);
    assert_eq!(first, second);
}

#[test]
fn order_of_every_list_is_kept() {
    let mut web = service("web", "nginx");
    web.ports.push(Port { host: s("8080"), container: s("80") });
    web.ports.push(Port { host: s("8443"), container: s("443") });
    web.labels.push(Label { key: s("z"), value: s("1") });
    web.labels.push(Label { key: s("a"), value: s("2") });
    web.environments.push(Environment { title: s("B"), value: s("1") });
    web.environments.push(Environment { title: s("A"), value: s("2") });
    web.depends_on.push(Dependency { service: s("zeta") });
    web.depends_on.push(Dependency { service: s("alpha") });
    let mut c = document(vec![service("zeta", "z"), web, service("alpha", "a")]);
    c.volumes.push(Volume { title: s("vz"), driver: s("local") });
    c.volumes.push(Volume { title: s("va"), driver: s("local") });
    c.networks.push(Network { driver: s("nz"), external: false });
    c.networks.push(Network { driver: s("na"), external: true });
    let text = render_ok(c);
    let pos = |needle: &str| text.find(needle).expect(needle);
    assert!(pos("  zeta:\n") < pos("  web:\n"));
    assert!(pos("  web:\n") < pos("  alpha:\n"));
    assert!(pos("- 8080:80") < pos("- 8443:443"));
    assert!(pos("- z=1") < pos("- a=2"));
    assert!(pos("- B=1") < pos("- A=2"));
    assert!(pos("      - zeta\n") < pos("      - alpha\n"));
    assert!(pos("  vz:\n") < pos("  va:\n"));
    assert!(pos("  nz:\n") < pos("  na:\n"));
}

#[test]
fn empty_dependencies_omit_header_but_empty_ports_keep_it() {
    let text = render_ok(document(vec![service("web", "nginx")]));
    assert!(!text.contains("depends_on:"));
    assert!(text.contains("    ports:\n    volumes:\n"));
    for header in ["restart:", "command:", "labels:", "environment:", "networks:\n  "] {
        assert!(!text.contains(header), "{}", header);
    }
}

#[test]
fn empty_restart_policy_omits_restart_line() {
    let mut web = service("web", "nginx");
    web.command = Command { value: s("run") };
    let text = render_ok(document(vec![web]));
    assert!(!text.contains("restart"));
    assert!(text.contains("    command: run\n"));
}

#[test]
fn scalar_fields_appear_on_their_lines() {
    let mut web = service("web", "nginx:1.25");
    web.restart = Policy { condition: s("on-failure") };
    web.command = Command { value: s("nginx -g 'daemon off;'") };
    let mut c = document(vec![web]);
    c.version = Some(s("3.9"));
    let text = render_ok(c);
    assert!(text.starts_with("version: 3.9\n"));
    assert!(text.contains("    image: nginx:1.25\n"));
    assert!(text.contains("    container_name: web\n"));
    assert!(text.contains("    restart: on-failure\n"));
    assert!(text.contains("    command: nginx -g 'daemon off;'\n"));
}

#[test]
fn label_with_colon_space_is_quoted() {
    let mut web = service("web", "nginx");
    web.labels.push(Label { key: s("key"), value: s("a: b") });
    let text = render_ok(document(vec![web]));
    assert!(text.contains("    labels:\n      - \"key=a: b\"\n"));
}

#[test]
fn special_characters_are_escaped_inside_quotes() {
    let mut web = service("web", "nginx");
    web.command = Command { value: s("echo \"hi\"\nexit \\") };
    web.environments.push(Environment { title: s("TAB"), value: s("a\tb #c") });
    let mut c = document(vec![web]);
    c.volumes.push(Volume { title: s("data"), driver: s("") });
    c.networks.push(Network { driver: s("-edge"), external: false });
    let text = render_ok(c);
    assert!(text.contains("    command: \"echo \\\"hi\\\"\\nexit \\\\\"\n"));
    assert!(text.contains("      - \"TAB=a\\tb #c\"\n"));
    assert!(text.contains("  data:\n    driver: \"\"\n"));
    assert!(text.contains("  \"-edge\":\n    external: false\n"));
}

#[test]
fn quoting_decisions() {
    assert!(needs_quoting(""));
    assert!(needs_quoting("a: b"));
    assert!(needs_quoting("a #b"));
    assert!(needs_quoting("line\nbreak"));
    assert!(needs_quoting("-x"));
    assert!(needs_quoting("*alias"));
    assert!(needs_quoting(" lead"));
    assert!(needs_quoting("trail:"));
    assert!(needs_quoting("trail "));
    assert!(!needs_quoting("80:80"));
    assert!(!needs_quoting("a#b"));
    assert!(!needs_quoting("./mysql:/var/lib/mysql"));
    assert!(!needs_quoting("traefik.http.routers.api.rule=Host(`x`)"));
}

#[test]
fn dangling_references_are_rendered_as_given() {
    let mut web = service("web", "nginx");
    web.depends_on.push(Dependency { service: s("missing") });
    web.networks.push(Network { driver: s("nowhere"), external: false });
    let text = render_ok(document(vec![web]));
    assert!(text.contains("    depends_on:\n      - missing\n"));
    assert!(text.contains("    networks:\n      - nowhere\n"));
}

#[test]
fn global_environment_and_extensions_are_not_rendered() {
    let mut c = document(vec![service("web", "nginx")]);
    c.environments.push(Environment { title: s("GLOBAL_KEY"), value: s("v") });
    c.extensions.push(Extension { title: s("hub.http.routers.hub.rule"), value: s("Host(`hub`)") });
    let text = render_ok(c);
    assert!(!text.contains("GLOBAL_KEY"));
    assert!(!text.contains("hub.http"));
}

#[test]
fn duplicate_service_names_are_rejected() {
    let c = document(vec![service("web", "nginx"), service("web", "httpd")]);
    assert_eq!(parse_compose(c).unwrap_err(), ComposeError::DuplicateName);
}

#[test]
fn duplicate_volume_and_network_names_are_rejected() {
    let mut c = document(vec![service("web", "nginx")]);
    c.volumes.push(Volume { title: s("data"), driver: s("local") });
    c.volumes.push(Volume { title: s("data"), driver: s("nfs") });
    assert_eq!(parse_compose(c).unwrap_err(), ComposeError::DuplicateName);
    let mut c = document(vec![service("web", "nginx")]);
    c.networks.push(Network { driver: s("web"), external: true });
    c.networks.push(Network { driver: s("web"), external: false });
    assert_eq!(parse_compose(c).unwrap_err(), ComposeError::DuplicateName);
}

#[test]
fn duplicate_names_are_reported_before_missing_fields() {
    let mut c = document(vec![service("web", ""), service("web", "httpd")]);
    c.version = None;
    assert_eq!(c.validate(), Err(ComposeError::DuplicateName));
}

#[test]
fn missing_version_is_an_error() {
    let mut c = document(vec![service("web", "nginx")]);
    c.version = None;
    assert_eq!(parse_compose(c).unwrap_err(), ComposeError::MissingRequiredField);
    let mut c = document(vec![service("web", "nginx")]);
    c.version = Some(s(""));
    assert_eq!(parse_compose(c).unwrap_err(), ComposeError::MissingRequiredField);
}

#[test]
fn missing_service_fields_are_errors() {
    let c = document(vec![service("web", "")]);
    assert_eq!(parse_compose(c).unwrap_err(), ComposeError::MissingRequiredField);
    let c = document(vec![service("", "nginx")]);
    assert_eq!(parse_compose(c).unwrap_err(), ComposeError::MissingRequiredField);
    let mut c = document(vec![]);
    c.volumes.push(Volume { title: s(""), driver: s("local") });
    assert_eq!(parse_compose(c).unwrap_err(), ComposeError::MissingRequiredField);
    let mut c = document(vec![]);
    c.networks.push(Network { driver: s(""), external: true });
    assert_eq!(parse_compose(c).unwrap_err(), ComposeError::MissingRequiredField);
}

#[test]
fn constructor_validates() {
    let ok = Compose::new(Some(s("3.8")), vec![service("web", "nginx")], vec![], vec![], vec![], vec![]);
    assert!(ok.is_ok());
    let dup = Compose::new(
        Some(s("3.8")),
        vec![service("a", "x"), service("a", "y")],
        vec![],
        vec![],
        vec![],
        vec![],
    );
    assert_eq!(dup.unwrap_err(), ComposeError::DuplicateName);
    let missing = Compose::new(None, vec![], vec![], vec![], vec![], vec![]);
    assert_eq!(missing.unwrap_err(), ComposeError::MissingRequiredField);
}

#[test]
fn empty_document_renders_headers_only() {
    let text = render_ok(document(vec![]));
    assert_eq!(text, "version: 3.8\nservices:\nvolumes:\nnetworks:\n");
}
