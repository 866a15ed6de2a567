use shiplift::{Body, ContentType, Docker, Method, Request};

fn docker() -> Docker {
    Docker::new(None, None, false).unwrap()
}

fn check(docker: &Docker, request: Request, method: Method, endpoint: &str, streamed: bool) {
    assert_eq!(request.transport, docker.transport());
    assert_eq!(request.method, method);
    assert_eq!(request.endpoint, endpoint);
    assert_eq!(request.body, None);
    assert_eq!(request.streamed, streamed);
}

#[test]
fn daemon_requests() {
    let d = docker();
    check(&d, d.version(), Method::Get, "/version", false);
    check(&d, d.info(), Method::Get, "/info", false);
    check(&d, d.ping(), Method::Get, "/_ping", false);
    check(&d, d.events(None), Method::Get, "/events", true);
    check(&d, d.events(Some("since=1")), Method::Get, "/events?since=1", true);
}

#[test]
fn image_requests() {
    let d = docker();
    let images = d.images();
    let image = images.get("busybox:latest");
    check(&d, image.inspect(), Method::Get, "/images/busybox:latest/json", false);
    check(&d, image.history(), Method::Get, "/images/busybox:latest/history", false);
    check(&d, image.delete(), Method::Delete, "/images/busybox:latest", false);
    check(&d, image.export(), Method::Get, "/images/busybox:latest/get", true);
    let same = shiplift::Image::new(&d, "busybox:latest");
    assert_eq!(same.inspect(), image.inspect());
}

#[test]
fn images_requests() {
    let d = docker();
    let images = d.images();
    check(&d, images.list(None), Method::Get, "/images/json", false);
    check(&d, images.list(Some("all=true")), Method::Get, "/images/json?all=true", false);
    check(&d, images.pull(None), Method::Post, "/images/create", true);
    check(&d, images.pull(Some("fromImage=redis")), Method::Post,
          "/images/create?fromImage=redis", true);
    assert_eq!(shiplift::Images::new(&d).list(None), images.list(None));
}

#[test]
fn search_term_is_escaped() {
    let d = docker();
    let images = d.images();
    check(&d, images.search("redis"), Method::Get, "/images/search?term=redis", false);
    check(&d, images.search(""), Method::Get, "/images/search?term=", false);
    check(&d, images.search("a b&c=d/e?f#g%h+i"), Method::Get,
          "/images/search?term=a+b%26c%3Dd%2Fe%3Ff%23g%25h%2Bi", false);
    check(&d, images.search("\u{e9}\u{1F433}~*-._"), Method::Get,
          "/images/search?term=%C3%A9%F0%9F%90%B3%7E*-._", false);
}

#[test]
fn every_byte_is_escaped_as_the_notation_says() {
    let d = docker();
    for code in 0u8..128 {
        let c = code as char;
        let expected = if c.is_ascii_alphanumeric() || "*-._".contains(c) {
            c.to_string()
        } else if c == ' ' {
            "+".to_owned()
        } else {
            format!("%{:02X}", code)
        };
        assert_eq!(d.images().search(&c.to_string()).endpoint,
                   format!("/images/search?term={}", expected));
    }
}

#[test]
fn different_terms_give_different_searches() {
    let d = docker();
    let terms = ["", "+", " ", "%20", "%2B", "a", "A", "a&term=b", "\u{e9}", "e\u{301}"];
    for (i, left) in terms.iter().enumerate() {
        for (j, right) in terms.iter().enumerate() {
            assert_eq!(i == j, d.images().search(left) == d.images().search(right));
        }
    }
}

#[test]
fn exported_names_keep_their_order() {
    let d = docker();
    let images = d.images();
    check(&d, images.export(vec![]), Method::Get, "/images/get?", true);
    check(&d, images.export(vec!["redis"]), Method::Get, "/images/get?names=redis", true);
    check(&d, images.export(vec!["redis:3", "a&names=b", ""]), Method::Get,
          "/images/get?names=redis%3A3&names=a%26names%3Db&names=", true);
    assert_ne!(images.export(vec!["a", "b"]), images.export(vec!["b", "a"]));
    assert_ne!(images.export(vec![]), images.export(vec![""]));
}

#[test]
fn build_sends_the_tarball() {
    let d = docker();
    let request = d.images().build(Some("t=name"), vec![31, 139, 8]);
    assert_eq!(request, Request {
        transport: d.transport(),
        method: Method::Post,
        endpoint: "/build?t=name".to_owned(),
        body: Some(Body { content: vec![31, 139, 8], content_type: ContentType::Tar }),
        streamed: true,
    });
    assert_eq!(d.images().build(None, vec![]).endpoint, "/build");
}

#[test]
fn container_requests() {
    let d = docker();
    let containers = d.containers();
    let c = containers.get("4fa6");
    assert_eq!(c.id(), "4fa6");
    check(&d, c.inspect(), Method::Get, "/containers/4fa6/json", false);
    check(&d, c.changes(), Method::Get, "/containers/4fa6/changes", false);
    check(&d, c.export(), Method::Get, "/containers/4fa6/export", true);
    check(&d, c.stats(), Method::Get, "/containers/4fa6/stats", true);
    check(&d, c.start(), Method::Post, "/containers/4fa6/start", false);
    check(&d, c.pause(), Method::Post, "/containers/4fa6/pause", false);
    check(&d, c.unpause(), Method::Post, "/containers/4fa6/unpause", false);
    check(&d, c.wait(), Method::Post, "/containers/4fa6/wait", false);
    check(&d, c.delete(), Method::Delete, "/containers/4fa6", false);
    assert_eq!(shiplift::Container::new(&d, "4fa6").inspect(), c.inspect());
}

#[test]
fn container_requests_with_arguments() {
    let d = docker();
    let containers = d.containers();
    let c = containers.get("4fa6");
    check(&d, c.top(None), Method::Get, "/containers/4fa6/top", false);
    check(&d, c.top(Some("aux -w")), Method::Get, "/containers/4fa6/top?ps_args=aux+-w", false);
    check(&d, c.logs(None), Method::Get, "/containers/4fa6/logs", true);
    check(&d, c.logs(Some("stdout=true")), Method::Get, "/containers/4fa6/logs?stdout=true", true);
    check(&d, c.kill(None), Method::Post, "/containers/4fa6/kill", false);
    check(&d, c.kill(Some("SIGHUP")), Method::Post, "/containers/4fa6/kill?signal=SIGHUP", false);
    check(&d, c.rename("new name"), Method::Post, "/containers/4fa6/rename?name=new+name", false);
    check(&d, c.remove(Some("force=true")), Method::Delete, "/containers/4fa6?force=true", false);
}

#[test]
fn seconds_are_written_in_decimal() {
    let d = docker();
    let containers = d.containers();
    let c = containers.get("4fa6");
    check(&d, c.stop(None), Method::Post, "/containers/4fa6/stop", false);
    check(&d, c.stop(Some(0)), Method::Post, "/containers/4fa6/stop?t=0", false);
    check(&d, c.stop(Some(10)), Method::Post, "/containers/4fa6/stop?t=10", false);
    check(&d, c.restart(None), Method::Post, "/containers/4fa6/restart", false);
    check(&d, c.restart(Some(u64::MAX)), Method::Post,
          "/containers/4fa6/restart?t=18446744073709551615", false);
    check(&d, c.restart(Some(907)), Method::Post, "/containers/4fa6/restart?t=907", false);
}

#[test]
fn remove_without_options_is_delete() {
    let d = docker();
    let containers = d.containers();
    let c = containers.get("4fa6");
    assert_eq!(c.remove(None), c.delete());
}

#[test]
fn operations_have_requests_of_their_own() {
    let d = docker();
    let containers = d.containers();
    let c = containers.get("4fa6");
    let requests = vec![
        c.inspect(), c.top(None), c.changes(), c.logs(None), c.export(), c.stats(), c.start(),
        c.stop(None), c.restart(None), c.kill(None), c.rename(""), c.pause(), c.unpause(), c.wait(),
        c.remove(None),
    ];
    for (i, left) in requests.iter().enumerate() {
        for (j, right) in requests.iter().enumerate() {
            assert_eq!(i == j, left == right);
        }
    }
}

#[test]
fn requests_name_their_container() {
    let d = docker();
    let containers = d.containers();
    assert_ne!(containers.get("a").start(), containers.get("b").start());
    assert_ne!(containers.get("a").stop(Some(1)), containers.get("a").stop(Some(2)));
    assert_ne!(containers.get("a").stop(Some(1)), containers.get("a").stop(None));
    assert_ne!(d.images().get("a").inspect(), d.images().get("b").inspect());
}

#[test]
fn containers_requests() {
    let d = docker();
    let containers = d.containers();
    check(&d, containers.list(None), Method::Get, "/containers/json", false);
    check(&d, containers.list(Some("all=true")), Method::Get, "/containers/json?all=true", false);
    assert_eq!(shiplift::Containers::new(&d).list(None), containers.list(None));
}

#[test]
fn create_sends_the_options() {
    let d = docker();
    let request = d.containers().create("{\"Image\":\"\u{e9}\"}");
    assert_eq!(request, Request {
        transport: d.transport(),
        method: Method::Post,
        endpoint: "/containers/create".to_owned(),
        body: Some(Body {
            content: b"{\"Image\":\"\xC3\xA9\"}".to_vec(),
            content_type: ContentType::Json,
        }),
        streamed: false,
    });
}

#[test]
fn the_path_ends_at_the_first_question_mark() {
    let d = docker();
    let containers = d.containers();
    let plain = containers.get("a").logs(Some("b?c"));
    assert_eq!(plain.endpoint.split_once('?'), Some(("/containers/a/logs", "b?c")));
    assert_eq!(containers.get("a").logs(None).endpoint.split_once('?'), None);
    assert_eq!(containers.get("a").logs(Some("")).endpoint, "/containers/a/logs?");
}
