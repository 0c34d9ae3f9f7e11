use rustybot::ec2::{ids_of_reference, lookup_filter, InstanceInfo};
use rustybot::resolve::{
    is_instance_id, maybe_parse_slack_url, maybe_parse_slack_url_or_id, parse_name_from_url,
    resolve, ResolvedReference,
};

#[test]
fn test_parse_name_from_url() {
    let url = "https://v102rc2.demo.encodedcc.org".to_string();
    let name = parse_name_from_url(url).unwrap();
    assert_eq!(name, "v102rc2".to_owned());
    let url = "https://sno-157-b5bebd084-phil.demo.encodedcc.org/".to_string();
    let name = parse_name_from_url(url).unwrap();
    assert_eq!(name, "sno-157-b5bebd084-phil".to_owned());
    let url = "https://encd-5358-d5b93454a-emma.demo.encodedcc.org/".to_string();
    let name = parse_name_from_url(url).unwrap();
    assert_eq!(name, "encd-5358-d5b93454a-emma".to_owned());
}

#[test]
fn test_is_instance_id() {
    let id = "i-02e86c27e5d31f8d1".to_string();
    assert_eq!(true, is_instance_id(id));
    let id = "i-02e86c27e5d311".to_string();
    assert_eq!(true, is_instance_id(id));
    let id = "encd-5358-d5b93454a-emma".to_string();
    assert_eq!(false, is_instance_id(id));
    let id = "http:i-02e86c27e5d31f8d1".to_string();
    assert_eq!(false, is_instance_id(id));
}

fn found_instance() -> InstanceInfo {
    InstanceInfo {
        size: "c5.9xlarge".to_owned(),
        id: "i-0c3cbd3a6e1b8ffc8".to_owned(),
        keyname: Some("encoded-demos".to_owned()),
        state: "stopped".to_owned(),
        tags: vec![("Name".to_owned(), "encd-5328-3a048a0ae-emma".to_owned())],
    }
}

#[test]
fn test_get_instance_ids_from_url_or_id() {
    let found = vec![found_instance()];
    let url = "https://encd-5358-d5b93454a-emma.demo.encodedcc.org/".to_string();
    let instance_ids = ids_of_reference(&resolve(&url), &found);
    assert_eq!(instance_ids, vec!["i-0c3cbd3a6e1b8ffc8".to_owned()]);
    let id = "i-0c3cbd3a6e1b8ffc7".to_string();
    let instance_ids = ids_of_reference(&resolve(&id), &found);
    assert_eq!(instance_ids, vec!["i-0c3cbd3a6e1b8ffc7".to_owned()]);
}

#[test]
fn resolver_examples() {
    assert_eq!(
        resolve("https://foo.example.org/path"),
        ResolvedReference::Name("foo".to_owned())
    );
    assert_eq!(
        resolve("i-0c3cbd3a6e1b8ffc8"),
        ResolvedReference::Identifier("i-0c3cbd3a6e1b8ffc8".to_owned())
    );
    assert_eq!(resolve("i-"), ResolvedReference::Unresolved);
    assert_eq!(resolve("not-a-url-or-id"), ResolvedReference::Unresolved);
}

#[test]
fn resolver_url_wins_over_id() {
    assert_eq!(
        resolve("i-0abc https://bar.example.org"),
        ResolvedReference::Name("bar".to_owned())
    );
}

#[test]
fn resolver_id_only_at_start() {
    assert_eq!(resolve("x i-0abc"), ResolvedReference::Unresolved);
    assert_eq!(resolve("http://i-0abc"), ResolvedReference::Unresolved);
}

#[test]
fn resolver_plain_http_and_label_chars() {
    assert_eq!(
        parse_name_from_url("see http://a_b-9.x.org".to_owned()),
        Some("a_b-9".to_owned())
    );
    assert_eq!(parse_name_from_url("https://9abc.example.org".to_owned()), None);
    assert_eq!(parse_name_from_url("https://nodot".to_owned()), None);
    assert_eq!(parse_name_from_url("".to_owned()), None);
}

#[test]
fn slack_url_is_cut_at_the_host() {
    assert_eq!(
        maybe_parse_slack_url("<https://test.encodedcc.org/|test>"),
        Some("https://test.encodedcc.org".to_owned())
    );
    assert_eq!(maybe_parse_slack_url("no url"), None);
}

#[test]
fn slack_url_or_id() {
    assert_eq!(
        maybe_parse_slack_url_or_id("i-02e86c27e5d31f8d1"),
        Some("i-02e86c27e5d31f8d1".to_owned())
    );
    assert_eq!(maybe_parse_slack_url_or_id("i-0ab>x"), Some("i-0ab".to_owned()));
    assert_eq!(
        maybe_parse_slack_url_or_id("i-0ab <http://dev.x.org|dev>"),
        Some("http://dev.x.org".to_owned())
    );
    assert_eq!(maybe_parse_slack_url_or_id("i-x"), None);
}

#[test]
fn lookup_filters() {
    assert_eq!(
        lookup_filter(&ResolvedReference::Name("foo".to_owned())),
        Some(("tag:Name".to_owned(), "foo".to_owned()))
    );
    assert_eq!(
        lookup_filter(&ResolvedReference::Identifier("i-01".to_owned())),
        Some(("instance-id".to_owned(), "i-01".to_owned()))
    );
    assert_eq!(lookup_filter(&ResolvedReference::Unresolved), None);
    let none: Vec<String> = vec![];
    assert_eq!(ids_of_reference(&ResolvedReference::Unresolved, &vec![found_instance()]), none);
}
