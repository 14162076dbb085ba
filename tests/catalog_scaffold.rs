use cargo_cloudrun::catalog::{map_event_type, resolve_event_type};
use cargo_cloudrun::error::CloudRunError;
use cargo_cloudrun::manifest::rewrite_package_name;
use cargo_cloudrun::scaffold::{
    check_target, effective_package_name, event_handler, render_event_source, render_project,
    HandlerKind, ProjectSpec, Template, TemplateStore,
};

fn sample_catalog() -> Vec<&'static str> {
    vec![
        "google_cloudevents::google::events::firebase::auth::v1::UserCreated",
        "google_cloudevents::google::events::firebase::auth::v1::UserDeleted",
        "google_cloudevents::google::events::cloud::storage::v1::ObjectDeleted",
    ]
}

#[test]
fn unique_suffix_resolves() {
    let r = resolve_event_type(&sample_catalog(), "UserCreated");
    assert_eq!(
        r,
        Ok("google_cloudevents::google::events::firebase::auth::v1::UserCreated".to_string())
    );
}

#[test]
fn unknown_suffix_fails() {
    assert_eq!(
        resolve_event_type(&sample_catalog(), "Missing"),
        Err(CloudRunError::UnknownEventType)
    );
}

#[test]
fn ambiguous_suffix_fails() {
    assert_eq!(
        resolve_event_type(&sample_catalog(), "Deleted"),
        Err(CloudRunError::AmbiguousEventType)
    );
}

#[test]
fn full_identifier_resolves() {
    let full = "google_cloudevents::google::events::cloud::storage::v1::ObjectDeleted";
    assert_eq!(resolve_event_type(&sample_catalog(), full), Ok(full.to_string()));
}

#[test]
fn real_catalog_lookup() {
    assert_eq!(
        map_event_type("UserCreatedEvent"),
        Ok("google_cloudevents::google::events::firebase::auth::v1::UserCreatedEvent".to_string())
    );
    assert_eq!(map_event_type("Event"), Err(CloudRunError::AmbiguousEventType));
    assert_eq!(map_event_type("NoSuchThing"), Err(CloudRunError::UnknownEventType));
}

#[test]
fn event_handler_from_catalog() {
    match event_handler("pubsub::v1::MessagePublishedEvent") {
        Ok(HandlerKind::Event(t)) => assert_eq!(
            t,
            "google_cloudevents::google::events::cloud::pubsub::v1::MessagePublishedEvent"
        ),
        other => panic!("unexpected {:?}", other),
    }
}

#[test]
fn event_source_substitution() {
    let src = "use google_cloudevents::google::events::cloud::firestore::v1::DocumentCreatedEvent;\nfn f(e: DocumentCreatedEvent) {}\n";
    let out = render_event_source(src, "a::b::UserCreated");
    assert_eq!(out, "use a::b::UserCreated;\nfn f(e: UserCreated) {}\n");
}

#[test]
fn event_type_without_path_separator() {
    let out = render_event_source("x DocumentCreatedEvent y", "Plain");
    assert_eq!(out, "x Plain y");
}

#[test]
fn target_checks() {
    assert_eq!(check_target("foo", true, false), Err(CloudRunError::DirectoryExists));
    assert_eq!(check_target("", true, true), Err(CloudRunError::ManifestExists));
    assert_eq!(check_target("foo", false, true), Err(CloudRunError::ManifestExists));
    assert_eq!(check_target("", true, false), Ok(()));
    assert_eq!(check_target("foo", false, false), Ok(()));
}

#[test]
fn default_package_name() {
    assert_eq!(effective_package_name(""), "axum_serverless");
    assert_eq!(effective_package_name("svc"), "svc");
}

fn templates() -> TemplateStore {
    TemplateStore {
        http: Template {
            manifest_text: "[package]\nname = \"http_template\"\n".to_string(),
            source_text: "fn main() {}\n".to_string(),
        },
        event: Template {
            manifest_text: "[package]\nname = \"event_template\"\nversion = \"0.1.0\"\n".to_string(),
            source_text: "use google_cloudevents::google::events::cloud::firestore::v1::DocumentCreatedEvent;\nasync fn handle(e: GoogleCloudEvent<DocumentCreatedEvent>) {}\n".to_string(),
        },
    }
}

#[test]
fn new_event_project_scenario() {
    let catalog = vec![
        "google_cloudevents::google::events::firebase::auth::v1::UserCreated",
        "google_cloudevents::google::events::cloud::storage::v1::ObjectFinalized",
    ];
    let event_type = resolve_event_type(&catalog, "UserCreated").unwrap();
    assert_eq!(check_target("foo", false, false), Ok(()));
    let spec = ProjectSpec {
        package_name: effective_package_name("foo"),
        handler_kind: HandlerKind::Event(event_type.clone()),
    };
    let files = render_project(&spec, &templates());
    assert_eq!(files.manifest, "[package]\nname = \"foo\"\nversion = \"0.1.0\"\n");
    assert!(files
        .source
        .contains("use google_cloudevents::google::events::firebase::auth::v1::UserCreated;"));
    assert!(files.source.contains("GoogleCloudEvent<UserCreated>"));
    assert!(!files.source.contains("DocumentCreatedEvent"));
}

#[test]
fn new_http_project() {
    let spec = ProjectSpec { package_name: "web".to_string(), handler_kind: HandlerKind::Http };
    let t = templates();
    let files = render_project(&spec, &t);
    assert_eq!(files.manifest, rewrite_package_name(&t.http.manifest_text, "web"));
    assert_eq!(files.manifest, "[package]\nname = \"web\"\n");
    assert_eq!(files.source, t.http.source_text);
}
