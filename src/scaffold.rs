//! What a new project's files hold, from its spec and the templates.

use vstd::prelude::*;
use crate::catalog::{event_catalog, lookup, map_event_type};
use crate::error::CloudRunError;
use crate::manifest::{rewrite_package_name, rewritten_manifest};
use crate::text::{after_last_path_sep, chars_of, last_path_segment, replace_all, replace_chars, string_from_chars};

verus! {

/// The package name used where none is given.
pub const DEFAULT_PACKAGE_NAME: &'static str = "axum_serverless";

/// The full event type path that the event template is written against.
pub const EVENT_TYPE_PLACEHOLDER: &'static str =
    "google_cloudevents::google::events::cloud::firestore::v1::DocumentCreatedEvent";

/// The short type name that the event template is written against.
pub const EVENT_NAME_PLACEHOLDER: &'static str = "DocumentCreatedEvent";

/// What a new project's entry point handles.
#[derive(Clone, Debug)]
pub enum HandlerKind {
    Http,
    /// Events of the type with this full path.
    Event(String),
}

/// The project to create.
#[derive(Clone, Debug)]
pub struct ProjectSpec {
    pub package_name: String,
    pub handler_kind: HandlerKind,
}

/// A manifest and a source file to start a project from.
#[derive(Clone, Debug)]
pub struct Template {
    pub manifest_text: String,
    pub source_text: String,
}

/// One template for each handler kind.
#[derive(Clone, Debug)]
pub struct TemplateStore {
    pub http: Template,
    pub event: Template,
}

/// The texts of a new project's manifest and source file.
#[derive(Clone, Debug)]
pub struct ProjectFiles {
    pub manifest: String,
    pub source: String,
}

/// The package name for `name`: the default where it is empty.
pub open spec fn effective_name(name: Seq<char>) -> Seq<char> {
    if name.len() == 0 {
        DEFAULT_PACKAGE_NAME@
    } else {
        name
    }
}

/// The event template's source set to the event type `event_type`: first the
/// full placeholder path, then the placeholder type name, each replaced
/// everywhere.
pub open spec fn event_source_text(source: Seq<char>, event_type: Seq<char>) -> Seq<char> {
    replace_all(
        replace_all(source, EVENT_TYPE_PLACEHOLDER@, event_type),
        EVENT_NAME_PLACEHOLDER@,
        after_last_path_sep(event_type),
    )
}

/// The package name to write into a new project's manifest.
pub fn effective_package_name(name: &str) -> (r: String)
    ensures
        r@ == effective_name(name@),
{
    if name.is_empty() {
        DEFAULT_PACKAGE_NAME.to_owned()
    } else {
        name.to_owned()
    }
}

/// Whether a project named `package_name` may be created in a directory of
/// that name: not where the directory exists and the name is not empty, nor
/// where it already holds a manifest.
pub fn check_target(package_name: &str, dir_exists: bool, manifest_exists: bool) -> (r: Result<
    (),
    CloudRunError,
>)
    ensures
        r == (if dir_exists && package_name@.len() > 0 {
            Err(CloudRunError::DirectoryExists)
        } else if manifest_exists {
            Err(CloudRunError::ManifestExists)
        } else {
            Ok(())
        }),
{
    if dir_exists && !package_name.is_empty() {
        Err(CloudRunError::DirectoryExists)
    } else if manifest_exists {
        Err(CloudRunError::ManifestExists)
    } else {
        Ok(())
    }
}

/// The event template's source with the placeholders set to `event_type`.
pub fn render_event_source(source: &str, event_type: &str) -> (r: String)
    ensures
        r@ == event_source_text(source@, event_type@),
{
    let et = chars_of(event_type);
    let first = replace_chars(&chars_of(source), &chars_of(EVENT_TYPE_PLACEHOLDER), &et);
    let second = replace_chars(&first, &chars_of(EVENT_NAME_PLACEHOLDER), &last_path_segment(&et));
    string_from_chars(&second)
}

/// The handler for events whose type path ends with `suffix`, looked up in
/// the event catalog.
pub fn event_handler(suffix: &str) -> (r: Result<HandlerKind, CloudRunError>)
    ensures
        match lookup(event_catalog(), suffix@) {
            Ok(e) => r is Ok && (r->Ok_0 matches HandlerKind::Event(t) && t@ == e),
            Err(x) => r == Err::<HandlerKind, CloudRunError>(x),
        },
{
    match map_event_type(suffix) {
        Ok(t) => Ok(HandlerKind::Event(t)),
        Err(e) => Err(e),
    }
}

/// The files of the project `spec`: the template of its handler kind, with
/// the manifest's package name set to the spec's, and, for an event handler,
/// the source's placeholders set to its event type.
pub fn render_project(spec: &ProjectSpec, templates: &TemplateStore) -> (r: ProjectFiles)
    ensures
        match spec.handler_kind {
            HandlerKind::Http => r.manifest@ == rewritten_manifest(
                templates.http.manifest_text@,
                spec.package_name@,
            ) && r.source@ == templates.http.source_text@,
            HandlerKind::Event(t) => r.manifest@ == rewritten_manifest(
                templates.event.manifest_text@,
                spec.package_name@,
            ) && r.source@ == event_source_text(templates.event.source_text@, t@),
        },
{
    match &spec.handler_kind {
        HandlerKind::Http => ProjectFiles {
            manifest: rewrite_package_name(
                templates.http.manifest_text.as_str(),
                spec.package_name.as_str(),
            ),
            source: templates.http.source_text.clone(),
        },
        HandlerKind::Event(t) => ProjectFiles {
            manifest: rewrite_package_name(
                templates.event.manifest_text.as_str(),
                spec.package_name.as_str(),
            ),
            source: render_event_source(templates.event.source_text.as_str(), t.as_str()),
        },
    }
}

} // verus!
