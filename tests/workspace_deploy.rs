use cargo_cloudrun::deploy::{build_file_for, deploy_args, plan_deploy, DeployOutcome};
use cargo_cloudrun::error::CloudRunError;
use cargo_cloudrun::workspace::{parse_metadata, resolve_workspace, select_root_package, PackageMeta};

fn pkg(name: &str, manifest: &str) -> PackageMeta {
    PackageMeta { name: Some(name.to_string()), manifest_path: Some(manifest.to_string()) }
}

#[test]
fn root_package_is_chosen() {
    let pkgs = vec![pkg("lib_a", "/ws/a/Cargo.toml"), pkg("svc", "/ws/Cargo.toml")];
    let info = select_root_package("/ws", &pkgs, "/ws/a").unwrap();
    assert_eq!(info.root_dir, "/ws");
    assert_eq!(info.root_package_name, "svc");
}

#[test]
fn same_result_from_root_and_member() {
    let pkgs = vec![pkg("lib_a", "/ws/a/Cargo.toml"), pkg("svc", "/ws/Cargo.toml")];
    let from_root = select_root_package("/ws", &pkgs, "/ws").unwrap();
    let from_member = select_root_package("/ws", &pkgs, "/ws/a/src").unwrap();
    assert_eq!(from_root.root_dir, from_member.root_dir);
    assert_eq!(from_root.root_package_name, from_member.root_package_name);
}

#[test]
fn virtual_workspace_uses_current_package() {
    let pkgs = vec![pkg("a", "/ws/a/Cargo.toml"), pkg("b", "/ws/b/Cargo.toml")];
    let info = select_root_package("/ws", &pkgs, "/ws/b").unwrap();
    assert_eq!(info.root_dir, "/ws");
    assert_eq!(info.root_package_name, "b");
    let nested = select_root_package("/ws", &pkgs, "/ws/a/src/bin").unwrap();
    assert_eq!(nested.root_package_name, "a");
}

#[test]
fn virtual_workspace_outside_packages_fails() {
    let pkgs = vec![pkg("a", "/ws/a/Cargo.toml")];
    assert_eq!(
        select_root_package("/ws", &pkgs, "/ws").err(),
        Some(CloudRunError::NoRootPackage)
    );
}

#[test]
fn root_package_without_name_fails() {
    let pkgs = vec![PackageMeta { name: None, manifest_path: Some("/ws/Cargo.toml".to_string()) }];
    assert_eq!(
        select_root_package("/ws", &pkgs, "/ws").err(),
        Some(CloudRunError::MetadataParseError)
    );
}

#[test]
fn metadata_is_parsed() {
    let json = br#"{"workspace_root":"/ws","packages":[{"name":"svc","manifest_path":"/ws/Cargo.toml"},{"manifest_path":"/ws/x/Cargo.toml"}]}"#;
    let m = parse_metadata(json).unwrap();
    assert_eq!(m.workspace_root, "/ws");
    assert_eq!(m.packages.len(), 2);
    assert_eq!(m.packages[0].name.as_deref(), Some("svc"));
    assert_eq!(m.packages[1].name, None);
    assert_eq!(m.packages[1].manifest_path.as_deref(), Some("/ws/x/Cargo.toml"));
    let odd = parse_metadata(br#"{"workspace_root":"/r","packages":[{"name":3,"manifest_path":"/r/Cargo.toml"}]}"#).unwrap();
    assert_eq!(odd.packages[0].name, None);
    let info = resolve_workspace(true, json, "/elsewhere").unwrap();
    assert_eq!(info.root_package_name, "svc");
}

#[test]
fn malformed_metadata_fails() {
    assert_eq!(parse_metadata(b"not json").err(), Some(CloudRunError::MetadataParseError));
    assert_eq!(
        parse_metadata(br#"{"packages":[]}"#).err(),
        Some(CloudRunError::MetadataParseError)
    );
    assert_eq!(
        parse_metadata(br#"{"workspace_root":"/ws","packages":{}}"#).err(),
        Some(CloudRunError::MetadataParseError)
    );
    assert_eq!(
        resolve_workspace(true, br#"{"workspace_root":"/ws","packages":[]}"#, "/ws").err(),
        Some(CloudRunError::NoRootPackage)
    );
    assert_eq!(
        resolve_workspace(true, br#"{"workspace_root":7,"packages":[]}"#, "/ws").err(),
        Some(CloudRunError::MetadataParseError)
    );
}

#[test]
fn failed_metadata_query() {
    let json = br#"{"workspace_root":"/ws","packages":[{"name":"svc","manifest_path":"/ws/Cargo.toml"}]}"#;
    assert_eq!(
        resolve_workspace(false, json, "/ws").err(),
        Some(CloudRunError::MetadataCommandFailed)
    );
}

#[test]
fn build_file_names_package_twice() {
    let text = build_file_for("svc");
    assert!(text.contains("COPY --from=build-env /app/target/release/svc /\n"));
    assert!(text.ends_with("ENTRYPOINT [\"/svc\"]\n"));
    assert!(text.starts_with("\n# https://hub.docker.com/_/rust\nFROM rust:1 as build-env\n"));
}

#[test]
fn deploy_args_without_extra() {
    assert_eq!(
        deploy_args("svc", &vec![]),
        vec!["run", "deploy", "svc", "--source", ".", "--allow-unauthenticated", "--use-http2"]
    );
}

#[test]
fn deploy_with_existing_build_file_scenario() {
    let extra = vec!["--region".to_string(), "us-east1".to_string()];
    let plan = plan_deploy("svc", &extra, true, true);
    assert_eq!(
        plan.args,
        vec![
            "run", "deploy", "svc", "--source", ".", "--allow-unauthenticated", "--use-http2",
            "--", "--region", "us-east1"
        ]
    );
    assert!(plan.args.ends_with(&["--".to_string(), "--region".to_string(), "us-east1".to_string()]));
    assert_eq!(plan.build_file(), None);
    assert!(!plan.write_ignore_file);
    let after_ok = plan.conclude(DeployOutcome::Succeeded);
    assert!(!after_ok.remove_build_file);
    assert_eq!(after_ok.exit_code, 0);
    let after_fail = plan.conclude(DeployOutcome::Failed(Some(2)));
    assert!(!after_fail.remove_build_file);
    assert_eq!(after_fail.exit_code, 1);
}

#[test]
fn synthesized_build_file_is_removed() {
    let plan = plan_deploy("svc", &vec![], false, false);
    assert_eq!(plan.build_file(), Some(build_file_for("svc")));
    assert!(plan.write_ignore_file);
    for outcome in [DeployOutcome::Succeeded, DeployOutcome::Failed(None), DeployOutcome::SpawnFailed] {
        let c = plan.conclude(outcome);
        assert!(c.remove_build_file);
    }
    assert_eq!(plan.conclude(DeployOutcome::SpawnFailed).exit_code, 1);
}
