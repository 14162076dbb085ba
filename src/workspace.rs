//! Finding the package to deploy in a workspace, from the output of the
//! workspace metadata query and the current directory.

use vstd::prelude::*;
use crate::error::CloudRunError;
use crate::paths::{components_of, is_prefix_of, path_components, same_file_path, same_leading_components, seqs_view};
use crate::text::chars_of;

verus! {

/// The manifest file that names a package.
pub const MANIFEST_FILE: &'static str = "Cargo.toml";

/// One package of the metadata, with the fields that resolution reads.
#[derive(Clone, Debug)]
pub struct PackageMeta {
    pub name: Option<String>,
    pub manifest_path: Option<String>,
}

/// A package's name and manifest path, where the metadata gives them.
pub type PackageFields = (Option<Seq<char>>, Option<Seq<char>>);

/// The text of `o`, where there is one.
pub open spec fn opt_view(o: Option<String>) -> Option<Seq<char>> {
    match o {
        Some(s) => Some(s@),
        None => None,
    }
}

impl View for PackageMeta {
    type V = PackageFields;

    open spec fn view(&self) -> PackageFields {
        (opt_view(self.name), opt_view(self.manifest_path))
    }
}

/// The fields of each package of `v`.
pub open spec fn packages_view(v: Seq<PackageMeta>) -> Seq<PackageFields> {
    v.map_values(|p: PackageMeta| p@)
}

/// The fields of the metadata that resolution reads.
#[derive(Clone, Debug)]
pub struct CargoMetadata {
    pub workspace_root: String,
    pub packages: Vec<PackageMeta>,
}

/// Where to build from, and which package to deploy.
#[derive(Clone, Debug)]
pub struct WorkspaceInfo {
    pub root_dir: String,
    pub root_package_name: String,
}

/// The manifest path of a package that stands at the workspace root.
pub open spec fn root_manifest_path(workspace_root: Seq<char>) -> Seq<char> {
    workspace_root + seq!['/'] + MANIFEST_FILE@
}

/// `p`'s manifest is the one at the workspace root.
pub open spec fn at_root(p: PackageFields, root_manifest: Seq<char>) -> bool {
    p.1 is Some && path_components(p.1->Some_0) == path_components(
        root_manifest,
    )
}

/// `p` has a name and its directory is the current directory or one of its
/// ancestors.
pub open spec fn holds_dir(p: PackageFields, current_dir: Seq<char>) -> bool {
    &&& p.0 is Some
    &&& p.1 is Some
    &&& path_components(p.1->Some_0).len() > 0
    &&& is_prefix_of(
        path_components(p.1->Some_0).drop_last(),
        path_components(current_dir),
    )
}

/// The first package from `i` on whose manifest is at the workspace root.
pub open spec fn find_root(pkgs: Seq<PackageFields>, root_manifest: Seq<char>, i: int) -> Option<int>
    decreases pkgs.len() - i,
{
    if i < 0 || i >= pkgs.len() {
        None
    } else if at_root(pkgs[i], root_manifest) {
        Some(i)
    } else {
        find_root(pkgs, root_manifest, i + 1)
    }
}

/// The first package from `i` on that holds the current directory.
pub open spec fn find_member(pkgs: Seq<PackageFields>, current_dir: Seq<char>, i: int) -> Option<int>
    decreases pkgs.len() - i,
{
    if i < 0 || i >= pkgs.len() {
        None
    } else if holds_dir(pkgs[i], current_dir) {
        Some(i)
    } else {
        find_member(pkgs, current_dir, i + 1)
    }
}

/// The directory to build from and the package to deploy: the package at
/// the workspace root, or, where none stands there, the first one that
/// holds the current directory; always with the workspace root as the
/// directory.
pub open spec fn selection(
    workspace_root: Seq<char>,
    pkgs: Seq<PackageFields>,
    current_dir: Seq<char>,
) -> Result<(Seq<char>, Seq<char>), CloudRunError> {
    match find_root(pkgs, root_manifest_path(workspace_root), 0) {
        Some(i) => match pkgs[i].0 {
            Some(n) => Ok((workspace_root, n)),
            None => Err(CloudRunError::MetadataParseError),
        },
        None => match find_member(pkgs, current_dir, 0) {
            Some(i) => Ok((workspace_root, pkgs[i].0->Some_0)),
            None => Err(CloudRunError::NoRootPackage),
        },
    }
}

/// `r` is what `selection` gives.
pub open spec fn agrees(
    r: Result<WorkspaceInfo, CloudRunError>,
    s: Result<(Seq<char>, Seq<char>), CloudRunError>,
) -> bool {
    match s {
        Ok((dir, name)) => r is Ok && r->Ok_0.root_dir@ == dir && r->Ok_0.root_package_name@
            == name,
        Err(e) => r == Err::<WorkspaceInfo, CloudRunError>(e),
    }
}

fn holds_dir_exec(p: &PackageMeta, cwd: &Vec<Vec<char>>, Ghost(current_dir): Ghost<Seq<char>>) -> (r: bool)
    requires
        seqs_view(cwd@) == path_components(current_dir),
    ensures
        r == holds_dir(p@, current_dir),
{
    match (&p.name, &p.manifest_path) {
        (Some(_), Some(m)) => {
            let comps = components_of(&chars_of(m.as_str()));
            if comps.len() == 0 {
                return false;
            }
            let n = comps.len() - 1;
            if n > cwd.len() {
                return false;
            }
            let r = same_leading_components(&comps, cwd, n);
            proof {
                let pc = seqs_view(comps@);
                assert(pc.drop_last() =~= pc.take(n as int));
                assert(pc.drop_last().len() == n);
            }
            r
        },
        _ => false,
    }
}

/// Picks the package to deploy from the metadata's `workspace_root` and
/// `packages` and the current directory.
pub fn select_root_package(
    workspace_root: &str,
    packages: &Vec<PackageMeta>,
    current_dir: &str,
) -> (r: Result<WorkspaceInfo, CloudRunError>)
    ensures
        agrees(r, selection(workspace_root@, packages_view(packages@), current_dir@)),
{
    let mut expected = workspace_root.to_owned();
    expected.append("/");
    expected.append(MANIFEST_FILE);
    proof {
        reveal_strlit("/");
        assert(expected@ =~= root_manifest_path(workspace_root@));
    }
    let ghost pkgs = packages_view(packages@);
    let ghost rm = root_manifest_path(workspace_root@);
    let mut i: usize = 0;
    while i < packages.len()
        invariant
            i <= packages.len(),
            pkgs == packages_view(packages@),
            expected@ == rm,
            rm == root_manifest_path(workspace_root@),
            find_root(pkgs, rm, 0) == find_root(pkgs, rm, i as int),
        decreases packages.len() - i,
    {
        let p = &packages[i];
        assert(pkgs[i as int] == p@);
        if let Some(m) = &p.manifest_path {
            if same_file_path(m.as_str(), expected.as_str()) {
                assert(find_root(pkgs, rm, i as int) == Some(i as int));
                return match &p.name {
                    Some(n) => {
                        let info = WorkspaceInfo { root_dir: workspace_root.to_owned(), root_package_name: n.clone() };
                        Ok(info)
                    },
                    None => Err(CloudRunError::MetadataParseError),
                };
            }
        }
        i += 1;
    }
    assert(find_root(pkgs, rm, 0) == None::<int>);
    let cwd = components_of(&chars_of(current_dir));
    let mut j: usize = 0;
    while j < packages.len()
        invariant
            j <= packages.len(),
            pkgs == packages_view(packages@),
            seqs_view(cwd@) == path_components(current_dir@),
            find_root(pkgs, root_manifest_path(workspace_root@), 0) == None::<int>,
            find_member(pkgs, current_dir@, 0) == find_member(pkgs, current_dir@, j as int),
        decreases packages.len() - j,
    {
        let p = &packages[j];
        assert(pkgs[j as int] == p@);
        if holds_dir_exec(p, &cwd, Ghost(current_dir@)) {
            assert(find_member(pkgs, current_dir@, j as int) == Some(j as int));
            match &p.name {
                Some(n) => {
                    return Ok(
                        WorkspaceInfo { root_dir: workspace_root.to_owned(), root_package_name: n.clone() },
                    );
                },
                None => {},
            }
        }
        j += 1;
    }
    Err(CloudRunError::NoRootPackage)
}

/// The workspace root and each package's name and manifest path that the
/// JSON document `bytes` holds; `None` where it is not JSON, or lacks a
/// string `workspace_root` or an array `packages`. A package's field that is
/// missing or not a string is `None`.
pub uninterp spec fn metadata_fields(bytes: Seq<u8>) -> Option<(Seq<char>, Seq<PackageFields>)>;

/// Relies on `serde_json::from_slice` to parse the document, and on
/// `Value::get`, `Value::as_str` and `Value::as_array` to read its fields.
#[verifier::external_body]
fn read_metadata_fields(bytes: &[u8]) -> (r: Option<CargoMetadata>)
    ensures
        match metadata_fields(bytes@) {
            None => r is None,
            Some((root, pkgs)) => r is Some && r->Some_0.workspace_root@ == root && packages_view(
                r->Some_0.packages@,
            ) == pkgs,
        },
{
    let v: serde_json::Value = serde_json::from_slice(bytes).ok()?;
    let text = |f: Option<&serde_json::Value>| f.and_then(|x| x.as_str()).map(|x| x.to_owned());
    let workspace_root = text(v.get("workspace_root"))?;
    let packages = v.get("packages")?.as_array()?.iter().map(
        |p| PackageMeta { name: text(p.get("name")), manifest_path: text(p.get("manifest_path")) },
    ).collect();
    Some(CargoMetadata { workspace_root, packages })
}

/// Reads `workspace_root` and each package's `name` and `manifest_path` from
/// the metadata query's output: `MetadataParseError` where the output holds
/// no such fields, else exactly the fields it holds.
pub fn parse_metadata(stdout: &[u8]) -> (r: Result<CargoMetadata, CloudRunError>)
    ensures
        match metadata_fields(stdout@) {
            None => r == Err::<CargoMetadata, CloudRunError>(CloudRunError::MetadataParseError),
            Some((root, pkgs)) => r is Ok && r->Ok_0.workspace_root@ == root && packages_view(
                r->Ok_0.packages@,
            ) == pkgs,
        },
{
    match read_metadata_fields(stdout) {
        Some(m) => Ok(m),
        None => Err(CloudRunError::MetadataParseError),
    }
}

/// Resolves the workspace from the metadata query's exit status and output
/// and the current directory: `MetadataCommandFailed` where the query
/// failed, `MetadataParseError` where its output holds no metadata, and
/// otherwise the selection on the fields it holds.
pub fn resolve_workspace(query_succeeded: bool, stdout: &[u8], current_dir: &str) -> (r: Result<
    WorkspaceInfo,
    CloudRunError,
>)
    ensures
        !query_succeeded ==> r == Err::<WorkspaceInfo, CloudRunError>(
            CloudRunError::MetadataCommandFailed,
        ),
        query_succeeded ==> match metadata_fields(stdout@) {
            None => r == Err::<WorkspaceInfo, CloudRunError>(CloudRunError::MetadataParseError),
            Some((root, pkgs)) => agrees(r, selection(root, pkgs, current_dir@)),
        },
{
    if !query_succeeded {
        return Err(CloudRunError::MetadataCommandFailed);
    }
    match parse_metadata(stdout) {
        Ok(m) => select_root_package(m.workspace_root.as_str(), &m.packages, current_dir),
        Err(e) => Err(e),
    }
}

/// Where a package stands at the workspace root, resolution gives the same
/// directory and package whether it runs from the workspace root or from the
/// directory of any package of the workspace.
pub proof fn lemma_resolution_independent_of_directory(
    workspace_root: Seq<char>,
    pkgs: Seq<PackageFields>,
    member: int,
    member_dir: Seq<char>,
)
    requires
        find_root(pkgs, root_manifest_path(workspace_root), 0) is Some,
        0 <= member < pkgs.len(),
        holds_dir(pkgs[member], member_dir),
    ensures
        selection(workspace_root, pkgs, workspace_root) == selection(workspace_root, pkgs, member_dir),
{
}

} // verus!
