//! The decisions of a deploy: which files to write before the deploy
//! command runs, its argument list, and what to clean up and report after.
//! The caller performs the file and process work and reports back.

use vstd::prelude::*;
use crate::text::{chars_of, push_all, string_from_chars};

verus! {

/// The command that performs the deploy.
pub const DEPLOY_COMMAND: &'static str = "gcloud";

/// The build file's name, in the workspace root.
pub const BUILD_FILE_NAME: &'static str = "Dockerfile";

/// The ignore file's name, in the workspace root.
pub const IGNORE_FILE_NAME: &'static str = ".gcloudignore";

/// The build file up to the first mention of the package name.
pub const BUILD_FILE_HEAD: &'static str = "
# https://hub.docker.com/_/rust
FROM rust:1 as build-env
WORKDIR /app
COPY . /app
RUN cargo build --release

FROM gcr.io/distroless/cc-debian12
ENV PORT 8080
COPY --from=build-env /app/target/release/";

/// The build file between the two mentions of the package name.
pub const BUILD_FILE_MID: &'static str = " /
ENTRYPOINT [\"/";

/// The build file after the second mention of the package name.
pub const BUILD_FILE_TAIL: &'static str = "\"]
";

/// What the ignore file leaves out of the upload.
pub const IGNORE_FILE_TEXT: &'static str = "# Rust build artifacts
/target/
/debug/
/target/**/*
.git
.gitignore
.gcloudignore";

/// The separator before arguments passed through to the deploy command.
pub const PASS_THROUGH_SEPARATOR: &'static str = "--";

/// The build file for the package `name`, which is both the artifact that
/// is built and the entry point that runs.
pub open spec fn build_file_text(name: Seq<char>) -> Seq<char> {
    BUILD_FILE_HEAD@ + name + BUILD_FILE_MID@ + name + BUILD_FILE_TAIL@
}

/// The deploy command's arguments for the package `name`: deploy from
/// source, the service named after the package, the current directory as
/// source, unauthenticated access, HTTP/2; then, where `extra` is not
/// empty, `--` and `extra` as given.
pub open spec fn deploy_arguments(name: Seq<char>, extra: Seq<Seq<char>>) -> Seq<Seq<char>> {
    let base = seq![
        "run"@,
        "deploy"@,
        name,
        "--source"@,
        "."@,
        "--allow-unauthenticated"@,
        "--use-http2"@,
    ];
    if extra.len() == 0 {
        base
    } else {
        base + seq![PASS_THROUGH_SEPARATOR@] + extra
    }
}

/// The texts that `v` holds.
pub open spec fn strings_view(v: Seq<String>) -> Seq<Seq<char>> {
    v.map_values(|s: String| s@)
}

/// The steps of one deploy, decided before the deploy command runs.
#[derive(Clone, Debug)]
pub struct DeployPlan {
    pub package_name: String,
    /// A build file is written for this deploy, and removed after it.
    pub synthesize_build_file: bool,
    /// An ignore file is written; failing to write it is only a warning.
    pub write_ignore_file: bool,
    /// The deploy command's arguments.
    pub args: Vec<String>,
}

/// A deploy plan as plain values.
pub struct DeployPlanView {
    pub package_name: Seq<char>,
    pub synthesize_build_file: bool,
    pub write_ignore_file: bool,
    pub args: Seq<Seq<char>>,
}

impl View for DeployPlan {
    type V = DeployPlanView;

    open spec fn view(&self) -> DeployPlanView {
        DeployPlanView {
            package_name: self.package_name@,
            synthesize_build_file: self.synthesize_build_file,
            write_ignore_file: self.write_ignore_file,
            args: strings_view(self.args@),
        }
    }
}

/// How the deploy command went.
#[derive(PartialEq, Eq, Structural, Clone, Copy, Debug)]
pub enum DeployOutcome {
    Succeeded,
    /// It ran and failed, with its exit code where it had one.
    Failed(Option<i32>),
    /// It could not be started.
    SpawnFailed,
}

/// What to do once the deploy command is over.
#[derive(PartialEq, Eq, Structural, Clone, Copy, Debug)]
pub struct Conclusion {
    /// The build file is removed.
    pub remove_build_file: bool,
    /// The process exits with this code.
    pub exit_code: i32,
}

/// The plan of a deploy of `name` with the pass-through arguments `extra`,
/// given whether the build file and the ignore file already exist.
pub open spec fn planned(
    name: Seq<char>,
    extra: Seq<Seq<char>>,
    build_file_exists: bool,
    ignore_file_exists: bool,
) -> DeployPlanView {
    DeployPlanView {
        package_name: name,
        synthesize_build_file: !build_file_exists,
        write_ignore_file: !ignore_file_exists,
        args: deploy_arguments(name, extra),
    }
}

/// What follows the deploy command's `outcome`: the build file goes exactly
/// where this deploy wrote it, whatever the outcome; the exit code is 0 on
/// success and 1 otherwise.
pub open spec fn concluded(plan: DeployPlanView, outcome: DeployOutcome) -> Conclusion {
    Conclusion {
        remove_build_file: plan.synthesize_build_file,
        exit_code: if outcome == DeployOutcome::Succeeded {
            0
        } else {
            1
        },
    }
}

/// The build file while the deploy command runs, given what it held before
/// (`None` where there was none).
pub open spec fn build_file_during(before: Option<Seq<char>>, plan: DeployPlanView) -> Option<
    Seq<char>,
> {
    if plan.synthesize_build_file {
        Some(build_file_text(plan.package_name))
    } else {
        before
    }
}

/// The build file once the deploy is over.
pub open spec fn build_file_after(
    before: Option<Seq<char>>,
    plan: DeployPlanView,
    conclusion: Conclusion,
) -> Option<Seq<char>> {
    if conclusion.remove_build_file {
        None
    } else {
        build_file_during(before, plan)
    }
}

/// The build file for the package `package_name`.
pub fn build_file_for(package_name: &str) -> (r: String)
    ensures
        r@ == build_file_text(package_name@),
{
    let name = chars_of(package_name);
    let mut out = chars_of(BUILD_FILE_HEAD);
    push_all(&mut out, &name);
    push_all(&mut out, &chars_of(BUILD_FILE_MID));
    push_all(&mut out, &name);
    push_all(&mut out, &chars_of(BUILD_FILE_TAIL));
    string_from_chars(&out)
}

/// The deploy command's arguments for `package_name` and the pass-through
/// arguments `extra_args`.
pub fn deploy_args(package_name: &str, extra_args: &Vec<String>) -> (r: Vec<String>)
    ensures
        strings_view(r@) == deploy_arguments(package_name@, strings_view(extra_args@)),
{
    let mut args: Vec<String> = Vec::new();
    args.push("run".to_owned());
    args.push("deploy".to_owned());
    args.push(package_name.to_owned());
    args.push("--source".to_owned());
    args.push(".".to_owned());
    args.push("--allow-unauthenticated".to_owned());
    args.push("--use-http2".to_owned());
    let ghost base = strings_view(args@);
    assert(base =~= deploy_arguments(package_name@, Seq::empty()));
    if extra_args.len() > 0 {
        args.push(PASS_THROUGH_SEPARATOR.to_owned());
        let ghost head = strings_view(args@);
        let mut i: usize = 0;
        while i < extra_args.len()
            invariant
                i <= extra_args.len(),
                strings_view(args@) == head + strings_view(extra_args@).take(i as int),
            decreases extra_args.len() - i,
        {
            let ghost prev = args@;
            args.push(extra_args[i].clone());
            assert(strings_view(args@) =~= strings_view(prev).push(extra_args@[i as int]@));
            assert(strings_view(extra_args@).take(i + 1) =~= strings_view(extra_args@).take(
                i as int,
            ).push(extra_args@[i as int]@));
            assert(strings_view(args@) =~= head + strings_view(extra_args@).take(i + 1));
            i += 1;
        }
        assert(strings_view(extra_args@).take(i as int) =~= strings_view(extra_args@));
        assert(strings_view(args@) =~= deploy_arguments(package_name@, strings_view(extra_args@)));
    } else {
        assert(strings_view(extra_args@) =~= Seq::<Seq<char>>::empty());
    }
    args
}

/// Plans a deploy of `package_name` with the pass-through arguments
/// `extra_args`: a build file is synthesized only where none exists, and an
/// ignore file is written only where none exists.
pub fn plan_deploy(
    package_name: &str,
    extra_args: &Vec<String>,
    build_file_exists: bool,
    ignore_file_exists: bool,
) -> (r: DeployPlan)
    ensures
        r@ == planned(package_name@, strings_view(extra_args@), build_file_exists, ignore_file_exists),
{
    DeployPlan {
        package_name: package_name.to_owned(),
        synthesize_build_file: !build_file_exists,
        write_ignore_file: !ignore_file_exists,
        args: deploy_args(package_name, extra_args),
    }
}

impl DeployPlan {
    /// The build file to write before the deploy command runs, where this
    /// deploy synthesizes one.
    pub fn build_file(&self) -> (r: Option<String>)
        ensures
            r is Some == self.synthesize_build_file,
            r is Some ==> r->Some_0@ == build_file_text(self.package_name@),
    {
        if self.synthesize_build_file {
            Some(build_file_for(self.package_name.as_str()))
        } else {
            None
        }
    }

    /// What to do after the deploy command's `outcome`.
    pub fn conclude(&self, outcome: DeployOutcome) -> (r: Conclusion)
        ensures
            r == concluded(self@, outcome),
    {
        Conclusion {
            remove_build_file: self.synthesize_build_file,
            exit_code: match outcome {
                DeployOutcome::Succeeded => 0,
                _ => 1,
            },
        }
    }
}

/// A build file that exists before a deploy is left as it was: the deploy
/// command sees it unchanged, and it is still there, unchanged, after the
/// deploy, whatever the command's outcome.
pub proof fn lemma_existing_build_file_kept(
    name: Seq<char>,
    extra: Seq<Seq<char>>,
    content: Seq<char>,
    ignore_file_exists: bool,
    outcome: DeployOutcome,
)
    ensures
        build_file_during(Some(content), planned(name, extra, true, ignore_file_exists)) == Some(
            content,
        ),
        build_file_after(
            Some(content),
            planned(name, extra, true, ignore_file_exists),
            concluded(planned(name, extra, true, ignore_file_exists), outcome),
        ) == Some(content),
{
}

/// Where no build file exists before a deploy, the deploy command sees the
/// one synthesized for the package, and none is left after the deploy,
/// whatever the command's outcome.
pub proof fn lemma_synthesized_build_file_removed(
    name: Seq<char>,
    extra: Seq<Seq<char>>,
    ignore_file_exists: bool,
    outcome: DeployOutcome,
)
    ensures
        build_file_during(None, planned(name, extra, false, ignore_file_exists)) == Some(
            build_file_text(name),
        ),
        build_file_after(
            None,
            planned(name, extra, false, ignore_file_exists),
            concluded(planned(name, extra, false, ignore_file_exists), outcome),
        ) == None::<Seq<char>>,
{
}

} // verus!
