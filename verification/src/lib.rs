//! Plans the installation of a launcher script ("wrapper") for a locally
//! built project binary, following POSIX home-directory conventions: the
//! planner turns the environment snapshot, the project root and the
//! candidate binary targets into a validated, immutable install plan.
pub mod cli;
pub mod install;
pub mod paths;
pub mod project;
pub mod text;
pub mod tui_select;

use crate::cli::CliArgs;
use crate::install::install_dir;
use crate::install::install_dir_view;
use crate::install::is_on_path;
use crate::install::render_wrapper;
use crate::install::search_entries;
use crate::install::wrapper_view;
use crate::paths::join_view;
use crate::paths::path_join;
use crate::text::contains_str;
use vstd::prelude::*;

verus! {

/// The environment facts planning depends on, captured once per run:
/// the home directory, the override directory for personal binaries,
/// and the shell search-path string.
#[derive(Debug, Clone)]
pub struct EnvSnapshot {
    pub home: Option<String>,
    pub xdg_bin_home: Option<String>,
    pub path: Option<String>,
}

/// Why planning or writing failed.  Every failure of the tool is one of
/// these; each carries the offending name where one exists.
#[derive(Debug, Clone, PartialEq, Eq)]
pub enum InstallError {
    /// No manifest was found in the start directory or any parent.
    ProjectNotFound,
    /// The metadata query for the candidate binary list failed.
    MetadataQueryFailed,
    /// The project declares no binary targets.
    NoTargets,
    /// The requested binary name is not among the candidates.
    UnknownTarget(String),
    /// Several candidates, no request, and no interactive device.
    AmbiguousTargets,
    /// Interactive selection ended before a valid choice arrived.
    SelectionFailed,
    /// Neither an override directory nor a home directory is available.
    HomeUndiscoverable,
    /// The wrapper path is occupied and overwriting is not permitted.
    AlreadyExists,
    /// Any other filesystem failure.
    IoFailure,
}

/// The fully resolved output of planning, constructed once and consumed
/// once by the caller that applies it.
#[derive(Debug, Clone, PartialEq, Eq)]
pub struct InstallPlan {
    pub crate_root: String,
    pub manifest_path: String,
    pub bin_name: String,
    pub install_dir: String,
    pub wrapper_path: String,
    pub wrapper_contents: String,
    pub warn_path_missing: bool,
}

/// The mathematical content of an `InstallPlan`.
pub ghost struct PlanView {
    pub crate_root: Seq<char>,
    pub manifest_path: Seq<char>,
    pub bin_name: Seq<char>,
    pub install_dir: Seq<char>,
    pub wrapper_path: Seq<char>,
    pub wrapper_contents: Seq<char>,
    pub warn_path_missing: bool,
}

impl View for InstallPlan {
    type V = PlanView;

    open spec fn view(&self) -> PlanView {
        PlanView {
            crate_root: self.crate_root@,
            manifest_path: self.manifest_path@,
            bin_name: self.bin_name@,
            install_dir: self.install_dir@,
            wrapper_path: self.wrapper_path@,
            wrapper_contents: self.wrapper_contents@,
            warn_path_missing: self.warn_path_missing,
        }
    }
}

/// The failure category of a planning run, at the specification level.
pub ghost enum PlanErrorView {
    NoTargets,
    UnknownTarget(Seq<char>),
    AmbiguousTargets,
    HomeUndiscoverable,
}

/// How an executable error realizes a specification-level planning
/// failure.
pub open spec fn err_matches(e: InstallError, v: PlanErrorView) -> bool {
    match v {
        PlanErrorView::NoTargets => e == InstallError::NoTargets,
        PlanErrorView::UnknownTarget(n) => e matches InstallError::UnknownTarget(s) && s@ == n,
        PlanErrorView::AmbiguousTargets => e == InstallError::AmbiguousTargets,
        PlanErrorView::HomeUndiscoverable => e == InstallError::HomeUndiscoverable,
    }
}

/// The view of an optional owned string.
pub open spec fn opt_view(o: Option<String>) -> Option<Seq<char>> {
    match o {
        Some(s) => Some(s@),
        None => None,
    }
}

/// The view of an optional borrowed string.
pub open spec fn opt_ref_view(o: Option<&String>) -> Option<Seq<char>> {
    match o {
        Some(s) => Some(s@),
        None => None,
    }
}

/// Whether `dir` is discoverable through the snapshot's search path.
pub open spec fn env_on_search_path(env: EnvSnapshot, dir: Seq<char>) -> bool {
    match env.path {
        Some(p) => search_entries(p@).contains(dir),
        None => false,
    }
}

/// Which binary name a planning run settles on.  `requested` is the
/// caller's explicit request, `selected` the outcome of interactive
/// selection where one was run (and absent in a non-interactive
/// context).  A single candidate wins outright, an explicit request is
/// honored iff it names a candidate, and otherwise only an interactive
/// selection of a candidate resolves the ambiguity.
pub open spec fn chosen_view(
    bins: Seq<Seq<char>>,
    requested: Option<Seq<char>>,
    selected: Option<Seq<char>>,
) -> Result<Seq<char>, PlanErrorView> {
    if bins.len() == 0 {
        Err(PlanErrorView::NoTargets)
    } else if bins.len() == 1 {
        Ok(bins[0])
    } else if requested is Some {
        if bins.contains(requested->0) {
            Ok(requested->0)
        } else {
            Err(PlanErrorView::UnknownTarget(requested->0))
        }
    } else if selected is Some && bins.contains(selected->0) {
        Ok(selected->0)
    } else {
        Err(PlanErrorView::AmbiguousTargets)
    }
}

/// The plan assembled for a chosen name once the install directory is
/// known.
pub open spec fn plan_view(
    root: Seq<char>,
    name: Seq<char>,
    dir: Seq<char>,
    env: EnvSnapshot,
) -> PlanView {
    PlanView {
        crate_root: root,
        manifest_path: join_view(root, "Cargo.toml"@),
        bin_name: name,
        install_dir: dir,
        wrapper_path: join_view(dir, name),
        wrapper_contents: wrapper_view(root),
        warn_path_missing: !env_on_search_path(env, dir),
    }
}

/// The whole planning function at the specification level: resolve the
/// target, compute the install directory, assemble the plan.
pub open spec fn make_plan_view(
    root: Seq<char>,
    bins: Seq<Seq<char>>,
    requested: Option<Seq<char>>,
    selected: Option<Seq<char>>,
    env: EnvSnapshot,
) -> Result<PlanView, PlanErrorView> {
    match chosen_view(bins, requested, selected) {
        Err(e) => Err(e),
        Ok(name) => match install_dir_view(env) {
            None => Err(PlanErrorView::HomeUndiscoverable),
            Some(d) => Ok(plan_view(root, name, d, env)),
        },
    }
}

/// What target resolution decided: a concrete name, or that interactive
/// selection must run.
#[derive(Debug, Clone, PartialEq, Eq)]
pub enum Resolution {
    Chosen(String),
    NeedsSelection,
}

/// Resolve which binary target to install.  A single candidate is
/// returned as it stands, even against a conflicting request; an
/// explicit request must name a candidate; with several candidates and
/// no request, an interactive context defers to selection and a
/// non-interactive one fails.
pub fn resolve_target(bin_names: &Vec<String>, requested: &Option<String>, interactive: bool) -> (r:
    Result<Resolution, InstallError>)
    ensures
        bin_names.len() == 0 ==> r == Err::<Resolution, InstallError>(InstallError::NoTargets),
        bin_names.len() == 1 ==> (r matches Ok(Resolution::Chosen(n)) && n@
            == bin_names.deep_view()[0]),
        bin_names.len() >= 2 && *requested is Some && bin_names.deep_view().contains(
            opt_view(*requested)->0,
        ) ==> (r matches Ok(Resolution::Chosen(n)) && n@ == opt_view(*requested)->0),
        bin_names.len() >= 2 && *requested is Some && !bin_names.deep_view().contains(
            opt_view(*requested)->0,
        ) ==> (r matches Err(InstallError::UnknownTarget(n)) && n@ == opt_view(*requested)->0),
        bin_names.len() >= 2 && *requested is None && interactive ==> r == Ok::<
            Resolution,
            InstallError,
        >(Resolution::NeedsSelection),
        bin_names.len() >= 2 && *requested is None && !interactive ==> r == Err::<
            Resolution,
            InstallError,
        >(InstallError::AmbiguousTargets),
{
    if bin_names.len() == 0 {
        return Err(InstallError::NoTargets);
    }
    if bin_names.len() == 1 {
        return Ok(Resolution::Chosen(bin_names[0].clone()));
    }
    match requested {
        Some(req) => {
            if contains_str(bin_names, req.as_str()) {
                Ok(Resolution::Chosen(req.clone()))
            } else {
                Err(InstallError::UnknownTarget(req.clone()))
            }
        },
        None => {
            if interactive {
                Ok(Resolution::NeedsSelection)
            } else {
                Err(InstallError::AmbiguousTargets)
            }
        },
    }
}

/// Assemble the validated install plan from the caller's request, the
/// environment snapshot, the located project root, the candidate binary
/// names, and — when interactive selection was run — its outcome.
/// Nothing is written; any failure short-circuits.
pub fn make_plan(
    args: &CliArgs,
    env: &EnvSnapshot,
    crate_root: &String,
    bin_names: &Vec<String>,
    selected: Option<&String>,
) -> (r: Result<InstallPlan, InstallError>)
    ensures
        r is Ok <==> make_plan_view(
            crate_root@,
            bin_names.deep_view(),
            opt_view(args.bin),
            opt_ref_view(selected),
            *env,
        ) is Ok,
        r is Ok ==> r->Ok_0@ == make_plan_view(
            crate_root@,
            bin_names.deep_view(),
            opt_view(args.bin),
            opt_ref_view(selected),
            *env,
        )->Ok_0,
        r is Err ==> err_matches(
            r->Err_0,
            make_plan_view(
                crate_root@,
                bin_names.deep_view(),
                opt_view(args.bin),
                opt_ref_view(selected),
                *env,
            )->Err_0,
        ),
        r is Ok ==> bin_names.deep_view().contains(r->Ok_0@.bin_name),
{
    let resolution = match resolve_target(bin_names, &args.bin, selected.is_some()) {
        Ok(x) => x,
        Err(e) => {
            return Err(e);
        },
    };
    let chosen: String = match resolution {
        Resolution::Chosen(n) => n,
        Resolution::NeedsSelection => match selected {
            Some(s) => {
                if contains_str(bin_names, s.as_str()) {
                    s.clone()
                } else {
                    return Err(InstallError::AmbiguousTargets);
                }
            },
            None => {
                return Err(InstallError::AmbiguousTargets);
            },
        },
    };
    proof {
        if bin_names.deep_view().len() == 1 {
            assert(bin_names.deep_view().contains(bin_names.deep_view()[0]));
        }
    }
    let dir: String = match install_dir(env) {
        Some(d) => d,
        None => {
            return Err(InstallError::HomeUndiscoverable);
        },
    };
    let manifest_path = path_join(crate_root.as_str(), "Cargo.toml");
    let wrapper_path = path_join(dir.as_str(), chosen.as_str());
    let wrapper_contents = render_wrapper(crate_root.as_str());
    let path_var: Option<&str> = match &env.path {
        Some(p) => Some(p.as_str()),
        None => None,
    };
    let warn_path_missing = !is_on_path(dir.as_str(), path_var);
    Ok(
        InstallPlan {
            crate_root: crate_root.clone(),
            manifest_path,
            bin_name: chosen,
            install_dir: dir,
            wrapper_path,
            wrapper_contents,
            warn_path_missing,
        },
    )
}

/// With neither an override directory nor a home directory in the
/// environment, no install directory exists at all, and every planning
/// run whose target resolution succeeds fails with
/// `HomeUndiscoverable`.
pub proof fn lemma_no_home_fails_planning(
    root: Seq<char>,
    bins: Seq<Seq<char>>,
    requested: Option<Seq<char>>,
    selected: Option<Seq<char>>,
    env: EnvSnapshot,
)
    requires
        env.home is None,
        env.xdg_bin_home is None,
        chosen_view(bins, requested, selected) is Ok,
    ensures
        install_dir_view(env) is None,
        make_plan_view(root, bins, requested, selected, env) == Err::<PlanView, PlanErrorView>(
            PlanErrorView::HomeUndiscoverable,
        ),
{
}

} // verus!
