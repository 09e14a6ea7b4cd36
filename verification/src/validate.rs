//! The `validate` subcommand of the scaffolding tool: `tokens`, `assets`
//! and `layout` run the validation engine; `composition` and `all` are
//! not offered here and answer with a stub.

use vstd::prelude::*;

use crate::engine::identity::{insert_sorted_name, names_view, sort_dedup};
use crate::engine::report::{input_mode, input_well_formed, mode_name, run_outcome, ModeInput, Report, ValidateMode};
use crate::error::VectisError;
use crate::paths::{join_path, path_join};
use crate::text::owned;

verus! {

/// What a `validate` invocation produced: a report, or the name of a
/// command that is not offered.
#[derive(Debug)]
pub enum CommandOutcome {
    Success(Report),
    Stub { command: &'static str },
}

/// The stub command name of a mode.
pub open spec fn stub_name(m: ValidateMode) -> Seq<char> {
    "validate "@ + mode_name(m)
}

/// Executable `stub_name`.
pub fn stub_command(mode: ValidateMode) -> (r: &'static str)
    ensures
        r@ == stub_name(mode),
{
    proof {
        reveal_strlit("validate layout");
        reveal_strlit("validate composition");
        reveal_strlit("validate tokens");
        reveal_strlit("validate assets");
        reveal_strlit("validate all");
        reveal_strlit("validate ");
        reveal_strlit("layout");
        reveal_strlit("composition");
        reveal_strlit("tokens");
        reveal_strlit("assets");
        reveal_strlit("all");
    }
    match mode {
        ValidateMode::Layout => "validate layout",
        ValidateMode::Composition => "validate composition",
        ValidateMode::Tokens => "validate tokens",
        ValidateMode::Assets => "validate assets",
        ValidateMode::All => "validate all",
    }
}

/// The modes this command runs.
pub open spec fn offered(m: ValidateMode) -> bool {
    m == ValidateMode::Tokens || m == ValidateMode::Assets || m == ValidateMode::Layout
}

/// The report outcome inside a command outcome.
pub open spec fn as_report(r: Result<CommandOutcome, VectisError>) -> Result<Report, VectisError> {
    match r {
        Ok(CommandOutcome::Success(rep)) => Ok(rep),
        Ok(CommandOutcome::Stub { .. }) => Err(VectisError::Internal { message: arbitrary() }),
        Err(e) => Err(e),
    }
}

/// Run `validate <mode>`: `tokens`, `assets` and `layout` run the engine
/// on the artifact at the given path with the gathered inputs;
/// `composition` and `all` answer with their stub, whatever the input.
pub fn run(mode: ValidateMode, input: Option<(String, ModeInput)>) -> (r: Result<
    CommandOutcome,
    VectisError,
>)
    requires
        offered(mode) ==> input is Some && input_mode(input->Some_0.1) == mode && input_well_formed(
            input->Some_0.1,
        ),
    ensures
        !offered(mode) ==> r is Ok && r->Ok_0 is Stub && r->Ok_0->command@ == stub_name(mode),
        offered(mode) ==> r is Err || r->Ok_0 is Success,
        offered(mode) ==> run_outcome(as_report(r), input->Some_0.0@, input->Some_0.1),
{
    match mode {
        ValidateMode::Composition | ValidateMode::All => Ok(
            CommandOutcome::Stub { command: stub_command(mode) },
        ),
        _ => {
            let (target, inp) = match input {
                Some(x) => x,
                None => {
                    return Err(VectisError::Internal { message: owned("no input") });
                },
            };
            match crate::engine::report::run(target.as_str(), inp) {
                Ok(rep) => Ok(CommandOutcome::Success(rep)),
                Err(e) => Err(e),
            }
        },
    }
}

/// The compositions an assets run looks at under the project root, in
/// order: each `.specify/changes/<name>/composition.yaml` by ascending
/// change name, then `.specify/specs/composition.yaml`.
pub open spec fn composition_candidates(root: Seq<char>, change_names: Seq<Seq<char>>) -> Seq<
    Seq<char>,
> {
    sort_dedup(change_names).map_values(
        |n: Seq<char>| path_join(path_join(path_join(root, ".specify/changes"@), n), "composition.yaml"@),
    ).push(path_join(root, ".specify/specs/composition.yaml"@))
}

/// The sibling compositions to try, given the change directory names
/// (the first readable one is used).
pub fn sibling_composition_candidates(project_root: &str, change_names: &Vec<String>) -> (r: Vec<
    String,
>)
    ensures
        names_view(r@) == composition_candidates(project_root@, names_view(change_names@)),
{
    let mut sorted: Vec<String> = Vec::new();
    let mut j: usize = 0;
    assert(names_view(change_names@).subrange(0, 0) =~= Seq::<Seq<char>>::empty());
    assert(names_view(sorted@) =~= Seq::<Seq<char>>::empty());
    while j < change_names.len()
        invariant
            j <= change_names@.len(),
            names_view(sorted@) == sort_dedup(names_view(change_names@).subrange(0, j as int)),
        decreases change_names@.len() - j,
    {
        let ghost post = names_view(change_names@).subrange(0, j + 1);
        assert(post.drop_last() =~= names_view(change_names@).subrange(0, j as int));
        insert_sorted_name(&mut sorted, change_names[j].as_str());
        j = j + 1;
    }
    assert(names_view(change_names@).subrange(0, change_names@.len() as int) =~= names_view(
        change_names@,
    ));
    let ghost sv = names_view(sorted@);
    let changes = join_path(project_root, ".specify/changes");
    let mut out: Vec<String> = Vec::new();
    let mut i: usize = 0;
    while i < sorted.len()
        invariant
            i <= sorted@.len(),
            sv == names_view(sorted@),
            changes@ == path_join(project_root@, ".specify/changes"@),
            names_view(out@) == sv.subrange(0, i as int).map_values(
                |n: Seq<char>|
                    path_join(path_join(path_join(project_root@, ".specify/changes"@), n), "composition.yaml"@),
            ),
        decreases sorted@.len() - i,
    {
        let ghost f = |n: Seq<char>|
            path_join(path_join(path_join(project_root@, ".specify/changes"@), n), "composition.yaml"@);
        let ghost before = names_view(out@);
        assert(sorted@[i as int]@ == sv[i as int]);
        let d = join_path(changes.as_str(), sorted[i].as_str());
        let c = join_path(d.as_str(), "composition.yaml");
        assert(d@ == path_join(changes@, sv[i as int]));
        assert(c@ == path_join(d@, "composition.yaml"@));
        assert(f(sv[i as int]) == path_join(
            path_join(path_join(project_root@, ".specify/changes"@), sv[i as int]),
            "composition.yaml"@,
        ));
        assert(c@ == f(sv[i as int]));
        out.push(c);
        assert(names_view(out@) =~= before.push(f(sv[i as int])));
        assert(sv.subrange(0, i + 1).map_values(f) =~= sv.subrange(0, i as int).map_values(f).push(
            f(sv[i as int]),
        ));
        i = i + 1;
    }
    assert(sv.subrange(0, sv.len() as int) =~= sv);
    let ghost before = names_view(out@);
    out.push(join_path(project_root, ".specify/specs/composition.yaml"));
    assert(names_view(out@) =~= before.push(path_join(project_root@, ".specify/specs/composition.yaml"@)));
    out
}

} // verus!
