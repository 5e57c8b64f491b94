//! The decisions of an `exec` call: which running container belongs to the
//! workspace, and what command line the devcontainer CLI is given.
use vstd::prelude::*;
use vstd::string::{StrSliceExecFns, StringExecFns};

use crate::args::{
    exec_token_position, exec_word, id_label_word, is_exec_token_at, parsed_as_exec, strs,
    workspace_long, ExecArgs,
};
use crate::docker::{container_views, Container, ContainerView};
use crate::error::DevContainerExError;
use crate::text::{is_prefix_of, starts_with, strip_trailing, strip_trailing_char, trim, trim_spec};

verus! {

/// `config_file` lies inside the workspace `ws`: it starts with `ws` (trailing
/// `/` ignored) followed by `/`, so that `/foo` does not take in `/foobar`.
pub open spec fn under_workspace(config_file: Seq<char>, ws: Seq<char>) -> bool {
    let root = strip_trailing(ws, '/');
    &&& is_prefix_of(root, config_file)
    &&& config_file.len() > root.len()
    &&& config_file[root.len() as int] == '/'
}

/// A container that the call may enter: it has a `devcontainer.local_folder`
/// label and its configuration file lies inside the workspace.
pub open spec fn is_candidate(c: ContainerView, ws: Seq<char>) -> bool {
    c.local_folder is Some && under_workspace(c.config_file, ws)
}

/// The containers that the call may enter, in their order.
pub open spec fn candidates(cs: Seq<ContainerView>, ws: Seq<char>) -> Seq<ContainerView>
    decreases cs.len(),
{
    if cs.len() == 0 {
        Seq::empty()
    } else {
        let rest = candidates(cs.drop_last(), ws);
        if is_candidate(cs.last(), ws) {
            rest.push(cs.last())
        } else {
            rest
        }
    }
}

/// Every container that `candidates` keeps may be entered.
proof fn lemma_candidates_qualify(cs: Seq<ContainerView>, ws: Seq<char>)
    ensures
        forall|k: int|
            0 <= k < candidates(cs, ws).len() ==> is_candidate(#[trigger] candidates(cs, ws)[k], ws),
    decreases cs.len(),
{
    if cs.len() > 0 {
        lemma_candidates_qualify(cs.drop_last(), ws);
        let rest = candidates(cs.drop_last(), ws);
        assert forall|k: int|
            0 <= k < candidates(cs, ws).len() implies is_candidate(
                #[trigger] candidates(cs, ws)[k],
                ws,
            ) by {
            if k < rest.len() {
                assert(candidates(cs, ws)[k] == rest[k]);
            }
        }
    }
}

/// Names and configuration files of containers.
pub open spec fn candidate_pairs(cs: Seq<ContainerView>) -> Seq<(Seq<char>, Seq<char>)> {
    cs.map_values(|c: ContainerView| (c.name, c.config_file))
}

/// Pairs of strings by their texts.
pub open spec fn pair_views(ps: Seq<(String, String)>) -> Seq<(Seq<char>, Seq<char>)> {
    ps.map_values(|p: (String, String)| (p.0@, p.1@))
}

/// The `--id-label` value that names a container by its local folder label.
pub open spec fn label_arg(label: Seq<char>) -> Seq<char> {
    "devcontainer.local_folder="@ + label
}

/// What goes right after `exec`: `--id-label` with the container's label
/// unless the call gives `--id-label` itself, then `--workspace-folder` with
/// the workspace unless the call names one itself.
pub open spec fn inserted_args(
    has_id_label: bool,
    has_workspace_flag: bool,
    label: Seq<char>,
    ws: Seq<char>,
) -> Seq<Seq<char>> {
    (if has_id_label {
        Seq::empty()
    } else {
        seq![id_label_word(), label_arg(label)]
    }) + (if has_workspace_flag {
        Seq::empty()
    } else {
        seq![workspace_long(), ws]
    })
}

/// The command line that an `exec` call hands on once its one container is known.
pub open spec fn exec_command(a: ExecArgs, label: Seq<char>, ws: Seq<char>) -> Seq<Seq<char>> {
    a.pre_args() + seq![exec_word()] + inserted_args(a.has_id_label, a.has_workspace_flag, label, ws)
        + a.post_args()
}

/// Whether `config_file` lies inside the workspace `ws`.
pub fn is_under_workspace(config_file: &str, ws: &str) -> (res: bool)
    ensures
        res == under_workspace(config_file@, ws@),
{
    let root = strip_trailing_char(ws, '/');
    if !starts_with(config_file, root.as_str()) {
        return false;
    }
    let n = root.as_str().unicode_len();
    config_file.unicode_len() > n && config_file.get_char(n) == '/'
}

/// Positions in `containers` of the containers that the call may enter.
fn candidate_positions(ws: &str, containers: &Vec<Container>) -> (res: Vec<usize>)
    ensures
        forall|k: int| 0 <= k < res@.len() ==> res@[k] < containers@.len(),
        res@.map_values(|j: usize| containers@[j as int]@) == candidates(
            container_views(containers@),
            ws@,
        ),
{
    let ghost views = container_views(containers@);
    let mut res: Vec<usize> = Vec::new();
    let mut i: usize = 0;
    while i < containers.len()
        invariant
            i <= containers@.len(),
            views == container_views(containers@),
            forall|k: int| 0 <= k < res@.len() ==> res@[k] < i,
            res@.map_values(|j: usize| containers@[j as int]@) == candidates(
                views.take(i as int),
                ws@,
            ),
        decreases containers@.len() - i,
    {
        let c = &containers[i];
        let keep = c.local_folder.is_some() && is_under_workspace(c.config_file.as_str(), ws);
        assert(views.take(i + 1).drop_last() == views.take(i as int));
        assert(views.take(i + 1).last() == c@);
        let ghost before = res@;
        if keep {
            res.push(i);
            assert(res@.map_values(|j: usize| containers@[j as int]@) == before.map_values(
                |j: usize| containers@[j as int]@,
            ).push(c@));
        }
        i = i + 1;
    }
    assert(views.take(containers@.len() as int) == views);
    res
}

/// What an `exec` call needs next: a call that asks for help is handed on as
/// it is, with no container looked up; any other call needs the workspace and
/// the running containers.
pub enum ExecStep {
    /// Hand this command line on.
    Handoff(Vec<String>),
    /// Look up the workspace and the running containers, then call `run_exec`.
    FindContainer(ExecArgs),
}

/// The first decision of an `exec` call, taken before any lookup.
pub fn exec_step(a: ExecArgs) -> (res: ExecStep)
    ensures
        a.help_requested ==> (res matches ExecStep::Handoff(argv) && strs(argv@) == a.pre_args()
            + seq![exec_word()] + a.post_args()),
        !a.help_requested ==> res == ExecStep::FindContainer(a),
{
    if a.help_requested {
        ExecStep::Handoff(a.into_argv(Vec::new()))
    } else {
        ExecStep::FindContainer(a)
    }
}

/// The command line for an `exec` call, given the workspace and the running
/// containers. A call that asks for help is handed on as it is, whatever the
/// containers. Otherwise: the call with `--id-label` and `--workspace-folder`
/// added as needed, when exactly one container may be entered; an error
/// naming the workspace when none may; an error listing them when several may.
pub fn run_exec(a: ExecArgs, ws: &str, containers: &Vec<Container>) -> (res: Result<
    Vec<String>,
    DevContainerExError,
>)
    ensures
        a.help_requested ==> (res matches Ok(argv) && strs(argv@) == a.pre_args() + seq![
            exec_word(),
        ] + a.post_args()),
        !a.help_requested && candidates(container_views(containers@), ws@).len() == 0 ==> (
        res matches Err(DevContainerExError::ContainerNotFound { workspace }) && workspace@
            == ws@),
        !a.help_requested && candidates(container_views(containers@), ws@).len() == 1 ==> (
        res matches Ok(argv) && strs(argv@) == exec_command(
            a,
            candidates(container_views(containers@), ws@)[0].local_folder.unwrap(),
            ws@,
        )),
        !a.help_requested && candidates(container_views(containers@), ws@).len() > 1 ==> (
        res matches Err(DevContainerExError::AmbiguousContainers(list)) && pair_views(list@)
            == candidate_pairs(candidates(container_views(containers@), ws@))),
{
    if a.help_requested {
        return Ok(a.into_argv(Vec::new()));
    }
    let ghost found = candidates(container_views(containers@), ws@);
    let positions = candidate_positions(ws, containers);
    assert(positions@.len() == found.len());
    if positions.len() == 0 {
        return Err(DevContainerExError::ContainerNotFound { workspace: ws.to_owned() });
    }
    if positions.len() > 1 {
        let mut list: Vec<(String, String)> = Vec::new();
        let mut k: usize = 0;
        while k < positions.len()
            invariant
                k <= positions@.len(),
                positions@.len() == found.len(),
                forall|m: int| 0 <= m < positions@.len() ==> positions@[m] < containers@.len(),
                positions@.map_values(|j: usize| containers@[j as int]@) == found,
                pair_views(list@) == candidate_pairs(found.take(k as int)),
            decreases positions@.len() - k,
        {
            let c = &containers[positions[k]];
            assert(found[k as int] == c@);
            let ghost before = list@;
            list.push((c.name.clone(), c.config_file.clone()));
            assert(found.take(k + 1) == found.take(k as int).push(c@));
            assert(pair_views(list@) == pair_views(before).push((c.name@, c.config_file@)));
            assert(candidate_pairs(found.take(k + 1)) == candidate_pairs(found.take(k as int)).push(
                (c@.name, c@.config_file),
            ));
            k = k + 1;
        }
        assert(found.take(found.len() as int) == found);
        return Err(DevContainerExError::AmbiguousContainers(list));
    }
    let c = &containers[positions[0]];
    assert(found[0] == c@);
    proof {
        lemma_candidates_qualify(container_views(containers@), ws@);
        assert(is_candidate(found[0], ws@));
    }
    let label = match &c.local_folder {
        Some(l) => l,
        None => {
            assert(false);
            return Err(DevContainerExError::ContainerNotFound { workspace: ws.to_owned() });
        },
    };
    let has_id_label = a.has_id_label;
    let has_workspace_flag = a.has_workspace_flag;
    let mut insert: Vec<String> = Vec::new();
    if !has_id_label {
        insert.push("--id-label".to_owned());
        let mut l = "devcontainer.local_folder=".to_owned();
        l.append(label.as_str());
        insert.push(l);
    }
    if !has_workspace_flag {
        insert.push("--workspace-folder".to_owned());
        insert.push(ws.to_owned());
    }
    assert(strs(insert@) == inserted_args(has_id_label, has_workspace_flag, label@, ws@));
    Ok(a.into_argv(insert))
}

/// The repository root that `git rev-parse --show-toplevel` printed: its
/// output without surrounding white space, none where that is empty.
pub fn toplevel_from_git_output(output: &str) -> (res: Option<String>)
    ensures
        match res {
            Some(t) => t@ == trim_spec(output@) && t@.len() > 0,
            None => trim_spec(output@).len() == 0,
        },
{
    let t = trim(output);
    if t.as_str().unicode_len() == 0 {
        None
    } else {
        Some(t)
    }
}


/// The command line handed on for an `exec` call is the call itself with the
/// inserted options right after its `exec` token.
pub proof fn law_insert_right_after_exec(
    argv: Seq<Seq<char>>,
    e: ExecArgs,
    label: Seq<char>,
    ws: Seq<char>,
)
    requires
        parsed_as_exec(argv, e),
    ensures
        exec_token_position(argv) matches Some(i) && exec_command(e, label, ws) == argv.take(i + 1)
            + inserted_args(e.has_id_label, e.has_workspace_flag, label, ws) + argv.skip(i + 1),
{
    let i = exec_token_position(argv)->0;
    assert(is_exec_token_at(argv, i));
    assert(argv.take(i + 1) == argv.take(i) + seq![exec_word()]);
}

/// A workspace path with a trailing `/` takes in the same configuration files
/// as the path without it.
pub proof fn law_trailing_slash_ignored(config_file: Seq<char>, ws: Seq<char>)
    ensures
        under_workspace(config_file, ws.push('/')) == under_workspace(config_file, ws),
{
    assert(ws.push('/').drop_last() == ws);
    assert(strip_trailing(ws.push('/'), '/') == strip_trailing(ws, '/'));
}


/// The command line handed on for an `exec` call, laid out: the arguments
/// before `exec`; `exec`; `--id-label` and `devcontainer.local_folder=<label>`
/// unless the call gives `--id-label`; `--workspace-folder` and the workspace
/// unless the call gives a workspace option, whatever it says of `--id-label`;
/// then the arguments after `exec`. Nothing else is added.
pub proof fn law_exec_command_layout(a: ExecArgs, label: Seq<char>, ws: Seq<char>)
    ensures
        exec_command(a, label, ws).len() == a.pre_args().len() + 1 + (if a.has_id_label {
            0int
        } else {
            2int
        }) + (if a.has_workspace_flag {
            0int
        } else {
            2int
        }) + a.post_args().len(),
        exec_command(a, label, ws).take(a.pre_args().len() as int) == a.pre_args(),
        exec_command(a, label, ws)[a.pre_args().len() as int] == "exec"@,
        !a.has_id_label ==> exec_command(a, label, ws)[a.pre_args().len() as int + 1] == "--id-label"@
            && exec_command(a, label, ws)[a.pre_args().len() as int + 2] == "devcontainer.local_folder="@
            + label,
        !a.has_workspace_flag ==> exec_command(a, label, ws)[a.pre_args().len() + 1 + (if a.has_id_label {
            0int
        } else {
            2int
        })] == "--workspace-folder"@ && exec_command(a, label, ws)[a.pre_args().len() + 2 + (
        if a.has_id_label {
            0int
        } else {
            2int
        })] == ws,
        exec_command(a, label, ws).skip(
            a.pre_args().len() + 1 + (if a.has_id_label {
                0int
            } else {
                2int
            }) + (if a.has_workspace_flag {
                0int
            } else {
                2int
            }),
        ) == a.post_args(),
{
    reveal_strlit("exec");
    reveal_strlit("--id-label");
    reveal_strlit("--workspace-folder");
    let p = a.pre_args().len() as int;
    let ins = inserted_args(a.has_id_label, a.has_workspace_flag, label, ws);
    let c = exec_command(a, label, ws);
    assert(c == a.pre_args() + seq![exec_word()] + ins + a.post_args());
    assert(c.take(p) == a.pre_args());
    assert(c.skip(p + 1 + ins.len()) == a.post_args());
    assert(forall|j: int| 0 <= j < ins.len() ==> c[p + 1 + j] == ins[j]);
}

proof fn lemma_strip_trailing_none(ws: Seq<char>)
    requires
        ws.len() == 0 || ws.last() != '/',
    ensures
        strip_trailing(ws, '/') == ws,
{
}

/// Every path below a workspace directory, at any depth, lies inside it: a
/// workspace path not ending in `/` takes in `ws/…` for every rest.
pub proof fn law_paths_below_workspace_are_inside(ws: Seq<char>, rest: Seq<char>)
    requires
        ws.len() == 0 || ws.last() != '/',
    ensures
        under_workspace(ws + seq!['/'] + rest, ws),
{
    lemma_strip_trailing_none(ws);
    let c = ws + seq!['/'] + rest;
    assert(c.take(ws.len() as int) == ws);
    assert(c[ws.len() as int] == '/');
}

/// Only the paths below a workspace directory lie inside it: for a workspace
/// path not ending in `/`, a configuration file is inside exactly when it
/// starts with the workspace path followed by `/`.
pub proof fn law_inside_workspace_exactly_below(config_file: Seq<char>, ws: Seq<char>)
    requires
        ws.len() == 0 || ws.last() != '/',
    ensures
        under_workspace(config_file, ws) <==> (config_file.len() > ws.len() && config_file.take(
            ws.len() as int,
        ) == ws && config_file[ws.len() as int] == '/'),
{
    lemma_strip_trailing_none(ws);
}


/// The containers that may be entered are, in their order, exactly those
/// that carry a local folder label and whose configuration file lies inside
/// the workspace.
pub proof fn law_candidates_are_labelled_and_inside(cs: Seq<ContainerView>, ws: Seq<char>)
    ensures
        candidates(cs, ws) == cs.filter(
            |c: ContainerView| c.local_folder is Some && under_workspace(c.config_file, ws),
        ),
    decreases cs.len(),
{
    reveal_with_fuel(Seq::<ContainerView>::filter, 1);
    if cs.len() > 0 {
        law_candidates_are_labelled_and_inside(cs.drop_last(), ws);
    }
}

} // verus!
