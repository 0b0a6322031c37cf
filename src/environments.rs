use vstd::prelude::*;

use crate::formatter::{args_view, Invocation};
use crate::text::{chars_of, string_from, trim, trim_chars};

verus! {

/// The kinds of interpreter environment a project can carry.
#[derive(Debug, Clone, Copy, PartialEq, Eq, Structural)]
pub enum EnvKind {
    /// A virtual environment directory inside the project.
    Venv,
    /// A conda environment described by `environment.yml`.
    Conda,
    /// A Poetry-managed environment, marked by `poetry.lock`.
    Poetry,
    /// A Pipenv-managed environment, marked by `Pipfile`.
    Pipenv,
}

/// One probe of a project directory: the entry to look for, the kind of
/// environment it marks, and for a manager's manifest the command that
/// prints where the manager keeps the environment.
#[derive(Debug, Clone, PartialEq, Eq)]
pub struct EnvProbe {
    pub entry: String,
    pub kind: EnvKind,
    pub locate: Option<Invocation>,
}

/// A discovered environment: where it lives, and its kind.
#[derive(Debug, Clone, PartialEq, Eq)]
pub struct Environment {
    pub path: String,
    pub kind: EnvKind,
}

/// The entries probed, in order, with the kind each marks.
pub open spec fn probe_entries() -> Seq<(Seq<char>, EnvKind)> {
    seq![
        (".venv"@, EnvKind::Venv),
        ("venv"@, EnvKind::Venv),
        ("env"@, EnvKind::Venv),
        ("environment.yml"@, EnvKind::Conda),
        ("poetry.lock"@, EnvKind::Poetry),
        ("Pipfile"@, EnvKind::Pipenv),
    ]
}

/// The command that prints where the manager of `kind` keeps the environment.
pub open spec fn locate_command(kind: EnvKind) -> Option<(Seq<char>, Seq<Seq<char>>)> {
    match kind {
        EnvKind::Poetry => Some(("poetry"@, seq!["env"@, "info"@, "--path"@])),
        EnvKind::Pipenv => Some(("pipenv"@, seq!["--venv"@])),
        _ => None,
    }
}

fn locate_invocation(kind: EnvKind) -> (r: Option<Invocation>)
    ensures
        r is None <==> locate_command(kind) is None,
        r matches Some(inv) ==> locate_command(kind) == Some((inv.program@, args_view(inv.args@))),
{
    match kind {
        EnvKind::Poetry => {
            let mut args: Vec<String> = Vec::new();
            args.push(String::from_str("env"));
            args.push(String::from_str("info"));
            args.push(String::from_str("--path"));
            let inv = Invocation { program: String::from_str("poetry"), args };
            assert(args_view(inv.args@) =~= seq!["env"@, "info"@, "--path"@]);
            Some(inv)
        },
        EnvKind::Pipenv => {
            let mut args: Vec<String> = Vec::new();
            args.push(String::from_str("--venv"));
            let inv = Invocation { program: String::from_str("pipenv"), args };
            assert(args_view(inv.args@) =~= seq!["--venv"@]);
            Some(inv)
        },
        _ => None,
    }
}

fn probe(entry: &str, kind: EnvKind) -> (r: EnvProbe)
    ensures
        r.entry@ == entry@,
        r.kind == kind,
        r.locate is None <==> locate_command(kind) is None,
        r.locate matches Some(inv) ==> locate_command(kind) == Some((inv.program@, args_view(inv.args@))),
{
    EnvProbe { entry: String::from_str(entry), kind, locate: locate_invocation(kind) }
}

/// The probes of a project directory, in the order they are made.
pub fn environment_probes() -> (r: Vec<EnvProbe>)
    ensures
        r@.len() == probe_entries().len(),
        forall|i: int| 0 <= i < r@.len() ==> (#[trigger] r@[i]).entry@ == probe_entries()[i].0
            && r@[i].kind == probe_entries()[i].1,
        forall|i: int| 0 <= i < r@.len() ==> ((#[trigger] r@[i]).locate is None <==> locate_command(r@[i].kind) is None),
        forall|i: int| 0 <= i < r@.len() ==> ((#[trigger] r@[i]).locate matches Some(inv)
            ==> locate_command(r@[i].kind) == Some((inv.program@, args_view(inv.args@)))),
{
    let mut r: Vec<EnvProbe> = Vec::new();
    r.push(probe(".venv", EnvKind::Venv));
    r.push(probe("venv", EnvKind::Venv));
    r.push(probe("env", EnvKind::Venv));
    r.push(probe("environment.yml", EnvKind::Conda));
    r.push(probe("poetry.lock", EnvKind::Poetry));
    r.push(probe("Pipfile", EnvKind::Pipenv));
    r
}

/// The environment a probe found, given the path of the entry it found and,
/// for a manager with a locate command, how that command ended: a virtual
/// environment or conda manifest is reported at the entry's path; a managed
/// environment at the trimmed output of its command, unless the command
/// failed or printed nothing.
pub fn resolve_environment(kind: EnvKind, entry_path: String, located: Option<Result<String, String>>) -> (r: Option<Environment>)
    ensures
        locate_command(kind) is None ==> (r matches Some(e) && e.kind == kind && e.path@ == entry_path@),
        locate_command(kind) is Some ==> match located {
            Some(Ok(out)) => if trim(out@).len() > 0 {
                r matches Some(e) && e.kind == kind && e.path@ == trim(out@)
            } else {
                r is None
            },
            _ => r is None,
        },
{
    match kind {
        EnvKind::Venv | EnvKind::Conda => Some(Environment { path: entry_path, kind }),
        _ => match located {
            Some(Ok(out)) => {
                let t = trim_chars(&chars_of(out.as_str()));
                if t.len() > 0 {
                    Some(Environment { path: string_from(&t), kind })
                } else {
                    None
                }
            },
            _ => None,
        },
    }
}

} // verus!
