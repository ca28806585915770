//! The CI subcommands as data: each command says which cargo invocation it
//! stands for, and the caller runs it.

use vstd::prelude::*;
use crate::text::owned;

verus! {

/// The toolchain a cargo invocation runs on.
#[derive(Clone, Copy, Debug, PartialEq, Eq, Structural)]
pub enum RustChannel {
    Stable,
    Nightly,
}

/// A cargo invocation: the cargo subcommand, the name its JSON report is
/// filed under (none when plain output is wanted), the toolchain, the extra
/// arguments and the environment variables to set.
#[derive(Clone, Debug)]
pub struct CargoCommand {
    pub command: String,
    pub json_name: Option<String>,
    pub channel: RustChannel,
    pub flags: Vec<String>,
    pub env_vars: Vec<(String, String)>,
}

/// A cargo invocation with its strings as plain values.
pub struct CargoCommandView {
    pub command: Seq<char>,
    pub json_name: Option<Seq<char>>,
    pub channel: RustChannel,
    pub flags: Seq<Seq<char>>,
    pub env_vars: Seq<(Seq<char>, Seq<char>)>,
}

impl View for CargoCommand {
    type V = CargoCommandView;

    open spec fn view(&self) -> CargoCommandView {
        CargoCommandView {
            command: self.command@,
            json_name: match self.json_name {
                Some(n) => Some(n@),
                None => None,
            },
            channel: self.channel,
            flags: self.flags@.map_values(|f: String| f@),
            env_vars: self.env_vars@.map_values(|e: (String, String)| (e.0@, e.1@)),
        }
    }
}

/// The invocation with the given parts; `json` selects the JSON report.
pub open spec fn invocation(
    command: Seq<char>,
    name: Seq<char>,
    json: bool,
    channel: RustChannel,
    flags: Seq<Seq<char>>,
    env_vars: Seq<(Seq<char>, Seq<char>)>,
) -> CargoCommandView {
    CargoCommandView {
        command,
        json_name: if json {
            Some(name)
        } else {
            None
        },
        channel,
        flags,
        env_vars,
    }
}

/// What `bench-check` runs.
pub open spec fn bench_check_spec(json: bool) -> CargoCommandView {
    invocation(
        "check"@,
        "bench-check"@,
        json,
        RustChannel::Stable,
        seq!["--benches"@, "--target-dir"@, "../target"@],
        Seq::empty(),
    )
}

/// What `cfg-check` runs.
pub open spec fn cfg_check_spec(json: bool) -> CargoCommandView {
    invocation(
        "check"@,
        "cfg-check"@,
        json,
        RustChannel::Nightly,
        seq!["-Zcheck-cfg"@, "--workspace"@],
        seq![("RUSTFLAGS"@, "-D warnings"@)],
    )
}

/// What `doc-check` runs.
pub open spec fn doc_check_spec(json: bool) -> CargoCommandView {
    invocation(
        "doc"@,
        "doc-check"@,
        json,
        RustChannel::Stable,
        seq!["--workspace"@, "--all-features"@, "--no-deps"@, "--document-private-items"@],
        Seq::empty(),
    )
}

fn json_name(name: &str, json: bool) -> (r: Option<String>)
    ensures
        r is Some <==> json,
        json ==> r->Some_0@ == name@,
{
    if json {
        Some(owned(name))
    } else {
        None
    }
}

fn bench_check(json: bool) -> (r: CargoCommand)
    ensures
        r@ == bench_check_spec(json),
{
    let r = CargoCommand {
        command: owned("check"),
        json_name: json_name("bench-check", json),
        channel: RustChannel::Stable,
        flags: vec![owned("--benches"), owned("--target-dir"), owned("../target")],
        env_vars: Vec::new(),
    };
    assert(r@.flags =~= bench_check_spec(json).flags);
    assert(r@.env_vars =~= bench_check_spec(json).env_vars);
    r
}

fn cfg_check(json: bool) -> (r: CargoCommand)
    ensures
        r@ == cfg_check_spec(json),
{
    let r = CargoCommand {
        command: owned("check"),
        json_name: json_name("cfg-check", json),
        channel: RustChannel::Nightly,
        flags: vec![owned("-Zcheck-cfg"), owned("--workspace")],
        env_vars: vec![(owned("RUSTFLAGS"), owned("-D warnings"))],
    };
    assert(r@.flags =~= cfg_check_spec(json).flags);
    assert(r@.env_vars =~= cfg_check_spec(json).env_vars);
    r
}

fn doc_check(json: bool) -> (r: CargoCommand)
    ensures
        r@ == doc_check_spec(json),
{
    let r = CargoCommand {
        command: owned("doc"),
        json_name: json_name("doc-check", json),
        channel: RustChannel::Stable,
        flags: vec![
            owned("--workspace"),
            owned("--all-features"),
            owned("--no-deps"),
            owned("--document-private-items"),
        ],
        env_vars: Vec::new(),
    };
    assert(r@.flags =~= doc_check_spec(json).flags);
    assert(r@.env_vars =~= doc_check_spec(json).env_vars);
    r
}

/// Checks that the benches compile.
#[derive(Clone, Copy, Debug, Default)]
pub struct BenchCheckCommand {
    /// emit errors as json
    pub emit_json: bool,
}

impl BenchCheckCommand {
    /// The invocation with plain output.
    pub fn run_with_intermediate() -> (r: CargoCommand)
        ensures
            r@ == bench_check_spec(false),
    {
        bench_check(false)
    }

    /// The invocation with a JSON report.
    pub fn run_with_intermediate_json() -> (r: CargoCommand)
        ensures
            r@ == bench_check_spec(true),
    {
        bench_check(true)
    }

    /// The invocation this command stands for.
    pub fn run(self) -> (r: CargoCommand)
        ensures
            r@ == bench_check_spec(self.emit_json),
    {
        if self.emit_json {
            Self::run_with_intermediate_json()
        } else {
            Self::run_with_intermediate()
        }
    }
}

/// Checks that the project compiles using the nightly compiler with cfg
/// checks enabled.
#[derive(Clone, Copy, Debug, Default)]
pub struct CfgCheckCommand {
    /// emit errors as json
    pub emit_json: bool,
}

impl CfgCheckCommand {
    /// The invocation with plain output.
    pub fn run_with_intermediate() -> (r: CargoCommand)
        ensures
            r@ == cfg_check_spec(false),
    {
        cfg_check(false)
    }

    /// The invocation with a JSON report.
    pub fn run_with_intermediate_json() -> (r: CargoCommand)
        ensures
            r@ == cfg_check_spec(true),
    {
        cfg_check(true)
    }

    /// The invocation this command stands for.
    pub fn run(self) -> (r: CargoCommand)
        ensures
            r@ == cfg_check_spec(self.emit_json),
    {
        if self.emit_json {
            Self::run_with_intermediate_json()
        } else {
            Self::run_with_intermediate()
        }
    }
}

/// Checks that all docs compile.
#[derive(Clone, Copy, Debug, Default)]
pub struct DocCheckCommand {
    /// emit errors as json
    pub emit_json: bool,
}

impl DocCheckCommand {
    /// The invocation with plain output.
    pub fn run_with_intermediate() -> (r: CargoCommand)
        ensures
            r@ == doc_check_spec(false),
    {
        doc_check(false)
    }

    /// The invocation with a JSON report.
    pub fn run_with_intermediate_json() -> (r: CargoCommand)
        ensures
            r@ == doc_check_spec(true),
    {
        doc_check(true)
    }

    /// The invocation this command stands for.
    pub fn run(self) -> (r: CargoCommand)
        ensures
            r@ == doc_check_spec(self.emit_json),
    {
        if self.emit_json {
            Self::run_with_intermediate_json()
        } else {
            Self::run_with_intermediate()
        }
    }
}

/// What to do after the format check has run.
#[derive(Clone, Copy, Debug, PartialEq, Eq)]
pub enum LintsStep {
    /// Stop with this outcome.
    Finish(Result<(), ()>),
    /// Run the clippy check; its outcome is the command's.
    RunClippy,
}

/// Alias for running the `format` and `clippy` subcommands.
#[derive(Clone, Copy, Debug, Default)]
pub struct LintsCommand {}

impl LintsCommand {
    /// Decides, from the outcome of the format check, whether to stop or to
    /// go on with clippy: a failed format check stops the run unless
    /// `no_fail_fast` is set.
    pub fn run(self, no_fail_fast: bool, format_result: Result<(), ()>) -> (r: LintsStep)
        ensures
            r == (if !no_fail_fast && format_result is Err {
                LintsStep::Finish(format_result)
            } else {
                LintsStep::RunClippy
            }),
    {
        if !no_fail_fast && format_result.is_err() {
            return LintsStep::Finish(format_result);
        }
        LintsStep::RunClippy
    }
}

} // verus!
