//! Choice of the container runtime and the command line that starts the
//! isolated renderer. Spawning the process is left to the caller.
use vstd::prelude::*;

verus! {

/// Errors of container handling.
#[derive(Debug, Clone, PartialEq)]
pub enum ContainerError {
    /// The process could not be started or fed; the text describes why.
    Io(String),
    ExecutionFailed(String),
    InvalidName(String),
}

/// Supported container runtimes.
#[derive(Debug, Clone, Copy, PartialEq, Eq, Structural)]
pub enum ContainerRuntime {
    Podman,
    Docker,
}

/// Program name of a runtime.
pub open spec fn runtime_program(rt: ContainerRuntime) -> Seq<char> {
    match rt {
        ContainerRuntime::Podman => "podman"@,
        ContainerRuntime::Docker => "docker"@,
    }
}

/// Text of the failure when no runtime is present.
pub open spec fn no_runtime_text() -> Seq<char> {
    "No container runtime (podman or docker) found"@
}

/// Text of the failure on an empty container name.
pub open spec fn empty_name_text() -> Seq<char> {
    "Container name cannot be empty"@
}

/// Views of a sequence of string slices.
pub open spec fn str_views(s: Seq<&str>) -> Seq<Seq<char>> {
    s.map_values(|x: &str| x@)
}

/// Views of a sequence of strings.
pub open spec fn string_views(s: Seq<String>) -> Seq<Seq<char>> {
    s.map_values(|x: String| x@)
}

/// Arguments given to the runtime program: run interactively, remove the
/// container on exit, name it, then the extra options, the image, and the
/// command run inside it.
pub open spec fn run_argument_list(
    name: Seq<char>,
    image: Seq<char>,
    command: Seq<Seq<char>>,
    extra: Seq<Seq<char>>,
) -> Seq<Seq<char>> {
    seq!["run"@, "-i"@, "--rm"@, "--name"@, name] + extra + seq![image] + command
}

/// What `detect` returns given what was found: podman first, then docker,
/// else an execution failure.
pub open spec fn detected(podman_available: bool, docker_available: bool, r: Result<ContainerRuntime, ContainerError>) -> bool {
    if podman_available {
        r == Ok::<ContainerRuntime, ContainerError>(ContainerRuntime::Podman)
    } else if docker_available {
        r == Ok::<ContainerRuntime, ContainerError>(ContainerRuntime::Docker)
    } else {
        r matches Err(ContainerError::ExecutionFailed(m)) && m@ == no_runtime_text()
    }
}

impl ContainerRuntime {
    /// Program name of this runtime.
    pub fn command(&self) -> (r: &'static str)
        ensures
            r@ == runtime_program(*self),
    {
        match self {
            ContainerRuntime::Podman => "podman",
            ContainerRuntime::Docker => "docker",
        }
    }

    /// Picks the runtime from what was found on the system: podman when it
    /// answers, else docker when it answers, else an execution failure.
    pub fn detect(podman_available: bool, docker_available: bool) -> (r: Result<ContainerRuntime, ContainerError>)
        ensures
            detected(podman_available, docker_available, r),
    {
        if podman_available {
            return Ok(ContainerRuntime::Podman);
        }
        if docker_available {
            return Ok(ContainerRuntime::Docker);
        }
        Err(ContainerError::ExecutionFailed("No container runtime (podman or docker) found".to_owned()))
    }
}

/// A named container to run on a runtime.
pub struct ContainerRunner {
    container_name: String,
    runtime: ContainerRuntime,
}

impl ContainerRunner {
    /// The container's name.
    pub closed spec fn name(&self) -> Seq<char> {
        self.container_name@
    }

    /// The runtime in use.
    pub closed spec fn selected_runtime(&self) -> ContainerRuntime {
        self.runtime
    }

    /// A runner for `container_name` on podman.
    pub fn new(container_name: String) -> (r: ContainerRunner)
        ensures
            r.name() == container_name@,
            r.selected_runtime() == ContainerRuntime::Podman,
    {
        ContainerRunner { container_name, runtime: ContainerRuntime::Podman }
    }

    /// A runner for `container_name` on `runtime`.
    pub fn with_runtime(container_name: String, runtime: ContainerRuntime) -> (r: ContainerRunner)
        ensures
            r.name() == container_name@,
            r.selected_runtime() == runtime,
    {
        ContainerRunner { container_name, runtime }
    }

    /// A runner for `container_name` on the runtime that `detect` picks from
    /// what was found on the system.
    pub fn with_auto_runtime(container_name: String, podman_available: bool, docker_available: bool) -> (r:
        Result<ContainerRunner, ContainerError>)
        ensures
            detected(
                podman_available,
                docker_available,
                match r {
                    Ok(runner) => Ok(runner.selected_runtime()),
                    Err(e) => Err(e),
                },
            ),
            r matches Ok(runner) ==> runner.name() == container_name@,
    {
        let runtime = match ContainerRuntime::detect(podman_available, docker_available) {
            Ok(rt) => rt,
            Err(e) => return Err(e),
        };
        Ok(ContainerRunner { container_name, runtime })
    }

    /// The container's name.
    pub fn container_name(&self) -> (r: &str)
        ensures
            r@ == self.name(),
    {
        self.container_name.as_str()
    }

    /// The runtime in use.
    pub fn runtime(&self) -> (r: ContainerRuntime)
        ensures
            r == self.selected_runtime(),
    {
        self.runtime
    }

    /// Arguments for the runtime program that start `image` running
    /// `command`, with `extra_args` before the image. An empty container
    /// name is refused.
    pub fn run_arguments(&self, image: &str, command: &[&str], extra_args: &[&str]) -> (r: Result<
        Vec<String>,
        ContainerError,
    >)
        ensures
            self.name().len() == 0 <==> r is Err,
            r matches Err(e) ==> (e matches ContainerError::InvalidName(m) && m@ == empty_name_text()),
            r matches Ok(args) ==> string_views(args@) == run_argument_list(
                self.name(),
                image@,
                str_views(command@),
                str_views(extra_args@),
            ),
    {
        if self.container_name.as_str().is_empty() {
            return Err(ContainerError::InvalidName("Container name cannot be empty".to_owned()));
        }
        let mut args: Vec<String> = Vec::new();
        args.push("run".to_owned());
        args.push("-i".to_owned());
        args.push("--rm".to_owned());
        args.push("--name".to_owned());
        args.push(self.container_name.clone());
        let ghost head = string_views(args@);
        assert(head =~= seq!["run"@, "-i"@, "--rm"@, "--name"@, self.name()]);
        let mut i: usize = 0;
        while i < extra_args.len()
            invariant
                i <= extra_args@.len(),
                string_views(args@) == head + str_views(extra_args@).take(i as int),
            decreases extra_args@.len() - i,
        {
            let ghost before = args@;
            args.push(extra_args[i].to_owned());
            assert(string_views(args@) =~= string_views(before).push(extra_args@[i as int]@));
            assert(str_views(extra_args@).take(i + 1) =~= str_views(extra_args@).take(i as int).push(
                extra_args@[i as int]@,
            ));
            i = i + 1;
        }
        assert(str_views(extra_args@).take(i as int) =~= str_views(extra_args@));
        let ghost before_image = args@;
        args.push(image.to_owned());
        assert(string_views(args@) =~= string_views(before_image).push(image@));
        let ghost middle = string_views(args@);
        let mut j: usize = 0;
        while j < command.len()
            invariant
                j <= command@.len(),
                string_views(args@) == middle + str_views(command@).take(j as int),
            decreases command@.len() - j,
        {
            let ghost before = args@;
            args.push(command[j].to_owned());
            assert(string_views(args@) =~= string_views(before).push(command@[j as int]@));
            assert(str_views(command@).take(j + 1) =~= str_views(command@).take(j as int).push(
                command@[j as int]@,
            ));
            j = j + 1;
        }
        assert(str_views(command@).take(j as int) =~= str_views(command@));
        assert(string_views(args@) =~= run_argument_list(
            self.name(),
            image@,
            str_views(command@),
            str_views(extra_args@),
        ));
        Ok(args)
    }
}

} // verus!
