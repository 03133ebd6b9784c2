//! The values the backend works on: what a container is to look like, what an `msb`
//! invocation returned, and how a request fails.

use vstd::prelude::*;
use vstd::string::*;

use crate::text;

verus! {

/// The transport protocol of a published port or of a network link.
#[derive(Clone, Copy, Debug, PartialEq, Eq, Structural)]
pub enum Protocol {
    Tcp,
    Udp,
}

/// One published port.
#[derive(Clone, Copy, Debug, PartialEq, Eq, Structural)]
pub struct PortBinding {
    pub host_port: u16,
    pub guest_port: u16,
    pub protocol: Protocol,
}

/// One host file mounted into the guest.
#[derive(Clone, Debug)]
pub struct FileMount {
    pub host_path: String,
    pub guest_path: String,
    pub read_only: bool,
}

impl FileMount {
    /// A mount that the guest may write to.
    pub fn new(host_path: String, guest_path: String) -> (mount: FileMount)
        ensures
            mount.host_path == host_path,
            mount.guest_path == guest_path,
            !mount.read_only,
    {
        FileMount { host_path, guest_path, read_only: false }
    }

    /// The same mount, which the guest may only read.
    pub fn read_only(self) -> (mount: FileMount)
        ensures
            mount.host_path == self.host_path,
            mount.guest_path == self.guest_path,
            mount.read_only,
    {
        FileMount { host_path: self.host_path, guest_path: self.guest_path, read_only: true }
    }
}

/// A link from a port inside a guest to a port on the host.
#[derive(Clone, Debug, PartialEq, Eq)]
pub struct NetworkLink {
    pub alias: String,
    pub guest_port: u16,
    pub target_host_port: u16,
    pub protocol: Protocol,
}

/// What one `msb` invocation left behind.
#[derive(Clone, Debug)]
pub struct ExecResult {
    pub exit_code: i32,
    pub stdout: String,
    pub stderr: String,
}

/// What a backend is able to do.
#[derive(Clone, Copy, Debug, PartialEq, Eq, Structural)]
pub struct Capabilities {
    pub hardware_isolated: bool,
    pub checkpoint: bool,
    pub checkpoint_restarts_workload: bool,
}

/// What a container is to look like.
#[derive(Clone, Debug)]
pub struct ContainerSpec {
    pub name: String,
    pub image: String,
    pub env: Vec<(String, String)>,
    pub command: Option<Vec<String>>,
    pub ports: Vec<PortBinding>,
    pub mounts: Vec<FileMount>,
    pub network_id: Option<String>,
    pub aliases: Vec<String>,
    pub run_id: String,
    pub memory_limit_mb: Option<u64>,
    pub keep_alive: bool,
    pub checkpoint_ref: Option<String>,
    pub disk_limit_mb: Option<u64>,
    pub tmpfs_root_mb: Option<u64>,
    pub network_disabled: bool,
    pub checkpoint_captured_cmdline: Option<Vec<String>>,
    pub restore_name_candidates: Option<Vec<String>>,
}

impl ContainerSpec {
    /// A container with a name, an image and a run, and nothing else asked for.
    pub fn new(name: &str, image: &str, run_id: &str) -> (spec: ContainerSpec)
        ensures
            spec.name@ == name@,
            spec.image@ == image@,
            spec.run_id@ == run_id@,
            spec.env@.len() == 0,
            spec.command is None,
            spec.ports@.len() == 0,
            spec.mounts@.len() == 0,
            spec.network_id is None,
            spec.aliases@.len() == 0,
            spec.memory_limit_mb is None,
            !spec.keep_alive,
            spec.checkpoint_ref is None,
            spec.disk_limit_mb is None,
            spec.tmpfs_root_mb is None,
            !spec.network_disabled,
            spec.checkpoint_captured_cmdline is None,
            spec.restore_name_candidates is None,
    {
        ContainerSpec {
            name: name.to_owned(),
            image: image.to_owned(),
            env: Vec::new(),
            command: None,
            ports: Vec::new(),
            mounts: Vec::new(),
            network_id: None,
            aliases: Vec::new(),
            run_id: run_id.to_owned(),
            memory_limit_mb: None,
            keep_alive: false,
            checkpoint_ref: None,
            disk_limit_mb: None,
            tmpfs_root_mb: None,
            network_disabled: false,
            checkpoint_captured_cmdline: None,
            restore_name_candidates: None,
        }
    }
}

/// How a request to the backend fails.
#[derive(Clone, Debug)]
pub enum RightsizeError {
    /// The backend could not do what was asked; the text says why.
    Backend(String),
    /// A host port was taken.
    PortBindConflict { message: String },
    /// A sandbox of that name was there already.
    NameConflict { message: String },
    /// The toolchain could not be put in place.
    Provision(String),
    /// The backend cannot do this at all.
    Unsupported { feature: String, backend: String, remedy: Option<String> },
    /// A container whose root file system lives in memory has no disk to checkpoint.
    TmpfsRootCheckpoint,
    /// The operating system refused.
    Io(String),
}

/// The contents of a [`RightsizeError`].
pub enum ErrorView {
    Backend(Seq<char>),
    PortBindConflict(Seq<char>),
    NameConflict(Seq<char>),
    Provision(Seq<char>),
    Unsupported(Seq<char>, Seq<char>, Option<Seq<char>>),
    TmpfsRootCheckpoint,
    Io(Seq<char>),
}

/// The contents of an optional text.
pub open spec fn text_option(text: Option<String>) -> Option<Seq<char>> {
    match text {
        Some(text) => Some(text@),
        None => None,
    }
}

impl View for RightsizeError {
    type V = ErrorView;

    open spec fn view(&self) -> ErrorView {
        match self {
            RightsizeError::Backend(message) => ErrorView::Backend(message@),
            RightsizeError::PortBindConflict { message } => ErrorView::PortBindConflict(message@),
            RightsizeError::NameConflict { message } => ErrorView::NameConflict(message@),
            RightsizeError::Provision(message) => ErrorView::Provision(message@),
            RightsizeError::Unsupported { feature, backend, remedy } => ErrorView::Unsupported(
                feature@,
                backend@,
                text_option(*remedy),
            ),
            RightsizeError::TmpfsRootCheckpoint => ErrorView::TmpfsRootCheckpoint,
            RightsizeError::Io(message) => ErrorView::Io(message@),
        }
    }
}

/// The text an error is shown as.
pub open spec fn error_text(error: ErrorView) -> Seq<char> {
    match error {
        ErrorView::Backend(message) => message,
        ErrorView::PortBindConflict(message) => message,
        ErrorView::NameConflict(message) => message,
        ErrorView::Provision(message) => message,
        ErrorView::Unsupported(feature, backend, remedy) => match remedy {
            Some(remedy) => feature + " is not supported by the "@ + backend + " backend — "@
                + remedy,
            None => feature + " is not supported by the "@ + backend + " backend"@,
        },
        ErrorView::TmpfsRootCheckpoint =>
            "a container with a tmpfs root has no disk state to checkpoint"@,
        ErrorView::Io(message) => message,
    }
}

impl RightsizeError {
    /// The text the error is shown as.
    pub fn message(&self) -> (text: String)
        ensures
            text@ == error_text(self@),
    {
        match self {
            RightsizeError::Backend(message) => message.clone(),
            RightsizeError::PortBindConflict { message } => message.clone(),
            RightsizeError::NameConflict { message } => message.clone(),
            RightsizeError::Provision(message) => message.clone(),
            RightsizeError::Unsupported { feature, backend, remedy } => {
                let mut text = feature.clone();
                text.append(" is not supported by the ");
                text.append(backend.as_str());
                match remedy {
                    Some(remedy) => {
                        text.append(" backend — ");
                        text.append(remedy.as_str());
                    },
                    None => {
                        text.append(" backend");
                    },
                }
                text
            },
            RightsizeError::TmpfsRootCheckpoint =>
                "a container with a tmpfs root has no disk state to checkpoint".to_owned(),
            RightsizeError::Io(message) => message.clone(),
        }
    }
}

/// An error that carries a text is shown as that text; one that names a feature tells the
/// feature, the backend and the way around it, where there is one.
pub proof fn law_errors_are_shown_as_they_are(
    message: Seq<char>,
    feature: Seq<char>,
    backend: Seq<char>,
    remedy: Seq<char>,
)
    ensures
        error_text(ErrorView::Backend(message)) == message,
        error_text(ErrorView::PortBindConflict(message)) == message,
        error_text(ErrorView::NameConflict(message)) == message,
        error_text(ErrorView::Provision(message)) == message,
        error_text(ErrorView::Io(message)) == message,
        ({
            let shown = error_text(ErrorView::Unsupported(feature, backend, Some(remedy)));
            &&& text::contains_text(shown, feature)
            &&& text::contains_text(shown, backend)
            &&& text::contains_text(shown, remedy)
        }),
        ({
            let shown = error_text(ErrorView::Unsupported(feature, backend, None));
            text::contains_text(shown, feature) && text::contains_text(shown, backend)
        }),
{
    let long = error_text(ErrorView::Unsupported(feature, backend, Some(remedy)));
    let short = error_text(ErrorView::Unsupported(feature, backend, None));
    let middle = " is not supported by the "@;
    text::law_a_text_is_contained_in_what_surrounds_it(
        Seq::empty(),
        feature,
        middle + backend + " backend — "@ + remedy,
    );
    text::law_a_text_is_contained_in_what_surrounds_it(
        feature + middle,
        backend,
        " backend — "@ + remedy,
    );
    text::law_a_text_is_contained_in_what_surrounds_it(
        feature + middle + backend + " backend — "@,
        remedy,
        Seq::empty(),
    );
    assert(long =~= Seq::empty() + feature + (middle + backend + " backend — "@ + remedy));
    assert(long =~= feature + middle + backend + (" backend — "@ + remedy));
    assert(long =~= feature + middle + backend + " backend — "@ + remedy + Seq::empty());
    text::law_a_text_is_contained_in_what_surrounds_it(
        Seq::empty(),
        feature,
        middle + backend + " backend"@,
    );
    text::law_a_text_is_contained_in_what_surrounds_it(feature + middle, backend, " backend"@);
    assert(short =~= Seq::empty() + feature + (middle + backend + " backend"@));
    assert(short =~= feature + middle + backend + " backend"@);
}

} // verus!
