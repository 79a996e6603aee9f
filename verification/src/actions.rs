//! The launcher's decisions: which program an action starts on which
//! target, and the command line that a launcher entry stands for.
//!
//! Nothing is started here. A caller gets the launch to perform and performs
//! it.

use vstd::prelude::*;
use vstd::string::StringExecFns;
use crate::config::{apps_view, AppConfig, AppConfigView};
use crate::text::{chars_of, contains_word, occurs, replace_word, replaced, same_text};

verus! {

/// What an action is applied to. The two kinds are told apart because some
/// actions take only one of them.
#[derive(Debug, Clone)]
pub enum ActionTarget {
    Folder(String),
    File(String),
}

/// The launch that an action comes down to, with the path it is made on.
#[derive(Debug, Clone)]
pub enum Launch {
    /// Open the folder in the code editor.
    Editor(String),
    /// Show the file or folder in the file explorer.
    Explorer(String),
    /// Open the file with the program that the system has for it.
    SystemDefault(String),
}

/// Why nothing is launched.
#[derive(Debug, Clone)]
pub enum ActionError {
    /// The action is not known, or does not take this kind of target.
    Incompatible,
    /// No launcher entry has this id.
    UnknownApp(String),
}

/// What a [`Launch`] says, as mathematical values.
pub enum LaunchView {
    Editor(Seq<char>),
    Explorer(Seq<char>),
    SystemDefault(Seq<char>),
}

impl View for Launch {
    type V = LaunchView;

    open spec fn view(&self) -> LaunchView {
        match self {
            Launch::Editor(path) => LaunchView::Editor(path@),
            Launch::Explorer(path) => LaunchView::Explorer(path@),
            Launch::SystemDefault(path) => LaunchView::SystemDefault(path@),
        }
    }
}

/// What an [`ActionTarget`] says, as mathematical values.
pub enum ActionTargetView {
    Folder(Seq<char>),
    File(Seq<char>),
}

impl View for ActionTarget {
    type V = ActionTargetView;

    open spec fn view(&self) -> ActionTargetView {
        match self {
            ActionTarget::Folder(path) => ActionTargetView::Folder(path@),
            ActionTarget::File(path) => ActionTargetView::File(path@),
        }
    }
}

/// The kinds of target.
#[derive(Debug, Clone, Copy, PartialEq, Eq, Structural)]
pub enum TargetKind {
    Folder,
    File,
}

/// The built-in actions.
#[derive(Debug, Clone, Copy, PartialEq, Eq, Structural)]
pub enum Action {
    OpenVscode,
    OpenInExplorer,
    OpenDefault,
}

impl ActionTargetView {
    /// The kind of the target.
    pub open spec fn kind(self) -> TargetKind {
        match self {
            ActionTargetView::Folder(_) => TargetKind::Folder,
            ActionTargetView::File(_) => TargetKind::File,
        }
    }

    /// The path of the target.
    pub open spec fn path(self) -> Seq<char> {
        match self {
            ActionTargetView::Folder(path) => path,
            ActionTargetView::File(path) => path,
        }
    }
}

impl Action {
    /// The table of target kinds: `open_vscode` takes folders,
    /// `open_in_explorer` takes folders and files, `open_default` takes
    /// files.
    pub open spec fn takes(self, kind: TargetKind) -> bool {
        match self {
            Action::OpenVscode => kind is Folder,
            Action::OpenInExplorer => true,
            Action::OpenDefault => kind is File,
        }
    }

    /// The launch that the action makes on a path.
    pub open spec fn launch(self, path: Seq<char>) -> LaunchView {
        match self {
            Action::OpenVscode => LaunchView::Editor(path),
            Action::OpenInExplorer => LaunchView::Explorer(path),
            Action::OpenDefault => LaunchView::SystemDefault(path),
        }
    }

    /// Tells whether the action takes targets of a kind.
    pub fn accepts(&self, kind: TargetKind) -> (out: bool)
        ensures
            out == self.takes(kind),
    {
        match self {
            Action::OpenVscode => matches!(kind, TargetKind::Folder),
            Action::OpenInExplorer => true,
            Action::OpenDefault => matches!(kind, TargetKind::File),
        }
    }
}

/// The table of action ids: the action that an id names, if any.
pub open spec fn action_named(action_id: Seq<char>) -> Option<Action> {
    if action_id == "open_vscode"@ {
        Some(Action::OpenVscode)
    } else if action_id == "open_in_explorer"@ {
        Some(Action::OpenInExplorer)
    } else if action_id == "open_default"@ {
        Some(Action::OpenDefault)
    } else {
        None
    }
}

/// The launch that an action id stands for on a target: that of the action
/// with this id, where there is one and it takes targets of this kind.
pub open spec fn launch_for(action_id: Seq<char>, target: ActionTargetView) -> Option<LaunchView> {
    match action_named(action_id) {
        Some(action) => if action.takes(target.kind()) {
            Some(action.launch(target.path()))
        } else {
            None
        },
        None => None,
    }
}

/// Looks an action up by its id.
pub fn action_with_id(action_id: &str) -> (out: Option<Action>)
    ensures
        out == action_named(action_id@),
{
    if same_text(action_id, "open_vscode") {
        Some(Action::OpenVscode)
    } else if same_text(action_id, "open_in_explorer") {
        Some(Action::OpenInExplorer)
    } else if same_text(action_id, "open_default") {
        Some(Action::OpenDefault)
    } else {
        None
    }
}

/// The place in a launcher command where the path goes.
pub open spec fn placeholder() -> Seq<char> {
    "{path}"@
}

/// The command line of a launcher command for a path: the command with each
/// placeholder replaced by the path or, where it has no placeholder, the
/// command followed by the path in double quotes.
pub open spec fn command_line(command: Seq<char>, path: Seq<char>) -> Seq<char> {
    if occurs(command, placeholder()) {
        replaced(command, placeholder(), path)
    } else {
        command + " \""@ + path + "\""@
    }
}

/// Whether `k` is the position of the first launcher entry with this id.
pub open spec fn is_first_app_with_id(apps: Seq<AppConfigView>, k: int, id: Seq<char>) -> bool {
    &&& 0 <= k < apps.len()
    &&& apps[k].id == id
    &&& forall|j: int| 0 <= j < k ==> (#[trigger] apps[j]).id != id
}

/// Decides what an action launches on a target, or that it launches
/// nothing: the action is unknown, or does not take this kind of target.
pub fn execute_action(action_id: &str, target: ActionTarget) -> (out: Result<Launch, ActionError>)
    ensures
        match out {
            Ok(launch) => launch_for(action_id@, target@) == Some(launch@),
            Err(error) => launch_for(action_id@, target@) is None && error
                is Incompatible,
        },
{
    let (kind, path) = match target {
        ActionTarget::Folder(path) => (TargetKind::Folder, path),
        ActionTarget::File(path) => (TargetKind::File, path),
    };
    match action_with_id(action_id) {
        None => Err(ActionError::Incompatible),
        Some(action) => {
            if !action.accepts(kind) {
                return Err(ActionError::Incompatible);
            }
            Ok(
                match action {
                    Action::OpenVscode => Launch::Editor(path),
                    Action::OpenInExplorer => Launch::Explorer(path),
                    Action::OpenDefault => Launch::SystemDefault(path),
                },
            )
        },
    }
}

/// Builds the command line that a launcher command stands for on a path.
pub fn run_app_command(command: &str, path: &str) -> (out: String)
    ensures
        out@ == command_line(command@, path@),
{
    let text = chars_of(command);
    let word = chars_of("{path}");
    proof {
        reveal_strlit("{path}");
    }
    if contains_word(&text, &word) {
        replace_word(&text, &word, path)
    } else {
        let mut line = command.to_owned();
        line.append(" \"");
        line.append(path);
        line.append("\"");
        line
    }
}

/// Looks up the launcher entry with an id: the first one, in the order of
/// the configuration.
pub fn find_app<'a>(apps: &'a Vec<AppConfig>, id: &str) -> (out: Option<&'a AppConfig>)
    ensures
        match out {
            Some(app) => exists|k: int|
                is_first_app_with_id(apps_view(apps@), k, id@) && #[trigger] apps@[k] == *app,
            None => forall|k: int| 0 <= k < apps.len() ==> (#[trigger] apps_view(apps@)[k]).id != id@,
        },
{
    let mut i: usize = 0;
    while i < apps.len()
        invariant
            i <= apps.len(),
            forall|j: int| 0 <= j < i ==> (#[trigger] apps_view(apps@)[j]).id != id@,
        decreases apps.len() - i,
    {
        assert(apps_view(apps@)[i as int] == apps@[i as int]@);
        if same_text(apps[i].id.as_str(), id) {
            assert(is_first_app_with_id(apps_view(apps@), i as int, id@));
            return Some(&apps[i]);
        }
        i += 1;
    }
    None
}

/// Decides what running a launcher entry on a path comes down to: the
/// command line of the first entry with that id, or the error that names
/// the id where no entry has it.
pub fn run_action(apps: &Vec<AppConfig>, action_id: &str, path: &str) -> (out: Result<
    String,
    ActionError,
>)
    ensures
        match out {
            Ok(line) => exists|k: int|
                is_first_app_with_id(apps_view(apps@), k, action_id@) && line@ == command_line(
                    (#[trigger] apps_view(apps@)[k]).command,
                    path@,
                ),
            Err(ActionError::UnknownApp(id)) => id@ == action_id@ && forall|k: int|
                0 <= k < apps.len() ==> (#[trigger] apps_view(apps@)[k]).id != action_id@,
            Err(ActionError::Incompatible) => false,
        },
{
    match find_app(apps, action_id) {
        Some(app) => {
            proof {
                let k = choose|k: int|
                    is_first_app_with_id(apps_view(apps@), k, action_id@) && #[trigger] apps@[k]
                        == *app;
                assert(apps_view(apps@)[k] == app@);
            }
            Ok(run_app_command(app.command.as_str(), path))
        },
        None => Err(ActionError::UnknownApp(action_id.to_owned())),
    }
}

impl ActionError {
    /// The error in words.
    pub open spec fn text(self) -> Seq<char> {
        match self {
            ActionError::Incompatible => "Unknown action or incompatible target"@,
            ActionError::UnknownApp(id) => "Unknown app id: "@ + id@,
        }
    }

    /// The error in words.
    pub fn message(&self) -> (out: String)
        ensures
            out@ == self.text(),
    {
        match self {
            ActionError::Incompatible => "Unknown action or incompatible target".to_owned(),
            ActionError::UnknownApp(id) => {
                let mut out = "Unknown app id: ".to_owned();
                out.append(id.as_str());
                out
            },
        }
    }
}

} // verus!
