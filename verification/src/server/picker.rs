//! The choice of a directory by a person.

use crate::execution::output::{lossy_text, read_lossy};
use crate::execution::shell::Platform;
use crate::model::websocket::utf8_text;
use crate::text::{is_blank, maybe, texts, trim, trimmed};
use vstd::prelude::*;
use vstd::utf8::{decode_utf8, valid_utf8};

verus! {

/// A program that lets a person choose a directory.
#[derive(Debug, PartialEq, Eq)]
pub struct PickerCommand {
    pub program: String,
    pub arguments: Vec<String>,
}

impl PickerCommand {
    /// Whether a command runs a program with some arguments.
    pub open spec fn runs(&self, program: Seq<char>, arguments: Seq<Seq<char>>) -> bool {
        self.program@ == program && texts(self.arguments@) == arguments
    }
}

/// The script that opens a dialog on macOS.
pub open spec fn apple_script() -> Seq<char> {
    "try\nset selectedFolder to choose folder with prompt \"Choose a Workspace folder\"\nreturn POSIX path of selectedFolder\non error number -128\nreturn \"\"\nend try"@
}

/// The script that opens a dialog on Windows.
pub open spec fn power_shell_script() -> Seq<char> {
    "Add-Type -AssemblyName System.Windows.Forms\n$dialog = New-Object System.Windows.Forms.FolderBrowserDialog\n$dialog.Description = 'Choose a Workspace folder'\nif ($dialog.ShowDialog() -eq [System.Windows.Forms.DialogResult]::OK) {\n    [Console]::Out.Write($dialog.SelectedPath)\n}"@
}

/// The program that is run at an attempt on a platform.
pub open spec fn picker_of(platform: Platform, attempt: nat) -> Option<
    (Seq<char>, Seq<Seq<char>>),
> {
    match platform {
        Platform::MacOs if attempt == 0 => Some(
            ("/usr/bin/osascript"@, seq!["-e"@, apple_script()]),
        ),
        Platform::Windows if attempt == 0 => Some(
            (
                "powershell.exe"@,
                seq!["-NoProfile"@, "-NonInteractive"@, "-Command"@, power_shell_script()],
            ),
        ),
        Platform::Linux if attempt == 0 => Some(
            (
                "zenity"@,
                seq![
                    "--file-selection"@,
                    "--directory"@,
                    "--title=Choose a Workspace folder"@,
                ],
            ),
        ),
        Platform::Linux if attempt == 1 => Some(
            ("kdialog"@, seq!["--getexistingdirectory"@, "."@]),
        ),
        _ => None,
    }
}

/// The program that is run at an attempt on a platform.
pub fn picker_command(platform: Platform, attempt: usize) -> (r: Option<PickerCommand>)
    ensures
        match r {
            Some(c) => picker_of(platform, attempt as nat) matches Some(p) && c.runs(p.0, p.1),
            None => picker_of(platform, attempt as nat) is None,
        },
{
    let mut arguments: Vec<String> = Vec::new();
    match platform {
        Platform::MacOs => {
            if attempt != 0 {
                return None;
            }
            arguments.push("-e".to_owned());
            arguments.push(
                "try\nset selectedFolder to choose folder with prompt \"Choose a Workspace folder\"\nreturn POSIX path of selectedFolder\non error number -128\nreturn \"\"\nend try".to_owned(),
            );
            assert(texts(arguments@) =~= seq!["-e"@, apple_script()]);
            Some(PickerCommand { program: "/usr/bin/osascript".to_owned(), arguments })
        },
        Platform::Windows => {
            if attempt != 0 {
                return None;
            }
            arguments.push("-NoProfile".to_owned());
            arguments.push("-NonInteractive".to_owned());
            arguments.push("-Command".to_owned());
            arguments.push(
                "Add-Type -AssemblyName System.Windows.Forms\n$dialog = New-Object System.Windows.Forms.FolderBrowserDialog\n$dialog.Description = 'Choose a Workspace folder'\nif ($dialog.ShowDialog() -eq [System.Windows.Forms.DialogResult]::OK) {\n    [Console]::Out.Write($dialog.SelectedPath)\n}".to_owned(),
            );
            assert(texts(arguments@) =~= seq![
                "-NoProfile"@,
                "-NonInteractive"@,
                "-Command"@,
                power_shell_script(),
            ]);
            Some(PickerCommand { program: "powershell.exe".to_owned(), arguments })
        },
        Platform::Linux => {
            if attempt == 0 {
                arguments.push("--file-selection".to_owned());
                arguments.push("--directory".to_owned());
                arguments.push("--title=Choose a Workspace folder".to_owned());
                assert(texts(arguments@) =~= seq![
                    "--file-selection"@,
                    "--directory"@,
                    "--title=Choose a Workspace folder"@,
                ]);
                Some(PickerCommand { program: "zenity".to_owned(), arguments })
            } else if attempt == 1 {
                arguments.push("--getexistingdirectory".to_owned());
                arguments.push(".".to_owned());
                assert(texts(arguments@) =~= seq!["--getexistingdirectory"@, "."@]);
                Some(PickerCommand { program: "kdialog".to_owned(), arguments })
            } else {
                None
            }
        },
        _ => None,
    }
}

/// How a run of a program ended.
#[derive(Debug)]
pub enum PickerRun {
    Ended { success: bool, code: Option<i32>, stdout: Vec<u8>, stderr: Vec<u8> },
    /// There is no such program.
    Missing(String),
    Failed(String),
}

/// What is read of the output of a program.
pub open spec fn output_read(bytes: Seq<u8>) -> Result<Seq<char>, Seq<char>> {
    if valid_utf8(bytes) {
        Ok(trimmed(decode_utf8(bytes)))
    } else {
        Err("The directory picker returned an invalid path"@)
    }
}

/// What is said of a program that failed.
pub open spec fn failure_text(stderr: Seq<u8>) -> Seq<char> {
    let message = trimmed(lossy_text(stderr));
    if message.len() == 0 {
        "The directory picker failed"@
    } else {
        "The directory picker failed: "@ + message
    }
}

/// The value of a choice: a directory, none, or why it could not be made.
pub open spec fn choice(r: Result<Option<String>, String>) -> Result<Option<Seq<char>>, Seq<char>> {
    match r {
        Ok(path) => Ok(maybe(path)),
        Err(fault) => Err(fault@),
    }
}

/// What a person chose in a dialog that ends with one of two codes.
pub open spec fn dialog_choice(success: bool, code: Option<i32>, stdout: Seq<u8>, stderr: Seq<u8>) -> Result<
    Option<Seq<char>>,
    Seq<char>,
> {
    if success {
        match output_read(stdout) {
            Ok(path) => Ok(Some(path)),
            Err(fault) => Err(fault),
        }
    } else if code == Some(1i32) {
        Ok(None)
    } else {
        Err(failure_text(stderr))
    }
}

/// What a person chose in a dialog that writes nothing when it is cancelled.
pub open spec fn command_choice(success: bool, stdout: Seq<u8>, stderr: Seq<u8>) -> Result<
    Option<Seq<char>>,
    Seq<char>,
> {
    if success {
        match output_read(stdout) {
            Ok(path) => if trimmed(path).len() == 0 {
                Ok(None)
            } else {
                Ok(Some(path))
            },
            Err(fault) => Err(fault),
        }
    } else {
        Err(failure_text(stderr))
    }
}

fn output_text(output: Vec<u8>) -> (r: Result<String, String>)
    ensures
        match r {
            Ok(path) => output_read(output@) == Ok::<Seq<char>, Seq<char>>(path@),
            Err(fault) => output_read(output@) == Err::<Seq<char>, Seq<char>>(fault@),
        },
{
    match utf8_text(output) {
        Ok(text) => Ok(trim(text.as_str())),
        Err(_) => Err("The directory picker returned an invalid path".to_owned()),
    }
}

fn command_error(stderr: Vec<u8>) -> (r: String)
    ensures
        r@ == failure_text(stderr@),
{
    let text = read_lossy(&stderr);
    if is_blank(text.as_str()) {
        return "The directory picker failed".to_owned();
    }
    let message = trim(text.as_str());
    let mut r = "The directory picker failed: ".to_owned();
    r.append(message.as_str());
    r
}

/// What a person chose in a dialog that ends with one of two codes.
pub fn dialog_selection(success: bool, code: Option<i32>, stdout: Vec<u8>, stderr: Vec<u8>) -> (r: Result<
    Option<String>,
    String,
>)
    ensures
        choice(r) == dialog_choice(success, code, stdout@, stderr@),
{
    if success {
        return match output_text(stdout) {
            Ok(path) => Ok(Some(path)),
            Err(fault) => Err(fault),
        };
    }
    if let Some(code) = code {
        if code == 1 {
            return Ok(None);
        }
    }
    Err(command_error(stderr))
}

/// What a person chose in a dialog that writes nothing when it is cancelled.
pub fn command_selection(success: bool, stdout: Vec<u8>, stderr: Vec<u8>) -> (r: Result<
    Option<String>,
    String,
>)
    ensures
        choice(r) == command_choice(success, stdout@, stderr@),
{
    if success {
        return match output_text(stdout) {
            Ok(path) => {
                if is_blank(path.as_str()) {
                    Ok(None)
                } else {
                    Ok(Some(path))
                }
            },
            Err(fault) => Err(fault),
        };
    }
    Err(command_error(stderr))
}

/// What follows a run of a program.
#[derive(Debug)]
pub enum PickerStep {
    /// The next program is tried.
    TryNext,
    /// The choice is made, or cannot be made.
    Picked(Result<Option<String>, String>),
}

/// The mathematical value of a [`PickerStep`].
pub ghost enum PickerStepView {
    TryNext,
    Picked(Result<Option<Seq<char>>, Seq<char>>),
}

impl View for PickerStep {
    type V = PickerStepView;

    open spec fn view(&self) -> PickerStepView {
        match *self {
            PickerStep::TryNext => PickerStepView::TryNext,
            PickerStep::Picked(r) => PickerStepView::Picked(choice(r)),
        }
    }
}

/// What is said of a dialog that could not be opened.
pub open spec fn not_opened(fault: Seq<char>) -> Seq<char> {
    "Could not open the directory picker: "@ + fault
}

/// What follows a run at an attempt on a platform.
pub open spec fn step_after(platform: Platform, attempt: nat, run: PickerRun) -> PickerStepView {
    match run {
        PickerRun::Ended { success, code, stdout, stderr } => PickerStepView::Picked(
            if platform == Platform::Linux {
                dialog_choice(success, code, stdout@, stderr@)
            } else {
                command_choice(success, stdout@, stderr@)
            },
        ),
        PickerRun::Missing(fault) => if platform != Platform::Linux {
            PickerStepView::Picked(Err(not_opened(fault@)))
        } else if attempt == 0 {
            PickerStepView::TryNext
        } else {
            PickerStepView::Picked(
                Err("No native directory picker is available; enter the path manually"@),
            )
        },
        PickerRun::Failed(fault) => PickerStepView::Picked(Err(not_opened(fault@))),
    }
}

fn could_not_open(fault: &str) -> (r: String)
    ensures
        r@ == not_opened(fault@),
{
    let mut r = "Could not open the directory picker: ".to_owned();
    r.append(fault);
    r
}

/// What follows a run at an attempt on a platform.
pub fn picker_step(platform: Platform, attempt: usize, run: PickerRun) -> (r: PickerStep)
    ensures
        r@ == step_after(platform, attempt as nat, run),
{
    match run {
        PickerRun::Ended { success, code, stdout, stderr } => {
            if platform == Platform::Linux {
                PickerStep::Picked(dialog_selection(success, code, stdout, stderr))
            } else {
                PickerStep::Picked(command_selection(success, stdout, stderr))
            }
        },
        PickerRun::Missing(fault) => {
            if platform != Platform::Linux {
                PickerStep::Picked(Err(could_not_open(fault.as_str())))
            } else if attempt == 0 {
                PickerStep::TryNext
            } else {
                PickerStep::Picked(
                    Err(
                        "No native directory picker is available; enter the path manually".to_owned(),
                    ),
                )
            }
        },
        PickerRun::Failed(fault) => PickerStep::Picked(Err(could_not_open(fault.as_str()))),
    }
}

/// What is said where no program can be run.
pub fn no_picker() -> (r: String)
    ensures
        r@ == "Native directory selection is unavailable on this platform"@,
{
    "Native directory selection is unavailable on this platform".to_owned()
}

/// A program is tried wherever one is left to try: only where the first is missing on Linux.
pub proof fn law_a_next_picker_exists(platform: Platform, attempt: nat, run: PickerRun)
    requires
        picker_of(platform, attempt) is Some,
        step_after(platform, attempt, run) == PickerStepView::TryNext,
    ensures
        picker_of(platform, attempt + 1) is Some,
{
}

/// What lies at a chosen path, with every link followed.
#[derive(Debug, PartialEq, Eq)]
pub struct FoundPath {
    pub canonical: String,
    pub is_directory: bool,
}

/// The path that has to be looked up for a choice; none where nothing was chosen.
pub open spec fn path_to_look_up(selection: Option<Seq<char>>) -> Option<Seq<char>> {
    match selection {
        Some(s) => if trimmed(s).len() == 0 {
            None
        } else {
            Some(trimmed(s))
        },
        None => None,
    }
}

/// The path that has to be looked up for a choice.
pub fn selected_path(selection: &Option<String>) -> (r: Option<String>)
    ensures
        maybe(r) == path_to_look_up(maybe(*selection)),
{
    match selection {
        Some(s) => {
            if is_blank(s.as_str()) {
                None
            } else {
                Some(trim(s.as_str()))
            }
        },
        None => None,
    }
}

/// The directory of a choice, given what lies at its path.
pub open spec fn settled(
    selection: Option<Seq<char>>,
    found: Result<FoundPath, String>,
) -> Result<Option<Seq<char>>, Seq<char>> {
    match path_to_look_up(selection) {
        None => Ok(None),
        Some(_) => match found {
            Err(fault) => Err("Selected directory is unavailable: "@ + fault@),
            Ok(place) => if place.is_directory {
                Ok(Some(place.canonical@))
            } else {
                Err("Selected path is not a directory"@)
            },
        },
    }
}

/// The directory of a choice, given what lies at its [`selected_path`].
pub fn normalize_selection(selection: Option<String>, found: Result<FoundPath, String>) -> (r: Result<
    Option<String>,
    String,
>)
    ensures
        choice(r) == settled(maybe(selection), found),
{
    if selected_path(&selection).is_none() {
        return Ok(None);
    }
    match found {
        Err(fault) => {
            let mut message = "Selected directory is unavailable: ".to_owned();
            message.append(fault.as_str());
            Err(message)
        },
        Ok(place) => {
            if place.is_directory {
                Ok(Some(place.canonical))
            } else {
                Err("Selected path is not a directory".to_owned())
            }
        },
    }
}

/// The directory that a person chose, given what the program said and what lies at the path.
pub fn pick_directory(picked: Result<Option<String>, String>, found: Result<FoundPath, String>) -> (r:
    Result<Option<String>, String>)
    ensures
        choice(r) == (match choice(picked) {
            Ok(selection) => settled(selection, found),
            Err(fault) => Err(fault),
        }),
{
    match picked {
        Ok(selection) => normalize_selection(selection, found),
        Err(fault) => Err(fault),
    }
}

/// What is chosen is a directory, and its path is the one with every link followed.
pub proof fn law_chosen_paths_are_directories(
    selection: Option<Seq<char>>,
    found: Result<FoundPath, String>,
)
    ensures
        settled(selection, found) matches Ok(Some(path)) ==> (found matches Ok(place)
            && place.is_directory && path == place.canonical@),
{
}

} // verus!
