//! The prompts that models are called with, and where they are installed.
//!
//! A bundle is a table of files, compiled into the program, and the revision
//! that it was made from. It is installed once per revision into a directory
//! of the user's data home; a marker file, written last, says that everything
//! is in place.

use crate::path_laws::joined_keeps_relative_paths_apart;
use crate::paths::{join, joined, parent, parent_of};
use vstd::prelude::*;
use vstd::string::*;
use vstd::utf8::{decode_utf8, encode_utf8, valid_utf8};

verus! {

/// The outside type `core::str::Utf8Error`.
#[verifier::external_type_specification]
#[verifier::external_body]
pub struct ExUtf8Error(core::str::Utf8Error);

/// `core::str::from_utf8`: bytes that are valid UTF-8 give the string that they
/// encode, and all other bytes give an error.
pub assume_specification[ core::str::from_utf8 ](v: &[u8]) -> (decoded: Result<
    &str,
    core::str::Utf8Error,
>)
    ensures
        decoded is Ok <==> valid_utf8(v@),
        decoded matches Ok(text) ==> text@ == decode_utf8(v@),
;

/// The file, directly in the root of an installed bundle, that says that the
/// bundle is complete.
pub const COMPLETE_MARKER: &'static str = ".sashiko-prompts-complete";

/// The directory of all bundles, as seen from the data home.
pub const BUNDLES_DIR: &'static str = "sashiko/prompts";

/// The file that explains the severity levels of the kernel project.
pub const KERNEL_SEVERITY_GUIDE: &'static str = "kernel/severity.md";

/// A file of a bundle: its path, as seen from the root of the bundle, and its
/// bytes.
pub struct FileModel {
    pub path: Seq<char>,
    pub contents: Seq<u8>,
}

/// A bundle: the revision that it was made from, and its files.
pub struct BundleModel {
    pub revision: Seq<char>,
    pub files: Seq<FileModel>,
}

/// The bytes of the first file with the path.
pub open spec fn contents_of(files: Seq<FileModel>, path: Seq<char>) -> Option<Seq<u8>>
    decreases files.len(),
{
    if files.len() == 0 {
        None
    } else if files[0].path == path {
        Some(files[0].contents)
    } else {
        contents_of(files.drop_first(), path)
    }
}

/// Looking a path up gives the bytes of a file that has this very path, and of the
/// first such file if there are several. It gives nothing only if no file has it.
pub proof fn lookup_gives_the_first_file_with_the_path(files: Seq<FileModel>, path: Seq<char>)
    ensures
        contents_of(files, path) matches Some(bytes) ==> exists|i: int|
            {
                &&& 0 <= i < files.len()
                &&& (#[trigger] files[i]).path == path
                &&& files[i].contents == bytes
                &&& forall|j: int| 0 <= j < i ==> (#[trigger] files[j]).path != path
            },
        contents_of(files, path) is None ==> forall|i: int|
            0 <= i < files.len() ==> (#[trigger] files[i]).path != path,
    decreases files.len(),
{
    if files.len() > 0 && files[0].path != path {
        let rest = files.drop_first();
        lookup_gives_the_first_file_with_the_path(rest, path);
        if let Some(bytes) = contents_of(files, path) {
            let i = choose|i: int|
                {
                    &&& 0 <= i < rest.len()
                    &&& (#[trigger] rest[i]).path == path
                    &&& rest[i].contents == bytes
                    &&& forall|j: int| 0 <= j < i ==> (#[trigger] rest[j]).path != path
                };
            assert(files[i + 1] == rest[i]);
            assert forall|j: int| 0 <= j < i + 1 implies (#[trigger] files[j]).path != path by {
                if j > 0 {
                    assert(rest[j - 1] == files[j]);
                }
            }
        } else {
            assert forall|i: int| 0 <= i < files.len() implies (#[trigger] files[i]).path
                != path by {
                if i > 0 {
                    assert(rest[i - 1] == files[i]);
                }
            }
        }
    }
}

/// A file of a bundle.
#[derive(Debug)]
pub struct PromptFile {
    pub path: String,
    pub contents: Vec<u8>,
}

impl View for PromptFile {
    type V = FileModel;

    open spec fn view(&self) -> FileModel {
        FileModel { path: self.path@, contents: self.contents@ }
    }
}

/// A bundle of prompts.
#[derive(Debug)]
pub struct PromptBundle {
    pub revision: String,
    pub files: Vec<PromptFile>,
}

impl View for PromptBundle {
    type V = BundleModel;

    open spec fn view(&self) -> BundleModel {
        BundleModel {
            revision: self.revision@,
            files: self.files@.map_values(|file: PromptFile| file@),
        }
    }
}

/// A bundle reads the same in contracts as in the program: its revision, and its
/// files in their order with their paths and all of their bytes.
pub proof fn bundles_are_what_they_hold(bundle: PromptBundle)
    ensures
        bundle@.revision == bundle.revision@,
        bundle@.files.len() == bundle.files@.len(),
        forall|i: int|
            0 <= i < bundle.files@.len() ==> (#[trigger] bundle@.files[i]).path
                == bundle.files@[i].path@ && bundle@.files[i].contents
                == bundle.files@[i].contents@,
{
}

impl PromptBundle {
    /// Whether the file at `index` is the first with the path.
    pub open spec fn is_first_with(&self, index: int, path: Seq<char>) -> bool {
        &&& 0 <= index < self.files@.len()
        &&& self.files@[index].path@ == path
        &&& forall|j: int| 0 <= j < index ==> (#[trigger] self.files@[j]).path@ != path
    }

    /// The bytes of the file with the path, the first if there are several.
    pub fn find(&self, path: &str) -> (contents: Option<&[u8]>)
        ensures
            match contents {
                Some(bytes) => contents_of(self@.files, path@) == Some(bytes@),
                None => contents_of(self@.files, path@) is None,
            },
            match contents {
                Some(bytes) => exists|i: int| #[trigger]
                    self.is_first_with(i, path@) && bytes@ == self.files@[i].contents@,
                None => forall|i: int|
                    0 <= i < self.files@.len() ==> (#[trigger] self.files@[i]).path@ != path@,
            },
    {
        let wanted: String = path.to_owned();
        let ghost files = self@.files;
        let mut i: usize = 0;
        assert(files.skip(0) =~= files);
        while i < self.files.len()
            invariant
                i <= self.files.len(),
                files == self@.files,
                wanted@ == path@,
                contents_of(files, path@) == contents_of(files.skip(i as int), path@),
                forall|j: int| 0 <= j < i ==> (#[trigger] self.files@[j]).path@ != path@,
            decreases self.files.len() - i,
        {
            assert(files[i as int] == self.files@[i as int]@);
            if self.files[i].path == wanted {
                assert(self.is_first_with(i as int, path@));
                return Some(self.files[i].contents.as_slice());
            }
            assert(files.skip(i as int).drop_first() =~= files.skip(i + 1));
            i = i + 1;
        }
        None
    }
}

/// The text of `kernel/severity.md`; `None` if the bundle has no such file or the
/// file is not valid UTF-8.
pub fn find_kernel_severity_guide(bundle: &PromptBundle) -> (guide: Option<&str>)
    ensures
        match guide {
            Some(text) => contents_of(bundle@.files, KERNEL_SEVERITY_GUIDE@) matches Some(bytes)
                && valid_utf8(bytes) && text@ == decode_utf8(bytes),
            None => contents_of(bundle@.files, KERNEL_SEVERITY_GUIDE@) matches Some(bytes)
                ==> !valid_utf8(bytes),
        },
        match guide {
            Some(text) => exists|i: int| #[trigger]
                bundle.is_first_with(i, "kernel/severity.md"@) && valid_utf8(
                    bundle.files@[i].contents@,
                ) && text@ == decode_utf8(bundle.files@[i].contents@),
            None => forall|i: int| #[trigger]
                bundle.is_first_with(i, "kernel/severity.md"@) ==> !valid_utf8(
                    bundle.files@[i].contents@,
                ),
        },
{
    match bundle.find(KERNEL_SEVERITY_GUIDE) {
        Some(bytes) => match core::str::from_utf8(bytes) {
            Ok(text) => Some(text),
            Err(_) => None,
        },
        None => None,
    }
}

/// The text of `kernel/severity.md`, which every bundle holds.
pub fn kernel_severity_guide(bundle: &PromptBundle) -> (guide: &str)
    requires
        contents_of(bundle@.files, KERNEL_SEVERITY_GUIDE@) matches Some(bytes) && valid_utf8(bytes),
    ensures
        contents_of(bundle@.files, KERNEL_SEVERITY_GUIDE@) matches Some(bytes) && guide@
            == decode_utf8(bytes),
        exists|i: int| #[trigger]
            bundle.is_first_with(i, "kernel/severity.md"@) && guide@ == decode_utf8(
                bundle.files@[i].contents@,
            ),
{
    find_kernel_severity_guide(bundle).unwrap()
}

/// A bundle is installed in `sashiko/prompts` in the data home, in a directory that
/// is named by the revision. A revision that is an absolute path is taken as it is.
pub proof fn bundle_root_is_in_the_data_home(data_home: Seq<char>, revision: Seq<char>)
    ensures
        joined(joined(data_home, BUNDLES_DIR@), revision) == if revision.len() > 0 && revision[0]
            == '/' {
            revision
        } else if data_home.len() == 0 || data_home[data_home.len() - 1] == '/' {
            data_home + "sashiko/prompts/"@ + revision
        } else {
            data_home + "/sashiko/prompts/"@ + revision
        },
{
    reveal_strlit("sashiko/prompts");
    reveal_strlit("sashiko/prompts/");
    reveal_strlit("/sashiko/prompts/");
    let bundles = joined(data_home, BUNDLES_DIR@);
    assert(BUNDLES_DIR@.push('/') =~= "sashiko/prompts/"@);
    assert(seq!['/'] + "sashiko/prompts/"@ =~= "/sashiko/prompts/"@);
    assert(bundles.last() == 's');
    if data_home.len() == 0 || data_home[data_home.len() - 1] == '/' {
        assert(bundles.push('/') + revision =~= data_home + "sashiko/prompts/"@ + revision);
    } else {
        assert(bundles.push('/') + revision =~= data_home + "/sashiko/prompts/"@ + revision);
    }
}

/// Bundles of different revisions are installed in different directories, so that
/// none is taken for another.
pub proof fn revisions_have_roots_of_their_own(
    data_home: Seq<char>,
    one: Seq<char>,
    other: Seq<char>,
)
    requires
        one.len() == 0 || one[0] != '/',
        other.len() == 0 || other[0] != '/',
        joined(joined(data_home, BUNDLES_DIR@), one) == joined(
            joined(data_home, BUNDLES_DIR@),
            other,
        ),
    ensures
        one == other,
{
    joined_keeps_relative_paths_apart(joined(data_home, BUNDLES_DIR@), one, other);
}

/// Where the bundle is installed, given the user's data home. With an empty data
/// home the path is the one as seen from there.
pub fn prompt_bundle_root(data_home: &str, bundle: &PromptBundle) -> (root: String)
    ensures
        root@ == joined(joined(data_home@, BUNDLES_DIR@), bundle@.revision),
        root@ == if bundle.revision@.len() > 0 && bundle.revision@[0] == '/' {
            bundle.revision@
        } else if data_home@.len() == 0 || data_home@[data_home@.len() - 1] == '/' {
            data_home@ + "sashiko/prompts/"@ + bundle.revision@
        } else {
            data_home@ + "/sashiko/prompts/"@ + bundle.revision@
        },
{
    proof {
        bundle_root_is_in_the_data_home(data_home@, bundle@.revision);
    }
    let bundles: String = join(data_home, BUNDLES_DIR);
    join(bundles.as_str(), bundle.revision.as_str())
}

/// A project with prompts of its own: the name that it goes by, and the
/// directory of its prompts as seen from the root of the bundle.
#[derive(Debug)]
pub struct ProjectId {
    pub name: String,
    pub prompt_dir: String,
}

/// The bundle has no prompts for a project.
#[derive(Debug)]
pub struct MissingPrompts {
    pub project: String,
    pub prompt_dir: String,
    pub path: String,
}

impl MissingPrompts {
    /// What is missing, and where it was looked for.
    pub fn message(&self) -> (message: String)
        ensures
            message@ == "no prompts for project "@ + self.project@ + ": expected a "@
                + self.prompt_dir@ + " directory in the prompt bundle at "@ + self.path@,
    {
        "no prompts for project ".to_owned().concat(self.project.as_str()).concat(
            ": expected a ",
        ).concat(self.prompt_dir.as_str()).concat(
            " directory in the prompt bundle at ",
        ).concat(self.path.as_str())
    }
}

/// Where the prompts of a project are expected in an installed bundle.
pub fn project_prompts_dir(root: &str, project: &ProjectId) -> (path: String)
    ensures
        path@ == joined(root@, project.prompt_dir@),
{
    join(root, project.prompt_dir.as_str())
}

/// The prompt directory of a project in the bundle installed at `root`; `is_dir`
/// says whether there is a directory where it is expected.
///
/// A missing directory is an error, rather than a path that is returned anyway:
/// a guide that cannot be found counts as left out, so a project without any
/// prompts would run with an empty system prompt and report nothing.
pub fn project_prompts_path(root: &str, project: &ProjectId, is_dir: bool) -> (path: Result<
    String,
    MissingPrompts,
>)
    ensures
        match path {
            Ok(path) => is_dir && path@ == joined(root@, project.prompt_dir@),
            Err(missing) => {
                &&& !is_dir
                &&& missing.project@ == project.name@
                &&& missing.prompt_dir@ == project.prompt_dir@
                &&& missing.path@ == joined(root@, project.prompt_dir@)
            },
        },
{
    let path = project_prompts_dir(root, project);
    if !is_dir {
        return Err(
            MissingPrompts {
                project: project.name.clone(),
                prompt_dir: project.prompt_dir.clone(),
                path,
            },
        );
    }
    Ok(path)
}

/// A change to the file system.
pub enum ChangeModel {
    RemoveTree(Seq<char>),
    CreateDir(Seq<char>),
    WriteFile(Seq<char>, Seq<u8>),
}

/// A change to the file system that is part of an installation.
#[derive(Debug)]
pub enum InstallStep<'a> {
    /// Remove the directory with all that is in it.
    RemoveTree(String),
    /// Create the directory, and those above it, unless they exist.
    CreateDir(String),
    /// Write the file, over what is there.
    WriteFile(String, &'a [u8]),
}

impl<'a> View for InstallStep<'a> {
    type V = ChangeModel;

    open spec fn view(&self) -> ChangeModel {
        match *self {
            InstallStep::RemoveTree(path) => ChangeModel::RemoveTree(path@),
            InstallStep::CreateDir(path) => ChangeModel::CreateDir(path@),
            InstallStep::WriteFile(path, contents) => ChangeModel::WriteFile(path@, contents@),
        }
    }
}

/// A step reads the same in contracts as in the program: its path, and all of the
/// bytes that it writes.
pub proof fn steps_are_what_they_do(step: InstallStep)
    ensures
        match step {
            InstallStep::RemoveTree(path) => step@ == ChangeModel::RemoveTree(path@),
            InstallStep::CreateDir(path) => step@ == ChangeModel::CreateDir(path@),
            InstallStep::WriteFile(path, contents) => step@ == ChangeModel::WriteFile(
                path@,
                contents@,
            ),
        },
{
}

impl<'a> InstallStep<'a> {
    /// What to say if the step fails.
    pub fn failure(&self) -> (message: String)
        ensures
            message@ == match self@ {
                ChangeModel::RemoveTree(path) => "failed to remove "@ + path,
                ChangeModel::CreateDir(path) => "failed to create "@ + path,
                ChangeModel::WriteFile(path, _) => "failed to write "@ + path,
            },
    {
        match self {
            InstallStep::RemoveTree(path) => "failed to remove ".to_owned().concat(path.as_str()),
            InstallStep::CreateDir(path) => "failed to create ".to_owned().concat(path.as_str()),
            InstallStep::WriteFile(path, _) => "failed to write ".to_owned().concat(path.as_str()),
        }
    }
}

/// How a file of the bundle gets into place: its directory first, then the file.
pub open spec fn file_changes(root: Seq<char>, file: FileModel) -> Seq<ChangeModel> {
    let path = joined(root, file.path);
    match parent_of(path) {
        Some(dir) => seq![
            ChangeModel::CreateDir(dir),
            ChangeModel::WriteFile(path, file.contents),
        ],
        None => seq![ChangeModel::WriteFile(path, file.contents)],
    }
}

/// How the files of the bundle get into place, one after the other.
pub open spec fn files_changes(root: Seq<char>, files: Seq<FileModel>) -> Seq<ChangeModel>
    decreases files.len(),
{
    if files.len() == 0 {
        Seq::empty()
    } else {
        files_changes(root, files.drop_last()) + file_changes(root, files.last())
    }
}

/// The marker file of the bundle installed at `root`.
pub open spec fn marker_path(root: Seq<char>) -> Seq<char> {
    joined(root, COMPLETE_MARKER@)
}

/// Writing the marker, which holds the revision.
pub open spec fn marker_change(root: Seq<char>, revision: Seq<char>) -> ChangeModel {
    ChangeModel::WriteFile(marker_path(root), encode_utf8(revision))
}

/// All that is to be done to have the bundle installed at `root`: nothing, if it
/// is there already and the installation is not forced; else everything, with
/// the marker last, and in a forced installation with what is there removed
/// first.
pub open spec fn install_changes(
    bundle: BundleModel,
    root: Seq<char>,
    force: bool,
    marker_exists: bool,
    root_exists: bool,
) -> Seq<ChangeModel> {
    if !force && marker_exists {
        Seq::empty()
    } else {
        let removal = if force && root_exists {
            seq![ChangeModel::RemoveTree(root)]
        } else {
            Seq::empty()
        };
        removal + files_changes(root, bundle.files) + seq![marker_change(root, bundle.revision)]
    }
}

/// The marker is the file `.sashiko-prompts-complete` directly in the root.
pub proof fn marker_is_directly_in_the_root(root: Seq<char>)
    ensures
        marker_path(root) == if root.len() == 0 || root[root.len() - 1] == '/' {
            root + ".sashiko-prompts-complete"@
        } else {
            root + "/.sashiko-prompts-complete"@
        },
{
    reveal_strlit(".sashiko-prompts-complete");
    reveal_strlit("/.sashiko-prompts-complete");
    let marker = ".sashiko-prompts-complete"@;
    assert(seq!['/'] + marker =~= "/.sashiko-prompts-complete"@);
    assert(root.push('/') + marker =~= root + (seq!['/'] + marker));
}

/// The marker file of the bundle installed at `root`.
pub fn complete_marker(root: &str) -> (path: String)
    ensures
        path@ == marker_path(root@),
        path@ == if root@.len() == 0 || root@[root@.len() - 1] == '/' {
            root@ + ".sashiko-prompts-complete"@
        } else {
            root@ + "/.sashiko-prompts-complete"@
        },
{
    proof {
        marker_is_directly_in_the_root(root@);
    }
    join(root, COMPLETE_MARKER)
}

/// The steps that install the bundle at `root`, to be taken in their order up to
/// the first that fails. `marker_exists` and `root_exists` say whether the
/// marker file and the root directory exist; the first matters only without
/// `force`, the second only with it.
pub fn install_prompt_bundle<'a>(
    bundle: &'a PromptBundle,
    root: &str,
    force: bool,
    marker_exists: bool,
    root_exists: bool,
) -> (steps: Vec<InstallStep<'a>>)
    ensures
        steps@.map_values(|step: InstallStep| step@) == install_changes(
            bundle@,
            root@,
            force,
            marker_exists,
            root_exists,
        ),
{
    let ghost model = |step: InstallStep| step@;
    let mut steps: Vec<InstallStep<'a>> = Vec::new();
    if !force && marker_exists {
        assert(steps@.map_values(model) =~= Seq::empty());
        return steps;
    }
    if force && root_exists {
        steps.push(InstallStep::RemoveTree(root.to_owned()));
    }
    let ghost removal = if force && root_exists {
        seq![ChangeModel::RemoveTree(root@)]
    } else {
        Seq::empty()
    };
    let ghost files = bundle@.files;
    let mut i: usize = 0;
    assert(files.take(0) =~= Seq::empty());
    assert(steps@.map_values(model) =~= removal + files_changes(root@, files.take(0)));
    while i < bundle.files.len()
        invariant
            i <= bundle.files.len(),
            files == bundle@.files,
            model == (|step: InstallStep| step@),
            steps@.map_values(model) == removal + files_changes(root@, files.take(i as int)),
        decreases bundle.files.len() - i,
    {
        let file = &bundle.files[i];
        let ghost before = steps@;
        let ghost done = files.take(i + 1);
        assert(done.drop_last() =~= files.take(i as int));
        assert(done.last() == file@);
        let path: String = join(root, file.path.as_str());
        if let Some(dir) = parent(path.as_str()) {
            steps.push(InstallStep::CreateDir(dir.to_owned()));
        }
        steps.push(InstallStep::WriteFile(path, file.contents.as_slice()));
        assert(steps@.map_values(model) =~= before.map_values(model) + file_changes(root@, file@));
        assert(steps@.map_values(model) =~= removal + files_changes(root@, done));
        i = i + 1;
    }
    assert(files.take(i as int) =~= files);
    let ghost before = steps@;
    steps.push(InstallStep::WriteFile(complete_marker(root), bundle.revision.as_str().as_bytes()));
    assert(steps@.map_values(model) =~= before.map_values(model).push(
        marker_change(root@, bundle@.revision),
    ));
    steps
}

} // verus!
