//! What holds of a file system while a bundle is being installed, and after.
//!
//! Each step of an installation is taken as a whole: it is done or it is not.

use crate::paths::{
    ends_in_name, joined, last_start, last_start_is_within, lead, parent_of, trimmed, without_last,
};
use crate::prompt_bundle::{
    file_changes, files_changes, install_changes, marker_change, marker_path, BundleModel,
    ChangeModel, FileModel, BUNDLES_DIR, COMPLETE_MARKER,
};
use vstd::prelude::*;
use vstd::utf8::encode_utf8;

verus! {

/// Whether `path` is the directory `root` or something in it. Below the empty
/// path are the relative paths; below a root that ends in a slash is whatever
/// goes on from there.
pub open spec fn at_or_below(root: Seq<char>, path: Seq<char>) -> bool {
    path == root || {
        &&& path.len() > root.len()
        &&& path.take(root.len() as int) == root
        &&& if root.len() == 0 {
            path[0] != '/'
        } else {
            root.last() == '/' || path[root.len() as int] == '/'
        }
    }
}

/// The files of a file system with their bytes, and its directories.
pub struct FileTree {
    pub files: Map<Seq<char>, Seq<u8>>,
    pub dirs: Set<Seq<char>>,
}

impl FileTree {
    /// The file system after the change.
    pub open spec fn changed(self, change: ChangeModel) -> FileTree {
        match change {
            ChangeModel::RemoveTree(root) => FileTree {
                files: Map::new(
                    |path: Seq<char>| self.files.contains_key(path) && !at_or_below(root, path),
                    |path: Seq<char>| self.files[path],
                ),
                dirs: Set::new(
                    |path: Seq<char>| self.dirs.contains(path) && !at_or_below(root, path),
                ),
            },
            ChangeModel::CreateDir(dir) => FileTree {
                files: self.files,
                dirs: Set::new(
                    |path: Seq<char>| self.dirs.contains(path) || at_or_below(path, dir),
                ),
            },
            ChangeModel::WriteFile(path, contents) => FileTree {
                files: self.files.insert(path, contents),
                dirs: self.dirs,
            },
        }
    }

    /// The file system after all of the changes.
    pub open spec fn after(self, changes: Seq<ChangeModel>) -> FileTree
        decreases changes.len(),
    {
        if changes.len() == 0 {
            self
        } else {
            self.after(changes.drop_last()).changed(changes.last())
        }
    }

    /// Whether every file that the changes write has its directory by then.
    pub open spec fn has_directories_for(self, changes: Seq<ChangeModel>) -> bool
        decreases changes.len(),
    {
        changes.len() == 0 || {
            &&& self.has_directories_for(changes.drop_last())
            &&& changes.last() matches ChangeModel::WriteFile(path, _) ==> {
                parent_of(path) matches Some(dir) ==> self.after(
                    changes.drop_last(),
                ).dirs.contains(dir)
            }
        }
    }

    /// Whether the marker file of the bundle installed at `root` exists.
    pub open spec fn is_marked(self, root: Seq<char>) -> bool {
        self.files.contains_key(marker_path(root))
    }

    /// Whether every file of the bundle is in place below `root`.
    pub open spec fn holds_all(self, root: Seq<char>, files: Seq<FileModel>) -> bool {
        forall|i: int| 0 <= i < files.len() ==> #[trigger] self.holds(root, files[i])
    }

    /// Whether the file is in place below `root`.
    pub open spec fn holds(self, root: Seq<char>, file: FileModel) -> bool {
        self.files.contains_pair(joined(root, file.path), file.contents)
    }

    /// Whether the directory of every file of the bundle exists below `root`, with
    /// all directories above it.
    pub open spec fn has_way_to_all(self, root: Seq<char>, files: Seq<FileModel>) -> bool {
        forall|i: int| 0 <= i < files.len() ==> #[trigger] self.has_way_to(root, files[i])
    }

    /// Whether the directory of the file exists, with all directories above it.
    pub open spec fn has_way_to(self, root: Seq<char>, file: FileModel) -> bool {
        parent_of(joined(root, file.path)) matches Some(dir) && forall|path: Seq<char>| #[trigger]
            at_or_below(path, dir) ==> self.dirs.contains(path)
    }

    /// Whether no file is at or below `root`.
    pub open spec fn is_free_of(self, root: Seq<char>) -> bool {
        forall|path: Seq<char>|
            #[trigger] self.files.contains_key(path) ==> !at_or_below(root, path)
    }
}

/// Whether the path is relative and made of names only: no component is empty, a
/// dot or two dots.
pub open spec fn is_plain(path: Seq<char>) -> bool
    decreases path.len(),
{
    let start = last_start(path, 0);
    let last = path.skip(start as int);
    &&& last.len() > 0
    &&& last != seq!['.']
    &&& last != seq!['.', '.']
    &&& 0 < start <= path.len() ==> is_plain(path.take(start - 1))
}

/// Whether the files of the bundle get along with each other and with the
/// marker: plain paths, all different, and none of them that of the marker.
pub open spec fn well_formed(bundle: BundleModel) -> bool {
    &&& forall|i: int|
        0 <= i < bundle.files.len() ==> is_plain((#[trigger] bundle.files[i]).path)
            && bundle.files[i].path != COMPLETE_MARKER@
    &&& forall|i: int, j: int|
        0 <= i < j < bundle.files.len() ==> (#[trigger] bundle.files[i]).path != (
        #[trigger] bundle.files[j]).path
}

/// Whether the path names a directory outright: it ends in a component that
/// counts.
pub open spec fn names_a_directory(root: Seq<char>) -> bool {
    ends_in_name(root, lead(root))
}

proof fn no_slash_after_last_start(path: Seq<char>, i: int)
    requires
        last_start(path, 0) <= i < path.len(),
    ensures
        path[i] != '/',
    decreases path.len(),
{
    if path.last() != '/' && i < path.len() - 1 {
        no_slash_after_last_start(path.drop_last(), i);
        assert(path.drop_last()[i] == path[i]);
    }
}

pub(crate) proof fn last_start_behind_slash(front: Seq<char>, rest: Seq<char>, lead: nat)
    requires
        front.len() >= lead,
        front.len() > 0,
        front.last() == '/',
    ensures
        last_start(front + rest, lead) == front.len() + last_start(rest, 0),
    decreases rest.len(),
{
    let path = front + rest;
    if rest.len() == 0 {
        assert(path =~= front);
    } else if rest.last() != '/' {
        assert(path.last() == rest.last());
        assert(path.drop_last() =~= front + rest.drop_last());
        last_start_behind_slash(front, rest.drop_last(), lead);
    }
}

proof fn plain_paths_are_relative(path: Seq<char>)
    requires
        is_plain(path),
    ensures
        path.len() > 0,
        path[0] != '/',
    decreases path.len(),
{
    last_start_is_within(path, 0);
    let start = last_start(path, 0);
    if start == 0 {
        no_slash_after_last_start(path, 0);
    } else {
        plain_paths_are_relative(path.take(start - 1));
    }
}

proof fn directories_end_in_no_slash(root: Seq<char>)
    requires
        names_a_directory(root),
    ensures
        root.len() > 0,
        root.last() != '/',
        trimmed(root, lead(root)) == root,
{
    if root.last() == '/' {
        assert(root.skip(last_start(root, lead(root)) as int).len() == 0);
    }
}

/// A plain path below a directory is the two with a slash between them.
proof fn joined_to_directory(root: Seq<char>, path: Seq<char>)
    requires
        names_a_directory(root),
        is_plain(path),
    ensures
        joined(root, path) == root.push('/') + path,
        at_or_below(root, joined(root, path)),
        lead(joined(root, path)) == lead(root),
{
    plain_paths_are_relative(path);
    directories_end_in_no_slash(root);
    let whole = root.push('/') + path;
    assert(whole.take(root.len() as int) =~= root);
    assert(whole[0] == root[0]);
    if root.len() > 1 {
        assert(whole[1] == root[1]);
    } else {
        assert(whole[1] == '/');
        if root[0] == '.' {
            assert(lead(root) == 1);
        }
    }
}

proof fn joined_is_injective(root: Seq<char>, one: Seq<char>, other: Seq<char>)
    requires
        names_a_directory(root),
        is_plain(one),
        is_plain(other),
        joined(root, one) == joined(root, other),
    ensures
        one == other,
{
    joined_to_directory(root, one);
    joined_to_directory(root, other);
    let front = root.push('/');
    assert((front + one).skip(front.len() as int) =~= one);
    assert((front + other).skip(front.len() as int) =~= other);
}

proof fn plain_paths_end_in_name(root: Seq<char>, path: Seq<char>)
    requires
        names_a_directory(root),
        is_plain(path),
    ensures
        ends_in_name(joined(root, path), lead(root)),
        last_start(joined(root, path), lead(root)) == root.len() + 1 + last_start(path, 0),
{
    joined_to_directory(root, path);
    plain_paths_are_relative(path);
    last_start_is_within(path, 0);
    let front = root.push('/');
    let whole = front + path;
    last_start_behind_slash(front, path, lead(root));
    let start = last_start(path, 0);
    assert(whole.skip((front.len() + start) as int) =~= path.skip(start as int));
}

/// The directory of a plain path below `root` is `root` or below it, and it is
/// `root` if the path is a single name.
proof fn parent_below_directory(root: Seq<char>, path: Seq<char>)
    requires
        names_a_directory(root),
        is_plain(path),
    ensures
        parent_of(joined(root, path)) matches Some(dir) && at_or_below(root, dir),
        last_start(path, 0) == 0 ==> parent_of(joined(root, path)) == Some(root),
{
    joined_to_directory(root, path);
    plain_paths_end_in_name(root, path);
    directories_end_in_no_slash(root);
    last_start_is_within(path, 0);
    let whole = joined(root, path);
    let start = last_start(path, 0);
    let dir = without_last(whole, lead(root));
    if start == 0 {
        assert(dir =~= root);
    } else {
        let upper = path.take(start - 1);
        joined_to_directory(root, upper);
        plain_paths_end_in_name(root, upper);
        assert(dir =~= joined(root, upper));
    }
}

proof fn marker_is_plain()
    ensures
        is_plain(COMPLETE_MARKER@),
        last_start(COMPLETE_MARKER@, 0) == 0,
{
    reveal_strlit(".sashiko-prompts-complete");
    let marker = COMPLETE_MARKER@;
    assert(marker.len() == 25);
    assert forall|i: int| 0 <= i < marker.len() implies marker[i] != '/' by {}
    no_slash_no_start(marker);
    assert(marker.skip(0) =~= marker);
}

pub(crate) proof fn no_slash_no_start(path: Seq<char>)
    requires
        forall|i: int| 0 <= i < path.len() ==> path[i] != '/',
    ensures
        last_start(path, 0) == 0,
    decreases path.len(),
{
    if path.len() > 0 {
        no_slash_no_start(path.drop_last());
    }
}

proof fn after_in_two_parts(tree: FileTree, first: Seq<ChangeModel>, second: Seq<ChangeModel>)
    ensures
        tree.after(first + second) == tree.after(first).after(second),
        tree.has_directories_for(first + second) == (tree.has_directories_for(first) && tree.after(
            first,
        ).has_directories_for(second)),
    decreases second.len(),
{
    let both = first + second;
    if second.len() == 0 {
        assert(both =~= first);
    } else {
        assert(both.drop_last() =~= first + second.drop_last());
        assert(both.last() == second.last());
        after_in_two_parts(tree, first, second.drop_last());
    }
}

/// What the changes for one file of the bundle do.
proof fn effect_of_file(tree: FileTree, root: Seq<char>, file: FileModel)
    requires
        names_a_directory(root),
        is_plain(file.path),
    ensures
        tree.after(file_changes(root, file)).files == tree.files.insert(
            joined(root, file.path),
            file.contents,
        ),
        tree.has_directories_for(file_changes(root, file)),
        parent_of(joined(root, file.path)) matches Some(dir) && at_or_below(root, dir) && forall|
            path: Seq<char>,
        | #[trigger]
            tree.after(file_changes(root, file)).dirs.contains(path) <==> tree.dirs.contains(path)
                || at_or_below(path, dir),
{
    parent_below_directory(root, file.path);
    let path = joined(root, file.path);
    let dir = parent_of(path)->0;
    let changes = file_changes(root, file);
    let create = ChangeModel::CreateDir(dir);
    assert(changes.drop_last() =~= seq![create]);
    assert(seq![create].drop_last() =~= Seq::<ChangeModel>::empty());
    assert(tree.after(seq![create]) == tree.changed(create)) by {
        assert(tree.after(Seq::<ChangeModel>::empty()) == tree);
    }
    assert(tree.has_directories_for(seq![create])) by {
        assert(tree.has_directories_for(Seq::<ChangeModel>::empty()));
    }
    assert(at_or_below(dir, dir));
}

/// What the changes for all files of the bundle do.
proof fn effect_of_files(tree: FileTree, root: Seq<char>, bundle: BundleModel, count: nat)
    requires
        names_a_directory(root),
        well_formed(bundle),
        count <= bundle.files.len(),
    ensures
        tree.after(files_changes(root, bundle.files.take(count as int))).holds_all(
            root,
            bundle.files.take(count as int),
        ),
        tree.has_directories_for(files_changes(root, bundle.files.take(count as int))),
        tree.after(files_changes(root, bundle.files.take(count as int))).has_way_to_all(
            root,
            bundle.files.take(count as int),
        ),
        forall|path: Seq<char>| #[trigger]
            tree.after(files_changes(root, bundle.files.take(count as int))).files.contains_key(
                path,
            ) ==> tree.files.contains_key(path) || exists|i: int|
                0 <= i < count && path == joined(root, (#[trigger] bundle.files[i]).path),
    decreases count,
{
    let files = bundle.files.take(count as int);
    if count > 0 {
        let upper = bundle.files.take(count - 1);
        let file = bundle.files[count - 1];
        assert(files.drop_last() =~= upper);
        assert(files.last() == file);
        effect_of_files(tree, root, bundle, (count - 1) as nat);
        let before = tree.after(files_changes(root, upper));
        after_in_two_parts(tree, files_changes(root, upper), file_changes(root, file));
        effect_of_file(before, root, file);
        let now = tree.after(files_changes(root, files));
        assert forall|i: int| 0 <= i < files.len() implies #[trigger] now.holds(root, files[i]) by {
            if i < count - 1 {
                assert(upper[i] == files[i]);
                assert(before.holds(root, upper[i]));
                assert(bundle.files[i].path != bundle.files[count - 1].path);
                if joined(root, files[i].path) == joined(root, file.path) {
                    joined_is_injective(root, files[i].path, file.path);
                }
            }
        }
        assert forall|i: int| 0 <= i < files.len() implies #[trigger] now.has_way_to(
            root,
            files[i],
        ) by {
            if i < count - 1 {
                assert(upper[i] == files[i]);
                assert(before.has_way_to(root, upper[i]));
            }
        }
        assert forall|path: Seq<char>| #[trigger] now.files.contains_key(path) implies tree.files
            .contains_key(path) || exists|i: int|
            0 <= i < count && path == joined(root, (#[trigger] bundle.files[i]).path) by {
            if path == joined(root, file.path) {
                assert(bundle.files[count - 1].path == file.path);
            } else {
                assert(before.files.contains_key(path));
            }
        }
    }
}

/// The root of a bundle names a directory, whatever the data home, if the
/// revision is a plain path.
pub proof fn bundle_root_names_a_directory(data_home: Seq<char>, revision: Seq<char>)
    requires
        is_plain(revision),
    ensures
        names_a_directory(joined(joined(data_home, BUNDLES_DIR@), revision)),
{
    reveal_strlit("sashiko/prompts");
    let dir = BUNDLES_DIR@;
    let bundles = joined(data_home, dir);
    let front = if data_home.len() == 0 || data_home.last() == '/' {
        data_home
    } else {
        data_home.push('/')
    };
    assert(bundles =~= front + dir);
    let name = dir.skip(8);
    let upper = dir.take(8);
    assert(dir =~= upper + name);
    no_slash_no_start(name);
    last_start_behind_slash(upper, name, 0);
    if front.len() > 0 {
        last_start_behind_slash(front, dir, lead(bundles));
    } else {
        assert(bundles =~= dir);
    }
    assert(bundles.skip((front.len() + 8) as int) =~= name);
    joined_to_directory(bundles, revision);
    plain_paths_end_in_name(bundles, revision);
}

/// What an installation that is not spared does after its removal, if it has
/// one: the files, then the marker.
proof fn effect_of_writes(tree: FileTree, root: Seq<char>, bundle: BundleModel)
    requires
        names_a_directory(root),
        well_formed(bundle),
    ensures
        tree.after(
            files_changes(root, bundle.files) + seq![marker_change(root, bundle.revision)],
        ).holds_all(root, bundle.files),
        tree.after(
            files_changes(root, bundle.files) + seq![marker_change(root, bundle.revision)],
        ).has_way_to_all(root, bundle.files),
        tree.after(
            files_changes(root, bundle.files) + seq![marker_change(root, bundle.revision)],
        ).files.contains_pair(marker_path(root), encode_utf8(bundle.revision)),
        bundle.files.len() > 0 ==> tree.has_directories_for(
            files_changes(root, bundle.files) + seq![marker_change(root, bundle.revision)],
        ),
        forall|path: Seq<char>| #[trigger]
            tree.after(
                files_changes(root, bundle.files) + seq![marker_change(root, bundle.revision)],
            ).files.contains_key(path) ==> tree.files.contains_key(path) || path == marker_path(
                root,
            ) || exists|i: int|
                0 <= i < bundle.files.len() && path == joined(
                    root,
                    (#[trigger] bundle.files[i]).path,
                ),
{
    let changes = files_changes(root, bundle.files);
    let marker = marker_change(root, bundle.revision);
    assert(bundle.files.take(bundle.files.len() as int) =~= bundle.files);
    effect_of_files(tree, root, bundle, bundle.files.len());
    let before = tree.after(changes);
    let all = changes + seq![marker];
    assert(all.drop_last() =~= changes);
    assert(all.last() == marker);
    let now = tree.after(all);
    marker_is_plain();
    parent_below_directory(root, COMPLETE_MARKER@);
    assert forall|i: int| 0 <= i < bundle.files.len() implies #[trigger] now.has_way_to(
        root,
        bundle.files[i],
    ) by {
        assert(before.has_way_to(root, bundle.files[i]));
    }
    if bundle.files.len() > 0 {
        assert(before.has_way_to(root, bundle.files[0]));
        parent_below_directory(root, bundle.files[0].path);
    }
    assert forall|i: int| 0 <= i < bundle.files.len() implies #[trigger] now.holds(
        root,
        bundle.files[i],
    ) by {
        assert(before.holds(root, bundle.files[i]));
        if joined(root, bundle.files[i].path) == marker_path(root) {
            joined_is_injective(root, bundle.files[i].path, COMPLETE_MARKER@);
        }
    }
    assert forall|path: Seq<char>| #[trigger] now.files.contains_key(path) implies tree.files
        .contains_key(path) || path == marker_path(root) || exists|i: int|
        0 <= i < bundle.files.len() && path == joined(root, (#[trigger] bundle.files[i]).path) by {
        if path != marker_path(root) {
            assert(before.files.contains_key(path));
        }
    }
}

/// Whether an installation goes by what is true of the file system: without
/// force, whether the marker exists; with it, whether anything is at the root.
pub open spec fn observed(
    tree: FileTree,
    root: Seq<char>,
    force: bool,
    marker_exists: bool,
    root_exists: bool,
) -> bool {
    &&& !force ==> marker_exists == tree.is_marked(root)
    &&& force && !root_exists ==> tree.is_free_of(root)
}

/// The file system after the removal, if the installation has one.
pub open spec fn cleared(
    tree: FileTree,
    root: Seq<char>,
    force: bool,
    root_exists: bool,
) -> FileTree {
    if force && root_exists {
        tree.changed(ChangeModel::RemoveTree(root))
    } else {
        tree
    }
}

proof fn install_in_two_parts(
    tree: FileTree,
    root: Seq<char>,
    bundle: BundleModel,
    force: bool,
    root_exists: bool,
)
    ensures
        ({
            let changes = install_changes(bundle, root, force, false, root_exists);
            let writes = files_changes(root, bundle.files) + seq![
                marker_change(root, bundle.revision),
            ];
            &&& tree.after(changes) == cleared(tree, root, force, root_exists).after(writes)
            &&& tree.has_directories_for(changes) == cleared(
                tree,
                root,
                force,
                root_exists,
            ).has_directories_for(writes)
        }),
{
    let changes = install_changes(bundle, root, force, false, root_exists);
    let writes = files_changes(root, bundle.files) + seq![marker_change(root, bundle.revision)];
    let remove = ChangeModel::RemoveTree(root);
    if force && root_exists {
        assert(changes =~= seq![remove] + writes);
        after_in_two_parts(tree, seq![remove], writes);
        assert(seq![remove].drop_last() =~= Seq::<ChangeModel>::empty());
        assert(tree.after(Seq::<ChangeModel>::empty()) == tree);
        assert(tree.has_directories_for(Seq::<ChangeModel>::empty()));
    } else {
        assert(changes =~= writes);
    }
}

proof fn writes_of_files(root: Seq<char>, files: Seq<FileModel>)
    ensures
        files_changes(root, files).filter(|change: ChangeModel| change is WriteFile)
            == files.map_values(
            |file: FileModel| ChangeModel::WriteFile(joined(root, file.path), file.contents),
        ),
    decreases files.len(),
{
    let writes = |change: ChangeModel| change is WriteFile;
    let written = |file: FileModel|
        ChangeModel::WriteFile(joined(root, file.path), file.contents);
    reveal(Seq::filter);
    if files.len() > 0 {
        let upper = files.drop_last();
        let file = files.last();
        let own = file_changes(root, file);
        writes_of_files(root, upper);
        Seq::filter_distributes_over_add(files_changes(root, upper), own, writes);
        assert(own.drop_last().len() > 0 ==> own.drop_last().drop_last() =~= Seq::empty());
        assert(own.drop_last().filter(writes) =~= Seq::empty()) by {
            let create = own.drop_last();
            if create.len() > 0 {
                assert(create.drop_last().filter(writes) =~= Seq::empty());
            }
        }
        assert(own.filter(writes) =~= seq![written(file)]);
        assert(files.map_values(written) =~= upper.map_values(written) + seq![written(file)]);
    } else {
        assert(files.map_values(written) =~= Seq::empty());
    }
}

/// What is written by an installation that is not spared: the files of the bundle,
/// each once, in their order, below the root and with all of their bytes, then the
/// marker with the revision, and nothing else. An installation that is spared, since
/// it is not forced and the marker is there, changes nothing.
pub proof fn installation_writes_the_bundle_and_the_marker(
    bundle: BundleModel,
    root: Seq<char>,
    force: bool,
    marker_exists: bool,
    root_exists: bool,
)
    ensures
        ({
            let changes = install_changes(bundle, root, force, marker_exists, root_exists);
            let writes = changes.filter(|change: ChangeModel| change is WriteFile);
            &&& !force && marker_exists ==> changes.len() == 0
            &&& force || !marker_exists ==> {
                &&& writes.len() == bundle.files.len() + 1
                &&& forall|i: int|
                    0 <= i < bundle.files.len() ==> #[trigger] writes[i] == ChangeModel::WriteFile(
                        joined(root, bundle.files[i].path),
                        bundle.files[i].contents,
                    )
                &&& writes.last() == ChangeModel::WriteFile(
                    joined(root, ".sashiko-prompts-complete"@),
                    encode_utf8(bundle.revision),
                )
                &&& changes.last() == writes.last()
            }
        }),
{
    let changes = install_changes(bundle, root, force, marker_exists, root_exists);
    let writes = |change: ChangeModel| change is WriteFile;
    if force || !marker_exists {
        let removal = if force && root_exists {
            seq![ChangeModel::RemoveTree(root)]
        } else {
            Seq::empty()
        };
        let files = files_changes(root, bundle.files);
        let marker = seq![marker_change(root, bundle.revision)];
        reveal(Seq::filter);
        writes_of_files(root, bundle.files);
        Seq::filter_distributes_over_add(removal + files, marker, writes);
        Seq::filter_distributes_over_add(removal, files, writes);
        assert(removal.filter(writes) =~= Seq::empty()) by {
            if removal.len() > 0 {
                assert(removal.drop_last() =~= Seq::empty());
                assert(removal.drop_last().filter(writes) =~= Seq::empty());
            }
        }
        assert(marker.filter(writes) =~= marker) by {
            assert(marker.drop_last() =~= Seq::empty());
            assert(marker.drop_last().filter(writes) =~= Seq::empty());
        }
    }
}

/// Whether the change at `k` creates no directory but that of the file that is
/// written directly after it.
pub open spec fn creates_for_next(changes: Seq<ChangeModel>, k: int) -> bool {
    changes[k] matches ChangeModel::CreateDir(dir) ==> {
        &&& k + 1 < changes.len()
        &&& changes[k + 1] matches ChangeModel::WriteFile(path, _) && parent_of(path) == Some(dir)
    }
}

/// Whether the change at `k` writes no file but one whose directory, if it is in one,
/// is created directly before it.
pub open spec fn writes_after_directory(changes: Seq<ChangeModel>, k: int) -> bool {
    changes[k] matches ChangeModel::WriteFile(path, _) ==> {
        parent_of(path) matches Some(dir) ==> k > 0 && changes[k - 1] == ChangeModel::CreateDir(dir)
    }
}

proof fn directories_of_files(root: Seq<char>, files: Seq<FileModel>, k: int)
    requires
        0 <= k < files_changes(root, files).len(),
    ensures
        creates_for_next(files_changes(root, files), k),
        writes_after_directory(files_changes(root, files), k),
        !(files_changes(root, files)[k] is RemoveTree),
    decreases files.len(),
{
    let upper = files_changes(root, files.drop_last());
    let own = file_changes(root, files.last());
    let changes = files_changes(root, files);
    assert(changes == upper + own);
    if k < upper.len() {
        directories_of_files(root, files.drop_last(), k);
        assert(changes[k] == upper[k]);
        if changes[k] is CreateDir {
            assert(changes[k + 1] == upper[k + 1]);
        }
        if k > 0 {
            assert(changes[k - 1] == upper[k - 1]);
        }
    } else {
        assert(changes[k] == own[k - upper.len()]);
        if changes[k] is CreateDir {
            assert(changes[k + 1] == own[k + 1 - upper.len()]);
        }
        if k > upper.len() {
            assert(changes[k - 1] == own[k - 1 - upper.len()]);
        }
    }
}

/// Directly before each file of the bundle that is in a directory, that directory is
/// created, and none other is. The root is removed exactly in a forced installation
/// where it exists, before anything else, and nothing else is ever removed.
pub proof fn installation_clears_the_root_and_creates_directories(
    bundle: BundleModel,
    root: Seq<char>,
    force: bool,
    marker_exists: bool,
    root_exists: bool,
    k: int,
)
    requires
        force || !marker_exists,
        0 <= k < install_changes(bundle, root, force, marker_exists, root_exists).len(),
    ensures
        ({
            let changes = install_changes(bundle, root, force, marker_exists, root_exists);
            &&& force && root_exists ==> changes[0] == ChangeModel::RemoveTree(root)
            &&& changes[k] is RemoveTree ==> k == 0 && force && root_exists
            &&& creates_for_next(changes, k)
            &&& k < changes.len() - 1 ==> writes_after_directory(changes, k)
        }),
{
    let changes = install_changes(bundle, root, force, marker_exists, root_exists);
    let files = files_changes(root, bundle.files);
    let first: int = if force && root_exists {
        1
    } else {
        0
    };
    if first <= k < first + files.len() {
        directories_of_files(root, bundle.files, k - first);
        assert(changes[k] == files[k - first]);
        if changes[k] is CreateDir {
            assert(changes[k + 1] == files[k + 1 - first]);
        }
        if k > first {
            assert(changes[k - 1] == files[k - 1 - first]);
        }
    }
}

/// An installation that runs to its end leaves every file of the bundle in place
/// with its bytes, and the marker with the revision.
pub proof fn installation_is_complete(
    tree: FileTree,
    root: Seq<char>,
    bundle: BundleModel,
    force: bool,
    marker_exists: bool,
    root_exists: bool,
)
    requires
        names_a_directory(root),
        well_formed(bundle),
        force || !marker_exists,
    ensures
        ({
            let done = tree.after(
                install_changes(bundle, root, force, marker_exists, root_exists),
            );
            &&& done.holds_all(root, bundle.files)
            &&& done.files.contains_pair(marker_path(root), encode_utf8(bundle.revision))
        }),
{
    install_in_two_parts(tree, root, bundle, force, root_exists);
    effect_of_writes(cleared(tree, root, force, root_exists), root, bundle);
    assert(install_changes(bundle, root, force, marker_exists, root_exists) == install_changes(
        bundle,
        root,
        force,
        false,
        root_exists,
    ));
}

/// Every file that an installation writes, the marker too, has its directory by
/// the time it is written, unless the bundle is empty.
pub proof fn every_file_has_its_directory(
    tree: FileTree,
    root: Seq<char>,
    bundle: BundleModel,
    force: bool,
    marker_exists: bool,
    root_exists: bool,
)
    requires
        names_a_directory(root),
        well_formed(bundle),
        bundle.files.len() > 0,
    ensures
        tree.has_directories_for(
            install_changes(bundle, root, force, marker_exists, root_exists),
        ),
{
    if force || !marker_exists {
        install_in_two_parts(tree, root, bundle, force, root_exists);
        effect_of_writes(cleared(tree, root, force, root_exists), root, bundle);
        assert(install_changes(bundle, root, force, marker_exists, root_exists)
            == install_changes(bundle, root, force, false, root_exists));
    }
}

/// Once the bundle is installed, the directory of every project that it has
/// prompts for exists, so that the project's prompt path is found.
pub proof fn projects_with_prompts_are_found(
    tree: FileTree,
    root: Seq<char>,
    bundle: BundleModel,
    force: bool,
    marker_exists: bool,
    root_exists: bool,
    index: int,
    prompt_dir: Seq<char>,
    rest: Seq<char>,
)
    requires
        names_a_directory(root),
        well_formed(bundle),
        force || !marker_exists,
        is_plain(prompt_dir),
        is_plain(rest),
        0 <= index < bundle.files.len(),
        bundle.files[index].path == prompt_dir.push('/') + rest,
    ensures
        tree.after(
            install_changes(bundle, root, force, marker_exists, root_exists),
        ).dirs.contains(joined(root, prompt_dir)),
{
    install_in_two_parts(tree, root, bundle, force, root_exists);
    let start = cleared(tree, root, force, root_exists);
    effect_of_writes(start, root, bundle);
    assert(install_changes(bundle, root, force, marker_exists, root_exists) == install_changes(
        bundle,
        root,
        force,
        false,
        root_exists,
    ));
    let dir = joined(root, prompt_dir);
    joined_to_directory(root, prompt_dir);
    plain_paths_end_in_name(root, prompt_dir);
    joined_to_directory(dir, rest);
    parent_below_directory(dir, rest);
    joined_to_directory(root, bundle.files[index].path);
    assert(joined(dir, rest) =~= joined(root, bundle.files[index].path));
    let done = tree.after(install_changes(bundle, root, force, marker_exists, root_exists));
    assert(done.has_way_to(root, bundle.files[index]));
}

/// A forced installation leaves nothing at or below the root but the files of the
/// bundle and the marker.
pub proof fn forced_installation_leaves_nothing_else(
    tree: FileTree,
    root: Seq<char>,
    bundle: BundleModel,
    marker_exists: bool,
    root_exists: bool,
    path: Seq<char>,
)
    requires
        names_a_directory(root),
        well_formed(bundle),
        observed(tree, root, true, marker_exists, root_exists),
        tree.after(
            install_changes(bundle, root, true, marker_exists, root_exists),
        ).files.contains_key(path),
        at_or_below(root, path),
    ensures
        is_installed(root, bundle.files, path),
{
    install_in_two_parts(tree, root, bundle, true, root_exists);
    effect_of_writes(cleared(tree, root, true, root_exists), root, bundle);
    assert(install_changes(bundle, root, true, marker_exists, root_exists) == install_changes(
        bundle,
        root,
        true,
        false,
        root_exists,
    ));
    assert(!cleared(tree, root, true, root_exists).files.contains_key(path));
}

/// Once the bundle is installed, installing it again without force does nothing.
pub proof fn installing_again_does_nothing(
    tree: FileTree,
    root: Seq<char>,
    bundle: BundleModel,
    force: bool,
    marker_exists: bool,
    root_exists: bool,
    root_exists_now: bool,
)
    requires
        observed(tree, root, force, marker_exists, root_exists),
    ensures
        ({
            let done = tree.after(
                install_changes(bundle, root, force, marker_exists, root_exists),
            );
            install_changes(bundle, root, false, done.is_marked(root), root_exists_now)
                == Seq::<ChangeModel>::empty()
        }),
{
    if force || !marker_exists {
        let changes = install_changes(bundle, root, force, marker_exists, root_exists);
        assert(changes.last() == marker_change(root, bundle.revision));
    }
}

/// The changes of an installation before its last write no marker.
proof fn marker_comes_last(
    tree: FileTree,
    root: Seq<char>,
    bundle: BundleModel,
    count: nat,
    changes: Seq<ChangeModel>,
)
    requires
        names_a_directory(root),
        well_formed(bundle),
        count <= bundle.files.len(),
        changes.is_prefix_of(files_changes(root, bundle.files.take(count as int))),
        !tree.is_marked(root),
    ensures
        !tree.after(changes).is_marked(root),
    decreases count, changes.len(),
{
    let files = bundle.files.take(count as int);
    if changes.len() > 0 {
        let upper = bundle.files.take(count - 1);
        let file = bundle.files[count - 1];
        assert(files.drop_last() =~= upper);
        assert(files.last() == file);
        let shorter = files_changes(root, upper);
        if changes.len() <= shorter.len() {
            assert(changes.is_prefix_of(shorter));
            marker_comes_last(tree, root, bundle, (count - 1) as nat, changes);
        } else {
            assert(changes.drop_last().is_prefix_of(files_changes(root, files)));
            marker_comes_last(tree, root, bundle, count, changes.drop_last());
            let last = changes.last();
            let own = file_changes(root, file);
            assert(last == own[changes.len() - 1 - shorter.len()]);
            marker_is_plain();
            if joined(root, file.path) == marker_path(root) {
                joined_is_injective(root, file.path, COMPLETE_MARKER@);
            }
        }
    }
}

/// There is no marker wherever an installation that is not spared is cut off
/// before its last step: not from the start without force, nor from the removal
/// on with it.
pub proof fn marker_is_absent_until_the_last_step(
    tree: FileTree,
    root: Seq<char>,
    bundle: BundleModel,
    force: bool,
    marker_exists: bool,
    root_exists: bool,
    taken: nat,
)
    requires
        names_a_directory(root),
        well_formed(bundle),
        observed(tree, root, force, marker_exists, root_exists),
        force || !marker_exists,
        force && root_exists ==> taken > 0,
        taken < install_changes(bundle, root, force, marker_exists, root_exists).len(),
    ensures
        !tree.after(
            install_changes(bundle, root, force, marker_exists, root_exists).take(taken as int),
        ).is_marked(root),
{
    let prefix = install_changes(bundle, root, force, marker_exists, root_exists).take(
        taken as int,
    );
    marker_is_plain();
    joined_to_directory(root, COMPLETE_MARKER@);
    let files = files_changes(root, bundle.files);
    let start = cleared(tree, root, force, root_exists);
    assert(!start.is_marked(root));
    assert(bundle.files.take(bundle.files.len() as int) =~= bundle.files);
    if force && root_exists {
        let remove = ChangeModel::RemoveTree(root);
        let writes = prefix.skip(1);
        assert(prefix =~= seq![remove] + writes);
        after_in_two_parts(tree, seq![remove], writes);
        assert(seq![remove].drop_last() =~= Seq::<ChangeModel>::empty());
        assert(tree.after(Seq::<ChangeModel>::empty()) == tree);
        assert(writes.is_prefix_of(files));
        marker_comes_last(start, root, bundle, bundle.files.len(), writes);
    } else {
        assert(prefix.is_prefix_of(files));
        marker_comes_last(start, root, bundle, bundle.files.len(), prefix);
    }
}

/// Wherever an installation is cut off between two steps, a marker that is there
/// can be trusted: if it vouched for a complete bundle before, it does so at that
/// point too.
pub proof fn marker_vouches_for_every_file(
    tree: FileTree,
    root: Seq<char>,
    bundle: BundleModel,
    force: bool,
    marker_exists: bool,
    root_exists: bool,
    taken: nat,
)
    requires
        names_a_directory(root),
        well_formed(bundle),
        observed(tree, root, force, marker_exists, root_exists),
        tree.is_marked(root) ==> tree.holds_all(root, bundle.files),
        taken <= install_changes(bundle, root, force, marker_exists, root_exists).len(),
    ensures
        ({
            let now = tree.after(
                install_changes(bundle, root, force, marker_exists, root_exists).take(
                    taken as int,
                ),
            );
            now.is_marked(root) ==> now.holds_all(root, bundle.files)
        }),
{
    let changes = install_changes(bundle, root, force, marker_exists, root_exists);
    let prefix = changes.take(taken as int);
    if taken == changes.len() {
        assert(prefix =~= changes);
        if force || !marker_exists {
            installation_is_complete(tree, root, bundle, force, marker_exists, root_exists);
        }
    } else if taken > 0 {
        marker_is_absent_until_the_last_step(
            tree,
            root,
            bundle,
            force,
            marker_exists,
            root_exists,
            taken,
        );
    } else {
        assert(prefix =~= Seq::<ChangeModel>::empty());
    }
}

/// Whether the change leaves the file alone.
pub open spec fn leaves_alone(change: ChangeModel, path: Seq<char>) -> bool {
    match change {
        ChangeModel::RemoveTree(root) => !at_or_below(root, path),
        ChangeModel::CreateDir(_) => true,
        ChangeModel::WriteFile(written, _) => written != path,
    }
}

/// Whether a file is as it was before, be it there or not.
pub open spec fn is_unchanged(before: FileTree, now: FileTree, path: Seq<char>) -> bool {
    &&& now.files.contains_key(path) == before.files.contains_key(path)
    &&& before.files.contains_key(path) ==> now.files[path] == before.files[path]
}

proof fn untouched_files_are_unchanged(tree: FileTree, changes: Seq<ChangeModel>, path: Seq<char>)
    requires
        forall|i: int| 0 <= i < changes.len() ==> leaves_alone(#[trigger] changes[i], path),
    ensures
        is_unchanged(tree, tree.after(changes), path),
    decreases changes.len(),
{
    if changes.len() > 0 {
        let earlier = changes.drop_last();
        assert forall|i: int| 0 <= i < earlier.len() implies leaves_alone(
            #[trigger] earlier[i],
            path,
        ) by {
            assert(earlier[i] == changes[i]);
        }
        untouched_files_are_unchanged(tree, earlier, path);
        assert(leaves_alone(changes[changes.len() - 1], path));
    }
}

/// Whether the path is that of a file of the bundle or of the marker.
pub open spec fn is_installed(root: Seq<char>, files: Seq<FileModel>, path: Seq<char>) -> bool {
    path == marker_path(root) || exists|i: int|
        0 <= i < files.len() && path == joined(root, (#[trigger] files[i]).path)
}

proof fn file_changes_leave_others_alone(root: Seq<char>, files: Seq<FileModel>, path: Seq<char>)
    requires
        !is_installed(root, files, path),
    ensures
        forall|i: int|
            0 <= i < files_changes(root, files).len() ==> leaves_alone(
                #[trigger] files_changes(root, files)[i],
                path,
            ),
    decreases files.len(),
{
    if files.len() > 0 {
        let upper = files.drop_last();
        let file = files.last();
        assert(files[files.len() - 1] == file);
        if is_installed(root, upper, path) {
            let i = choose|i: int|
                0 <= i < upper.len() && path == joined(root, (#[trigger] upper[i]).path);
            assert(files[i] == upper[i]);
        }
        file_changes_leave_others_alone(root, upper, path);
        let earlier = files_changes(root, upper);
        let own = file_changes(root, file);
        assert forall|i: int| 0 <= i < files_changes(root, files).len() implies leaves_alone(
            #[trigger] files_changes(root, files)[i],
            path,
        ) by {
            if i < earlier.len() {
                assert(files_changes(root, files)[i] == earlier[i]);
            } else {
                assert(files_changes(root, files)[i] == own[i - earlier.len()]);
            }
        }
    }
}

proof fn other_files_are_unchanged(
    tree: FileTree,
    root: Seq<char>,
    bundle: BundleModel,
    force: bool,
    marker_exists: bool,
    root_exists: bool,
    taken: nat,
    path: Seq<char>,
)
    requires
        taken <= install_changes(bundle, root, force, marker_exists, root_exists).len(),
        !is_installed(root, bundle.files, path),
        force && root_exists ==> !at_or_below(root, path),
    ensures
        is_unchanged(
            tree,
            tree.after(
                install_changes(bundle, root, force, marker_exists, root_exists).take(
                    taken as int,
                ),
            ),
            path,
        ),
{
    let changes = install_changes(bundle, root, force, marker_exists, root_exists);
    let files = files_changes(root, bundle.files);
    file_changes_leave_others_alone(root, bundle.files, path);
    let prefix = changes.take(taken as int);
    let first: int = if force && root_exists {
        1
    } else {
        0
    };
    assert forall|i: int| 0 <= i < prefix.len() implies leaves_alone(
        #[trigger] prefix[i],
        path,
    ) by {
        assert(prefix[i] == changes[i]);
        if first <= i < first + files.len() {
            assert(changes[i] == files[i - first]);
        }
    }
    untouched_files_are_unchanged(tree, prefix, path);
}

/// Without force, at no point does an installation touch a file that is neither
/// in the bundle nor the marker, wherever it is.
pub proof fn unforced_installation_keeps_other_files(
    tree: FileTree,
    root: Seq<char>,
    bundle: BundleModel,
    marker_exists: bool,
    root_exists: bool,
    taken: nat,
    path: Seq<char>,
)
    requires
        taken <= install_changes(bundle, root, false, marker_exists, root_exists).len(),
        !is_installed(root, bundle.files, path),
    ensures
        is_unchanged(
            tree,
            tree.after(
                install_changes(bundle, root, false, marker_exists, root_exists).take(
                    taken as int,
                ),
            ),
            path,
        ),
{
    other_files_are_unchanged(
        tree,
        root,
        bundle,
        false,
        marker_exists,
        root_exists,
        taken,
        path,
    );
}

/// At no point does an installation touch a file that is not at or below its
/// root.
pub proof fn installation_stays_below_its_root(
    tree: FileTree,
    root: Seq<char>,
    bundle: BundleModel,
    force: bool,
    marker_exists: bool,
    root_exists: bool,
    taken: nat,
    path: Seq<char>,
)
    requires
        names_a_directory(root),
        well_formed(bundle),
        taken <= install_changes(bundle, root, force, marker_exists, root_exists).len(),
        !at_or_below(root, path),
    ensures
        is_unchanged(
            tree,
            tree.after(
                install_changes(bundle, root, force, marker_exists, root_exists).take(
                    taken as int,
                ),
            ),
            path,
        ),
{
    marker_is_plain();
    joined_to_directory(root, COMPLETE_MARKER@);
    assert forall|i: int| 0 <= i < bundle.files.len() implies path != joined(
        root,
        (#[trigger] bundle.files[i]).path,
    ) by {
        joined_to_directory(root, bundle.files[i].path);
    }
    other_files_are_unchanged(
        tree,
        root,
        bundle,
        force,
        marker_exists,
        root_exists,
        taken,
        path,
    );
}

} // verus!
