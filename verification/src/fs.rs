//! A small in-memory hierarchical filesystem: named directories holding
//! files (byte contents) and subdirectories, with a current-directory path.
//! Each operation resolves the current path from the root; when the path no
//! longer resolves (the current directory was never validated on `cd`, as
//! `model_cd` states), the operation reports that and changes nothing.

use vstd::prelude::*;

verus! {

/// A file: a name and its contents.
pub struct File {
    pub name: String,
    pub data: Vec<u8>,
}

/// A directory: a name, its files, and its subdirectories.
pub struct Directory {
    pub name: String,
    pub files: Vec<File>,
    pub subdirectories: Vec<Directory>,
}

/// The mathematical shape of a file: its name and contents.
pub ghost struct FileModel {
    pub name: Seq<char>,
    pub data: Seq<u8>,
}

/// The mathematical shape of a directory tree.
pub ghost struct DirModel {
    pub name: Seq<char>,
    pub files: Seq<FileModel>,
    pub subdirs: Seq<DirModel>,
}

impl View for File {
    type V = FileModel;

    open spec fn view(&self) -> FileModel {
        FileModel { name: self.name@, data: self.data@ }
    }
}

/// The model of a directory tree.
pub open spec fn dir_view(d: Directory) -> DirModel
    decreases d, 1int,
{
    DirModel {
        name: d.name@,
        files: d.files@.map_values(|f: File| f@),
        subdirs: dirs_view(d.subdirectories@),
    }
}

/// The models of a sequence of directory trees, in order.
pub open spec fn dirs_view(s: Seq<Directory>) -> Seq<DirModel>
    decreases s, 0int,
{
    if s.len() == 0 {
        Seq::<DirModel>::empty()
    } else {
        seq![dir_view(s[0])] + dirs_view(s.subrange(1, s.len() as int))
    }
}

impl View for Directory {
    type V = DirModel;

    open spec fn view(&self) -> DirModel {
        dir_view(*self)
    }
}

/// `dirs_view` maps `dir_view` over the sequence, index by index.
pub proof fn lemma_dirs_view_index(s: Seq<Directory>)
    ensures
        dirs_view(s).len() == s.len(),
        forall|i: int| 0 <= i < s.len() ==> dirs_view(s)[i] == dir_view(s[i]),
    decreases s.len(),
{
    if s.len() > 0 {
        lemma_dirs_view_index(s.subrange(1, s.len() as int));
    }
}

/// Updating one tree of a sequence updates its model in the same place.
pub proof fn lemma_dirs_view_update(s: Seq<Directory>, i: int, d: Directory)
    requires
        0 <= i < s.len(),
    ensures
        dirs_view(s.update(i, d)) == dirs_view(s).update(i, dir_view(d)),
{
    lemma_dirs_view_index(s);
    lemma_dirs_view_index(s.update(i, d));
    assert(dirs_view(s.update(i, d)) =~= dirs_view(s).update(i, dir_view(d)));
}

/// Why a filesystem operation did nothing.
#[derive(Debug, Clone, Copy, PartialEq, Eq, Structural)]
pub enum FsError {
    /// The current directory path does not resolve to a directory.
    NotFound,
    /// A file or directory of that name is already there.
    AlreadyExists,
    /// No file of that name is there.
    NoSuchFile,
}

/// The position of the first directory called `name`, searching from `i`.
pub open spec fn subdir_index(subs: Seq<DirModel>, name: Seq<char>, i: int) -> Option<int>
    decreases subs.len() - i,
{
    if i < 0 || i >= subs.len() {
        None
    } else if subs[i].name == name {
        Some(i)
    } else {
        subdir_index(subs, name, i + 1)
    }
}

/// The position of the first file called `name`, searching from `i`.
pub open spec fn file_index(files: Seq<FileModel>, name: Seq<char>, i: int) -> Option<int>
    decreases files.len() - i,
{
    if i < 0 || i >= files.len() {
        None
    } else if files[i].name == name {
        Some(i)
    } else {
        file_index(files, name, i + 1)
    }
}

/// The directory a path of component names leads to, if each component in
/// turn names a subdirectory (always taking the first of that name).
pub open spec fn model_find(d: DirModel, path: Seq<Seq<char>>) -> Option<DirModel>
    decreases path.len(),
{
    if path.len() == 0 {
        Some(d)
    } else {
        match subdir_index(d.subdirs, path[0], 0) {
            Some(i) => model_find(d.subdirs[i], path.skip(1)),
            None => None,
        }
    }
}

/// The tree after creating an empty file called `name` in the directory at
/// `path`, and the outcome: the path must resolve and the name must be new;
/// on an error the tree is unchanged.
pub open spec fn model_create_file(d: DirModel, path: Seq<Seq<char>>, name: Seq<char>) -> (
    DirModel,
    Result<(), FsError>,
)
    decreases path.len(),
{
    if path.len() == 0 {
        if file_index(d.files, name, 0) is Some {
            (d, Err(FsError::AlreadyExists))
        } else {
            (
                DirModel {
                    name: d.name,
                    files: d.files.push(FileModel { name, data: Seq::<u8>::empty() }),
                    subdirs: d.subdirs,
                },
                Ok(()),
            )
        }
    } else {
        match subdir_index(d.subdirs, path[0], 0) {
            Some(i) => {
                let sub = model_create_file(d.subdirs[i], path.skip(1), name);
                (
                    DirModel { name: d.name, files: d.files, subdirs: d.subdirs.update(i, sub.0) },
                    sub.1,
                )
            },
            None => (d, Err(FsError::NotFound)),
        }
    }
}

/// The tree after creating an empty directory called `name` in the
/// directory at `path`, and the outcome, as for `model_create_file`.
pub open spec fn model_create_dir(d: DirModel, path: Seq<Seq<char>>, name: Seq<char>) -> (
    DirModel,
    Result<(), FsError>,
)
    decreases path.len(),
{
    if path.len() == 0 {
        if subdir_index(d.subdirs, name, 0) is Some {
            (d, Err(FsError::AlreadyExists))
        } else {
            (
                DirModel {
                    name: d.name,
                    files: d.files,
                    subdirs: d.subdirs.push(
                        DirModel {
                            name,
                            files: Seq::<FileModel>::empty(),
                            subdirs: Seq::<DirModel>::empty(),
                        },
                    ),
                },
                Ok(()),
            )
        }
    } else {
        match subdir_index(d.subdirs, path[0], 0) {
            Some(i) => {
                let sub = model_create_dir(d.subdirs[i], path.skip(1), name);
                (
                    DirModel { name: d.name, files: d.files, subdirs: d.subdirs.update(i, sub.0) },
                    sub.1,
                )
            },
            None => (d, Err(FsError::NotFound)),
        }
    }
}

/// The tree after overwriting the contents of the file called `name` in the
/// directory at `path`, and the outcome: the path must resolve and the file
/// must exist; on an error the tree is unchanged.
pub open spec fn model_write_file(
    d: DirModel,
    path: Seq<Seq<char>>,
    name: Seq<char>,
    data: Seq<u8>,
) -> (DirModel, Result<(), FsError>)
    decreases path.len(),
{
    if path.len() == 0 {
        match file_index(d.files, name, 0) {
            Some(i) => (
                DirModel {
                    name: d.name,
                    files: d.files.update(i, FileModel { name: d.files[i].name, data }),
                    subdirs: d.subdirs,
                },
                Ok(()),
            ),
            None => (d, Err(FsError::NoSuchFile)),
        }
    } else {
        match subdir_index(d.subdirs, path[0], 0) {
            Some(i) => {
                let sub = model_write_file(d.subdirs[i], path.skip(1), name, data);
                (
                    DirModel { name: d.name, files: d.files, subdirs: d.subdirs.update(i, sub.0) },
                    sub.1,
                )
            },
            None => (d, Err(FsError::NotFound)),
        }
    }
}

/// The contents of the file called `name` in the directory at `path`, when
/// the path resolves and the file is there.
pub open spec fn model_read_file(d: DirModel, path: Seq<Seq<char>>, name: Seq<char>) -> Option<
    Seq<u8>,
> {
    match model_find(d, path) {
        Some(target) => match file_index(target.files, name, 0) {
            Some(i) => Some(target.files[i].data),
            None => None,
        },
        None => None,
    }
}

/// The names of the files of a directory, in order.
pub open spec fn file_names(d: DirModel) -> Seq<Seq<char>> {
    d.files.map_values(|f: FileModel| f.name)
}

/// The names of the subdirectories of a directory, in order.
pub open spec fn subdir_names(d: DirModel) -> Seq<Seq<char>> {
    d.subdirs.map_values(|s: DirModel| s.name)
}

/// The current path after `cd arg`: `..` drops the last component (at the
/// root it stays); any other name is appended, provided the current path
/// still resolves — the target itself is not checked, so a `cd` to a
/// missing name succeeds and later operations report the unresolved path.
pub open spec fn model_cd(root: DirModel, cur: Seq<Seq<char>>, arg: Seq<char>) -> Seq<Seq<char>> {
    if arg == seq!['.', '.'] {
        if cur.len() == 0 {
            cur
        } else {
            cur.drop_last()
        }
    } else if model_find(root, cur) is Some {
        cur.push(arg)
    } else {
        cur
    }
}

/// Find the first subdirectory of that name, as `subdir_index` states.
fn find_subdir(subs: &Vec<Directory>, name: &String) -> (r: Option<usize>)
    ensures
        r matches Some(i) ==> i < subs@.len() && subdir_index(dirs_view(subs@), name@, 0) == Some(
            i as int,
        ),
        r is None ==> subdir_index(dirs_view(subs@), name@, 0) is None,
{
    proof {
        lemma_dirs_view_index(subs@);
    }
    let ghost dv = dirs_view(subs@);
    let mut i: usize = 0;
    while i < subs.len()
        invariant
            i <= subs@.len(),
            dv == dirs_view(subs@),
            dv.len() == subs@.len(),
            forall|k: int| 0 <= k < subs@.len() ==> dv[k] == dir_view(subs@[k]),
            subdir_index(dv, name@, 0) == subdir_index(dv, name@, i as int),
        decreases subs@.len() - i,
    {
        if subs[i].name == *name {
            return Some(i);
        }
        proof {
            assert(subdir_index(dv, name@, i as int) == subdir_index(dv, name@, i + 1));
        }
        i = i + 1;
    }
    None
}

/// Find the first file of that name, as `file_index` states.
fn find_file(files: &Vec<File>, name: &String) -> (r: Option<usize>)
    ensures
        r matches Some(i) ==> i < files@.len() && file_index(
            files@.map_values(|f: File| f@),
            name@,
            0,
        ) == Some(i as int),
        r is None ==> file_index(files@.map_values(|f: File| f@), name@, 0) is None,
{
    let ghost fv = files@.map_values(|f: File| f@);
    let mut i: usize = 0;
    while i < files.len()
        invariant
            i <= files@.len(),
            fv == files@.map_values(|f: File| f@),
            file_index(fv, name@, 0) == file_index(fv, name@, i as int),
        decreases files@.len() - i,
    {
        if files[i].name == *name {
            return Some(i);
        }
        proof {
            assert(file_index(fv, name@, i as int) == file_index(fv, name@, i + 1));
        }
        i = i + 1;
    }
    None
}

/// Walk a path of component names down from a directory, as `model_find`
/// states, starting at component `depth`.
fn find_dir_at<'a>(dir: &'a Directory, path: &Vec<String>, depth: usize) -> (r: Option<
    &'a Directory,
>)
    requires
        depth <= path@.len(),
    ensures
        r matches Some(d) ==> model_find(dir_view(*dir), path_names(path@).skip(depth as int))
            == Some(dir_view(*d)),
        r is None ==> model_find(dir_view(*dir), path_names(path@).skip(depth as int)) is None,
    decreases path@.len() - depth,
{
    if depth == path.len() {
        proof {
            assert(path_names(path@).skip(depth as int) =~= Seq::<Seq<char>>::empty());
        }
        Some(dir)
    } else {
        let ghost rest = path_names(path@).skip(depth as int);
        proof {
            assert(rest[0] == path@[depth as int]@);
            assert(rest.skip(1) =~= path_names(path@).skip(depth + 1));
        }
        match find_subdir(&dir.subdirectories, &path[depth]) {
            Some(i) => {
                proof {
                    lemma_dirs_view_index(dir.subdirectories@);
                }
                find_dir_at(&dir.subdirectories[i], path, depth + 1)
            },
            None => None,
        }
    }
}

/// The views of a path's components.
pub open spec fn path_names(path: Seq<String>) -> Seq<Seq<char>> {
    path.map_values(|s: String| s@)
}

/// Create an empty file in the directory `depth` components down the path,
/// as `model_create_file` states.
fn create_file_at(dir: &mut Directory, path: &Vec<String>, depth: usize, name: String) -> (r:
    Result<(), FsError>)
    requires
        depth <= path@.len(),
    ensures
        ({
            let m = model_create_file(
                dir_view(*old(dir)),
                path_names(path@).skip(depth as int),
                name@,
            );
            &&& dir_view(*final(dir)) == m.0
            &&& r == m.1
        }),
    decreases path@.len() - depth,
{
    let ghost rest = path_names(path@).skip(depth as int);
    if depth == path.len() {
        proof {
            assert(rest =~= Seq::<Seq<char>>::empty());
        }
        match find_file(&dir.files, &name) {
            Some(_) => Err(FsError::AlreadyExists),
            None => {
                let ghost old_files = dir.files@;
                dir.files.push(File { name, data: Vec::new() });
                proof {
                    assert(dir.files@.map_values(|f: File| f@) =~= old_files.map_values(
                        |f: File| f@,
                    ).push(dir.files@.last()@));
                }
                Ok(())
            },
        }
    } else {
        proof {
            assert(rest[0] == path@[depth as int]@);
            assert(rest.skip(1) =~= path_names(path@).skip(depth + 1));
        }
        match find_subdir(&dir.subdirectories, &path[depth]) {
            Some(i) => {
                let ghost old_subs = dir.subdirectories@;
                proof {
                    lemma_dirs_view_index(old_subs);
                }
                let sub = &mut dir.subdirectories[i];
                let r = create_file_at(sub, path, depth + 1, name);
                proof {
                    lemma_dirs_view_update(
                        old_subs,
                        i as int,
                        dir.subdirectories@[i as int],
                    );
                    assert(dir.subdirectories@ =~= old_subs.update(
                        i as int,
                        dir.subdirectories@[i as int],
                    ));
                }
                r
            },
            None => Err(FsError::NotFound),
        }
    }
}

/// Create an empty subdirectory in the directory `depth` components down
/// the path, as `model_create_dir` states.
fn create_dir_at(dir: &mut Directory, path: &Vec<String>, depth: usize, name: String) -> (r:
    Result<(), FsError>)
    requires
        depth <= path@.len(),
    ensures
        ({
            let m = model_create_dir(
                dir_view(*old(dir)),
                path_names(path@).skip(depth as int),
                name@,
            );
            &&& dir_view(*final(dir)) == m.0
            &&& r == m.1
        }),
    decreases path@.len() - depth,
{
    let ghost rest = path_names(path@).skip(depth as int);
    if depth == path.len() {
        proof {
            assert(rest =~= Seq::<Seq<char>>::empty());
        }
        match find_subdir(&dir.subdirectories, &name) {
            Some(_) => Err(FsError::AlreadyExists),
            None => {
                let ghost old_subs = dir.subdirectories@;
                dir.subdirectories.push(
                    Directory { name, files: Vec::new(), subdirectories: Vec::new() },
                );
                proof {
                    lemma_dirs_view_index(old_subs);
                    lemma_dirs_view_index(dir.subdirectories@);
                    let new_sub = dir.subdirectories@.last();
                    assert(dir_view(new_sub).files =~= Seq::<FileModel>::empty());
                    assert(dir_view(new_sub).subdirs =~= Seq::<DirModel>::empty());
                    assert(dirs_view(dir.subdirectories@) =~= dirs_view(old_subs).push(
                        dir_view(new_sub),
                    ));
                }
                Ok(())
            },
        }
    } else {
        proof {
            assert(rest[0] == path@[depth as int]@);
            assert(rest.skip(1) =~= path_names(path@).skip(depth + 1));
        }
        match find_subdir(&dir.subdirectories, &path[depth]) {
            Some(i) => {
                let ghost old_subs = dir.subdirectories@;
                proof {
                    lemma_dirs_view_index(old_subs);
                }
                let sub = &mut dir.subdirectories[i];
                let r = create_dir_at(sub, path, depth + 1, name);
                proof {
                    lemma_dirs_view_update(
                        old_subs,
                        i as int,
                        dir.subdirectories@[i as int],
                    );
                    assert(dir.subdirectories@ =~= old_subs.update(
                        i as int,
                        dir.subdirectories@[i as int],
                    ));
                }
                r
            },
            None => Err(FsError::NotFound),
        }
    }
}

/// Overwrite the contents of a file in the directory `depth` components
/// down the path, as `model_write_file` states.
fn write_file_at(
    dir: &mut Directory,
    path: &Vec<String>,
    depth: usize,
    name: &String,
    data: Vec<u8>,
) -> (r: Result<(), FsError>)
    requires
        depth <= path@.len(),
    ensures
        ({
            let m = model_write_file(
                dir_view(*old(dir)),
                path_names(path@).skip(depth as int),
                name@,
                data@,
            );
            &&& dir_view(*final(dir)) == m.0
            &&& r == m.1
        }),
    decreases path@.len() - depth,
{
    let ghost rest = path_names(path@).skip(depth as int);
    if depth == path.len() {
        proof {
            assert(rest =~= Seq::<Seq<char>>::empty());
        }
        match find_file(&dir.files, name) {
            Some(i) => {
                let ghost old_files = dir.files@;
                let file = &mut dir.files[i];
                file.data = data;
                proof {
                    assert(dir.files@.map_values(|f: File| f@) =~= old_files.map_values(
                        |f: File| f@,
                    ).update(
                        i as int,
                        FileModel { name: old_files[i as int]@.name, data: dir.files@[i as int]@.data },
                    ));
                }
                Ok(())
            },
            None => Err(FsError::NoSuchFile),
        }
    } else {
        proof {
            assert(rest[0] == path@[depth as int]@);
            assert(rest.skip(1) =~= path_names(path@).skip(depth + 1));
        }
        match find_subdir(&dir.subdirectories, &path[depth]) {
            Some(i) => {
                let ghost old_subs = dir.subdirectories@;
                proof {
                    lemma_dirs_view_index(old_subs);
                }
                let sub = &mut dir.subdirectories[i];
                let r = write_file_at(sub, path, depth + 1, name, data);
                proof {
                    lemma_dirs_view_update(
                        old_subs,
                        i as int,
                        dir.subdirectories@[i as int],
                    );
                    assert(dir.subdirectories@ =~= old_subs.update(
                        i as int,
                        dir.subdirectories@[i as int],
                    ));
                }
                r
            },
            None => Err(FsError::NotFound),
        }
    }
}

/// A byte-for-byte copy of a vector.
fn copied_bytes(v: &Vec<u8>) -> (out: Vec<u8>)
    ensures
        out@ == v@,
{
    let mut out: Vec<u8> = Vec::new();
    let mut i: usize = 0;
    while i < v.len()
        invariant
            i <= v@.len(),
            out@ == v@.take(i as int),
        decreases v@.len() - i,
    {
        out.push(v[i]);
        proof {
            assert(v@.take(i + 1) =~= v@.take(i as int).push(v@[i as int]));
        }
        i = i + 1;
    }
    proof {
        assert(v@.take(v@.len() as int) =~= v@);
    }
    out
}

/// The in-memory filesystem: a root directory tree and the current path,
/// held as the component names below the root.
pub struct FileSystem {
    pub root: Directory,
    current_path: Vec<String>,
}

impl FileSystem {
    /// The model of the whole tree.
    pub closed spec fn root_model(self) -> DirModel {
        dir_view(self.root)
    }

    /// The current path, as component names below the root.
    pub closed spec fn path_model(self) -> Seq<Seq<char>> {
        path_names(self.current_path@)
    }

    /// A filesystem holding only an empty root directory named `/`, with
    /// the current directory at the root.
    pub fn new() -> (fs: FileSystem)
        ensures
            fs.root_model().name == "/"@,
            fs.root_model().files == Seq::<FileModel>::empty(),
            fs.root_model().subdirs == Seq::<DirModel>::empty(),
            fs.path_model() == Seq::<Seq<char>>::empty(),
    {
        let fs = FileSystem {
            root: Directory {
                name: String::from_str("/"),
                files: Vec::new(),
                subdirectories: Vec::new(),
            },
            current_path: Vec::new(),
        };
        proof {
            assert(fs.root_model().files =~= Seq::<FileModel>::empty());
            assert(fs.root_model().subdirs =~= Seq::<DirModel>::empty());
            assert(fs.path_model() =~= Seq::<Seq<char>>::empty());
        }
        fs
    }

    /// The components of the current path, in order from the root.
    pub fn current_path(&self) -> (p: &Vec<String>)
        ensures
            path_names(p@) == self.path_model(),
    {
        &self.current_path
    }

    /// Create an empty file of that name in the current directory.  It
    /// fails with `AlreadyExists` when a file of that name is there, and
    /// with `NotFound` when the current path does not resolve; the tree is
    /// then unchanged.  The current path never changes.
    pub fn create_file(&mut self, name: String) -> (r: Result<(), FsError>)
        ensures
            final(self).root_model() == model_create_file(
                old(self).root_model(),
                old(self).path_model(),
                name@,
            ).0,
            r == model_create_file(old(self).root_model(), old(self).path_model(), name@).1,
            final(self).path_model() == old(self).path_model(),
    {
        proof {
            assert(path_names(self.current_path@).skip(0) =~= self.path_model());
        }
        let path = &self.current_path;
        create_file_at(&mut self.root, path, 0, name)
    }

    /// Create an empty subdirectory of that name in the current directory,
    /// with errors as for `create_file`.  The current path never changes.
    pub fn create_directory(&mut self, name: String) -> (r: Result<(), FsError>)
        ensures
            final(self).root_model() == model_create_dir(
                old(self).root_model(),
                old(self).path_model(),
                name@,
            ).0,
            r == model_create_dir(old(self).root_model(), old(self).path_model(), name@).1,
            final(self).path_model() == old(self).path_model(),
    {
        proof {
            assert(path_names(self.current_path@).skip(0) =~= self.path_model());
        }
        let path = &self.current_path;
        create_dir_at(&mut self.root, path, 0, name)
    }

    /// Overwrite the contents of the file of that name in the current
    /// directory.  It fails with `NoSuchFile` when no such file is there,
    /// and with `NotFound` when the current path does not resolve; the tree
    /// is then unchanged.  The current path never changes.
    pub fn write_file(&mut self, name: &str, data: Vec<u8>) -> (r: Result<(), FsError>)
        ensures
            final(self).root_model() == model_write_file(
                old(self).root_model(),
                old(self).path_model(),
                name@,
                data@,
            ).0,
            r == model_write_file(old(self).root_model(), old(self).path_model(), name@, data@).1,
            final(self).path_model() == old(self).path_model(),
    {
        proof {
            assert(path_names(self.current_path@).skip(0) =~= self.path_model());
        }
        let owned = name.to_owned();
        let path = &self.current_path;
        write_file_at(&mut self.root, path, 0, &owned, data)
    }

    /// The contents of the file of that name in the current directory, or
    /// `None` when the current path does not resolve or no such file is
    /// there.
    pub fn read_file(&self, name: &str) -> (r: Option<Vec<u8>>)
        ensures
            r matches Some(data) ==> model_read_file(
                self.root_model(),
                self.path_model(),
                name@,
            ) == Some(data@),
            r is None ==> model_read_file(self.root_model(), self.path_model(), name@) is None,
    {
        let owned = name.to_owned();
        match self.get_current_directory() {
            Some(dir) => match find_file(&dir.files, &owned) {
                Some(i) => Some(copied_bytes(&dir.files[i].data)),
                None => None,
            },
            None => None,
        }
    }

    /// The names of the files and of the subdirectories of the current
    /// directory, each in insertion order, or `NotFound` when the current
    /// path does not resolve.
    pub fn list_files(&self) -> (r: Result<(Vec<String>, Vec<String>), FsError>)
        ensures
            r matches Ok(listing) ==> ({
                let found = model_find(self.root_model(), self.path_model());
                &&& found is Some
                &&& path_names(listing.0@) == file_names(found->0)
                &&& path_names(listing.1@) == subdir_names(found->0)
            }),
            r is Err ==> r == Err::<(Vec<String>, Vec<String>), FsError>(FsError::NotFound)
                && model_find(self.root_model(), self.path_model()) is None,
    {
        match self.get_current_directory() {
            Some(dir) => {
                let mut files: Vec<String> = Vec::new();
                let mut i: usize = 0;
                while i < dir.files.len()
                    invariant
                        i <= dir.files@.len(),
                        path_names(files@) == dir.files@.map_values(|f: File| f@.name).take(
                            i as int,
                        ),
                    decreases dir.files@.len() - i,
                {
                    files.push(dir.files[i].name.clone());
                    proof {
                        let names = dir.files@.map_values(|f: File| f@.name);
                        assert(names.take(i + 1) =~= names.take(i as int).push(names[i as int]));
                        assert(path_names(files@) =~= names.take(i + 1));
                    }
                    i = i + 1;
                }
                let mut dirs: Vec<String> = Vec::new();
                let mut j: usize = 0;
                proof {
                    lemma_dirs_view_index(dir.subdirectories@);
                }
                while j < dir.subdirectories.len()
                    invariant
                        j <= dir.subdirectories@.len(),
                        dirs_view(dir.subdirectories@).len() == dir.subdirectories@.len(),
                        forall|k: int|
                            0 <= k < dir.subdirectories@.len() ==> dirs_view(dir.subdirectories@)[k]
                                == dir_view(dir.subdirectories@[k]),
                        path_names(dirs@) == dirs_view(dir.subdirectories@).map_values(
                            |m: DirModel| m.name,
                        ).take(j as int),
                    decreases dir.subdirectories@.len() - j,
                {
                    dirs.push(dir.subdirectories[j].name.clone());
                    proof {
                        let names = dirs_view(dir.subdirectories@).map_values(
                            |m: DirModel| m.name,
                        );
                        assert(names.take(j + 1) =~= names.take(j as int).push(names[j as int]));
                        assert(path_names(dirs@) =~= names.take(j + 1));
                    }
                    j = j + 1;
                }
                proof {
                    let found = model_find(self.root_model(), self.path_model())->0;
                    assert(path_names(files@) =~= file_names(found));
                    assert(path_names(dirs@) =~= subdir_names(found));
                }
                Ok((files, dirs))
            },
            None => Err(FsError::NotFound),
        }
    }

    /// Change the current directory, as `model_cd` states: `..` drops the
    /// last path component (staying at the root), any other name is
    /// appended if the current path still resolves — the target itself is
    /// not checked.  `Err(NotFound)` reports an unresolved current path on
    /// an append; the path is then unchanged.  The tree never changes.
    pub fn change_directory(&mut self, path: String) -> (r: Result<(), FsError>)
        ensures
            final(self).root_model() == old(self).root_model(),
            final(self).path_model() == model_cd(
                old(self).root_model(),
                old(self).path_model(),
                path@,
            ),
            r is Err <==> (path@ != seq!['.', '.'] && model_find(
                old(self).root_model(),
                old(self).path_model(),
            ) is None),
            r is Err ==> r == Err::<(), FsError>(FsError::NotFound),
    {
        let dotdot = path.as_str().unicode_len() == 2 && path.as_str().get_char(0) == '.'
            && path.as_str().get_char(1) == '.';
        proof {
            if dotdot {
                assert(path@ =~= seq!['.', '.']);
            }
        }
        if dotdot {
            if self.current_path.len() > 0 {
                self.current_path.pop();
                proof {
                    assert(path_names(self.current_path@) =~= path_names(
                        old(self).current_path@,
                    ).drop_last());
                }
            }
            Ok(())
        } else {
            match self.get_current_directory() {
                Some(_) => {
                    self.current_path.push(path);
                    proof {
                        assert(path_names(self.current_path@) =~= path_names(
                            old(self).current_path@,
                        ).push(path@));
                    }
                    Ok(())
                },
                None => Err(FsError::NotFound),
            }
        }
    }

    /// The current directory, when the current path resolves.
    pub fn get_current_directory(&self) -> (r: Option<&Directory>)
        ensures
            r matches Some(d) ==> model_find(self.root_model(), self.path_model()) == Some(
                dir_view(*d),
            ),
            r is None ==> model_find(self.root_model(), self.path_model()) is None,
    {
        proof {
            assert(path_names(self.current_path@).skip(0) =~= self.path_model());
        }
        find_dir_at(&self.root, &self.current_path, 0)
    }
}

} // verus!
