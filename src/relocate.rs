//! Planning the relocation of one source: where the content goes, and which
//! paths become symbolic links to it, with which targets.
use vstd::prelude::*;

use crate::counter::{string_views, SourceCounter};
use crate::paths::{file_name, file_name_of, join, join_spec, parent, parent_of, relative, relative_of};

verus! {

/// A path that the relocation cannot be computed for.
#[derive(Clone, Copy, Debug, PartialEq, Eq, Structural)]
pub enum PathError {
    /// The path ends in `..` or has no component at all.
    NoFileName,
    /// The path is empty.
    NoParent,
}

/// The relocation of one source: copy `source` to `destination_file`, then
/// replace each path of `links` by a symbolic link to the copy.
pub struct Relocation {
    pub source: String,
    pub destination_file: String,
    pub links: Vec<String>,
}

/// One symbolic link to create: remove `link` first if `remove_first`, then
/// create at `link` a symbolic link that reads `target`.
pub struct Symlink {
    pub remove_first: bool,
    pub link: String,
    pub target: String,
}

/// What to do about the destination before relocating a batch.
#[derive(Clone, Copy, Debug, PartialEq, Eq, Structural)]
pub enum DirStep {
    /// Leave it as it is.
    Keep,
    /// Create it as a directory, with its missing parents.
    Create,
    /// Remove the non-directory that is there, then create the directory.
    ReplaceWithDir,
}

/// Where the content lands: inside an existing directory under the source's
/// file name, otherwise at the destination path itself.
pub open spec fn destination_file_spec(
    source: Seq<char>,
    destination: Seq<char>,
    destination_is_dir: bool,
) -> Option<Seq<char>> {
    if destination_is_dir {
        match file_name_of(source) {
            Some(n) => Some(join_spec(destination, n)),
            None => None,
        }
    } else {
        Some(destination)
    }
}

/// The symbolic link that replaces `path`, as (remove first, link path,
/// target). A directory keeps its place and receives the link inside it,
/// under the content file's name; any other path is removed and the link
/// takes its place. The target is relative to the directory the link is in.
pub open spec fn symlink_spec(content: Seq<char>, path: Seq<char>, path_is_dir: bool) -> Option<
    (bool, Seq<char>, Seq<char>),
> {
    if path_is_dir {
        match file_name_of(content) {
            Some(n) => Some((false, join_spec(path, n), relative_of(path, content))),
            None => None,
        }
    } else {
        match parent_of(path) {
            Some(dir) => Some((true, path, relative_of(dir, content))),
            None => None,
        }
    }
}

/// The destination's treatment for a batch of `declared` sources: only a
/// batch of more than one needs it to be a directory.
pub open spec fn destination_step_spec(declared: nat, exists: bool, is_dir: bool) -> DirStep {
    if declared <= 1 || (exists && is_dir) {
        DirStep::Keep
    } else if !exists {
        DirStep::Create
    } else {
        DirStep::ReplaceWithDir
    }
}

/// Where the content of `source` lands for `destination`.
pub fn destination_file(source: &str, destination: &str, destination_is_dir: bool) -> (r: Result<
    String,
    PathError,
>)
    ensures
        match r {
            Ok(d) => destination_file_spec(source@, destination@, destination_is_dir) == Some(
                d@,
            ),
            Err(e) => destination_file_spec(source@, destination@, destination_is_dir) is None
                && e == PathError::NoFileName,
        },
{
    if destination_is_dir {
        match file_name(source) {
            Some(n) => Ok(join(destination, n.as_str())),
            None => Err(PathError::NoFileName),
        }
    } else {
        Ok(destination.to_string())
    }
}

/// Plans the relocation of a record: one copy, then a symbolic link in place
/// of the source and of every other link found, the source first.
pub fn move_counter(source: SourceCounter, destination: &str, destination_is_dir: bool) -> (r:
    Result<Relocation, PathError>)
    ensures
        match r {
            Ok(p) => {
                &&& destination_file_spec(source@.path, destination@, destination_is_dir) == Some(
                    p.destination_file@,
                )
                &&& p.source@ == source@.path
                &&& string_views(p.links@) == seq![source@.path] + source@.found
            },
            Err(e) => destination_file_spec(source@.path, destination@, destination_is_dir) is None
                && e == PathError::NoFileName,
        },
{
    let destination_file = destination_file(source.path().as_str(), destination, destination_is_dir)?;
    let mut links: Vec<String> = Vec::new();
    links.push(source.path().clone());
    let others = source.paths_other_links();
    let mut i: usize = 0;
    while i < others.len()
        invariant
            i <= others@.len(),
            string_views(others@) == source@.found,
            string_views(links@) == seq![source@.path] + source@.found.subrange(0, i as int),
        decreases others@.len() - i,
    {
        let ghost prev = links@;
        assert(string_views(others@)[i as int] == others@[i as int]@);
        links.push(others[i].clone());
        assert(string_views(links@) =~= string_views(prev).push(source@.found[i as int]));
        assert(string_views(links@) =~= seq![source@.path] + source@.found.subrange(0, i + 1));
        i += 1;
    }
    assert(source@.found.subrange(0, others@.len() as int) =~= source@.found);
    Ok(Relocation { source: source.path().clone(), destination_file, links })
}

/// Plans the replacement of `path` by a symbolic link to `content`.
pub fn replace_with_symlink(content: &str, path: &str, path_is_dir: bool) -> (r: Result<
    Symlink,
    PathError,
>)
    ensures
        match r {
            Ok(s) => symlink_spec(content@, path@, path_is_dir) == Some(
                (s.remove_first, s.link@, s.target@),
            ),
            Err(e) => symlink_spec(content@, path@, path_is_dir) is None && e == (if path_is_dir {
                PathError::NoFileName
            } else {
                PathError::NoParent
            }),
        },
        !path_is_dir ==> (r is Ok <==> path@.len() > 0),
{
    if path_is_dir {
        match file_name(content) {
            Some(n) => Ok(
                Symlink {
                    remove_first: false,
                    link: join(path, n.as_str()),
                    target: relative(path, content),
                },
            ),
            None => Err(PathError::NoFileName),
        }
    } else {
        match parent(path) {
            Some(dir) => Ok(
                Symlink {
                    remove_first: true,
                    link: path.to_string(),
                    target: relative(dir.as_str(), content),
                },
            ),
            None => Err(PathError::NoParent),
        }
    }
}

/// What to do about the destination of a batch of `declared` sources, given
/// whether something exists there and whether it is a directory.
pub fn ensure_dir(declared: usize, exists: bool, is_dir: bool) -> (r: DirStep)
    ensures
        r == destination_step_spec(declared as nat, exists, is_dir),
{
    if declared <= 1 || (exists && is_dir) {
        DirStep::Keep
    } else if !exists {
        DirStep::Create
    } else {
        DirStep::ReplaceWithDir
    }
}

} // verus!
