//! Path arithmetic on `/`-separated paths, through the `relative_path` crate.
use vstd::prelude::*;

use relative_path::RelativePath;

verus! {

/// The final normal component of a path, if it has one.
pub uninterp spec fn file_name_of(p: Seq<char>) -> Option<Seq<char>>;

/// A path without its final component.
pub uninterp spec fn parent_of(p: Seq<char>) -> Option<Seq<char>>;

/// The path that leads from directory `from` to `to`.
pub uninterp spec fn relative_of(from: Seq<char>, to: Seq<char>) -> Seq<char>;

/// `base` with `name` appended as a further component: one leading `/` of
/// `name` is dropped, and a `/` is put between the two unless `base` is empty
/// or already ends in one.
pub open spec fn join_spec(base: Seq<char>, name: Seq<char>) -> Seq<char> {
    let tail = if name.len() > 0 && name[0] == '/' {
        name.drop_first()
    } else {
        name
    };
    if base.len() > 0 && base.last() != '/' {
        base + seq!['/'] + tail
    } else {
        base + tail
    }
}

/// Relies on `RelativePath::file_name`: the last normal component, read from
/// the path alone.
#[verifier::external_body]
pub(crate) fn file_name(p: &str) -> (r: Option<String>)
    ensures
        match r {
            Some(n) => file_name_of(p@) == Some(n@),
            None => file_name_of(p@) is None,
        },
{
    RelativePath::new(p).file_name().map(String::from)
}

/// Relies on `RelativePath::parent`, which gives `None` exactly for the empty
/// path.
#[verifier::external_body]
pub(crate) fn parent(p: &str) -> (r: Option<String>)
    ensures
        match r {
            Some(d) => parent_of(p@) == Some(d@),
            None => parent_of(p@) is None,
        },
        r is None <==> p@.len() == 0,
{
    RelativePath::new(p).parent().map(|d| d.to_string())
}

/// Relies on `RelativePath::relative`: the traversal from `from` to `to`,
/// read from the two paths alone.
#[verifier::external_body]
pub(crate) fn relative(from: &str, to: &str) -> (r: String)
    ensures
        r@ == relative_of(from@, to@),
{
    RelativePath::new(from).relative(to).into_string()
}

/// Relies on `RelativePath::join`, which pushes `name` onto a copy of `base`.
#[verifier::external_body]
pub(crate) fn join(base: &str, name: &str) -> (r: String)
    ensures
        r@ == join_spec(base@, name@),
{
    RelativePath::new(base).join(name).into_string()
}

} // verus!
