//! Operations on paths, and paths as the system takes them: bytes that end with a zero.

use crate::error::IoError;
use crate::util::supports_completion;
use vstd::prelude::*;

verus! {

/// Where the first zero of a path stands, if it has one.
pub open spec fn first_nul(path: Seq<u8>, at: int) -> bool {
    0 <= at < path.len() && path[at] == 0 && forall|i: int| 0 <= i < at ==> path[i] != 0
}

/// Where the first zero of a path stands, if it has one.
fn find_nul(path: &Vec<u8>) -> (found: Option<usize>)
    ensures
        match found {
            Some(at) => first_nul(path@, at as int),
            None => !path@.contains(0),
        },
{
    let mut index: usize = 0;
    while index < path.len()
        invariant
            index <= path@.len(),
            forall|i: int| 0 <= i < index ==> path@[i] != 0,
        decreases path@.len() - index,
    {
        if path[index] == 0 {
            return Some(index);
        }
        index = index + 1;
    }
    None
}

/// Whether a path holds a zero.
pub fn contains_nul(path: &Vec<u8>) -> (contained: bool)
    ensures
        contained == path@.contains(0),
{
    match find_nul(path) {
        Some(at) => {
            assert(path@[at as int] == 0);
            true
        },
        None => false,
    }
}

/// A path as the system takes it, or the place of the zero that it must not hold.
pub fn terminated_path(path: &Vec<u8>) -> (terminated: Result<Vec<u8>, IoError>)
    ensures
        match terminated {
            Ok(bytes) => !path@.contains(0) && bytes@ == path@.push(0),
            Err(err) => err matches IoError::InvalidPath(at) && first_nul(path@, at as int),
        },
        terminated is Ok <==> !path@.contains(0),
{
    match find_nul(path) {
        Some(at) => {
            assert(path@[at as int] == 0);
            Err(IoError::InvalidPath(at))
        },
        None => {
            let mut bytes = path.clone();
            bytes.push(0);
            Ok(bytes)
        },
    }
}

/// What the system is asked to do with paths. Each path ends with a zero.
#[derive(Debug)]
pub enum PathRequest {
    /// Give the file at `from` the name `to` as well.
    HardLink { from: Vec<u8>, to: Vec<u8> },
    /// Make `to` a symbolic link to `from`.
    Symlink { from: Vec<u8>, to: Vec<u8> },
    /// Give the file at `from` the name `to` instead.
    Rename { from: Vec<u8>, to: Vec<u8> },
    /// Remove a name, of a directory or of a file.
    Unlink { path: Vec<u8>, dir: bool },
    /// Ask what is known of the file.
    Statx { path: Vec<u8> },
}

/// How an operation on paths is carried out.
#[derive(Debug)]
pub enum PathPlan {
    /// The driver is given the request, and reports its result.
    Submit(PathRequest),
    /// A thread of the blocking pool carries the operation out.
    BlockingPool,
}

/// Whether an error tells where the first zero of a path stands.
pub open spec fn tells_nul(path: Seq<u8>, err: IoError) -> bool {
    err matches IoError::InvalidPath(at) && first_nul(path, at as int)
}

/// Whether two paths became two paths that end with a zero.
pub open spec fn both_terminated(
    from: Seq<u8>,
    to: Seq<u8>,
    from_bytes: Seq<u8>,
    to_bytes: Seq<u8>,
) -> bool {
    &&& !from.contains(0)
    &&& !to.contains(0)
    &&& from_bytes == from.push(0)
    &&& to_bytes == to.push(0)
}

/// Whether an error tells where the first zero of two paths stands. The first path is looked at
/// first.
pub open spec fn tells_nul_of_two(from: Seq<u8>, to: Seq<u8>, err: IoError) -> bool {
    if from.contains(0) {
        tells_nul(from, err)
    } else {
        to.contains(0) && tells_nul(to, err)
    }
}

/// Two paths as the system takes them.
fn terminated_paths(from: &Vec<u8>, to: &Vec<u8>) -> (terminated: Result<
    (Vec<u8>, Vec<u8>),
    IoError,
>)
    ensures
        match terminated {
            Ok(paths) => both_terminated(from@, to@, paths.0@, paths.1@),
            Err(err) => tells_nul_of_two(from@, to@, err),
        },
{
    let from_bytes = match terminated_path(from) {
        Ok(bytes) => bytes,
        Err(err) => {
            return Err(err);
        },
    };
    match terminated_path(to) {
        Ok(to_bytes) => Ok((from_bytes, to_bytes)),
        Err(err) => Err(err),
    }
}

/// Gives a file a second name. `current` says whether the driver of the running runtime offers
/// completions, if a runtime is running.
pub fn hard_link(current: Option<bool>, src: &Vec<u8>, dst: &Vec<u8>) -> (plan: Result<
    PathPlan,
    IoError,
>)
    ensures
        match plan {
            Ok(PathPlan::Submit(PathRequest::HardLink { from, to })) => current == Some(true)
                && both_terminated(src@, dst@, from@, to@),
            Ok(PathPlan::Submit(_)) => false,
            Ok(PathPlan::BlockingPool) => current != Some(true),
            Err(err) => current == Some(true) && tells_nul_of_two(src@, dst@, err),
        },
{
    if !supports_completion(current) {
        return Ok(PathPlan::BlockingPool);
    }
    match terminated_paths(src, dst) {
        Ok((from, to)) => Ok(PathPlan::Submit(PathRequest::HardLink { from, to })),
        Err(err) => Err(err),
    }
}

/// Whether this is how a symbolic link is made: the driver does it where it offers completions,
/// unless a path holds a zero.
pub open spec fn plans_symlink(
    plan: Result<PathPlan, IoError>,
    current: Option<bool>,
    src: Seq<u8>,
    dst: Seq<u8>,
) -> bool {
    match plan {
        Ok(PathPlan::Submit(PathRequest::Symlink { from, to })) => current == Some(true)
            && both_terminated(src, dst, from@, to@),
        Ok(PathPlan::Submit(_)) => false,
        Ok(PathPlan::BlockingPool) => current != Some(true),
        Err(err) => current == Some(true) && tells_nul_of_two(src, dst, err),
    }
}

/// Makes a symbolic link to a file.
pub fn symlink_file(current: Option<bool>, src: &Vec<u8>, dst: &Vec<u8>) -> (plan: Result<
    PathPlan,
    IoError,
>)
    ensures
        plans_symlink(plan, current, src@, dst@),
{
    if !supports_completion(current) {
        return Ok(PathPlan::BlockingPool);
    }
    match terminated_paths(src, dst) {
        Ok((from, to)) => Ok(PathPlan::Submit(PathRequest::Symlink { from, to })),
        Err(err) => Err(err),
    }
}

/// Makes a symbolic link to a directory, which here is a symbolic link like any other.
pub fn symlink_dir(current: Option<bool>, src: &Vec<u8>, dst: &Vec<u8>) -> (plan: Result<
    PathPlan,
    IoError,
>)
    ensures
        plans_symlink(plan, current, src@, dst@),
{
    symlink_file(current, src, dst)
}

/// Makes a symbolic link.
pub fn symlink(current: Option<bool>, src: &Vec<u8>, dst: &Vec<u8>) -> (plan: Result<
    PathPlan,
    IoError,
>)
    ensures
        plans_symlink(plan, current, src@, dst@),
{
    symlink_file(current, src, dst)
}

/// Gives a file another name.
pub fn rename(current: Option<bool>, from: &Vec<u8>, to: &Vec<u8>) -> (plan: Result<
    PathPlan,
    IoError,
>)
    ensures
        match plan {
            Ok(PathPlan::Submit(PathRequest::Rename { from: from_bytes, to: to_bytes })) => current
                == Some(true) && both_terminated(from@, to@, from_bytes@, to_bytes@),
            Ok(PathPlan::Submit(_)) => false,
            Ok(PathPlan::BlockingPool) => current != Some(true),
            Err(err) => current == Some(true) && tells_nul_of_two(from@, to@, err),
        },
{
    if !supports_completion(current) {
        return Ok(PathPlan::BlockingPool);
    }
    match terminated_paths(from, to) {
        Ok((from_bytes, to_bytes)) => Ok(
            PathPlan::Submit(PathRequest::Rename { from: from_bytes, to: to_bytes }),
        ),
        Err(err) => Err(err),
    }
}

/// Removes an empty directory.
pub fn remove_dir(current: Option<bool>, path: &Vec<u8>) -> (plan: Result<PathPlan, IoError>)
    ensures
        match plan {
            Ok(PathPlan::Submit(PathRequest::Unlink { path: bytes, dir })) => current == Some(true)
                && dir && !path@.contains(0) && bytes@ == path@.push(0),
            Ok(PathPlan::Submit(_)) => false,
            Ok(PathPlan::BlockingPool) => current != Some(true),
            Err(err) => current == Some(true) && tells_nul(path@, err),
        },
{
    if !supports_completion(current) {
        return Ok(PathPlan::BlockingPool);
    }
    match terminated_path(path) {
        Ok(bytes) => Ok(PathPlan::Submit(PathRequest::Unlink { path: bytes, dir: true })),
        Err(err) => Err(err),
    }
}

/// Removes a file.
pub fn remove_file(current: Option<bool>, path: &Vec<u8>) -> (plan: Result<PathPlan, IoError>)
    ensures
        match plan {
            Ok(PathPlan::Submit(PathRequest::Unlink { path: bytes, dir })) => current == Some(true)
                && !dir && !path@.contains(0) && bytes@ == path@.push(0),
            Ok(PathPlan::Submit(_)) => false,
            Ok(PathPlan::BlockingPool) => current != Some(true),
            Err(err) => current == Some(true) && tells_nul(path@, err),
        },
{
    if !supports_completion(current) {
        return Ok(PathPlan::BlockingPool);
    }
    match terminated_path(path) {
        Ok(bytes) => Ok(PathPlan::Submit(PathRequest::Unlink { path: bytes, dir: false })),
        Err(err) => Err(err),
    }
}

/// Asks what is known of the file at a path.
pub fn metadata(current: Option<bool>, path: &Vec<u8>) -> (plan: Result<PathPlan, IoError>)
    ensures
        match plan {
            Ok(PathPlan::Submit(PathRequest::Statx { path: bytes })) => current == Some(true)
                && !path@.contains(0) && bytes@ == path@.push(0),
            Ok(PathPlan::Submit(_)) => false,
            Ok(PathPlan::BlockingPool) => current != Some(true),
            Err(err) => current == Some(true) && tells_nul(path@, err),
        },
{
    if !supports_completion(current) {
        return Ok(PathPlan::BlockingPool);
    }
    match terminated_path(path) {
        Ok(bytes) => Ok(PathPlan::Submit(PathRequest::Statx { path: bytes })),
        Err(err) => Err(err),
    }
}

/// A path is refused only where it holds a zero, and the error tells the place of one zero only.
pub proof fn law_refusal_tells_place(path: Seq<u8>, err: IoError, other: IoError)
    requires
        tells_nul(path, err),
        tells_nul(path, other),
    ensures
        path.contains(0),
        err == other,
{
    let at = err->InvalidPath_0 as int;
    let other_at = other->InvalidPath_0 as int;
    assert(path[at] == 0);
    if at < other_at {
        assert(path[at] != 0);
    }
    if other_at < at {
        assert(path[other_at] != 0);
    }
}

/// A path that the system is given ends at its first zero, and nowhere before.
pub proof fn law_terminated_path_is_whole(path: Seq<u8>)
    requires
        !path.contains(0),
    ensures
        first_nul(path.push(0), path.len() as int),
        path.push(0).take(path.len() as int) == path,
{
    assert forall|i: int| 0 <= i < path.len() implies path.push(0)[i] != 0 by {
        assert(path.contains(path[i]));
    }
    assert(path.push(0).take(path.len() as int) =~= path);
}

/// A path is given to the system with a zero behind it, unless it holds one; then the place of the
/// first is told.
pub proof fn law_path_is_terminated_or_refused(
    path: Vec<u8>,
    contained: bool,
    terminated: Result<Vec<u8>, IoError>,
)
    requires
        call_ensures(contains_nul, (&path,), contained),
        call_ensures(terminated_path, (&path,), terminated),
    ensures
        contained <==> exists|i: int| 0 <= i < path@.len() && #[trigger] path@[i] == 0,
        terminated is Ok <==> !contained,
        terminated matches Ok(bytes) ==> bytes@.len() == path@.len() + 1 && bytes@.last() == 0
            && bytes@.drop_last() == path@,
        terminated matches Err(err) ==> err is InvalidPath && ({
            let at = err->InvalidPath_0 as int;
            0 <= at < path@.len() && path@[at] == 0 && !path@.take(at).contains(0)
        }),
{
    assert(terminated matches Ok(bytes) ==> bytes@.drop_last() =~= path@);
}

/// A second name is given by the driver where it offers completions, with both paths in their
/// order, and by the blocking pool otherwise. A path that holds a zero is refused.
pub proof fn law_hard_link_names_both_paths(
    current: Option<bool>,
    from: Vec<u8>,
    to: Vec<u8>,
    plan: Result<PathPlan, IoError>,
)
    requires
        call_ensures(hard_link, (current, &from, &to), plan),
    ensures
        plan matches Ok(PathPlan::BlockingPool) <==> current != Some(true),
        plan is Err <==> current == Some(true) && (from@.contains(0) || to@.contains(0)),
        plan matches Err(err) ==> err is InvalidPath && ({
            let path = if from@.contains(0) {
                from@
            } else {
                to@
            };
            let at = err->InvalidPath_0 as int;
            0 <= at < path.len() && path[at] == 0 && !path.take(at).contains(0)
        }),
        plan matches Ok(PathPlan::Submit(request)) ==> request is HardLink
            && request->HardLink_from@ == from@.push(0) && request->HardLink_to@ == to@.push(0),
{
}

/// A link to a file is made like any other.
pub proof fn law_link_to_file_names_both_paths(
    current: Option<bool>,
    from: Vec<u8>,
    to: Vec<u8>,
    plan: Result<PathPlan, IoError>,
)
    requires
        call_ensures(symlink_file, (current, &from, &to), plan),
    ensures
        plan matches Ok(PathPlan::BlockingPool) <==> current != Some(true),
        plan is Err <==> current == Some(true) && (from@.contains(0) || to@.contains(0)),
        plan matches Err(err) ==> err is InvalidPath && ({
            let path = if from@.contains(0) {
                from@
            } else {
                to@
            };
            let at = err->InvalidPath_0 as int;
            0 <= at < path.len() && path[at] == 0 && !path.take(at).contains(0)
        }),
        plan matches Ok(PathPlan::Submit(request)) ==> request is Symlink
            && request->Symlink_from@ == from@.push(0) && request->Symlink_to@ == to@.push(0),
{
}

/// A link to a directory is made like any other.
pub proof fn law_link_to_directory_names_both_paths(
    current: Option<bool>,
    from: Vec<u8>,
    to: Vec<u8>,
    plan: Result<PathPlan, IoError>,
)
    requires
        call_ensures(symlink_dir, (current, &from, &to), plan),
    ensures
        plan matches Ok(PathPlan::BlockingPool) <==> current != Some(true),
        plan is Err <==> current == Some(true) && (from@.contains(0) || to@.contains(0)),
        plan matches Err(err) ==> err is InvalidPath && ({
            let path = if from@.contains(0) {
                from@
            } else {
                to@
            };
            let at = err->InvalidPath_0 as int;
            0 <= at < path.len() && path[at] == 0 && !path.take(at).contains(0)
        }),
        plan matches Ok(PathPlan::Submit(request)) ==> request is Symlink
            && request->Symlink_from@ == from@.push(0) && request->Symlink_to@ == to@.push(0),
{
}

/// A link is made by the driver where it offers completions, and by the blocking pool otherwise.
pub proof fn law_link_names_both_paths(
    current: Option<bool>,
    from: Vec<u8>,
    to: Vec<u8>,
    plan: Result<PathPlan, IoError>,
)
    requires
        call_ensures(symlink, (current, &from, &to), plan),
    ensures
        plan matches Ok(PathPlan::BlockingPool) <==> current != Some(true),
        plan is Err <==> current == Some(true) && (from@.contains(0) || to@.contains(0)),
        plan matches Err(err) ==> err is InvalidPath && ({
            let path = if from@.contains(0) {
                from@
            } else {
                to@
            };
            let at = err->InvalidPath_0 as int;
            0 <= at < path.len() && path[at] == 0 && !path.take(at).contains(0)
        }),
        plan matches Ok(PathPlan::Submit(request)) ==> request is Symlink
            && request->Symlink_from@ == from@.push(0) && request->Symlink_to@ == to@.push(0),
{
}

/// A file is given another name by the driver where it offers completions, from the first path
/// to the second, and by the blocking pool otherwise.
pub proof fn law_rename_names_both_paths(
    current: Option<bool>,
    from: Vec<u8>,
    to: Vec<u8>,
    plan: Result<PathPlan, IoError>,
)
    requires
        call_ensures(rename, (current, &from, &to), plan),
    ensures
        plan matches Ok(PathPlan::BlockingPool) <==> current != Some(true),
        plan is Err <==> current == Some(true) && (from@.contains(0) || to@.contains(0)),
        plan matches Err(err) ==> err is InvalidPath && ({
            let path = if from@.contains(0) {
                from@
            } else {
                to@
            };
            let at = err->InvalidPath_0 as int;
            0 <= at < path.len() && path[at] == 0 && !path.take(at).contains(0)
        }),
        plan matches Ok(PathPlan::Submit(request)) ==> request is Rename
            && request->Rename_from@ == from@.push(0) && request->Rename_to@ == to@.push(0),
{
}

/// A directory is removed as a directory.
pub proof fn law_directory_is_removed_as_one(
    current: Option<bool>,
    path: Vec<u8>,
    plan: Result<PathPlan, IoError>,
)
    requires
        call_ensures(remove_dir, (current, &path), plan),
    ensures
        plan matches Ok(PathPlan::BlockingPool) <==> current != Some(true),
        plan is Err <==> current == Some(true) && path@.contains(0),
        plan matches Err(err) ==> err is InvalidPath && ({
            let at = err->InvalidPath_0 as int;
            0 <= at < path@.len() && path@[at] == 0 && !path@.take(at).contains(0)
        }),
        plan matches Ok(PathPlan::Submit(request)) ==> request is Unlink
            && request->Unlink_path@ == path@.push(0) && request->Unlink_dir,
{
}

/// A file is removed as a file.
pub proof fn law_file_is_removed_as_one(
    current: Option<bool>,
    path: Vec<u8>,
    plan: Result<PathPlan, IoError>,
)
    requires
        call_ensures(remove_file, (current, &path), plan),
    ensures
        plan matches Ok(PathPlan::BlockingPool) <==> current != Some(true),
        plan is Err <==> current == Some(true) && path@.contains(0),
        plan matches Err(err) ==> err is InvalidPath && ({
            let at = err->InvalidPath_0 as int;
            0 <= at < path@.len() && path@[at] == 0 && !path@.take(at).contains(0)
        }),
        plan matches Ok(PathPlan::Submit(request)) ==> request is Unlink
            && request->Unlink_path@ == path@.push(0) && !request->Unlink_dir,
{
}

/// What is known of a file is asked for under its path.
pub proof fn law_metadata_is_asked_for(
    current: Option<bool>,
    path: Vec<u8>,
    plan: Result<PathPlan, IoError>,
)
    requires
        call_ensures(metadata, (current, &path), plan),
    ensures
        plan matches Ok(PathPlan::BlockingPool) <==> current != Some(true),
        plan is Err <==> current == Some(true) && path@.contains(0),
        plan matches Err(err) ==> err is InvalidPath && ({
            let at = err->InvalidPath_0 as int;
            0 <= at < path@.len() && path@[at] == 0 && !path@.take(at).contains(0)
        }),
        plan matches Ok(PathPlan::Submit(request)) ==> request is Statx
            && request->Statx_path@ == path@.push(0),
{
}

} // verus!
