//! The persistence gateway: name derivation for saves, the save-time
//! rename-and-serialize step, the load-time path fixup, and the rule
//! that a dismissed dialog cancels an operation.

use vstd::prelude::*;
use vstd::slice::{slice_subrange, slice_to_vec};

use crate::codec::{encode_project, project_bytes};
use crate::decode::{decode_project, parse_project};
use crate::errors::CommandError;
use crate::messages::ProjectMessage;

verus! {

/// The display name a saved file dictates: the file name with exactly
/// its last five bytes removed.  The format's fixed `.quad` suffix is
/// five bytes long; the truncation is purely arithmetic, so callers
/// must supply file names carrying that suffix.
pub open spec fn derived_name(file_name: Seq<u8>) -> Seq<u8>
    recommends
        file_name.len() >= 5,
{
    file_name.subrange(0, file_name.len() - 5)
}

/// Derives the project's display name from the chosen file name.
pub fn derive_project_name(file_name: &Vec<u8>) -> (r: Vec<u8>)
    requires
        file_name@.len() >= 5,
    ensures
        r@ == derived_name(file_name@),
{
    let end = file_name.len() - 5;
    let sub = slice_subrange(file_name.as_slice(), 0, end);
    slice_to_vec(sub)
}

/// The rename-and-serialize step shared by both save operations: the
/// display name is overwritten with the name the chosen file dictates
/// (the stored `path` field is left as it stands, stale or not), and
/// the whole project is serialized to the fixed binary encoding.
pub fn prepare_save(project: &mut ProjectMessage, file_name: &Vec<u8>) -> (r: Vec<u8>)
    requires
        file_name@.len() >= 5,
    ensures
        final(project)@.name == derived_name(file_name@),
        final(project)@.width == old(project)@.width,
        final(project)@.height == old(project)@.height,
        final(project)@.frames == old(project)@.frames,
        final(project)@.colors == old(project)@.colors,
        final(project)@.path == old(project)@.path,
        r@ == project_bytes(final(project)@),
{
    let name = derive_project_name(file_name);
    project.name = name;
    encode_project(project)
}

/// The load-time fixup: whatever `path` was serialized is never
/// trusted; the project's path becomes the location actually read.
pub fn finish_load(project: &mut ProjectMessage, path: Vec<u8>)
    ensures
        final(project)@.name == old(project)@.name,
        final(project)@.width == old(project)@.width,
        final(project)@.height == old(project)@.height,
        final(project)@.frames == old(project)@.frames,
        final(project)@.colors == old(project)@.colors,
        final(project)@.path == path@,
{
    project.path = path;
}

/// The compute core of a load: decodes a project record from the bytes
/// actually read, then overwrites its path with the location they came
/// from.  Fails with `DecodeFailure` exactly when the bytes encode no
/// project, leaving no partial result behind.
pub fn load_project(bytes: &Vec<u8>, path: Vec<u8>) -> (r: Result<ProjectMessage, CommandError>)
    ensures
        match parse_project(bytes@) {
            Some(q) => r matches Ok(p) && p@.name == q.name && p@.width == q.width && p@.height
                == q.height && p@.frames == q.frames && p@.colors == q.colors && p@.path == path@,
            None => r matches Err(e) && e is DecodeFailure,
        },
{
    match decode_project(bytes) {
        Ok(mut project) => {
            finish_load(&mut project, path);
            Ok(project)
        },
        Err(e) => Err(e),
    }
}

/// A save without a dialog needs a usable backing path: an empty one
/// is rejected before any file is touched.
pub fn check_save_path(path: &Vec<u8>) -> (r: Result<(), CommandError>)
    ensures
        r is Ok <==> path@.len() > 0,
        r matches Err(e) ==> e is InvalidPath,
{
    if path.len() == 0 {
        Err(CommandError::InvalidPath)
    } else {
        Ok(())
    }
}

/// The cancellation rule every dialog-using operation follows: no
/// chosen path means the operation stops with `UserCancelled`, before
/// any filesystem write; a chosen path is handed on unchanged.
pub fn require_choice(choice: Option<Vec<u8>>) -> (r: Result<Vec<u8>, CommandError>)
    ensures
        match choice {
            None => r matches Err(e) && e is UserCancelled,
            Some(p) => r matches Ok(q) && q@ == p@,
        },
{
    match choice {
        None => Err(CommandError::UserCancelled),
        Some(p) => Ok(p),
    }
}

} // verus!
