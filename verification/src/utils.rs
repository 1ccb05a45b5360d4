use vstd::prelude::*;

verus! {

/// What the file system reports of one path, handed in by the caller.
pub struct PathStatus {
    pub exists: bool,
    pub is_dir: bool,
    pub is_file: bool,
}

/// Why a path fails validation.
pub enum PathError {
    /// The path does not exist though it must.
    NotFound,
    /// The path exists but does not name a directory though it must.
    NotADirectory,
    /// The path exists but does not name a file though it must.
    NotAFile,
}

/// What the caller must create to satisfy a validation that allows creation.
pub enum CreateAction {
    /// Nothing to create.
    Nothing,
    /// Create the path as a directory, with its parents.
    Directory,
    /// Create the path's parent directories, and the path as an empty file.
    FileWithParents,
}

/// Checks an existing path's kind against what is required of it.
pub fn check_path_type(status: &PathStatus, must_be_directory: bool, must_be_file: bool) -> (r: Result<(), PathError>)
    ensures
        r == if must_be_directory && !status.is_dir {
            Result::<(), PathError>::Err(PathError::NotADirectory)
        } else if must_be_file && !status.is_file {
            Result::<(), PathError>::Err(PathError::NotAFile)
        } else {
            Result::<(), PathError>::Ok(())
        },
{
    if must_be_directory && !status.is_dir {
        return Err(PathError::NotADirectory);
    }
    if must_be_file && !status.is_file {
        return Err(PathError::NotAFile);
    }
    Ok(())
}

/// Checks that a path exists and is of the required kind.
pub fn check_existing_path(status: &PathStatus, must_be_directory: bool, must_be_file: bool) -> (r: Result<(), PathError>)
    ensures
        r == if !status.exists {
            Result::<(), PathError>::Err(PathError::NotFound)
        } else if must_be_directory && !status.is_dir {
            Result::<(), PathError>::Err(PathError::NotADirectory)
        } else if must_be_file && !status.is_file {
            Result::<(), PathError>::Err(PathError::NotAFile)
        } else {
            Result::<(), PathError>::Ok(())
        },
{
    if !status.exists {
        return Err(PathError::NotFound);
    }
    check_path_type(status, must_be_directory, must_be_file)
}

/// Validates one path: checks existence and kind where demanded, and says
/// what to create where creation is allowed.
pub fn check_path(
    status: &PathStatus,
    must_be_directory: bool,
    must_be_file: bool,
    must_exist: bool,
    create_if_doesnt_exist: bool,
) -> (r: Result<CreateAction, PathError>)
    ensures
        r == if must_exist && !status.exists {
            Result::<CreateAction, PathError>::Err(PathError::NotFound)
        } else if must_exist && must_be_directory && !status.is_dir {
            Result::<CreateAction, PathError>::Err(PathError::NotADirectory)
        } else if must_exist && must_be_file && !status.is_file {
            Result::<CreateAction, PathError>::Err(PathError::NotAFile)
        } else if create_if_doesnt_exist && must_be_directory {
            Result::<CreateAction, PathError>::Ok(CreateAction::Directory)
        } else if create_if_doesnt_exist && must_be_file {
            Result::<CreateAction, PathError>::Ok(CreateAction::FileWithParents)
        } else {
            Result::<CreateAction, PathError>::Ok(CreateAction::Nothing)
        },
{
    if must_exist {
        match check_existing_path(status, must_be_directory, must_be_file) {
            Ok(()) => {},
            Err(e) => { return Err(e); },
        }
    }
    if create_if_doesnt_exist {
        if must_be_directory {
            return Ok(CreateAction::Directory);
        }
        if must_be_file {
            return Ok(CreateAction::FileWithParents);
        }
    }
    Ok(CreateAction::Nothing)
}

/// Validates the source/destination pair of one run: the source must exist
/// with the required kind; the destination is created as the required kind.
/// On success the returned action says what to create for the destination.
pub fn check_source_and_destination(
    source: &PathStatus,
    destination: &PathStatus,
    source_is_folder: bool,
    destination_is_folder: bool,
) -> (r: Result<CreateAction, PathError>)
    ensures
        r == if !source.exists {
            Result::<CreateAction, PathError>::Err(PathError::NotFound)
        } else if source_is_folder && !source.is_dir {
            Result::<CreateAction, PathError>::Err(PathError::NotADirectory)
        } else if !source_is_folder && !source.is_file {
            Result::<CreateAction, PathError>::Err(PathError::NotAFile)
        } else if destination_is_folder {
            Result::<CreateAction, PathError>::Ok(CreateAction::Directory)
        } else {
            Result::<CreateAction, PathError>::Ok(CreateAction::FileWithParents)
        },
{
    match check_path(source, source_is_folder, !source_is_folder, true, false) {
        Ok(_) => {},
        Err(e) => { return Err(e); },
    }
    match check_path(destination, destination_is_folder, !destination_is_folder, false, true) {
        Ok(a) => Ok(a),
        Err(e) => Err(e),
    }
}

} // verus!
