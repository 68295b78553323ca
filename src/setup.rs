use std::path::PathBuf;
use vstd::prelude::*;

verus! {

/// std's owned filesystem path, carried through opaquely.
#[verifier::external_type_specification]
#[verifier::external_body]
pub struct ExPathBuf(PathBuf);

/// Why no location for the dataset could be found.
#[derive(Debug, Clone, Copy, PartialEq, Eq, Structural)]
pub enum SetupError {
    NoDataDir,
}

/// Relies on Path::join: `base` with `segment` appended as one more component.
#[verifier::external_body]
fn path_join(base: &PathBuf, segment: &str) -> (r: PathBuf) {
    base.join(segment)
}

/// The directory that holds the dataset: `lango` under the platform's data
/// directory, else under `.local/share` of the home directory.
pub fn data_dir(platform_data: Option<PathBuf>, home: Option<PathBuf>) -> (r: Result<
    PathBuf,
    SetupError,
>)
    ensures
        r is Ok <==> (platform_data is Some || home is Some),
        r is Err ==> r == Err::<PathBuf, SetupError>(SetupError::NoDataDir),
{
    let base = match platform_data {
        Some(dir) => dir,
        None => match home {
            Some(h) => path_join(&path_join(&h, ".local"), "share"),
            None => {
                return Err(SetupError::NoDataDir);
            },
        },
    };
    Ok(path_join(&base, "lango"))
}

/// The dataset file inside the data directory.
pub fn db_path(platform_data: Option<PathBuf>, home: Option<PathBuf>) -> (r: Result<
    PathBuf,
    SetupError,
>)
    ensures
        r is Ok <==> (platform_data is Some || home is Some),
        r is Err ==> r == Err::<PathBuf, SetupError>(SetupError::NoDataDir),
{
    match data_dir(platform_data, home) {
        Ok(dir) => Ok(path_join(&dir, "stardict.db")),
        Err(e) => Err(e),
    }
}

} // verus!
