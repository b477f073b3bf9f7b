//! Values that only the operating system and std can produce: paths,
//! temporary files and clocks. The library carries them through its logic
//! without looking inside, and reads clocks only through the wrappers here.
use vstd::prelude::*;

verus! {

/// A filesystem path, carried opaquely.
#[verifier::external_type_specification]
#[verifier::external_body]
pub struct ExPathBuf(std::path::PathBuf);

/// A monotonic clock reading, carried opaquely.
#[verifier::external_type_specification]
#[verifier::external_body]
pub struct ExInstant(std::time::Instant);

/// A temporary file that is deleted when its last owner drops it.
#[verifier::external_type_specification]
#[verifier::external_body]
pub struct ExTempPath(tempfile::TempPath);

/// A wall-clock time as the Unix epoch counts it: whole seconds and the
/// nanoseconds past them.
#[derive(Clone, Copy, Debug, PartialEq, Eq, Structural)]
pub struct WallTime {
    pub secs: u64,
    pub nanos: u32,
}

/// The two readings that state transitions need: nanoseconds on a monotonic
/// clock since the state was created, and the wall-clock time.
#[derive(Clone, Copy, Debug, PartialEq, Eq, Structural)]
pub struct Moment {
    pub monotonic: u64,
    pub wall: WallTime,
}

/// `PathBuf::clone`: an equal path.
#[verifier::external_body]
pub(crate) fn clone_path(path: &std::path::PathBuf) -> (r: std::path::PathBuf)
    ensures
        r == *path,
{
    path.clone()
}

/// Copies a list of paths, element by element.
pub fn clone_paths(paths: &Vec<std::path::PathBuf>) -> (r: Vec<std::path::PathBuf>)
    ensures
        r@ == paths@,
{
    let mut r: Vec<std::path::PathBuf> = Vec::new();
    let mut i: usize = 0;
    while i < paths.len()
        invariant
            i <= paths.len(),
            r@ =~= paths@.subrange(0, i as int),
        decreases paths.len() - i,
    {
        r.push(clone_path(&paths[i]));
        i += 1;
    }
    assert(paths@.subrange(0, paths.len() as int) =~= paths@);
    r
}

/// `Arc::clone`: another owner of the same temporary file.
#[verifier::external_body]
pub(crate) fn share_temp(path: &std::sync::Arc<tempfile::TempPath>) -> (r: std::sync::Arc<
    tempfile::TempPath,
>)
    ensures
        r == *path,
{
    std::sync::Arc::clone(path)
}

/// `Instant::now`. Nothing is promised of the reading.
#[verifier::external_body]
pub(crate) fn instant_now() -> std::time::Instant {
    std::time::Instant::now()
}

/// `Instant::elapsed` since `origin`, in nanoseconds, saturated to `u64`.
/// Nothing is promised of the reading.
#[verifier::external_body]
pub(crate) fn nanos_since(origin: &std::time::Instant) -> u64 {
    u64::try_from(origin.elapsed().as_nanos()).unwrap_or(u64::MAX)
}

/// `SystemTime::now` measured from the Unix epoch; a clock set before the epoch
/// reads as the epoch itself. The nanoseconds stay below one second, as
/// `Duration::subsec_nanos` documents.
#[verifier::external_body]
pub(crate) fn wall_clock() -> (r: WallTime)
    ensures
        r.nanos < 1_000_000_000,
{
    let since = std::time::SystemTime::now().duration_since(std::time::UNIX_EPOCH).unwrap_or_default();
    WallTime { secs: since.as_secs(), nanos: since.subsec_nanos() }
}

/// Reads both clocks for a state created at `origin`.
pub fn moment(origin: &std::time::Instant) -> (r: Moment)
    ensures
        r.wall.nanos < 1_000_000_000,
{
    Moment { monotonic: nanos_since(origin), wall: wall_clock() }
}

/// The path a text names, as `PathBuf::from` makes it.
pub uninterp spec fn path_of(text: Seq<char>) -> std::path::PathBuf;

/// `PathBuf::from` a text: a function of the text alone.
#[verifier::external_body]
pub(crate) fn path_from(text: &str) -> (r: std::path::PathBuf)
    ensures
        r == path_of(text@),
{
    std::path::PathBuf::from(text)
}

/// The last component of a path as `Path::file_name` finds it, rendered
/// with `OsStr::to_string_lossy`; none for a path that ends in `..` or is a
/// root.
pub uninterp spec fn file_name(path: std::path::PathBuf) -> Option<Seq<char>>;

/// `Path::file_name` rendered with `OsStr::to_string_lossy`.
#[verifier::external_body]
pub(crate) fn file_name_of(path: &std::path::PathBuf) -> (r: Option<String>)
    ensures
        r is None <==> file_name(*path) is None,
        r matches Some(n) ==> file_name(*path) == Some(n@),
{
    path.file_name().map(|name| name.to_string_lossy().into_owned())
}

} // verus!
