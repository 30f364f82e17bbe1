use vstd::prelude::*;
use vstd::string::StringExecFns;
use crate::error::{AppError, ErrorCode};

verus! {

// ==================== Paths given by the user ====================

/// A path that starts the way an absolute path does on some platform std documents: with
/// `/` or `\` (a root, or a Windows UNC or verbatim prefix), or with a drive letter and `:`.
pub open spec fn has_root_form(path: Seq<char>) -> bool {
    path.len() > 0 && (path[0] == '/' || path[0] == '\\' || (path.len() >= 2 && path[1] == ':'))
}

/// `std::path::Path::is_absolute`. On Unix a path is absolute when it starts with the root
/// `/`; on Windows when it has a prefix (a drive letter and `:`, or a UNC or verbatim prefix
/// starting with `\\` or `/`) and a root. So an absolute path has `has_root_form` on every
/// platform; which paths of that form count as absolute depends on the platform and is left
/// unsaid.
#[verifier::external_body]
fn is_absolute_path(path: &str) -> (absolute: bool)
    ensures
        absolute ==> has_root_form(path@),
{
    std::path::Path::new(path).is_absolute()
}

/// The message of the error for a path that is not absolute.
pub open spec fn not_absolute_message(path: Seq<char>) -> Seq<char> {
    "路径必须是绝对路径: "@ + path
}

/// The answer of a path check: the normalised path, or why the path was refused.
pub open spec fn path_check_result(
    path: Seq<char>,
    absolute: bool,
    canonical: Result<String, String>,
    r: Result<String, AppError>,
) -> bool {
    if !absolute {
        r matches Err(e) && e.is_business(ErrorCode::PathNotAbsolute, not_absolute_message(path))
    } else {
        match canonical {
            Ok(c) => r matches Ok(p) && p@ == c@,
            Err(cause) => r matches Err(AppError::Wrapped { code, message, source }) && code
                == ErrorCode::PathInvalid && message@ == "路径无效或不存在"@ && source@ == cause@,
        }
    }
}

/// Decides on a path given by the user, once it is known whether the path is absolute and
/// what the file system made of it (its normalised form, or why it has none).
pub fn check_path(path: &str, absolute: bool, canonical: Result<String, String>) -> (r: Result<
    String,
    AppError,
>)
    ensures
        path_check_result(path@, absolute, canonical, r),
{
    if !absolute {
        let mut message = String::from_str("路径必须是绝对路径: ");
        message.append(path);
        proof {
            reveal_strlit("路径必须是绝对路径: ");
        }
        return Err(AppError::new(ErrorCode::PathNotAbsolute, message));
    }
    match canonical {
        Ok(c) => Ok(c),
        Err(cause) => Err(AppError::wrap(ErrorCode::PathInvalid, String::from_str("路径无效或不存在"), cause)),
    }
}

/// Checks that a path is absolute and hands back its normalised form; `canonical` is what
/// the file system made of the path. A path that does not start as an absolute path does on
/// any platform (empty, or relative such as `games/a.exe`) is always refused as not absolute.
pub fn validate_path(path: &str, canonical: Result<String, String>) -> (r: Result<String, AppError>)
    ensures
        path@.len() == 0 ==> (r matches Err(e) && e.is_business(
            ErrorCode::PathNotAbsolute,
            not_absolute_message(path@),
        )),
        !has_root_form(path@) ==> path_check_result(path@, false, canonical, r),
        path_check_result(path@, true, canonical, r) || path_check_result(path@, false, canonical, r),
{
    let absolute = is_absolute_path(path);
    check_path(path, absolute, canonical)
}

// ==================== Scanning a folder for programs ====================

/// The kind of system the programs are looked for on.
#[derive(Clone, Copy)]
pub enum Platform {
    Windows,
    MacOs,
    /// Linux and the other Unix systems.
    Other,
}

/// An entry met while walking a folder: its path, whether it is a plain file, its extension
/// (the text after the last `.` of its name, as `std::path::Path::extension` gives it), and
/// whether one of its execute permission bits is set.
pub struct ScanEntry {
    pub path: String,
    pub is_file: bool,
    pub extension: Option<String>,
    pub exec_bit: bool,
}

/// What counts as a program: on Windows a file with the extension `exe`; on macOS an
/// application bundle, with the extension `app`; elsewhere a file without extension that
/// may be executed.
pub open spec fn is_program(platform: Platform, e: ScanEntry) -> bool {
    match platform {
        Platform::Windows => e.is_file && (e.extension matches Some(x) && x@ == "exe"@),
        Platform::MacOs => e.extension matches Some(x) && x@ == "app"@,
        Platform::Other => e.is_file && e.extension is None && e.exec_bit,
    }
}

/// The paths of the entries that are programs, in the order they were met.
pub open spec fn program_paths(platform: Platform, entries: Seq<ScanEntry>) -> Seq<Seq<char>>
    decreases entries.len(),
{
    if entries.len() == 0 {
        Seq::empty()
    } else {
        let rest = program_paths(platform, entries.drop_last());
        let e = entries.last();
        if is_program(platform, e) {
            rest.push(e.path@)
        } else {
            rest
        }
    }
}

fn extension_is(e: &ScanEntry, wanted: &str) -> (b: bool)
    ensures
        b == (e.extension matches Some(x) && x@ == wanted@),
{
    match &e.extension {
        Some(x) => *x == String::from_str(wanted),
        None => false,
    }
}

/// Whether an entry is a program on the platform.
pub fn entry_is_program(platform: Platform, e: &ScanEntry) -> (b: bool)
    ensures
        b == is_program(platform, *e),
{
    match platform {
        Platform::Windows => e.is_file && extension_is(e, "exe"),
        Platform::MacOs => extension_is(e, "app"),
        Platform::Other => e.is_file && e.extension.is_none() && e.exec_bit,
    }
}

/// Lists the programs found in a folder. `is_dir` says whether the folder exists as a
/// directory, `canonical_root` what the file system made of its path, and `entries` what
/// walking it met.
pub fn scan_exe_files(
    platform: Platform,
    is_dir: bool,
    canonical_root: Result<String, String>,
    entries: &Vec<ScanEntry>,
) -> (r: Result<Vec<String>, AppError>)
    ensures
        !is_dir ==> (r matches Err(e) && e.is_business(
            ErrorCode::FolderNotFound,
            "指定的文件夹不存在"@,
        )),
        is_dir && canonical_root is Err ==> (r matches Err(AppError::Wrapped { code, message, source })
            && code == ErrorCode::ScanFailed && message@ == "无法解析文件夹路径"@ && source@
            == canonical_root->Err_0@),
        is_dir && canonical_root is Ok ==> (r matches Ok(paths) && paths.deep_view()
            == program_paths(platform, entries@)),
{
    if !is_dir {
        return Err(AppError::new(ErrorCode::FolderNotFound, String::from_str("指定的文件夹不存在")));
    }
    if let Err(cause) = canonical_root {
        return Err(AppError::wrap(ErrorCode::ScanFailed, String::from_str("无法解析文件夹路径"), cause));
    }
    let mut paths: Vec<String> = Vec::new();
    let mut i: usize = 0;
    while i < entries.len()
        invariant
            i <= entries.len(),
            paths.deep_view() == program_paths(platform, entries@.take(i as int)),
        decreases entries.len() - i,
    {
        proof {
            assert(entries@.take(i + 1).drop_last() =~= entries@.take(i as int));
            assert(entries@.take(i + 1).last() == entries@[i as int]);
        }
        let e = &entries[i];
        if entry_is_program(platform, e) {
            paths.push(e.path.clone());
            assert(paths.deep_view() =~= program_paths(platform, entries@.take(i as int)).push(e.path@));
        }
        i = i + 1;
    }
    assert(entries@.take(entries@.len() as int) =~= entries@);
    Ok(paths)
}

} // verus!
