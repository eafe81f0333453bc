//! Where things are kept below the application's data directory.
//!
//! Paths are put together with the separator of the platform, which the
//! caller hands in: the library does not know which platform it runs on.

use vstd::prelude::*;
use vstd::string::*;

verus! {

/// The path of an entry in a directory: the directory, the separator
/// unless the directory is empty or ends in it, and the name of the entry.
pub open spec fn child_path(directory: Seq<char>, name: Seq<char>, separator: char) -> Seq<char> {
    if directory.len() == 0 || directory.last() == separator {
        directory + name
    } else {
        directory + seq![separator] + name
    }
}

/// The path of an entry in a directory.
pub fn join_path(directory: &str, name: &str, separator: char) -> (out: String)
    ensures
        out@ == child_path(directory@, name@, separator),
{
    let mut chars = crate::text::chars_of(directory);
    let n = chars.len();
    if n > 0 && chars[n - 1] != separator {
        chars.push(separator);
    }
    let mut rest = crate::text::chars_of(name);
    chars.append(&mut rest);
    crate::text::string_of(&chars)
}

/// The file that holds the store, in the data directory.
pub fn get_database_file(app_dir: &str, separator: char) -> (out: String)
    ensures
        out@ == child_path(app_dir@, "fat_clip.db"@, separator),
{
    join_path(app_dir, "fat_clip.db", separator)
}

/// The directory of the stored images, in the data directory.
pub fn get_images_dir(app_dir: &str, separator: char) -> (out: String)
    ensures
        out@ == child_path(app_dir@, "images"@, separator),
{
    join_path(app_dir, "images", separator)
}

/// The directory of the thumbnails, in the data directory.
pub fn get_thumbnails_dir(app_dir: &str, separator: char) -> (out: String)
    ensures
        out@ == child_path(app_dir@, "thumbnails"@, separator),
{
    join_path(app_dir, "thumbnails", separator)
}

} // verus!
