//! Telling which wallpaper is on show, from the script that `feh` leaves
//! behind: the first path that the script quotes, and the file it names.

use vstd::prelude::*;
use vstd::string::*;

verus! {

/// What the first group of `pattern` captures at the first match in `text`.
pub uninterp spec fn captured(pattern: Seq<char>, text: Seq<char>) -> Option<Seq<char>>;

/// The final component of `path`.
pub uninterp spec fn final_component(path: Seq<char>) -> Option<Seq<char>>;

/// `regex::Regex::captures` for the expression `pattern`, and of what it
/// finds the group 1: the text that the first group captured at the first
/// match in `text`. `None` where `pattern` is no expression, where nothing
/// matches, and where the group took no part in the match.
#[verifier::external_body]
fn first_capture(pattern: &str, text: &str) -> (r: Option<String>)
    ensures
        match r {
            Some(found) => captured(pattern@, text@) == Some(found@),
            None => captured(pattern@, text@) is None,
        },
{
    let expression = regex::Regex::new(pattern).ok()?;
    let groups = expression.captures(text)?;
    groups.get(1).map(|group| group.as_str().to_owned())
}

/// `std::path::Path::file_name`: the last component of `path`, where it
/// has one that is no `..`.
#[verifier::external_body]
fn file_name_of(path: &str) -> (r: Option<String>)
    ensures
        match r {
            Some(name) => final_component(path@) == Some(name@),
            None => final_component(path@) is None,
        },
{
    match std::path::Path::new(path).file_name() {
        Some(name) => name.to_str().map(|name| name.to_owned()),
        None => None,
    }
}

/// The script that `feh` leaves in the home directory `home`.
pub fn script_path(home: &str) -> (r: String)
    ensures
        r@ == home@ + "/.fehbg"@,
{
    let mut r = home.to_owned();
    r.append("/.fehbg");
    r
}

/// The file that a quoted path names: its final component. `None` where
/// nothing was quoted, and where the path has no final component.
pub fn named_file(quoted: Option<String>) -> (r: Option<String>)
    ensures
        match quoted {
            Some(path) => match final_component(path@) {
                Some(name) => r matches Some(file) && file@ == name,
                None => r is None,
            },
            None => r is None,
        },
{
    match quoted {
        Some(path) => file_name_of(path.as_str()),
        None => None,
    }
}

/// The file name of the wallpaper on show, read from the script `fehbg`:
/// the final component of the first text that stands between single quotes
/// on one line. `None` where the script quotes nothing or the text names no
/// file.
pub fn current_wallpaper(fehbg: &str) -> (r: Option<String>)
    ensures
        match captured("'(.*?)'"@, fehbg@) {
            Some(path) => match final_component(path) {
                Some(name) => r matches Some(file) && file@ == name,
                None => r is None,
            },
            None => r is None,
        },
{
    named_file(first_capture("'(.*?)'", fehbg))
}

} // verus!
