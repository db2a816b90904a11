//! Showing a wallpaper: which directory the wallpapers of the wanted purity
//! lie in, which of them is shown, and the command that shows it.

use rand::Rng;
use vstd::prelude::*;
use vstd::string::*;
use crate::config::General;
use crate::text::{join_path, joined};

verus! {

/// `rand::Rng::gen_range` on the thread's generator, for the range from 0
/// up to `bound`, which must not be empty: some index below `bound`.
#[verifier::external_body]
fn random_below(bound: usize) -> (r: usize)
    requires
        bound > 0,
    ensures
        r < bound,
{
    rand::thread_rng().gen_range(0..bound)
}

/// The directory whose wallpapers are shown: `nsfw` below the wallpaper
/// directory where the purity wanted is `nsfw`, the wallpaper directory
/// itself otherwise.
pub open spec fn folder_of(general: General) -> Seq<char> {
    if general.purity matches Some(purity) && purity@ == "nsfw"@ {
        joined(general.wallpaper_dir@, "nsfw"@)
    } else {
        general.wallpaper_dir@
    }
}

/// The directory whose wallpapers are shown.
pub fn wallpaper_folder(general: &General) -> (folder: String)
    ensures
        folder@ == folder_of(*general),
{
    let nsfw = match &general.purity {
        Some(purity) => *purity == "nsfw".to_owned(),
        None => false,
    };
    if nsfw {
        join_path(general.wallpaper_dir.as_str(), "nsfw")
    } else {
        general.wallpaper_dir.clone()
    }
}

/// The wallpaper to show: `given` where there is one, else the file at
/// index `at` of `files`; `None` where `files` has no such index.
pub fn selected(given: Option<String>, files: &Vec<String>, at: usize) -> (r: Option<String>)
    ensures
        match given {
            Some(path) => r matches Some(shown) && shown@ == path@,
            None => if at < files.len() {
                r matches Some(shown) && shown@ == files[at as int]@
            } else {
                r is None
            },
        },
{
    match given {
        Some(path) => Some(path),
        None => if at < files.len() {
            Some(files[at].clone())
        } else {
            None
        },
    }
}

/// The wallpaper to show: `given` where there is one, else one of `files`
/// picked at random; `None` where there is neither.
pub fn choose_wallpaper(given: Option<String>, files: &Vec<String>) -> (r: Option<String>)
    ensures
        match given {
            Some(path) => r matches Some(shown) && shown@ == path@,
            None => if files.len() == 0 {
                r is None
            } else {
                r matches Some(shown) && exists|i: int|
                    0 <= i < files.len() && shown@ == (#[trigger] files[i])@
            },
        },
{
    let at = if given.is_none() && files.len() > 0 {
        random_below(files.len())
    } else {
        files.len()
    };
    selected(given, files, at)
}

/// A program that sets the desktop background.
#[derive(Clone, Copy, Debug, PartialEq, Eq, Structural)]
pub enum Setter {
    Feh,
    Swww,
}

impl Setter {
    /// The setter that the settings name `app`.
    pub open spec fn of(app: Seq<char>) -> Option<Setter> {
        if app == "feh"@ {
            Some(Setter::Feh)
        } else if app == "swww"@ {
            Some(Setter::Swww)
        } else {
            None
        }
    }

    /// The program's name.
    pub open spec fn program_of(self) -> Seq<char> {
        match self {
            Setter::Feh => "feh"@,
            Setter::Swww => "swww"@,
        }
    }

    /// The arguments with which the program shows `wallpaper`.
    pub open spec fn arguments_of(self, wallpaper: Seq<char>) -> Seq<Seq<char>> {
        match self {
            Setter::Feh => seq!["--bg-max"@, "--image-bg #000000"@, wallpaper],
            Setter::Swww => seq!["img"@, wallpaper],
        }
    }

    /// The command as it is reported.
    pub open spec fn command_line_of(self, wallpaper: Seq<char>) -> Seq<char> {
        match self {
            Setter::Feh => "feh --bg-scale "@ + wallpaper,
            Setter::Swww => "swww img "@ + wallpaper,
        }
    }

    /// The setter that the settings name `app`, if they name one.
    pub fn named(app: &str) -> (r: Option<Setter>)
        ensures
            r == Setter::of(app@),
    {
        let app = app.to_owned();
        if app == "feh".to_owned() {
            Some(Setter::Feh)
        } else if app == "swww".to_owned() {
            Some(Setter::Swww)
        } else {
            None
        }
    }

    /// The program's name.
    pub fn program(&self) -> (r: &'static str)
        ensures
            r@ == self.program_of(),
    {
        match self {
            Setter::Feh => "feh",
            Setter::Swww => "swww",
        }
    }

    /// The arguments with which the program shows `wallpaper`.
    pub fn arguments(&self, wallpaper: &str) -> (r: Vec<String>)
        ensures
            r.deep_view() == self.arguments_of(wallpaper@),
    {
        let mut r: Vec<String> = Vec::new();
        match self {
            Setter::Feh => {
                r.push("--bg-max".to_owned());
                r.push("--image-bg #000000".to_owned());
            },
            Setter::Swww => {
                r.push("img".to_owned());
            },
        }
        r.push(wallpaper.to_owned());
        assert(r.deep_view() =~= self.arguments_of(wallpaper@));
        r
    }

    /// The command as it is reported.
    pub fn command_line(&self, wallpaper: &str) -> (r: String)
        ensures
            r@ == self.command_line_of(wallpaper@),
    {
        let mut r = match self {
            Setter::Feh => "feh --bg-scale ".to_owned(),
            Setter::Swww => "swww img ".to_owned(),
        };
        r.append(wallpaper);
        r
    }
}

} // verus!
