//! The settings: where wallpapers are kept, which program shows them, what
//! to ask the catalog for, and where the record store lives.

use vstd::prelude::*;
use vstd::string::*;
use crate::text::{join_path, joined};

verus! {

/// `dirs::home_dir`, as text: the user's home directory, where the system
/// names one that is valid UTF-8. Nothing is claimed of it: it depends on
/// the user and the system.
#[verifier::external_body]
fn home_directory() -> (r: Option<String>) {
    match dirs::home_dir() {
        Some(path) => path.into_os_string().into_string().ok(),
        None => None,
    }
}

/// General settings.
pub struct General {
    pub wallpaper_dir: String,
    pub purity: Option<String>,
    pub wallpaper_app: String,
}

impl Default for General {
    /// No directory, no program, and `sfw` as purity.
    fn default() -> (r: Self)
        ensures
            r.wallpaper_dir@.len() == 0,
            r.purity matches Some(p) && p@ == "sfw"@,
            r.wallpaper_app@.len() == 0,
    {
        General {
            wallpaper_dir: String::new(),
            purity: Some("sfw".to_owned()),
            wallpaper_app: String::new(),
        }
    }
}

/// Where the record store lives.
pub struct DatabaseConfig {
    pub database_path: String,
}

/// The store's place below a home directory.
pub open spec fn default_database_path(home: Seq<char>) -> Seq<char> {
    joined(home, ".local/share/applications/sinh-x/wallpaper/"@)
}

impl DatabaseConfig {
    /// The store's usual place for the user whose home directory is `home`.
    pub fn below(home: &str) -> (r: DatabaseConfig)
        ensures
            r.database_path@ == default_database_path(home@),
    {
        DatabaseConfig {
            database_path: join_path(home, ".local/share/applications/sinh-x/wallpaper/"),
        }
    }

    /// The store's usual place for the current user, or `None` where the
    /// system names no home directory.
    pub fn locate() -> (r: Option<DatabaseConfig>)
        ensures
            r matches Some(found) ==> exists|home: Seq<char>|
                found.database_path@ == #[trigger] default_database_path(home),
    {
        let home = home_directory();
        let r = DatabaseConfig::for_home(&home);
        proof {
            if let Some(named) = home {
                assert(r->0.database_path@ == default_database_path(named@));
            }
        }
        r
    }

    /// The store's usual place, given the home directory that the system
    /// names, if it names one: below that directory, and `None` without one.
    pub fn for_home(home: &Option<String>) -> (r: Option<DatabaseConfig>)
        ensures
            match home {
                Some(named) => r matches Some(found) && found.database_path@
                    == default_database_path(named@),
                None => r is None,
            },
    {
        match home {
            Some(named) => Some(DatabaseConfig::below(named.as_str())),
            None => None,
        }
    }
}

/// Settings of the program `swww`.
pub struct Swww {}

/// Settings of the program `feh`.
pub struct Feh {}

/// What to ask the catalog for.
pub struct Download {
    pub api_key: String,
    pub purity: String,
    pub categories: String,
    pub query: String,
}

/// All settings.
pub struct Config {
    pub general: General,
    pub swww: Option<Swww>,
    pub feh: Option<Feh>,
    pub download: Download,
    pub database: Option<DatabaseConfig>,
}

/// The settings file's place below a home directory.
pub open spec fn settings_path(home: Seq<char>) -> Seq<char> {
    joined(settings_directory(home), "config.toml"@)
}

/// The directory of the settings file below a home directory.
pub open spec fn settings_directory(home: Seq<char>) -> Seq<char> {
    joined(home, ".config/sinh-x/wallpaper"@)
}

impl Config {
    /// The directory that holds the settings file of the user whose home
    /// directory is `home`.
    pub fn directory_below(home: &str) -> (r: String)
        ensures
            r@ == settings_directory(home@),
    {
        join_path(home, ".config/sinh-x/wallpaper")
    }

    /// The settings file of the user whose home directory is `home`.
    pub fn path_below(home: &str) -> (r: String)
        ensures
            r@ == settings_path(home@),
    {
        join_path(Config::directory_below(home).as_str(), "config.toml")
    }

    /// What a settings file holds when it is first set up.
    pub fn starter() -> (r: &'static str)
        ensures
            r@ == "api_key = \"your_api_key\"\n"@,
    {
        "api_key = \"your_api_key\"\n"
    }

    /// What `validate` finds: nothing to object to, or the first objection.
    pub open spec fn verdict(&self) -> Result<(), Seq<char>> {
        if self.download.api_key@.len() == 0 {
            Err("API key is missing"@)
        } else if self.general.wallpaper_app@ == "swww"@ {
            if self.swww is None {
                Err("The 'swww' section is missing in the config file"@)
            } else {
                Ok(())
            }
        } else if self.general.wallpaper_app@ == "feh"@ {
            if self.feh is None {
                Err("The 'feh' section is missing in the config file"@)
            } else {
                Ok(())
            }
        } else {
            Err("Invalid wallpaper_app value. It must be 'swww' or 'feh'"@)
        }
    }

    /// The settings made of their sections. A missing database section is
    /// replaced by the store's usual place for the current user; `None`
    /// where that is needed and the system names no home directory.
    pub fn new(
        general: General,
        swww: Option<Swww>,
        feh: Option<Feh>,
        download: Download,
        database: Option<DatabaseConfig>,
    ) -> (r: Option<Config>)
        ensures
            database is Some ==> r is Some,
            r matches Some(config) ==> {
                &&& config.general == general
                &&& config.swww == swww
                &&& config.feh == feh
                &&& config.download == download
                &&& config.database is Some
                &&& database is Some ==> config.database == database
                &&& database is None ==> exists|home: Seq<char>|
                    config.database->0.database_path@ == #[trigger] default_database_path(home)
            },
    {
        let database = match database {
            Some(given) => given,
            None => match DatabaseConfig::locate() {
                Some(found) => found,
                None => {
                    return None;
                },
            },
        };
        Some(Config { general, swww, feh, download, database: Some(database) })
    }

    /// Checks the settings: the API key must not be empty, and the program
    /// named must be `swww` or `feh` and have its section.
    pub fn validate(&self) -> (r: Result<(), String>)
        ensures
            match r {
                Ok(_) => self.verdict() is Ok,
                Err(reason) => self.verdict() == Err::<(), Seq<char>>(reason@),
            },
    {
        if self.download.api_key.as_str().is_empty() {
            return Err("API key is missing".to_owned());
        }
        if self.general.wallpaper_app == "swww".to_owned() {
            if self.swww.is_none() {
                return Err("The 'swww' section is missing in the config file".to_owned());
            }
        } else if self.general.wallpaper_app == "feh".to_owned() {
            if self.feh.is_none() {
                return Err("The 'feh' section is missing in the config file".to_owned());
            }
        } else {
            return Err("Invalid wallpaper_app value. It must be 'swww' or 'feh'".to_owned());
        }
        Ok(())
    }
}

} // verus!
