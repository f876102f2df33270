//! The operations offered to the command line: register, list, remove, and show a code; and
//! where the profile file lives.

use crate::config::{
    Config, StoreView, ValidationError, bytes_view, contains_name, decoded_secret, first_index,
    names_unique, not_found_error, profile_check,
};
use crate::totp::{TOTP_DIGITS, clock_error, gen_totp, is_code_at_some_time, totp, totp_code};
use vstd::prelude::*;

verus! {

/// The directory, under a configuration root, that holds the profile file.
pub const SAVE_DIR_NAME: &'static str = "mfa-cli";

/// The directory, under a home or working directory, that holds the profile file.
pub const HIDDEN_SAVE_DIR_NAME: &'static str = ".mfa-cli";

/// The name of the profile file.
pub const CONFIG_FILE_NAME: &'static str = "profile";

/// `name` put under the directory `dir`, as a Unix path: an absolute `name` stands alone, and a
/// `/` goes between the two unless `dir` is empty or already ends with one.
pub open spec fn joined(dir: Seq<char>, name: Seq<char>) -> Seq<char> {
    if name.len() > 0 && name[0] == '/' {
        name
    } else if dir.len() == 0 || dir[dir.len() - 1] == '/' {
        dir + name
    } else {
        dir + seq!['/'] + name
    }
}

/// Puts `name` under the directory `dir`.
pub fn join_path(dir: &str, name: &str) -> (r: String)
    ensures
        r@ == joined(dir@, name@),
{
    if !name.is_empty() && name.get_char(0) == '/' {
        return String::from_str(name);
    }
    let mut path = String::from_str(dir);
    if !dir.is_empty() {
        let count: usize = dir.unicode_len();
        if dir.get_char(count - 1) != '/' {
            proof {
                reveal_strlit("/");
            }
            path.append("/");
        }
    }
    path.append(name);
    path
}

/// The view of an optional text.
pub open spec fn opt_view(o: Option<&str>) -> Option<Seq<char>> {
    match o {
        Some(s) => Some(s@),
        None => None,
    }
}

/// The directory for the profile file, from the first usable of: the override root (its own
/// subdirectory), the XDG configuration home (its own subdirectory), the home directory and
/// the working directory (a hidden subdirectory of each).
pub open spec fn dump_dir(
    config_home: Option<Seq<char>>,
    xdg_config_home: Option<Seq<char>>,
    home: Option<Seq<char>>,
    current_dir: Option<Seq<char>>,
) -> Option<Seq<char>> {
    if let Some(root) = config_home {
        Some(joined(root, SAVE_DIR_NAME@))
    } else if let Some(root) = xdg_config_home {
        Some(joined(root, SAVE_DIR_NAME@))
    } else if let Some(root) = home {
        Some(joined(root, HIDDEN_SAVE_DIR_NAME@))
    } else if let Some(root) = current_dir {
        Some(joined(root, HIDDEN_SAVE_DIR_NAME@))
    } else {
        None
    }
}

/// Chooses the directory for the profile file. Each argument is `None` where that candidate
/// is not usable: the override root unset, the XDG configuration home or the home directory
/// unset or absent on disk, the working directory unknown.
pub fn fetch_dump_path(
    config_home: Option<&str>,
    xdg_config_home: Option<&str>,
    home: Option<&str>,
    current_dir: Option<&str>,
) -> (r: Option<String>)
    ensures
        match r {
            Some(path) => dump_dir(
                opt_view(config_home),
                opt_view(xdg_config_home),
                opt_view(home),
                opt_view(current_dir),
            ) == Some(path@),
            None => dump_dir(
                opt_view(config_home),
                opt_view(xdg_config_home),
                opt_view(home),
                opt_view(current_dir),
            ) is None,
        },
{
    if let Some(root) = config_home {
        return Some(join_path(root, SAVE_DIR_NAME));
    }
    if let Some(root) = xdg_config_home {
        return Some(join_path(root, SAVE_DIR_NAME));
    }
    if let Some(root) = home {
        return Some(join_path(root, HIDDEN_SAVE_DIR_NAME));
    }
    if let Some(root) = current_dir {
        return Some(join_path(root, HIDDEN_SAVE_DIR_NAME));
    }
    None
}

/// Where the profile file lives: a directory and a file name in it.
pub struct DumpFile {
    dir: String,
    file_name: String,
}

impl DumpFile {
    pub closed spec fn dir_view(&self) -> Seq<char> {
        self.dir@
    }

    pub closed spec fn file_name_view(&self) -> Seq<char> {
        self.file_name@
    }

    pub fn new(dir: &str, file_name: &str) -> (r: Self)
        ensures
            r.dir_view() == dir@,
            r.file_name_view() == file_name@,
    {
        DumpFile { dir: String::from_str(dir), file_name: String::from_str(file_name) }
    }

    /// The path of the file.
    pub fn path(&self) -> (r: String)
        ensures
            r@ == joined(self.dir_view(), self.file_name_view()),
    {
        join_path(self.dir.as_str(), self.file_name.as_str())
    }

    /// The path of the directory.
    pub fn dir_path(&self) -> (r: &String)
        ensures
            r@ == self.dir_view(),
    {
        &self.dir
    }

    /// Whether the file can be restored from: it exists, is a regular file, and is not empty.
    pub fn check(exists: bool, is_file: bool, len: u64) -> (r: bool)
        ensures
            r == (exists && is_file && len > 0),
    {
        exists && is_file && 0 < len
    }
}

/// A profile as listed to the user: its name.
pub struct Profile {
    name: String,
}

impl View for Profile {
    type V = Seq<char>;

    closed spec fn view(&self) -> Seq<char> {
        self.name@
    }
}

impl Profile {
    pub fn new(name: String) -> (r: Self)
        ensures
            r@ == name@,
    {
        Self { name }
    }

    /// The name, as it is shown.
    pub fn name(&self) -> (r: &String)
        ensures
            r@ == self@,
    {
        &self.name
    }
}

/// The names of a store's profiles, in order.
pub open spec fn names_of(store: StoreView) -> Seq<Seq<char>> {
    store.map_values(|p: (Seq<char>, Seq<char>)| p.0)
}

/// The message of the error for a name with no usable secret.
pub open spec fn no_secret_error(name: Seq<char>) -> Seq<char> {
    "can't get the secret that profile: "@ + name
}

/// The store together with the place of its file.
pub struct Mfa {
    config: Config,
    dump_file: DumpFile,
}

impl View for Mfa {
    type V = StoreView;

    closed spec fn view(&self) -> StoreView {
        self.config@
    }
}

impl Mfa {
    /// The store `config`, to be kept in `dump_file`.
    pub fn new(dump_file: DumpFile, config: Config) -> (r: Self)
        ensures
            r@ == config@,
            r.dump_file_view() == dump_file,
    {
        Self { config, dump_file }
    }

    pub closed spec fn dump_file_view(&self) -> DumpFile {
        self.dump_file
    }

    pub fn dump_file(&self) -> (r: &DumpFile)
        ensures
            *r == self.dump_file_view(),
    {
        &self.dump_file
    }

    pub fn config(&self) -> (r: &Config)
        ensures
            r@ == self@,
    {
        &self.config
    }

    /// Adds a profile; the error is the message of the check that failed.
    pub fn register_profile(&mut self, account_name: &str, secret: &str) -> (r: Result<
        (),
        String,
    >)
        ensures
            match profile_check(old(self)@, account_name@, secret@) {
                Ok(()) => r is Ok && final(self)@ == old(self)@.push((account_name@, secret@)),
                Err(e) => r matches Err(msg) && msg@ == e.text()@ && final(self)@ == old(self)@,
            },
            names_unique(old(self)@) ==> names_unique(final(self)@),
            final(self).dump_file_view() == old(self).dump_file_view(),
    {
        match self.config.new_profile(account_name, secret) {
            Ok(()) => Ok(()),
            Err(err) => Err(err.message()),
        }
    }

    /// The names of all profiles, in order.
    pub fn list_profiles(&self) -> (r: Vec<Profile>)
        ensures
            r@.map_values(|p: Profile| p@) == names_of(self@),
    {
        let profiles = self.config.get_profiles();
        let mut out: Vec<Profile> = Vec::new();
        let mut i: usize = 0;
        while i < profiles.len()
            invariant
                i <= profiles@.len(),
                profiles@.map_values(|p: crate::config::Profile| p@) == self@,
                out@.len() == i,
                forall|j: int| 0 <= j < i ==> (#[trigger] out@[j])@ == self@[j].0,
            decreases profiles@.len() - i,
        {
            let name = profiles[i].get_name().clone();
            assert(self@[i as int] == profiles@[i as int]@);
            out.push(Profile::new(name));
            i = i + 1;
        }
        assert(out@.map_values(|p: Profile| p@) =~= names_of(self@));
        out
    }

    /// Removes the profile with this name.
    pub fn remove_profile(&mut self, profile_name: &str) -> (r: Result<(), String>)
        ensures
            match r {
                Ok(()) => {
                    &&& contains_name(old(self)@, profile_name@)
                    &&& final(self)@ == old(self)@.remove(first_index(old(self)@, profile_name@))
                },
                Err(msg) => {
                    &&& !contains_name(old(self)@, profile_name@)
                    &&& final(self)@ == old(self)@
                    &&& msg@ == not_found_error(profile_name@)
                },
            },
            r is Ok ==> final(self)@.len() == old(self)@.len() - 1,
            r is Ok && names_unique(old(self)@) ==> !contains_name(final(self)@, profile_name@),
            final(self).dump_file_view() == old(self).dump_file_view(),
    {
        self.config.remove_profile(profile_name)
    }

    /// The decoded secret of the profile with this name.
    pub fn get_secret_by_name(&self, profile_name: &str) -> (r: Option<Vec<u8>>)
        ensures
            bytes_view(r) == decoded_secret(self@, profile_name@),
    {
        self.config.get_secret_by_name(profile_name)
    }

    /// The six-digit code of the profile with this name at `time` seconds after the epoch.
    pub fn get_code_by_name_at(&self, profile_name: &str, time: u64) -> (r: Result<
        String,
        String,
    >)
        ensures
            match decoded_secret(self@, profile_name@) {
                Some(secret) => r matches Ok(code) && code@ == totp_code(secret, time, 6),
                None => r matches Err(msg) && msg@ == no_secret_error(profile_name@),
            },
    {
        match self.get_secret_by_name(profile_name) {
            Some(secret) => gen_totp(secret.as_slice(), time, TOTP_DIGITS),
            None => Err(Self::no_secret(profile_name)),
        }
    }

    /// The six-digit code of the profile with this name now.
    pub fn get_code_by_name(&self, profile_name: &str) -> (r: Result<String, String>)
        ensures
            match decoded_secret(self@, profile_name@) {
                Some(secret) => match r {
                    Ok(code) => is_code_at_some_time(secret, code@),
                    Err(msg) => msg@ == clock_error(),
                },
                None => r matches Err(msg) && msg@ == no_secret_error(profile_name@),
            },
    {
        match self.get_secret_by_name(profile_name) {
            Some(secret) => {
                totp(secret.as_slice())
            },
            None => Err(Self::no_secret(profile_name)),
        }
    }

    fn no_secret(profile_name: &str) -> (r: String)
        ensures
            r@ == no_secret_error(profile_name@),
    {
        let mut msg = String::from_str("can't get the secret that profile: ");
        msg.append(profile_name);
        msg
    }
}

} // verus!
