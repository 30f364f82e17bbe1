use vstd::prelude::*;
use vstd::string::StringExecFns;
use crate::media::thumb_file_name;
use crate::error::{AppError, ErrorCode};
use crate::utils::{has_root_form, validate_path, not_absolute_message};

verus! {

/// A path as the sequence of components that are joined to form it. The first component
/// may itself be a whole path (a base directory).
pub struct StoragePath {
    pub parts: Vec<String>,
}

impl View for StoragePath {
    type V = Seq<Seq<char>>;

    open spec fn view(&self) -> Seq<Seq<char>> {
        self.parts.deep_view()
    }
}

impl StoragePath {
    /// The path made of one component.
    pub fn from_text(base: &str) -> (p: StoragePath)
        ensures
            p@ == seq![base@],
    {
        let mut parts: Vec<String> = Vec::new();
        parts.push(String::from_str(base));
        let p = StoragePath { parts };
        assert(p@ =~= seq![base@]);
        p
    }

    /// This path with one more component.
    pub fn join(&self, name: &str) -> (p: StoragePath)
        ensures
            p@ == self@.push(name@),
    {
        let mut parts = crate::models::clone_strings(&self.parts);
        parts.push(String::from_str(name));
        let p = StoragePath { parts };
        assert(p@ =~= self@.push(name@));
        p
    }

    /// A copy of this path.
    pub fn duplicate(&self) -> (p: StoragePath)
        ensures
            p@ == self@,
    {
        StoragePath { parts: crate::models::clone_strings(&self.parts) }
    }
}

/// The persisted choice of data directory; empty for the default one.
pub struct PathConfig {
    pub data_root: String,
}

impl Default for PathConfig {
    fn default() -> (c: Self)
        ensures
            c.data_root@ == Seq::<char>::empty(),
    {
        PathConfig { data_root: String::new() }
    }
}

/// Where things are kept: the per-user configuration base (`%APPDATA%` or the XDG config
/// directory), the installation directory once known, and the chosen data directory.
pub struct PathManager {
    pub config_base: StoragePath,
    pub install_dir: Option<StoragePath>,
    pub configured_data_root: Option<String>,
}

/// `<config base>/KurisuGal`.
pub open spec fn app_config_root(base: Seq<Seq<char>>) -> Seq<Seq<char>> {
    base.push("KurisuGal"@)
}

pub open spec fn opt_text(o: Option<String>) -> Option<Seq<char>> {
    match o {
        Some(s) => Some(s@),
        None => None,
    }
}

/// The data directory: the chosen one when it is set, not empty and usable, else
/// `<install dir>/Data`.
pub open spec fn data_root_spec(m: PathManager, custom_usable: bool) -> Seq<Seq<char>> {
    match m.configured_data_root {
        Some(c) if c@.len() > 0 && custom_usable => seq![c@],
        _ => m.install_dir.unwrap()@.push("Data"@),
    }
}

impl PathManager {
    /// A manager that knows only the configuration base.
    pub fn new(config_base: StoragePath) -> (m: Self)
        ensures
            m.config_base@ == config_base@,
            m.install_dir is None,
            m.configured_data_root is None,
    {
        PathManager { config_base, install_dir: None, configured_data_root: None }
    }

    /// Records the installation directory.
    pub fn init(&mut self, install_dir: StoragePath)
        ensures
            final(self).config_base@ == old(self).config_base@,
            final(self).install_dir matches Some(d) && d@ == install_dir@,
            final(self).configured_data_root == old(self).configured_data_root,
    {
        self.install_dir = Some(install_dir);
    }

    /// Records the installation directory, then the data directory of the persisted
    /// configuration when it names one.
    pub fn init_from_config(&mut self, install_dir: StoragePath, config: PathConfig)
        ensures
            final(self).config_base@ == old(self).config_base@,
            final(self).install_dir matches Some(d) && d@ == install_dir@,
            opt_text(final(self).configured_data_root) == if config.data_root@.len() > 0 {
                Some(config.data_root@)
            } else {
                opt_text(old(self).configured_data_root)
            },
    {
        self.init(install_dir);
        if !config.data_root.as_str().is_empty() {
            self.configured_data_root = Some(config.data_root);
        }
    }

    /// The installation directory.
    pub fn get_install_dir(&self) -> (d: StoragePath)
        requires
            self.install_dir is Some,
        ensures
            d@ == self.install_dir.unwrap()@,
    {
        match &self.install_dir {
            Some(d) => d.duplicate(),
            None => {
                assert(false);
                StoragePath { parts: Vec::new() }
            },
        }
    }

    /// Sets (or clears) the chosen data directory.
    pub fn set_configured_data_root(&mut self, root: Option<String>)
        ensures
            final(self).config_base@ == old(self).config_base@,
            final(self).install_dir == old(self).install_dir,
            final(self).configured_data_root == root,
    {
        self.configured_data_root = root;
    }

    /// The chosen data directory, if any.
    pub fn get_configured_data_root(&self) -> (r: Option<String>)
        ensures
            opt_text(r) == opt_text(self.configured_data_root),
    {
        match &self.configured_data_root {
            Some(c) => Some(c.clone()),
            None => None,
        }
    }

    /// Makes `target` the chosen data directory once the configuration that records it
    /// (`path_config_for(target)`) has been saved; `saved` is the outcome of saving it. When
    /// saving failed, its error is handed back and nothing changes.
    pub fn do_set_data_root(&mut self, target: &str, saved: Result<(), AppError>) -> (r: Result<(), AppError>)
        ensures
            final(self).config_base@ == old(self).config_base@,
            final(self).install_dir == old(self).install_dir,
            saved is Ok ==> r is Ok && opt_text(final(self).configured_data_root) == Some(target@),
            saved is Ok && target@.len() > 0 ==> data_root_spec(*final(self), true) == seq![target@],
            saved is Err ==> r == saved && final(self).configured_data_root
                == old(self).configured_data_root,
    {
        match saved {
            Ok(()) => {
                self.set_configured_data_root(Some(String::from_str(target)));
                Ok(())
            },
            Err(e) => Err(e),
        }
    }

    /// Sets the data directory to the path given by the user: the path must be absolute,
    /// and the directory recorded is its normalised form (`canonical`, what the file system
    /// made of it). `saved` is the outcome of saving the configuration for that form.
    pub fn set_data_root(
        &mut self,
        path: &str,
        canonical: Result<String, String>,
        saved: Result<(), AppError>,
    ) -> (r: Result<(), AppError>)
        ensures
            final(self).config_base@ == old(self).config_base@,
            final(self).install_dir == old(self).install_dir,
            path@.len() == 0 ==> r is Err,
            !has_root_form(path@) ==> (r matches Err(e) && e.is_business(
                ErrorCode::PathNotAbsolute,
                not_absolute_message(path@),
            )),
            canonical is Err ==> r is Err,
            r is Ok ==> (canonical matches Ok(c) && opt_text(final(self).configured_data_root)
                == Some(c@)) && saved is Ok,
            r is Err ==> final(self).configured_data_root == old(self).configured_data_root,
            r is Err ==> (r->Err_0.is_business(ErrorCode::PathNotAbsolute, not_absolute_message(path@))
                || (canonical matches Err(cause) && r->Err_0 matches AppError::Wrapped { code, message, source }
                    && code == ErrorCode::PathInvalid && message@ == "路径无效或不存在"@ && source@ == cause@)
                || (canonical is Ok && r == saved)),
            canonical is Ok && saved is Ok ==> (r is Ok || r->Err_0.is_business(
                ErrorCode::PathNotAbsolute,
                not_absolute_message(path@),
            )),
    {
        let target = match validate_path(path, canonical) {
            Ok(t) => t,
            Err(e) => return Err(e),
        };
        self.do_set_data_root(target.as_str(), saved)
    }

    /// `<config base>/KurisuGal/Config/System`.
    pub fn system_config_dir(&self) -> (p: StoragePath)
        ensures
            p@ == app_config_root(self.config_base@).push("Config"@).push("System"@),
    {
        self.config_base.join("KurisuGal").join("Config").join("System")
    }

    /// `<config base>/KurisuGal/Config/User`.
    pub fn user_config_dir(&self) -> (p: StoragePath)
        ensures
            p@ == app_config_root(self.config_base@).push("Config"@).push("User"@),
    {
        self.config_base.join("KurisuGal").join("Config").join("User")
    }

    /// `<config base>/KurisuGal/Logs`.
    pub fn logs_dir(&self) -> (p: StoragePath)
        ensures
            p@ == app_config_root(self.config_base@).push("Logs"@),
    {
        self.config_base.join("KurisuGal").join("Logs")
    }

    /// `<config base>/KurisuGal/Backup`.
    pub fn backup_dir(&self) -> (p: StoragePath)
        ensures
            p@ == app_config_root(self.config_base@).push("Backup"@),
    {
        self.config_base.join("KurisuGal").join("Backup")
    }

    /// The backup file made at `timestamp`: `<backup dir>/kurisu_gal_backup_<timestamp>.json`.
    pub fn backup_file(&self, timestamp: &str) -> (p: StoragePath)
        ensures
            p@ == app_config_root(self.config_base@).push("Backup"@).push(
                "kurisu_gal_backup_"@ + timestamp@ + ".json"@,
            ),
    {
        let mut name = String::from_str("kurisu_gal_backup_");
        name.append(timestamp);
        name.append(".json");
        proof {
            reveal_strlit("kurisu_gal_backup_");
            reveal_strlit(".json");
        }
        self.backup_dir().join(name.as_str())
    }

    /// The file that keeps the chosen data directory.
    pub fn path_config_file(&self) -> (p: StoragePath)
        ensures
            p@ == app_config_root(self.config_base@).push("Config"@).push("System"@).push(
                "path_config.json"@,
            ),
    {
        self.system_config_dir().join("path_config.json")
    }

    /// The file that keeps the settings.
    pub fn settings_file(&self) -> (p: StoragePath)
        ensures
            p@ == app_config_root(self.config_base@).push("Config"@).push("User"@).push(
                "setting.json"@,
            ),
    {
        self.user_config_dir().join("setting.json")
    }

    /// The operation log.
    pub fn operation_log_file(&self) -> (p: StoragePath)
        ensures
            p@ == app_config_root(self.config_base@).push("Logs"@).push("operation_log.jsonl"@),
    {
        self.logs_dir().join("operation_log.jsonl")
    }

    /// The trace of requests to Bangumi.
    pub fn bangumi_trace_file(&self) -> (p: StoragePath)
        ensures
            p@ == app_config_root(self.config_base@).push("Logs"@).push("bangumi_trace.jsonl"@),
    {
        self.logs_dir().join("bangumi_trace.jsonl")
    }

    /// The data directory. `custom_usable` tells whether the chosen directory, or its
    /// parent, exists.
    pub fn data_root(&self, custom_usable: bool) -> (p: StoragePath)
        requires
            self.install_dir is Some || (self.configured_data_root matches Some(c) && c@.len()
                > 0 && custom_usable),
        ensures
            p@ == data_root_spec(*self, custom_usable),
    {
        match &self.configured_data_root {
            Some(c) => {
                if !c.as_str().is_empty() && custom_usable {
                    return StoragePath::from_text(c.as_str());
                }
            },
            None => {},
        }
        self.get_install_dir().join("Data")
    }
}

/// What is set as the data directory is what the data directory reads back as, as long as
/// it (or its parent) exists; when it is not usable, the default `<install dir>/Data` is used.
pub proof fn law_set_then_read_data_root(m: PathManager, target: Seq<char>)
    requires
        opt_text(m.configured_data_root) == Some(target),
        target.len() > 0,
    ensures
        data_root_spec(m, true) == seq![target],
        data_root_spec(m, false) == m.install_dir.unwrap()@.push("Data"@),
{
}

/// The configuration that records a chosen data directory.
pub fn path_config_for(target: &str) -> (c: PathConfig)
    ensures
        c.data_root@ == target@,
{
    PathConfig { data_root: String::from_str(target) }
}

/// The file of the former single-file format, `game_list.json`.
pub fn games_file(root: &StoragePath) -> (p: StoragePath)
    ensures
        p@ == root@.push("game_list.json"@),
{
    root.join("game_list.json")
}

/// The file that keeps the games, `games.json`.
pub fn games_only_file(root: &StoragePath) -> (p: StoragePath)
    ensures
        p@ == root@.push("games.json"@),
{
    root.join("games.json")
}

/// The file that keeps the rankings, `rankings.json`.
pub fn rankings_file(root: &StoragePath) -> (p: StoragePath)
    ensures
        p@ == root@.push("rankings.json"@),
{
    root.join("rankings.json")
}

/// The cover directory, `CoverArt`.
pub fn cover_dir(root: &StoragePath) -> (p: StoragePath)
    ensures
        p@ == root@.push("CoverArt"@),
{
    root.join("CoverArt")
}

/// A cover file in the cover directory.
pub fn cover_path(root: &StoragePath, filename: &str) -> (p: StoragePath)
    ensures
        p@ == root@.push("CoverArt"@).push(filename@),
{
    cover_dir(root).join(filename)
}

/// The directory kept for saves, `Saves`.
pub fn saves_dir(root: &StoragePath) -> (p: StoragePath)
    ensures
        p@ == root@.push("Saves"@),
{
    root.join("Saves")
}

/// The cache directory, `Cache`.
pub fn cache_dir(root: &StoragePath) -> (p: StoragePath)
    ensures
        p@ == root@.push("Cache"@),
{
    root.join("Cache")
}

/// The directory of the screenshots of a game, `Screenshots/<game id>`.
pub fn game_screenshots_dir(root: &StoragePath, game_id: &str) -> (p: StoragePath)
    ensures
        p@ == root@.push("Screenshots"@).push(game_id@),
{
    root.join("Screenshots").join(game_id)
}

/// A screenshot file of a game.
pub fn screenshot_path(root: &StoragePath, game_id: &str, filename: &str) -> (p: StoragePath)
    ensures
        p@ == root@.push("Screenshots"@).push(game_id@).push(filename@),
{
    game_screenshots_dir(root, game_id).join(filename)
}

/// The thumbnail file of a screenshot, next to it.
pub fn screenshot_thumb_path(root: &StoragePath, game_id: &str, filename: &str) -> (p: StoragePath)
    ensures
        p@ == root@.push("Screenshots"@).push(game_id@).push(filename@ + "_thumb.jpg"@),
{
    let name = thumb_file_name(filename);
    game_screenshots_dir(root, game_id).join(name.as_str())
}

/// The directory of the user's assets (the logo), `Assets`.
pub fn assets_dir(root: &StoragePath) -> (p: StoragePath)
    ensures
        p@ == root@.push("Assets"@),
{
    root.join("Assets")
}

/// The directory of the sounds, `sound`.
pub fn sound_dir(root: &StoragePath) -> (p: StoragePath)
    ensures
        p@ == root@.push("sound"@),
{
    root.join("sound")
}

/// What moving the data directory has done so far.
pub struct DataMigrationReport {
    pub files_count: usize,
    pub covers_count: usize,
    pub total_bytes: u64,
    pub errors: Vec<String>,
}

impl DataMigrationReport {
    /// Nothing moved, no error.
    pub fn empty() -> (r: Self)
        ensures
            r.files_count == 0,
            r.covers_count == 0,
            r.total_bytes == 0,
            r.errors@.len() == 0,
    {
        DataMigrationReport { files_count: 0, covers_count: 0, total_bytes: 0, errors: Vec::new() }
    }

    /// Counts a copied file of `bytes` bytes, as a cover when it lies in the cover directory.
    pub fn record_copy(&mut self, bytes: u64, is_cover: bool)
        requires
            old(self).files_count < usize::MAX,
            old(self).total_bytes + bytes <= u64::MAX,
            is_cover ==> old(self).covers_count < usize::MAX,
        ensures
            final(self).files_count == old(self).files_count + 1,
            final(self).total_bytes == old(self).total_bytes + bytes,
            final(self).covers_count == old(self).covers_count + if is_cover { 1usize } else { 0 },
            final(self).errors@ == old(self).errors@,
    {
        self.files_count = self.files_count + 1;
        self.total_bytes = self.total_bytes + bytes;
        if is_cover {
            self.covers_count = self.covers_count + 1;
        }
    }

    /// Records an error; moving goes on.
    pub fn record_error(&mut self, message: String)
        ensures
            final(self).files_count == old(self).files_count,
            final(self).covers_count == old(self).covers_count,
            final(self).total_bytes == old(self).total_bytes,
            final(self).errors@ == old(self).errors@.push(message),
    {
        self.errors.push(message);
    }

    /// Adds what moving a subdirectory has done.
    pub fn absorb(&mut self, sub: DataMigrationReport)
        requires
            old(self).files_count + sub.files_count <= usize::MAX,
            old(self).covers_count + sub.covers_count <= usize::MAX,
            old(self).total_bytes + sub.total_bytes <= u64::MAX,
        ensures
            final(self).files_count == old(self).files_count + sub.files_count,
            final(self).covers_count == old(self).covers_count + sub.covers_count,
            final(self).total_bytes == old(self).total_bytes + sub.total_bytes,
            final(self).errors@ == old(self).errors@ + sub.errors@,
    {
        self.files_count = self.files_count + sub.files_count;
        self.covers_count = self.covers_count + sub.covers_count;
        self.total_bytes = self.total_bytes + sub.total_bytes;
        let mut errs = sub.errors;
        self.errors.append(&mut errs);
    }
}

// ==================== Covers of many games ====================

/// The first cover that could be read, trying the candidates in order.
pub open spec fn first_found(found: Seq<Option<String>>) -> Option<Seq<char>>
    decreases found.len(),
{
    if found.len() == 0 {
        None
    } else {
        match found[0] {
            Some(u) => Some(u@),
            None => first_found(found.drop_first()),
        }
    }
}

/// Each game with a readable cover, paired with that cover, in the order of the games.
pub open spec fn covers_of(ids: Seq<String>, found: Seq<Vec<Option<String>>>) -> Seq<
    (Seq<char>, Seq<char>),
>
    decreases ids.len(),
{
    if ids.len() == 0 {
        Seq::empty()
    } else {
        let rest = covers_of(ids.drop_last(), found.drop_last());
        match first_found(found.last()@) {
            Some(u) => rest.push((ids.last()@, u)),
            None => rest,
        }
    }
}

fn first_readable(found: &Vec<Option<String>>) -> (r: Option<String>)
    ensures
        opt_text(r) == first_found(found@),
{
    let mut k: usize = 0;
    assert(found@.skip(0) =~= found@);
    while k < found.len()
        invariant
            k <= found.len(),
            first_found(found@) == first_found(found@.skip(k as int)),
        decreases found.len() - k,
    {
        assert(found@.skip(k as int).drop_first() =~= found@.skip(k + 1));
        assert(found@.skip(k as int)[0] == found@[k as int]);
        match &found[k] {
            Some(u) => {
                return Some(u.clone());
            },
            None => {},
        }
        k = k + 1;
    }
    None
}

/// The covers of many games. For each game, `found[i]` holds, for each file name of
/// `cover_candidates` in order, the cover as a data URI when that file could be read; the
/// first one read is the game's cover, and games with none are left out.
pub fn read_covers_batch(game_ids: &Vec<String>, found: &Vec<Vec<Option<String>>>) -> (covers: Vec<
    (String, String),
>)
    requires
        found.len() == game_ids.len(),
    ensures
        Seq::new(covers.len() as nat, |k: int| (covers[k].0@, covers[k].1@)) == covers_of(
            game_ids@,
            found@,
        ),
{
    let mut covers: Vec<(String, String)> = Vec::new();
    let mut i: usize = 0;
    while i < game_ids.len()
        invariant
            i <= game_ids.len(),
            found.len() == game_ids.len(),
            Seq::new(covers.len() as nat, |k: int| (covers[k].0@, covers[k].1@)) == covers_of(
                game_ids@.take(i as int),
                found@.take(i as int),
            ),
        decreases game_ids.len() - i,
    {
        proof {
            assert(game_ids@.take(i + 1).drop_last() =~= game_ids@.take(i as int));
            assert(found@.take(i + 1).drop_last() =~= found@.take(i as int));
        }
        let ghost before = Seq::new(covers.len() as nat, |k: int| (covers[k].0@, covers[k].1@));
        match first_readable(&found[i]) {
            Some(u) => {
                let ghost uv = u@;
                covers.push((game_ids[i].clone(), u));
                assert(Seq::new(covers.len() as nat, |k: int| (covers[k].0@, covers[k].1@))
                    =~= before.push((game_ids@[i as int]@, uv)));
            },
            None => {},
        }
        i = i + 1;
    }
    assert(game_ids@.take(game_ids.len() as int) =~= game_ids@);
    assert(found@.take(found.len() as int) =~= found@);
    covers
}

} // verus!
