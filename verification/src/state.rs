use vstd::prelude::*;
use vstd::string::*;

use crate::common::SaveError;
use crate::map::MapEntity;

verus! {

/// The level of a log message.
#[derive(Debug, Clone, Copy, PartialEq, Eq, Structural)]
pub enum LogLevel {
    Error,
    Warn,
    Info,
    Debug,
    Trace,
}

impl LogLevel {
    /// Whether a message of this level is printed to the console: all but trace ones.
    pub fn is_printed(&self) -> (b: bool)
        ensures
            b == !(*self is Trace),
    {
        match self {
            LogLevel::Trace => false,
            _ => true,
        }
    }
}

/// A message of the log.
#[derive(Debug)]
pub struct LogMessage {
    pub level: LogLevel,
    pub message: String,
}

impl LogMessage {
    pub fn new(level: LogLevel, msg: String) -> (r: Self)
        ensures
            r.level == level,
            r.message == msg,
    {
        Self { level, message: msg }
    }

    pub fn info(msg: String) -> (r: Self)
        ensures
            r.level == LogLevel::Info,
            r.message == msg,
    {
        Self { level: LogLevel::Info, message: msg }
    }

    pub fn warning(msg: String) -> (r: Self)
        ensures
            r.level == LogLevel::Warn,
            r.message == msg,
    {
        Self { level: LogLevel::Warn, message: msg }
    }

    pub fn error(msg: String) -> (r: Self)
        ensures
            r.level == LogLevel::Error,
            r.message == msg,
    {
        Self { level: LogLevel::Error, message: msg }
    }
}

/// A log that keeps its messages until it is flushed.
#[derive(Debug)]
pub struct BufferedLogger {
    pub log_queue: Vec<LogMessage>,
}

impl BufferedLogger {
    pub fn new() -> (r: Self)
        ensures
            r.log_queue@.len() == 0,
    {
        Self { log_queue: Vec::new() }
    }

    /// Keeps a message, after those kept before.
    pub fn log(&mut self, level: LogLevel, message: String)
        ensures
            final(self).log_queue@ == old(self).log_queue@.push(LogMessage { level, message }),
    {
        self.log_queue.push(LogMessage::new(level, message));
    }

    /// Drops all kept messages.
    pub fn flush(&mut self)
        ensures
            final(self).log_queue@.len() == 0,
    {
        self.log_queue = Vec::new();
    }
}

/// Which menus are open.
#[derive(Debug, Clone, Copy, Default)]
pub struct Menus {
    pub is_settings_menu_open: bool,
    pub is_create_project_menu_open: bool,
}

/// Whether a project is open.
#[derive(Debug, Clone, Copy, PartialEq, Eq, Structural)]
pub enum ProgramState {
    ProjectOpen,
    NoneOpen,
}

impl Default for ProgramState {
    fn default() -> (r: Self)
        ensures
            r == ProgramState::NoneOpen,
    {
        ProgramState::NoneOpen
    }
}

/// The project shown in a tab.
#[derive(Debug, Clone, Copy)]
pub struct OpenedProject {
    pub index: usize,
}

/// Where a project was saved.
#[derive(Debug)]
pub enum ProjectSaveState {
    /// Saved by the user, at this path.
    Saved(String),
    /// Saved automatically, at this path.
    AutoSaved(String),
    /// Not saved.
    NotSaved,
}

impl Default for ProjectSaveState {
    fn default() -> (r: Self)
        ensures
            r is NotSaved,
    {
        ProjectSaveState::NotSaved
    }
}

/// A request to open the project at an index.
#[derive(Debug, Clone, Copy)]
pub struct OpenProjectAtIndex {
    pub index: u32,
}

/// A request to close the current project.
#[derive(Debug, Clone, Copy)]
pub struct CloseProject {}

/// A map being edited, with where it was saved.
#[derive(Debug)]
pub struct Project {
    pub name: String,
    pub map_entity: MapEntity,
    pub save_state: ProjectSaveState,
}

/// The file that a project was saved to, by the user or automatically.
pub open spec fn saved_path(state: ProjectSaveState) -> Option<Seq<char>> {
    match state {
        ProjectSaveState::Saved(p) => Some(p@),
        ProjectSaveState::AutoSaved(p) => Some(p@),
        ProjectSaveState::NotSaved => None,
    }
}

/// Whether a project file is open already, so that it is not opened a second time:
/// some open project was saved, by the user or automatically, at `path`.
pub fn already_open(projects: &Vec<Project>, path: &String) -> (b: bool)
    ensures
        b <==> exists|i: int|
            0 <= i < projects@.len() && #[trigger] saved_path(projects@[i].save_state)
                == Some(path@),
{
    let mut i: usize = 0;
    while i < projects.len()
        invariant
            i <= projects@.len(),
            forall|j: int| 0 <= j < i ==> #[trigger] saved_path(projects@[j].save_state) != Some(path@),
        decreases projects@.len() - i,
    {
        let found = match &projects[i].save_state {
            ProjectSaveState::Saved(p) => *p == *path,
            ProjectSaveState::AutoSaved(p) => *p == *path,
            ProjectSaveState::NotSaved => false,
        };
        if found {
            assert(saved_path(projects@[i as int].save_state) == Some(path@));
            return true;
        }
        i = i + 1;
    }
    false
}

/// The name of the file that a map is saved to automatically.
pub open spec fn auto_save_name(map_name: Seq<char>) -> Seq<char> {
    "auto_save_"@ + map_name + ".map"@
}

/// The name of the file that a map is saved to automatically:
/// `auto_save_{name}.map`.
pub fn auto_save_file_name(map_name: &str) -> (r: String)
    ensures
        r@ == auto_save_name(map_name@),
{
    let mut r = String::from_str("auto_save_");
    r.append(map_name);
    r.append(".map");
    r
}

/// Saves projects into a directory.
#[derive(Debug)]
pub struct ProjectSaver {
    pub directory: String,
}

impl ProjectSaver {
    /// A saver for `directory`, which must exist (`exists` says whether it does).
    pub fn new(directory: String, exists: bool) -> (r: Result<Self, SaveError>)
        ensures
            exists ==> (r matches Ok(s) && s.directory == directory),
            !exists ==> (r matches Err(SaveError::DirectoryNotFound(d)) && d == directory),
    {
        if !exists {
            return Err(SaveError::DirectoryNotFound(directory));
        }
        Ok(Self { directory })
    }

    /// The name of the file that a project with this map is saved to.
    pub fn file_name(&self, om_terrain: &str) -> (r: String)
        ensures
            r@ == auto_save_name(om_terrain@),
    {
        auto_save_file_name(om_terrain)
    }
}

/// Loads the automatic save of a map.
#[derive(Debug)]
pub struct ProjectAutoSaveLoader {
    pub directory: String,
    pub map_name: String,
}

impl ProjectAutoSaveLoader {
    /// The name of the file the automatic save is read from.
    pub fn file_name(&self) -> (r: String)
        ensures
            r@ == auto_save_name(self.map_name@),
    {
        auto_save_file_name(self.map_name.as_str())
    }
}

/// Saves the list of open projects of the editor.
#[derive(Debug)]
pub struct EditorDataSaver;

impl EditorDataSaver {
    pub fn new() -> (r: Self) {
        EditorDataSaver
    }
}

/// What saving the editor data does with an open project: keep where it was saved,
/// or save it automatically to a file of this name first.
#[derive(Debug)]
pub enum SaveStep {
    Keep,
    AutoSave(String),
}

/// What saving the editor data does with an open project: a saved one is kept; an
/// unsaved one is saved automatically under the name of its map (`NESTED_TODO` for a
/// nested map). None for an unsaved map shared by several terrains, which cannot be
/// saved yet.
pub fn save_step(state: &ProjectSaveState, entity: &MapEntity) -> (r: Option<SaveStep>)
    ensures
        !(*state is NotSaved) ==> r matches Some(SaveStep::Keep),
        *state is NotSaved ==> match entity {
            MapEntity::Single(s) => (r matches Some(SaveStep::AutoSave(n)) && n@ == auto_save_name(
                s.om_terrain@,
            )),
            MapEntity::Multi(_) => r is None,
            MapEntity::Nested(_) => (r matches Some(SaveStep::AutoSave(n)) && n@ == auto_save_name(
                "NESTED_TODO"@,
            )),
        },
{
    match state {
        ProjectSaveState::NotSaved => match entity {
            MapEntity::Single(s) => Some(SaveStep::AutoSave(auto_save_file_name(s.om_terrain.as_str()))),
            MapEntity::Multi(_) => None,
            MapEntity::Nested(_) => Some(SaveStep::AutoSave(auto_save_file_name("NESTED_TODO"))),
        },
        _ => Some(SaveStep::Keep),
    }
}

/// What reopening a project of the last session gives.
#[derive(Debug, Clone, Copy, PartialEq, Eq, Structural)]
pub enum Reopen {
    /// The project read from its file.
    FromFile,
    /// An empty project.
    Empty,
    /// No project.
    Skip,
}

/// What reopening a project gives, from where it was saved and whether its file could
/// be read: a saved project that cannot be read is dropped, an automatically saved
/// one becomes an empty project, an unsaved one is dropped.
pub fn reopen(state: &ProjectSaveState, readable: bool) -> (r: Reopen)
    ensures
        r == match state {
            ProjectSaveState::Saved(_) => if readable {
                Reopen::FromFile
            } else {
                Reopen::Skip
            },
            ProjectSaveState::AutoSaved(_) => if readable {
                Reopen::FromFile
            } else {
                Reopen::Empty
            },
            ProjectSaveState::NotSaved => Reopen::Skip,
        },
{
    match state {
        ProjectSaveState::Saved(_) => if readable {
            Reopen::FromFile
        } else {
            Reopen::Skip
        },
        ProjectSaveState::AutoSaved(_) => if readable {
            Reopen::FromFile
        } else {
            Reopen::Empty
        },
        ProjectSaveState::NotSaved => Reopen::Skip,
    }
}

/// A sprite that changes at most once every `cooldown` seconds.
#[derive(Debug, Clone, Copy)]
pub struct Animated {
    pub cooldown: u16,
    pub last_update: u64,
}

impl Animated {
    /// Whether the sprite changes at time `now` (in seconds): once `cooldown` seconds
    /// have passed since its last change.
    pub fn is_due(&self, now: u64) -> (b: bool)
        requires
            now >= self.last_update,
        ensures
            b == (now - self.last_update >= self.cooldown),
    {
        !(now - self.last_update < self.cooldown as u64)
    }
}

/// The open projects of the editor and which one is shown.
#[derive(Debug)]
pub struct EditorData {
    pub current_project_index: Option<u32>,
    pub projects: Vec<Project>,
    pub history: Vec<ProjectSaveState>,
    pub menus: Menus,
}

impl EditorData {
    /// No project open.
    pub fn new() -> (r: Self)
        ensures
            r.current_project_index is None,
            r.projects@.len() == 0,
            r.history@.len() == 0,
            !r.menus.is_settings_menu_open,
            !r.menus.is_create_project_menu_open,
    {
        EditorData {
            current_project_index: None,
            projects: Vec::new(),
            history: Vec::new(),
            menus: Menus { is_settings_menu_open: false, is_create_project_menu_open: false },
        }
    }

    /// The project shown, if any.
    pub fn get_current_project(&self) -> (r: Option<&Project>)
        ensures
            r == match self.current_project_index {
                None => None,
                Some(i) => if i < self.projects@.len() {
                    Some(&self.projects@[i as int])
                } else {
                    None
                },
            },
    {
        match self.current_project_index {
            None => None,
            Some(i) => {
                if (i as usize) < self.projects.len() {
                    Some(&self.projects[i as usize])
                } else {
                    None
                }
            },
        }
    }

    /// Shows the project at `index`, which must be open.
    pub fn switch_project(&mut self, index: u32)
        requires
            index < old(self).projects@.len(),
        ensures
            final(self).current_project_index == Some(index),
            final(self).projects == old(self).projects,
            final(self).history == old(self).history,
    {
        self.current_project_index = Some(index);
    }
}

/// The directory of the mapgen palettes of a CDDA directory.
pub open spec fn palettes_dir(cdda_dir: Seq<char>) -> Seq<char> {
    cdda_dir + "/data/json/mapgen_palettes"@
}

/// The directory that the palettes are loaded from when a CDDA directory is chosen:
/// `{cdda_dir}/data/json/mapgen_palettes`.
pub fn mapgen_palettes_dir(cdda_dir: &str) -> (r: String)
    ensures
        r@ == palettes_dir(cdda_dir@),
{
    let mut r = String::from_str(cdda_dir);
    r.append("/data/json/mapgen_palettes");
    r
}

} // verus!
