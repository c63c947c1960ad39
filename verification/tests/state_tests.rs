use cdda_map_editor::common::SaveError;
use cdda_map_editor::map::MapEntity;
use cdda_map_editor::settings::Settings;
use cdda_map_editor::state::mapgen_palettes_dir;
use cdda_map_editor::state::{
    already_open, auto_save_file_name, reopen, save_step, Animated, BufferedLogger, EditorDataSaver, LogLevel, LogMessage,
    ProgramState, ProjectAutoSaveLoader, Project, ProjectSaveState, ProjectSaver, Reopen, SaveStep,
};

#[test]
fn log_messages_carry_their_level() {
    let m = LogMessage::info("a".to_string());
    assert_eq!((m.level, m.message.as_str()), (LogLevel::Info, "a"));
    assert_eq!(LogMessage::warning("w".to_string()).level, LogLevel::Warn);
    assert_eq!(LogMessage::error("e".to_string()).level, LogLevel::Error);
    assert_eq!(LogMessage::new(LogLevel::Debug, "d".to_string()).level, LogLevel::Debug);
    assert!(LogLevel::Error.is_printed());
    assert!(!LogLevel::Trace.is_printed());
}

#[test]
fn buffered_logger_keeps_messages_until_flushed() {
    let mut logger = BufferedLogger::new();
    assert!(logger.log_queue.is_empty());
    logger.log(LogLevel::Info, "one".to_string());
    logger.log(LogLevel::Warn, "two".to_string());
    assert_eq!(logger.log_queue.len(), 2);
    assert_eq!(logger.log_queue[1].message, "two");
    logger.flush();
    assert!(logger.log_queue.is_empty());
}

#[test]
fn auto_save_files_are_named_after_the_map() {
    assert_eq!(auto_save_file_name("house"), "auto_save_house.map");
    let loader = ProjectAutoSaveLoader { directory: "d".to_string(), map_name: "field".to_string() };
    assert_eq!(loader.file_name(), "auto_save_field.map");
}

#[test]
fn project_saver_needs_an_existing_directory() {
    match ProjectSaver::new("/saves".to_string(), false) {
        Err(SaveError::DirectoryNotFound(d)) => assert_eq!(d, "/saves"),
        _ => panic!("expected an error"),
    }
    let saver = ProjectSaver::new("/saves".to_string(), true).unwrap();
    assert_eq!(saver.directory, "/saves");
    assert_eq!(saver.file_name("x"), "auto_save_x.map");
    let _ = EditorDataSaver::new();
}

#[test]
fn saving_the_editor_auto_saves_unsaved_projects() {
    let single = MapEntity::new("house".to_string());
    match save_step(&ProjectSaveState::NotSaved, &single) {
        Some(SaveStep::AutoSave(n)) => assert_eq!(n, "auto_save_house.map"),
        _ => panic!("expected an auto save"),
    }
    assert!(matches!(save_step(&ProjectSaveState::Saved("p".to_string()), &single), Some(SaveStep::Keep)));
    assert!(matches!(save_step(&ProjectSaveState::AutoSaved("p".to_string()), &single), Some(SaveStep::Keep)));
}

#[test]
fn reopening_projects_depends_on_how_they_were_saved() {
    let saved = ProjectSaveState::Saved("p".to_string());
    let auto = ProjectSaveState::AutoSaved("p".to_string());
    assert_eq!(reopen(&saved, true), Reopen::FromFile);
    assert_eq!(reopen(&saved, false), Reopen::Skip);
    assert_eq!(reopen(&auto, true), Reopen::FromFile);
    assert_eq!(reopen(&auto, false), Reopen::Empty);
    assert_eq!(reopen(&ProjectSaveState::NotSaved, true), Reopen::Skip);
    assert!(matches!(ProjectSaveState::default(), ProjectSaveState::NotSaved));
    assert_eq!(ProgramState::default(), ProgramState::NoneOpen);
}

#[test]
fn animations_wait_for_their_cooldown() {
    let a = Animated { cooldown: 2, last_update: 10 };
    assert!(!a.is_due(10));
    assert!(!a.is_due(11));
    assert!(a.is_due(12));
    assert!(a.is_due(100));
}

#[test]
fn settings_directories_are_under_the_cdda_directory() {
    let mut s = Settings::default();
    assert!(s.data_json_dir().is_none());
    assert!(s.gfx_dir().is_none());
    assert!(s.selectable_tilesets.is_empty());
    s.selected_cdda_dir = Some("/games/cdda".to_string());
    let expected_gfx = std::path::Path::new("/games/cdda").join("gfx").to_string_lossy().into_owned();
    assert_eq!(s.gfx_dir().unwrap(), expected_gfx);
    let json = s.data_json_dir().unwrap();
    assert!(json.starts_with("/games/cdda"));
    assert!(json.ends_with("data\\json"));
}

#[test]
fn palettes_are_read_from_the_mapgen_palettes_directory() {
    assert_eq!(mapgen_palettes_dir("/games/cdda"), "/games/cdda/data/json/mapgen_palettes");
}

#[test]
fn directories_join_with_one_separator() {
    let mut s = Settings::default();
    s.selected_cdda_dir = Some("/cdda".to_string());
    assert_eq!(s.gfx_dir().unwrap(), "/cdda/gfx");
    s.selected_cdda_dir = Some("/cdda/".to_string());
    assert_eq!(s.gfx_dir().unwrap(), "/cdda/gfx");
    s.selected_cdda_dir = Some("".to_string());
    assert_eq!(s.gfx_dir().unwrap(), "gfx");
    assert_eq!(s.data_json_dir().unwrap(), "data\\json");
}

#[test]
fn a_project_file_is_opened_only_once() {
    let project = |name: &str, save_state: ProjectSaveState| Project {
        name: name.to_string(),
        map_entity: MapEntity::new(name.to_string()),
        save_state,
    };
    let projects = vec![
        project("a", ProjectSaveState::NotSaved),
        project("b", ProjectSaveState::Saved("/maps/b.map".to_string())),
        project("c", ProjectSaveState::AutoSaved("/maps/auto_save_c.map".to_string())),
    ];
    assert!(already_open(&projects, &"/maps/b.map".to_string()));
    assert!(already_open(&projects, &"/maps/auto_save_c.map".to_string()));
    assert!(!already_open(&projects, &"/maps/a.map".to_string()));
    assert!(!already_open(&Vec::new(), &"/maps/b.map".to_string()));
}

#[test]
fn directories_under_a_path_with_a_colon_join_as_usual() {
    let mut s = Settings::default();
    s.selected_cdda_dir = Some("/games/c:dda".to_string());
    assert_eq!(s.gfx_dir().unwrap(), "/games/c:dda/gfx");
}
