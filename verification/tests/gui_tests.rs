use pico_cover_gb::gui::{decimal, job_start_messages, rom_report_messages, GuiApp, GuiMessage};
use pico_cover_gb::utils::DriveInfo;

fn drive(path: &str, has_pico: bool) -> DriveInfo {
    DriveInfo { path: path.to_string(), has_pico }
}

#[test]
fn new_window_defaults() {
    let app = GuiApp::new(vec![]);
    assert!(!app.overwrite());
    assert_eq!(app.regions(), "EN,US,JP,EU");
    assert_eq!(app.output_format(), "png");
    assert!(!app.processing());
    assert!(app.logs().is_empty());
    assert_eq!(app.progress(), (0, 0));
    assert_eq!(app.selected_drive(), 0);
    assert!(!app.can_start());
}

#[test]
fn new_selects_first_pico_drive() {
    let app = GuiApp::new(vec![drive("C:\\", false), drive("E:\\", true), drive("F:\\", true)]);
    assert_eq!(app.selected_drive(), 1);
    let none = GuiApp::new(vec![drive("C:\\", false), drive("D:\\", false)]);
    assert_eq!(none.selected_drive(), 0);
}

#[test]
fn add_log_appends() {
    let mut app = GuiApp::new(vec![]);
    app.add_log("one".to_string());
    app.add_log("two".to_string());
    assert_eq!(app.logs(), &vec!["one".to_string(), "two".to_string()]);
}

#[test]
fn refresh_keeps_valid_selection() {
    let mut app = GuiApp::new(vec![drive("C:\\", false), drive("E:\\", true)]);
    app.refresh_drives(vec![drive("X:\\", true), drive("Y:\\", true), drive("Z:\\", true)]);
    assert_eq!(app.selected_drive(), 1);
    assert_eq!(app.drives().len(), 3);
}

#[test]
fn refresh_resets_stale_selection() {
    let mut app = GuiApp::new(vec![drive("C:\\", false), drive("D:\\", false), drive("E:\\", true)]);
    assert_eq!(app.selected_drive(), 2);
    app.refresh_drives(vec![drive("E:\\", true)]);
    assert_eq!(app.selected_drive(), 0);
    app.refresh_drives(vec![]);
    assert_eq!(app.selected_drive(), 0);
}

#[test]
fn select_drive_in_range_only() {
    let mut app = GuiApp::new(vec![drive("E:\\", true), drive("F:\\", true)]);
    app.select_drive(1);
    assert_eq!(app.selected_drive(), 1);
    app.select_drive(5);
    assert_eq!(app.selected_drive(), 1);
}

#[test]
fn start_without_drives_logs() {
    let mut app = GuiApp::new(vec![]);
    assert!(app.start_processing().is_none());
    assert_eq!(
        app.logs(),
        &vec!["No drives detected. Please insert a micro SD card and refresh.".to_string()]
    );
    assert!(!app.processing());
}

#[test]
fn start_builds_job() {
    let mut app = GuiApp::new(vec![drive("C:\\", false), drive("E:\\", true)]);
    app.add_log("old".to_string());
    app.set_overwrite(true);
    app.set_regions(" US , JP".to_string());
    app.set_output_format("bmp".to_string());
    let job = app.start_processing().expect("a job");
    assert_eq!(job.drive_path, "E:\\");
    assert!(job.overwrite);
    assert_eq!(job.regions, vec!["US".to_string(), "JP".to_string()]);
    assert_eq!(job.output_format, "bmp");
    assert!(app.processing());
    assert!(app.logs().is_empty());
    assert_eq!(app.progress(), (0, 0));
    assert!(!app.can_start());
}

#[test]
fn messages_update_state() {
    let mut app = GuiApp::new(vec![drive("E:\\", true)]);
    app.start_processing();
    app.apply_message(GuiMessage::Log("Found 3 ROMs".to_string()));
    app.apply_message(GuiMessage::Progress(2, 3));
    assert_eq!(app.progress(), (2, 3));
    assert!(app.processing());
    app.apply_message(GuiMessage::Done);
    assert!(!app.processing());
    assert_eq!(app.logs(), &vec!["Found 3 ROMs".to_string(), "Processing complete.".to_string()]);
    assert!(app.can_start());
}

#[test]
fn decimal_numerals() {
    assert_eq!(decimal(0), "0");
    assert_eq!(decimal(7), "7");
    assert_eq!(decimal(10), "10");
    assert_eq!(decimal(12345), "12345");
    assert_eq!(decimal(usize::MAX), usize::MAX.to_string());
}

#[test]
fn job_start_reports() {
    assert_eq!(
        job_start_messages("E:\\", 42),
        vec![
            GuiMessage::Log("Scanning drive: E:\\".to_string()),
            GuiMessage::Log("Found 42 ROMs".to_string()),
            GuiMessage::Progress(0, 42),
        ]
    );
}

#[test]
fn rom_reports() {
    assert_eq!(
        rom_report_messages(0, 3, Ok("Saved x".to_string())),
        vec![GuiMessage::Log("Saved x".to_string()), GuiMessage::Progress(1, 3)]
    );
    assert_eq!(
        rom_report_messages(2, 3, Err("No GBA ID".to_string())),
        vec![GuiMessage::Log("Error: No GBA ID".to_string()), GuiMessage::Progress(3, 3)]
    );
}
