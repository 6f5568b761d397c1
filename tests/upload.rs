use v5d::upload::{
    choose_layout, device_slot, program_texts, validate_pin, AfterUpload, Layout, ProgramIcon,
};

#[test]
fn icon_file_names() {
    assert_eq!(ProgramIcon::QuestionMark.file_name(), "USER002x.bmp");
    assert_eq!(ProgramIcon::Clawbot.file_name(), "USER010x.bmp");
    assert_eq!(ProgramIcon::VexcodeCpp.file_name(), "USER926x.bmp");
    assert_eq!(ProgramIcon::VexCodingStudio.file_name(), "USER000x.bmp");
    assert_eq!(ProgramIcon::default(), ProgramIcon::QuestionMark);
    assert_eq!(ProgramIcon::RobotMeshJS.code(), 914);
}

#[test]
fn after_upload_codes() {
    assert_eq!(AfterUpload::default(), AfterUpload::DoNothing);
    assert_eq!(AfterUpload::DoNothing.exit_action(), 0);
    assert_eq!(AfterUpload::Run.exit_action(), 1);
    assert_eq!(AfterUpload::ShowScreen.exit_action(), 3);
}

#[test]
fn pins() {
    assert_eq!(validate_pin("1234"), Ok([1, 2, 3, 4]));
    assert_eq!(validate_pin("0090"), Ok([0, 0, 9, 0]));
    assert_eq!(validate_pin("123"), Err("Must be exactly 4 characters".to_string()));
    assert_eq!(validate_pin("12345"), Err("Must be exactly 4 characters".to_string()));
    assert_eq!(validate_pin("12a4"), Err("Must contain only numeric digits".to_string()));
    assert_eq!(validate_pin("\u{e9}\u{e9}"), Err("Must contain only numeric digits".to_string()));
}

#[test]
fn slots_count_from_one() {
    assert_eq!(device_slot(1), Some(0));
    assert_eq!(device_slot(8), Some(7));
    assert_eq!(device_slot(0), None);
}

#[test]
fn layouts() {
    assert_eq!(choose_layout(true, false, false), Some(Layout::Monolith));
    assert_eq!(choose_layout(false, true, false), Some(Layout::HotOnly));
    assert_eq!(choose_layout(false, false, true), Some(Layout::ColdOnly));
    assert_eq!(choose_layout(false, true, true), Some(Layout::HotAndCold));
    assert_eq!(choose_layout(true, true, false), None);
    assert_eq!(choose_layout(false, false, false), None);
}

#[test]
fn texts_defaults() {
    let (n, d, t) = program_texts(None, "robot".to_string(), None, None);
    assert_eq!(n, "robot");
    assert_eq!(d, "Uploaded with v5d");
    assert_eq!(t, "Unknown");
    let (n, d, t) = program_texts(Some("x".to_string()), "robot".to_string(), Some("y".to_string()), Some("z".to_string()));
    assert_eq!((n.as_str(), d.as_str(), t.as_str()), ("x", "y", "z"));
}
