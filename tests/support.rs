use naviz::formats::{FileFilter, FileType, IdOrManual, ImportFormat};
use naviz::location::{byte_offset_to_line_column, ErrorLocation};
use naviz::repository::{Repository, RepositoryEntry};
use naviz::separated::SeparatedDisplay;
use naviz::ui::{Alignment, EmptyCanvas, ExportSettings, HAlignment, MenuConfig, VAlignment};

#[test]
fn import_format_names() {
    assert_eq!(ImportFormat::MQTNA.name(), "mqt na");
    assert_eq!(ImportFormat::MQTNA.file_extensions(), vec!["na"]);
    assert_eq!(FileFilter::extensions(&ImportFormat::MQTNA), vec!["na"]);
    assert_eq!(FileType::Machine.name(), "NAViz machine");
    assert_eq!(FileType::Style.extensions(), vec!["nastyle"]);
    assert_eq!(FileType::Instructions.extensions(), vec!["naviz"]);
    let choice: IdOrManual<&str, &[u8]> = IdOrManual::Id("m");
    assert!(matches!(choice, IdOrManual::Id("m")));
}

#[test]
fn offsets_to_lines_and_columns() {
    assert_eq!(byte_offset_to_line_column("ab\ncd", 0), (1, 1));
    assert_eq!(byte_offset_to_line_column("ab\ncd", 2), (1, 3));
    assert_eq!(byte_offset_to_line_column("ab\ncd", 4), (2, 2));
    assert_eq!(byte_offset_to_line_column("ab\ncd", 100), (2, 3));
    // a multi-byte character counts as one column
    assert_eq!(byte_offset_to_line_column("\u{e9}\nx", 4), (2, 2));
    assert_eq!(byte_offset_to_line_column("\u{e9}x", 1), (1, 2));
    let location = ErrorLocation::from_offset("a\nb\nc", 4);
    assert_eq!((location.line, location.column, location.offset), (3, 1, 4));
}

#[test]
fn export_settings_reset_on_show() {
    let mut settings: ExportSettings = Default::default();
    assert_eq!(settings.resolution(), (1920, 1080));
    assert_eq!(settings.fps(), 30);
    assert!(!settings.is_shown());
    settings.set((640, 480), 60);
    assert_eq!(settings.resolution(), (640, 480));
    settings.show();
    assert!(settings.is_shown());
    assert_eq!(settings.resolution(), (1920, 1080));
    assert_eq!(settings.fps(), 30);
    assert!(!settings.confirm(false));
    assert!(settings.is_shown());
    assert!(settings.confirm(true));
    assert!(!settings.is_shown());
    assert_eq!(EmptyCanvas::new(), EmptyCanvas {});
    assert!(MenuConfig { export: true }.export);
    let alignment: Alignment = Default::default();
    assert_eq!(alignment, Alignment(HAlignment::Center, VAlignment::Center));
}

#[test]
fn separated_display_separators() {
    let values = [1, 2, 3];
    let comma = SeparatedDisplay::comma(&values);
    assert_eq!(comma.0, ", ");
    assert_eq!(comma.1, &[1, 2, 3]);
    assert_eq!(SeparatedDisplay::newline(&values).0, "\n");
}

#[test]
fn repository_entries_by_id() {
    let mut repository = Repository::empty();
    assert!(!repository.has(&"m".to_string()));
    assert!(repository.list().is_empty());
    repository.insert_results(vec![
        RepositoryEntry::new_with_id("m".to_string(), "Machine M".to_string(), vec![1, 2]),
        RepositoryEntry::new_with_id("n".to_string(), "Machine N".to_string(), vec![3]),
        RepositoryEntry::new_with_id("m".to_string(), "Machine M2".to_string(), vec![4]),
    ]);
    assert!(repository.has(&"m".to_string()));
    assert!(repository.has(&"n".to_string()));
    assert!(!repository.has(&"o".to_string()));
    assert_eq!(repository.get_raw(&"m".to_string()), Some(&[4u8][..]));
    assert_eq!(repository.get_raw(&"o".to_string()), None);
    assert_eq!(
        repository.list(),
        vec![
            ("m".to_string(), "Machine M2".to_string()),
            ("n".to_string(), "Machine N".to_string()),
        ]
    );
    let entry = RepositoryEntry::new("Style".to_string(), vec![9]);
    assert_eq!(entry.name(), "Style");
    assert_eq!(entry.contents(), &[9]);
}
