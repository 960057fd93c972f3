use metadata::date::Date;
use metadata::version::Version;
use metadata::edit::{
    edit_authors, step_authors_row, step_date_row, step_text_row, step_version_row, toggle,
    write_date, write_version, AuthorEdit, AuthorsEdit, FormInput, RowEvent, TextEdit,
    VersionEdit,
};
use metadata::row::{Cell, Field, Row};
use metadata::widget::MetadataWidget;
use metadata::{Metadata, AUTHORS, DATE, DESCRIPTION, NAME, VERSION};

fn s(text: &str) -> String {
    text.to_owned()
}

fn map(entries: &[(&str, &str)]) -> Metadata {
    let mut m = Metadata::new();
    for (key, value) in entries {
        m.insert(s(key), s(value));
    }
    m
}

fn idle() -> FormInput {
    FormInput {
        name: RowEvent::Idle,
        description: RowEvent::Idle,
        authors: RowEvent::Idle,
        version: RowEvent::Idle,
        date: RowEvent::Idle,
    }
}

fn author(text: &str) -> AuthorEdit {
    AuthorEdit { text: s(text), changed: false, lost_focus: false, removed: false }
}

fn label(field: Field, text: &str) -> Row {
    Row { field, cell: Cell::Label(s(text)) }
}

#[test]
fn fields_have_keys_and_labels() {
    assert_eq!(Field::Name.key(), NAME);
    assert_eq!(Field::Description.key(), DESCRIPTION);
    assert_eq!(Field::Authors.key(), AUTHORS);
    assert_eq!(Field::Version.key(), VERSION);
    assert_eq!(Field::Date.key(), DATE);
    assert_eq!(Field::Name.label(), "Name");
    assert_eq!(Field::Description.label(), "Description");
    assert_eq!(Field::Authors.label(), "Authors");
    assert_eq!(Field::Version.label(), "Version");
    assert_eq!(Field::Date.label(), "Date");
    assert!(Field::Description.truncates());
    assert!(!Field::Name.truncates());
}

#[test]
fn read_only_form_shows_the_set_fields_in_order() {
    let m = map(&[(VERSION, "1.0.0"), (NAME, "Foo"), ("other", "x"), (AUTHORS, "Ada,Grace")]);
    let rows = MetadataWidget::new(&m).show();
    assert_eq!(
        rows,
        vec![
            label(Field::Name, "Foo"),
            label(Field::Authors, "Ada,Grace"),
            label(Field::Version, "1.0.0"),
        ]
    );
    assert_eq!(MetadataWidget::new(&m).readable(), rows);
    assert_eq!(MetadataWidget::new(&Metadata::new()).show(), vec![]);
}

#[test]
fn a_form_is_read_only_until_told_otherwise() {
    let mut m = map(&[(NAME, " Foo ")]);
    let before = m.clone();
    let mut input = idle();
    input.name = RowEvent::Edited(TextEdit { text: s("Bar"), lost_focus: true });
    let shown = MetadataWidget::new(&mut m).show(&input);
    assert!(!shown.editable);
    assert_eq!(shown.rows, vec![label(Field::Name, " Foo ")]);
    assert!(shown.diagnostics.is_empty());
    assert_eq!(m, before);
}

#[test]
fn hidden_rows_are_neither_shown_nor_edited() {
    let mut m = map(&[(NAME, "Foo"), (DESCRIPTION, "text"), (DATE, "bad")]);
    let mut input = idle();
    input.name = RowEvent::Toggled(false);
    input.description = RowEvent::Edited(TextEdit { text: s("new"), lost_focus: false });
    let shown = MetadataWidget::new(&mut m)
        .with_writable(true)
        .with_name(false)
        .with_authors(false)
        .with_version(false)
        .with_date(false)
        .show(&input);
    assert_eq!(shown.rows, vec![Row { field: Field::Description, cell: Cell::Text(s("new")) }]);
    assert!(shown.diagnostics.is_empty());
    assert_eq!(m, map(&[(NAME, "Foo"), (DESCRIPTION, "new"), (DATE, "bad")]));
    let rows = MetadataWidget::new(&mut m).with_description(false).show(&idle()).rows;
    assert_eq!(rows, vec![label(Field::Name, "Foo"), label(Field::Date, "bad")]);
}

#[test]
fn writable_form_presents_an_editor_for_each_row() {
    let mut m =
        map(&[(NAME, "Foo"), (AUTHORS, "Ada,Grace"), (VERSION, "1.2.3"), (DATE, "2024-05-01")]);
    let shown = MetadataWidget::new(&mut m).with_writable(true).show(&idle());
    assert!(shown.editable);
    assert_eq!(idle(), FormInput::default());
    assert_eq!(
        shown.rows,
        vec![
            Row { field: Field::Name, cell: Cell::Text(s("Foo")) },
            Row { field: Field::Description, cell: Cell::Unset },
            Row { field: Field::Authors, cell: Cell::Authors(vec![s("Ada"), s("Grace")]) },
            Row { field: Field::Version, cell: Cell::Version(Version::new(1, 2, 3)) },
            Row { field: Field::Date, cell: Cell::Date(Date::from_ymd(2024, 5, 1).unwrap()) },
        ]
    );
    assert!(shown.diagnostics.is_empty());
    assert_eq!(m.len(), 4);
}

#[test]
fn writable_is_what_show_does_for_a_writable_form() {
    let mut a = map(&[(NAME, "x")]);
    let mut b = a.clone();
    let mut input = idle();
    input.description = RowEvent::Toggled(true);
    let first = MetadataWidget::new(&mut a).with_writable(true).show(&input);
    let second = MetadataWidget::new(&mut b).writable(&input);
    assert_eq!(first.rows, second.rows);
    assert_eq!(a, b);
    assert_eq!(a, map(&[(NAME, "x"), (DESCRIPTION, "")]));
}

#[test]
fn toggle_sets_to_empty_and_unsets() {
    let mut m = Metadata::new();
    toggle(&mut m, NAME, true);
    assert_eq!(m, map(&[(NAME, "")]));
    m.insert(s(NAME), s("Foo"));
    toggle(&mut m, NAME, true);
    assert_eq!(m, map(&[(NAME, "Foo")]));
    toggle(&mut m, NAME, false);
    assert!(m.is_empty());
    toggle(&mut m, NAME, false);
    assert!(m.is_empty());
}

#[test]
fn text_is_trimmed_when_the_focus_is_lost() {
    let mut m = map(&[(NAME, "old")]);
    let typing = RowEvent::Edited(TextEdit { text: s("  new "), lost_focus: false });
    step_text_row(&mut m, NAME, &typing);
    assert_eq!(m.get(NAME), Some(&s("  new ")));
    let leaving = RowEvent::Edited(TextEdit { text: s("  new "), lost_focus: true });
    step_text_row(&mut m, NAME, &leaving);
    assert_eq!(m.get(NAME), Some(&s("new")));
    step_text_row(&mut m, NAME, &RowEvent::Idle);
    assert_eq!(m.get(NAME), Some(&s("new")));
}

#[test]
fn an_unset_text_is_not_edited() {
    let mut m = Metadata::new();
    let edited = RowEvent::Edited(TextEdit { text: s("x"), lost_focus: true });
    step_text_row(&mut m, DESCRIPTION, &edited);
    assert!(m.is_empty());
    step_text_row(&mut m, DESCRIPTION, &RowEvent::Toggled(true));
    assert_eq!(m.get(DESCRIPTION), Some(&s("")));
    step_text_row(&mut m, DESCRIPTION, &RowEvent::Toggled(false));
    assert!(m.is_empty());
}

#[test]
fn untouched_authors_stay_as_they_are() {
    let edit = AuthorsEdit { authors: vec![author("x"), author("y")], add: false };
    assert_eq!(edit_authors(" Ada , Grace", &edit), " Ada , Grace");
}

#[test]
fn a_changed_author_is_written() {
    let mut second = author("Grace H");
    second.changed = true;
    let edit = AuthorsEdit { authors: vec![author("Ada"), second], add: false };
    assert_eq!(edit_authors("Ada,Grace", &edit), "Ada,Grace H");
}

#[test]
fn an_author_is_trimmed_when_the_focus_is_lost() {
    let mut first = author("  Ada ");
    first.lost_focus = true;
    let edit = AuthorsEdit { authors: vec![first], add: false };
    assert_eq!(edit_authors("  Ada ,Grace", &edit), "Ada,Grace");
}

#[test]
fn a_removed_author_is_gone() {
    let mut first = author("Ada");
    first.removed = true;
    let edit = AuthorsEdit { authors: vec![first, author("Grace")], add: false };
    assert_eq!(edit_authors("Ada,Grace", &edit), "Grace");
    let mut only = author("Ada");
    only.removed = true;
    assert_eq!(edit_authors("Ada", &AuthorsEdit { authors: vec![only], add: false }), "");
}

#[test]
fn an_added_author_is_a_trailing_comma() {
    let edit = AuthorsEdit { authors: vec![], add: true };
    assert_eq!(edit_authors("Ada", &edit), "Ada,");
    assert_eq!(edit_authors("", &edit), ",");
    let mut first = author("Bob");
    first.changed = true;
    let both = AuthorsEdit { authors: vec![first], add: true };
    assert_eq!(edit_authors("Ada,Grace", &both), "Bob,Grace,");
}

#[test]
fn reports_beyond_the_names_are_left_aside() {
    let mut extra = author("Zed");
    extra.changed = true;
    let edit = AuthorsEdit { authors: vec![author("Ada"), extra], add: false };
    assert_eq!(edit_authors("Ada", &edit), "Ada");
}

#[test]
fn authors_row_edits_a_set_field_only() {
    let mut first = author("Bob");
    first.changed = true;
    let event = RowEvent::Edited(AuthorsEdit { authors: vec![first], add: false });
    let mut m = Metadata::new();
    step_authors_row(&mut m, &event);
    assert!(m.is_empty());
    step_authors_row(&mut m, &RowEvent::Toggled(true));
    assert_eq!(m.get(AUTHORS), Some(&s("")));
    step_authors_row(&mut m, &event);
    assert_eq!(m.get(AUTHORS), Some(&s("Bob")));
    step_authors_row(&mut m, &RowEvent::Toggled(false));
    assert!(m.is_empty());
}

#[test]
fn version_falls_back_to_the_default() {
    let (version, error) = Version::parse_or_default("1.2.3");
    assert_eq!(version, Version::new(1, 2, 3));
    assert!(error.is_none());
    let (version, error) = Version::parse_or_default("nonsense");
    assert_eq!(version, Version::new(0, 0, 0));
    assert!(error.unwrap().is_version());
}

#[test]
fn date_falls_back_to_the_default() {
    let (date, error) = Date::parse_or_default("2024-05-01");
    assert_eq!(date, Date::from_ymd(2024, 5, 1).unwrap());
    assert!(error.is_none());
    let (date, error) = Date::parse_or_default("nonsense");
    assert_eq!(date, Date::epoch());
    assert!(error.unwrap().is_date());
}

#[test]
fn an_unreadable_version_is_reported_and_replaced() {
    let mut m = map(&[(VERSION, "nonsense")]);
    let mut diagnostics = Vec::new();
    step_version_row(&mut m, &RowEvent::Idle, &mut diagnostics);
    assert_eq!(m.get(VERSION), Some(&s("0.0.0")));
    assert_eq!(diagnostics.len(), 1);
    assert!(diagnostics[0].is_version());
    step_version_row(&mut m, &RowEvent::Idle, &mut diagnostics);
    assert_eq!(diagnostics.len(), 1);
}

#[test]
fn a_version_switched_on_becomes_the_default() {
    let mut m = Metadata::new();
    let mut diagnostics = Vec::new();
    step_version_row(&mut m, &RowEvent::Idle, &mut diagnostics);
    assert!(m.is_empty());
    assert!(diagnostics.is_empty());
    step_version_row(&mut m, &RowEvent::Toggled(true), &mut diagnostics);
    assert_eq!(m.get(VERSION), Some(&s("0.0.0")));
    assert_eq!(diagnostics.len(), 1);
    step_version_row(&mut m, &RowEvent::Toggled(false), &mut diagnostics);
    assert!(m.is_empty());
    assert_eq!(diagnostics.len(), 1);
}

#[test]
fn stepping_a_version_keeps_pre_release_and_build() {
    let mut m = map(&[(VERSION, "1.2.3-rc.1+exp")]);
    let mut diagnostics = Vec::new();
    let event = RowEvent::Edited(VersionEdit { major: 1, minor: 3, patch: 0 });
    step_version_row(&mut m, &event, &mut diagnostics);
    assert_eq!(m.get(VERSION), Some(&s("1.3.0-rc.1+exp")));
    assert!(diagnostics.is_empty());
}

#[test]
fn stepping_an_unreadable_version_starts_from_the_default() {
    let mut m = map(&[(VERSION, "")]);
    let mut diagnostics = Vec::new();
    let event = RowEvent::Edited(VersionEdit { major: 0, minor: 1, patch: 0 });
    step_version_row(&mut m, &event, &mut diagnostics);
    assert_eq!(m.get(VERSION), Some(&s("0.1.0")));
    assert_eq!(diagnostics.len(), 1);
    let mut unset = Metadata::new();
    step_version_row(&mut unset, &event, &mut diagnostics);
    assert!(unset.is_empty());
}

#[test]
fn an_unreadable_date_is_reported_and_replaced() {
    let mut m = map(&[(DATE, "2024-02-30")]);
    let mut diagnostics = Vec::new();
    step_date_row(&mut m, &RowEvent::Idle, &mut diagnostics);
    assert_eq!(m.get(DATE), Some(&s("1970-01-01")));
    assert_eq!(diagnostics.len(), 1);
    assert!(diagnostics[0].is_date());
}

#[test]
fn a_picked_date_is_written() {
    let mut m = map(&[(DATE, "2024-05-01")]);
    let mut diagnostics = Vec::new();
    let picked = Date::from_ymd(2025, 12, 24).unwrap();
    step_date_row(&mut m, &RowEvent::Edited(picked), &mut diagnostics);
    assert_eq!(m.get(DATE), Some(&s("2025-12-24")));
    assert!(diagnostics.is_empty());
    let mut unset = Metadata::new();
    step_date_row(&mut unset, &RowEvent::Edited(picked), &mut diagnostics);
    assert!(unset.is_empty());
    step_date_row(&mut unset, &RowEvent::Toggled(true), &mut diagnostics);
    assert_eq!(unset.get(DATE), Some(&s("1970-01-01")));
    assert_eq!(diagnostics.len(), 1);
}

#[test]
fn a_frame_takes_all_rows_in_order() {
    let mut m = map(&[(NAME, "Foo"), (AUTHORS, "Ada"), (VERSION, "bad"), (DATE, "worse")]);
    let mut input = idle();
    input.name = RowEvent::Edited(TextEdit { text: s(" Bar "), lost_focus: true });
    input.description = RowEvent::Toggled(true);
    input.authors = RowEvent::Edited(AuthorsEdit { authors: vec![], add: true });
    input.version = RowEvent::Edited(VersionEdit { major: 2, minor: 0, patch: 0 });
    let shown = MetadataWidget::new(&mut m).with_writable(true).show(&input);
    assert_eq!(shown.diagnostics.len(), 2);
    assert!(shown.diagnostics[0].is_version());
    assert!(shown.diagnostics[1].is_date());
    assert_eq!(
        m,
        map(&[
            (NAME, "Bar"),
            (DESCRIPTION, ""),
            (AUTHORS, "Ada,"),
            (VERSION, "2.0.0"),
            (DATE, "1970-01-01"),
        ])
    );
    assert_eq!(
        shown.rows,
        vec![
            Row { field: Field::Name, cell: Cell::Text(s("Bar")) },
            Row { field: Field::Description, cell: Cell::Text(s("")) },
            Row { field: Field::Authors, cell: Cell::Authors(vec![s("Ada"), s("")]) },
            Row { field: Field::Version, cell: Cell::Version(Version::new(2, 0, 0)) },
            Row { field: Field::Date, cell: Cell::Date(Date::epoch()) },
        ]
    );
}

#[test]
fn write_version_writes_what_the_frame_leaves() {
    let shown = Version::parse("1.2.3-rc.1").unwrap();
    let mut m = map(&[(VERSION, "as it was")]);
    write_version(&mut m, &RowEvent::Idle, shown.clone(), false);
    assert_eq!(m.get(VERSION), Some(&s("as it was")));
    write_version(&mut m, &RowEvent::Toggled(true), shown.clone(), true);
    assert_eq!(m.get(VERSION), Some(&s("1.2.3-rc.1")));
    let stepped = RowEvent::Edited(VersionEdit { major: 2, minor: 0, patch: 1 });
    write_version(&mut m, &stepped, shown, false);
    assert_eq!(m.get(VERSION), Some(&s("2.0.1-rc.1")));
}

#[test]
fn write_date_writes_what_the_frame_leaves() {
    let shown = Date::from_ymd(2024, 5, 1).unwrap();
    let mut m = map(&[(DATE, "as it was")]);
    write_date(&mut m, &RowEvent::Idle, shown, false);
    assert_eq!(m.get(DATE), Some(&s("as it was")));
    write_date(&mut m, &RowEvent::Idle, shown, true);
    assert_eq!(m.get(DATE), Some(&s("2024-05-01")));
    let picked = RowEvent::Edited(Date::from_ymd(1999, 12, 31).unwrap());
    write_date(&mut m, &picked, shown, true);
    assert_eq!(m.get(DATE), Some(&s("1999-12-31")));
}
