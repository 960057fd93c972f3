//! What the toolkit reports of the rows of a form, and what each report does
//! to the map.

use crate::authors::{join, join_authors, names_of, split, split_authors, SEPARATOR};
use crate::date::{date_or_default, date_text, parsed_date, Date, DateView, DATE_FORMAT};
use crate::entries::TextMap;
use crate::error::FieldError;
use crate::structured::version_refused;
use crate::text::{trim, trimmed};
use crate::version::{parsed_version, version_or_default, version_text, Version, VersionView};
use crate::{Metadata, AUTHORS, DATE, VERSION};
use vstd::prelude::*;

verus! {

/// What the toolkit reports of one row for one frame.
#[derive(Clone, Debug, PartialEq, Eq)]
pub enum RowEvent<T> {
    /// Nothing was done to the row.
    Idle,
    /// The presence of the field was switched on or off.
    Toggled(bool),
    /// The value was edited.
    Edited(T),
}

/// An edit of a text: what the control holds now, and whether it has just
/// lost the input focus.
#[derive(Clone, Debug, PartialEq, Eq)]
pub struct TextEdit {
    pub text: String,
    pub lost_focus: bool,
}

/// What was done to one name of the authors row: what its control holds now,
/// whether that changed, whether the control has just lost the input focus,
/// and whether the name was dropped.
#[derive(Clone, Debug, PartialEq, Eq)]
pub struct AuthorEdit {
    pub text: String,
    pub changed: bool,
    pub lost_focus: bool,
    pub removed: bool,
}

/// What was done to the authors row: one report for each name that the row
/// presented, in their order, and whether a name was asked for.
#[derive(Clone, Debug, PartialEq, Eq)]
pub struct AuthorsEdit {
    pub authors: Vec<AuthorEdit>,
    pub add: bool,
}

/// The three numbers of the version row after one of them was stepped.
#[derive(Clone, Copy, Debug, PartialEq, Eq)]
pub struct VersionEdit {
    pub major: u64,
    pub minor: u64,
    pub patch: u64,
}

/// What the toolkit reports of the five rows for one frame.
#[derive(Clone, Debug, PartialEq, Eq)]
pub struct FormInput {
    pub name: RowEvent<TextEdit>,
    pub description: RowEvent<TextEdit>,
    pub authors: RowEvent<AuthorsEdit>,
    pub version: RowEvent<VersionEdit>,
    pub date: RowEvent<Date>,
}

impl<T> Default for RowEvent<T> {
    fn default() -> (event: RowEvent<T>)
        ensures
            event is Idle,
    {
        RowEvent::Idle
    }
}

impl Default for FormInput {
    /// A frame in which nothing was done to any row.
    fn default() -> (input: FormInput)
        ensures
            input.name is Idle,
            input.description is Idle,
            input.authors is Idle,
            input.version is Idle,
            input.date is Idle,
    {
        FormInput {
            name: RowEvent::Idle,
            description: RowEvent::Idle,
            authors: RowEvent::Idle,
            version: RowEvent::Idle,
            date: RowEvent::Idle,
        }
    }
}

/// `m` after the presence of `key` was switched: on binds an unset key to no
/// text and leaves a set key alone, off unsets the key.
pub open spec fn toggled(m: TextMap, key: Seq<char>, on: bool) -> TextMap {
    if !on {
        m.remove(key)
    } else if m.contains_key(key) {
        m
    } else {
        m.insert(key, Seq::empty())
    }
}

/// `m` after the value of `key` was set to `value`, which happens only where
/// `key` is set.
pub open spec fn rewritten(m: TextMap, key: Seq<char>, value: Seq<char>) -> TextMap {
    if m.contains_key(key) {
        m.insert(key, value)
    } else {
        m
    }
}

/// The text that an edit leaves: what the control holds, trimmed where the
/// control has lost the input focus.
pub open spec fn text_left(text: Seq<char>, lost_focus: bool) -> Seq<char> {
    if lost_focus {
        trimmed(text)
    } else {
        text
    }
}

/// `m` after a frame of the text row of `key`.
pub open spec fn text_row(
    m: TextMap,
    key: Seq<char>,
    event: RowEvent<TextEdit>,
) -> TextMap {
    match event {
        RowEvent::Idle => m,
        RowEvent::Toggled(on) => toggled(m, key, on),
        RowEvent::Edited(edit) => rewritten(m, key, text_left(edit.text@, edit.lost_focus)),
    }
}

/// The first `n` of `names` after the edits: a dropped name is gone, a
/// reported name is what its edit leaves, a name without a report stays.
pub open spec fn names_after(names: Seq<Seq<char>>, edits: Seq<AuthorEdit>, n: nat) -> Seq<Seq<char>>
    decreases n,
{
    if n == 0 {
        Seq::empty()
    } else {
        let before = names_after(names, edits, (n - 1) as nat);
        if n - 1 < edits.len() {
            if edits[n - 1].removed {
                before
            } else {
                before.push(text_left(edits[n - 1].text@, edits[n - 1].lost_focus))
            }
        } else {
            before.push(names[n - 1])
        }
    }
}

/// Whether an edit touches its name: drops it, changes it, or ends its
/// editing.
pub open spec fn touches(edit: AuthorEdit) -> bool {
    edit.removed || edit.changed || edit.lost_focus
}

/// Whether one of the edits of the first `n` names touches its name.
pub open spec fn any_touched(edits: Seq<AuthorEdit>, n: nat) -> bool
    decreases n,
{
    n > 0 && (any_touched(edits, (n - 1) as nat) || (n - 1 < edits.len() && touches(
        edits[n - 1],
    )))
}

/// The authors value after an edit of the authors row: the names joined
/// again where one of them was touched, and a comma behind that where a name
/// was asked for.
pub open spec fn authors_left(value: Seq<char>, edit: AuthorsEdit) -> Seq<char> {
    let names = split(value);
    let joined = if any_touched(edit.authors@, names.len()) {
        join(names_after(names, edit.authors@, names.len()))
    } else {
        value
    };
    if edit.add {
        joined.push(SEPARATOR)
    } else {
        joined
    }
}

/// `m` after a frame of the authors row.
pub open spec fn authors_row(m: TextMap, event: RowEvent<AuthorsEdit>) -> TextMap {
    match event {
        RowEvent::Idle => m,
        RowEvent::Toggled(on) => toggled(m, AUTHORS@, on),
        RowEvent::Edited(edit) => if m.contains_key(AUTHORS@) {
            m.insert(AUTHORS@, authors_left(m[AUTHORS@], edit))
        } else {
            m
        },
    }
}

/// `m` after the presence of `key` was switched, where the event switches it.
pub open spec fn presence_after<T>(
    m: TextMap,
    key: Seq<char>,
    event: RowEvent<T>,
) -> TextMap {
    match event {
        RowEvent::Toggled(on) => toggled(m, key, on),
        _ => m,
    }
}

/// The version field of `m` is set to a value that holds no version.
pub open spec fn version_unreadable(m: TextMap) -> bool {
    m.contains_key(VERSION@) && parsed_version(m[VERSION@]) is None
}

/// The date field of `m` is set to a value that holds no date.
pub open spec fn date_unreadable(m: TextMap) -> bool {
    m.contains_key(DATE@) && parsed_date(m[DATE@], DATE_FORMAT@) is None
}

/// The version that the row presents, with the numbers of `edit` in place of
/// its own.
pub open spec fn version_stepped(shown: VersionView, edit: VersionEdit) -> VersionView {
    VersionView {
        major: edit.major as nat,
        minor: edit.minor as nat,
        patch: edit.patch as nat,
        pre: shown.pre,
        build: shown.build,
    }
}

/// `m` after the version row, which presents `shown`, has written what its
/// frame leaves: the stepped version where a number was stepped, else the
/// version that it presents where the value was unreadable, else nothing.
pub open spec fn version_written(
    m: TextMap,
    event: RowEvent<VersionEdit>,
    shown: VersionView,
    unreadable: bool,
) -> TextMap {
    match event {
        RowEvent::Edited(edit) => m.insert(VERSION@, version_text(version_stepped(shown, edit))),
        _ => if unreadable {
            m.insert(VERSION@, version_text(shown))
        } else {
            m
        },
    }
}

/// `m` after the date row, which presents `shown`, has written what its frame
/// leaves: the picked date where one was picked, else the date that it
/// presents where the value was unreadable, else nothing.
pub open spec fn date_written(
    m: TextMap,
    event: RowEvent<Date>,
    shown: DateView,
    unreadable: bool,
) -> TextMap {
    match event {
        RowEvent::Edited(picked) => m.insert(DATE@, date_text(picked@)),
        _ => if unreadable {
            m.insert(DATE@, date_text(shown))
        } else {
            m
        },
    }
}

/// `m` after a frame of the version row: the presence switched where that was
/// asked; then, where the field is set, the default taken for an unreadable
/// value, and written what the frame leaves.
pub open spec fn version_row(m: TextMap, event: RowEvent<VersionEdit>) -> TextMap {
    let present = presence_after(m, VERSION@, event);
    if present.contains_key(VERSION@) {
        version_written(
            present,
            event,
            version_or_default(present[VERSION@]),
            version_unreadable(present),
        )
    } else {
        present
    }
}

/// `m` after a frame of the date row: the presence switched where that was
/// asked; then, where the field is set, the default taken for an unreadable
/// value, and written what the frame leaves.
pub open spec fn date_row(m: TextMap, event: RowEvent<Date>) -> TextMap {
    let present = presence_after(m, DATE@, event);
    if present.contains_key(DATE@) {
        date_written(present, event, date_or_default(present[DATE@]), date_unreadable(present))
    } else {
        present
    }
}

/// Switches the presence of `key`.
pub fn toggle(m: &mut Metadata, key: &str, on: bool)
    requires
        old(m).wf(),
    ensures
        final(m).wf(),
        final(m)@ == toggled(old(m)@, key@, on),
{
    if !on {
        m.remove(key);
    } else if !m.contains_key(key) {
        m.insert(key.to_owned(), String::new());
    }
}

/// Sets the value of `key` to `value` where `key` is set.
fn rewrite(m: &mut Metadata, key: &str, value: String)
    requires
        old(m).wf(),
    ensures
        final(m).wf(),
        final(m)@ == rewritten(old(m)@, key@, value@),
{
    if m.contains_key(key) {
        m.insert(key.to_owned(), value);
    }
}

/// What an edit of a text leaves.
fn left_text(text: &String, lost_focus: bool) -> (r: String)
    ensures
        r@ == text_left(text@, lost_focus),
{
    if lost_focus {
        trim(text.as_str())
    } else {
        text.clone()
    }
}

/// One frame of the text row of `key`.
pub fn step_text_row(m: &mut Metadata, key: &str, event: &RowEvent<TextEdit>)
    requires
        old(m).wf(),
    ensures
        final(m).wf(),
        final(m)@ == text_row(old(m)@, key@, *event),
{
    match event {
        RowEvent::Idle => {},
        RowEvent::Toggled(on) => {
            toggle(m, key, *on);
        },
        RowEvent::Edited(edit) => {
            rewrite(m, key, left_text(&edit.text, edit.lost_focus));
        },
    }
}

/// The authors value that an edit of the authors row leaves.
pub fn edit_authors(value: &str, edit: &AuthorsEdit) -> (r: String)
    ensures
        r@ == authors_left(value@, *edit),
{
    let names = split_authors(value);
    let mut kept: Vec<String> = Vec::new();
    let mut touched = false;
    let mut i: usize = 0;
    assert(names_of(kept@) =~= Seq::<Seq<char>>::empty());
    assert(names_of(names@).len() == names@.len());
    while i < names.len()
        invariant
            0 <= i <= names.len(),
            names_of(names@).len() == names@.len(),
            names_of(kept@) == names_after(names_of(names@), edit.authors@, i as nat),
            touched == any_touched(edit.authors@, i as nat),
        decreases names.len() - i,
    {
        let ghost before = names_of(kept@);
        if i < edit.authors.len() {
            let report = &edit.authors[i];
            if report.removed {
                touched = true;
            } else {
                kept.push(left_text(&report.text, report.lost_focus));
                assert(names_of(kept@) =~= before.push(
                    text_left(report.text@, report.lost_focus),
                ));
                touched = touched || report.changed || report.lost_focus;
            }
        } else {
            kept.push(names[i].clone());
            assert(names_of(kept@) =~= before.push(names_of(names@)[i as int]));
        }
        i = i + 1;
    }
    let mut r = if touched {
        join_authors(&kept)
    } else {
        value.to_owned()
    };
    if edit.add {
        let ghost joined = r@;
        r.append(",");
        proof {
            reveal_strlit(",");
            assert(r@ =~= joined.push(SEPARATOR));
        }
    }
    r
}

/// One frame of the authors row.
pub fn step_authors_row(m: &mut Metadata, event: &RowEvent<AuthorsEdit>)
    requires
        old(m).wf(),
    ensures
        final(m).wf(),
        final(m)@ == authors_row(old(m)@, *event),
{
    match event {
        RowEvent::Idle => {},
        RowEvent::Toggled(on) => {
            toggle(m, AUTHORS, *on);
        },
        RowEvent::Edited(edit) => {
            let value = match m.get(AUTHORS) {
                Some(value) => Some(edit_authors(value.as_str(), edit)),
                None => None,
            };
            match value {
                Some(value) => {
                    m.insert(AUTHORS.to_owned(), value);
                },
                None => {},
            }
        },
    }
}

/// Writes what a frame of the version row leaves. `shown` is the version that
/// the row presents, and `unreadable` says whether it stands for a value that
/// could not be read.
pub fn write_version(
    m: &mut Metadata,
    event: &RowEvent<VersionEdit>,
    shown: Version,
    unreadable: bool,
)
    requires
        old(m).wf(),
    ensures
        final(m).wf(),
        final(m)@ == version_written(old(m)@, *event, shown@, unreadable),
{
    match event {
        RowEvent::Edited(edit) => {
            let stepped = shown.with_numbers(edit.major, edit.minor, edit.patch);
            m.insert(VERSION.to_owned(), stepped.to_string());
        },
        _ => {
            if unreadable {
                m.insert(VERSION.to_owned(), shown.to_string());
            }
        },
    }
}

/// Writes what a frame of the date row leaves. `shown` is the date that the
/// row presents, and `unreadable` says whether it stands for a value that
/// could not be read.
pub fn write_date(m: &mut Metadata, event: &RowEvent<Date>, shown: Date, unreadable: bool)
    requires
        old(m).wf(),
    ensures
        final(m).wf(),
        final(m)@ == date_written(old(m)@, *event, shown@, unreadable),
{
    match event {
        RowEvent::Edited(picked) => {
            m.insert(DATE.to_owned(), picked.to_string());
        },
        _ => {
            if unreadable {
                m.insert(DATE.to_owned(), shown.to_string());
            }
        },
    }
}

/// One frame of the version row. An unreadable value is reported in
/// `diagnostics`.
pub fn step_version_row(
    m: &mut Metadata,
    event: &RowEvent<VersionEdit>,
    diagnostics: &mut Vec<FieldError>,
)
    requires
        old(m).wf(),
    ensures
        final(m).wf(),
        final(m)@ == version_row(old(m)@, *event),
        final(diagnostics)@.len() == old(diagnostics)@.len() + (if version_unreadable(
            presence_after(old(m)@, VERSION@, *event),
        ) {
            1nat
        } else {
            0nat
        }),
        forall|i: int|
            0 <= i < old(diagnostics)@.len() ==> final(diagnostics)@[i] == old(diagnostics)@[i],
        forall|i: int|
            old(diagnostics)@.len() <= i < final(diagnostics)@.len()
                ==> final(diagnostics)@[i] is Version,
        version_refused(presence_after(old(m)@, VERSION@, *event)) ==> final(diagnostics)@.len()
            == old(diagnostics)@.len() + 1,
{
    match event {
        RowEvent::Toggled(on) => {
            toggle(m, VERSION, *on);
        },
        _ => {},
    }
    let read = match m.get(VERSION) {
        Some(value) => Some(Version::parse_or_default(value.as_str())),
        None => None,
    };
    match read {
        Some((shown, error)) => {
            let unreadable = error.is_some();
            match error {
                Some(e) => {
                    diagnostics.push(e);
                },
                None => {},
            }
            write_version(m, event, shown, unreadable);
        },
        None => {},
    }
}

/// One frame of the date row. An unreadable value is reported in
/// `diagnostics`.
pub fn step_date_row(m: &mut Metadata, event: &RowEvent<Date>, diagnostics: &mut Vec<FieldError>)
    requires
        old(m).wf(),
    ensures
        final(m).wf(),
        final(m)@ == date_row(old(m)@, *event),
        final(diagnostics)@.len() == old(diagnostics)@.len() + (if date_unreadable(
            presence_after(old(m)@, DATE@, *event),
        ) {
            1nat
        } else {
            0nat
        }),
        forall|i: int|
            0 <= i < old(diagnostics)@.len() ==> final(diagnostics)@[i] == old(diagnostics)@[i],
        forall|i: int|
            old(diagnostics)@.len() <= i < final(diagnostics)@.len()
                ==> final(diagnostics)@[i] is Date,
{
    match event {
        RowEvent::Toggled(on) => {
            toggle(m, DATE, *on);
        },
        _ => {},
    }
    let read = match m.get(DATE) {
        Some(value) => Some(Date::parse_or_default(value.as_str())),
        None => None,
    };
    match read {
        Some((shown, error)) => {
            let unreadable = error.is_some();
            match error {
                Some(e) => {
                    diagnostics.push(e);
                },
                None => {},
            }
            write_date(m, event, shown, unreadable);
        },
        None => {},
    }
}

} // verus!
