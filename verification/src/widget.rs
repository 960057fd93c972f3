//! A form bound to a metadata map: which rows it shows, what each row
//! presents, and what the map becomes when the toolkit reports what was done
//! to the rows. Drawing the rows and listening to them is left to the toolkit.

use crate::authors::{split, split_authors};
use crate::date::{date_or_default, Date};
use crate::edit::{
    authors_row, date_row, date_unreadable, presence_after, step_authors_row, step_date_row,
    step_text_row, step_version_row, text_row, version_row, version_unreadable, FormInput,
    RowEvent,
};
use crate::entries::TextMap;
use crate::error::FieldError;
use crate::row::{key_of, rows_of, Cell, CellView, Field, Row, RowView};
use crate::structured::version_refused;
use crate::version::{lemma_default_version_text, version_or_default, Version};
use crate::{lemma_keys_distinct, Metadata, DATE, DEFAULT_VERSION, DESCRIPTION, NAME, VERSION};
use vstd::prelude::*;

verus! {

/// Which rows a form shows.
pub ghost struct Shown {
    pub name: bool,
    pub description: bool,
    pub authors: bool,
    pub version: bool,
    pub date: bool,
}

impl Shown {
    /// Whether the row of `field` is shown.
    pub open spec fn shows(self, field: Field) -> bool {
        match field {
            Field::Name => self.name,
            Field::Description => self.description,
            Field::Authors => self.authors,
            Field::Version => self.version,
            Field::Date => self.date,
        }
    }
}

/// The read-only row of `field`: its value as a label where the row is shown
/// and the field is set, and no row else.
pub open spec fn readable_row(shown: Shown, m: TextMap, field: Field) -> Seq<RowView> {
    if shown.shows(field) && m.contains_key(key_of(field)) {
        seq![RowView { field, cell: CellView::Label(m[key_of(field)]) }]
    } else {
        Seq::empty()
    }
}

/// The read-only rows of a form, in the order of the fields.
pub open spec fn readable_rows(shown: Shown, m: TextMap) -> Seq<RowView> {
    readable_row(shown, m, Field::Name) + readable_row(shown, m, Field::Description)
        + readable_row(shown, m, Field::Authors) + readable_row(shown, m, Field::Version)
        + readable_row(shown, m, Field::Date)
}

/// What the editable row of `field` presents for a map.
pub open spec fn editor_cell(m: TextMap, field: Field) -> CellView {
    if !m.contains_key(key_of(field)) {
        CellView::Unset
    } else {
        let value = m[key_of(field)];
        match field {
            Field::Name => CellView::Text(value),
            Field::Description => CellView::Text(value),
            Field::Authors => CellView::Authors(split(value)),
            Field::Version => CellView::Version(version_or_default(value)),
            Field::Date => CellView::Date(date_or_default(value)),
        }
    }
}

/// The editable row of `field`: one row where the row is shown, set or not.
pub open spec fn editor_row(shown: Shown, m: TextMap, field: Field) -> Seq<RowView> {
    if shown.shows(field) {
        seq![RowView { field, cell: editor_cell(m, field) }]
    } else {
        Seq::empty()
    }
}

/// The editable rows of a form, in the order of the fields.
pub open spec fn editor_rows(shown: Shown, m: TextMap) -> Seq<RowView> {
    editor_row(shown, m, Field::Name) + editor_row(shown, m, Field::Description) + editor_row(
        shown,
        m,
        Field::Authors,
    ) + editor_row(shown, m, Field::Version) + editor_row(shown, m, Field::Date)
}

/// A form over the metadata `T`, which is a shared or an exclusive reference
/// to a map. Each of the five rows can be switched off; that hides the row
/// and leaves the field as it is.
pub struct MetadataWidget<T> {
    metadata: T,
    writable: bool,
    name: bool,
    description: bool,
    authors: bool,
    version: bool,
    date: bool,
}

impl<T> MetadataWidget<T> {
    /// The metadata that the form is bound to.
    pub closed spec fn bound(&self) -> T {
        self.metadata
    }

    /// Whether the form edits its metadata.
    pub closed spec fn is_writable(&self) -> bool {
        self.writable
    }

    /// Which rows the form shows.
    pub closed spec fn shown(&self) -> Shown {
        Shown {
            name: self.name,
            description: self.description,
            authors: self.authors,
            version: self.version,
            date: self.date,
        }
    }

    /// A read-only form over `metadata` that shows all five rows.
    pub fn new(metadata: T) -> (w: Self)
        ensures
            w.bound() == metadata,
            !w.is_writable(),
            w.shown() == (Shown {
                name: true,
                description: true,
                authors: true,
                version: true,
                date: true,
            }),
    {
        Self {
            metadata,
            writable: false,
            name: true,
            description: true,
            authors: true,
            version: true,
            date: true,
        }
    }
}

/// Appends the read-only row of `field` to `rows`.
fn push_readable_row(rows: &mut Vec<Row>, shows: bool, m: &Metadata, field: Field)
    requires
        m.wf(),
    ensures
        rows_of(final(rows)@) == rows_of(old(rows)@) + (if shows && m@.contains_key(
            key_of(field),
        ) {
            seq![RowView { field, cell: CellView::Label(m@[key_of(field)]) }]
        } else {
            Seq::empty()
        }),
{
    if shows {
        match m.get(field.key()) {
            Some(value) => {
                rows.push(Row { field, cell: Cell::Label(value.clone()) });
                assert(rows_of(rows@) =~= rows_of(old(rows)@) + seq![
                    RowView { field, cell: CellView::Label(m@[key_of(field)]) },
                ]);
                return ;
            },
            None => {},
        }
    }
    assert(rows_of(rows@) =~= rows_of(old(rows)@) + Seq::<RowView>::empty());
}

/// The read-only rows of a form over `m` that shows the rows of `shown`.
fn readable_rows_of(
    name: bool,
    description: bool,
    authors: bool,
    version: bool,
    date: bool,
    m: &Metadata,
) -> (rows: Vec<Row>)
    requires
        m.wf(),
    ensures
        rows_of(rows@) == readable_rows(Shown { name, description, authors, version, date }, m@),
{
    let mut rows: Vec<Row> = Vec::new();
    assert(rows_of(rows@) =~= Seq::<RowView>::empty());
    push_readable_row(&mut rows, name, m, Field::Name);
    push_readable_row(&mut rows, description, m, Field::Description);
    push_readable_row(&mut rows, authors, m, Field::Authors);
    push_readable_row(&mut rows, version, m, Field::Version);
    push_readable_row(&mut rows, date, m, Field::Date);
    let ghost shown = Shown { name, description, authors, version, date };
    assert(rows_of(rows@) =~= readable_rows(shown, m@));
    rows
}

impl<'a> MetadataWidget<&'a Metadata> {
    /// The rows of the form, for reading: one row for each field that is
    /// shown and set, with its value as a label.
    pub fn readable(&self) -> (rows: Vec<Row>)
        requires
            self.bound().wf(),
        ensures
            rows_of(rows@) == readable_rows(self.shown(), self.bound()@),
    {
        readable_rows_of(
            self.name,
            self.description,
            self.authors,
            self.version,
            self.date,
            self.metadata,
        )
    }

    /// Presents the form. A form over a shared reference is read-only.
    pub fn show(self) -> (rows: Vec<Row>)
        requires
            self.bound().wf(),
        ensures
            rows_of(rows@) == readable_rows(self.shown(), self.bound()@),
    {
        self.readable()
    }
}

/// The map before the frame of the version row: after the frames of the
/// rows of name, description and authors, each where it is shown.
pub open spec fn before_version(shown: Shown, m: TextMap, input: FormInput) -> TextMap {
    let named = if shown.name {
        text_row(m, NAME@, input.name)
    } else {
        m
    };
    let described = if shown.description {
        text_row(named, DESCRIPTION@, input.description)
    } else {
        named
    };
    if shown.authors {
        authors_row(described, input.authors)
    } else {
        described
    }
}

/// The map before the frame of the date row.
pub open spec fn before_date(shown: Shown, m: TextMap, input: FormInput) -> TextMap {
    if shown.version {
        version_row(before_version(shown, m, input), input.version)
    } else {
        before_version(shown, m, input)
    }
}

/// The map after one frame of the form: after the frames of the five rows in
/// their order, each where it is shown.
pub open spec fn written(shown: Shown, m: TextMap, input: FormInput) -> TextMap {
    if shown.date {
        date_row(before_date(shown, m, input), input.date)
    } else {
        before_date(shown, m, input)
    }
}

/// Whether a frame reports the version as unreadable.
pub open spec fn version_reported(
    shown: Shown,
    m: TextMap,
    input: FormInput,
) -> bool {
    shown.version && version_unreadable(
        presence_after(before_version(shown, m, input), VERSION@, input.version),
    )
}

/// Whether a frame reports the date as unreadable.
pub open spec fn date_reported(shown: Shown, m: TextMap, input: FormInput) -> bool {
    shown.date && date_unreadable(presence_after(before_date(shown, m, input), DATE@, input.date))
}

/// How many fields a frame reports as unreadable.
pub open spec fn reports(shown: Shown, m: TextMap, input: FormInput) -> nat {
    (if version_reported(shown, m, input) {
        1nat
    } else {
        0nat
    }) + (if date_reported(shown, m, input) {
        1nat
    } else {
        0nat
    })
}

/// A frame of a form that shows the version row and does nothing to it, over
/// a map whose version is set to a text that does not begin with a digit.
pub open spec fn refused_version_left_alone(shown: Shown, m: TextMap, input: FormInput) -> bool {
    shown.version && version_refused(m) && input.version is Idle
}

/// The rows before the version row leave the version as it is.
pub proof fn lemma_version_untouched_before_its_row(shown: Shown, m: TextMap, input: FormInput)
    ensures
        before_version(shown, m, input).contains_key(VERSION@) == m.contains_key(VERSION@),
        m.contains_key(VERSION@) ==> before_version(shown, m, input)[VERSION@] == m[VERSION@],
{
    lemma_keys_distinct();
}

/// The date row leaves the version as it is.
pub proof fn lemma_date_row_keeps_version(m: TextMap, event: RowEvent<Date>)
    ensures
        date_row(m, event).contains_key(VERSION@) == m.contains_key(VERSION@),
        m.contains_key(VERSION@) ==> date_row(m, event)[VERSION@] == m[VERSION@],
{
    lemma_keys_distinct();
}

/// What a form presents after a frame: whether its rows are to edit or to
/// read, the rows, and the errors of the values that it could not read and
/// put the default for.
#[derive(Debug)]
pub struct Presentation {
    pub editable: bool,
    pub rows: Vec<Row>,
    pub diagnostics: Vec<FieldError>,
}

/// What the editable row of `field` presents for the value of a set field.
fn editor_cell_of(field: Field, value: &String) -> (cell: Cell)
    ensures
        cell@ == match field {
            Field::Name => CellView::Text(value@),
            Field::Description => CellView::Text(value@),
            Field::Authors => CellView::Authors(split(value@)),
            Field::Version => CellView::Version(version_or_default(value@)),
            Field::Date => CellView::Date(date_or_default(value@)),
        },
{
    match field {
        Field::Name => Cell::Text(value.clone()),
        Field::Description => Cell::Text(value.clone()),
        Field::Authors => Cell::Authors(split_authors(value.as_str())),
        Field::Version => Cell::Version(Version::parse_or_default(value.as_str()).0),
        Field::Date => Cell::Date(Date::parse_or_default(value.as_str()).0),
    }
}

/// Appends the editable row of `field` to `rows`.
fn push_editor_row(rows: &mut Vec<Row>, shows: bool, m: &Metadata, field: Field)
    requires
        m.wf(),
    ensures
        rows_of(final(rows)@) == rows_of(old(rows)@) + (if shows {
            seq![RowView { field, cell: editor_cell(m@, field) }]
        } else {
            Seq::empty()
        }),
{
    if shows {
        let cell = match m.get(field.key()) {
            Some(value) => editor_cell_of(field, value),
            None => Cell::Unset,
        };
        rows.push(Row { field, cell });
        assert(rows_of(rows@) =~= rows_of(old(rows)@) + seq![
            RowView { field, cell: editor_cell(m@, field) },
        ]);
    } else {
        assert(rows_of(rows@) =~= rows_of(old(rows)@) + Seq::<RowView>::empty());
    }
}

/// The editable rows of a form over `m`.
fn editor_rows_of(
    name: bool,
    description: bool,
    authors: bool,
    version: bool,
    date: bool,
    m: &Metadata,
) -> (rows: Vec<Row>)
    requires
        m.wf(),
    ensures
        rows_of(rows@) == editor_rows(Shown { name, description, authors, version, date }, m@),
{
    let mut rows: Vec<Row> = Vec::new();
    assert(rows_of(rows@) =~= Seq::<RowView>::empty());
    push_editor_row(&mut rows, name, m, Field::Name);
    push_editor_row(&mut rows, description, m, Field::Description);
    push_editor_row(&mut rows, authors, m, Field::Authors);
    push_editor_row(&mut rows, version, m, Field::Version);
    push_editor_row(&mut rows, date, m, Field::Date);
    let ghost shown = Shown { name, description, authors, version, date };
    assert(rows_of(rows@) =~= editor_rows(shown, m@));
    rows
}

impl<'a> MetadataWidget<&'a mut Metadata> {
    /// This form, editing its metadata or not.
    pub fn with_writable(self, writable: bool) -> (w: Self)
        ensures
            w.bound() == self.bound(),
            w.is_writable() == writable,
            w.shown() == self.shown(),
    {
        Self { writable, ..self }
    }

    /// This form with the name row shown or not.
    pub fn with_name(self, name: bool) -> (w: Self)
        ensures
            w.bound() == self.bound(),
            w.is_writable() == self.is_writable(),
            w.shown() == (Shown { name, ..self.shown() }),
    {
        Self { name, ..self }
    }

    /// This form with the description row shown or not.
    pub fn with_description(self, description: bool) -> (w: Self)
        ensures
            w.bound() == self.bound(),
            w.is_writable() == self.is_writable(),
            w.shown() == (Shown { description, ..self.shown() }),
    {
        Self { description, ..self }
    }

    /// This form with the authors row shown or not.
    pub fn with_authors(self, authors: bool) -> (w: Self)
        ensures
            w.bound() == self.bound(),
            w.is_writable() == self.is_writable(),
            w.shown() == (Shown { authors, ..self.shown() }),
    {
        Self { authors, ..self }
    }

    /// This form with the version row shown or not.
    pub fn with_version(self, version: bool) -> (w: Self)
        ensures
            w.bound() == self.bound(),
            w.is_writable() == self.is_writable(),
            w.shown() == (Shown { version, ..self.shown() }),
    {
        Self { version, ..self }
    }

    /// This form with the date row shown or not.
    pub fn with_date(self, date: bool) -> (w: Self)
        ensures
            w.bound() == self.bound(),
            w.is_writable() == self.is_writable(),
            w.shown() == (Shown { date, ..self.shown() }),
    {
        Self { date, ..self }
    }

    /// The rows of the form, for reading: one row for each field that is
    /// shown and set, with its value as a label.
    pub fn readable(&self) -> (rows: Vec<Row>)
        requires
            self.bound().wf(),
        ensures
            rows_of(rows@) == readable_rows(self.shown(), self.bound()@),
    {
        readable_rows_of(
            self.name,
            self.description,
            self.authors,
            self.version,
            self.date,
            &*self.metadata,
        )
    }

    /// One frame of the form, for editing. Each row that is shown takes what
    /// the toolkit reports of it: the presence of its field switched, or its
    /// value edited where the field is set. A version or a date that cannot
    /// be read is reported and the default is written in its place. What
    /// comes back are the editable rows for the map as it is then.
    pub fn writable(self, input: &FormInput) -> (r: Presentation)
        requires
            self.bound().wf(),
        ensures
            final(self.bound()).wf(),
            final(self.bound())@ == written(self.shown(), self.bound()@, *input),
            r.editable,
            rows_of(r.rows@) == editor_rows(self.shown(), final(self.bound())@),
            r.diagnostics@.len() == reports(self.shown(), self.bound()@, *input),
            version_reported(self.shown(), self.bound()@, *input) ==> r.diagnostics@[0] is Version,
            date_reported(self.shown(), self.bound()@, *input) ==> r.diagnostics@.last() is Date,
            refused_version_left_alone(self.shown(), self.bound()@, *input) ==> {
                &&& version_reported(self.shown(), self.bound()@, *input)
                &&& final(self.bound())@.contains_key(VERSION@)
                &&& final(self.bound())@[VERSION@] == DEFAULT_VERSION@
            },
    {
        proof {
            lemma_version_untouched_before_its_row(self.shown(), self.bound()@, *input);
            lemma_date_row_keeps_version(
                before_date(self.shown(), self.bound()@, *input),
                input.date,
            );
            lemma_default_version_text();
        }
        let mut diagnostics: Vec<FieldError> = Vec::new();
        if self.name {
            step_text_row(self.metadata, NAME, &input.name);
        }
        if self.description {
            step_text_row(self.metadata, DESCRIPTION, &input.description);
        }
        if self.authors {
            step_authors_row(self.metadata, &input.authors);
        }
        if self.version {
            step_version_row(self.metadata, &input.version, &mut diagnostics);
        }
        if self.date {
            step_date_row(self.metadata, &input.date, &mut diagnostics);
        }
        let rows = editor_rows_of(
            self.name,
            self.description,
            self.authors,
            self.version,
            self.date,
            &*self.metadata,
        );
        Presentation { editable: true, rows, diagnostics }
    }

    /// One frame of the form: for editing where the form is writable, and
    /// for reading else, which leaves the map as it is and reports nothing.
    pub fn show(self, input: &FormInput) -> (r: Presentation)
        requires
            self.bound().wf(),
        ensures
            final(self.bound()).wf(),
            r.editable == self.is_writable(),
            self.is_writable() ==> {
                &&& final(self.bound())@ == written(self.shown(), self.bound()@, *input)
                &&& rows_of(r.rows@) == editor_rows(self.shown(), final(self.bound())@)
                &&& r.diagnostics@.len() == reports(self.shown(), self.bound()@, *input)
                &&& version_reported(self.shown(), self.bound()@, *input)
                    ==> r.diagnostics@[0] is Version
                &&& date_reported(self.shown(), self.bound()@, *input)
                    ==> r.diagnostics@.last() is Date
                &&& refused_version_left_alone(self.shown(), self.bound()@, *input) ==> {
                    &&& version_reported(self.shown(), self.bound()@, *input)
                    &&& final(self.bound())@.contains_key(VERSION@)
                    &&& final(self.bound())@[VERSION@] == DEFAULT_VERSION@
                }
            },
            !self.is_writable() ==> {
                &&& final(self.bound()).pairs() == self.bound().pairs()
                &&& rows_of(r.rows@) == readable_rows(self.shown(), self.bound()@)
                &&& r.diagnostics@.len() == 0
            },
    {
        if self.writable {
            self.writable(input)
        } else {
            let rows = self.readable();
            Presentation { editable: false, rows, diagnostics: Vec::new() }
        }
    }
}

} // verus!
