//! The rows of a form: the five fields, and what a row presents.

use crate::authors::names_of;
use crate::date::{Date, DateView};
use crate::version::{Version, VersionView};
use crate::{AUTHORS, DATE, DESCRIPTION, NAME, VERSION};
use vstd::prelude::*;

verus! {

/// One of the five well-known fields, in the order of the rows of the form.
#[derive(Clone, Copy, Debug, PartialEq, Eq, Hash, Structural)]
pub enum Field {
    Name,
    Description,
    Authors,
    Version,
    Date,
}

/// The key under which a field is kept in the map.
pub open spec fn key_of(field: Field) -> Seq<char> {
    match field {
        Field::Name => NAME@,
        Field::Description => DESCRIPTION@,
        Field::Authors => AUTHORS@,
        Field::Version => VERSION@,
        Field::Date => DATE@,
    }
}

impl Field {
    /// The key under which this field is kept in the map.
    pub fn key(self) -> (k: &'static str)
        ensures
            k@ == key_of(self),
    {
        match self {
            Field::Name => NAME,
            Field::Description => DESCRIPTION,
            Field::Authors => AUTHORS,
            Field::Version => VERSION,
            Field::Date => DATE,
        }
    }

    /// The words that stand before the row of this field.
    pub fn label(self) -> (l: &'static str)
        ensures
            l@ == match self {
                Field::Name => "Name"@,
                Field::Description => "Description"@,
                Field::Authors => "Authors"@,
                Field::Version => "Version"@,
                Field::Date => "Date"@,
            },
    {
        match self {
            Field::Name => "Name",
            Field::Description => "Description",
            Field::Authors => "Authors",
            Field::Version => "Version",
            Field::Date => "Date",
        }
    }

    /// Whether the read-only row of this field cuts a long value short. Only
    /// the description is cut.
    pub fn truncates(self) -> (r: bool)
        ensures
            r == (self == Field::Description),
    {
        match self {
            Field::Description => true,
            _ => false,
        }
    }
}

/// What a row presents beside its label.
#[derive(Clone, Debug, PartialEq, Eq)]
pub enum Cell {
    /// A value to read, not to edit.
    Label(String),
    /// The field is unset: there is nothing to edit but its presence.
    Unset,
    /// A text to edit.
    Text(String),
    /// A list of names, each to edit or to drop, and room to add one.
    Authors(Vec<String>),
    /// A version whose three numbers can be stepped.
    Version(Version),
    /// A date to pick.
    Date(Date),
}

/// A cell as a plain value.
pub ghost enum CellView {
    Label(Seq<char>),
    Unset,
    Text(Seq<char>),
    Authors(Seq<Seq<char>>),
    Version(VersionView),
    Date(DateView),
}

impl View for Cell {
    type V = CellView;

    open spec fn view(&self) -> CellView {
        match self {
            Cell::Label(text) => CellView::Label(text@),
            Cell::Unset => CellView::Unset,
            Cell::Text(text) => CellView::Text(text@),
            Cell::Authors(names) => CellView::Authors(names_of(names@)),
            Cell::Version(v) => CellView::Version(v@),
            Cell::Date(d) => CellView::Date(d@),
        }
    }
}

/// One row of the form.
#[derive(Clone, Debug, PartialEq, Eq)]
pub struct Row {
    pub field: Field,
    pub cell: Cell,
}

/// A row as a plain value.
pub ghost struct RowView {
    pub field: Field,
    pub cell: CellView,
}

impl View for Row {
    type V = RowView;

    open spec fn view(&self) -> RowView {
        RowView { field: self.field, cell: self.cell@ }
    }
}

/// The plain values of a list of rows.
pub open spec fn rows_of(rows: Seq<Row>) -> Seq<RowView> {
    rows.map_values(|row: Row| row@)
}

} // verus!
