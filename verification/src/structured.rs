//! The typed form of a metadata map: name and description as texts, the
//! authors as a list, the version and the date as parsed values; and the
//! conversion between the two forms.

use crate::authors::{join, join_authors, names_of, split, split_authors};
use crate::date::{
    date_or_default, date_text, default_date, parsed_date, Date, DateView, DATE_FORMAT,
};
use crate::entries::{lemma_sorted_unique, TextMap};
use crate::error::FieldError;
use crate::version::{
    begins_with_digit, default_version, parsed_version, version_or_default, version_text, Version,
    VersionView,
};
use crate::{lemma_keys_distinct, Metadata, AUTHORS, DATE, DESCRIPTION, NAME, VERSION};
use vstd::prelude::*;

verus! {

/// Metadata with one typed field for each well-known key.
#[derive(Clone, Debug, PartialEq, Eq)]
pub struct StructuredMetadata {
    pub name: String,
    pub description: String,
    pub authors: Vec<String>,
    pub version: Option<Version>,
    pub date: Option<Date>,
}

/// Typed metadata as a plain value.
pub ghost struct StructuredView {
    pub name: Seq<char>,
    pub description: Seq<char>,
    pub authors: Seq<Seq<char>>,
    pub version: Option<VersionView>,
    pub date: Option<DateView>,
}

impl View for StructuredMetadata {
    type V = StructuredView;

    open spec fn view(&self) -> StructuredView {
        StructuredView {
            name: self.name@,
            description: self.description@,
            authors: names_of(self.authors@),
            version: match self.version {
                Some(v) => Some(v@),
                None => None,
            },
            date: match self.date {
                Some(d) => Some(d@),
                None => None,
            },
        }
    }
}

/// The value of `key` in `m`, or no text where `key` is unset.
pub open spec fn text_or_empty(m: TextMap, key: Seq<char>) -> Seq<char> {
    if m.contains_key(key) {
        m[key]
    } else {
        Seq::empty()
    }
}

/// The authors of `m`: none where the key is unset or its value is no text,
/// else what stands between the commas of the value, untrimmed and with
/// empty names kept.
pub open spec fn authors_of(m: TextMap) -> Seq<Seq<char>> {
    if m.contains_key(AUTHORS@) && m[AUTHORS@].len() > 0 {
        split(m[AUTHORS@])
    } else {
        Seq::empty()
    }
}

/// The version field of `m` is set to a text that does not begin with a
/// digit, and so to no version.
pub open spec fn version_refused(m: TextMap) -> bool {
    m.contains_key(VERSION@) && !begins_with_digit(m[VERSION@])
}

/// The version field of `m` is unset or holds a version.
pub open spec fn version_readable(m: TextMap) -> bool {
    m.contains_key(VERSION@) ==> parsed_version(m[VERSION@]) is Some
}

/// The date field of `m` is unset or holds a date.
pub open spec fn date_readable(m: TextMap) -> bool {
    m.contains_key(DATE@) ==> parsed_date(m[DATE@], DATE_FORMAT@) is Some
}

/// The version of `m`: none where the key is unset, the default where the
/// value is no version.
pub open spec fn version_of(m: TextMap) -> Option<VersionView> {
    if m.contains_key(VERSION@) {
        Some(version_or_default(m[VERSION@]))
    } else {
        None
    }
}

/// The date of `m`: none where the key is unset, the default where the value
/// is no date.
pub open spec fn date_of(m: TextMap) -> Option<DateView> {
    if m.contains_key(DATE@) {
        Some(date_or_default(m[DATE@]))
    } else {
        None
    }
}

/// The typed form of `m`, with the default in place of a version or a date
/// that cannot be read.
pub open spec fn decoded(m: TextMap) -> StructuredView {
    StructuredView {
        name: text_or_empty(m, NAME@),
        description: text_or_empty(m, DESCRIPTION@),
        authors: authors_of(m),
        version: version_of(m),
        date: date_of(m),
    }
}

/// How many fields of `m` cannot be read.
pub open spec fn unreadable_fields(m: TextMap) -> nat {
    (if version_readable(m) {
        0nat
    } else {
        1nat
    }) + (if date_readable(m) {
        0nat
    } else {
        1nat
    })
}

/// `m` with `key` bound to `value` where there is a value.
pub open spec fn with_optional(
    m: TextMap,
    key: Seq<char>,
    value: Option<Seq<char>>,
) -> TextMap {
    match value {
        Some(v) => m.insert(key, v),
        None => m,
    }
}

/// The authors value for a list of names, or none for the empty list.
pub open spec fn authors_value(names: Seq<Seq<char>>) -> Option<Seq<char>> {
    if names.len() > 0 {
        Some(join(names))
    } else {
        None
    }
}

/// The map form of `s`: name and description always, the authors where
/// there is one, the version and the date where they are set.
pub open spec fn encoded(s: StructuredView) -> TextMap {
    let base = Map::<Seq<char>, Seq<char>>::empty().insert(NAME@, s.name).insert(
        DESCRIPTION@,
        s.description,
    );
    let with_authors = with_optional(base, AUTHORS@, authors_value(s.authors));
    let with_version = with_optional(
        with_authors,
        VERSION@,
        match s.version {
            Some(v) => Some(version_text(v)),
            None => None,
        },
    );
    with_optional(
        with_version,
        DATE@,
        match s.date {
            Some(d) => Some(date_text(d)),
            None => None,
        },
    )
}

/// The value of `key` in `m`, or no text where `key` is unset.
fn get_or_empty(m: &Metadata, key: &str) -> (r: String)
    requires
        m.wf(),
    ensures
        r@ == text_or_empty(m@, key@),
{
    match m.get(key) {
        Some(value) => value.clone(),
        None => String::new(),
    }
}

/// The authors of `m`.
fn get_authors(m: &Metadata) -> (r: Vec<String>)
    requires
        m.wf(),
    ensures
        names_of(r@) == authors_of(m@),
{
    match m.get(AUTHORS) {
        Some(value) => {
            if !value.as_str().is_empty() {
                return split_authors(value.as_str());
            }
        },
        None => {},
    }
    let r: Vec<String> = Vec::new();
    assert(names_of(r@) =~= Seq::<Seq<char>>::empty());
    r
}

/// What reading a field gave, as a plain value: nothing where the field is
/// unset or could not be read.
pub open spec fn version_read(read: Option<Result<Version, FieldError>>) -> Option<VersionView> {
    match read {
        Some(Ok(v)) => Some(v@),
        _ => None,
    }
}

/// What reading a field gave, as a plain value: nothing where the field is
/// unset or could not be read.
pub open spec fn date_read(read: Option<Result<Date, FieldError>>) -> Option<DateView> {
    match read {
        Some(Ok(d)) => Some(d@),
        _ => None,
    }
}

/// The errors of the two readings, the one of the version first.
pub open spec fn errors_read(
    version: Option<Result<Version, FieldError>>,
    date: Option<Result<Date, FieldError>>,
) -> Seq<FieldError> {
    (match version {
        Some(Err(e)) => seq![e],
        _ => Seq::empty(),
    }) + (match date {
        Some(Err(e)) => seq![e],
        _ => Seq::empty(),
    })
}

impl StructuredMetadata {
    /// The typed value of the given fields, strictly: where the version or
    /// the date was set and could not be read, the first such error comes
    /// back in place of a value, the one of the version first.
    pub fn from_parts(
        name: String,
        description: String,
        authors: Vec<String>,
        version: Option<Result<Version, FieldError>>,
        date: Option<Result<Date, FieldError>>,
    ) -> (r: Result<StructuredMetadata, FieldError>)
        ensures
            match r {
                Ok(s) => errors_read(version, date).len() == 0 && s@ == (StructuredView {
                    name: name@,
                    description: description@,
                    authors: names_of(authors@),
                    version: version_read(version),
                    date: date_read(date),
                }),
                Err(e) => errors_read(version, date).len() > 0 && e == errors_read(
                    version,
                    date,
                )[0],
            },
    {
        let version = match version {
            Some(Ok(v)) => Some(v),
            Some(Err(e)) => {
                return Err(e);
            },
            None => None,
        };
        let date = match date {
            Some(Ok(d)) => Some(d),
            Some(Err(e)) => {
                return Err(e);
            },
            None => None,
        };
        Ok(StructuredMetadata { name, description, authors, version, date })
    }

    /// The typed value of the given fields, resiliently: where the version
    /// or the date was set and could not be read, the default stands in its
    /// place, and the errors come back beside the value.
    pub fn from_parts_resilient(
        name: String,
        description: String,
        authors: Vec<String>,
        version: Option<Result<Version, FieldError>>,
        date: Option<Result<Date, FieldError>>,
    ) -> (r: (StructuredMetadata, Vec<FieldError>))
        ensures
            r.0@ == (StructuredView {
                name: name@,
                description: description@,
                authors: names_of(authors@),
                version: match version {
                    Some(Ok(v)) => Some(v@),
                    Some(Err(_)) => Some(default_version()),
                    None => None,
                },
                date: match date {
                    Some(Ok(d)) => Some(d@),
                    Some(Err(_)) => Some(default_date()),
                    None => None,
                },
            }),
            r.1@ == errors_read(version, date),
    {
        let mut diagnostics: Vec<FieldError> = Vec::new();
        let ghost reads = errors_read(version, date);
        let version_kept = match version {
            Some(read) => {
                let (kept, error) = Version::or_default(read);
                match error {
                    Some(e) => {
                        diagnostics.push(e);
                    },
                    None => {},
                }
                Some(kept)
            },
            None => None,
        };
        let date_kept = match date {
            Some(read) => {
                let (kept, error) = Date::or_default(read);
                match error {
                    Some(e) => {
                        diagnostics.push(e);
                    },
                    None => {},
                }
                Some(kept)
            },
            None => None,
        };
        assert(diagnostics@ =~= reads);
        (
            StructuredMetadata {
                name,
                description,
                authors,
                version: version_kept,
                date: date_kept,
            },
            diagnostics,
        )
    }

    /// Reads `m` strictly: a version or a date that cannot be read fails the
    /// whole reading, the version first.
    pub fn decode(m: &Metadata) -> (r: Result<StructuredMetadata, FieldError>)
        requires
            m.wf(),
        ensures
            match r {
                Ok(s) => version_readable(m@) && date_readable(m@) && s@ == decoded(m@),
                Err(e) => if version_readable(m@) {
                    !date_readable(m@) && e is Date
                } else {
                    e is Version
                },
            },
            version_refused(m@) ==> (r matches Err(e) && e is Version),
    {
        let version = match m.get(VERSION) {
            Some(text) => Some(Version::parse(text.as_str())),
            None => None,
        };
        let date = match m.get(DATE) {
            Some(text) => Some(Date::parse(text.as_str())),
            None => None,
        };
        StructuredMetadata::from_parts(
            get_or_empty(m, NAME),
            get_or_empty(m, DESCRIPTION),
            get_authors(m),
            version,
            date,
        )
    }

    /// Reads `m` resiliently: a version or a date that cannot be read gives
    /// the default, and the error is handed back beside the result.
    pub fn decode_resilient(m: &Metadata) -> (r: (StructuredMetadata, Vec<FieldError>))
        requires
            m.wf(),
        ensures
            r.0@ == decoded(m@),
            r.1@.len() == unreadable_fields(m@),
            !version_readable(m@) ==> r.1@[0] is Version,
            !date_readable(m@) ==> r.1@.last() is Date,
            version_refused(m@) ==> r.0@.version == Some(default_version()) && r.1@.len() >= 1
                && r.1@[0] is Version,
    {
        let version = match m.get(VERSION) {
            Some(text) => Some(Version::parse(text.as_str())),
            None => None,
        };
        let date = match m.get(DATE) {
            Some(text) => Some(Date::parse(text.as_str())),
            None => None,
        };
        StructuredMetadata::from_parts_resilient(
            get_or_empty(m, NAME),
            get_or_empty(m, DESCRIPTION),
            get_authors(m),
            version,
            date,
        )
    }

    /// Writes this value as a map.
    pub fn encode(&self) -> (m: Metadata)
        ensures
            m.wf(),
            m@ == encoded(self@),
    {
        let mut m = Metadata::new();
        m.insert(NAME.to_owned(), self.name.clone());
        m.insert(DESCRIPTION.to_owned(), self.description.clone());
        if self.authors.len() > 0 {
            m.insert(AUTHORS.to_owned(), join_authors(&self.authors));
        }
        match &self.version {
            Some(v) => {
                m.insert(VERSION.to_owned(), v.to_string());
            },
            None => {},
        }
        match &self.date {
            Some(d) => {
                m.insert(DATE.to_owned(), d.to_string());
            },
            None => {},
        }
        m
    }
}

/// Writing always binds name and description, to what the typed value holds.
pub proof fn lemma_encode_binds_name_and_description(s: StructuredView)
    ensures
        encoded(s).contains_key(NAME@),
        encoded(s)[NAME@] == s.name,
        encoded(s).contains_key(DESCRIPTION@),
        encoded(s)[DESCRIPTION@] == s.description,
{
    lemma_keys_distinct();
}

/// Writing binds the other three keys exactly where the typed value has
/// something for them, and binds no further key.
pub proof fn lemma_encode_binds_optional_fields(s: StructuredView)
    ensures
        encoded(s).contains_key(AUTHORS@) <==> s.authors.len() > 0,
        s.authors.len() > 0 ==> encoded(s)[AUTHORS@] == join(s.authors),
        encoded(s).contains_key(VERSION@) <==> s.version is Some,
        s.version matches Some(v) ==> encoded(s)[VERSION@] == version_text(v),
        encoded(s).contains_key(DATE@) <==> s.date is Some,
        s.date matches Some(d) ==> encoded(s)[DATE@] == date_text(d),
        forall|k: Seq<char>| #[trigger]
            encoded(s).contains_key(k) ==> k == NAME@ || k == DESCRIPTION@ || k == AUTHORS@ || k
                == VERSION@ || k == DATE@,
{
    lemma_keys_distinct();
}

/// A map without a name, read and written again, has the name bound to no
/// text: reading and writing are not inverse to each other.
pub proof fn lemma_unset_name_is_written_empty(m: TextMap)
    requires
        !m.contains_key(NAME@),
    ensures
        encoded(decoded(m)).contains_key(NAME@),
        encoded(decoded(m))[NAME@] == Seq::<char>::empty(),
{
    lemma_encode_binds_name_and_description(decoded(m));
}

/// A map whose authors are bound to no text, read and written again, has no
/// authors key.
pub proof fn lemma_empty_authors_are_not_written(m: TextMap)
    requires
        m.contains_key(AUTHORS@),
        m[AUTHORS@].len() == 0,
    ensures
        !encoded(decoded(m)).contains_key(AUTHORS@),
{
    lemma_encode_binds_optional_fields(decoded(m));
}

/// Writing the same typed value twice gives the same map, entry by entry:
/// any two maps that `encode` can return for one value hold the same entries
/// in the same order.
pub proof fn lemma_encode_is_repeatable(s: StructuredView, first: Metadata, second: Metadata)
    requires
        first.wf(),
        second.wf(),
        first@ == encoded(s),
        second@ == encoded(s),
    ensures
        first.pairs() == second.pairs(),
{
    lemma_sorted_unique(first.pairs(), second.pairs());
}

} // verus!
