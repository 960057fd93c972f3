//! A table together with its metadata.

use crate::block::{
    all_with_value, collected, from_key_values, key_values_of, lemma_collected_of_sorted,
    lemma_with_value_of_all, to_key_values, with_value, KeyValue, KeyValueView, RESERVED_KEY,
};
use crate::entries::{del, has, to_map, Entry, TextMap};
use crate::Metadata;
use vstd::prelude::*;

verus! {

/// Metadata `meta` beside the table `data` that it describes.
#[derive(Clone, Debug, Default, PartialEq, Eq, PartialOrd, Ord, Hash)]
pub struct MetaDataFrame<M, D> {
    pub meta: M,
    pub data: D,
}

impl<M, D> MetaDataFrame<M, D> {
    /// `meta` beside `data`.
    pub fn new(meta: M, data: D) -> (frame: Self)
        ensures
            frame.meta == meta,
            frame.data == data,
    {
        Self { meta, data }
    }
}

/// The entries that a frame takes from the key-value list of a Parquet file:
/// those that have a value, in key order, without the one of the reserved
/// key, under which the file keeps its own schema; and none where the file
/// has no such list.
pub open spec fn entries_read(key_values: Option<Seq<KeyValueView>>) -> Seq<Entry> {
    match key_values {
        Some(list) => del(collected(with_value(list)), RESERVED_KEY@),
        None => Seq::empty(),
    }
}

impl<D> MetaDataFrame<Metadata, D> {
    /// What was read from a Parquet file, as a frame: the table `data`, and
    /// as metadata those entries of the file's key-value list that have a
    /// value, but the one of the reserved key; or no entry where the file
    /// has no such list.
    pub fn read_parquet(key_values: Option<Vec<KeyValue>>, data: D) -> (frame: Self)
        ensures
            frame.data == data,
            frame.meta.wf(),
            frame.meta.pairs() == entries_read(
                match key_values {
                    Some(list) => Some(key_values_of(list@)),
                    None => None,
                },
            ),
            frame.meta@ == match key_values {
                Some(list) => to_map(collected(with_value(key_values_of(list@)))).remove(
                    RESERVED_KEY@,
                ),
                None => TextMap::empty(),
            },
            !frame.meta@.contains_key(RESERVED_KEY@),
    {
        let meta = match key_values {
            Some(list) => {
                let mut meta = from_key_values(&list);
                meta.remove(RESERVED_KEY);
                meta
            },
            None => Metadata::new(),
        };
        Self { meta, data }
    }

    /// What is to be written to a Parquet file: the metadata as the file's
    /// key-value list, each entry with its value, and the table.
    pub fn write_parquet(self) -> (r: (Vec<KeyValue>, D))
        requires
            self.meta.wf(),
        ensures
            key_values_of(r.0@) == all_with_value(self.meta.pairs()),
            r.1 == self.data,
    {
        let key_values = to_key_values(&self.meta);
        (key_values, self.data)
    }
}

/// A map that does not bind the reserved key, written to a Parquet file and
/// read again, is the map it was. `list` stands for the key-value list that
/// `write_parquet` hands out for `m`, and `back` for any metadata that
/// `read_parquet` can return for that list.
pub proof fn lemma_parquet_round_trip(m: Metadata, list: Seq<KeyValueView>, back: Metadata)
    requires
        m.wf(),
        !m@.contains_key(RESERVED_KEY@),
        list == all_with_value(m.pairs()),
        back.pairs() == entries_read(Some(list)),
    ensures
        back.pairs() == m.pairs(),
        back@ == m@,
{
    assert(m@.contains_key(RESERVED_KEY@) == has(m.pairs(), RESERVED_KEY@));
    assert(collected(with_value(list)) == m.pairs()) by {
        lemma_with_value_of_all(m.pairs());
        lemma_collected_of_sorted(m.pairs());
    }
}

} // verus!
