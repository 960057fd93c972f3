//! Metadata as the key-value block of a table file: a list of entries that is
//! copied into a map when a file is read and copied out of it when one is
//! written.

use crate::entries::{
    del, has, lemma_put_sorted, lemma_rank_is, put, sorted, to_map, Entry,
};
use crate::{entries_of, Metadata};
use vstd::prelude::*;

verus! {

/// The key under which a table file keeps its own schema. It is not part of
/// the metadata that a reader is shown.
pub const RESERVED_KEY: &'static str = "ARROW:schema";

/// The entries of `block` collected into key order, a later entry replacing
/// an earlier one of the same key.
pub open spec fn collected(block: Seq<Entry>) -> Seq<Entry>
    decreases block.len(),
{
    if block.len() == 0 {
        Seq::empty()
    } else {
        put(collected(block.drop_last()), block.last().0, block.last().1)
    }
}

/// Collected entries are in key order.
pub proof fn lemma_collected_sorted(block: Seq<Entry>)
    ensures
        sorted(collected(block)),
    decreases block.len(),
{
    if block.len() > 0 {
        lemma_collected_sorted(block.drop_last());
        lemma_put_sorted(collected(block.drop_last()), block.last().0, block.last().1);
    }
}

/// A block that is in key order already is collected into itself.
pub proof fn lemma_collected_of_sorted(block: Seq<Entry>)
    requires
        sorted(block),
    ensures
        collected(block) == block,
    decreases block.len(),
{
    if block.len() == 0 {
        assert(block =~= Seq::<Entry>::empty());
    } else {
        let head = block.drop_last();
        let last = block.last();
        assert(sorted(head)) by {
            assert forall|i: int, j: int| 0 <= i < j < head.len() implies crate::text::key_less(
                #[trigger] head[i].0,
                #[trigger] head[j].0,
            ) by {
                assert(head[i] == block[i] && head[j] == block[j]);
            }
        }
        lemma_collected_of_sorted(head);
        assert forall|i: int| 0 <= i < head.len() implies crate::text::key_less(
            #[trigger] head[i].0,
            last.0,
        ) by {
            assert(head[i] == block[i]);
            assert(crate::text::key_less(block[i].0, block[block.len() - 1].0));
        }
        lemma_rank_is(head, last.0, head.len() as int);
        assert(has(head, last.0) == false);
        assert(head.insert(head.len() as int, last) =~= block);
    }
}

/// The map that holds the entries of `block`.
pub fn decode(block: &Vec<(String, String)>) -> (m: Metadata)
    ensures
        m.wf(),
        m.pairs() == collected(entries_of(block@)),
{
    let mut m = Metadata::new();
    let mut i: usize = 0;
    while i < block.len()
        invariant
            0 <= i <= block.len(),
            m.wf(),
            m.pairs() == collected(entries_of(block@).take(i as int)),
        decreases block.len() - i,
    {
        proof {
            let now = entries_of(block@).take(i + 1);
            assert(now.drop_last() =~= entries_of(block@).take(i as int));
            assert(now.last() == (block@[i as int].0@, block@[i as int].1@));
        }
        m.insert(block[i].0.clone(), block[i].1.clone());
        i = i + 1;
    }
    assert(entries_of(block@).take(i as int) =~= entries_of(block@));
    m
}

/// The map that holds the entries of `block` but the one of the reserved key.
pub fn decode_stripped(block: &Vec<(String, String)>) -> (m: Metadata)
    ensures
        m.wf(),
        m.pairs() == del(collected(entries_of(block@)), RESERVED_KEY@),
        m@ == to_map(collected(entries_of(block@))).remove(RESERVED_KEY@),
        !m@.contains_key(RESERVED_KEY@),
{
    let mut m = decode(block);
    m.remove(RESERVED_KEY);
    m
}

/// The entries of `m` as a block, in the order of their keys.
pub fn encode(m: &Metadata) -> (block: Vec<(String, String)>)
    requires
        m.wf(),
    ensures
        entries_of(block@) == m.pairs(),
        sorted(entries_of(block@)),
{
    m.to_entries()
}

/// A map written as a block and read again is the map it was. `block` stands
/// for what `encode` returns for `m`, and `back` for any map that `decode`
/// can return for that block.
pub proof fn lemma_decode_encode(m: Metadata, block: Seq<Entry>, back: Metadata)
    requires
        m.wf(),
        block == m.pairs(),
        back.pairs() == collected(block),
    ensures
        back.pairs() == m.pairs(),
        back@ == m@,
{
    lemma_collected_of_sorted(m.pairs());
}

/// A block in key order, read as a map and written again, is the block it
/// was. `decoded` stands for any map that `decode` can return for `block`,
/// and `back` for what `encode` returns for that map.
pub proof fn lemma_encode_decode(block: Seq<Entry>, decoded: Metadata, back: Seq<Entry>)
    requires
        sorted(block),
        decoded.pairs() == collected(block),
        back == decoded.pairs(),
    ensures
        back == block,
{
    lemma_collected_of_sorted(block);
}

/// Whatever the block, what is read from it is a map in key order that binds
/// each key of the block to the value of its last entry.
pub proof fn lemma_decode_binds_last(block: Seq<Entry>, i: int)
    requires
        0 <= i < block.len(),
        forall|j: int| i < j < block.len() ==> block[j].0 != block[i].0,
    ensures
        sorted(collected(block)),
        to_map(collected(block)).contains_key(block[i].0),
        to_map(collected(block))[block[i].0] == block[i].1,
    decreases block.len(),
{
    lemma_collected_sorted(block);
    let head = block.drop_last();
    let last = block.last();
    crate::entries::lemma_put_map(collected(head), last.0, last.1);
    if i < block.len() - 1 {
        assert forall|j: int| i < j < head.len() implies head[j].0 != head[i].0 by {
            assert(head[j] == block[j] && head[i] == block[i]);
        }
        lemma_decode_binds_last(head, i);
        assert(head[i] == block[i]);
        assert(block[block.len() - 1].0 != block[i].0);
    }
}

/// One entry of the key-value list of a Parquet file. A key may come without
/// a value.
#[derive(Clone, Debug, PartialEq, Eq, Hash)]
pub struct KeyValue {
    pub key: String,
    pub value: Option<String>,
}

/// A key-value entry as a plain value.
pub type KeyValueView = (Seq<char>, Option<Seq<char>>);

/// The plain values of a list of key-value entries.
pub open spec fn key_values_of(list: Seq<KeyValue>) -> Seq<KeyValueView> {
    list.map_values(
        |kv: KeyValue|
            (
                kv.key@,
                match kv.value {
                    Some(v) => Some(v@),
                    None => None,
                },
            ),
    )
}

/// The entries of `list` that have a value, in their order.
pub open spec fn with_value(list: Seq<KeyValueView>) -> Seq<Entry>
    decreases list.len(),
{
    if list.len() == 0 {
        Seq::empty()
    } else {
        match list.last().1 {
            Some(v) => with_value(list.drop_last()).push((list.last().0, v)),
            None => with_value(list.drop_last()),
        }
    }
}

/// The entries of `pairs` as key-value entries, each with its value.
pub open spec fn all_with_value(pairs: Seq<Entry>) -> Seq<KeyValueView> {
    pairs.map_values(|e: Entry| (e.0, Some(e.1)))
}

/// The map that holds those entries of `list` that have a value.
pub fn from_key_values(list: &Vec<KeyValue>) -> (m: Metadata)
    ensures
        m.wf(),
        m.pairs() == collected(with_value(key_values_of(list@))),
{
    let mut m = Metadata::new();
    let mut i: usize = 0;
    while i < list.len()
        invariant
            0 <= i <= list.len(),
            m.wf(),
            m.pairs() == collected(with_value(key_values_of(list@).take(i as int))),
        decreases list.len() - i,
    {
        proof {
            let now = key_values_of(list@).take(i + 1);
            assert(now.drop_last() =~= key_values_of(list@).take(i as int));
            let rest = with_value(now.drop_last());
            match now.last().1 {
                Some(v) => {
                    assert(rest.push((now.last().0, v)).drop_last() =~= rest);
                },
                None => {},
            }
        }
        match &list[i].value {
            Some(value) => {
                m.insert(list[i].key.clone(), value.clone());
            },
            None => {},
        }
        i = i + 1;
    }
    assert(key_values_of(list@).take(i as int) =~= key_values_of(list@));
    m
}

/// The entries of `m` as key-value entries, in the order of their keys and
/// each with its value.
pub fn to_key_values(m: &Metadata) -> (list: Vec<KeyValue>)
    requires
        m.wf(),
    ensures
        key_values_of(list@) == all_with_value(m.pairs()),
{
    let entries = m.to_entries();
    assert(entries_of(entries@).len() == entries@.len());
    let mut list: Vec<KeyValue> = Vec::new();
    let mut i: usize = 0;
    while i < entries.len()
        invariant
            0 <= i <= entries.len(),
            entries_of(entries@) == m.pairs(),
            list@.len() == i,
            m.pairs().len() == entries@.len(),
            key_values_of(list@) == all_with_value(m.pairs()).take(i as int),
        decreases entries.len() - i,
    {
        assert(entries_of(entries@)[i as int] == m.pairs()[i as int]);
        let ghost before = list@;
        let key = entries[i].0.clone();
        let value = entries[i].1.clone();
        list.push(KeyValue { key, value: Some(value) });
        proof {
            let now = key_values_of(list@);
            let want = all_with_value(m.pairs()).take(i + 1);
            assert(now.len() == want.len());
            assert forall|j: int| 0 <= j < now.len() implies now[j] == want[j] by {
                if j < i {
                    assert(list@[j] == before[j]);
                    assert(key_values_of(before)[j] == all_with_value(m.pairs()).take(i as int)[j]);
                }
            }
            assert(now =~= want);
        }
        i = i + 1;
    }
    assert(entries_of(entries@).len() == entries@.len());
    assert(all_with_value(m.pairs()).take(i as int) =~= all_with_value(m.pairs()));
    list
}

/// Entries that all have a value are all kept.
pub proof fn lemma_with_value_of_all(pairs: Seq<Entry>)
    ensures
        with_value(all_with_value(pairs)) == pairs,
    decreases pairs.len(),
{
    if pairs.len() == 0 {
        assert(pairs =~= Seq::<Entry>::empty());
    } else {
        lemma_with_value_of_all(pairs.drop_last());
        assert(all_with_value(pairs).drop_last() =~= all_with_value(pairs.drop_last()));
        assert(pairs.drop_last().push(pairs.last()) =~= pairs);
    }
}

/// A map written as key-value entries and read again is the map it was.
/// `list` stands for what `to_key_values` returns for `m`, and `back` for any
/// map that `from_key_values` can return for that list.
pub proof fn lemma_key_values_round_trip(m: Metadata, list: Seq<KeyValueView>, back: Metadata)
    requires
        m.wf(),
        list == all_with_value(m.pairs()),
        back.pairs() == collected(with_value(list)),
    ensures
        back.pairs() == m.pairs(),
        back@ == m@,
{
    lemma_with_value_of_all(m.pairs());
    lemma_collected_of_sorted(m.pairs());
}

} // verus!
