//! Descriptive metadata for tabular datasets: an ordered string-to-string map
//! with a small vocabulary of well-known keys, its typed counterpart, and the
//! decisions behind an editable form bound to it.

pub mod authors;
pub mod block;
pub mod date;
pub mod edit;
pub mod entries;
pub mod error;
pub mod frame;
pub mod legacy;
pub mod outside;
pub mod row;
pub mod structured;
pub mod text;
pub mod version;
pub mod widget;

use crate::entries::{
    del, has, lemma_del_map, lemma_del_sorted, lemma_map_len, lemma_put_map, lemma_put_sorted,
    lemma_rank_is, lemma_sorted_index, lemma_sorted_unique, put, rank, sorted, to_map, Entry,
    TextMap,
};
use crate::text::{
    key_less, lemma_key_less_asymmetric, lemma_key_less_irreflexive, lemma_key_less_total,
    lemma_key_less_transitive, order_keys, same_text, KeyOrder,
};
use vstd::prelude::*;

verus! {

/// Key of the authors field: the names, joined by commas.
pub const AUTHORS: &'static str = "authors";

/// Key of the date field.
pub const DATE: &'static str = "date";

/// Key of the description field.
pub const DESCRIPTION: &'static str = "description";

/// Key of the name field.
pub const NAME: &'static str = "name";

/// Key of the version field.
pub const VERSION: &'static str = "version";

/// The date that stands for "no date set".
pub const DEFAULT_DATE: &'static str = "1970-01-01";

/// The version that stands for "no version set".
pub const DEFAULT_VERSION: &'static str = "0.0.0";

/// An ordered map from string keys to string values. Keys are unique and are
/// kept in lexical order.
#[derive(Clone, Debug, PartialEq, Eq, PartialOrd, Ord, Hash)]
pub struct Metadata {
    entries: Vec<(String, String)>,
}

impl View for Metadata {
    type V = TextMap;

    open spec fn view(&self) -> TextMap {
        to_map(self.pairs())
    }
}

impl Metadata {
    /// The entries in the order in which they are kept.
    pub closed spec fn pairs(&self) -> Seq<Entry> {
        entries_of(self.entries@)
    }

    /// The keys strictly increase.
    pub open spec fn wf(&self) -> bool {
        sorted(self.pairs())
    }

    /// An empty map.
    pub fn new() -> (m: Metadata)
        ensures
            m.wf(),
            m.pairs() == Seq::<Entry>::empty(),
            m@ == Map::<Seq<char>, Seq<char>>::empty(),
    {
        let m = Metadata { entries: Vec::new() };
        assert(m.pairs() =~= Seq::<Entry>::empty());
        assert(m@ =~= Map::<Seq<char>, Seq<char>>::empty());
        m
    }

    /// Where `key` stands among the entries, and whether it is there. The
    /// entries are in key order, so the place is found by halving.
    fn position(&self, key: &str) -> (r: (usize, bool))
        requires
            self.wf(),
        ensures
            r.0 == rank(self.pairs(), key@),
            r.1 == has(self.pairs(), key@),
            r.0 <= self.entries.len(),
    {
        let ghost pairs = self.pairs();
        let mut low: usize = 0;
        let mut high: usize = self.entries.len();
        while low < high
            invariant
                pairs == self.pairs(),
                sorted(pairs),
                pairs.len() == self.entries.len(),
                0 <= low <= high <= self.entries.len(),
                forall|j: int| 0 <= j < low ==> key_less(#[trigger] pairs[j].0, key@),
                forall|j: int| high <= j < pairs.len() ==> key_less(key@, #[trigger] pairs[j].0),
            decreases high - low,
        {
            let middle = low + (high - low) / 2;
            match order_keys(self.entries[middle].0.as_str(), key) {
                KeyOrder::Same => {
                    proof {
                        lemma_sorted_index(pairs, middle as int);
                    }
                    return (middle, true);
                },
                KeyOrder::Before => {
                    proof {
                        assert forall|j: int| 0 <= j < middle + 1 implies key_less(
                            #[trigger] pairs[j].0,
                            key@,
                        ) by {
                            if j < middle {
                                assert(key_less(pairs[j].0, pairs[middle as int].0));
                                lemma_key_less_transitive(pairs[j].0, pairs[middle as int].0, key@);
                            }
                        }
                    }
                    low = middle + 1;
                },
                KeyOrder::After => {
                    proof {
                        lemma_key_less_total(pairs[middle as int].0, key@);
                        assert forall|j: int| middle <= j < pairs.len() implies key_less(
                            key@,
                            #[trigger] pairs[j].0,
                        ) by {
                            if j > middle {
                                assert(key_less(pairs[middle as int].0, pairs[j].0));
                                lemma_key_less_transitive(key@, pairs[middle as int].0, pairs[j].0);
                            }
                        }
                    }
                    high = middle;
                },
            }
        }
        proof {
            if low < pairs.len() {
                lemma_key_less_asymmetric(key@, pairs[low as int].0);
                lemma_key_less_irreflexive(key@);
            }
            lemma_rank_is(pairs, key@, low as int);
        }
        (low, false)
    }

    /// The value bound to `key`, if there is one.
    pub fn get(&self, key: &str) -> (r: Option<&String>)
        requires
            self.wf(),
        ensures
            r is Some <==> self@.contains_key(key@),
            r matches Some(v) ==> v@ == self@[key@],
    {
        let (i, found) = self.position(key);
        if found {
            Some(&self.entries[i].1)
        } else {
            None
        }
    }

    /// Whether `key` is bound.
    pub fn contains_key(&self, key: &str) -> (r: bool)
        requires
            self.wf(),
        ensures
            r == self@.contains_key(key@),
    {
        let (_, found) = self.position(key);
        found
    }

    /// The number of entries.
    pub fn len(&self) -> (n: usize)
        requires
            self.wf(),
        ensures
            n == self@.dom().len(),
            n == self.pairs().len(),
            self@.dom().finite(),
    {
        proof {
            lemma_map_len(self.pairs());
        }
        self.entries.len()
    }

    /// Whether the map has no entry.
    pub fn is_empty(&self) -> (r: bool)
        requires
            self.wf(),
        ensures
            r == (self@.dom().len() == 0),
            r == (self.pairs().len() == 0),
    {
        self.len() == 0
    }

    /// Binds `key` to `value` and returns the value that `key` had before.
    pub fn insert(&mut self, key: String, value: String) -> (r: Option<String>)
        requires
            old(self).wf(),
        ensures
            final(self).wf(),
            final(self).pairs() == put(old(self).pairs(), key@, value@),
            final(self)@ == old(self)@.insert(key@, value@),
            r is Some <==> old(self)@.contains_key(key@),
            r matches Some(v) ==> v@ == old(self)@[key@],
    {
        let (i, found) = self.position(key.as_str());
        proof {
            lemma_put_sorted(self.pairs(), key@, value@);
            lemma_put_map(self.pairs(), key@, value@);
        }
        let ghost before = self.pairs();
        if found {
            let mut entry = (key, value);
            std::mem::swap(&mut self.entries[i], &mut entry);
            assert(self.pairs() =~= put(before, key@, value@));
            Some(entry.1)
        } else {
            self.entries.insert(i, (key, value));
            assert(self.pairs() =~= put(before, key@, value@));
            None
        }
    }

    /// Drops the entry for `key` and returns the value that it had.
    pub fn remove(&mut self, key: &str) -> (r: Option<String>)
        requires
            old(self).wf(),
        ensures
            final(self).wf(),
            final(self).pairs() == del(old(self).pairs(), key@),
            final(self)@ == old(self)@.remove(key@),
            r is Some <==> old(self)@.contains_key(key@),
            r matches Some(v) ==> v@ == old(self)@[key@],
    {
        let (i, found) = self.position(key);
        proof {
            lemma_del_sorted(self.pairs(), key@);
            lemma_del_map(self.pairs(), key@);
        }
        let ghost before = self.pairs();
        if found {
            let entry = self.entries.remove(i);
            assert(self.pairs() =~= del(before, key@));
            Some(entry.1)
        } else {
            None
        }
    }
}

/// The single-line title of a map: its name, then the separator and the date
/// where a date other than the default is set, then the separator and the
/// version where a version other than the default is set.
pub open spec fn title(m: TextMap, separator: Seq<char>) -> Seq<char> {
    title_name(m) + title_part(m, DATE@, DEFAULT_DATE@, separator) + title_part(
        m,
        VERSION@,
        DEFAULT_VERSION@,
        separator,
    )
}

/// The name as the title shows it: empty where no name is set.
pub open spec fn title_name(m: TextMap) -> Seq<char> {
    if m.contains_key(NAME@) {
        m[NAME@]
    } else {
        Seq::empty()
    }
}

/// What the field `key` adds to the title: the separator and the value, or
/// nothing where the field is unset or holds `default`.
pub open spec fn title_part(
    m: TextMap,
    key: Seq<char>,
    default: Seq<char>,
    separator: Seq<char>,
) -> Seq<char> {
    if m.contains_key(key) && m[key] != default {
        separator + m[key]
    } else {
        Seq::empty()
    }
}

impl Metadata {
    /// Appends to `out` what the field `key` adds to the title.
    fn push_title_part(&self, out: &mut String, key: &str, default: &str, separator: &str)
        requires
            self.wf(),
        ensures
            final(out)@ == old(out)@ + title_part(self@, key@, default@, separator@),
    {
        match self.get(key) {
            Some(value) => {
                if !same_text(value.as_str(), default) {
                    out.append(separator);
                    out.append(value.as_str());
                    assert(out@ =~= old(out)@ + (separator@ + value@));
                } else {
                    assert(out@ =~= old(out)@ + Seq::<char>::empty());
                }
            },
            None => {
                assert(out@ =~= old(out)@ + Seq::<char>::empty());
            },
        }
    }

    /// The single-line title of this map, with `separator` between its parts.
    pub fn format(&self, separator: &str) -> (r: String)
        requires
            self.wf(),
        ensures
            r@ == title(self@, separator@),
    {
        let mut out = String::new();
        match self.get(NAME) {
            Some(name) => {
                out.append(name.as_str());
            },
            None => {},
        }
        assert(out@ =~= title_name(self@));
        self.push_title_part(&mut out, DATE, DEFAULT_DATE, separator);
        self.push_title_part(&mut out, VERSION, DEFAULT_VERSION, separator);
        out
    }
}

/// The five well-known keys differ from one another.
pub proof fn lemma_keys_distinct()
    ensures
        NAME@ != DESCRIPTION@,
        NAME@ != AUTHORS@,
        NAME@ != VERSION@,
        NAME@ != DATE@,
        DESCRIPTION@ != AUTHORS@,
        DESCRIPTION@ != VERSION@,
        DESCRIPTION@ != DATE@,
        AUTHORS@ != VERSION@,
        AUTHORS@ != DATE@,
        VERSION@ != DATE@,
{
    reveal_strlit("name");
    reveal_strlit("description");
    reveal_strlit("authors");
    reveal_strlit("version");
    reveal_strlit("date");
    assert(NAME@.len() == 4 && DATE@.len() == 4 && DESCRIPTION@.len() == 11);
    assert(AUTHORS@.len() == 7 && VERSION@.len() == 7);
    assert(NAME@[0] == 'n' && DATE@[0] == 'd');
    assert(AUTHORS@[0] == 'a' && VERSION@[0] == 'v');
}

/// Two maps with the same keys and values hold the same entries in the same
/// order.
pub proof fn lemma_same_view_same_pairs(a: Metadata, b: Metadata)
    requires
        a.wf(),
        b.wf(),
        a@ == b@,
    ensures
        a.pairs() == b.pairs(),
{
    lemma_sorted_unique(a.pairs(), b.pairs());
}

/// The entries that a list of pairs of strings holds.
pub open spec fn entries_of(list: Seq<(String, String)>) -> Seq<Entry> {
    list.map_values(|e: (String, String)| (e.0@, e.1@))
}

impl Metadata {
    /// The entries of this map, in the order of their keys.
    pub fn to_entries(&self) -> (list: Vec<(String, String)>)
        requires
            self.wf(),
        ensures
            entries_of(list@) == self.pairs(),
            sorted(entries_of(list@)),
    {
        let mut list: Vec<(String, String)> = Vec::new();
        let mut i: usize = 0;
        while i < self.entries.len()
            invariant
                0 <= i <= self.entries.len(),
                list@.len() == i,
                self.pairs().len() == self.entries@.len(),
                entries_of(list@) == self.pairs().take(i as int),
            decreases self.entries.len() - i,
        {
            let ghost before = list@;
            let key = self.entries[i].0.clone();
            let value = self.entries[i].1.clone();
            list.push((key, value));
            proof {
                let now = entries_of(list@);
                let want = self.pairs().take(i + 1);
                assert(now.len() == want.len());
                assert forall|j: int| 0 <= j < now.len() implies now[j] == want[j] by {
                    if j < i {
                        assert(list@[j] == before[j]);
                        assert(entries_of(before)[j] == self.pairs().take(i as int)[j]);
                    }
                }
                assert(now =~= want);
            }
            i = i + 1;
        }
        assert(self.pairs().take(i as int) =~= self.pairs());
        list
    }
}

impl Default for Metadata {
    fn default() -> (m: Metadata)
        ensures
            m.wf(),
            m.pairs() == Seq::<Entry>::empty(),
            m@ == Map::<Seq<char>, Seq<char>>::empty(),
    {
        Metadata::new()
    }
}

} // verus!
