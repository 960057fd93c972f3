//! The authors field: a list of names kept as one string, the names joined by
//! commas. A comma inside a name is not escaped, so such a name does not come
//! back as it went in.

use vstd::prelude::*;
use vstd::std_specs::iter::IteratorSpec;

verus! {

/// The character that stands between two names.
pub const SEPARATOR: char = ',';

/// The names that `s` holds: what stands between its commas, empty names
/// included. No text at all is one empty name.
pub open spec fn split(s: Seq<char>) -> Seq<Seq<char>>
    decreases s.len(),
{
    if s.len() == 0 {
        seq![Seq::empty()]
    } else if s.last() == SEPARATOR {
        split(s.drop_last()).push(Seq::empty())
    } else {
        let before = split(s.drop_last());
        before.drop_last().push(before.last().push(s.last()))
    }
}

/// The names of `names` with a comma between each two.
pub open spec fn join(names: Seq<Seq<char>>) -> Seq<char>
    decreases names.len(),
{
    if names.len() == 0 {
        Seq::empty()
    } else if names.len() == 1 {
        names[0]
    } else {
        join(names.drop_last()) + seq![SEPARATOR] + names.last()
    }
}

/// No name of `names` holds a comma.
pub open spec fn comma_free(names: Seq<Seq<char>>) -> bool {
    forall|i: int, j: int|
        0 <= i < names.len() && 0 <= j < names[i].len() ==> #[trigger] names[i][j] != SEPARATOR
}

/// The views of a list of strings.
pub open spec fn names_of(list: Seq<String>) -> Seq<Seq<char>> {
    list.map_values(|name: String| name@)
}

/// Splitting always gives at least one name.
pub proof fn lemma_split_nonempty(s: Seq<char>)
    ensures
        split(s).len() >= 1,
    decreases s.len(),
{
    if s.len() > 0 {
        lemma_split_nonempty(s.drop_last());
    }
}

/// Text without a comma, put behind `a`, lengthens the last name of `a`.
pub proof fn lemma_split_append(a: Seq<char>, b: Seq<char>)
    requires
        forall|j: int| 0 <= j < b.len() ==> b[j] != SEPARATOR,
    ensures
        split(a + b) == split(a).drop_last().push(split(a).last() + b),
    decreases b.len(),
{
    lemma_split_nonempty(a);
    if b.len() == 0 {
        assert(a + b =~= a);
        assert(split(a).last() + b =~= split(a).last());
        assert(split(a).drop_last().push(split(a).last()) =~= split(a));
    } else {
        let b0 = b.drop_last();
        lemma_split_append(a, b0);
        assert((a + b).drop_last() =~= a + b0);
        assert((a + b).last() == b.last());
        let before = split(a + b0);
        assert(before.drop_last() =~= split(a).drop_last());
        assert(before.last().push(b.last()) =~= split(a).last() + b);
    }
}

/// Joining names that hold no comma and splitting the result gives the names
/// back. The empty list is left out: joined it is no text, which splits into
/// one empty name.
pub proof fn lemma_split_join(names: Seq<Seq<char>>)
    requires
        names.len() > 0,
        comma_free(names),
    ensures
        split(join(names)) == names,
    decreases names.len(),
{
    let last = names.last();
    assert forall|j: int| 0 <= j < last.len() implies last[j] != SEPARATOR by {
        assert(names[names.len() - 1][j] != SEPARATOR);
    }
    if names.len() == 1 {
        lemma_split_append(Seq::empty(), last);
        assert(Seq::<char>::empty() + last =~= last);
        assert(split(Seq::<char>::empty()) == seq![Seq::<char>::empty()]);
        assert(seq![Seq::<char>::empty()].drop_last().push(Seq::<char>::empty() + last)
            =~= names);
    } else {
        let head = names.drop_last();
        assert(comma_free(head)) by {
            assert forall|i: int, j: int|
                0 <= i < head.len() && 0 <= j < head[i].len() implies #[trigger] head[i][j]
                != SEPARATOR by {
                assert(head[i] == names[i]);
                assert(names[i][j] != SEPARATOR);
            }
        }
        lemma_split_join(head);
        let a = join(head) + seq![SEPARATOR];
        assert(a.drop_last() =~= join(head));
        assert(a.last() == SEPARATOR);
        assert(split(a) == head.push(Seq::empty()));
        lemma_split_append(a, last);
        assert(head.push(Seq::<char>::empty()).drop_last() =~= head);
        assert(Seq::<char>::empty() + last =~= last);
        assert(head.push(last) =~= names);
    }
}

/// Splitting a text and joining the names gives the text back, whatever the
/// text.
pub proof fn lemma_join_split(s: Seq<char>)
    ensures
        join(split(s)) == s,
    decreases s.len(),
{
    if s.len() == 0 {
        assert(s =~= Seq::<char>::empty());
    } else {
        let t = s.drop_last();
        lemma_join_split(t);
        lemma_split_nonempty(t);
        let before = split(t);
        if s.last() == SEPARATOR {
            let now = before.push(Seq::empty());
            assert(now.drop_last() =~= before);
            assert(join(now) =~= join(before) + seq![SEPARATOR] + Seq::<char>::empty());
            assert(join(now) =~= s);
        } else {
            let now = before.drop_last().push(before.last().push(s.last()));
            if before.len() == 1 {
                assert(join(now) =~= before[0].push(s.last()));
                assert(join(before) == before[0]);
                assert(join(now) =~= s);
            } else {
                assert(now.drop_last() =~= before.drop_last());
                assert(join(now) =~= (join(before.drop_last()) + seq![SEPARATOR]
                    + before.last()).push(s.last()));
                assert(join(now) =~= s);
            }
        }
    }
}

/// The names that the authors value `value` holds, none trimmed and empty
/// ones kept.
pub fn split_authors(value: &str) -> (names: Vec<String>)
    ensures
        names_of(names@) == split(value@),
        names@.len() >= 1,
{
    let n = value.unicode_len();
    let mut names: Vec<String> = Vec::new();
    let mut it = value.chars();
    let mut i: usize = 0;
    let mut start: usize = 0;
    proof {
        assert(value@.take(0) =~= Seq::<char>::empty());
        assert(value@.subrange(0, 0) =~= Seq::<char>::empty());
        assert(names_of(names@).push(Seq::<char>::empty()) =~= seq![Seq::<char>::empty()]);
    }
    loop
        invariant
            n == value@.len(),
            0 <= start <= i <= n,
            it.remaining() == value@.skip(i as int),
            split(value@.take(i as int)) == names_of(names@).push(
                value@.subrange(start as int, i as int),
            ),
        ensures
            i == n,
        decreases n - i,
    {
        match it.next() {
            None => {
                assert(value@.skip(i as int).len() == 0);
                break ;
            },
            Some(c) => {
                assert(value@.skip(i as int).drop_first() =~= value@.skip(i + 1));
                assert(c == value@[i as int]);
                proof {
                    let now = value@.take(i + 1);
                    assert(now.drop_last() =~= value@.take(i as int));
                    assert(now.last() == c);
                }
                let ghost before = names_of(names@);
                let ghost current = value@.subrange(start as int, i as int);
                if c == SEPARATOR {
                    names.push(value.substring_char(start, i).to_owned());
                    start = i + 1;
                    proof {
                        assert(names_of(names@) =~= before.push(current));
                        assert(value@.subrange(start as int, i + 1) =~= Seq::<char>::empty());
                    }
                } else {
                    proof {
                        assert(before.push(current).drop_last() =~= before);
                        assert(current.push(c) =~= value@.subrange(start as int, i + 1));
                    }
                }
                i = i + 1;
            },
        }
    }
    let ghost before = names_of(names@);
    names.push(value.substring_char(start, n).to_owned());
    proof {
        assert(value@.take(n as int) =~= value@);
        assert(names_of(names@) =~= before.push(value@.subrange(start as int, n as int)));
    }
    names
}

/// The authors value that holds `names`: the names with a comma between each
/// two, and no text for no name.
pub fn join_authors(names: &Vec<String>) -> (value: String)
    ensures
        value@ == join(names_of(names@)),
{
    let mut value = String::new();
    let mut i: usize = 0;
    while i < names.len()
        invariant
            0 <= i <= names.len(),
            value@ == join(names_of(names@).take(i as int)),
        decreases names.len() - i,
    {
        let ghost done = names_of(names@).take(i as int);
        let ghost now = names_of(names@).take(i + 1);
        proof {
            assert(now.drop_last() =~= done);
            assert(now.last() == names@[i as int]@);
        }
        if i > 0 {
            value.append(",");
            proof {
                reveal_strlit(",");
                assert(","@ =~= seq![SEPARATOR]);
            }
        } else {
            assert(value@ =~= Seq::<char>::empty());
        }
        value.append(names[i].as_str());
        assert(value@ =~= join(now));
        i = i + 1;
    }
    assert(names_of(names@).take(i as int) =~= names_of(names@));
    value
}

} // verus!
