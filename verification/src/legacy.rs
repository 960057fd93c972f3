//! The five well-known keys were once written with a capital first letter.
//! Maps from that time are read by moving each such key to the key of today.

use crate::entries::TextMap;
use crate::{Metadata, AUTHORS, DATE, DESCRIPTION, NAME, VERSION};
use vstd::prelude::*;

verus! {

/// The former key of the authors field.
pub const LEGACY_AUTHORS: &'static str = "Authors";

/// The former key of the date field.
pub const LEGACY_DATE: &'static str = "Date";

/// The former key of the description field.
pub const LEGACY_DESCRIPTION: &'static str = "Description";

/// The former key of the name field.
pub const LEGACY_NAME: &'static str = "Name";

/// The former key of the version field.
pub const LEGACY_VERSION: &'static str = "Version";

/// `m` with the value of `legacy` moved to `key`: where `legacy` is set it is
/// unset, and `key` takes its value unless `key` is set already.
pub open spec fn moved(m: TextMap, legacy: Seq<char>, key: Seq<char>) -> TextMap {
    if !m.contains_key(legacy) {
        m
    } else if m.contains_key(key) {
        m.remove(legacy)
    } else {
        m.insert(key, m[legacy]).remove(legacy)
    }
}

/// `m` with each of the five former keys moved to the key of today.
pub open spec fn migrated(m: TextMap) -> TextMap {
    moved(
        moved(
            moved(
                moved(moved(m, LEGACY_NAME@, NAME@), LEGACY_DESCRIPTION@, DESCRIPTION@),
                LEGACY_AUTHORS@,
                AUTHORS@,
            ),
            LEGACY_VERSION@,
            VERSION@,
        ),
        LEGACY_DATE@,
        DATE@,
    )
}

/// Each former key differs from the key of today.
pub proof fn lemma_legacy_keys_differ()
    ensures
        LEGACY_NAME@ != NAME@,
        LEGACY_DESCRIPTION@ != DESCRIPTION@,
        LEGACY_AUTHORS@ != AUTHORS@,
        LEGACY_VERSION@ != VERSION@,
        LEGACY_DATE@ != DATE@,
{
    reveal_strlit("name");
    reveal_strlit("description");
    reveal_strlit("authors");
    reveal_strlit("version");
    reveal_strlit("date");
    reveal_strlit("Name");
    reveal_strlit("Description");
    reveal_strlit("Authors");
    reveal_strlit("Version");
    reveal_strlit("Date");
    assert(LEGACY_NAME@[0] == 'N' && NAME@[0] == 'n');
    assert(LEGACY_DESCRIPTION@[0] == 'D' && DESCRIPTION@[0] == 'd');
    assert(LEGACY_AUTHORS@[0] == 'A' && AUTHORS@[0] == 'a');
    assert(LEGACY_VERSION@[0] == 'V' && VERSION@[0] == 'v');
    assert(LEGACY_DATE@[0] == 'D' && DATE@[0] == 'd');
}

/// Moves the value of `legacy` to `key`.
fn move_key(m: &mut Metadata, legacy: &str, key: &str)
    requires
        old(m).wf(),
        legacy@ != key@,
    ensures
        final(m).wf(),
        final(m)@ == moved(old(m)@, legacy@, key@),
{
    match m.remove(legacy) {
        Some(value) => {
            if !m.contains_key(key) {
                m.insert(key.to_owned(), value);
                assert(m@ =~= old(m)@.insert(key@, old(m)@[legacy@]).remove(legacy@));
            }
        },
        None => {},
    }
}

/// Moves each of the five former keys of `m` to the key of today. A key of
/// today that is set keeps its value; all other entries stay as they are.
pub fn migrate(m: &mut Metadata)
    requires
        old(m).wf(),
    ensures
        final(m).wf(),
        final(m)@ == migrated(old(m)@),
{
    proof {
        lemma_legacy_keys_differ();
    }
    move_key(m, LEGACY_NAME, NAME);
    move_key(m, LEGACY_DESCRIPTION, DESCRIPTION);
    move_key(m, LEGACY_AUTHORS, AUTHORS);
    move_key(m, LEGACY_VERSION, VERSION);
    move_key(m, LEGACY_DATE, DATE);
}

} // verus!
