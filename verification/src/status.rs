//! Playback status and track metadata, as a player reports them.

use vstd::prelude::*;
use crate::chars::same_text;

verus! {

/// What a player says it is doing.
#[derive(Clone, Copy, Debug, PartialEq, Eq, Structural)]
pub enum PlaybackStatus {
    Playing,
    Paused,
    Stopped,
    Unknown,
}

/// The status that the text `s` stands for. Anything but the three words
/// that players use is `Unknown`.
pub open spec fn status_of(s: Seq<char>) -> PlaybackStatus {
    if s == "Playing"@ {
        PlaybackStatus::Playing
    } else if s == "Paused"@ {
        PlaybackStatus::Paused
    } else if s == "Stopped"@ {
        PlaybackStatus::Stopped
    } else {
        PlaybackStatus::Unknown
    }
}

impl PlaybackStatus {
    /// The status that the text `s` stands for.
    pub fn parse(s: &str) -> (r: PlaybackStatus)
        ensures
            r == status_of(s@),
    {
        if same_text(s, "Playing") {
            PlaybackStatus::Playing
        } else if same_text(s, "Paused") {
            PlaybackStatus::Paused
        } else if same_text(s, "Stopped") {
            PlaybackStatus::Stopped
        } else {
            PlaybackStatus::Unknown
        }
    }

    /// Whether scrolling is suspended under this status: under every status
    /// but `Playing`.
    pub open spec fn suspends(self) -> bool {
        self != PlaybackStatus::Playing
    }

    /// Whether scrolling is suspended under this status.
    pub fn is_suspended(self) -> (r: bool)
        ensures
            r == self.suspends(),
    {
        match self {
            PlaybackStatus::Playing => false,
            _ => true,
        }
    }
}

/// One field of a track's metadata.
pub struct MetadataEntry {
    pub key: String,
    pub value: String,
}

/// The metadata of a track: a mapping from field names to values, in which
/// any field may be missing.
pub struct TrackMetadata {
    entries: Vec<MetadataEntry>,
}

/// The mapping that a list of entries stands for; a later entry for a key
/// replaces an earlier one.
spec fn entries_map(entries: Seq<MetadataEntry>) -> Map<Seq<char>, Seq<char>>
    decreases entries.len(),
{
    if entries.len() == 0 {
        Map::empty()
    } else {
        entries_map(entries.drop_last()).insert(entries.last().key@, entries.last().value@)
    }
}

/// Whether the entry at `i` is the last one for `key`.
spec fn is_last_entry(entries: Seq<MetadataEntry>, key: Seq<char>, i: int) -> bool {
    &&& 0 <= i < entries.len()
    &&& entries[i].key@ == key
    &&& forall|j: int| i < j < entries.len() ==> entries[j].key@ != key
}

/// The last entry for a key gives the key's value.
proof fn lemma_last_entry_decides(entries: Seq<MetadataEntry>, key: Seq<char>, i: int)
    requires
        is_last_entry(entries, key, i),
    ensures
        entries_map(entries).contains_key(key),
        entries_map(entries)[key] == entries[i].value@,
    decreases entries.len(),
{
    if i < entries.len() - 1 {
        lemma_last_entry_decides(entries.drop_last(), key, i);
    }
}

/// Putting another value into the last entry for a key is setting the key
/// to that value.
proof fn lemma_replace_last_entry(entries: Seq<MetadataEntry>, i: int, entry: MetadataEntry)
    requires
        is_last_entry(entries, entry.key@, i),
    ensures
        entries_map(entries.update(i, entry)) == entries_map(entries).insert(
            entry.key@,
            entry.value@,
        ),
    decreases entries.len(),
{
    let changed = entries.update(i, entry);
    if i == entries.len() - 1 {
        assert(changed.drop_last() =~= entries.drop_last());
        assert(entries_map(changed) =~= entries_map(entries).insert(entry.key@, entry.value@));
    } else {
        lemma_replace_last_entry(entries.drop_last(), i, entry);
        assert(changed.drop_last() =~= entries.drop_last().update(i, entry));
        assert(entries_map(changed) =~= entries_map(entries).insert(entry.key@, entry.value@));
    }
}

impl View for TrackMetadata {
    type V = Map<Seq<char>, Seq<char>>;

    closed spec fn view(&self) -> Map<Seq<char>, Seq<char>> {
        entries_map(self.entries@)
    }
}

impl TrackMetadata {
    /// Metadata without any field.
    pub fn new() -> (m: Self)
        ensures
            m@ == Map::<Seq<char>, Seq<char>>::empty(),
    {
        TrackMetadata { entries: Vec::new() }
    }

    /// Where the field `key` is held: the index of its last entry.
    fn position(&self, key: &str) -> (r: Option<usize>)
        ensures
            r is Some == self@.contains_key(key@),
            r matches Some(i) ==> i < self.entries.len() && is_last_entry(
                self.entries@,
                key@,
                i as int,
            ),
    {
        let mut i: usize = self.entries.len();
        assert(self.entries@.take(i as int) =~= self.entries@);
        while i > 0
            invariant
                i <= self.entries.len(),
                forall|j: int| i <= j < self.entries.len() ==> self.entries[j].key@ != key@,
                self@.contains_key(key@) == entries_map(self.entries@.take(i as int)).contains_key(
                    key@,
                ),
            decreases i,
        {
            i -= 1;
            proof {
                let upto = self.entries@.take(i + 1);
                assert(upto.drop_last() =~= self.entries@.take(i as int));
                assert(upto.last() == self.entries@[i as int]);
            }
            if same_text(self.entries[i].key.as_str(), key) {
                return Some(i);
            }
        }
        None
    }

    /// Sets the field `key` to `value`, replacing what it held.
    pub fn insert(&mut self, key: String, value: String)
        ensures
            final(self)@ == old(self)@.insert(key@, value@),
    {
        match self.position(key.as_str()) {
            Some(i) => {
                proof {
                    lemma_replace_last_entry(
                        self.entries@,
                        i as int,
                        MetadataEntry { key, value },
                    );
                }
                self.entries.set(i, MetadataEntry { key, value });
            },
            None => {
                self.entries.push(MetadataEntry { key, value });
                assert(self.entries@.drop_last() =~= old(self).entries@);
            },
        }
    }

    /// The value of the field `key`, if the metadata has that field.
    pub fn get(&self, key: &str) -> (r: Option<&String>)
        ensures
            r is Some == self@.contains_key(key@),
            r matches Some(v) ==> v@ == self@[key@],
    {
        match self.position(key) {
            Some(i) => {
                proof {
                    lemma_last_entry_decides(self.entries@, key@, i as int);
                }
                Some(&self.entries[i].value)
            },
            None => None,
        }
    }
}

} // verus!
