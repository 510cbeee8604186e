//! Transcription history: the recent transcripts, newest first, with a
//! bounded length.  Loading and saving the log is the shell's business.

use vstd::prelude::*;

use crate::text::str_eq;

verus! {

/// One transcript kept in the history.
pub struct TranscriptionEntry {
    pub id: String,
    /// Milliseconds since the Unix epoch.
    pub timestamp_ms: u64,
    pub transcribed_text: String,
    pub duration_ms: u64,
    pub success: bool,
    pub processing_time_ms: u64,
    pub character_count: usize,
    pub word_count: usize,
}

/// Copy an entry field by field.
pub fn clone_entry(e: &TranscriptionEntry) -> (r: TranscriptionEntry)
    ensures
        r == *e,
{
    TranscriptionEntry {
        id: e.id.clone(),
        timestamp_ms: e.timestamp_ms,
        transcribed_text: e.transcribed_text.clone(),
        duration_ms: e.duration_ms,
        success: e.success,
        processing_time_ms: e.processing_time_ms,
        character_count: e.character_count,
        word_count: e.word_count,
    }
}

/// Newest first.
pub open spec fn desc_sorted(s: Seq<TranscriptionEntry>) -> bool {
    forall|i: int, j: int| 0 <= i < j < s.len() ==> (#[trigger] s[i]).timestamp_ms
        >= (#[trigger] s[j]).timestamp_ms
}

/// The sequence with `e` inserted behind every entry at least as recent.
pub open spec fn insert_desc(s: Seq<TranscriptionEntry>, e: TranscriptionEntry) -> Seq<
    TranscriptionEntry,
>
    decreases s.len(),
{
    if s.len() == 0 {
        seq![e]
    } else if s[0].timestamp_ms >= e.timestamp_ms {
        seq![s[0]] + insert_desc(s.drop_first(), e)
    } else {
        seq![e] + s
    }
}

/// Inserting at the first index whose entry is older than `e` is what
/// `insert_desc` does.
proof fn lemma_insert_desc_at(s: Seq<TranscriptionEntry>, e: TranscriptionEntry, p: int)
    requires
        0 <= p <= s.len(),
        forall|i: int| 0 <= i < p ==> (#[trigger] s[i]).timestamp_ms >= e.timestamp_ms,
        p < s.len() ==> s[p].timestamp_ms < e.timestamp_ms,
    ensures
        insert_desc(s, e) == s.insert(p, e),
    decreases s.len(),
{
    if s.len() == 0 {
        assert(insert_desc(s, e) =~= s.insert(0, e));
    } else if p == 0 {
        assert(insert_desc(s, e) =~= s.insert(0, e));
    } else {
        assert(s[0].timestamp_ms >= e.timestamp_ms);
        assert(forall|i: int| 0 <= i < p - 1 ==> (#[trigger] s.drop_first()[i]).timestamp_ms
            >= e.timestamp_ms);
        lemma_insert_desc_at(s.drop_first(), e, p - 1);
        assert(seq![s[0]] + s.drop_first().insert(p - 1, e) =~= s.insert(p, e));
    }
}

/// The recent transcripts, newest first, at most `max_entries` kept.
pub struct TranscriptionHistory {
    pub entries: Vec<TranscriptionEntry>,
    pub max_entries: usize,
}

pub open spec fn history_wf(h: TranscriptionHistory) -> bool {
    &&& desc_sorted(h.entries@)
    &&& h.entries@.len() <= h.max_entries
    &&& h.max_entries >= 1
}

/// First index whose entry carries `id`, or the length if none does.
pub open spec fn find_id(s: Seq<TranscriptionEntry>, id: Seq<char>) -> int
    decreases s.len(),
{
    if s.len() == 0 {
        0
    } else if s[0].id@ == id {
        0
    } else {
        1 + find_id(s.drop_first(), id)
    }
}

proof fn lemma_find_id(s: Seq<TranscriptionEntry>, id: Seq<char>)
    ensures
        0 <= find_id(s, id) <= s.len(),
        find_id(s, id) < s.len() ==> s[find_id(s, id)].id@ == id,
        forall|i: int| 0 <= i < find_id(s, id) ==> (#[trigger] s[i]).id@ != id,
    decreases s.len(),
{
    if s.len() > 0 && s[0].id@ != id {
        lemma_find_id(s.drop_first(), id);
        assert(forall|i: int| 1 <= i < find_id(s, id) ==> (#[trigger] s[i])
            == s.drop_first()[i - 1]);
    }
}

impl TranscriptionHistory {
    /// An empty history keeping at most a thousand transcripts.
    pub fn new() -> (h: TranscriptionHistory)
        ensures
            history_wf(h),
            h.entries@.len() == 0,
            h.max_entries == 1000,
    {
        TranscriptionHistory { entries: Vec::new(), max_entries: 1000 }
    }

    /// File the entry among the kept transcripts, newest first; when the
    /// log is full the oldest entries fall off the end.
    pub fn add_entry(&mut self, entry: TranscriptionEntry)
        requires
            history_wf(*old(self)),
        ensures
            history_wf(*final(self)),
            final(self).max_entries == old(self).max_entries,
            final(self).entries@ == insert_desc(old(self).entries@, entry).take(
                if old(self).entries@.len() < old(self).max_entries {
                    old(self).entries@.len() as int + 1
                } else {
                    old(self).max_entries as int
                },
            ),
    {
        let n = self.entries.len();
        let mut pos: usize = 0;
        while pos < n && self.entries[pos].timestamp_ms >= entry.timestamp_ms
            invariant
                n == self.entries@.len(),
                pos <= n,
                *self == *old(self),
                forall|i: int| 0 <= i < pos ==> (#[trigger] self.entries@[i]).timestamp_ms
                    >= entry.timestamp_ms,
            decreases n - pos,
        {
            pos += 1;
        }
        proof {
            lemma_insert_desc_at(self.entries@, entry, pos as int);
        }
        self.entries.insert(pos, entry);
        if self.entries.len() > self.max_entries {
            self.entries.truncate(self.max_entries);
        }
        proof {
            if old(self).entries@.len() < old(self).max_entries {
                assert(self.entries@ =~= insert_desc(old(self).entries@, entry).take(
                    old(self).entries@.len() as int + 1,
                ));
            }
            assert(desc_sorted(self.entries@)) by {
                assert(forall|i: int| 0 <= i < self.entries@.len() ==> #[trigger] self
                    .entries@[i] == insert_desc(old(self).entries@, entry)[i]);
                assert(forall|i: int| 0 <= i < pos ==> #[trigger] insert_desc(
                    old(self).entries@,
                    entry,
                )[i] == old(self).entries@[i]);
                assert(insert_desc(old(self).entries@, entry)[pos as int] == entry);
                assert(forall|i: int|
                    pos < i < insert_desc(old(self).entries@, entry).len()
                        ==> #[trigger] insert_desc(old(self).entries@, entry)[i] == old(
                        self,
                    ).entries@[i - 1]);
            }
        }
    }

    /// The `limit` most recent transcripts, newest first.
    pub fn get_recent_entries(&self, limit: usize) -> (r: Vec<TranscriptionEntry>)
        ensures
            r@ == self.entries@.take(
                if limit < self.entries@.len() {
                    limit as int
                } else {
                    self.entries@.len() as int
                },
            ),
    {
        let n = self.entries.len();
        let count = if limit < n {
            limit
        } else {
            n
        };
        let mut out: Vec<TranscriptionEntry> = Vec::new();
        let mut i: usize = 0;
        while i < count
            invariant
                count <= n,
                n == self.entries@.len(),
                i <= count,
                out@ == self.entries@.take(i as int),
            decreases count - i,
        {
            proof {
                assert(self.entries@.take(i as int + 1) =~= self.entries@.take(
                    i as int,
                ).push(self.entries@[i as int]));
            }
            out.push(clone_entry(&self.entries[i]));
            i += 1;
        }
        out
    }

    /// Remove the first transcript carrying `id`; reports whether one
    /// was there.
    pub fn delete_entry(&mut self, id: &str) -> (removed: bool)
        ensures
            removed == (find_id(old(self).entries@, id@) < old(self).entries@.len()),
            removed ==> final(self).entries@ == old(self).entries@.remove(
                find_id(old(self).entries@, id@),
            ),
            !removed ==> final(self).entries@ == old(self).entries@,
            final(self).max_entries == old(self).max_entries,
    {
        proof {
            lemma_find_id(self.entries@, id@);
        }
        let n = self.entries.len();
        let mut i: usize = 0;
        while i < n && !str_eq(self.entries[i].id.as_str(), id)
            invariant
                n == self.entries@.len(),
                i <= n,
                *self == *old(self),
                forall|k: int| 0 <= k < i ==> (#[trigger] self.entries@[k]).id@ != id@,
            decreases n - i,
        {
            i += 1;
        }
        proof {
            lemma_find_id(self.entries@, id@);
            if i < n {
                assert(find_id(self.entries@, id@) == i) by {
                    assert(self.entries@[i as int].id@ == id@);
                }
            }
        }
        if i < n {
            self.entries.remove(i);
            true
        } else {
            false
        }
    }
}

} // verus!
