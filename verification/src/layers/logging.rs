//! The audit log layer.
use vstd::prelude::*;
use vstd::utf8::{encode_utf8, is_char_boundary};
use crate::clock::now_ms;
use crate::tile::{copy_string, Layer, LayerResult, ResolutionLayer, Tile};

verus! {

broadcast use vstd::utf8::encode_utf8_valid_utf8;

/// Longest byte length of a log entry's summary.
pub const SUMMARY_MAX_BYTES: usize = 80;

/// A single log entry from the logging layer.
#[derive(Debug)]
pub struct LogEntry {
    pub timestamp_ms: u64,
    pub layer_name: String,
    pub tile_id: uuid::Uuid,
    pub room_id: String,
    /// Confidence in percent.
    pub confidence: u8,
    pub resolved_by: ResolutionLayer,
    pub content_summary: String,
}

impl Clone for LogEntry {
    fn clone(&self) -> (e: LogEntry)
        ensures
            e == *self,
    {
        LogEntry {
            timestamp_ms: self.timestamp_ms,
            layer_name: copy_string(&self.layer_name),
            tile_id: self.tile_id,
            room_id: copy_string(&self.room_id),
            confidence: self.confidence,
            resolved_by: self.resolved_by,
            content_summary: copy_string(&self.content_summary),
        }
    }
}

/// The largest character boundary of `bytes` that is at most `k`.
pub open spec fn boundary_at_or_below(bytes: Seq<u8>, k: int) -> int
    decreases k,
{
    if k <= 0 {
        0
    } else if is_char_boundary(bytes, k) {
        k
    } else {
        boundary_at_or_below(bytes, k - 1)
    }
}

/// How many bytes of a text with UTF-8 encoding `bytes` its summary keeps: all of them up
/// to 80, else the longest prefix of at most 80 bytes that ends on a character boundary.
pub open spec fn summary_len(bytes: Seq<u8>) -> int {
    if bytes.len() <= SUMMARY_MAX_BYTES {
        bytes.len() as int
    } else {
        boundary_at_or_below(bytes, SUMMARY_MAX_BYTES as int)
    }
}

/// `summary` is the summary of `content`: the first `summary_len` bytes of its encoding.
pub open spec fn is_summary(content: Seq<char>, summary: Seq<char>) -> bool {
    encode_utf8(summary) == encode_utf8(content).subrange(0, summary_len(encode_utf8(content)))
}

/// `e` records `tile` as seen by the logging layer (its timestamp is the clock's).
pub open spec fn records(e: LogEntry, tile: Tile) -> bool {
    &&& e.layer_name@ == "logging"@
    &&& e.tile_id == tile.id
    &&& e.room_id == tile.room_id
    &&& e.confidence == tile.confidence
    &&& e.resolved_by == tile.resolved_by
    &&& is_summary(tile.content@, e.content_summary@)
}

/// The entries that stay when one more is added: all of them, or all but the oldest when
/// the log is full.
pub open spec fn kept_entries(entries: Seq<LogEntry>, max_entries: usize) -> Seq<LogEntry> {
    if entries.len() >= max_entries {
        entries.skip(1)
    } else {
        entries
    }
}

/// The summary of a tile's text.
fn summarize(content: &String) -> (s: String)
    ensures
        is_summary(content@, s@),
{
    let text = content.as_str();
    if text.as_bytes().len() <= SUMMARY_MAX_BYTES {
        let s = copy_string(content);
        assert(encode_utf8(content@).subrange(0, encode_utf8(content@).len() as int) =~= encode_utf8(
            content@,
        ));
        s
    } else {
        let ghost bytes = encode_utf8(text@);
        let mut k: usize = SUMMARY_MAX_BYTES;
        while k > 0 && !text.is_char_boundary(k)
            invariant
                k <= SUMMARY_MAX_BYTES,
                bytes == encode_utf8(text@),
                bytes.len() > SUMMARY_MAX_BYTES,
                boundary_at_or_below(bytes, SUMMARY_MAX_BYTES as int) == boundary_at_or_below(
                    bytes,
                    k as int,
                ),
            decreases k,
        {
            k = k - 1;
        }
        assert(is_char_boundary(bytes, k as int));
        let (head, _tail) = text.split_at(k);
        String::from_str(head)
    }
}

/// Layer 4 (or any position): records every tile that passes with a timestamp.
///
/// This layer never resolves: it always escalates. It keeps at most `max_entries`
/// entries, dropping the oldest when full.
pub struct LoggingLayer {
    pub entries: Vec<LogEntry>,
    pub max_entries: usize,
}

impl LoggingLayer {
    pub fn new(max_entries: usize) -> (l: LoggingLayer)
        ensures
            l.entries@.len() == 0,
            l.max_entries == max_entries,
    {
        LoggingLayer { entries: Vec::new(), max_entries }
    }

    /// Read all log entries, oldest first.
    pub fn get_entries(&self) -> (r: Vec<LogEntry>)
        ensures
            r@ == self.entries@,
    {
        let n = self.entries.len();
        let mut r: Vec<LogEntry> = Vec::new();
        let mut i: usize = 0;
        while i < n
            invariant
                i <= n,
                n == self.entries@.len(),
                r@ == self.entries@.subrange(0, i as int),
            decreases n - i,
        {
            r.push(self.entries[i].clone());
            i = i + 1;
            assert(r@ =~= self.entries@.subrange(0, i as int));
        }
        assert(self.entries@.subrange(0, n as int) =~= self.entries@);
        r
    }
}

impl LoggingLayer {
    /// Record `tile` as seen at `at_ms` milliseconds since the Unix epoch and escalate it:
    /// the new entry, stamped with `at_ms`, goes last, and the oldest entry leaves when the
    /// log is full; a log of capacity 0 keeps nothing.
    pub fn record_at(&mut self, tile: Tile, at_ms: u64) -> (res: LayerResult)
        ensures
            old(self).step(tile, *final(self), res),
            final(self).max_entries > 0 ==> final(self).entries@.last().timestamp_ms == at_ms,
            final(self).max_entries > 0 ==> final(self).entries@.len() == if old(self).entries@.len()
                >= old(self).max_entries {
                old(self).entries@.len()
            } else {
                old(self).entries@.len() + 1
            },
    {
        if self.max_entries == 0 {
            return LayerResult::Escalate(tile);
        }
        let entry = LogEntry {
            timestamp_ms: at_ms,
            layer_name: String::from_str("logging"),
            tile_id: tile.id,
            room_id: copy_string(&tile.room_id),
            confidence: tile.confidence,
            resolved_by: tile.resolved_by,
            content_summary: summarize(&tile.content),
        };
        let ghost before = self.entries@;
        if self.entries.len() >= self.max_entries {
            self.entries.remove(0);
            assert(self.entries@ =~= before.skip(1));
        }
        self.entries.push(entry);
        assert(self.entries@.drop_last() =~= kept_entries(before, self.max_entries));
        LayerResult::Escalate(tile)
    }
}

impl Default for LoggingLayer {
    fn default() -> (l: LoggingLayer)
        ensures
            l.entries@.len() == 0,
            l.max_entries == 1000,
    {
        LoggingLayer::new(1000)
    }
}

impl Layer for LoggingLayer {
    /// The log holds no more entries than it may.
    open spec fn wf(&self) -> bool {
        self.entries@.len() <= self.max_entries
    }

    open spec fn spec_name(&self) -> Seq<char> {
        "logging"@
    }

    /// The tile always escalates. A log with room records it, dropping its oldest entry when
    /// full; a log of capacity 0 keeps nothing.
    open spec fn step(&self, tile: Tile, post: Self, res: LayerResult) -> bool {
        &&& res == LayerResult::Escalate(tile)
        &&& post.max_entries == self.max_entries
        &&& if self.max_entries == 0 {
            post.entries == self.entries
        } else {
            &&& post.entries@.len() > 0
            &&& records(post.entries@.last(), tile)
            &&& post.entries@.drop_last() == kept_entries(self.entries@, self.max_entries)
        }
    }

    fn name(&self) -> (n: &'static str) {
        "logging"
    }

    fn process(&mut self, tile: Tile) -> (res: LayerResult) {
        self.record_at(tile, now_ms())
    }
}

} // verus!
