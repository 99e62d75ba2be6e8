//! Preserving the user's clipboard around an insertion: the snapshot kept
//! while the transcript is pasted, and the timing settings of the exchange.
use vstd::prelude::*;
use crate::text::{chars_of, join, parse_setting, push_all, setting_or, split_on,
    lemma_split_on_len, starts_with_chars, string_from_chars};

verus! {

/// One representation of the clipboard contents.
pub struct ClipboardEntry {
    pub mime_type: String,
    pub data: Vec<u8>,
}

/// Everything the clipboard offered before the transcript replaced it.
pub struct ClipboardSnapshot {
    pub entries: Vec<ClipboardEntry>,
}

/// The non-empty pieces of a list.
pub open spec fn nonempty_pieces(pieces: Seq<Seq<char>>) -> Seq<Seq<char>>
    decreases pieces.len(),
{
    if pieces.len() == 0 {
        seq![]
    } else {
        let rest = nonempty_pieces(pieces.drop_last());
        if pieces.last().len() > 0 {
            rest.push(pieces.last())
        } else {
            rest
        }
    }
}

/// The MIME types named by a comma-separated list, empty names left out.
pub open spec fn mime_types_in(list: Seq<char>) -> Seq<Seq<char>> {
    nonempty_pieces(split_on(list, ','))
}

proof fn lemma_split_step(pre: Seq<char>, c: char, sep: char)
    ensures
        c == sep ==> split_on(pre.push(c), sep) == split_on(pre, sep).push(seq![]),
        c != sep ==> split_on(pre.push(c), sep) == split_on(pre, sep).update(
            split_on(pre, sep).len() - 1,
            split_on(pre, sep).last().push(c),
        ),
{
    assert(pre.push(c).drop_last() =~= pre);
}

/// The MIME types of a comma-separated list.
pub fn mime_types(list: &str) -> (r: Vec<String>)
    ensures
        r@.len() == mime_types_in(list@).len(),
        forall|i: int| 0 <= i < r@.len() ==> (#[trigger] r@[i])@ == mime_types_in(list@)[i],
{
    let chars = chars_of(list);
    let mut out: Vec<String> = Vec::new();
    let mut cur: Vec<char> = Vec::new();
    let mut i: usize = 0;
    proof {
        assert(chars@.take(0) =~= Seq::<char>::empty());
    }
    while i < chars.len()
        invariant
            i <= chars.len(),
            chars@ == list@,
            cur@ == split_on(chars@.take(i as int), ',').last(),
            out@.len() == nonempty_pieces(split_on(chars@.take(i as int), ',').drop_last()).len(),
            forall|j: int|
                0 <= j < out@.len() ==> (#[trigger] out@[j])@ == nonempty_pieces(
                    split_on(chars@.take(i as int), ',').drop_last(),
                )[j],
        decreases chars.len() - i,
    {
        let c = chars[i];
        let ghost pre = chars@.take(i as int);
        let ghost p = split_on(pre, ',');
        proof {
            assert(chars@.take(i + 1) =~= pre.push(c));
            lemma_split_step(pre, c, ',');
            lemma_split_on_len(pre, ',');
        }
        if c == ',' {
            proof {
                assert(p.push(seq![]).drop_last() =~= p);
                assert(p.drop_last().push(p.last()) =~= p);
            }
            if cur.len() > 0 {
                let ghost before = out@;
                out.push(string_from_chars(&cur));
                proof {
                    assert forall|j: int| 0 <= j < out@.len() implies (#[trigger] out@[j])@
                        == nonempty_pieces(p)[j] by {
                        if j < before.len() {
                            assert(out@[j] == before[j]);
                        }
                    }
                }
            }
            cur = Vec::new();
        } else {
            proof {
                let q = p.update(p.len() - 1, p.last().push(c));
                assert(q.drop_last() =~= p.drop_last());
            }
            cur.push(c);
        }
        i = i + 1;
    }
    assert(chars@.take(chars.len() as int) =~= chars@);
    proof {
        lemma_split_on_len(chars@, ',');
        let p = split_on(chars@, ',');
        assert(p.drop_last().push(p.last()) =~= p);
    }
    if cur.len() > 0 {
        let ghost before = out@;
        out.push(string_from_chars(&cur));
        proof {
            let p = split_on(chars@, ',');
            assert forall|j: int| 0 <= j < out@.len() implies (#[trigger] out@[j])@
                == nonempty_pieces(p)[j] by {
                if j < before.len() {
                    assert(out@[j] == before[j]);
                }
            }
        }
    }
    out
}

/// A snapshot holding the named MIME types, each with no data.
pub fn snapshot_of_mime_types(list: &str) -> (r: ClipboardSnapshot)
    ensures
        r.entries@.len() == mime_types_in(list@).len(),
        forall|i: int|
            0 <= i < r.entries@.len() ==> (#[trigger] r.entries@[i]).mime_type@
                == mime_types_in(list@)[i] && r.entries@[i].data@.len() == 0,
{
    let names = mime_types(list);
    let mut entries: Vec<ClipboardEntry> = Vec::new();
    let mut i: usize = 0;
    while i < names.len()
        invariant
            i <= names.len(),
            names@.len() == mime_types_in(list@).len(),
            forall|j: int| 0 <= j < names@.len() ==> (#[trigger] names@[j])@ == mime_types_in(list@)[j],
            entries@.len() == i,
            forall|j: int|
                0 <= j < i ==> (#[trigger] entries@[j]).mime_type@ == mime_types_in(list@)[j]
                    && entries@[j].data@.len() == 0,
        decreases names.len() - i,
    {
        let name = string_from_chars(&chars_of(names[i].as_str()));
        entries.push(ClipboardEntry { mime_type: name, data: Vec::new() });
        i = i + 1;
    }
    ClipboardSnapshot { entries }
}

/// The MIME types of a snapshot's entries.
pub open spec fn entry_types(entries: Seq<ClipboardEntry>) -> Seq<Seq<char>> {
    entries.map_values(|e: ClipboardEntry| e.mime_type@)
}

/// The MIME types of a snapshot, joined by commas.
pub fn mime_list(snapshot: &ClipboardSnapshot) -> (r: String)
    ensures
        r@ == join(entry_types(snapshot.entries@), seq![',']),
{
    let mut out: Vec<char> = Vec::new();
    let mut i: usize = 0;
    while i < snapshot.entries.len()
        invariant
            i <= snapshot.entries.len(),
            out@ == join(entry_types(snapshot.entries@.take(i as int)), seq![',']),
        decreases snapshot.entries.len() - i,
    {
        let name = chars_of(snapshot.entries[i].mime_type.as_str());
        let ghost pre = entry_types(snapshot.entries@.take(i as int));
        proof {
            assert(entry_types(snapshot.entries@.take(i + 1)) =~= pre.push(name@));
            crate::text::lemma_join_push(pre, seq![','], name@);
        }
        if i > 0 {
            out.push(',');
        }
        push_all(&mut out, &name);
        i = i + 1;
    }
    assert(snapshot.entries@.take(snapshot.entries.len() as int) =~= snapshot.entries@);
    string_from_chars(&out)
}

/// Whether a MIME type is plain text (of any character set).
pub open spec fn is_plain_text(mime: Seq<char>) -> bool {
    "text/plain"@.len() <= mime.len() && mime.take("text/plain"@.len() as int) == "text/plain"@
}

/// The first entry holding plain text, which is what a text-only clipboard
/// can restore.
pub fn plain_text_entry(snapshot: &ClipboardSnapshot) -> (r: Option<usize>)
    ensures
        r matches Some(i) ==> i < snapshot.entries@.len() && is_plain_text(
            snapshot.entries@[i as int].mime_type@,
        ) && forall|j: int|
            0 <= j < i ==> !is_plain_text(#[trigger] snapshot.entries@[j].mime_type@),
        r is None ==> forall|j: int|
            0 <= j < snapshot.entries@.len() ==> !is_plain_text(
                #[trigger] snapshot.entries@[j].mime_type@,
            ),
{
    let prefix = chars_of("text/plain");
    let mut i: usize = 0;
    while i < snapshot.entries.len()
        invariant
            i <= snapshot.entries.len(),
            prefix@ == "text/plain"@,
            forall|j: int| 0 <= j < i ==> !is_plain_text(#[trigger] snapshot.entries@[j].mime_type@),
        decreases snapshot.entries.len() - i,
    {
        let name = chars_of(snapshot.entries[i].mime_type.as_str());
        if starts_with_chars(&name, &prefix) {
            return Some(i);
        }
        i = i + 1;
    }
    None
}

/// How long to wait for clipboard data: the setting in milliseconds
/// (1000 when unset or invalid), kept between 10 ms and 5 s.
pub fn clipboard_timeout_ms(setting: Option<&str>) -> (r: u64)
    ensures
        r == ({
            let v = setting_or(
                match setting {
                    Some(s) => Some(s@),
                    None => None,
                },
                1000,
            );
            if v < 10 {
                10
            } else if v > 5000 {
                5000
            } else {
                v
            }
        }),
{
    let v = parse_setting(setting, 1000);
    if v < 10 {
        10
    } else if v > 5000 {
        5000
    } else {
        v
    }
}

/// How long the transcript stays on the clipboard before the previous
/// contents come back: the setting in milliseconds (120 when unset or
/// invalid), at most 5 s.
pub fn restore_delay_ms(setting: Option<&str>) -> (r: u64)
    ensures
        r == ({
            let v = setting_or(
                match setting {
                    Some(s) => Some(s@),
                    None => None,
                },
                120,
            );
            if v > 5000 {
                5000
            } else {
                v
            }
        }),
{
    let v = parse_setting(setting, 120);
    if v > 5000 {
        5000
    } else {
        v
    }
}

/// Clipboard data larger than this (64 MiB) is not preserved.
pub const MAX_CLIPBOARD_BYTES: usize = 67_108_864;

/// The wait handed to `poll` for the milliseconds that are left of a
/// transfer: at least 1 and at most `i32::MAX`.
pub fn poll_timeout_ms(remaining_ms: u128) -> (r: i32)
    ensures
        r == (if remaining_ms < 1 {
            1
        } else if remaining_ms > i32::MAX {
            i32::MAX as int
        } else {
            remaining_ms as int
        }),
{
    if remaining_ms < 1 {
        1
    } else if remaining_ms > 2_147_483_647u128 {
        i32::MAX
    } else {
        remaining_ms as i32
    }
}

/// What one wait on the clipboard pipe leads to.
#[derive(Clone, Copy, Debug, PartialEq, Eq, Structural)]
pub enum PipeWait {
    /// The wait was interrupted by a signal: wait again.
    Retry,
    /// Nothing arrived before the deadline.
    TimedOut,
    /// The wait itself failed.
    WaitFailed,
    /// The descriptor is not open.
    Invalid,
    /// The pipe reported neither data nor hang-up.
    Failed,
    /// Data (or the end of the data) can be read.
    Readable,
}

/// The outcome of `poll` on the clipboard pipe: `ready` is its return
/// value, `interrupted` whether a failure was an interruption, and the two
/// flags come from the events it reported.
pub fn pipe_wait(ready: i32, interrupted: bool, invalid: bool, readable_or_hung_up: bool) -> (r:
    PipeWait)
    ensures
        ready < 0 && interrupted ==> r == PipeWait::Retry,
        ready < 0 && !interrupted ==> r == PipeWait::WaitFailed,
        ready == 0 ==> r == PipeWait::TimedOut,
        ready > 0 && invalid ==> r == PipeWait::Invalid,
        ready > 0 && !invalid && !readable_or_hung_up ==> r == PipeWait::Failed,
        ready > 0 && !invalid && readable_or_hung_up ==> r == PipeWait::Readable,
{
    if ready < 0 {
        if interrupted {
            PipeWait::Retry
        } else {
            PipeWait::WaitFailed
        }
    } else if ready == 0 {
        PipeWait::TimedOut
    } else if invalid {
        PipeWait::Invalid
    } else if !readable_or_hung_up {
        PipeWait::Failed
    } else {
        PipeWait::Readable
    }
}

/// Appends a chunk read from the clipboard pipe to the data before it;
/// `false` once the data exceeds the safety limit.
pub fn accept_chunk(data: &mut Vec<u8>, chunk: &[u8]) -> (within_limit: bool)
    ensures
        final(data)@ == old(data)@ + chunk@,
        within_limit == (final(data)@.len() <= MAX_CLIPBOARD_BYTES),
{
    let mut i: usize = 0;
    while i < chunk.len()
        invariant
            i <= chunk.len(),
            data@ == old(data)@ + chunk@.subrange(0, i as int),
        decreases chunk.len() - i,
    {
        data.push(chunk[i]);
        proof {
            assert(chunk@.subrange(0, i + 1) == chunk@.subrange(0, i as int).push(chunk@[i as int]));
        }
        i = i + 1;
    }
    proof {
        assert(chunk@.subrange(0, chunk@.len() as int) == chunk@);
    }
    data.len() <= MAX_CLIPBOARD_BYTES
}

} // verus!
