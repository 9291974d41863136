use vstd::prelude::*;

use crate::message::{parse_frame, SseMessage};
use crate::text::{delim, find_delim, first_delim, is_delim_at, lemma_first_delim};

verus! {

/// The buffer cut at every blank-line delimiter, leftmost first.  There is
/// always at least one segment; the last one is the unterminated remainder.
pub open spec fn split_segments(s: Seq<char>) -> Seq<Seq<char>>
    decreases s.len(),
    via split_segments_decreases
{
    match first_delim(s) {
        None => seq![s],
        Some(i) => seq![s.subrange(0, i)] + split_segments(s.subrange(i + 2, s.len() as int)),
    }
}

#[via_fn]
proof fn split_segments_decreases(s: Seq<char>) {
    lemma_first_delim(s);
}

/// How many blank-line delimiters the buffer holds, counting leftmost
/// non-overlapping occurrences.
pub open spec fn delim_count(s: Seq<char>) -> nat
    decreases s.len(),
    via delim_count_decreases
{
    match first_delim(s) {
        None => 0,
        Some(i) => 1 + delim_count(s.subrange(i + 2, s.len() as int)),
    }
}

#[via_fn]
proof fn delim_count_decreases(s: Seq<char>) {
    lemma_first_delim(s);
}

/// The segments joined back together with a delimiter between each pair.
pub open spec fn join_segments(segs: Seq<Seq<char>>) -> Seq<char>
    decreases segs.len(),
{
    if segs.len() == 0 {
        Seq::empty()
    } else if segs.len() == 1 {
        segs[0]
    } else {
        segs[0] + delim() + join_segments(segs.drop_first())
    }
}

/// Splitting loses nothing: a buffer with `k` delimiters yields `k` complete
/// frames plus a remainder, no segment contains a delimiter, and interleaving
/// the segments with delimiters reproduces the buffer exactly.
pub proof fn lemma_split_no_loss(s: Seq<char>)
    ensures
        split_segments(s).len() == delim_count(s) + 1,
        join_segments(split_segments(s)) == s,
        forall|k: int|
            0 <= k < split_segments(s).len() ==> first_delim(#[trigger] split_segments(s)[k])
                is None,
    decreases s.len(),
{
    lemma_first_delim(s);
    match first_delim(s) {
        None => {},
        Some(i) => {
            let pre = s.subrange(0, i);
            let suf = s.subrange(i + 2, s.len() as int);
            lemma_split_no_loss(suf);
            let segs = split_segments(s);
            assert(segs == seq![pre] + split_segments(suf));
            assert(segs.drop_first() =~= split_segments(suf));
            assert(segs.len() >= 2);
            assert(join_segments(segs) == pre + delim() + join_segments(split_segments(suf)));
            assert(pre + delim() + suf =~= s);
            // the head segment holds no delimiter: one would contradict the
            // leftmost position of the delimiter at `i`
            lemma_first_delim(pre);
            match first_delim(pre) {
                Some(j) => {
                    assert(is_delim_at(pre, j));
                    assert(pre[j] == s[j] && pre[j + 1] == s[j + 1]);
                    assert(is_delim_at(s, j));
                    assert(false);
                },
                None => {},
            }
            assert(forall|k: int|
                1 <= k < segs.len() ==> #[trigger] segs[k] == split_segments(suf)[k - 1]);
        },
    }
}

/// Split accumulated raw text into the complete frames it holds, parsed, and
/// the unterminated remainder, which the caller must keep and prepend to the
/// next chunk.
pub fn sse_messages_from_string(input: String) -> (r: (Vec<SseMessage>, String))
    ensures
        ({
            let segs = split_segments(input@);
            &&& r.0@.len() == segs.len() - 1
            &&& forall|k: int| 0 <= k < r.0@.len() ==> #[trigger] r.0@[k]@ == parse_frame(segs[k])
            &&& r.1@ == segs[segs.len() - 1]
        }),
{
    let s = input.as_str();
    let n = s.unicode_len();
    let mut messages: Vec<SseMessage> = Vec::new();
    let mut pos: usize = 0;
    let ghost mut done: Seq<Seq<char>> = Seq::empty();
    proof {
        assert(s@.subrange(0, n as int) =~= s@);
    }
    loop
        invariant
            0 <= pos <= n,
            n == s@.len(),
            s@ == input@,
            split_segments(s@) == done + split_segments(s@.subrange(pos as int, n as int)),
            messages@.len() == done.len(),
            forall|k: int| 0 <= k < done.len() ==> #[trigger] messages@[k]@ == parse_frame(done[k]),
        decreases n - pos,
    {
        let suf = s.substring_char(pos, n);
        let ghost sufv = s@.subrange(pos as int, n as int);
        proof {
            lemma_first_delim(sufv);
        }
        match find_delim(suf) {
            Some(i) => {
                let frame = s.substring_char(pos, pos + i);
                proof {
                    assert(frame@ =~= sufv.subrange(0, i as int));
                    assert(sufv.subrange(i + 2, sufv.len() as int) =~= s@.subrange(
                        pos + i + 2,
                        n as int,
                    ));
                    let segs = split_segments(sufv);
                    assert(segs == seq![sufv.subrange(0, i as int)] + split_segments(
                        sufv.subrange(i + 2, sufv.len() as int),
                    ));
                    assert((done + split_segments(sufv)) =~= (done.push(frame@) + split_segments(
                        s@.subrange(pos + i + 2, n as int),
                    )));
                }
                let msg = SseMessage::parse(frame);
                messages.push(msg);
                proof {
                    done = done.push(frame@);
                }
                pos = pos + i + 2;
            },
            None => {
                let left_over = suf.to_owned();
                proof {
                    assert(split_segments(sufv) == seq![sufv]);
                    let segs = split_segments(s@);
                    assert(segs == done + seq![sufv]);
                    assert(segs.len() == done.len() + 1);
                    assert(segs[segs.len() - 1] == sufv);
                    assert(forall|k: int|
                        0 <= k < done.len() ==> #[trigger] segs[k] == done[k]);
                }
                return (messages, left_over);
            },
        }
    }
}

/// Whether the text ends in a blank-line delimiter, the event source's gate
/// for handing the buffer to the splitter.
pub open spec fn ends_with_delim(s: Seq<char>) -> bool {
    s.len() >= 2 && s[s.len() - 2] == '\n' && s[s.len() - 1] == '\n'
}

/// Fold one decoded chunk into the pending buffer.  Until the chunk ends with
/// a blank-line delimiter the text is only buffered; once it does, the whole
/// buffer is split and the remainder becomes the new pending buffer.
pub fn ingest_chunk(pending: String, text: &str) -> (r: (Vec<SseMessage>, String))
    ensures
        ({
            let combined = pending@ + text@;
            if !ends_with_delim(text@) {
                r.0@.len() == 0 && r.1@ == combined
            } else {
                let segs = split_segments(combined);
                &&& r.0@.len() == segs.len() - 1
                &&& forall|k: int|
                    0 <= k < r.0@.len() ==> #[trigger] r.0@[k]@ == parse_frame(segs[k])
                &&& r.1@ == segs[segs.len() - 1]
            }
        }),
{
    let tn = text.unicode_len();
    let ends = tn >= 2 && text.get_char(tn - 2) == '\n' && text.get_char(tn - 1) == '\n';
    let combined = pending.concat(text);
    if !ends {
        (Vec::new(), combined)
    } else {
        sse_messages_from_string(combined)
    }
}

} // verus!
