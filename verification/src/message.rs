use vstd::prelude::*;

use crate::text::{
    first_char, has_prefix, lemma_first_char, parse_i32, parse_i32_spec, starts_with_spec,
    trim_spec, trim_str,
};

verus! {

/// The mathematical content of one parsed event frame.
#[verifier::ext_equal]
pub ghost struct FrameModel {
    pub id: Option<Seq<char>>,
    pub event: Option<Seq<char>>,
    pub data: Seq<char>,
    pub retry: Option<int>,
}

pub open spec fn empty_frame() -> FrameModel {
    FrameModel { id: None, event: None, data: Seq::empty(), retry: None }
}

/// One event frame: named fields extracted from a delimiter-bounded text block.
#[derive(Debug, Clone, PartialEq)]
pub struct SseMessage {
    pub id: Option<String>,
    pub event: Option<String>,
    pub data: String,
    pub retry: Option<i32>,
}

impl View for SseMessage {
    type V = FrameModel;

    open spec fn view(&self) -> FrameModel {
        FrameModel {
            id: match self.id {
                Some(s) => Some(s@),
                None => None,
            },
            event: match self.event {
                Some(s) => Some(s@),
                None => None,
            },
            data: self.data@,
            retry: match self.retry {
                Some(v) => Some(v as int),
                None => None,
            },
        }
    }
}

/// How one line updates the fields gathered so far: the line is trimmed, a
/// recognized field prefix replaces that field with the trimmed rest of the
/// line, and any other line is ignored.  A `retry:` line whose value is not a
/// decimal `i32` leaves the previous value in place.
pub open spec fn apply_line(m: FrameModel, line: Seq<char>) -> FrameModel {
    let t = trim_spec(line);
    if starts_with_spec(t, "id:"@) {
        FrameModel { id: Some(trim_spec(t.skip(3))), event: m.event, data: m.data, retry: m.retry }
    } else if starts_with_spec(t, "event:"@) {
        FrameModel { id: m.id, event: Some(trim_spec(t.skip(6))), data: m.data, retry: m.retry }
    } else if starts_with_spec(t, "data:"@) {
        FrameModel { id: m.id, event: m.event, data: trim_spec(t.skip(5)), retry: m.retry }
    } else if starts_with_spec(t, "retry:"@) {
        match parse_i32_spec(trim_spec(t.skip(6))) {
            Some(v) => FrameModel { id: m.id, event: m.event, data: m.data, retry: Some(v) },
            None => m,
        }
    } else {
        m
    }
}

/// The frame text split at every newline; the final segment is included even
/// when it is empty.
pub open spec fn split_lines(s: Seq<char>) -> Seq<Seq<char>>
    decreases s.len(),
    via split_lines_decreases
{
    match first_char(s, '\n') {
        None => seq![s],
        Some(i) => seq![s.subrange(0, i)] + split_lines(s.subrange(i + 1, s.len() as int)),
    }
}

#[via_fn]
proof fn split_lines_decreases(s: Seq<char>) {
    lemma_first_char(s, '\n');
}

pub open spec fn fold_lines(m: FrameModel, lines: Seq<Seq<char>>) -> FrameModel
    decreases lines.len(),
{
    if lines.len() == 0 {
        m
    } else {
        fold_lines(apply_line(m, lines[0]), lines.drop_first())
    }
}

/// What parsing one complete frame yields: every line applied in order to an
/// initially empty frame.
pub open spec fn parse_frame(s: Seq<char>) -> FrameModel {
    fold_lines(empty_frame(), split_lines(s))
}

impl SseMessage {
    /// A frame with no fields set.
    pub fn empty() -> (m: Self)
        ensures
            m@ == empty_frame(),
    {
        SseMessage { id: None, event: None, data: String::new(), retry: None }
    }

    /// Parse one complete frame's text into its fields.
    pub fn parse(input: &str) -> (m: Self)
        ensures
            m@ == parse_frame(input@),
    {
        let n = input.unicode_len();
        let mut m = SseMessage::empty();
        let mut pos: usize = 0;
        proof {
            assert(input@.subrange(0, n as int) =~= input@);
        }
        loop
            invariant
                0 <= pos <= n,
                n == input@.len(),
                fold_lines(m@, split_lines(input@.subrange(pos as int, n as int))) == parse_frame(
                    input@,
                ),
            decreases n - pos,
        {
            let suf = input.substring_char(pos, n);
            let ghost sufv = input@.subrange(pos as int, n as int);
            proof {
                lemma_first_char(sufv, '\n');
            }
            match crate::text::find_newline(suf) {
                Some(i) => {
                    let line = input.substring_char(pos, pos + i);
                    proof {
                        assert(line@ =~= sufv.subrange(0, i as int));
                        assert(sufv.subrange(i + 1, sufv.len() as int) =~= input@.subrange(
                            pos + i + 1,
                            n as int,
                        ));
                        let lines = split_lines(sufv);
                        assert(lines == seq![sufv.subrange(0, i as int)] + split_lines(
                            sufv.subrange(i + 1, sufv.len() as int),
                        ));
                        assert(lines[0] == line@);
                        assert(lines.drop_first() =~= split_lines(
                            input@.subrange(pos + i + 1, n as int),
                        ));
                    }
                    let ghost prev = m@;
                    apply_line_exec(&mut m, line);
                    proof {
                        let lines = split_lines(sufv);
                        assert(fold_lines(prev, lines) == fold_lines(
                            apply_line(prev, lines[0]),
                            lines.drop_first(),
                        ));
                        assert(m@ == apply_line(prev, lines[0]));
                    }
                    pos = pos + i + 1;
                },
                None => {
                    proof {
                        assert(split_lines(sufv) == seq![sufv]);
                        assert(split_lines(sufv).drop_first() =~= Seq::<Seq<char>>::empty());
                    }
                    let ghost prev = m@;
                    apply_line_exec(&mut m, suf);
                    proof {
                        let lines = split_lines(sufv);
                        assert(fold_lines(prev, lines) == fold_lines(
                            apply_line(prev, sufv),
                            lines.drop_first(),
                        ));
                        assert(fold_lines(m@, lines.drop_first()) == m@);
                    }
                    return m;
                },
            }
        }
    }
}

/// The application-payload codec: how a type is built from the `data` field
/// of a `message` frame, and how request parameters are rendered.  The
/// application implements it; nothing is assumed of the encodings.
pub trait ArriModel: Sized {
    fn new() -> Self;

    fn from_json_string(input: String) -> Self;

    fn to_json_string(&self) -> String;

    fn to_query_params_string(&self) -> String;
}

/// Construction of a message from a frame's text.
pub trait SeeMessageMethods: Sized {
    fn new() -> Self;

    fn from_string(input: String) -> Self;
}

impl SeeMessageMethods for SseMessage {
    fn new() -> (m: Self)
        ensures
            m@ == empty_frame(),
    {
        SseMessage::empty()
    }

    fn from_string(input: String) -> (m: Self)
        ensures
            m@ == parse_frame(input@),
    {
        SseMessage::parse(input.as_str())
    }
}

/// A frame whose `data` field has already been decoded into the application
/// payload type.
pub struct ParsedSseMessage<T: ArriModel> {
    pub id: Option<String>,
    pub event: Option<String>,
    pub data: T,
    pub retry: Option<i32>,
}

impl<T: ArriModel> SeeMessageMethods for ParsedSseMessage<T> {
    fn new() -> (m: Self)
        ensures
            m.id is None,
            m.event is None,
            m.retry is None,
    {
        ParsedSseMessage { id: None, event: None, data: T::new(), retry: None }
    }

    /// Parse the frame text and decode its `data` field; the named fields are
    /// those of the parsed frame, while nothing is known of the decoded
    /// payload.
    fn from_string(input: String) -> (m: Self)
        ensures
            ({
                let f = parse_frame(input@);
                &&& match (m.id, f.id) {
                    (Some(a), Some(b)) => a@ == b,
                    (None, None) => true,
                    _ => false,
                }
                &&& match (m.event, f.event) {
                    (Some(a), Some(b)) => a@ == b,
                    (None, None) => true,
                    _ => false,
                }
                &&& match (m.retry, f.retry) {
                    (Some(a), Some(b)) => a as int == b,
                    (None, None) => true,
                    _ => false,
                }
            }),
    {
        let message = SseMessage::parse(input.as_str());
        ParsedSseMessage {
            id: message.id,
            event: message.event,
            data: T::from_json_string(message.data),
            retry: message.retry,
        }
    }
}

fn apply_line_exec(m: &mut SseMessage, line: &str)
    ensures
        final(m)@ == apply_line(old(m)@, line@),
{
    let t = trim_str(line);
    let tn = t.unicode_len();
    if has_prefix(t, "id:") {
        proof {
            reveal_strlit("id:");
        }
        let v = trim_str(t.substring_char(3, tn));
        m.id = Some(v.to_owned());
        proof {
            assert(t@.subrange(3, t@.len() as int) =~= trim_spec(line@).skip(3));
        }
    } else if has_prefix(t, "event:") {
        proof {
            reveal_strlit("event:");
        }
        let v = trim_str(t.substring_char(6, tn));
        m.event = Some(v.to_owned());
        proof {
            assert(t@.subrange(6, t@.len() as int) =~= trim_spec(line@).skip(6));
        }
    } else if has_prefix(t, "data:") {
        proof {
            reveal_strlit("data:");
        }
        let v = trim_str(t.substring_char(5, tn));
        m.data = v.to_owned();
        proof {
            assert(t@.subrange(5, t@.len() as int) =~= trim_spec(line@).skip(5));
        }
    } else if has_prefix(t, "retry:") {
        proof {
            reveal_strlit("retry:");
        }
        let v = trim_str(t.substring_char(6, tn));
        proof {
            assert(t@.subrange(6, t@.len() as int) =~= trim_spec(line@).skip(6));
        }
        match parse_i32(v) {
            Some(x) => {
                m.retry = Some(x);
            },
            None => {},
        }
    }
}

} // verus!
