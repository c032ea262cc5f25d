use vstd::prelude::*;

use crate::bridge::message_ir::{raws_empty, seg_model, seg_models, single_pair, SegModel};
use crate::datamap::{dm_get, dm_get_or_empty};
use crate::milky::error::MilkyClientError;
use crate::milky::model::{IncomingSegment, OutgoingSegment};
use crate::text::{
    chars_of, i64_to_string, int_text, lemma_parse_int_text, parse_i64_chars, parse_i64_spec,
};
use crate::types::{Segment, SegmentType};

verus! {

/// The text a `Face`, `File`, ... segment is shown as: `[unsupported:`,
/// the detail, `]`.
pub open spec fn unsupported_text(detail: Seq<char>) -> Seq<char> {
    "[unsupported:"@ + detail + "]"@
}

/// The bridge segment a received Milky segment becomes.
pub open spec fn incoming_model(seg: IncomingSegment) -> SegModel {
    match seg {
        IncomingSegment::Text { text } => (SegmentType::Text, seq![("text"@, text@)]),
        IncomingSegment::Mention { user_id } => (SegmentType::At, seq![("qq"@, int_text(user_id as int))]),
        IncomingSegment::MentionAll => (SegmentType::At, seq![("qq"@, "all"@)]),
        IncomingSegment::Reply { message_seq } => (
            SegmentType::Reply,
            seq![("id"@, int_text(message_seq as int))],
        ),
        IncomingSegment::Image { temp_url } => (SegmentType::Image, seq![("url"@, temp_url@)]),
        IncomingSegment::Record { temp_url } => (SegmentType::Record, seq![("url"@, temp_url@)]),
        IncomingSegment::Face { face_id } => (
            SegmentType::Unknown,
            seq![("text"@, unsupported_text("face:"@ + face_id@))],
        ),
        IncomingSegment::Video => (SegmentType::Unknown, seq![("text"@, "[unsupported:video]"@)]),
        IncomingSegment::File { file_name } => (
            SegmentType::Unknown,
            seq![("text"@, unsupported_text("file:"@ + file_name@))],
        ),
        IncomingSegment::Forward { forward_id } => (
            SegmentType::Unknown,
            seq![("text"@, unsupported_text("forward:"@ + forward_id@))],
        ),
        IncomingSegment::MarketFace { url } => (
            SegmentType::Unknown,
            seq![("text"@, unsupported_text("market_face:"@ + url@))],
        ),
        IncomingSegment::LightApp { app_name } => (
            SegmentType::Unknown,
            seq![("text"@, unsupported_text("light_app:"@ + app_name@))],
        ),
        IncomingSegment::Xml { service_id } => (
            SegmentType::Unknown,
            seq![("text"@, unsupported_text("xml:"@ + int_text(service_id as int)))],
        ),
    }
}

/// The bridge segments for a list of received Milky segments.
pub open spec fn incoming_models(segs: Seq<IncomingSegment>) -> Seq<SegModel> {
    segs.map_values(|s: IncomingSegment| incoming_model(s))
}

fn unsupported(detail_head: &str, detail: &str) -> (s: String)
    ensures
        s@ == unsupported_text(detail_head@ + detail@),
{
    let mut s = String::from_str("[unsupported:");
    s.append(detail_head);
    s.append(detail);
    s.append("]");
    s
}

fn one_pair_segment(kind: SegmentType, key: &str, value: String) -> (s: Segment)
    ensures
        seg_model(s) == (kind, seq![(key@, value@)]),
        s.raw@.len() == 0,
{
    Segment { kind, data: single_pair(key, value), raw: Vec::new() }
}

/// Converts one received Milky segment.
pub fn from_incoming_one(seg: IncomingSegment) -> (r: Segment)
    ensures
        seg_model(r) == incoming_model(seg),
        r.raw@.len() == 0,
{
    match seg {
        IncomingSegment::Text { text } => one_pair_segment(SegmentType::Text, "text", text),
        IncomingSegment::Mention { user_id } => one_pair_segment(
            SegmentType::At,
            "qq",
            i64_to_string(user_id),
        ),
        IncomingSegment::MentionAll => one_pair_segment(
            SegmentType::At,
            "qq",
            String::from_str("all"),
        ),
        IncomingSegment::Reply { message_seq } => one_pair_segment(
            SegmentType::Reply,
            "id",
            i64_to_string(message_seq),
        ),
        IncomingSegment::Image { temp_url } => one_pair_segment(SegmentType::Image, "url", temp_url),
        IncomingSegment::Record { temp_url } => one_pair_segment(
            SegmentType::Record,
            "url",
            temp_url,
        ),
        IncomingSegment::Face { face_id } => one_pair_segment(
            SegmentType::Unknown,
            "text",
            unsupported("face:", face_id.as_str()),
        ),
        IncomingSegment::Video => one_pair_segment(
            SegmentType::Unknown,
            "text",
            String::from_str("[unsupported:video]"),
        ),
        IncomingSegment::File { file_name } => one_pair_segment(
            SegmentType::Unknown,
            "text",
            unsupported("file:", file_name.as_str()),
        ),
        IncomingSegment::Forward { forward_id } => one_pair_segment(
            SegmentType::Unknown,
            "text",
            unsupported("forward:", forward_id.as_str()),
        ),
        IncomingSegment::MarketFace { url } => one_pair_segment(
            SegmentType::Unknown,
            "text",
            unsupported("market_face:", url.as_str()),
        ),
        IncomingSegment::LightApp { app_name } => one_pair_segment(
            SegmentType::Unknown,
            "text",
            unsupported("light_app:", app_name.as_str()),
        ),
        IncomingSegment::Xml { service_id } => {
            let id = i64_to_string(service_id as i64);
            one_pair_segment(SegmentType::Unknown, "text", unsupported("xml:", id.as_str()))
        },
    }
}

/// Converts received Milky segments, in order.
pub fn from_incoming(segments: Vec<IncomingSegment>) -> (r: Vec<Segment>)
    ensures
        seg_models(r@) == incoming_models(segments@),
        raws_empty(r@),
{
    let ghost orig = segments@;
    let total = segments.len();
    let mut rest = segments;
    let mut out: Vec<Segment> = Vec::new();
    let mut done: usize = 0;
    assert(orig.skip(0) =~= orig);
    while rest.len() > 0
        invariant
            done + rest@.len() == orig.len(),
            orig.len() == total,
            rest@ == orig.skip(done as int),
            seg_models(out@) == incoming_models(orig.take(done as int)),
            raws_empty(out@),
        decreases rest@.len(),
    {
        let seg = rest.remove(0);
        assert(orig[done as int] == seg);
        let converted = from_incoming_one(seg);
        let ghost prev = out@;
        let ghost cm = seg_model(converted);
        out.push(converted);
        assert(incoming_models(orig.take(done + 1)) =~= incoming_models(orig.take(done as int)).push(
            incoming_model(orig[done as int]),
        ));
        assert(seg_models(out@) =~= seg_models(prev).push(cm));
        assert(rest@ =~= orig.skip(done + 1));
        done = done + 1;
    }
    assert(orig.take(done as int) =~= orig);
    out
}

/// A segment to send, by its fields' values.
pub enum OutgoingView {
    Text(Seq<char>),
    Mention(i64),
    MentionAll,
    Reply(i64),
    Image(Seq<char>, Option<Seq<char>>, Seq<char>),
    Record(Seq<char>),
}

impl View for OutgoingSegment {
    type V = OutgoingView;

    open spec fn view(&self) -> OutgoingView {
        match self {
            OutgoingSegment::Text { text } => OutgoingView::Text(text@),
            OutgoingSegment::Mention { user_id } => OutgoingView::Mention(*user_id),
            OutgoingSegment::MentionAll => OutgoingView::MentionAll,
            OutgoingSegment::Reply { message_seq } => OutgoingView::Reply(*message_seq),
            OutgoingSegment::Image { uri, summary, sub_type } => OutgoingView::Image(
                uri@,
                match summary {
                    Some(t) => Some(t@),
                    None => None,
                },
                sub_type@,
            ),
            OutgoingSegment::Record { uri } => OutgoingView::Record(uri@),
        }
    }
}

pub open spec fn outgoing_views(v: Seq<OutgoingSegment>) -> Seq<OutgoingView> {
    v.map_values(|o: OutgoingSegment| o@)
}

/// What `format!("{:?}", s)` writes for a string: `s` quoted, with
/// `str`'s `Debug` escapes.
pub uninterp spec fn str_debug(s: Seq<char>) -> Seq<char>;

/// `format!("{:?}", s)`.
#[verifier::external_body]
fn debug_quote(s: &str) -> (r: String)
    ensures
        r@ == str_debug(s@),
{
    format!("{s:?}")
}

/// The segment to send for one bridge segment: `Ok(None)` when it is left
/// out (pokes, and file or unknown segments without text), `Err` with the
/// reason when it cannot be sent.
pub open spec fn outgoing_one(m: SegModel) -> Result<Option<OutgoingView>, Seq<char>> {
    let d = m.1;
    match m.0 {
        SegmentType::Text => Ok(Some(OutgoingView::Text(dm_get_or_empty(d, "text"@)))),
        SegmentType::At => {
            let qq = dm_get_or_empty(d, "qq"@);
            if qq == "all"@ {
                Ok(Some(OutgoingView::MentionAll))
            } else {
                match parse_i64_spec(qq) {
                    Some(n) => Ok(Some(OutgoingView::Mention(n))),
                    None => Err("at: invalid qq "@ + str_debug(qq)),
                }
            }
        },
        SegmentType::Reply => {
            let id = dm_get_or_empty(d, "id"@);
            match parse_i64_spec(id) {
                Some(n) => Ok(Some(OutgoingView::Reply(n))),
                None => Err("reply: invalid id "@ + str_debug(id)),
            }
        },
        SegmentType::Image => match dm_get(d, "url"@) {
            Some(u) => Ok(Some(OutgoingView::Image(u, None, "normal"@))),
            None => match dm_get(d, "file"@) {
                Some(f) => Ok(Some(OutgoingView::Image(f, None, "normal"@))),
                None => Err("image: missing url/file"@),
            },
        },
        SegmentType::Record => match dm_get(d, "url"@) {
            Some(u) => Ok(Some(OutgoingView::Record(u))),
            None => match dm_get(d, "file"@) {
                Some(f) => Ok(Some(OutgoingView::Record(f))),
                None => Err("record: missing url/file"@),
            },
        },
        SegmentType::Poke => Ok(None),
        SegmentType::File | SegmentType::Unknown => match dm_get(d, "text"@) {
            Some(t) => Ok(Some(OutgoingView::Text(t))),
            None => Ok(None),
        },
    }
}

/// The segments to send for a list of bridge segments, or the reason of
/// the first that cannot be sent.
pub open spec fn outgoing_spec(ms: Seq<SegModel>) -> Result<Seq<OutgoingView>, Seq<char>>
    decreases ms.len(),
{
    if ms.len() == 0 {
        Ok(Seq::empty())
    } else {
        match outgoing_spec(ms.drop_last()) {
            Err(e) => Err(e),
            Ok(prev) => match outgoing_one(ms.last()) {
                Err(e) => Err(e),
                Ok(None) => Ok(prev),
                Ok(Some(o)) => Ok(prev.push(o)),
            },
        }
    }
}

/// What a received segment is sent as when it goes back upstream:
/// text, mentions, replies, images and records as they came, everything
/// else as the text it was shown as.
pub open spec fn resend_view(seg: IncomingSegment) -> OutgoingView {
    match seg {
        IncomingSegment::Text { text } => OutgoingView::Text(text@),
        IncomingSegment::Mention { user_id } => OutgoingView::Mention(user_id),
        IncomingSegment::MentionAll => OutgoingView::MentionAll,
        IncomingSegment::Reply { message_seq } => OutgoingView::Reply(message_seq),
        IncomingSegment::Image { temp_url } => OutgoingView::Image(temp_url@, None, "normal"@),
        IncomingSegment::Record { temp_url } => OutgoingView::Record(temp_url@),
        _ => OutgoingView::Text(incoming_model(seg).1[0].1),
    }
}

proof fn lemma_resend_one(seg: IncomingSegment)
    ensures
        outgoing_one(incoming_model(seg)) == Ok::<Option<OutgoingView>, Seq<char>>(
            Some(resend_view(seg)),
        ),
{
    let d = incoming_model(seg).1;
    assert(d.len() == 1 || seg is MentionAll);
    assert(d.drop_first() =~= Seq::<(Seq<char>, Seq<char>)>::empty());
    assert(dm_get(d, d[0].0) == Some(d[0].1));
    match seg {
        IncomingSegment::Mention { user_id } => {
            lemma_parse_int_text(user_id);
            reveal_strlit("all");
            assert(int_text(user_id as int) != "all"@) by {
                assert("all"@[0] == 'a');
            }
        },
        IncomingSegment::MentionAll => {},
        IncomingSegment::Reply { message_seq } => {
            lemma_parse_int_text(message_seq);
        },
        IncomingSegment::Image { temp_url } => {},
        IncomingSegment::Record { temp_url } => {},
        IncomingSegment::Text { text } => {},
        _ => {},
    }
}

/// A received message can be sent back upstream as it came: converting
/// its segments for the bridge and then for sending never fails, and
/// gives each segment back as `resend_view` says.
pub proof fn law_received_segments_resend(segs: Seq<IncomingSegment>)
    ensures
        outgoing_spec(incoming_models(segs)) == Ok::<Seq<OutgoingView>, Seq<char>>(
            segs.map_values(|s: IncomingSegment| resend_view(s)),
        ),
    decreases segs.len(),
{
    if segs.len() > 0 {
        let init = segs.drop_last();
        law_received_segments_resend(init);
        assert(incoming_models(segs).drop_last() =~= incoming_models(init));
        lemma_resend_one(segs.last());
        assert(segs.map_values(|s: IncomingSegment| resend_view(s)) =~= init.map_values(
            |s: IncomingSegment| resend_view(s),
        ).push(resend_view(segs.last())));
    } else {
        assert(segs.map_values(|s: IncomingSegment| resend_view(s)) =~= Seq::<OutgoingView>::empty());
    }
}

/// The refusal of an `at` segment whose `qq` is not a number, given that
/// `qq` quoted.
pub fn bad_at_error(quoted: String) -> (e: MilkyClientError)
    ensures
        e matches MilkyClientError::BadSegment(m) && m@ == "at: invalid qq "@ + quoted@,
{
    let mut m = String::from_str("at: invalid qq ");
    m.append(quoted.as_str());
    MilkyClientError::BadSegment(m)
}

/// The refusal of a `reply` segment whose `id` is not a number, given that
/// `id` quoted.
pub fn bad_reply_error(quoted: String) -> (e: MilkyClientError)
    ensures
        e matches MilkyClientError::BadSegment(m) && m@ == "reply: invalid id "@ + quoted@,
{
    let mut m = String::from_str("reply: invalid id ");
    m.append(quoted.as_str());
    MilkyClientError::BadSegment(m)
}

/// The Milky segment for one bridge segment, as `outgoing_one` says.
fn outgoing_segment(seg: &Segment) -> (r: Result<Option<OutgoingSegment>, MilkyClientError>)
    ensures
        match r {
            Ok(Some(o)) => outgoing_one(seg_model(*seg)) == Ok::<Option<OutgoingView>, Seq<char>>(Some(o@)),
            Ok(None) => outgoing_one(seg_model(*seg)) == Ok::<Option<OutgoingView>, Seq<char>>(None),
            Err(e) => e matches MilkyClientError::BadSegment(m) && outgoing_one(seg_model(*seg))
                == Err::<Option<OutgoingView>, Seq<char>>(m@),
        },
{
    match seg.kind {
        SegmentType::Text => Ok(Some(OutgoingSegment::Text { text: seg.data.get_or_empty("text") })),
        SegmentType::At => {
            let qq = seg.data.get_or_empty("qq");
            if crate::text::str_eq(qq.as_str(), "all") {
                return Ok(Some(OutgoingSegment::MentionAll));
            }
            match parse_i64_chars(&chars_of(qq.as_str())) {
                Some(n) => Ok(Some(OutgoingSegment::Mention { user_id: n })),
                None => Err(bad_at_error(debug_quote(qq.as_str()))),
            }
        },
        SegmentType::Reply => {
            let id = seg.data.get_or_empty("id");
            match parse_i64_chars(&chars_of(id.as_str())) {
                Some(n) => Ok(Some(OutgoingSegment::Reply { message_seq: n })),
                None => Err(bad_reply_error(debug_quote(id.as_str()))),
            }
        },
        SegmentType::Image => {
            let uri = match seg.data.get("url") {
                Some(u) => u.clone(),
                None => match seg.data.get("file") {
                    Some(f) => f.clone(),
                    None => {
                        return Err(
                            MilkyClientError::BadSegment(String::from_str("image: missing url/file")),
                        );
                    },
                },
            };
            Ok(Some(OutgoingSegment::Image { uri, summary: None, sub_type: String::from_str("normal") }))
        },
        SegmentType::Record => {
            let uri = match seg.data.get("url") {
                Some(u) => u.clone(),
                None => match seg.data.get("file") {
                    Some(f) => f.clone(),
                    None => {
                        return Err(
                            MilkyClientError::BadSegment(String::from_str("record: missing url/file")),
                        );
                    },
                },
            };
            Ok(Some(OutgoingSegment::Record { uri }))
        },
        SegmentType::Poke => Ok(None),
        SegmentType::File | SegmentType::Unknown => match seg.data.get("text") {
            Some(t) => Ok(Some(OutgoingSegment::Text { text: t.clone() })),
            None => Ok(None),
        },
    }
}

/// Converts bridge segments into Milky segments to send, in order; fails
/// on the first segment that cannot be sent.
pub fn to_outgoing(segments: Vec<Segment>) -> (r: Result<Vec<OutgoingSegment>, MilkyClientError>)
    ensures
        match r {
            Ok(v) => outgoing_spec(seg_models(segments@)) == Ok::<Seq<OutgoingView>, Seq<char>>(outgoing_views(v@)),
            Err(e) => e matches MilkyClientError::BadSegment(m) && outgoing_spec(seg_models(segments@))
                == Err::<Seq<OutgoingView>, Seq<char>>(m@),
        },
{
    let ghost ms = seg_models(segments@);
    let mut out: Vec<OutgoingSegment> = Vec::new();
    let mut i: usize = 0;
    assert(ms.take(0) =~= Seq::<SegModel>::empty());
    assert(outgoing_views(out@) =~= Seq::<OutgoingView>::empty());
    while i < segments.len()
        invariant
            i <= segments@.len(),
            ms == seg_models(segments@),
            ms.len() == segments@.len(),
            outgoing_spec(ms.take(i as int)) == Ok::<Seq<OutgoingView>, Seq<char>>(outgoing_views(out@)),
        decreases segments@.len() - i,
    {
        assert(ms[i as int] == seg_model(segments@[i as int]));
        assert(ms.take(i + 1).drop_last() =~= ms.take(i as int));
        assert(ms.take(i + 1).last() == ms[i as int]);
        match outgoing_segment(&segments[i]) {
            Ok(Some(o)) => {
                let ghost prev = out@;
                let ghost ov = o@;
                out.push(o);
                assert(outgoing_views(out@) =~= outgoing_views(prev).push(ov));
            },
            Ok(None) => {},
            Err(e) => {
                proof {
                    lemma_outgoing_err_sticks(ms, i as int + 1);
                }
                return Err(e);
            },
        }
        i = i + 1;
    }
    assert(ms.take(segments@.len() as int) =~= ms);
    Ok(out)
}

/// Once a prefix fails, every longer prefix fails with the same reason.
proof fn lemma_outgoing_err_sticks(ms: Seq<SegModel>, i: int)
    requires
        0 < i <= ms.len(),
        outgoing_spec(ms.take(i)) is Err,
    ensures
        outgoing_spec(ms) == outgoing_spec(ms.take(i)),
    decreases ms.len() - i,
{
    if i < ms.len() {
        assert(ms.take(i + 1).drop_last() =~= ms.take(i));
        lemma_outgoing_err_sticks(ms, i + 1);
    } else {
        assert(ms.take(i) =~= ms);
    }
}

/// How segments are sent upstream: a text segment as its text, a mention
/// of a decimal id as a mention of that number and of `all` as a mention of
/// everyone, a reply to a decimal id as a reply to that number, an image or
/// record by its url when it has one (whatever its file) and else by its
/// file, and refused when it has neither; pokes are left out, and file or
/// unknown segments are sent as their text when they have one.
pub proof fn law_outgoing_segment_values(
    t: Seq<char>,
    n: i64,
    u: Seq<char>,
    f: Seq<char>,
    d: Seq<(Seq<char>, Seq<char>)>,
)
    ensures
        outgoing_one((SegmentType::Text, seq![("text"@, t)])) == Ok::<Option<OutgoingView>, Seq<char>>(
            Some(OutgoingView::Text(t)),
        ),
        outgoing_one((SegmentType::At, seq![("qq"@, int_text(n as int))])) == Ok::<
            Option<OutgoingView>,
            Seq<char>,
        >(Some(OutgoingView::Mention(n))),
        outgoing_one((SegmentType::At, seq![("qq"@, "all"@)])) == Ok::<
            Option<OutgoingView>,
            Seq<char>,
        >(Some(OutgoingView::MentionAll)),
        outgoing_one((SegmentType::Reply, seq![("id"@, int_text(n as int))])) == Ok::<
            Option<OutgoingView>,
            Seq<char>,
        >(Some(OutgoingView::Reply(n))),
        outgoing_one((SegmentType::Image, seq![("file"@, f), ("url"@, u)])) == Ok::<
            Option<OutgoingView>,
            Seq<char>,
        >(Some(OutgoingView::Image(u, None, "normal"@))),
        outgoing_one((SegmentType::Image, seq![("file"@, f)])) == Ok::<
            Option<OutgoingView>,
            Seq<char>,
        >(Some(OutgoingView::Image(f, None, "normal"@))),
        outgoing_one((SegmentType::Image, Seq::empty())) is Err,
        outgoing_one((SegmentType::Record, seq![("file"@, f), ("url"@, u)])) == Ok::<
            Option<OutgoingView>,
            Seq<char>,
        >(Some(OutgoingView::Record(u))),
        outgoing_one((SegmentType::Record, seq![("file"@, f)])) == Ok::<
            Option<OutgoingView>,
            Seq<char>,
        >(Some(OutgoingView::Record(f))),
        outgoing_one((SegmentType::Record, Seq::empty())) is Err,
        outgoing_one((SegmentType::Poke, d)) == Ok::<Option<OutgoingView>, Seq<char>>(None),
        outgoing_one((SegmentType::Unknown, seq![("text"@, t)])) == Ok::<
            Option<OutgoingView>,
            Seq<char>,
        >(Some(OutgoingView::Text(t))),
        outgoing_one((SegmentType::Unknown, Seq::empty())) == Ok::<Option<OutgoingView>, Seq<char>>(
            None,
        ),
{
    reveal_strlit("text");
    reveal_strlit("qq");
    reveal_strlit("id");
    reveal_strlit("all");
    reveal_strlit("file");
    reveal_strlit("url");
    lemma_parse_int_text(n);
    assert(int_text(n as int) != "all"@) by {
        assert("all"@[0] == 'a');
    }
    assert("file"@ != "url"@) by {
        assert("file"@[0] != "url"@[0]);
    }
    let e = Seq::<(Seq<char>, Seq<char>)>::empty();
    assert(dm_get(e, "url"@) is None);
    assert(dm_get(e, "file"@) is None);
    assert(dm_get(e, "text"@) is None);
    let one = seq![("file"@, f)];
    assert(one.drop_first() =~= e);
    let two = seq![("file"@, f), ("url"@, u)];
    assert(two.drop_first() =~= seq![("url"@, u)]);
    assert(seq![("url"@, u)].drop_first() =~= e);
    assert(dm_get(seq![("url"@, u)], "url"@) == Some(u));
    assert(dm_get(two, "url"@) == Some(u));
    assert(seq![("text"@, t)].drop_first() =~= e);
    assert(seq![("qq"@, int_text(n as int))].drop_first() =~= e);
    assert(seq![("qq"@, "all"@)].drop_first() =~= e);
    assert(seq![("id"@, int_text(n as int))].drop_first() =~= e);
}

} // verus!
