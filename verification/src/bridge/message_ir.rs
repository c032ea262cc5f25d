use vstd::prelude::*;

use crate::datamap::{dm_get_or_empty, dm_insert, DataMap, Entries};
use crate::json::{json_entries, json_text, obj_get, Json, JsonValue};
use crate::text::{
    chars_of, find_chars, find_from, is_lit, prefixed_display, replace_all, replace_chars,
    split_chars, split_once_chars, split_once_spec, split_spec, string_from_chars, sub_chars,
    views_of,
};
use crate::types::{Segment, SegmentType};

verus! {

/// A segment by its kind and its string fields.
pub type SegModel = (SegmentType, Entries);

pub open spec fn seg_model(s: Segment) -> SegModel {
    (s.kind, s.data@)
}

pub open spec fn seg_models(v: Seq<Segment>) -> Seq<SegModel> {
    v.map_values(|s: Segment| seg_model(s))
}

/// Every segment has no raw extra fields.
pub open spec fn raws_empty(v: Seq<Segment>) -> bool {
    forall|i: int| 0 <= i < v.len() ==> (#[trigger] v[i]).raw@.len() == 0
}

/// A text segment holding `t`.
pub open spec fn text_model(t: Seq<char>) -> SegModel {
    (SegmentType::Text, seq![("text"@, t)])
}

/// Escaping of text outside CQ codes: `&`, `[` and `]` become entities.
pub open spec fn escape_text_spec(s: Seq<char>) -> Seq<char> {
    replace_all(
        replace_all(replace_all(s, "&"@, "&amp;"@), "["@, "&#91;"@),
        "]"@,
        "&#93;"@,
    )
}

/// Escaping of a CQ code parameter: as text, and `,` too.
pub open spec fn escape_value_spec(s: Seq<char>) -> Seq<char> {
    replace_all(escape_text_spec(s), ","@, "&#44;"@)
}

/// Decoding of the four CQ entities, in the order the bridge applies them.
pub open spec fn unescape_spec(s: Seq<char>) -> Seq<char> {
    replace_all(
        replace_all(replace_all(replace_all(s, "&#44;"@, ","@), "&#91;"@, "["@), "&#93;"@, "]"@),
        "&amp;"@,
        "&"@,
    )
}

/// Media fields: `file`, and `url` falling back to `file` when empty.
pub open spec fn normalize_media_spec(m: Entries) -> Entries {
    let file = dm_get_or_empty(m, "file"@);
    let url0 = dm_get_or_empty(m, "url"@);
    let url = if url0.len() == 0 {
        file
    } else {
        url0
    };
    seq![("file"@, file), ("url"@, url)]
}

/// `file` when not empty, else `url`.
pub open spec fn pick_file_or_url_spec(m: Entries) -> Seq<char> {
    let file = dm_get_or_empty(m, "file"@);
    if file.len() > 0 {
        file
    } else {
        dm_get_or_empty(m, "url"@)
    }
}

fn lit(s: &str) -> (r: String)
    ensures
        r@ == s@,
{
    s.to_owned()
}

fn apply_replace(s: &Vec<char>, pat: &str, rep: &str) -> (r: Vec<char>)
    requires
        pat@.len() > 0,
    ensures
        r@ == replace_all(s@, pat@, rep@),
{
    let p = chars_of(pat);
    let q = chars_of(rep);
    replace_chars(s, &p, &q)
}

/// Escapes text for a CQ string.
pub fn escape_cq_text(text: &Vec<char>) -> (r: Vec<char>)
    ensures
        r@ == escape_text_spec(text@),
{
    proof {
        reveal_strlit("&");
        reveal_strlit("[");
        reveal_strlit("]");
    }
    let a = apply_replace(text, "&", "&amp;");
    let b = apply_replace(&a, "[", "&#91;");
    apply_replace(&b, "]", "&#93;")
}

/// Escapes a CQ code parameter value.
pub fn escape_cq_value(text: &Vec<char>) -> (r: Vec<char>)
    ensures
        r@ == escape_value_spec(text@),
{
    proof {
        reveal_strlit(",");
    }
    let a = escape_cq_text(text);
    apply_replace(&a, ",", "&#44;")
}

/// Decodes CQ entities.
pub fn unescape_cq_text(text: &Vec<char>) -> (r: Vec<char>)
    ensures
        r@ == unescape_spec(text@),
{
    proof {
        reveal_strlit("&#44;");
        reveal_strlit("&#91;");
        reveal_strlit("&#93;");
        reveal_strlit("&amp;");
    }
    let a = apply_replace(text, "&#44;", ",");
    let b = apply_replace(&a, "&#91;", "[");
    let c = apply_replace(&b, "&#93;", "]");
    apply_replace(&c, "&amp;", "&")
}

/// A map holding the single pair `key: value`.
pub fn single_pair(key: &str, value: String) -> (m: DataMap)
    ensures
        m@ == seq![(key@, value@)],
{
    let mut m = DataMap::new();
    m.insert(lit(key), value);
    m
}

/// A text segment.
pub fn text_segment(text: String) -> (s: Segment)
    ensures
        seg_model(s) == text_model(text@),
        s.raw@.len() == 0,
{
    Segment { kind: SegmentType::Text, data: single_pair("text", text), raw: Vec::new() }
}

/// `file` and `url` of a media segment, `url` defaulting to `file`.
pub fn normalize_media_data(data: &DataMap) -> (m: DataMap)
    ensures
        m@ == normalize_media_spec(data@),
{
    let file = data.get_or_empty("file");
    let url0 = data.get_or_empty("url");
    let url = if url0.as_str().is_empty() {
        file.clone()
    } else {
        url0
    };
    let mut m = DataMap::new();
    m.insert(lit("file"), file);
    m.insert(lit("url"), url);
    proof {
        reveal_strlit("file");
        reveal_strlit("url");
        assert(!crate::text::seq_lt("url"@, "file"@));
        assert("url"@ != "file"@) by {
            assert("url"@[0] != "file"@[0]);
        }
        let e = Seq::<(Seq<char>, Seq<char>)>::empty();
        let m1 = dm_insert(e, "file"@, file@);
        assert(m1 == seq![("file"@, file@)]);
        assert(m1.drop_first() =~= e);
        assert(dm_insert(e, "url"@, url@) == seq![("url"@, url@)]);
        assert(dm_insert(m1, "url"@, url@) =~= seq![("file"@, file@), ("url"@, url@)]);
    }
    m
}

/// `file` when not empty, else `url`.
pub fn pick_file_or_url(data: &DataMap) -> (r: String)
    ensures
        r@ == pick_file_or_url_spec(data@),
{
    let file = data.get_or_empty("file");
    if !file.as_str().is_empty() {
        return file;
    }
    data.get_or_empty("url")
}

} // verus!

verus! {

/// The `key=value` pairs of a CQ code's parameters, later pairs replacing
/// earlier ones; pieces without `=` are skipped.
pub open spec fn cq_kv_data(items: Seq<Seq<char>>) -> Entries
    decreases items.len(),
{
    if items.len() == 0 {
        Seq::empty()
    } else {
        let acc = cq_kv_data(items.drop_last());
        match split_once_spec(items.last(), '=') {
            Some((k, v)) => dm_insert(acc, k, unescape_spec(v)),
            None => acc,
        }
    }
}

/// A segment of `kind` holding only `key`, taken from `data`.
pub open spec fn keyed_model(kind: SegmentType, key: Seq<char>, data: Entries) -> SegModel {
    (kind, seq![(key, dm_get_or_empty(data, key))])
}

/// The segments one CQ code `[CQ:token]` stands for.
pub open spec fn cq_token_spec(token: Seq<char>) -> Seq<SegModel> {
    let parts = split_spec(token, ',');
    let name = parts[0];
    let data = cq_kv_data(parts.subrange(1, parts.len() as int));
    if name == "image"@ {
        seq![(SegmentType::Image, normalize_media_spec(data))]
    } else if name == "record"@ {
        seq![(SegmentType::Record, normalize_media_spec(data))]
    } else if name == "at"@ {
        seq![keyed_model(SegmentType::At, "qq"@, data)]
    } else if name == "reply"@ {
        seq![keyed_model(SegmentType::Reply, "id"@, data)]
    } else if name == "poke"@ {
        seq![keyed_model(SegmentType::Poke, "qq"@, data)]
    } else {
        seq![text_model("[CQ:"@ + token + "]"@)]
    }
}

/// A segment of `kind` holding only `key`, taken from `data`.
fn keyed_segment(kind: SegmentType, key: &str, data: &DataMap) -> (s: Segment)
    ensures
        seg_model(s) == keyed_model(kind, key@, data@),
        s.raw@.len() == 0,
{
    let v = data.get_or_empty(key);
    Segment { kind, data: single_pair(key, v), raw: Vec::new() }
}

fn media_segment(kind: SegmentType, data: &DataMap) -> (s: Segment)
    ensures
        seg_model(s) == (kind, normalize_media_spec(data@)),
        s.raw@.len() == 0,
{
    Segment { kind, data: normalize_media_data(data), raw: Vec::new() }
}

/// The segments of one CQ code, `token` being the text between `[CQ:` and `]`.
pub fn parse_cq_token(token: &Vec<char>) -> (r: Vec<Segment>)
    ensures
        seg_models(r@) == cq_token_spec(token@),
        raws_empty(r@),
{
    let parts = split_chars(token, ',');
    proof {
        crate::text::lemma_split_nonempty(token@, ',');
    }
    let ghost pv = views_of(parts@);
    assert(pv.len() == parts@.len());
    let mut data = DataMap::new();
    let mut i: usize = 1;
    assert(pv.subrange(1, 1) =~= Seq::<Seq<char>>::empty());
    while i < parts.len()
        invariant
            1 <= i <= parts.len(),
            pv == views_of(parts@),
            pv.len() == parts@.len(),
            data@ == cq_kv_data(pv.subrange(1, i as int)),
        decreases parts.len() - i,
    {
        let ghost prev = pv.subrange(1, i as int);
        let ghost next = pv.subrange(1, i + 1);
        assert(next.drop_last() =~= prev);
        assert(next.last() == parts@[i as int]@);
        match split_once_chars(&parts[i], '=') {
            Some((k, v)) => {
                let uv = unescape_cq_text(&v);
                data.insert(string_from_chars(k.as_slice()), string_from_chars(uv.as_slice()));
            },
            None => {},
        }
        i = i + 1;
    }
    let name = &parts[0];
    assert(name@ == pv[0]);
    let mut out: Vec<Segment> = Vec::new();
    if is_lit(name, "image") {
        out.push(media_segment(SegmentType::Image, &data));
    } else if is_lit(name, "record") {
        out.push(media_segment(SegmentType::Record, &data));
    } else if is_lit(name, "at") {
        out.push(keyed_segment(SegmentType::At, "qq", &data));
    } else if is_lit(name, "reply") {
        out.push(keyed_segment(SegmentType::Reply, "id", &data));
    } else if is_lit(name, "poke") {
        out.push(keyed_segment(SegmentType::Poke, "qq", &data));
    } else {
        let mut t: Vec<char> = Vec::new();
        crate::text::push_str(&mut t, "[CQ:");
        crate::text::push_chars(&mut t, token);
        crate::text::push_str(&mut t, "]");
        out.push(text_segment(string_from_chars(t.as_slice())));
    }
    assert(seg_models(out@) =~= cq_token_spec(token@));
    out
}

/// The segments of a CQ-coded string, read from position `pos`: text
/// between codes (entities decoded) and the segments of each code.
pub open spec fn cq_from(s: Seq<char>, pos: int) -> Seq<SegModel>
    decreases s.len() - pos,
{
    if pos < 0 || pos >= s.len() {
        Seq::empty()
    } else {
        match find_from(s, "[CQ:"@, pos) {
            None => seq![text_model(unescape_spec(s.subrange(pos, s.len() as int)))],
            Some(start) => {
                let pre = if start > pos {
                    seq![text_model(unescape_spec(s.subrange(pos, start)))]
                } else {
                    Seq::empty()
                };
                match find_from(s, seq![']'], start) {
                    None => pre + seq![text_model(unescape_spec(s.subrange(start, s.len() as int)))],
                    Some(end) => if pos <= start && start + 4 <= end && end < s.len() {
                        pre + cq_token_spec(s.subrange(start + 4, end)) + cq_from(s, end + 1)
                    } else {
                        pre
                    },
                }
            },
        }
    }
}

/// The segments of a CQ-coded string.
pub open spec fn cq_message_spec(s: Seq<char>) -> Seq<SegModel> {
    cq_from(s, 0)
}

fn text_of_range(s: &Vec<char>, from: usize, to: usize) -> (seg: Segment)
    requires
        from <= to <= s@.len(),
    ensures
        seg_model(seg) == text_model(unescape_spec(s@.subrange(from as int, to as int))),
        seg.raw@.len() == 0,
{
    let piece = sub_chars(s, from, to);
    let u = unescape_cq_text(&piece);
    text_segment(string_from_chars(u.as_slice()))
}

/// Splits a CQ-coded string into segments.
pub fn parse_cq_message(input: &str) -> (r: Vec<Segment>)
    ensures
        seg_models(r@) == cq_message_spec(input@),
        raws_empty(r@),
{
    let s = chars_of(input);
    let open = chars_of("[CQ:");
    let close: Vec<char> = vec![']'];
    proof {
        reveal_strlit("[CQ:");
    }
    assert(close@ =~= seq![']']);
    let n = s.len();
    let mut out: Vec<Segment> = Vec::new();
    let mut pos: usize = 0;
    assert(seg_models(out@) + cq_from(s@, 0) =~= cq_from(s@, 0));
    while pos < n
        invariant
            pos <= n == s@.len(),
            open@ == "[CQ:"@,
            "[CQ:"@ == seq!['[', 'C', 'Q', ':'],
            close@ == seq![']'],
            cq_message_spec(input@) == seg_models(out@) + cq_from(s@, pos as int),
            s@ == input@,
            raws_empty(out@),
        decreases n - pos,
    {
        let ghost old_out = out@;
        let found = find_chars(&s, &open, pos);
        proof {
            crate::text::lemma_find_from_found(s@, open@, pos as int);
        }
        match found {
            None => {
                out.push(text_of_range(&s, pos, n));
                assert(seg_models(out@) =~= seg_models(old_out) + cq_from(s@, pos as int));
                assert(cq_from(s@, n as int) =~= Seq::<SegModel>::empty());
                pos = n;
            },
            Some(start) => {
                let ghost pre = if start > pos {
                    seq![text_model(unescape_spec(s@.subrange(pos as int, start as int)))]
                } else {
                    Seq::<SegModel>::empty()
                };
                if start > pos {
                    out.push(text_of_range(&s, pos, start));
                }
                assert(seg_models(out@) =~= seg_models(old_out) + pre);
                let ghost mid = out@;
                let found_end = find_chars(&s, &close, start);
                proof {
                    crate::text::lemma_find_from_found(s@, close@, start as int);
                }
                match found_end {
                    None => {
                        out.push(text_of_range(&s, start, n));
                        assert(seg_models(out@) =~= seg_models(old_out) + cq_from(s@, pos as int));
                        assert(cq_from(s@, n as int) =~= Seq::<SegModel>::empty());
                        pos = n;
                    },
                    Some(end) => {
                        proof {
                            assert(s@.subrange(start as int, start + 4) == open@);
                            assert forall|j: int| start <= j < start + 4 implies !#[trigger] crate::text::occurs_at(s@, close@, j) by {
                                assert(s@[j] == s@.subrange(start as int, start + 4)[j - start]);
                                if crate::text::occurs_at(s@, close@, j) {
                                    assert(s@.subrange(j, j + 1)[0] == s@[j]);
                                }
                            }
                            if end < start + 4 {
                                assert(!crate::text::occurs_at(s@, close@, end as int));
                            }
                        }
                        let token = sub_chars(&s, start + 4, end);
                        let mut segs = parse_cq_token(&token);
                        let ghost segv = segs@;
                        out.append(&mut segs);
                        assert(seg_models(out@) =~= seg_models(mid) + seg_models(segv));
                        assert(raws_empty(out@)) by {
                            assert forall|i: int| 0 <= i < out@.len() implies (#[trigger] out@[i]).raw@.len() == 0 by {
                                if i >= mid.len() {
                                    assert(out@[i] == segv[i - mid.len()]);
                                }
                            }
                        }
                        assert(seg_models(old_out) + cq_from(s@, pos as int) =~= seg_models(out@)
                            + cq_from(s@, end + 1));
                        pos = end + 1;
                    },
                }
            },
        }
    }
    assert(cq_from(s@, pos as int) =~= Seq::<SegModel>::empty());
    assert(seg_models(out@) + Seq::<SegModel>::empty() =~= seg_models(out@));
    out
}

} // verus!

verus! {

/// Why a OneBot message could not be read.
#[derive(Debug)]
pub enum MessageIrError {
    Empty,
    Decode(serde_json::Error),
    SegmentNotObject,
    Unsupported,
}

impl MessageIrError {
    /// The error's text, as its `Display` writes it.
    pub fn message(&self) -> (s: String)
        ensures
            match self {
                MessageIrError::Empty => s@ == "message is required"@,
                MessageIrError::SegmentNotObject => s@ == "message segment must be object"@,
                MessageIrError::Unsupported => s@ == "unsupported message type"@,
                MessageIrError::Decode(e) => prefixed_display(s@, "decode message: "@, e),
            },
    {
        match self {
            MessageIrError::Empty => lit("message is required"),
            MessageIrError::SegmentNotObject => lit("message segment must be object"),
            MessageIrError::Unsupported => lit("unsupported message type"),
            MessageIrError::Decode(e) => {
                let d = e.to_string();
                let mut s = String::from_str("decode message: ");
                s.append(d.as_str());
                s
            },
        }
    }
}

/// The text a JSON value gives as a segment parameter: a string as is,
/// `null` as nothing, anything else as its compact JSON text.
pub open spec fn value_text(j: Json) -> Seq<char> {
    match j {
        Json::Str(s) => s,
        Json::Null => Seq::empty(),
        _ => json_text(j),
    }
}

/// The text a JSON value gives as a segment parameter.
pub fn value_to_string(v: &JsonValue) -> (s: String)
    ensures
        s@ == value_text(v@),
{
    match v {
        JsonValue::Str(s) => s.clone(),
        JsonValue::Null => String::new(),
        _ => {
            let mut out: Vec<char> = Vec::new();
            crate::json::write_json(v, &mut out);
            assert(out@ =~= json_text(v@));
            string_from_chars(out.as_slice())
        },
    }
}

/// `type` of a segment object, or empty when absent or not a string.
pub open spec fn obj_type_name(o: Seq<(Seq<char>, Json)>) -> Seq<char> {
    match obj_get(o, "type"@) {
        Some(Json::Str(t)) => t,
        _ => Seq::empty(),
    }
}

/// The members of a `data` object as strings, in key order.
pub open spec fn fold_data(d: Seq<(Seq<char>, Json)>) -> Entries
    decreases d.len(),
{
    if d.len() == 0 {
        Seq::empty()
    } else {
        dm_insert(fold_data(d.drop_last()), d.last().0, value_text(d.last().1))
    }
}

/// `data` of a segment object, empty when absent or not an object.
pub open spec fn obj_data(o: Seq<(Seq<char>, Json)>) -> Entries {
    match obj_get(o, "data"@) {
        Some(Json::Object(d)) => fold_data(d),
        _ => Seq::empty(),
    }
}

/// `k=v` for each entry, joined by commas.
pub open spec fn join_pairs(d: Entries) -> Seq<char>
    decreases d.len(),
{
    if d.len() == 0 {
        Seq::empty()
    } else if d.len() == 1 {
        d[0].0 + seq!['='] + d[0].1
    } else {
        join_pairs(d.drop_last()) + seq![','] + d.last().0 + seq!['='] + d.last().1
    }
}

/// The CQ text kept for a segment of a type the bridge does not know.
pub open spec fn fallback_text(t: Seq<char>, data: Entries) -> Seq<char> {
    "[CQ:"@ + t + (if data.len() == 0 {
        Seq::<char>::empty()
    } else {
        seq![','] + join_pairs(data)
    }) + "]"@
}

/// The segments one OneBot segment object stands for.
pub open spec fn segment_object_spec(o: Seq<(Seq<char>, Json)>) -> Seq<SegModel> {
    let t = obj_type_name(o);
    let data = obj_data(o);
    if t == "text"@ {
        seq![keyed_model(SegmentType::Text, "text"@, data)]
    } else if t == "image"@ {
        seq![(SegmentType::Image, normalize_media_spec(data))]
    } else if t == "record"@ {
        seq![(SegmentType::Record, normalize_media_spec(data))]
    } else if t == "at"@ {
        seq![keyed_model(SegmentType::At, "qq"@, data)]
    } else if t == "reply"@ {
        seq![keyed_model(SegmentType::Reply, "id"@, data)]
    } else if t == "poke"@ {
        seq![keyed_model(SegmentType::Poke, "qq"@, data)]
    } else {
        seq![text_model(fallback_text(t, data))]
    }
}

fn data_of_object(d: &Vec<(String, JsonValue)>) -> (m: DataMap)
    ensures
        m@ == fold_data(json_entries(d@)),
{
    let ghost es = json_entries(d@);
    proof {
        crate::json::lemma_json_entries_index(d@);
    }
    let mut m = DataMap::new();
    let mut i: usize = 0;
    assert(es.take(0) =~= Seq::<(Seq<char>, Json)>::empty());
    while i < d.len()
        invariant
            i <= d.len(),
            es == json_entries(d@),
            es.len() == d@.len(),
            forall|j: int|
                0 <= j < d@.len() ==> #[trigger] es[j] == (d@[j].0@, crate::json::json_of(
                    d@[j].1,
                )),
            m@ == fold_data(es.take(i as int)),
        decreases d.len() - i,
    {
        let v = value_to_string(&d[i].1);
        m.insert(d[i].0.clone(), v);
        assert(es.take(i + 1).drop_last() =~= es.take(i as int));
        assert(es.take(i + 1).last() == es[i as int]);
        i = i + 1;
    }
    assert(es.take(d.len() as int) =~= es);
    m
}

fn join_pairs_chars(data: &DataMap) -> (r: Vec<char>)
    ensures
        r@ == join_pairs(data@),
{
    let mut r: Vec<char> = Vec::new();
    let mut i: usize = 0;
    assert(data@.take(0) =~= Seq::<(Seq<char>, Seq<char>)>::empty());
    while i < data.len()
        invariant
            i <= data@.len(),
            r@ == join_pairs(data@.take(i as int)),
        decreases data@.len() - i,
    {
        let ghost prev = r@;
        if i > 0 {
            r.push(',');
        }
        crate::text::push_str(&mut r, data.key_at(i).as_str());
        r.push('=');
        crate::text::push_str(&mut r, data.value_at(i).as_str());
        let ghost t = data@.take(i + 1);
        assert(t.drop_last() =~= data@.take(i as int));
        assert(t.last() == data@[i as int]);
        if i == 0 {
            assert(r@ =~= t[0].0 + seq!['='] + t[0].1);
        } else {
            assert(r@ =~= prev + seq![','] + t.last().0 + seq!['='] + t.last().1);
        }
        i = i + 1;
    }
    assert(data@.take(data@.len() as int) =~= data@);
    r
}

/// The segments of one OneBot segment object (its members).
pub fn parse_segment_object(obj: &Vec<(String, JsonValue)>) -> (r: Vec<Segment>)
    ensures
        seg_models(r@) == segment_object_spec(json_entries(obj@)),
        raws_empty(r@),
{
    let ghost o = json_entries(obj@);
    let tname: Vec<char> = match crate::json::entries_get(obj, "type") {
        Some(JsonValue::Str(t)) => chars_of(t.as_str()),
        _ => Vec::new(),
    };
    assert(tname@ == obj_type_name(o));
    let data = match crate::json::entries_get(obj, "data") {
        Some(JsonValue::Object(d)) => data_of_object(d),
        _ => DataMap::new(),
    };
    assert(data@ == obj_data(o));
    let mut out: Vec<Segment> = Vec::new();
    if is_lit(&tname, "text") {
        out.push(keyed_segment(SegmentType::Text, "text", &data));
    } else if is_lit(&tname, "image") {
        out.push(media_segment(SegmentType::Image, &data));
    } else if is_lit(&tname, "record") {
        out.push(media_segment(SegmentType::Record, &data));
    } else if is_lit(&tname, "at") {
        out.push(keyed_segment(SegmentType::At, "qq", &data));
    } else if is_lit(&tname, "reply") {
        out.push(keyed_segment(SegmentType::Reply, "id", &data));
    } else if is_lit(&tname, "poke") {
        out.push(keyed_segment(SegmentType::Poke, "qq", &data));
    } else {
        let mut t: Vec<char> = Vec::new();
        crate::text::push_str(&mut t, "[CQ:");
        crate::text::push_chars(&mut t, &tname);
        if !data.is_empty() {
            t.push(',');
            let pairs = join_pairs_chars(&data);
            crate::text::push_chars(&mut t, &pairs);
        }
        crate::text::push_str(&mut t, "]");
        assert(t@ =~= fallback_text(tname@, data@));
        out.push(text_segment(string_from_chars(t.as_slice())));
    }
    assert(seg_models(out@) =~= segment_object_spec(o));
    out
}

} // verus!

verus! {

/// Whether every element is a JSON object.
pub open spec fn all_objects(items: Seq<Json>) -> bool {
    forall|i: int| 0 <= i < items.len() ==> (#[trigger] items[i]) is Object
}

/// The segments of an array of segment objects, in order.
pub open spec fn segment_array_spec(items: Seq<Json>) -> Seq<SegModel>
    decreases items.len(),
{
    if items.len() == 0 {
        Seq::empty()
    } else {
        segment_array_spec(items.drop_last()) + match items.last() {
            Json::Object(o) => segment_object_spec(o),
            _ => Seq::empty(),
        }
    }
}

/// Reads a OneBot `message` field: a CQ string (or plain text when
/// `auto_escape`), one segment object, or an array of segment objects.
pub fn parse_onebot_message(raw: &JsonValue, auto_escape: bool) -> (r: Result<
    Vec<Segment>,
    MessageIrError,
>)
    ensures
        match raw@ {
            Json::Null => r matches Err(MessageIrError::Empty),
            Json::Str(s) => r matches Ok(v) && raws_empty(v@) && seg_models(v@) == (if auto_escape {
                seq![text_model(s)]
            } else {
                cq_message_spec(s)
            }),
            Json::Object(o) => r matches Ok(v) && raws_empty(v@) && seg_models(v@)
                == segment_object_spec(o),
            Json::Array(items) => if all_objects(items) {
                r matches Ok(v) && raws_empty(v@) && seg_models(v@) == segment_array_spec(items)
            } else {
                r matches Err(MessageIrError::SegmentNotObject)
            },
            _ => r matches Err(MessageIrError::Unsupported),
        },
{
    match raw {
        JsonValue::Null => Err(MessageIrError::Empty),
        JsonValue::Str(s) => {
            if auto_escape {
                let seg = text_segment(s.clone());
                let v = vec![seg];
                assert(seg_models(v@) =~= seq![text_model(s@)]);
                Ok(v)
            } else {
                Ok(parse_cq_message(s.as_str()))
            }
        },
        JsonValue::Object(obj) => Ok(parse_segment_object(obj)),
        JsonValue::Array(items) => {
            let ghost js = crate::json::json_list(items@);
            proof {
                crate::json::lemma_json_list_index(items@);
            }
            let mut out: Vec<Segment> = Vec::new();
            let mut i: usize = 0;
            assert(js.take(0) =~= Seq::<Json>::empty());
            while i < items.len()
                invariant
                    i <= items.len(),
                    js == crate::json::json_list(items@),
                    *raw == JsonValue::Array(*items),
                    js.len() == items@.len(),
                    forall|j: int| 0 <= j < items@.len() ==> #[trigger] js[j] == crate::json::json_of(items@[j]),
                    all_objects(js.take(i as int)),
                    seg_models(out@) == segment_array_spec(js.take(i as int)),
                    raws_empty(out@),
                decreases items.len() - i,
            {
                let ghost t = js.take(i + 1);
                assert(t.drop_last() =~= js.take(i as int));
                assert(t.last() == js[i as int]);
                match &items[i] {
                    JsonValue::Object(obj) => {
                        let mut segs = parse_segment_object(obj);
                        let ghost mid = out@;
                        let ghost segv = segs@;
                        out.append(&mut segs);
                        assert(seg_models(out@) =~= seg_models(mid) + seg_models(segv));
                        assert(raws_empty(out@)) by {
                            assert forall|k: int| 0 <= k < out@.len() implies (#[trigger] out@[k]).raw@.len() == 0 by {
                                if k >= mid.len() {
                                    assert(out@[k] == segv[k - mid.len()]);
                                }
                            }
                        }
                        assert(all_objects(t)) by {
                            assert forall|k: int| 0 <= k < t.len() implies (#[trigger] t[k]) is Object by {
                                if k < i {
                                    assert(t[k] == js.take(i as int)[k]);
                                }
                            }
                        }
                    },
                    _ => {
                        assert(!all_objects(js)) by {
                            assert(!(js[i as int] is Object));
                        }
                        return Err(MessageIrError::SegmentNotObject);
                    },
                }
                i = i + 1;
            }
            assert(js.take(items.len() as int) =~= js);
            Ok(out)
        },
        _ => Err(MessageIrError::Unsupported),
    }
}

/// The CQ text one segment is written as.
pub open spec fn cq_piece(m: SegModel) -> Seq<char> {
    let d = m.1;
    match m.0 {
        SegmentType::Text => escape_text_spec(dm_get_or_empty(d, "text"@)),
        SegmentType::Image => "[CQ:image,file="@ + escape_value_spec(pick_file_or_url_spec(d))
            + "]"@,
        SegmentType::Record => "[CQ:record,file="@ + escape_value_spec(pick_file_or_url_spec(d))
            + "]"@,
        SegmentType::At => "[CQ:at,qq="@ + escape_value_spec(dm_get_or_empty(d, "qq"@)) + "]"@,
        SegmentType::Reply => "[CQ:reply,id="@ + escape_value_spec(dm_get_or_empty(d, "id"@))
            + "]"@,
        SegmentType::Poke => "[CQ:poke,qq="@ + escape_value_spec(dm_get_or_empty(d, "qq"@))
            + "]"@,
        SegmentType::File | SegmentType::Unknown => escape_text_spec(
            dm_get_or_empty(d, "text"@),
        ),
    }
}

/// The CQ string of a segment list.
pub open spec fn cq_string_spec(segs: Seq<SegModel>) -> Seq<char>
    decreases segs.len(),
{
    if segs.len() == 0 {
        Seq::empty()
    } else {
        cq_string_spec(segs.drop_last()) + cq_piece(segs.last())
    }
}

fn push_code(out: &mut Vec<char>, head: &str, value: &String)
    ensures
        final(out)@ == old(out)@ + head@ + escape_value_spec(value@) + "]"@,
{
    crate::text::push_str(out, head);
    let v = chars_of(value.as_str());
    let e = escape_cq_value(&v);
    crate::text::push_chars(out, &e);
    crate::text::push_str(out, "]");
    assert(final(out)@ =~= old(out)@ + head@ + escape_value_spec(value@) + "]"@);
}

fn push_escaped_text(out: &mut Vec<char>, value: &String)
    ensures
        final(out)@ == old(out)@ + escape_text_spec(value@),
{
    let v = chars_of(value.as_str());
    let e = escape_cq_text(&v);
    crate::text::push_chars(out, &e);
}

/// Writes segments as a CQ string.
pub fn build_cq_string(segments: &[Segment]) -> (s: String)
    ensures
        s@ == cq_string_spec(seg_models(segments@)),
{
    let ghost ms = seg_models(segments@);
    let mut buf: Vec<char> = Vec::new();
    let mut i: usize = 0;
    assert(ms.take(0) =~= Seq::<SegModel>::empty());
    while i < segments.len()
        invariant
            i <= segments@.len(),
            ms == seg_models(segments@),
            buf@ == cq_string_spec(ms.take(i as int)),
        decreases segments@.len() - i,
    {
        let seg = &segments[i];
        let ghost before = buf@;
        match seg.kind {
            SegmentType::Text => {
                let t = seg.data.get_or_empty("text");
                push_escaped_text(&mut buf, &t);
            },
            SegmentType::Image => {
                let f = pick_file_or_url(&seg.data);
                push_code(&mut buf, "[CQ:image,file=", &f);
            },
            SegmentType::Record => {
                let f = pick_file_or_url(&seg.data);
                push_code(&mut buf, "[CQ:record,file=", &f);
            },
            SegmentType::At => {
                let q = seg.data.get_or_empty("qq");
                push_code(&mut buf, "[CQ:at,qq=", &q);
            },
            SegmentType::Reply => {
                let q = seg.data.get_or_empty("id");
                push_code(&mut buf, "[CQ:reply,id=", &q);
            },
            SegmentType::Poke => {
                let q = seg.data.get_or_empty("qq");
                push_code(&mut buf, "[CQ:poke,qq=", &q);
            },
            SegmentType::File | SegmentType::Unknown => {
                let t = seg.data.get_or_empty("text");
                push_escaped_text(&mut buf, &t);
            },
        }
        assert(ms[i as int] == seg_model(segments@[i as int]));
        assert(buf@ == before + cq_piece(ms[i as int]));
        assert(ms.take(i + 1).drop_last() =~= ms.take(i as int));
        i = i + 1;
    }
    assert(ms.take(segments@.len() as int) =~= ms);
    string_from_chars(buf.as_slice())
}

} // verus!

verus! {

/// Entries as members of a JSON object with string values.
pub open spec fn str_members(m: Entries) -> Seq<(Seq<char>, Json)> {
    m.map_values(|e: (Seq<char>, Seq<char>)| (e.0, Json::Str(e.1)))
}

/// `{"type": t, "data": {k: value of k}}`.
pub open spec fn keyed_json(t: Seq<char>, k: Seq<char>, d: Entries) -> Json {
    Json::Object(
        seq![
            ("data"@, Json::Object(seq![(k, Json::Str(dm_get_or_empty(d, k)))])),
            ("type"@, Json::Str(t)),
        ],
    )
}

/// `{"type": t, "data": {file, url}}` for a media segment.
pub open spec fn media_json(t: Seq<char>, d: Entries) -> Json {
    Json::Object(
        seq![
            ("data"@, Json::Object(str_members(normalize_media_spec(d)))),
            ("type"@, Json::Str(t)),
        ],
    )
}

/// The OneBot segment object written for a segment.
pub open spec fn seg_json(m: SegModel) -> Json {
    let d = m.1;
    match m.0 {
        SegmentType::Text => keyed_json("text"@, "text"@, d),
        SegmentType::Image => media_json("image"@, d),
        SegmentType::Record => media_json("record"@, d),
        SegmentType::At => keyed_json("at"@, "qq"@, d),
        SegmentType::Reply => keyed_json("reply"@, "id"@, d),
        SegmentType::Poke => keyed_json("poke"@, "qq"@, d),
        SegmentType::File | SegmentType::Unknown => keyed_json("text"@, "text"@, d),
    }
}

/// The `message` value and the raw CQ text for a segment list: a CQ string
/// for the `string` format, an array of segment objects otherwise.
pub open spec fn build_message_spec(format: Seq<char>, segs: Seq<SegModel>) -> (Json, Seq<char>) {
    let cq = cq_string_spec(segs);
    if format == "string"@ {
        (Json::Str(cq), cq)
    } else {
        (Json::Array(segs.map_values(|m: SegModel| seg_json(m))), cq)
    }
}

/// A JSON object with the map's entries as string members.
pub fn btreemap_to_json(data: &DataMap) -> (r: JsonValue)
    ensures
        r@ == Json::Object(str_members(data@)),
{
    let mut o: Vec<(String, JsonValue)> = Vec::new();
    let mut i: usize = 0;
    assert(str_members(data@.take(0)) =~= json_entries(o@));
    while i < data.len()
        invariant
            i <= data@.len(),
            json_entries(o@) == str_members(data@.take(i as int)),
        decreases data@.len() - i,
    {
        let v = data.value_at(i).clone();
        crate::json::obj_push(&mut o, data.key_at(i).as_str(), JsonValue::Str(v));
        assert(str_members(data@.take(i + 1)) =~= str_members(data@.take(i as int)).push(
            (data@[i as int].0, Json::Str(data@[i as int].1)),
        ));
        i = i + 1;
    }
    assert(data@.take(data@.len() as int) =~= data@);
    JsonValue::Object(o)
}

fn keyed_value(t: &str, k: &str, data: &DataMap) -> (r: JsonValue)
    ensures
        r@ == keyed_json(t@, k@, data@),
{
    let mut inner: Vec<(String, JsonValue)> = Vec::new();
    crate::json::obj_push(&mut inner, k, JsonValue::Str(data.get_or_empty(k)));
    assert(json_entries(inner@) =~= seq![(k@, Json::Str(dm_get_or_empty(data@, k@)))]);
    let iv = JsonValue::Object(inner);
    assert(iv@ == Json::Object(seq![(k@, Json::Str(dm_get_or_empty(data@, k@)))]));
    let ghost ivj = iv@;
    let mut o: Vec<(String, JsonValue)> = Vec::new();
    crate::json::obj_push(&mut o, "data", iv);
    crate::json::obj_push(&mut o, "type", crate::json::jstr(t));
    let r = JsonValue::Object(o);
    assert(json_entries(o@) =~= seq![("data"@, ivj), ("type"@, Json::Str(t@))]);
    assert(r@ == keyed_json(t@, k@, data@));
    r
}

fn media_value(t: &str, data: &DataMap) -> (r: JsonValue)
    ensures
        r@ == media_json(t@, data@),
{
    let norm = normalize_media_data(data);
    let mut o: Vec<(String, JsonValue)> = Vec::new();
    let dv = btreemap_to_json(&norm);
    let ghost dj = dv@;
    crate::json::obj_push(&mut o, "data", dv);
    crate::json::obj_push(&mut o, "type", crate::json::jstr(t));
    let r = JsonValue::Object(o);
    assert(json_entries(o@) =~= seq![("data"@, dj), ("type"@, Json::Str(t@))]);
    assert(r@ == media_json(t@, data@));
    r
}

/// The OneBot segment object for a segment.
pub fn segment_json(seg: &Segment) -> (r: JsonValue)
    ensures
        r@ == seg_json(seg_model(*seg)),
{
    match seg.kind {
        SegmentType::Text => keyed_value("text", "text", &seg.data),
        SegmentType::Image => media_value("image", &seg.data),
        SegmentType::Record => media_value("record", &seg.data),
        SegmentType::At => keyed_value("at", "qq", &seg.data),
        SegmentType::Reply => keyed_value("reply", "id", &seg.data),
        SegmentType::Poke => keyed_value("poke", "qq", &seg.data),
        SegmentType::File | SegmentType::Unknown => keyed_value("text", "text", &seg.data),
    }
}

/// The `message` value in the configured format, and the raw CQ text.
pub fn build_onebot_message(format: &str, segments: &[Segment]) -> (r: (JsonValue, String))
    ensures
        (r.0@, r.1@) == build_message_spec(format@, seg_models(segments@)),
{
    let raw = build_cq_string(segments);
    if crate::text::str_eq(format, "string") {
        return (JsonValue::Str(raw.clone()), raw);
    }
    let ghost ms = seg_models(segments@);
    let mut arr: Vec<JsonValue> = Vec::new();
    let mut i: usize = 0;
    assert(crate::json::json_list(arr@) =~= ms.take(0).map_values(|m: SegModel| seg_json(m)));
    while i < segments.len()
        invariant
            i <= segments@.len(),
            ms == seg_models(segments@),
            crate::json::json_list(arr@) == ms.take(i as int).map_values(|m: SegModel| seg_json(m)),
        decreases segments@.len() - i,
    {
        let v = segment_json(&segments[i]);
        crate::json::arr_push(&mut arr, v);
        assert(ms.take(i + 1).map_values(|m: SegModel| seg_json(m)) =~= ms.take(i as int).map_values(
            |m: SegModel| seg_json(m),
        ).push(seg_json(ms[i as int])));
        i = i + 1;
    }
    assert(ms.take(segments@.len() as int) =~= ms);
    (JsonValue::Array(arr), raw)
}

} // verus!
