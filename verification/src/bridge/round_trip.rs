use vstd::prelude::*;

use crate::bridge::cq_escape::{
    lacks, law_unescape_undoes_text_escape, law_unescape_undoes_value_escape,
    lemma_escaped_text_plain, lemma_escaped_value_plain,
};
use crate::bridge::message_ir::{
    all_objects, build_message_spec, cq_from, cq_kv_data, cq_message_spec, cq_piece,
    cq_string_spec, cq_token_spec, escape_text_spec, escape_value_spec, fold_data,
    normalize_media_spec, obj_data, pick_file_or_url_spec, seg_json,
    segment_array_spec, segment_object_spec, str_members, text_model, unescape_spec, value_text,
    SegModel,
};
use crate::json::{json_text, lemma_obj_get_at, names_apart, obj_get, Json};
use crate::datamap::{dm_get, dm_get_or_empty, dm_insert};
use crate::text::{
    find_from, int_text, nat_text, occurs_at, split_from, split_once_spec, split_spec,
};
use crate::types::SegmentType;

verus! {

/// The first occurrence of `pat` from `pos` on is at `k` when no position
/// before `k` starts like `pat`.
proof fn lemma_find_at(s: Seq<char>, pat: Seq<char>, pos: int, k: int)
    requires
        pat.len() > 0,
        0 <= pos <= k,
        occurs_at(s, pat, k),
        forall|j: int| pos <= j < k ==> s[j] != pat[0],
    ensures
        find_from(s, pat, pos) == Some(k),
    decreases k - pos,
{
    if pos < k {
        assert(!occurs_at(s, pat, pos)) by {
            if occurs_at(s, pat, pos) {
                assert(s.subrange(pos, pos + pat.len())[0] == s[pos]);
            }
        }
        lemma_find_at(s, pat, pos + 1, k);
    }
}

/// No occurrence of `pat` from `pos` on when nothing there starts like it.
proof fn lemma_find_none(s: Seq<char>, pat: Seq<char>, pos: int)
    requires
        pat.len() > 0,
        0 <= pos,
        forall|j: int| pos <= j < s.len() ==> s[j] != pat[0],
    ensures
        find_from(s, pat, pos) is None,
    decreases s.len() + 1 - pos,
{
    if pos + pat.len() <= s.len() {
        assert(!occurs_at(s, pat, pos)) by {
            if occurs_at(s, pat, pos) {
                assert(s.subrange(pos, pos + pat.len())[0] == s[pos]);
            }
        }
        lemma_find_none(s, pat, pos + 1);
    }
}

proof fn lemma_open_literal()
    ensures
        "[CQ:"@ == seq!['[', 'C', 'Q', ':'],
        "]"@ == seq![']'],
{
    reveal_strlit("[CQ:");
    reveal_strlit("]");
}

/// Plain text up to the end reads as one text segment.
proof fn lemma_cq_plain_tail(s: Seq<char>, pos: int)
    requires
        0 <= pos < s.len(),
        forall|j: int| pos <= j < s.len() ==> s[j] != '[',
    ensures
        cq_from(s, pos) == seq![text_model(unescape_spec(s.subrange(pos, s.len() as int)))],
{
    lemma_open_literal();
    lemma_find_none(s, "[CQ:"@, pos);
}

/// Plain text up to a CQ code reads as one text segment before it.
proof fn lemma_cq_plain_then_code(s: Seq<char>, pos: int, k: int)
    requires
        0 <= pos < k,
        occurs_at(s, "[CQ:"@, k),
        forall|j: int| pos <= j < k ==> s[j] != '[',
    ensures
        cq_from(s, pos) == seq![text_model(unescape_spec(s.subrange(pos, k)))] + cq_from(s, k),
{
    lemma_open_literal();
    lemma_find_at(s, "[CQ:"@, pos, k);
    lemma_find_at(s, "[CQ:"@, k, k);
}

/// A CQ code closed by the first `]` after it reads as its token's segments.
proof fn lemma_cq_code(s: Seq<char>, pos: int, e: int)
    requires
        occurs_at(s, "[CQ:"@, pos),
        pos + 4 <= e < s.len(),
        s[e] == ']',
        forall|j: int| pos <= j < e ==> s[j] != ']',
    ensures
        cq_from(s, pos) == cq_token_spec(s.subrange(pos + 4, e)) + cq_from(s, e + 1),
{
    lemma_open_literal();
    lemma_find_at(s, "[CQ:"@, pos, pos);
    assert(occurs_at(s, seq![']'], e)) by {
        assert(s.subrange(e, e + 1) =~= seq![']']);
    }
    lemma_find_at(s, seq![']'], pos, e);
    assert(Seq::<SegModel>::empty() + cq_token_spec(s.subrange(pos + 4, e)) + cq_from(s, e + 1)
        =~= cq_token_spec(s.subrange(pos + 4, e)) + cq_from(s, e + 1));
}

/// `s.split(',')` of two comma-free pieces joined by a comma.
proof fn lemma_split_two(name: Seq<char>, rest: Seq<char>)
    requires
        lacks(name, ','),
        lacks(rest, ','),
    ensures
        split_spec(name + seq![','] + rest, ',') == seq![name, rest],
{
    let tok = name + seq![','] + rest;
    let n = name.len() as int;
    assert(occurs_at(tok, seq![','], n)) by {
        assert(tok.subrange(n, n + 1) =~= seq![',']);
    }
    assert forall|j: int| 0 <= j < n implies tok[j] != seq![','][0] by {
        assert(tok[j] == name[j]);
    }
    lemma_find_at(tok, seq![','], 0, n);
    assert forall|j: int| n + 1 <= j < tok.len() implies tok[j] != seq![','][0] by {
        assert(tok[j] == rest[j - n - 1]);
    }
    lemma_find_none(tok, seq![','], n + 1);
    assert(split_from(tok, ',', n + 1) == seq![tok.subrange(n + 1, tok.len() as int)]);
    assert(tok.subrange(0, n) =~= name);
    assert(tok.subrange(n + 1, tok.len() as int) =~= rest);
}

/// `s.split_once('=')` where the key holds no `=`.
proof fn lemma_split_once_key(key: Seq<char>, v: Seq<char>)
    requires
        lacks(key, '='),
    ensures
        split_once_spec(key + seq!['='] + v, '=') == Some((key, v)),
{
    let item = key + seq!['='] + v;
    let n = key.len() as int;
    assert(occurs_at(item, seq!['='], n)) by {
        assert(item.subrange(n, n + 1) =~= seq!['=']);
    }
    assert forall|j: int| 0 <= j < n implies item[j] != seq!['='][0] by {
        assert(item[j] == key[j]);
    }
    lemma_find_at(item, seq!['='], 0, n);
    assert(item.take(n) =~= key);
    assert(item.skip(n + 1) =~= v);
}

/// The token `name,key=value` with an escaped value: its name, and the one
/// pair it carries with the value decoded.
proof fn lemma_token_parts(name: Seq<char>, key: Seq<char>, v: Seq<char>)
    requires
        lacks(name, ','),
        lacks(key, ','),
        lacks(key, '='),
    ensures
        ({
            let parts = split_spec(name + seq![','] + key + seq!['='] + escape_value_spec(v), ',');
            &&& parts.len() == 2
            &&& parts[0] == name
            &&& cq_kv_data(parts.subrange(1, parts.len() as int)) == seq![(key, v)]
        }),
{
    let e = escape_value_spec(v);
    lemma_escaped_value_plain(v);
    let item = key + seq!['='] + e;
    assert(lacks(item, ',')) by {
        assert forall|j: int| 0 <= j < item.len() implies item[j] != ',' by {
            if j < key.len() {
                assert(item[j] == key[j]);
            } else if j > key.len() {
                assert(item[j] == e[j - key.len() - 1]);
            }
        }
    }
    assert(name + seq![','] + key + seq!['='] + e =~= name + seq![','] + item);
    lemma_split_two(name, item);
    let parts = seq![name, item];
    assert(parts.subrange(1, 2) =~= seq![item]);
    lemma_split_once_key(key, e);
    law_unescape_undoes_value_escape(v);
    assert(seq![item].drop_last() =~= Seq::<Seq<char>>::empty());
    assert(seq![item].last() == item);
    assert(cq_kv_data(Seq::<Seq<char>>::empty()) == Seq::<(Seq<char>, Seq<char>)>::empty());
    assert(cq_kv_data(seq![item]) == dm_insert(
        Seq::<(Seq<char>, Seq<char>)>::empty(),
        key,
        unescape_spec(e),
    ));
    assert(parts.subrange(1, parts.len() as int) == seq![item]);
}

/// A segment that its CQ form gives back unchanged: non-empty text, an
/// `at`, `reply` or `poke` holding its one key, or an image or record whose
/// `file` and `url` agree.
pub open spec fn cq_faithful(m: SegModel) -> bool {
    let d = m.1;
    match m.0 {
        SegmentType::Text => d.len() == 1 && d[0].0 == "text"@ && d[0].1.len() > 0,
        SegmentType::At | SegmentType::Poke => d.len() == 1 && d[0].0 == "qq"@,
        SegmentType::Reply => d.len() == 1 && d[0].0 == "id"@,
        SegmentType::Image | SegmentType::Record => d.len() == 2 && d[0].0 == "file"@ && d[1].0
            == "url"@ && d[0].1 == d[1].1,
        SegmentType::File | SegmentType::Unknown => false,
    }
}

/// Segments that each read back unchanged, with no two text segments in a
/// row (their texts would run together).
pub open spec fn cq_faithful_list(segs: Seq<SegModel>) -> bool {
    &&& forall|i: int| 0 <= i < segs.len() ==> cq_faithful(#[trigger] segs[i])
    &&& forall|i: int, j: int|
        0 <= i && j == i + 1 && j < segs.len() ==> !((#[trigger] segs[i]).0 is Text
            && (#[trigger] segs[j]).0 is Text)
}

/// The name and key a CQ code of this kind is written with, as `name,key=`.
spec fn code_head(k: SegmentType) -> Seq<char> {
    match k {
        SegmentType::At => "at,qq="@,
        SegmentType::Reply => "reply,id="@,
        SegmentType::Poke => "poke,qq="@,
        SegmentType::Image => "image,file="@,
        SegmentType::Record => "record,file="@,
        _ => Seq::empty(),
    }
}

/// The value a CQ code of this segment carries.
spec fn code_value(m: SegModel) -> Seq<char> {
    match m.0 {
        SegmentType::Image | SegmentType::Record => pick_file_or_url_spec(m.1),
        SegmentType::Reply => dm_get_or_empty(m.1, "id"@),
        _ => dm_get_or_empty(m.1, "qq"@),
    }
}

spec fn is_code(k: SegmentType) -> bool {
    k is At || k is Reply || k is Poke || k is Image || k is Record
}

proof fn lemma_literals()
    ensures
        "[CQ:image,file="@ =~= "[CQ:"@ + "image,file="@,
        "[CQ:record,file="@ =~= "[CQ:"@ + "record,file="@,
        "[CQ:at,qq="@ =~= "[CQ:"@ + "at,qq="@,
        "[CQ:reply,id="@ =~= "[CQ:"@ + "reply,id="@,
        "[CQ:poke,qq="@ =~= "[CQ:"@ + "poke,qq="@,
        "image,file="@ =~= "image"@ + seq![','] + "file"@ + seq!['='],
        "record,file="@ =~= "record"@ + seq![','] + "file"@ + seq!['='],
        "at,qq="@ =~= "at"@ + seq![','] + "qq"@ + seq!['='],
        "reply,id="@ =~= "reply"@ + seq![','] + "id"@ + seq!['='],
        "poke,qq="@ =~= "poke"@ + seq![','] + "qq"@ + seq!['='],
        "image"@ == seq!['i', 'm', 'a', 'g', 'e'],
        "record"@ == seq!['r', 'e', 'c', 'o', 'r', 'd'],
        "at"@ == seq!['a', 't'],
        "reply"@ == seq!['r', 'e', 'p', 'l', 'y'],
        "poke"@ == seq!['p', 'o', 'k', 'e'],
        "qq"@ == seq!['q', 'q'],
        "id"@ == seq!['i', 'd'],
        "file"@ == seq!['f', 'i', 'l', 'e'],
        "url"@ == seq!['u', 'r', 'l'],
        "text"@ == seq!['t', 'e', 'x', 't'],
        "[CQ:"@ == seq!['[', 'C', 'Q', ':'],
        "]"@ == seq![']'],
{
    reveal_strlit("[CQ:image,file=");
    reveal_strlit("[CQ:record,file=");
    reveal_strlit("[CQ:at,qq=");
    reveal_strlit("[CQ:reply,id=");
    reveal_strlit("[CQ:poke,qq=");
    reveal_strlit("image,file=");
    reveal_strlit("record,file=");
    reveal_strlit("at,qq=");
    reveal_strlit("reply,id=");
    reveal_strlit("poke,qq=");
    reveal_strlit("image");
    reveal_strlit("record");
    reveal_strlit("at");
    reveal_strlit("reply");
    reveal_strlit("poke");
    reveal_strlit("qq");
    reveal_strlit("id");
    reveal_strlit("file");
    reveal_strlit("url");
    reveal_strlit("text");
    reveal_strlit("[CQ:");
    reveal_strlit("]");
}

/// How a CQ code segment is written.
proof fn lemma_code_piece(m: SegModel)
    requires
        is_code(m.0),
    ensures
        cq_piece(m) == "[CQ:"@ + code_head(m.0) + escape_value_spec(code_value(m)) + "]"@,
{
    lemma_literals();
}

/// The token of a faithful CQ code segment reads back as that segment.
proof fn lemma_code_token(m: SegModel)
    requires
        is_code(m.0),
        cq_faithful(m),
    ensures
        cq_token_spec(code_head(m.0) + escape_value_spec(code_value(m))) == seq![m],
{
    lemma_literals();
    let v = code_value(m);
    let d = m.1;
    match m.0 {
        SegmentType::Image | SegmentType::Record => {
            let name = if m.0 is Image { "image"@ } else { "record"@ };
            assert(lacks(name, ','));
            assert(lacks("file"@, ',') && lacks("file"@, '='));
            assert(code_head(m.0) + escape_value_spec(v) =~= name + seq![','] + "file"@ + seq!['=']
                + escape_value_spec(v));
            lemma_token_parts(name, "file"@, v);
            assert("file"@ != "url"@) by {
                assert("file"@[0] != "url"@[0]);
            }
            assert(dm_get(d, "file"@) == Some(d[0].1));
            assert(dm_get(d.drop_first(), "url"@) == Some(d[1].1)) by {
                assert(d.drop_first()[0] == d[1]);
            }
            assert(dm_get(d, "url"@) == Some(d[1].1));
            assert(d[0].1 == v);
            let got = seq![("file"@, v)];
            assert(dm_get(got, "url"@) is None) by {
                assert(got[0].0 != "url"@);
                assert(got.drop_first() =~= Seq::<(Seq<char>, Seq<char>)>::empty());
                assert(dm_get(got.drop_first(), "url"@) is None);
            }
            assert(normalize_media_spec(got) =~= d);
        },
        _ => {
            let (name, key) = if m.0 is At {
                ("at"@, "qq"@)
            } else if m.0 is Reply {
                ("reply"@, "id"@)
            } else {
                ("poke"@, "qq"@)
            };
            assert(lacks(name, ','));
            assert(lacks(key, ',') && lacks(key, '='));
            assert(code_head(m.0) + escape_value_spec(v) =~= name + seq![','] + key + seq!['=']
                + escape_value_spec(v));
            lemma_token_parts(name, key, v);
            assert(d[0].0 == key);
            assert(v == d[0].1);
            assert(d =~= seq![(key, v)]);
        },
    }
}

/// The shape of a CQ code segment's text: `[CQ:`, the token, and a closing
/// `]` that is the only one in it.
proof fn lemma_code_piece_shape(m: SegModel)
    requires
        is_code(m.0),
    ensures
        ({
            let piece = cq_piece(m);
            let token = code_head(m.0) + escape_value_spec(code_value(m));
            &&& piece.len() == token.len() + 5
            &&& piece.subrange(0, 4) == "[CQ:"@
            &&& piece.subrange(4, piece.len() - 1) == token
            &&& piece[piece.len() - 1] == ']'
            &&& forall|j: int| 0 <= j < piece.len() - 1 ==> piece[j] != ']'
        }),
{
    lemma_literals();
    lemma_code_piece(m);
    let head = code_head(m.0);
    let e = escape_value_spec(code_value(m));
    lemma_escaped_value_plain(code_value(m));
    assert(lacks(head, ']'));
    let piece = cq_piece(m);
    assert(piece =~= "[CQ:"@ + head + e + "]"@);
    assert(piece.subrange(0, 4) =~= "[CQ:"@);
    assert(piece.subrange(4, piece.len() - 1) =~= head + e);
    assert forall|j: int| 0 <= j < piece.len() - 1 implies piece[j] != ']' by {
        if j < 4 {
        } else if j < 4 + head.len() {
            assert(piece[j] == head[j - 4]);
        } else {
            assert(piece[j] == e[j - 4 - head.len()]);
        }
    }
}

/// A segment list's CQ text is its first segment's text and then the rest's.
proof fn lemma_cq_string_front(segs: Seq<SegModel>)
    requires
        segs.len() > 0,
    ensures
        cq_string_spec(segs) == cq_piece(segs[0]) + cq_string_spec(segs.drop_first()),
    decreases segs.len(),
{
    if segs.len() == 1 {
        assert(segs.drop_last() =~= Seq::<SegModel>::empty());
        assert(segs.drop_first() =~= Seq::<SegModel>::empty());
        assert(cq_string_spec(segs.drop_last()) == Seq::<char>::empty());
        assert(cq_string_spec(segs.drop_first()) == Seq::<char>::empty());
        assert(cq_string_spec(segs) =~= cq_piece(segs[0]));
    } else {
        lemma_cq_string_front(segs.drop_last());
        assert(segs.drop_last().drop_first() =~= segs.drop_first().drop_last());
        assert(segs.drop_first().last() == segs.last());
        assert(segs.drop_last()[0] == segs[0]);
    }
}

/// A faithful text segment's CQ text, followed by the end or by a CQ code,
/// reads back as that segment.
proof fn lemma_text_step(s: Seq<char>, a: int, m: SegModel, k: int)
    requires
        m.0 is Text,
        cq_faithful(m),
        0 <= a,
        k == a + cq_piece(m).len(),
        k <= s.len(),
        s.subrange(a, k) == cq_piece(m),
        k == s.len() || occurs_at(s, "[CQ:"@, k),
    ensures
        cq_from(s, a) == seq![m] + cq_from(s, k),
{
    lemma_literals();
    let piece = cq_piece(m);
    let t = m.1[0].1;
    assert(m.1 =~= seq![("text"@, t)]);
    assert(dm_get(m.1, "text"@) == Some(t));
    assert(piece == escape_text_spec(t));
    lemma_escaped_text_plain(t);
    law_unescape_undoes_text_escape(t);
    assert(text_model(t) == m);
    assert forall|j: int| a <= j < k implies s[j] != '[' by {
        assert(s[j] == s.subrange(a, k)[j - a]);
    }
    if k == s.len() {
        lemma_cq_plain_tail(s, a);
        assert(cq_from(s, k) =~= Seq::<SegModel>::empty());
    } else {
        lemma_cq_plain_then_code(s, a, k);
    }
}

/// A faithful CQ code segment's text reads back as that segment.
proof fn lemma_code_step(s: Seq<char>, a: int, m: SegModel, k: int)
    requires
        is_code(m.0),
        cq_faithful(m),
        0 <= a,
        k == a + cq_piece(m).len(),
        k <= s.len(),
        s.subrange(a, k) == cq_piece(m),
    ensures
        cq_from(s, a) == seq![m] + cq_from(s, k),
{
    let piece = cq_piece(m);
    lemma_code_piece_shape(m);
    lemma_code_token(m);
    let e = k - 1;
    assert(occurs_at(s, "[CQ:"@, a)) by {
        assert(s.subrange(a, a + 4) =~= piece.subrange(0, 4));
    }
    assert(s[e] == piece[piece.len() - 1]);
    assert forall|j: int| a <= j < e implies s[j] != ']' by {
        assert(s[j] == piece[j - a]);
    }
    assert(s.subrange(a + 4, e) =~= piece.subrange(4, piece.len() - 1));
    lemma_cq_code(s, a, e);
}

/// The tail of a faithful list is faithful.
proof fn lemma_faithful_tail(segs: Seq<SegModel>)
    requires
        segs.len() > 0,
        cq_faithful_list(segs),
    ensures
        cq_faithful_list(segs.drop_first()),
{
    let rest = segs.drop_first();
    assert forall|i: int| 0 <= i < rest.len() implies cq_faithful(#[trigger] rest[i]) by {
        assert(rest[i] == segs[i + 1]);
    }
    assert forall|i: int, j: int| 0 <= i && j == i + 1 && j < rest.len() implies !((
    #[trigger] rest[i]).0 is Text && (#[trigger] rest[j]).0 is Text) by {
        assert(rest[i] == segs[i + 1]);
        assert(rest[j] == segs[j + 1]);
    }
}

/// Read from where it starts, the CQ text of faithful segments gives them
/// back, whatever precedes it.
proof fn lemma_reads_back_after(p: Seq<char>, segs: Seq<SegModel>)
    requires
        cq_faithful_list(segs),
    ensures
        cq_from(p + cq_string_spec(segs), p.len() as int) == segs,
    decreases segs.len(),
{
    if segs.len() == 0 {
        assert(p + cq_string_spec(segs) =~= p);
    } else {
        let m = segs[0];
        let rest = segs.drop_first();
        lemma_cq_string_front(segs);
        let piece = cq_piece(m);
        let r = cq_string_spec(rest);
        let s = p + cq_string_spec(segs);
        assert(s =~= (p + piece) + r);
        lemma_faithful_tail(segs);
        lemma_reads_back_after(p + piece, rest);
        let a = p.len() as int;
        let k = a + piece.len();
        assert(segs =~= seq![m] + rest);
        assert(cq_faithful(m));
        assert(s.subrange(a, k) =~= piece);
        if m.0 is Text {
            if rest.len() > 0 {
                let m2 = rest[0];
                assert(m2 == segs[1]);
                assert(!(segs[0].0 is Text && segs[1].0 is Text));
                assert(cq_faithful(m2));
                lemma_cq_string_front(rest);
                lemma_code_piece_shape(m2);
                assert(s.subrange(k, k + 4) =~= cq_piece(m2).subrange(0, 4));
            } else {
                assert(r.len() == 0);
            }
            lemma_text_step(s, a, m, k);
        } else {
            lemma_code_step(s, a, m, k);
        }
    }
}

/// Writing segments in the OneBot string form (a CQ string) and reading
/// that string back gives the same segments, for segments that each read
/// back unchanged with no two text segments in a row.
pub proof fn law_cq_string_reads_back(segs: Seq<SegModel>)
    requires
        cq_faithful_list(segs),
    ensures
        build_message_spec("string"@, segs).0 == Json::Str(cq_string_spec(segs)),
        cq_message_spec(cq_string_spec(segs)) == segs,
{
    lemma_reads_back_after(Seq::empty(), segs);
    assert(Seq::<char>::empty() + cq_string_spec(segs) =~= cq_string_spec(segs));
}

/// A segment that its OneBot array form gives back unchanged: a text, `at`,
/// `reply` or `poke` segment holding its one key, or an image or record whose
/// fields are already in the form the bridge normalises them to.
pub open spec fn array_faithful(m: SegModel) -> bool {
    let d = m.1;
    match m.0 {
        SegmentType::Text => d.len() == 1 && d[0].0 == "text"@,
        SegmentType::At | SegmentType::Poke => d.len() == 1 && d[0].0 == "qq"@,
        SegmentType::Reply => d.len() == 1 && d[0].0 == "id"@,
        SegmentType::Image | SegmentType::Record => d == normalize_media_spec(d),
        SegmentType::File | SegmentType::Unknown => false,
    }
}

/// Normalising media fields twice changes nothing more.
proof fn lemma_normalize_idempotent(d: Seq<(Seq<char>, Seq<char>)>)
    ensures
        normalize_media_spec(normalize_media_spec(d)) == normalize_media_spec(d),
{
    lemma_literals();
    let n = normalize_media_spec(d);
    assert("file"@ != "url"@) by {
        assert("file"@[0] != "url"@[0]);
    }
    assert(dm_get(n, "file"@) == Some(n[0].1));
    assert(dm_get(n.drop_first(), "url"@) == Some(n[1].1)) by {
        assert(n.drop_first()[0] == n[1]);
    }
    assert(dm_get(n, "url"@) == Some(n[1].1));
}

/// A string-valued data object read back as entries.
proof fn lemma_fold_one(k: Seq<char>, v: Seq<char>)
    ensures
        fold_data(seq![(k, Json::Str(v))]) == seq![(k, v)],
{
    let d = seq![(k, Json::Str(v))];
    assert(d.drop_last() =~= Seq::<(Seq<char>, Json)>::empty());
    assert(fold_data(d.drop_last()) == Seq::<(Seq<char>, Seq<char>)>::empty());
}

/// One segment's OneBot object reads back as that segment.
proof fn lemma_object_reads_back(m: SegModel)
    requires
        array_faithful(m),
    ensures
        seg_json(m) is Object,
        segment_object_spec(seg_json(m)->Object_0) == seq![m],
{
    lemma_literals();
    reveal_strlit("data");
    reveal_strlit("type");
    let o = seg_json(m)->Object_0;
    let d = m.1;
    assert("data"@ != "type"@) by {
        assert("data"@[0] != "type"@[0]);
    }
    assert(o[0].0 == "data"@);
    assert(o[1].0 == "type"@);
    assert(o.drop_first()[0] == o[1]);
    assert(obj_get(o.drop_first(), "type"@) == Some(o[1].1));
    assert(obj_get(o, "type"@) == Some(o[1].1));
    assert(obj_get(o, "data"@) == Some(o[0].1));
    match m.0 {
        SegmentType::Image | SegmentType::Record => {
            let n = normalize_media_spec(d);
            assert("file"@ != "url"@) by {
                assert("file"@[0] != "url"@[0]);
            }
            let mem = str_members(n);
            assert(mem =~= seq![("file"@, Json::Str(n[0].1)), ("url"@, Json::Str(n[1].1))]);
            assert(mem.drop_last() =~= seq![("file"@, Json::Str(n[0].1))]);
            lemma_fold_one("file"@, n[0].1);
            assert(crate::text::seq_lt("file"@, "url"@)) by {
                assert("file"@[0] != "url"@[0]);
            }
            assert(!crate::text::seq_lt("url"@, "file"@)) by {
                assert("file"@[0] != "url"@[0]);
            }
            let one = seq![("file"@, n[0].1)];
            assert(one.drop_first() =~= Seq::<(Seq<char>, Seq<char>)>::empty());
            assert(dm_insert(one.drop_first(), "url"@, n[1].1) == seq![("url"@, n[1].1)]);
            assert(fold_data(mem) =~= n);
            assert(obj_data(o) == n);
            lemma_normalize_idempotent(d);
        },
        _ => {
            let key = d[0].0;
            assert(dm_get(d, key) == Some(d[0].1));
            assert(d =~= seq![(key, d[0].1)]);
            lemma_fold_one(key, d[0].1);
            assert(obj_data(o) == d);
        },
    }
}

/// Writing segments in the OneBot array form and reading the array back
/// gives the same segments, for segments that each read back unchanged.
pub proof fn law_array_reads_back(segs: Seq<SegModel>)
    requires
        forall|i: int| 0 <= i < segs.len() ==> array_faithful(#[trigger] segs[i]),
    ensures
        build_message_spec("array"@, segs).0 == Json::Array(
            segs.map_values(|m: SegModel| seg_json(m)),
        ),
        all_objects(segs.map_values(|m: SegModel| seg_json(m))),
        segment_array_spec(segs.map_values(|m: SegModel| seg_json(m))) == segs,
    decreases segs.len(),
{
    reveal_strlit("array");
    reveal_strlit("string");
    assert("array"@ != "string"@) by {
        assert("array"@[0] != "string"@[0]);
    }
    let items = segs.map_values(|m: SegModel| seg_json(m));
    assert forall|i: int| 0 <= i < items.len() implies (#[trigger] items[i]) is Object by {
        lemma_object_reads_back(segs[i]);
    }
    if segs.len() > 0 {
        let init = segs.drop_last();
        law_array_reads_back(init);
        assert(items.drop_last() =~= init.map_values(|m: SegModel| seg_json(m)));
        lemma_object_reads_back(segs.last());
        assert(segs =~= init + seq![segs.last()]);
    }
}

/// A segment parameter given as a JSON value reads as: a string as
/// itself, `null` as nothing, a number as its decimal text, a boolean as
/// `true` or `false`, and an array or object as its compact JSON text.
pub proof fn law_value_text(j: Json)
    ensures
        j matches Json::Str(t) ==> value_text(j) == t,
        j is Null ==> value_text(j) == Seq::<char>::empty(),
        j matches Json::Int(n) ==> value_text(j) == int_text(n as int),
        j matches Json::UInt(n) ==> value_text(j) == nat_text(n as nat),
        j matches Json::Float(t) ==> value_text(j) == t,
        j matches Json::Bool(b) ==> value_text(j) == (if b {
            seq!['t', 'r', 'u', 'e']
        } else {
            seq!['f', 'a', 'l', 's', 'e']
        }),
        j is Array || j is Object ==> value_text(j) == json_text(j),
{
}

proof fn lemma_data_type_apart()
    ensures
        names_apart("data"@, "type"@),
{
    reveal_strlit("data");
    reveal_strlit("type");
    assert("data"@[0] != "type"@[0]);
}

/// The one-key segment object `{"type": t, "data": {key: j}}`.
pub open spec fn one_key_object(t: Seq<char>, key: Seq<char>, j: Json) -> Seq<(Seq<char>, Json)> {
    seq![("data"@, Json::Object(seq![(key, j)])), ("type"@, Json::Str(t))]
}

/// A mention, reply or poke whose id is given as a JSON integer `n` reads
/// as that segment with the decimal text of `n` as its id.
pub proof fn law_numeric_ids_read_as_text(n: i64)
    ensures
        segment_object_spec(one_key_object("at"@, "qq"@, Json::Int(n))) == seq![
            (SegmentType::At, seq![("qq"@, int_text(n as int))]),
        ],
        segment_object_spec(one_key_object("reply"@, "id"@, Json::Int(n))) == seq![
            (SegmentType::Reply, seq![("id"@, int_text(n as int))]),
        ],
        segment_object_spec(one_key_object("poke"@, "qq"@, Json::Int(n))) == seq![
            (SegmentType::Poke, seq![("qq"@, int_text(n as int))]),
        ],
{
    lemma_literals();
    reveal_strlit("data");
    reveal_strlit("type");
    lemma_keyed_object_reads("at"@, "qq"@, Json::Int(n));
    lemma_keyed_object_reads("reply"@, "id"@, Json::Int(n));
    lemma_keyed_object_reads("poke"@, "qq"@, Json::Int(n));
}

/// The type and data read from a one-key segment object.
proof fn lemma_keyed_object_reads(t: Seq<char>, key: Seq<char>, j: Json)
    ensures
        obj_type_name_of(one_key_object(t, key, j)) == t,
        crate::bridge::message_ir::obj_data(one_key_object(t, key, j)) == seq![(key, value_text(j))],
        dm_get(seq![(key, value_text(j))], key) == Some(value_text(j)),
{
    reveal_strlit("data");
    reveal_strlit("type");
    let o = one_key_object(t, key, j);
    lemma_data_type_apart();
    lemma_obj_get_at(o, "type"@, 1);
    lemma_obj_get_at(o, "data"@, 0);
    let d = seq![(key, j)];
    assert(d.drop_last() =~= Seq::<(Seq<char>, Json)>::empty());
    assert(fold_data(d.drop_last()) == Seq::<(Seq<char>, Seq<char>)>::empty());
    assert(seq![(key, value_text(j))].drop_first() =~= Seq::<(Seq<char>, Seq<char>)>::empty());
}

spec fn obj_type_name_of(o: Seq<(Seq<char>, Json)>) -> Seq<char> {
    crate::bridge::message_ir::obj_type_name(o)
}

/// In the array form a file or unknown segment is written exactly as a
/// text segment with the same fields: an object of type `text` whose data
/// holds the segment's text, which reads back as a text segment.
pub proof fn law_unknown_segments_written_as_text(m: SegModel)
    requires
        m.0 is File || m.0 is Unknown,
    ensures
        seg_json(m) == seg_json((SegmentType::Text, m.1)),
        seg_json(m) is Object,
        obj_get(seg_json(m)->Object_0, "type"@) == Some(Json::Str("text"@)),
        obj_get(seg_json(m)->Object_0, "data"@) == Some(
            Json::Object(seq![("text"@, Json::Str(dm_get_or_empty(m.1, "text"@)))]),
        ),
        segment_object_spec(seg_json(m)->Object_0) == seq![
            (SegmentType::Text, seq![("text"@, dm_get_or_empty(m.1, "text"@))]),
        ],
{
    lemma_literals();
    reveal_strlit("data");
    reveal_strlit("type");
    let t = dm_get_or_empty(m.1, "text"@);
    let o = seg_json(m)->Object_0;
    assert(o == one_key_object("text"@, "text"@, Json::Str(t)));
    lemma_data_type_apart();
    lemma_obj_get_at(o, "type"@, 1);
    lemma_obj_get_at(o, "data"@, 0);
    lemma_keyed_object_reads("text"@, "text"@, Json::Str(t));
}

/// In the array form each segment is an object whose `type` names its
/// kind (`text` for text, file and unknown segments) and whose `data`
/// holds its fields: the text, the mentioned `qq`, the replied-to `id`, or
/// for media the `file` and the `url` (the file when there is no url).
pub proof fn law_segment_object_members(m: SegModel)
    ensures
        seg_json(m) is Object,
        obj_get(seg_json(m)->Object_0, "type"@) == Some(
            Json::Str(
                match m.0 {
                    SegmentType::Image => "image"@,
                    SegmentType::Record => "record"@,
                    SegmentType::At => "at"@,
                    SegmentType::Reply => "reply"@,
                    SegmentType::Poke => "poke"@,
                    _ => "text"@,
                },
            ),
        ),
        obj_get(seg_json(m)->Object_0, "data"@) == Some(
            Json::Object(
                match m.0 {
                    SegmentType::Image | SegmentType::Record => {
                        let f = dm_get_or_empty(m.1, "file"@);
                        let u = dm_get_or_empty(m.1, "url"@);
                        seq![
                            ("file"@, Json::Str(f)),
                            ("url"@, Json::Str(if u.len() == 0 { f } else { u })),
                        ]
                    },
                    SegmentType::At | SegmentType::Poke => seq![
                        ("qq"@, Json::Str(dm_get_or_empty(m.1, "qq"@))),
                    ],
                    SegmentType::Reply => seq![("id"@, Json::Str(dm_get_or_empty(m.1, "id"@)))],
                    _ => seq![("text"@, Json::Str(dm_get_or_empty(m.1, "text"@)))],
                },
            ),
        ),
{
    lemma_literals();
    reveal_strlit("data");
    reveal_strlit("type");
    let o = seg_json(m)->Object_0;
    lemma_data_type_apart();
    lemma_obj_get_at(o, "type"@, 1);
    lemma_obj_get_at(o, "data"@, 0);
    if m.0 is Image || m.0 is Record {
        let n = normalize_media_spec(m.1);
        assert(str_members(n) =~= seq![("file"@, Json::Str(n[0].1)), ("url"@, Json::Str(n[1].1))]);
    }
}

/// A segment object of a type the bridge does not know is kept as the text
/// of its CQ code: `[CQ:` and the type, then `,key=value` for its one data
/// member, then `]`.
pub proof fn law_unknown_type_kept_as_cq_text(t: Seq<char>, key: Seq<char>, v: Seq<char>)
    requires
        t != "text"@ && t != "image"@ && t != "record"@ && t != "at"@ && t != "reply"@ && t
            != "poke"@,
    ensures
        segment_object_spec(one_key_object(t, key, Json::Str(v))) == seq![
            text_model("[CQ:"@ + t + seq![','] + key + seq!['='] + v + "]"@),
        ],
{
    lemma_keyed_object_reads(t, key, Json::Str(v));
    let d = seq![(key, v)];
    assert(d.drop_last() =~= Seq::<(Seq<char>, Seq<char>)>::empty());
    assert(crate::bridge::message_ir::join_pairs(d) == key + seq!['='] + v);
    assert(crate::bridge::message_ir::fallback_text(t, d) =~= "[CQ:"@ + t + seq![','] + key + seq![
        '=',
    ] + v + "]"@);
}

/// Media fields: read from a segment, `file` is kept and `url` falls back
/// to the file when empty; written as a CQ code, the file is named when
/// there is one, else the url.
pub proof fn law_media_fields(f: Seq<char>, u: Seq<char>)
    ensures
        normalize_media_spec(seq![("file"@, f), ("url"@, u)]) == seq![
            ("file"@, f),
            ("url"@, if u.len() == 0 { f } else { u }),
        ],
        normalize_media_spec(seq![("url"@, u)]) == seq![("file"@, Seq::<char>::empty()), ("url"@, u)],
        pick_file_or_url_spec(seq![("file"@, f), ("url"@, u)]) == if f.len() > 0 {
            f
        } else {
            u
        },
        pick_file_or_url_spec(seq![("url"@, u)]) == u,
{
    lemma_literals();
    assert("file"@ != "url"@) by {
        assert("file"@[0] != "url"@[0]);
    }
    let two = seq![("file"@, f), ("url"@, u)];
    let one = seq![("url"@, u)];
    let e = Seq::<(Seq<char>, Seq<char>)>::empty();
    assert(two.drop_first() =~= one);
    assert(one.drop_first() =~= e);
    assert(dm_get(e, "file"@) is None);
    assert(dm_get(one, "url"@) == Some(u));
    assert(dm_get(one, "file"@) is None);
    assert(dm_get(two, "file"@) == Some(f));
    assert(dm_get(two, "url"@) == Some(u));
    if u.len() == 0 {
        assert(u =~= Seq::<char>::empty());
    }
}

} // verus!
