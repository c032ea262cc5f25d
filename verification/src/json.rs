use vstd::prelude::*;

use crate::datamap::dm_insert;
use crate::text::push_chars;

verus! {

/// A JSON value as the bridge reads and writes it: numbers are kept as
/// integers where they fit `i64` or `u64`, and by their text otherwise.
#[derive(Debug)]
pub enum JsonValue {
    Null,
    Bool(bool),
    Int(i64),
    UInt(u64),
    Float(String),
    Str(String),
    Array(Vec<JsonValue>),
    Object(Vec<(String, JsonValue)>),
}

/// The mathematical model of a JSON value.
pub enum Json {
    Null,
    Bool(bool),
    Int(i64),
    UInt(u64),
    Float(Seq<char>),
    Str(Seq<char>),
    Array(Seq<Json>),
    Object(Seq<(Seq<char>, Json)>),
}

pub open spec fn json_of(v: JsonValue) -> Json
    decreases v,
{
    match v {
        JsonValue::Null => Json::Null,
        JsonValue::Bool(b) => Json::Bool(b),
        JsonValue::Int(n) => Json::Int(n),
        JsonValue::UInt(n) => Json::UInt(n),
        JsonValue::Float(t) => Json::Float(t@),
        JsonValue::Str(s) => Json::Str(s@),
        JsonValue::Array(items) => Json::Array(json_list(items@)),
        JsonValue::Object(entries) => Json::Object(json_entries(entries@)),
    }
}

pub open spec fn json_list(s: Seq<JsonValue>) -> Seq<Json>
    decreases s,
{
    if s.len() == 0 {
        Seq::empty()
    } else {
        seq![json_of(s[0])] + json_list(s.subrange(1, s.len() as int))
    }
}

pub open spec fn json_entries(s: Seq<(String, JsonValue)>) -> Seq<(Seq<char>, Json)>
    decreases s,
{
    if s.len() == 0 {
        Seq::empty()
    } else {
        seq![(s[0].0@, json_of(s[0].1))] + json_entries(s.subrange(1, s.len() as int))
    }
}

impl View for JsonValue {
    type V = Json;

    open spec fn view(&self) -> Json {
        json_of(*self)
    }
}

} // verus!

verus! {

pub proof fn lemma_json_list_index(s: Seq<JsonValue>)
    ensures
        json_list(s).len() == s.len(),
        forall|i: int| 0 <= i < s.len() ==> #[trigger] json_list(s)[i] == json_of(s[i]),
    decreases s.len(),
{
    if s.len() > 0 {
        let t = s.subrange(1, s.len() as int);
        lemma_json_list_index(t);
        assert forall|i: int| 0 <= i < s.len() implies #[trigger] json_list(s)[i] == json_of(
            s[i],
        ) by {
            if i > 0 {
                assert(json_list(s)[i] == json_list(t)[i - 1]);
                assert(t[i - 1] == s[i]);
            }
        }
    }
}

pub proof fn lemma_json_entries_index(s: Seq<(String, JsonValue)>)
    ensures
        json_entries(s).len() == s.len(),
        forall|i: int|
            0 <= i < s.len() ==> #[trigger] json_entries(s)[i] == (s[i].0@, json_of(s[i].1)),
    decreases s.len(),
{
    if s.len() > 0 {
        let t = s.subrange(1, s.len() as int);
        lemma_json_entries_index(t);
        assert forall|i: int| 0 <= i < s.len() implies #[trigger] json_entries(s)[i] == (
            s[i].0@,
            json_of(s[i].1),
        ) by {
            if i > 0 {
                assert(json_entries(s)[i] == json_entries(t)[i - 1]);
                assert(t[i - 1] == s[i]);
            }
        }
    }
}

pub proof fn lemma_json_list_push(s: Seq<JsonValue>, x: JsonValue)
    ensures
        json_list(s.push(x)) == json_list(s).push(json_of(x)),
{
    lemma_json_list_index(s);
    lemma_json_list_index(s.push(x));
    assert(json_list(s.push(x)) =~= json_list(s).push(json_of(x)));
}

pub proof fn lemma_json_entries_push(s: Seq<(String, JsonValue)>, x: (String, JsonValue))
    ensures
        json_entries(s.push(x)) == json_entries(s).push((x.0@, json_of(x.1))),
{
    lemma_json_entries_index(s);
    lemma_json_entries_index(s.push(x));
    assert(json_entries(s.push(x)) =~= json_entries(s).push((x.0@, json_of(x.1))));
}

/// A JSON string holding the text `s`.
pub fn jstr(s: &str) -> (r: JsonValue)
    ensures
        r@ == Json::Str(s@),
{
    JsonValue::Str(s.to_owned())
}

/// Appends the member `key: v` to an object under construction.
pub fn obj_push(o: &mut Vec<(String, JsonValue)>, key: &str, v: JsonValue)
    ensures
        json_entries(final(o)@) == json_entries(old(o)@).push((key@, v@)),
{
    let k = key.to_owned();
    proof {
        lemma_json_entries_push(o@, (k, v));
    }
    o.push((k, v));
}

/// Appends `v` to an array under construction.
pub fn arr_push(a: &mut Vec<JsonValue>, v: JsonValue)
    ensures
        json_list(final(a)@) == json_list(old(a)@).push(v@),
{
    proof {
        lemma_json_list_push(a@, v);
    }
    a.push(v);
}

pub proof fn lemma_json_entries_empty()
    ensures
        json_entries(Seq::<(String, JsonValue)>::empty()) == Seq::<(Seq<char>, Json)>::empty(),
{
}

pub proof fn lemma_json_list_empty()
    ensures
        json_list(Seq::<JsonValue>::empty()) == Seq::<Json>::empty(),
{
}

/// The value of the first member named `k`.
pub open spec fn obj_get(entries: Seq<(Seq<char>, Json)>, k: Seq<char>) -> Option<Json>
    decreases entries.len(),
{
    if entries.len() == 0 {
        None
    } else if entries[0].0 == k {
        Some(entries[0].1)
    } else {
        obj_get(entries.drop_first(), k)
    }
}

/// Member `k` of `j` when `j` is an object.
pub open spec fn json_member(j: Json, k: Seq<char>) -> Option<Json> {
    match j {
        Json::Object(es) => obj_get(es, k),
        _ => None,
    }
}

/// The first member named `key` of a list of object members.
pub fn entries_get<'a>(entries: &'a Vec<(String, JsonValue)>, key: &str) -> (r: Option<
    &'a JsonValue,
>)
    ensures
        match r {
            Some(v) => obj_get(json_entries(entries@), key@) == Some(v@),
            None => obj_get(json_entries(entries@), key@) is None,
        },
{
    let ghost es = json_entries(entries@);
    proof {
        lemma_json_entries_index(entries@);
    }
    let kc = crate::text::chars_of(key);
    let mut i: usize = 0;
    assert(es.skip(0) =~= es);
    while i < entries.len()
        invariant
            i <= entries.len(),
            es == json_entries(entries@),
            es.len() == entries@.len(),
            forall|j: int| 0 <= j < entries@.len() ==> #[trigger] es[j] == (entries@[j].0@, json_of(entries@[j].1)),
            kc@ == key@,
            obj_get(es, key@) == obj_get(es.skip(i as int), key@),
        decreases entries.len() - i,
    {
        let ec = crate::text::chars_of(entries[i].0.as_str());
        assert(es.skip(i as int)[0] == es[i as int]);
        if crate::text::chars_eq(&ec, &kc) {
            return Some(&entries[i].1);
        }
        assert(es.skip(i as int).drop_first() =~= es.skip(i + 1));
        i = i + 1;
    }
    None
}

/// Inserts the member `k: v` into an object whose members are kept in key
/// order, replacing a member of the same name (`serde_json::Map::insert`
/// with its default ordered map).
pub fn obj_insert(o: &mut Vec<(String, JsonValue)>, k: String, v: JsonValue)
    ensures
        json_entries(final(o)@) == dm_insert(json_entries(old(o)@), k@, v@),
{
    let ghost m = json_entries(o@);
    let ghost vj = v@;
    proof {
        lemma_json_entries_index(o@);
    }
    let kc = crate::text::chars_of(k.as_str());
    let mut i: usize = 0;
    assert(m.skip(0) =~= m);
    assert(m.take(0) + m =~= m);
    while i < o.len()
        invariant
            i <= o.len(),
            m == json_entries(o@),
            m.len() == o@.len(),
            o@ == old(o)@,
            m == json_entries(old(o)@),
            vj == v@,
            forall|j: int| 0 <= j < o@.len() ==> #[trigger] m[j] == (o@[j].0@, json_of(o@[j].1)),
            kc@ == k@,
            dm_insert(m, k@, vj) == m.take(i as int) + dm_insert(m.skip(i as int), k@, vj),
        decreases o.len() - i,
    {
        let ec = crate::text::chars_of(o[i].0.as_str());
        assert(ec@ == m[i as int].0);
        assert(m.skip(i as int)[0] == m[i as int]);
        if crate::text::chars_eq(&ec, &kc) {
            assert(m.skip(i as int).drop_first() =~= m.skip(i + 1));
            assert(dm_insert(m.skip(i as int), k@, vj) == seq![(k@, vj)] + m.skip(i + 1));
            o.set(i, (k, v));
            proof {
                lemma_json_entries_index(o@);
                assert(json_entries(o@) =~= m.take(i as int) + (seq![(k@, vj)] + m.skip(i + 1)));
            }
            return;
        }
        if crate::text::chars_lt(&kc, &ec) {
            assert(dm_insert(m.skip(i as int), k@, vj) == seq![(k@, vj)] + m.skip(i as int));
            o.insert(i, (k, v));
            proof {
                lemma_json_entries_index(o@);
                assert(json_entries(o@) =~= m.take(i as int) + (seq![(k@, vj)] + m.skip(i as int)));
            }
            return;
        }
        proof {
            crate::datamap::lemma_dm_insert_skip(m, k@, vj, i as int);
            assert(m.take(i as int) + (seq![m[i as int]] + dm_insert(m.skip(i + 1), k@, vj))
                =~= m.take(i + 1) + dm_insert(m.skip(i + 1), k@, vj));
        }
        i = i + 1;
    }
    assert(m.skip(i as int) =~= Seq::<(Seq<char>, Json)>::empty());
    o.push((k, v));
    proof {
        lemma_json_entries_index(o@);
        assert(json_entries(o@) =~= m.take(i as int) + seq![(k@, vj)]);
    }
}

impl JsonValue {
    /// Member `key` of an object (`None` for other values).
    pub fn get(&self, key: &str) -> (r: Option<&JsonValue>)
        ensures
            match r {
                Some(v) => json_member(self@, key@) == Some(v@),
                None => json_member(self@, key@) is None,
            },
    {
        match self {
            JsonValue::Object(entries) => entries_get(entries, key),
            _ => None,
        }
    }

    /// The text of a JSON string.
    pub fn as_str(&self) -> (r: Option<&str>)
        ensures
            match r {
                Some(s) => self@ == Json::Str(s@),
                None => !(self@ is Str),
            },
    {
        match self {
            JsonValue::Str(s) => Some(s.as_str()),
            _ => None,
        }
    }

    /// The value of an integer that fits `i64`.
    pub fn as_i64(&self) -> (r: Option<i64>)
        ensures
            r == (match self@ {
                Json::Int(n) => Some(n),
                _ => None::<i64>,
            }),
    {
        match self {
            JsonValue::Int(n) => Some(*n),
            _ => None,
        }
    }
}

} // verus!

verus! {

/// A lower-case hexadecimal digit.
pub open spec fn hex_digit(d: int) -> char {
    if d < 10 {
        (48 + d) as char
    } else {
        (87 + d) as char
    }
}

/// How a character is written inside a JSON string literal.
pub open spec fn json_escape_char(c: char) -> Seq<char> {
    if c == '"' {
        seq!['\\', '"']
    } else if c == '\\' {
        seq!['\\', '\\']
    } else if c == '\x08' {
        seq!['\\', 'b']
    } else if c == '\t' {
        seq!['\\', 't']
    } else if c == '\n' {
        seq!['\\', 'n']
    } else if c == '\x0c' {
        seq!['\\', 'f']
    } else if c == '\r' {
        seq!['\\', 'r']
    } else if (c as u32) < 0x20 {
        seq!['\\', 'u', '0', '0', hex_digit(((c as u32) / 16) as int), hex_digit(((c as u32) % 16) as int)]
    } else {
        seq![c]
    }
}

pub open spec fn json_escape(s: Seq<char>) -> Seq<char>
    decreases s.len(),
{
    if s.len() == 0 {
        Seq::empty()
    } else {
        json_escape(s.drop_last()) + json_escape_char(s.last())
    }
}

/// Compact JSON text of a value, members in their order, no whitespace.
pub open spec fn json_text(j: Json) -> Seq<char>
    decreases j,
{
    match j {
        Json::Null => seq!['n', 'u', 'l', 'l'],
        Json::Bool(b) => if b {
            seq!['t', 'r', 'u', 'e']
        } else {
            seq!['f', 'a', 'l', 's', 'e']
        },
        Json::Int(n) => crate::text::int_text(n as int),
        Json::UInt(n) => crate::text::nat_text(n as nat),
        Json::Float(t) => t,
        Json::Str(s) => seq!['"'] + json_escape(s) + seq!['"'],
        Json::Array(items) => seq!['['] + json_items_text(items) + seq![']'],
        Json::Object(es) => seq!['{'] + json_members_text(es) + seq!['}'],
    }
}

pub open spec fn json_items_text(s: Seq<Json>) -> Seq<char>
    decreases s,
{
    if s.len() == 0 {
        Seq::empty()
    } else if s.len() == 1 {
        json_text(s[0])
    } else {
        json_items_text(s.subrange(0, s.len() - 1)) + seq![','] + json_text(s[s.len() - 1])
    }
}

pub open spec fn json_members_text(s: Seq<(Seq<char>, Json)>) -> Seq<char>
    decreases s,
{
    if s.len() == 0 {
        Seq::empty()
    } else if s.len() == 1 {
        seq!['"'] + json_escape(s[0].0) + seq!['"', ':'] + json_text(s[0].1)
    } else {
        json_members_text(s.subrange(0, s.len() - 1)) + seq![','] + seq!['"'] + json_escape(
            s[s.len() - 1].0,
        ) + seq!['"', ':'] + json_text(s[s.len() - 1].1)
    }
}

fn hex_char(d: u32) -> (c: char)
    requires
        d < 16,
    ensures
        c == hex_digit(d as int),
{
    if d < 10 {
        ((48 + d) as u8) as char
    } else {
        ((87 + d) as u8) as char
    }
}

fn write_escaped(out: &mut Vec<char>, s: &str)
    ensures
        final(out)@ == old(out)@ + json_escape(s@),
{
    let cs = crate::text::chars_of(s);
    let ghost before = out@;
    let mut i: usize = 0;
    assert(cs@.take(0) =~= Seq::<char>::empty());
    while i < cs.len()
        invariant
            i <= cs.len(),
            out@ == before + json_escape(cs@.take(i as int)),
        decreases cs.len() - i,
    {
        let c = cs[i];
        let ghost mid = out@;
        if c == '"' {
            out.push('\\');
            out.push('"');
        } else if c == '\\' {
            out.push('\\');
            out.push('\\');
        } else if c == '\x08' {
            out.push('\\');
            out.push('b');
        } else if c == '\t' {
            out.push('\\');
            out.push('t');
        } else if c == '\n' {
            out.push('\\');
            out.push('n');
        } else if c == '\x0c' {
            out.push('\\');
            out.push('f');
        } else if c == '\r' {
            out.push('\\');
            out.push('r');
        } else if (c as u32) < 0x20 {
            out.push('\\');
            out.push('u');
            out.push('0');
            out.push('0');
            out.push(hex_char((c as u32) / 16));
            out.push(hex_char((c as u32) % 16));
        } else {
            out.push(c);
        }
        assert(out@ =~= mid + json_escape_char(c));
        assert(cs@.take(i + 1).drop_last() =~= cs@.take(i as int));
        i = i + 1;
    }
    assert(cs@.take(cs.len() as int) =~= cs@);
}

/// Appends the compact JSON text of `v` (what serde_json's `to_string`
/// writes for a value).
pub fn write_json(v: &JsonValue, out: &mut Vec<char>)
    ensures
        final(out)@ == old(out)@ + json_text(v@),
    decreases *v,
{
    match v {
        JsonValue::Null => {
            let t = crate::text::chars_of("null");
            proof { reveal_strlit("null"); }
            assert(t@ =~= seq!['n', 'u', 'l', 'l']);
            push_chars(out, &t);
        },
        JsonValue::Bool(b) => {
            if *b {
                let t = crate::text::chars_of("true");
                proof { reveal_strlit("true"); }
                assert(t@ =~= seq!['t', 'r', 'u', 'e']);
                push_chars(out, &t);
            } else {
                let t = crate::text::chars_of("false");
                proof { reveal_strlit("false"); }
                assert(t@ =~= seq!['f', 'a', 'l', 's', 'e']);
                push_chars(out, &t);
            }
        },
        JsonValue::Int(n) => {
            let t = crate::text::i64_chars(*n);
            push_chars(out, &t);
        },
        JsonValue::UInt(n) => {
            let t = crate::text::u64_chars(*n);
            push_chars(out, &t);
        },
        JsonValue::Float(t) => {
            let t = crate::text::chars_of(t.as_str());
            push_chars(out, &t);
        },
        JsonValue::Str(s) => {
            let ghost before = out@;
            out.push('"');
            write_escaped(out, s.as_str());
            out.push('"');
            assert(out@ =~= before + (seq!['"'] + json_escape(s@) + seq!['"']));
        },
        JsonValue::Array(items) => {
            let ghost before = out@;
            let ghost js = json_list(items@);
            proof {
                lemma_json_list_index(items@);
            }
            out.push('[');
            let mut i: usize = 0;
            assert(js.take(0) =~= Seq::<Json>::empty());
            while i < items.len()
                invariant
                    i <= items.len(),
                    js == json_list(items@),
                    *v == JsonValue::Array(*items),
                    js.len() == items@.len(),
                    forall|j: int| 0 <= j < items@.len() ==> #[trigger] js[j] == json_of(items@[j]),
                    out@ == before + seq!['['] + json_items_text(js.take(i as int)),
                decreases items.len() - i,
            {
                if i > 0 {
                    out.push(',');
                }
                assert(decreases_to!(*v => (*v)->Array_0));
                assert(decreases_to!(*items => items@));
                assert(decreases_to!(items@ => items@[i as int]));
                assert(decreases_to!(*v => items@[i as int]));
                write_json(&items[i], out);
                assert(js.take(i + 1).subrange(0, i as int) =~= js.take(i as int));
                assert(js.take(i + 1)[i as int] == json_of(items@[i as int]));
                i = i + 1;
            }
            out.push(']');
            assert(js.take(items.len() as int) =~= js);
            assert(out@ =~= before + (seq!['['] + json_items_text(js) + seq![']']));
        },
        JsonValue::Object(entries) => {
            let ghost before = out@;
            let ghost js = json_entries(entries@);
            proof {
                lemma_json_entries_index(entries@);
            }
            out.push('{');
            let mut i: usize = 0;
            assert(js.take(0) =~= Seq::<(Seq<char>, Json)>::empty());
            while i < entries.len()
                invariant
                    i <= entries.len(),
                    js == json_entries(entries@),
                    *v == JsonValue::Object(*entries),
                    js.len() == entries@.len(),
                    forall|j: int|
                        0 <= j < entries@.len() ==> #[trigger] js[j] == (
                            entries@[j].0@,
                            json_of(entries@[j].1),
                        ),
                    out@ == before + seq!['{'] + json_members_text(js.take(i as int)),
                decreases entries.len() - i,
            {
                if i > 0 {
                    out.push(',');
                }
                out.push('"');
                write_escaped(out, entries[i].0.as_str());
                out.push('"');
                out.push(':');
                assert(decreases_to!(*v => (*v)->Object_0));
                assert(decreases_to!(*entries => entries@));
                assert(decreases_to!(entries@ => entries@[i as int]));
                assert(decreases_to!(entries@[i as int] => entries@[i as int].1));
                assert(decreases_to!(*v => entries@[i as int].1));
                write_json(&entries[i].1, out);
                assert(js.take(i + 1).subrange(0, i as int) =~= js.take(i as int));
                assert(js.take(i + 1)[i as int] == (entries@[i as int].0@, json_of(entries@[i as int].1)));
                i = i + 1;
            }
            out.push('}');
            assert(js.take(entries.len() as int) =~= js);
            assert(out@ =~= before + (seq!['{'] + json_members_text(js) + seq!['}']));
        },
    }
}

} // verus!

verus! {

/// The compact JSON text of `v`.
pub fn json_to_string(v: &JsonValue) -> (s: String)
    ensures
        s@ == json_text(v@),
{
    let mut out: Vec<char> = Vec::new();
    write_json(v, &mut out);
    assert(out@ =~= Seq::<char>::empty() + json_text(v@));
    crate::text::string_from_chars(out.as_slice())
}

} // verus!

verus! {

/// A member found at `i`, with no earlier member of that name, is what
/// `obj_get` gives for the name.
pub proof fn lemma_obj_get_found(o: Seq<(Seq<char>, Json)>, k: Seq<char>, i: int)
    requires
        0 <= i < o.len(),
        o[i].0 == k,
        forall|j: int| 0 <= j < i ==> o[j].0 != k,
    ensures
        obj_get(o, k) == Some(o[i].1),
    decreases i,
{
    if i > 0 {
        let rest = o.drop_first();
        assert forall|j: int| 0 <= j < i - 1 implies rest[j].0 != k by {
            assert(rest[j] == o[j + 1]);
        }
        lemma_obj_get_found(rest, k, i - 1);
    }
}

/// No member of the name: `obj_get` gives nothing.
pub proof fn lemma_obj_get_absent(o: Seq<(Seq<char>, Json)>, k: Seq<char>)
    requires
        forall|j: int| 0 <= j < o.len() ==> o[j].0 != k,
    ensures
        obj_get(o, k) is None,
    decreases o.len(),
{
    if o.len() > 0 {
        let rest = o.drop_first();
        assert forall|j: int| 0 <= j < rest.len() implies rest[j].0 != k by {
            assert(rest[j] == o[j + 1]);
        }
        lemma_obj_get_absent(rest, k);
    }
}

/// Looking up a name in two member lists joined: the first list's member
/// when it has one, else the second's.
pub proof fn lemma_obj_get_concat(a: Seq<(Seq<char>, Json)>, b: Seq<(Seq<char>, Json)>, k: Seq<char>)
    ensures
        obj_get(a + b, k) == match obj_get(a, k) {
            Some(v) => Some(v),
            None => obj_get(b, k),
        },
    decreases a.len(),
{
    if a.len() > 0 {
        assert((a + b).drop_first() =~= a.drop_first() + b);
        assert((a + b)[0] == a[0]);
        lemma_obj_get_concat(a.drop_first(), b, k);
    } else {
        assert(a + b =~= b);
    }
}

/// Looking up a name in a one-member list.
pub proof fn lemma_obj_get_single(k: Seq<char>, v: Json, k2: Seq<char>)
    ensures
        obj_get(seq![(k, v)], k2) == if k == k2 {
            Some(v)
        } else {
            None::<Json>
        },
{
    assert(seq![(k, v)].drop_first() =~= Seq::<(Seq<char>, Json)>::empty());
    assert(obj_get(Seq::<(Seq<char>, Json)>::empty(), k2) is None);
}

/// Two names that differ in length or in one place are different names.
pub open spec fn names_apart(a: Seq<char>, b: Seq<char>) -> bool {
    a.len() != b.len() || exists|d: int| 0 <= d < a.len() && a[d] != b[d]
}

/// A member found at `i`, with every earlier name apart from it, is what
/// `obj_get` gives for the name.
pub proof fn lemma_obj_get_at(o: Seq<(Seq<char>, Json)>, k: Seq<char>, i: int)
    requires
        0 <= i < o.len(),
        o[i].0 == k,
        forall|j: int| 0 <= j < i ==> names_apart(#[trigger] o[j].0, k),
    ensures
        obj_get(o, k) == Some(o[i].1),
{
    assert forall|j: int| 0 <= j < i implies o[j].0 != k by {
        assert(names_apart(o[j].0, k));
    }
    lemma_obj_get_found(o, k, i);
}

/// No name apart from every member's: `obj_get` gives nothing.
pub proof fn lemma_obj_get_none(o: Seq<(Seq<char>, Json)>, k: Seq<char>)
    requires
        forall|j: int| 0 <= j < o.len() ==> names_apart(#[trigger] o[j].0, k),
    ensures
        obj_get(o, k) is None,
{
    assert forall|j: int| 0 <= j < o.len() implies o[j].0 != k by {
        assert(names_apart(o[j].0, k));
    }
    lemma_obj_get_absent(o, k);
}

} // verus!
