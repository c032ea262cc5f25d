use vstd::prelude::*;

use crate::bridge::message_ir::{escape_text_spec, escape_value_spec, unescape_spec};
use crate::text::{occurs_at, replace_all};

verus! {

/// `s` with each character replaced by its image under `f`, concatenated.
pub open spec fn cmap(s: Seq<char>, f: spec_fn(char) -> Seq<char>) -> Seq<char>
    decreases s.len(),
{
    if s.len() == 0 {
        Seq::empty()
    } else {
        f(s[0]) + cmap(s.drop_first(), f)
    }
}

/// Replacing a one-character pattern works character by character.
proof fn lemma_replace_char(s: Seq<char>, p: char, rep: Seq<char>)
    ensures
        replace_all(s, seq![p], rep) == cmap(
            s,
            |c: char|
                if c == p {
                    rep
                } else {
                    seq![c]
                },
        ),
    decreases s.len(),
{
    if s.len() > 0 {
        lemma_replace_char(s.drop_first(), p, rep);
        if s[0] == p {
            assert(s.subrange(0, 1) =~= seq![p]);
            assert(s.subrange(1, s.len() as int) =~= s.drop_first());
        } else {
            assert(s.subrange(0, 1) != seq![p]) by {
                assert(s.subrange(0, 1)[0] == s[0]);
            }
        }
    }
}

/// Replacing a one-character pattern in a one-character sequence.
proof fn lemma_replace_single(c: char, p: char, rep: Seq<char>)
    ensures
        replace_all(seq![c], seq![p], rep) == (if c == p {
            rep
        } else {
            seq![c]
        }),
{
    let s = seq![c];
    assert(replace_all(Seq::<char>::empty(), seq![p], rep) == Seq::<char>::empty());
    assert(s.subrange(1, 1) =~= Seq::<char>::empty());
    assert(s.drop_first() =~= Seq::<char>::empty());
    if c == p {
        assert(s.subrange(0, 1) =~= seq![p]);
        assert(rep + Seq::<char>::empty() =~= rep);
    } else {
        assert(s.subrange(0, 1) != seq![p]) by {
            assert(s.subrange(0, 1)[0] == c);
        }
        assert(seq![c] + Seq::<char>::empty() =~= seq![c]);
    }
}

/// A one-character replacement distributes over concatenation.
proof fn lemma_replace_char_concat(a: Seq<char>, b: Seq<char>, p: char, rep: Seq<char>)
    ensures
        replace_all(a + b, seq![p], rep) == replace_all(a, seq![p], rep) + replace_all(b, seq![p], rep),
    decreases a.len(),
{
    lemma_replace_char(a + b, p, rep);
    lemma_replace_char(a, p, rep);
    lemma_replace_char(b, p, rep);
    lemma_cmap_concat(
        a,
        b,
        |c: char|
            if c == p {
                rep
            } else {
                seq![c]
            },
    );
}

/// `cmap` distributes over concatenation.
proof fn lemma_cmap_concat(a: Seq<char>, b: Seq<char>, f: spec_fn(char) -> Seq<char>)
    ensures
        cmap(a + b, f) == cmap(a, f) + cmap(b, f),
    decreases a.len(),
{
    if a.len() == 0 {
        assert(a + b =~= b);
    } else {
        assert((a + b).drop_first() =~= a.drop_first() + b);
        assert((a + b)[0] == a[0]);
        lemma_cmap_concat(a.drop_first(), b, f);
    }
}

/// A one-character replacement applied after `cmap(_, f)` is `cmap` of the
/// composed images.
proof fn lemma_replace_char_after_cmap(s: Seq<char>, f: spec_fn(char) -> Seq<char>, p: char, rep: Seq<char>)
    ensures
        replace_all(cmap(s, f), seq![p], rep) == cmap(s, |c: char| replace_all(f(c), seq![p], rep)),
    decreases s.len(),
{
    if s.len() > 0 {
        lemma_replace_char_concat(f(s[0]), cmap(s.drop_first(), f), p, rep);
        lemma_replace_char_after_cmap(s.drop_first(), f, p, rep);
    } else {
        assert(replace_all(Seq::<char>::empty(), seq![p], rep) == Seq::<char>::empty());
    }
}

/// `cmap` with the same images gives the same result.
proof fn lemma_cmap_ext(s: Seq<char>, f: spec_fn(char) -> Seq<char>, g: spec_fn(char) -> Seq<char>)
    requires
        forall|c: char| #[trigger] f(c) == g(c),
    ensures
        cmap(s, f) == cmap(s, g),
    decreases s.len(),
{
    if s.len() > 0 {
        lemma_cmap_ext(s.drop_first(), f, g);
    }
}

/// `cmap` of one-character images is the identity.
proof fn lemma_cmap_id(s: Seq<char>)
    ensures
        cmap(s, |c: char| seq![c]) == s,
    decreases s.len(),
{
    if s.len() > 0 {
        lemma_cmap_id(s.drop_first());
        assert(seq![s[0]] + s.drop_first() =~= s);
    }
}

/// A sequence without `p` is left alone by replacing `p`.
proof fn lemma_replace_char_absent(x: Seq<char>, p: char, rep: Seq<char>)
    requires
        !x.contains(p),
    ensures
        replace_all(x, seq![p], rep) == x,
{
    lemma_replace_char(x, p, rep);
    lemma_cmap_id(x);
    assert forall|i: int| 0 <= i < x.len() implies x[i] != p by {
        if x[i] == p {
            assert(x.contains(p));
        }
    }
    lemma_cmap_agree(
        x,
        |c: char|
            if c == p {
                rep
            } else {
                seq![c]
            },
        |c: char| seq![c],
    );
}

/// `cmap` over `s` depends only on the images of the characters of `s`.
proof fn lemma_cmap_agree(s: Seq<char>, f: spec_fn(char) -> Seq<char>, g: spec_fn(char) -> Seq<char>)
    requires
        forall|i: int| 0 <= i < s.len() ==> f(#[trigger] s[i]) == g(s[i]),
    ensures
        cmap(s, f) == cmap(s, g),
    decreases s.len(),
{
    if s.len() > 0 {
        assert(f(s[0]) == g(s[0]));
        assert forall|i: int| 0 <= i < s.drop_first().len() implies f(#[trigger] s.drop_first()[i])
            == g(s.drop_first()[i]) by {
            assert(s.drop_first()[i] == s[i + 1]);
        }
        lemma_cmap_agree(s.drop_first(), f, g);
    }
}

/// A CQ entity: `&`, then four characters none of which is `&`.
pub open spec fn entity(e: Seq<char>) -> bool {
    e.len() == 5 && e[0] == '&' && forall|i: int| 1 <= i < 5 ==> #[trigger] e[i] != '&'
}

/// An image is an entity or a single character other than `&`.
pub open spec fn sound_image(e: Seq<char>) -> bool {
    entity(e) || (e.len() == 1 && e[0] != '&')
}

/// A sequence whose only `&` is at its start leaves a pattern starting
/// with `&` to be found after it: replacing inside `x + y` with `x` not
/// holding the pattern at 0 keeps `x` and replaces in `y`.
proof fn lemma_replace_after_image(x: Seq<char>, y: Seq<char>, pat: Seq<char>, rep: Seq<char>)
    requires
        sound_image(x),
        entity(pat),
        x != pat,
    ensures
        replace_all(x + y, pat, rep) == x + replace_all(y, pat, rep),
{
    let s = x + y;
    assert(s[0] == x[0]);
    assert(!occurs_at(s, pat, 0)) by {
        if occurs_at(s, pat, 0) {
            if x.len() == 5 {
                assert(s.subrange(0, 5) =~= x);
            } else {
                assert(s.subrange(0, 5)[0] == s[0]);
            }
        }
    }
    assert(s.drop_first() =~= x.drop_first() + y);
    lemma_replace_no_amp_prefix(x.drop_first(), y, pat, rep);
    assert(seq![x[0]] + x.drop_first() =~= x);
}

/// A prefix without `&` passes unchanged through a replacement whose
/// pattern starts with `&`.
proof fn lemma_replace_no_amp_prefix(x: Seq<char>, y: Seq<char>, pat: Seq<char>, rep: Seq<char>)
    requires
        forall|i: int| 0 <= i < x.len() ==> #[trigger] x[i] != '&',
        pat.len() > 0,
        pat[0] == '&',
    ensures
        replace_all(x + y, pat, rep) == x + replace_all(y, pat, rep),
    decreases x.len(),
{
    if x.len() == 0 {
        assert(x + y =~= y);
    } else {
        let s = x + y;
        assert(s[0] == x[0]);
        assert(!occurs_at(s, pat, 0)) by {
            if occurs_at(s, pat, 0) {
                assert(s.subrange(0, pat.len() as int)[0] == s[0]);
            }
        }
        assert(s.drop_first() =~= x.drop_first() + y);
        assert forall|i: int| 0 <= i < x.drop_first().len() implies #[trigger] x.drop_first()[i]
            != '&' by {
            assert(x.drop_first()[i] == x[i + 1]);
        }
        lemma_replace_no_amp_prefix(x.drop_first(), y, pat, rep);
        assert(seq![x[0]] + x.drop_first() =~= x);
    }
}

/// Decoding one entity of an encoding whose images are all sound: the
/// images equal to the entity become `rep` (as `g` says), the others stay.
proof fn lemma_decode_step(
    s: Seq<char>,
    f: spec_fn(char) -> Seq<char>,
    g: spec_fn(char) -> Seq<char>,
    pat: Seq<char>,
    rep: Seq<char>,
)
    requires
        entity(pat),
        forall|i: int| 0 <= i < s.len() ==> sound_image(f(#[trigger] s[i])),
        forall|c: char|
            #[trigger] g(c) == (if f(c) == pat {
                rep
            } else {
                f(c)
            }),
    ensures
        replace_all(cmap(s, f), pat, rep) == cmap(s, g),
    decreases s.len(),
{
    if s.len() > 0 {
        assert(sound_image(f(s[0])));
        assert forall|i: int| 0 <= i < s.drop_first().len() implies sound_image(
            f(#[trigger] s.drop_first()[i]),
        ) by {
            assert(s.drop_first()[i] == s[i + 1]);
        }
        lemma_decode_step(s.drop_first(), f, g, pat, rep);
        let x = f(s[0]);
        let y = cmap(s.drop_first(), f);
        assert(g(s[0]) == (if x == pat {
            rep
        } else {
            x
        }));
        if x == pat {
            let t = x + y;
            assert(occurs_at(t, pat, 0)) by {
                assert(t.subrange(0, 5) =~= x);
            }
            assert(t.subrange(5, t.len() as int) =~= y);
        } else {
            lemma_replace_after_image(x, y, pat, rep);
        }
    } else {
        assert(replace_all(Seq::<char>::empty(), pat, rep) == Seq::<char>::empty());
    }
}

/// The image of a character under CQ value escaping.
pub open spec fn value_image(c: char) -> Seq<char> {
    if c == '&' {
        "&amp;"@
    } else if c == '[' {
        "&#91;"@
    } else if c == ']' {
        "&#93;"@
    } else if c == ',' {
        "&#44;"@
    } else {
        seq![c]
    }
}

/// The image of a character under CQ text escaping (commas stay).
pub open spec fn text_image(c: char) -> Seq<char> {
    if c == ',' {
        seq![c]
    } else {
        value_image(c)
    }
}

proof fn lemma_literals()
    ensures
        "&amp;"@ =~= seq!['&', 'a', 'm', 'p', ';'],
        "&#91;"@ =~= seq!['&', '#', '9', '1', ';'],
        "&#93;"@ =~= seq!['&', '#', '9', '3', ';'],
        "&#44;"@ =~= seq!['&', '#', '4', '4', ';'],
        "&"@ =~= seq!['&'],
        "["@ =~= seq!['['],
        "]"@ =~= seq![']'],
        ","@ =~= seq![','],
{
    reveal_strlit("&amp;");
    reveal_strlit("&#91;");
    reveal_strlit("&#93;");
    reveal_strlit("&#44;");
    reveal_strlit("&");
    reveal_strlit("[");
    reveal_strlit("]");
    reveal_strlit(",");
}

/// Text escaping is `cmap` with `text_image`.
proof fn lemma_escape_text_cmap(s: Seq<char>)
    ensures
        escape_text_spec(s) == cmap(s, |c: char| text_image(c)),
{
    lemma_literals();
    let amp = "&amp;"@;
    let lb = "&#91;"@;
    let rb = "&#93;"@;
    let f1 = |c: char|
        if c == '&' {
            amp
        } else {
            seq![c]
        };
    lemma_replace_char(s, '&', amp);
    let f2 = |c: char| replace_all(f1(c), seq!['['], lb);
    lemma_replace_char_after_cmap(s, f1, '[', lb);
    let f3 = |c: char| replace_all(f2(c), seq![']'], rb);
    lemma_replace_char_after_cmap(s, f2, ']', rb);
    assert forall|c: char| #[trigger] f3(c) == text_image(c) by {
        if c == '&' {
            assert(!amp.contains('[')) by {
                assert(lacks(amp, '['));
            }
            lemma_replace_char_absent(amp, '[', lb);
            assert(!amp.contains(']')) by {
                assert(lacks(amp, ']'));
            }
            lemma_replace_char_absent(amp, ']', rb);
            assert(f1(c) == amp);
            assert(f2(c) == amp);
            assert(f3(c) == amp);
            assert(text_image(c) == amp);
        } else if c == '[' {
            lemma_replace_single(c, '[', lb);
            assert(!lb.contains(']')) by {
                assert(lacks(lb, ']'));
            }
            lemma_replace_char_absent(lb, ']', rb);
            assert(f1(c) == seq![c]);
            assert(f2(c) == lb);
            assert(f3(c) == lb);
            assert(text_image(c) == lb);
        } else if c == ']' {
            assert(!seq![c].contains('[')) by {
                assert(lacks(seq![c], '['));
            }
            lemma_replace_char_absent(seq![c], '[', lb);
            lemma_replace_single(c, ']', rb);
            assert(f2(c) == seq![c]);
            assert(f3(c) == rb);
            assert(text_image(c) == rb);
        } else {
            assert(!seq![c].contains('[')) by {
                assert(lacks(seq![c], '['));
            }
            lemma_replace_char_absent(seq![c], '[', lb);
            assert(!seq![c].contains(']')) by {
                assert(lacks(seq![c], ']'));
            }
            lemma_replace_char_absent(seq![c], ']', rb);
            assert(f3(c) == seq![c]);
            assert(text_image(c) == seq![c]);
        }
    }
    lemma_cmap_ext(s, f3, |c: char| text_image(c));
}

/// Value escaping is `cmap` with `value_image`.
proof fn lemma_escape_value_cmap(s: Seq<char>)
    ensures
        escape_value_spec(s) == cmap(s, |c: char| value_image(c)),
{
    lemma_literals();
    lemma_escape_text_cmap(s);
    let cm = "&#44;"@;
    let ft = |c: char| text_image(c);
    lemma_replace_char_after_cmap(s, ft, ',', cm);
    let f4 = |c: char| replace_all(ft(c), seq![','], cm);
    assert forall|c: char| #[trigger] f4(c) == value_image(c) by {
        if c == ',' {
            lemma_replace_single(c, ',', cm);
        } else {
            let t = text_image(c);
            assert(!t.contains(',')) by {
                assert(lacks(t, ','));
            }
            lemma_replace_char_absent(t, ',', cm);
        }
    }
    lemma_cmap_ext(s, f4, |c: char| value_image(c));
}

/// Decoding a sequence encoded with images `f` (one of the value or text
/// images, possibly with some entities already decoded) by the four
/// decoding steps gives back the original.
proof fn lemma_unescape_cmap(s: Seq<char>, f: spec_fn(char) -> Seq<char>)
    requires
        forall|c: char| #[trigger] f(c) == value_image(c) || (c == ',' && f(c) == seq![c]),
    ensures
        unescape_spec(cmap(s, f)) == s,
{
    lemma_literals();
    let e44 = "&#44;"@;
    let e91 = "&#91;"@;
    let e93 = "&#93;"@;
    let eamp = "&amp;"@;
    assert(entity(e44));
    assert(entity(e91));
    assert(entity(e93));
    assert(entity(eamp));
    let f1 = |c: char|
        if f(c) == e44 {
            ","@
        } else {
            f(c)
        };
    let f2 = |c: char|
        if f1(c) == e91 {
            "["@
        } else {
            f1(c)
        };
    let f3 = |c: char|
        if f2(c) == e93 {
            "]"@
        } else {
            f2(c)
        };
    let f4 = |c: char|
        if f3(c) == eamp {
            "&"@
        } else {
            f3(c)
        };
    assert forall|i: int| 0 <= i < s.len() implies sound_image(f(#[trigger] s[i])) by {
        let c = s[i];
        if c == '&' || c == '[' || c == ']' || c == ',' {
        } else {
            assert(f(c) == seq![c]);
        }
    }
    lemma_decode_step(s, f, f1, e44, ","@);
    assert forall|c: char| #[trigger] f1(c) == (if c == '&' {
        eamp
    } else if c == '[' {
        e91
    } else if c == ']' {
        e93
    } else {
        seq![c]
    }) by {
        if c == ',' {
        } else if c == '&' || c == '[' || c == ']' {
            assert(f(c) != e44) by {
                assert(f(c)[2] != e44[2] || f(c)[1] != e44[1]);
            }
        } else {
            assert(f(c) =~= seq![c]);
            assert(f(c) != e44) by {
                assert(f(c).len() != e44.len());
            }
        }
    }
    assert forall|i: int| 0 <= i < s.len() implies sound_image(f1(#[trigger] s[i])) by {
        let c = s[i];
        if c == '&' || c == '[' || c == ']' {
        } else {
            assert(f1(c) == seq![c]);
        }
    }
    lemma_decode_step(s, f1, f2, e91, "["@);
    assert forall|c: char| #[trigger] f2(c) == (if c == '&' {
        eamp
    } else if c == ']' {
        e93
    } else {
        seq![c]
    }) by {
        if c == '[' {
        } else if c == '&' {
            assert(eamp != e91) by {
                assert(eamp[1] != e91[1]);
            }
        } else if c == ']' {
            assert(e93 != e91) by {
                assert(e93[3] != e91[3]);
            }
        } else {
            assert(seq![c] != e91) by {
                assert(seq![c].len() != e91.len());
            }
        }
    }
    assert forall|i: int| 0 <= i < s.len() implies sound_image(f2(#[trigger] s[i])) by {
        let c = s[i];
        if c == '&' || c == ']' {
        } else {
            assert(f2(c) == seq![c]);
        }
    }
    lemma_decode_step(s, f2, f3, e93, "]"@);
    assert forall|c: char| #[trigger] f3(c) == (if c == '&' {
        eamp
    } else {
        seq![c]
    }) by {
        if c == ']' {
        } else if c == '&' {
            assert(eamp != e93) by {
                assert(eamp[1] != e93[1]);
            }
        } else {
            assert(seq![c] != e93) by {
                assert(seq![c].len() != e93.len());
            }
        }
    }
    assert forall|i: int| 0 <= i < s.len() implies sound_image(f3(#[trigger] s[i])) by {
        let c = s[i];
        if c == '&' {
        } else {
            assert(f3(c) == seq![c]);
        }
    }
    lemma_decode_step(s, f3, f4, eamp, "&"@);
    assert forall|c: char| #[trigger] f4(c) == seq![c] by {
        if c == '&' {
        } else {
            assert(seq![c] != eamp) by {
                assert(seq![c].len() != eamp.len());
            }
        }
    }
    lemma_cmap_ext(s, f4, |c: char| seq![c]);
    lemma_cmap_id(s);
}

/// Unescaping undoes the escaping of a CQ code parameter: every value
/// written into a CQ code reads back as it was.
pub proof fn law_unescape_undoes_value_escape(s: Seq<char>)
    ensures
        unescape_spec(escape_value_spec(s)) == s,
{
    lemma_escape_value_cmap(s);
    lemma_unescape_cmap(s, |c: char| value_image(c));
}

/// Unescaping undoes the escaping of text outside CQ codes.
pub proof fn law_unescape_undoes_text_escape(s: Seq<char>)
    ensures
        unescape_spec(escape_text_spec(s)) == s,
{
    lemma_escape_text_cmap(s);
    lemma_unescape_cmap(s, |c: char| text_image(c));
}

} // verus!

verus! {

/// `x` does not occur in `s`.
pub open spec fn lacks(s: Seq<char>, x: char) -> bool {
    forall|j: int| 0 <= j < s.len() ==> s[j] != x
}

proof fn lemma_cmap_lacks(s: Seq<char>, f: spec_fn(char) -> Seq<char>, x: char)
    requires
        forall|c: char| lacks(#[trigger] f(c), x),
    ensures
        lacks(cmap(s, f), x),
        s.len() > 0 && (forall|c: char| (#[trigger] f(c)).len() > 0) ==> cmap(s, f).len() > 0,
    decreases s.len(),
{
    if s.len() > 0 {
        lemma_cmap_lacks(s.drop_first(), f, x);
        let head = f(s[0]);
        let tail = cmap(s.drop_first(), f);
        assert(lacks(head, x));
        assert forall|j: int| 0 <= j < cmap(s, f).len() implies cmap(s, f)[j] != x by {
            if j < head.len() {
                assert(cmap(s, f)[j] == head[j]);
            } else {
                assert(cmap(s, f)[j] == tail[j - head.len()]);
            }
        }
    }
}

/// Escaped text holds no bracket, and is empty only when the text is.
pub proof fn lemma_escaped_text_plain(s: Seq<char>)
    ensures
        lacks(escape_text_spec(s), '['),
        lacks(escape_text_spec(s), ']'),
        s.len() > 0 ==> escape_text_spec(s).len() > 0,
{
    lemma_literals();
    lemma_escape_text_cmap(s);
    let f = |c: char| text_image(c);
    assert forall|c: char| lacks(#[trigger] f(c), '[') && lacks(f(c), ']') && f(c).len() > 0 by {
        if c == '&' || c == '[' || c == ']' {
        } else {
            assert(f(c) == seq![c]);
        }
    }
    lemma_cmap_lacks(s, f, '[');
    lemma_cmap_lacks(s, f, ']');
}

/// An escaped CQ parameter holds no bracket and no comma.
pub proof fn lemma_escaped_value_plain(s: Seq<char>)
    ensures
        lacks(escape_value_spec(s), '['),
        lacks(escape_value_spec(s), ']'),
        lacks(escape_value_spec(s), ','),
{
    lemma_literals();
    lemma_escape_value_cmap(s);
    let f = |c: char| value_image(c);
    assert forall|c: char|
        lacks(#[trigger] f(c), '[') && lacks(f(c), ']') && lacks(f(c), ',') by {
        if c == '&' || c == '[' || c == ']' || c == ',' {
        } else {
            assert(f(c) == seq![c]);
        }
    }
    lemma_cmap_lacks(s, f, '[');
    lemma_cmap_lacks(s, f, ']');
    lemma_cmap_lacks(s, f, ',');
}

} // verus!
