//! Text search: the pattern language of the session library.
//!
//! A pattern matches a whole text. `%` stands for any run of characters, `_`
//! for any one character, a backslash makes the next character literal, and
//! ASCII letters match in either case. Pattern and text end at the first NUL.

use vstd::prelude::*;
use crate::text::chars_of;

verus! {

/// A character with ASCII letters in lower case.
pub open spec fn fold(c: char) -> char {
    if 'A' <= c && c <= 'Z' {
        (c as u8 + 32) as u8 as char
    } else {
        c
    }
}

/// The number of characters before the first NUL character.
pub open spec fn text_length(s: Seq<char>) -> nat
    decreases s.len(),
{
    if s.len() == 0 || s[0] == '\0' {
        0
    } else {
        1 + text_length(s.drop_first())
    }
}

/// The text before the first NUL character.
pub open spec fn before_nul(s: Seq<char>) -> Seq<char> {
    s.take(text_length(s) as int)
}

/// The pattern matches the text.
pub open spec fn like(p: Seq<char>, t: Seq<char>) -> bool
    decreases p.len(), t.len(),
{
    if p.len() == 0 {
        t.len() == 0
    } else if p[0] == '%' {
        like(p.skip(1), t) || (t.len() > 0 && like(p, t.skip(1)))
    } else if p[0] == '_' {
        t.len() > 0 && like(p.skip(1), t.skip(1))
    } else if p[0] == '\\' {
        p.len() > 1 && t.len() > 0 && fold(p[1]) == fold(t[0]) && like(p.skip(2), t.skip(1))
    } else {
        t.len() > 0 && fold(p[0]) == fold(t[0]) && like(p.skip(1), t.skip(1))
    }
}

/// A character that a pattern would read as more than itself.
pub open spec fn is_meta(c: char) -> bool {
    c == '%' || c == '_' || c == '\\'
}

/// The query with every such character escaped.
pub open spec fn escaped(q: Seq<char>) -> Seq<char>
    decreases q.len(),
{
    if q.len() == 0 {
        Seq::empty()
    } else if is_meta(q.last()) {
        escaped(q.drop_last()).push('\\').push(q.last())
    } else {
        escaped(q.drop_last()).push(q.last())
    }
}

/// The pattern that finds the query anywhere in a text.
pub open spec fn pattern_of(q: Seq<char>) -> Seq<char> {
    seq!['%'] + escaped(q) + seq!['%']
}

/// The most bytes that a pattern may have.
pub const PATTERN_BYTES: usize = 50_000;

/// How many bytes a character takes in UTF-8.
pub open spec fn char_bytes(c: char) -> nat {
    if (c as u32) < 0x80 {
        1
    } else if (c as u32) < 0x800 {
        2
    } else if (c as u32) < 0x1_0000 {
        3
    } else {
        4
    }
}

/// How many bytes a text takes in UTF-8.
pub open spec fn text_bytes(s: Seq<char>) -> nat
    decreases s.len(),
{
    if s.len() == 0 {
        0
    } else {
        text_bytes(s.drop_last()) + char_bytes(s.last())
    }
}

/// A query whose pattern the storage does not take.
pub open spec fn too_complex(q: Seq<char>) -> bool {
    text_bytes(pattern_of(q)) > PATTERN_BYTES
}

proof fn lemma_bytes_grow(s: Seq<char>, n: int)
    requires
        0 <= n <= s.len(),
    ensures
        text_bytes(s.take(n)) <= text_bytes(s),
    decreases s.len(),
{
    if n == s.len() {
        assert(s.take(n) =~= s);
    } else {
        lemma_bytes_grow(s.drop_last(), n);
        assert(s.drop_last().take(n) =~= s.take(n));
    }
}

/// Whether a pattern has more bytes than the storage takes.
pub fn is_too_long(pattern: &str) -> (r: bool)
    ensures
        r == (text_bytes(pattern@) > PATTERN_BYTES),
{
    let v = chars_of(pattern);
    let mut bytes: usize = 0;
    let mut i: usize = 0;
    while i < v.len()
        invariant
            i <= v.len(),
            v@ == pattern@,
            bytes == text_bytes(v@.take(i as int)),
            bytes <= PATTERN_BYTES,
        decreases v.len() - i,
    {
        proof {
            assert(v@.take(i + 1).drop_last() =~= v@.take(i as int));
            assert(v@.take(i + 1).last() == v@[i as int]);
            lemma_bytes_grow(v@, i + 1);
        }
        let c: u32 = v[i] as u32;
        let more: usize = if c < 0x80 {
            1
        } else if c < 0x800 {
            2
        } else if c < 0x1_0000 {
            3
        } else {
            4
        };
        bytes = bytes + more;
        if bytes > PATTERN_BYTES {
            return true;
        }
        i = i + 1;
    }
    assert(v@.take(v@.len() as int) =~= v@);
    false
}

/// The text holds the query from position `k` on, ASCII case ignored.
pub open spec fn found_at(t: Seq<char>, q: Seq<char>, k: int) -> bool {
    0 <= k && k + q.len() <= t.len() && forall|i: int|
        0 <= i < q.len() ==> fold(t[k + i]) == fold(#[trigger] q[i])
}

/// The text holds the query, ASCII case ignored.
pub open spec fn holds_text(t: Seq<char>, q: Seq<char>) -> bool {
    exists|k: int| found_at(t, q, k)
}

/// Whether a text is a hit for a query.
pub open spec fn hit(q: Seq<char>, t: Seq<char>) -> bool {
    like(before_nul(pattern_of(q)), before_nul(t))
}

/// Escapes pattern characters so that the query matches literally.
pub fn like_pattern(query: &str) -> (r: String)
    ensures
        r@ == pattern_of(query@),
{
    let v = chars_of(query);
    let mut out = String::new();
    out.push('%');
    let mut i: usize = 0;
    assert(escaped(v@.take(0)) =~= Seq::<char>::empty());
    assert(out@ =~= seq!['%'] + escaped(v@.take(0)));
    while i < v.len()
        invariant
            i <= v.len(),
            v@ == query@,
            out@ == seq!['%'] + escaped(v@.take(i as int)),
        decreases v.len() - i,
    {
        let ghost before = out@;
        proof {
            assert(v@.take(i + 1).drop_last() =~= v@.take(i as int));
            assert(v@.take(i + 1).last() == v@[i as int]);
        }
        let c = v[i];
        if c == '%' || c == '_' || c == '\\' {
            out.push('\\');
        }
        out.push(c);
        assert(out@ =~= seq!['%'] + escaped(v@.take(i + 1)));
        i = i + 1;
    }
    out.push('%');
    assert(v@.take(v@.len() as int) =~= v@);
    assert(out@ =~= pattern_of(query@));
    out
}

fn fold_char(c: char) -> (r: char)
    ensures
        r == fold(c),
{
    if 'A' <= c && c <= 'Z' {
        (c as u8 + 32) as char
    } else {
        c
    }
}

/// Counts the characters before the first NUL.
pub fn length_before_nul(v: &Vec<char>) -> (r: usize)
    ensures
        r as nat == text_length(v@),
        r <= v.len(),
{
    let mut i: usize = 0;
    assert(v@.skip(0) =~= v@);
    while i < v.len() && v[i] != '\0'
        invariant
            i <= v.len(),
            text_length(v@) == i + text_length(v@.skip(i as int)),
        decreases v.len() - i,
    {
        assert(v@.skip(i as int)[0] == v@[i as int]);
        assert(v@.skip(i as int).drop_first() =~= v@.skip(i + 1));
        i = i + 1;
    }
    if i < v.len() {
        assert(v@.skip(i as int)[0] == v@[i as int]);
    }
    i
}

/// The part of a text before its first NUL.
fn cut_at_nul(s: &str) -> (r: Vec<char>)
    ensures
        r@ == before_nul(s@),
{
    let mut v = chars_of(s);
    let n = length_before_nul(&v);
    v.truncate(n);
    assert(v@ =~= before_nul(s@));
    v
}

/// Matches the pattern from `i` on against the text from `j` on.
fn like_from(p: &Vec<char>, i: usize, t: &Vec<char>, j: usize) -> (r: bool)
    requires
        i <= p.len(),
        j <= t.len(),
    ensures
        r == like(p@.skip(i as int), t@.skip(j as int)),
    decreases p.len() - i,
{
    let ghost ps = p@.skip(i as int);
    if i == p.len() {
        return j == t.len();
    }
    assert(ps[0] == p@[i as int]);
    assert(ps.skip(1) =~= p@.skip(i + 1));
    if p[i] == '%' {
        let mut k: usize = j;
        loop
            invariant
                j <= k <= t.len(),
                i < p.len(),
                p@[i as int] == '%',
                ps == p@.skip(i as int),
                ps.skip(1) == p@.skip(i + 1),
                like(ps, t@.skip(j as int)) == like(ps, t@.skip(k as int)),
            decreases t.len() - k,
        {
            assert(ps[0] == '%');
            if like_from(p, i + 1, t, k) {
                return true;
            }
            if k == t.len() {
                return false;
            }
            assert(t@.skip(k as int).skip(1) =~= t@.skip(k + 1));
            k = k + 1;
        }
    }
    if j == t.len() {
        return false;
    }
    assert(t@.skip(j as int)[0] == t@[j as int]);
    assert(t@.skip(j as int).skip(1) =~= t@.skip(j + 1));
    if p[i] == '_' {
        like_from(p, i + 1, t, j + 1)
    } else if p[i] == '\\' {
        if p.len() - i > 1 {
            assert(ps[1] == p@[i + 1]);
            assert(ps.skip(2) =~= p@.skip(i + 2));
            fold_char(p[i + 1]) == fold_char(t[j]) && like_from(p, i + 2, t, j + 1)
        } else {
            false
        }
    } else {
        fold_char(p[i]) == fold_char(t[j]) && like_from(p, i + 1, t, j + 1)
    }
}

/// Whether a text matches a pattern.
pub fn like_matches(pattern: &str, text: &str) -> (r: bool)
    ensures
        r == like(before_nul(pattern@), before_nul(text@)),
{
    let p = cut_at_nul(pattern);
    let t = cut_at_nul(text);
    assert(p@.skip(0) =~= p@);
    assert(t@.skip(0) =~= t@);
    like_from(&p, 0, &t, 0)
}

/// A query matches literally: a text is a hit exactly when it holds the query,
/// ASCII case ignored, pattern characters and all.
pub proof fn law_query_matches_literally(q: Seq<char>, t: Seq<char>)
    requires
        !q.contains('\0'),
        !t.contains('\0'),
    ensures
        hit(q, t) == holds_text(t, q),
{
    lemma_escaped_no_nul(q);
    lemma_no_nul(pattern_of(q));
    lemma_no_nul(t);
    let tail = escaped(q) + seq!['%'];
    assert(pattern_of(q)[0] == '%');
    assert(pattern_of(q).skip(1) =~= tail);
    if like(pattern_of(q), t) {
        lemma_percent_splits(pattern_of(q), t);
        let k = choose|k: int| 0 <= k <= t.len() && like(pattern_of(q).skip(1), #[trigger] t.skip(k));
        lemma_literal_prefix(q, t.skip(k));
        assert(found_at(t, q, k)) by {
            assert forall|i: int| 0 <= i < q.len() implies fold(t[k + i]) == fold(
                #[trigger] q[i],
            ) by {
                assert(t.skip(k)[i] == t[k + i]);
            }
        }
    }
    if holds_text(t, q) {
        let k = choose|k: int| found_at(t, q, k);
        assert forall|i: int| 0 <= i < q.len() implies fold(t.skip(k)[i]) == fold(
            #[trigger] q[i],
        ) by {
            assert(t.skip(k)[i] == t[k + i]);
        }
        lemma_literal_prefix(q, t.skip(k));
        lemma_percent_joins(pattern_of(q), t, k);
    }
}

/// A leading `%` matches some run of characters and leaves the rest.
proof fn lemma_percent_splits(p: Seq<char>, t: Seq<char>)
    requires
        p.len() > 0,
        p[0] == '%',
        like(p, t),
    ensures
        exists|k: int| 0 <= k <= t.len() && like(p.skip(1), #[trigger] t.skip(k)),
    decreases t.len(),
{
    if like(p.skip(1), t) {
        assert(t.skip(0) =~= t);
    } else {
        lemma_percent_splits(p, t.skip(1));
        let k = choose|k: int|
            0 <= k <= t.skip(1).len() && like(p.skip(1), #[trigger] t.skip(1).skip(k));
        assert(t.skip(1).skip(k) =~= t.skip(k + 1));
    }
}

/// Matching the rest from any position is matching behind a `%`.
proof fn lemma_percent_joins(p: Seq<char>, t: Seq<char>, k: int)
    requires
        p.len() > 0,
        p[0] == '%',
        0 <= k <= t.len(),
        like(p.skip(1), t.skip(k)),
    ensures
        like(p, t),
    decreases k,
{
    if k == 0 {
        assert(t.skip(0) =~= t);
    } else {
        assert(t.skip(1).skip(k - 1) =~= t.skip(k));
        lemma_percent_joins(p, t.skip(1), k - 1);
    }
}

/// A lone `%` matches anything.
proof fn lemma_percent_any(t: Seq<char>)
    ensures
        like(seq!['%'], t),
    decreases t.len(),
{
    let p = seq!['%'];
    assert(p.skip(1) =~= Seq::<char>::empty());
    if t.len() > 0 {
        lemma_percent_any(t.skip(1));
    } else {
        assert(like(p.skip(1), t));
    }
}

/// The escaped query, read from the front.
proof fn lemma_escaped_front(q: Seq<char>)
    requires
        q.len() > 0,
    ensures
        escaped(q) == (if is_meta(q[0]) {
            seq!['\\', q[0]]
        } else {
            seq![q[0]]
        }) + escaped(q.drop_first()),
    decreases q.len(),
{
    if q.len() == 1 {
        assert(q.drop_last() =~= Seq::<char>::empty());
        assert(q.drop_first() =~= Seq::<char>::empty());
        assert(escaped(q) =~= (if is_meta(q[0]) {
            seq!['\\', q[0]]
        } else {
            seq![q[0]]
        }) + escaped(q.drop_first()));
    } else {
        lemma_escaped_front(q.drop_last());
        assert(q.drop_last().drop_first() =~= q.drop_first().drop_last());
        assert(q.drop_first().last() == q.last());
        assert(escaped(q) =~= (if is_meta(q[0]) {
            seq!['\\', q[0]]
        } else {
            seq![q[0]]
        }) + escaped(q.drop_first()));
    }
}

/// An escaped query, with a `%` behind it, matches the texts that begin with
/// the query.
proof fn lemma_literal_prefix(q: Seq<char>, t: Seq<char>)
    ensures
        like(escaped(q) + seq!['%'], t) == (q.len() <= t.len() && forall|i: int|
            0 <= i < q.len() ==> fold(t[i]) == fold(#[trigger] q[i])),
    decreases q.len(),
{
    let p = escaped(q) + seq!['%'];
    if q.len() == 0 {
        assert(p =~= seq!['%']);
        lemma_percent_any(t);
    } else {
        lemma_escaped_front(q);
        let rest = escaped(q.drop_first()) + seq!['%'];
        if is_meta(q[0]) {
            assert(p[0] == '\\' && p[1] == q[0]);
            assert(p.skip(2) =~= rest);
        } else {
            assert(p[0] == q[0]);
            assert(p.skip(1) =~= rest);
        }
        if t.len() > 0 {
            lemma_literal_prefix(q.drop_first(), t.skip(1));
            if fold(q[0]) == fold(t[0]) {
                if q.drop_first().len() <= t.skip(1).len() && (forall|i: int|
                    0 <= i < q.drop_first().len() ==> fold(t.skip(1)[i]) == fold(
                        #[trigger] q.drop_first()[i],
                    )) {
                    assert forall|i: int| 0 <= i < q.len() implies fold(t[i]) == fold(
                        #[trigger] q[i],
                    ) by {
                        if i > 0 {
                            assert(q.drop_first()[i - 1] == q[i]);
                            assert(t.skip(1)[i - 1] == t[i]);
                        }
                    }
                }
                if q.len() <= t.len() && (forall|i: int|
                    0 <= i < q.len() ==> fold(t[i]) == fold(#[trigger] q[i])) {
                    assert forall|i: int| 0 <= i < q.drop_first().len() implies fold(
                        t.skip(1)[i],
                    ) == fold(#[trigger] q.drop_first()[i]) by {
                        assert(q.drop_first()[i] == q[i + 1]);
                        assert(t.skip(1)[i] == t[i + 1]);
                    }
                }
            }
        }
    }
}

/// A text without NUL is not cut.
proof fn lemma_no_nul(s: Seq<char>)
    requires
        !s.contains('\0'),
    ensures
        text_length(s) == s.len(),
        before_nul(s) == s,
    decreases s.len(),
{
    if s.len() > 0 {
        assert(s.contains(s[0]));
        assert forall|i: int| 0 <= i < s.drop_first().len() implies s.drop_first()[i] != '\0' by {
            assert(s.drop_first()[i] == s[i + 1]);
            assert(s.contains(s[i + 1]));
        }
        lemma_no_nul(s.drop_first());
    }
    assert(before_nul(s) =~= s);
}

/// Escaping adds no NUL.
proof fn lemma_escaped_no_nul(q: Seq<char>)
    requires
        !q.contains('\0'),
    ensures
        !escaped(q).contains('\0'),
        !pattern_of(q).contains('\0'),
    decreases q.len(),
{
    if q.len() > 0 {
        assert(q.contains(q.last()));
        assert forall|i: int| 0 <= i < q.drop_last().len() implies q.drop_last()[i] != '\0' by {
            assert(q.contains(q[i]));
        }
        lemma_escaped_no_nul(q.drop_last());
        let e = escaped(q.drop_last());
        assert forall|i: int| 0 <= i < escaped(q).len() implies escaped(q)[i] != '\0' by {
            if i < e.len() {
                assert(escaped(q)[i] == e[i]);
                assert(e.contains(e[i]));
            }
        }
    }
    assert forall|i: int| 0 <= i < pattern_of(q).len() implies pattern_of(q)[i] != '\0' by {
        if 0 < i < pattern_of(q).len() - 1 {
            assert(pattern_of(q)[i] == escaped(q)[i - 1]);
            assert(escaped(q).contains(escaped(q)[i - 1]));
        }
    }
}

} // verus!
