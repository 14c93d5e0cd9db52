//! Texts as sets of words, and how much two of them have in common.

use vstd::prelude::*;
use crate::ratio::cap;
use crate::ratio::capped;
use crate::ratio::Ratio;
use crate::ratio::ratio_of;
use crate::text::chars_of;
use crate::text::lemma_lex_irreflexive;
use crate::text::lemma_lex_total;
use crate::text::lemma_lex_transitive;
use crate::text::lex_lt;
use crate::text::text_eq;
use crate::text::text_lt;
use crate::views::seq_views;

verus! {

/// The text that `str::to_lowercase` gives.
pub uninterp spec fn lowercase(s: Seq<char>) -> Seq<char>;

/// What `char::is_alphanumeric` says of a character.
pub uninterp spec fn alphanumeric(c: char) -> bool;

/// Calls `str::to_lowercase`, which depends on the text alone.
#[verifier::external_body]
fn to_lowercase(s: &str) -> (r: String)
    ensures
        r@ == lowercase(s@),
{
    s.to_lowercase()
}

/// Calls `char::is_alphanumeric`, which depends on the character alone.
#[verifier::external_body]
fn is_alphanumeric(c: char) -> (r: bool)
    ensures
        r == alphanumeric(c),
{
    c.is_alphanumeric()
}

/// A word that carries no meaning of its own. The list is small and fixed: a
/// long one would swallow words like "no" and "not".
pub open spec fn stopword(w: Seq<char>) -> bool {
    ||| w == "the"@
    ||| w == "a"@
    ||| w == "an"@
    ||| w == "to"@
    ||| w == "of"@
    ||| w == "for"@
    ||| w == "and"@
    ||| w == "or"@
    ||| w == "is"@
    ||| w == "are"@
    ||| w == "was"@
    ||| w == "were"@
    ||| w == "on"@
    ||| w == "in"@
    ||| w == "at"@
    ||| w == "we"@
    ||| w == "i"@
    ||| w == "it"@
    ||| w == "that"@
    ||| w == "this"@
    ||| w == "with"@
    ||| w == "need"@
    ||| w == "needs"@
}

/// Whether a word carries no meaning of its own.
fn is_stopword(w: &str) -> (r: bool)
    ensures
        r == stopword(w@),
{
    text_eq(w, "the") || text_eq(w, "a") || text_eq(w, "an") || text_eq(w, "to") || text_eq(w, "of")
        || text_eq(w, "for") || text_eq(w, "and") || text_eq(w, "or") || text_eq(w, "is")
        || text_eq(w, "are") || text_eq(w, "was") || text_eq(w, "were") || text_eq(w, "on")
        || text_eq(w, "in") || text_eq(w, "at") || text_eq(w, "we") || text_eq(w, "i") || text_eq(
        w,
        "it",
    ) || text_eq(w, "that") || text_eq(w, "this") || text_eq(w, "with") || text_eq(w, "need")
        || text_eq(w, "needs")
}

/// The bytes of a character in UTF-8.
pub open spec fn char_bytes(c: char) -> nat {
    if (c as u32) < 0x80 {
        1
    } else if (c as u32) < 0x800 {
        2
    } else if (c as u32) < 0x10000 {
        3
    } else {
        4
    }
}

/// The bytes of a text in UTF-8.
pub open spec fn text_bytes(w: Seq<char>) -> nat
    decreases w.len(),
{
    if w.len() == 0 {
        0
    } else {
        text_bytes(w.drop_last()) + char_bytes(w.last())
    }
}

/// A word that ends in a plural `s`: more than three bytes, and not a double
/// `s`.
pub open spec fn plural(w: Seq<char>) -> bool {
    &&& text_bytes(w) > 3
    &&& w.len() > 0 && w.last() == 's'
    &&& !(w.len() > 1 && w[w.len() - 2] == 's')
}

/// A word without its plural `s`.
pub open spec fn singular(w: Seq<char>) -> Seq<char> {
    if plural(w) {
        w.drop_last()
    } else {
        w
    }
}

/// Characters from one place to another, none of which separates words, with
/// nothing of the same word before or behind.
pub open spec fn is_word(mask: Seq<bool>, i: int, j: int) -> bool {
    &&& 0 <= i < j <= mask.len()
    &&& forall|k: int| i <= k < j ==> #[trigger] mask[k]
    &&& i == 0 || !mask[i - 1]
    &&& j == mask.len() || !mask[j]
}

/// A word of the text that counts, and the form in which it does.
pub open spec fn gives_token(
    chars: Seq<char>,
    mask: Seq<bool>,
    i: int,
    j: int,
    t: Seq<char>,
) -> bool {
    is_word(mask, i, j) && !stopword(chars.subrange(i, j)) && t == singular(chars.subrange(i, j))
}

/// The words that count, given which characters are part of words.
pub open spec fn tokens_in(chars: Seq<char>, mask: Seq<bool>) -> Set<Seq<char>> {
    Set::new(|t: Seq<char>| exists|i: int, j: int| gives_token(chars, mask, i, j, t))
}

/// Which characters are part of words.
pub open spec fn word_mask(chars: Seq<char>) -> Seq<bool> {
    Seq::new(chars.len(), |i: int| alphanumeric(chars[i]))
}

/// The words of a text that count.
pub open spec fn tokens_of(s: Seq<char>) -> Set<Seq<char>> {
    tokens_in(lowercase(s), word_mask(lowercase(s)))
}

/// A set of words, in order.
#[derive(Clone, Debug, PartialEq, Eq)]
pub struct TokenSet {
    words: Vec<String>,
}

impl View for TokenSet {
    type V = Set<Seq<char>>;

    closed spec fn view(&self) -> Set<Seq<char>> {
        seq_views(self.words@).to_set()
    }
}

/// Texts in strictly ascending order.
pub open spec fn ascending(words: Seq<Seq<char>>) -> bool {
    forall|i: int, j: int|
        0 <= i < j < words.len() ==> lex_lt(#[trigger] words[i], #[trigger] words[j])
}

/// Ascending texts are all different.
pub proof fn lemma_ascending_distinct(words: Seq<Seq<char>>)
    requires
        ascending(words),
    ensures
        words.no_duplicates(),
        words.to_set().len() == words.len(),
        words.to_set().finite(),
{
    assert forall|i: int, j: int| 0 <= i < words.len() && 0 <= j < words.len() && i != j implies
        words[i] != words[j] by {
        lemma_lex_irreflexive(words[i]);
        if i < j {
            assert(lex_lt(words[i], words[j]));
        } else {
            assert(lex_lt(words[j], words[i]));
        }
    }
    words.unique_seq_to_set();
    vstd::seq_lib::seq_to_set_is_finite(words);
}

/// Puts a text into its place among ascending texts, unless it is there.
pub(crate) fn insert_ascending(words: &mut Vec<String>, w: String)
    requires
        ascending(seq_views(old(words)@)),
    ensures
        ascending(seq_views(final(words)@)),
        seq_views(final(words)@).to_set() == seq_views(old(words)@).to_set().insert(w@),
{
    let ghost all = seq_views(words@);
    let mut at: usize = 0;
    while at < words.len() && text_lt(words[at].as_str(), w.as_str())
        invariant
            at <= words.len(),
            words@ == old(words)@,
            all == seq_views(words@),
            forall|i: int| 0 <= i < at ==> lex_lt(#[trigger] all[i], w@),
        decreases words.len() - at,
    {
        assert(all[at as int] == words@[at as int]@);
        at = at + 1;
    }
    if at < words.len() && text_eq(words[at].as_str(), w.as_str()) {
        proof {
            assert(all[at as int] == w@);
            assert(all.to_set() =~= all.to_set().insert(w@));
        }
        return ;
    }
    let ghost new = w@;
    proof {
        if at < words.len() {
            assert(all[at as int] == words@[at as int]@);
            lemma_lex_total(all[at as int], new);
        }
    }
    words.insert(at, w);
    proof {
        let after = seq_views(words@);
        assert(after =~= all.insert(at as int, new));
        assert forall|i: int, j: int| 0 <= i < j < after.len() implies lex_lt(
            #[trigger] after[i],
            #[trigger] after[j],
        ) by {
            if i < at && j == at {
                assert(lex_lt(all[i], new));
            } else if i == at {
                assert(after[j] == all[j - 1]);
                if j - 1 > at {
                    assert(lex_lt(all[at as int], all[j - 1]));
                    lemma_lex_transitive(new, all[at as int], all[j - 1]);
                }
            } else {
                let x = if i < at {
                    i
                } else {
                    i - 1
                };
                let y = if j < at {
                    j
                } else {
                    j - 1
                };
                assert(after[i] == all[x] && after[j] == all[y]);
            }
        }
        assert forall|t: Seq<char>| after.to_set().contains(t) <==> all.to_set().insert(
            new,
        ).contains(t) by {
            if after.contains(t) {
                let i = choose|i: int| 0 <= i < after.len() && after[i] == t;
                if i < at {
                    assert(all[i] == t);
                } else if i > at {
                    assert(all[i - 1] == t);
                }
            }
            if all.contains(t) {
                let i = choose|i: int| 0 <= i < all.len() && all[i] == t;
                if i < at {
                    assert(after[i] == t);
                } else {
                    assert(after[i + 1] == t);
                }
            }
            assert(after[at as int] == new);
        }
        assert(after.to_set() =~= all.to_set().insert(new));
    }
}

impl TokenSet {
    /// The words are in order, each once.
    pub closed spec fn wf(&self) -> bool {
        ascending(seq_views(self.words@))
    }

    /// No words.
    pub fn new() -> (r: TokenSet)
        ensures
            r.wf(),
            r@ == Set::<Seq<char>>::empty(),
    {
        let r = TokenSet { words: Vec::new() };
        assert(seq_views(r.words@).to_set() =~= Set::<Seq<char>>::empty());
        r
    }

    /// Adds a word.
    pub fn insert(&mut self, w: String)
        requires
            old(self).wf(),
        ensures
            final(self).wf(),
            final(self)@ == old(self)@.insert(w@),
    {
        insert_ascending(&mut self.words, w);
    }

    /// How many words there are.
    pub fn len(&self) -> (r: usize)
        requires
            self.wf(),
        ensures
            r == self@.len(),
            self@.finite(),
    {
        proof {
            lemma_ascending_distinct(seq_views(self.words@));
        }
        self.words.len()
    }

    /// Whether a word is in the set.
    pub fn contains(&self, w: &str) -> (r: bool)
        ensures
            r == self@.contains(w@),
    {
        let ghost all = seq_views(self.words@);
        let mut i: usize = 0;
        while i < self.words.len()
            invariant
                i <= self.words.len(),
                all == seq_views(self.words@),
                forall|k: int| 0 <= k < i ==> #[trigger] all[k] != w@,
            decreases self.words.len() - i,
        {
            assert(all[i as int] == self.words@[i as int]@);
            if text_eq(self.words[i].as_str(), w) {
                return true;
            }
            i = i + 1;
        }
        false
    }

    /// How many words two sets share.
    pub fn shared(&self, other: &TokenSet) -> (r: usize)
        requires
            self.wf(),
        ensures
            r == self@.intersect(other@).len(),
    {
        let ghost all = seq_views(self.words@);
        let ghost mut found: Seq<Seq<char>> = Seq::empty();
        let mut n: usize = 0;
        let mut i: usize = 0;
        proof {
            lemma_ascending_distinct(all);
        }
        while i < self.words.len()
            invariant
                i <= self.words.len(),
                n <= i,
                n == found.len(),
                all == seq_views(self.words@),
                all.no_duplicates(),
                found.no_duplicates(),
                forall|t: Seq<char>|
                    #[trigger] found.contains(t) <==> all.take(i as int).contains(t)
                        && other@.contains(t),
            decreases self.words.len() - i,
        {
            let hit = other.contains(self.words[i].as_str());
            proof {
                let w = all[i as int];
                let first = all.take(i as int);
                let next = all.take(i + 1);
                assert(next =~= first.push(w));
                assert(!first.contains(w)) by {
                    if first.contains(w) {
                        let x = choose|x: int| 0 <= x < first.len() && first[x] == w;
                        assert(all[x] == all[i as int]);
                    }
                }
                let before = found;
                assert(!before.contains(w));
                if hit {
                    found = before.push(w);
                    assert forall|x: int, y: int|
                        0 <= x < found.len() && 0 <= y < found.len() && x != y implies found[x]
                        != found[y] by {
                        if x < before.len() {
                            assert(before.contains(before[x]));
                        }
                        if y < before.len() {
                            assert(before.contains(before[y]));
                        }
                    }
                }
                assert forall|t: Seq<char>| #[trigger]
                    found.contains(t) <==> next.contains(t) && other@.contains(t) by {
                    broadcast use vstd::seq_lib::group_seq_properties;

                    assert(next.contains(t) <==> first.contains(t) || t == w);
                    if hit {
                        assert(before.push(w).contains(t) <==> before.contains(t) || t == w);
                    }
                }
            }
            if hit {
                n = n + 1;
            }
            i = i + 1;
        }
        proof {
            assert(all.take(all.len() as int) =~= all);
            found.unique_seq_to_set();
            assert(found.to_set() =~= self@.intersect(other@));
        }
        n
    }
}

/// Whether a word has more than three bytes.
fn over_three_bytes(w: &Vec<char>) -> (r: bool)
    ensures
        r == (text_bytes(w@) > 3),
{
    let mut total: u32 = 0;
    let mut i: usize = 0;
    assert(w@.take(0) =~= Seq::<char>::empty());
    while i < w.len()
        invariant
            i <= w.len(),
            total <= 3,
            total == text_bytes(w@.take(i as int)),
        decreases w.len() - i,
    {
        let c = w[i];
        let code: u32 = c as u32;
        let size: u32 = if code < 0x80 {
            1
        } else if code < 0x800 {
            2
        } else if code < 0x10000 {
            3
        } else {
            4
        };
        assert(w@.take(i + 1).drop_last() =~= w@.take(i as int));
        total = total + size;
        if total > 3 {
            proof {
                lemma_bytes_grow(w@, i + 1);
            }
            return true;
        }
        i = i + 1;
    }
    assert(w@.take(w@.len() as int) =~= w@);
    false
}

proof fn lemma_bytes_grow(w: Seq<char>, n: int)
    requires
        0 <= n <= w.len(),
    ensures
        text_bytes(w.take(n)) <= text_bytes(w),
    decreases w.len() - n,
{
    if n < w.len() {
        assert(w.take(n + 1).drop_last() =~= w.take(n));
        lemma_bytes_grow(w, n + 1);
    } else {
        assert(w.take(n) =~= w);
    }
}

/// The characters from one place to another.
fn part(chars: &Vec<char>, from: usize, to: usize) -> (r: Vec<char>)
    requires
        from <= to <= chars.len(),
    ensures
        r@ == chars@.subrange(from as int, to as int),
{
    let mut out: Vec<char> = Vec::new();
    let mut i: usize = from;
    while i < to
        invariant
            from <= i <= to <= chars.len(),
            out@ == chars@.subrange(from as int, i as int),
        decreases to - i,
    {
        out.push(chars[i]);
        i = i + 1;
        assert(out@ =~= chars@.subrange(from as int, i as int));
    }
    out
}

/// The text of characters.
fn text_of(chars: &Vec<char>) -> (r: String)
    ensures
        r@ == chars@,
{
    let mut out = String::new();
    let mut i: usize = 0;
    while i < chars.len()
        invariant
            i <= chars.len(),
            out@ == chars@.take(i as int),
        decreases chars.len() - i,
    {
        out.push(chars[i]);
        i = i + 1;
        assert(out@ =~= chars@.take(i as int));
    }
    assert(chars@.take(chars@.len() as int) =~= chars@);
    out
}

/// A word without its plural `s`.
fn strip_plural(w: Vec<char>) -> (r: String)
    ensures
        r@ == singular(w@),
{
    let n: usize = w.len();
    if over_three_bytes(&w) && n > 0 && w[n - 1] == 's' && !(n > 1 && w[n - 2] == 's') {
        let short = part(&w, 0, n - 1);
        assert(short@ =~= w@.drop_last());
        text_of(&short)
    } else {
        text_of(&w)
    }
}

/// Splits a text into the words that count, given which of its characters are
/// part of words.
pub fn split_tokens(chars: &Vec<char>, mask: &Vec<bool>) -> (r: TokenSet)
    requires
        chars.len() == mask.len(),
    ensures
        r.wf(),
        r@ == tokens_in(chars@, mask@),
{
    let mut out = TokenSet::new();
    let mut pos: usize = 0;
    while pos < chars.len()
        invariant
            pos <= chars.len(),
            chars.len() == mask.len(),
            out.wf(),
            forall|i: int, j: int| #[trigger] is_word(mask@, i, j) ==> j <= pos || i >= pos,
            forall|t: Seq<char>|
                #[trigger] out@.contains(t) <==> exists|i: int, j: int|
                    j <= pos && gives_token(chars@, mask@, i, j, t),
        decreases chars.len() - pos,
    {
        if !mask[pos] {
            proof {
                let ghost next = pos + 1;
                assert forall|i: int, j: int| #[trigger] is_word(mask@, i, j) implies j <= next
                    || i >= next by {
                    if i == pos {
                        assert(mask@[pos as int]);
                    }
                }
                assert forall|t: Seq<char>| #[trigger]
                    out@.contains(t) <==> exists|i: int, j: int|
                    j <= next && gives_token(chars@, mask@, i, j, t) by {
                    if exists|i: int, j: int| j <= next && gives_token(chars@, mask@, i, j, t) {
                        let (i, j) = choose|i: int, j: int|
                            j <= next && gives_token(chars@, mask@, i, j, t);
                        assert(is_word(mask@, i, j));
                        if j == next {
                            assert(mask@[pos as int]);
                        }
                    }
                }
            }
            pos = pos + 1;
        } else {
            let start: usize = pos;
            assert(start == 0 || !mask@[start - 1]) by {
                if start > 0 && mask@[start - 1] {
                    lemma_inside_a_word(mask@, start as int);
                }
            }
            while pos < chars.len() && mask[pos]
                invariant
                    start <= pos <= chars.len(),
                    chars.len() == mask.len(),
                    forall|k: int| start <= k < pos ==> #[trigger] mask@[k],
                decreases chars.len() - pos,
            {
                pos = pos + 1;
            }
            assert(mask@[start as int]);
            assert(pos > start);
            assert(is_word(mask@, start as int, pos as int));
            let word = part(chars, start, pos);
            let text = text_of(&word);
            let ghost w = word@;
            let ghost before = out@;
            let counts = !is_stopword(text.as_str());
            if counts {
                let token = strip_plural(word);
                out.insert(token);
            }
            proof {
                assert forall|i: int, j: int| #[trigger] is_word(mask@, i, j) implies j <= pos || i
                    >= pos by {
                    if i >= start && i < pos {
                        lemma_same_word(mask@, start as int, pos as int, i, j);
                    }
                }
                assert forall|t: Seq<char>| #[trigger]
                    out@.contains(t) <==> exists|i: int, j: int|
                    j <= pos && gives_token(chars@, mask@, i, j, t) by {
                    if exists|i: int, j: int| j <= pos && gives_token(chars@, mask@, i, j, t) {
                        let (i, j) = choose|i: int, j: int|
                            j <= pos && gives_token(chars@, mask@, i, j, t);
                        assert(is_word(mask@, i, j));
                        if j <= start {
                            assert(j <= start && gives_token(chars@, mask@, i, j, t));
                            assert(before.contains(t));
                        } else {
                            lemma_same_word(mask@, start as int, pos as int, i, j);
                        }
                    }
                    if before.contains(t) {
                        let (i, j) = choose|i: int, j: int|
                            j <= start && gives_token(chars@, mask@, i, j, t);
                        assert(j <= pos && gives_token(chars@, mask@, i, j, t));
                    }
                    if counts && t == singular(w) {
                        assert(gives_token(chars@, mask@, start as int, pos as int, t));
                    }
                }
            }
        }
    }
    proof {
        assert forall|t: Seq<char>| #[trigger] out@.contains(t) <==> tokens_in(
            chars@,
            mask@,
        ).contains(t) by {
            if tokens_in(chars@, mask@).contains(t) {
                let (i, j) = choose|i: int, j: int| gives_token(chars@, mask@, i, j, t);
                assert(j <= pos && gives_token(chars@, mask@, i, j, t));
            }
        }
        assert(out@ =~= tokens_in(chars@, mask@));
    }
    out
}

/// A place between two characters of words lies inside a word.
proof fn lemma_inside_a_word(mask: Seq<bool>, p: int)
    requires
        0 < p < mask.len(),
        mask[p - 1],
        mask[p],
    ensures
        exists|i: int, j: int| i < p < j && #[trigger] is_word(mask, i, j),
{
    let i = lemma_word_start(mask, p - 1);
    let j = lemma_word_end(mask, p);
    assert forall|k: int| i <= k < j implies #[trigger] mask[k] by {}
    assert(is_word(mask, i, j));
}

proof fn lemma_word_start(mask: Seq<bool>, p: int) -> (i: int)
    requires
        0 <= p < mask.len(),
        mask[p],
    ensures
        0 <= i <= p,
        forall|k: int| i <= k <= p ==> #[trigger] mask[k],
        i == 0 || !mask[i - 1],
    decreases p,
{
    if p > 0 && mask[p - 1] {
        lemma_word_start(mask, p - 1)
    } else {
        p
    }
}

proof fn lemma_word_end(mask: Seq<bool>, p: int) -> (j: int)
    requires
        0 <= p < mask.len(),
        mask[p],
    ensures
        p < j <= mask.len(),
        forall|k: int| p <= k < j ==> #[trigger] mask[k],
        j == mask.len() || !mask[j],
    decreases mask.len() - p,
{
    if p + 1 < mask.len() && mask[p + 1] {
        lemma_word_end(mask, p + 1)
    } else {
        p + 1
    }
}

/// Two words that overlap are one.
proof fn lemma_same_word(mask: Seq<bool>, a: int, b: int, i: int, j: int)
    requires
        is_word(mask, a, b),
        is_word(mask, i, j),
        i < b,
        a < j,
    ensures
        i == a,
        j == b,
{
    if i < a {
        assert(mask[a - 1]);
    }
    if a < i {
        assert(mask[i - 1]);
    }
    if j < b {
        assert(mask[j]);
    }
    if b < j {
        assert(mask[b]);
    }
}

/// The words of a text that count: in lower case, without stopwords and plural
/// `s`.
pub fn token_set(s: &str) -> (r: TokenSet)
    ensures
        r.wf(),
        r@ == tokens_of(s@),
{
    let lowered = to_lowercase(s);
    let chars = chars_of(lowered.as_str());
    let mut mask: Vec<bool> = Vec::new();
    let mut i: usize = 0;
    while i < chars.len()
        invariant
            i <= chars.len(),
            mask.len() == i,
            forall|k: int| 0 <= k < i ==> #[trigger] mask@[k] == alphanumeric(chars@[k]),
        decreases chars.len() - i,
    {
        mask.push(is_alphanumeric(chars[i]));
        i = i + 1;
    }
    assert(mask@ =~= word_mask(lowercase(s@)));
    split_tokens(&chars, &mask)
}

/// What two sets have in common: twice the shared words over all words of both;
/// zero when there are none.
pub open spec fn dice_of(a: Set<Seq<char>>, b: Set<Seq<char>>) -> Ratio {
    ratio_of(capped(2 * a.intersect(b).len()), capped(a.len() + b.len()))
}

/// What two sets have in common.
pub fn dice(a: &TokenSet, b: &TokenSet) -> (r: Ratio)
    requires
        a.wf(),
        b.wf(),
    ensures
        r == dice_of(a@, b@),
        r.den > 0,
{
    let shared: usize = a.shared(b);
    let total: u128 = a.len() as u128 + b.len() as u128;
    Ratio::of(cap(2 * (shared as u128)), cap(total))
}

/// It does not matter which set comes first.
pub proof fn law_dice_is_symmetric(a: Set<Seq<char>>, b: Set<Seq<char>>)
    ensures
        dice_of(a, b) == dice_of(b, a),
{
    assert(a.intersect(b) =~= b.intersect(a));
}

/// A set has everything in common with itself, unless it is empty.
pub proof fn law_dice_of_equals_is_one(a: Set<Seq<char>>)
    requires
        a.finite(),
    ensures
        a.len() > 0 ==> dice_of(a, a).num == dice_of(a, a).den,
        a.len() == 0 ==> dice_of(a, a).num == 0,
        dice_of(a, a).den > 0,
{
    assert(a.intersect(a) =~= a);
}

/// What two sets have in common is between nothing and everything, and nothing
/// exactly when no word is shared.
pub proof fn law_dice_is_a_fraction(a: Set<Seq<char>>, b: Set<Seq<char>>)
    requires
        a.finite(),
        b.finite(),
    ensures
        dice_of(a, b).num <= dice_of(a, b).den,
        dice_of(a, b).den > 0,
        dice_of(a, b).num == 0 <==> a.intersect(b) =~= Set::empty(),
{
    vstd::set_lib::lemma_len_intersect(a, b);
    assert(a.intersect(b) =~= b.intersect(a));
    vstd::set_lib::lemma_len_intersect(b, a);
    if a.intersect(b).len() == 0 {
        assert(a.intersect(b) =~= Set::empty());
    }
    if a.len() + b.len() == 0 {
        assert(a =~= Set::empty());
        assert(a.intersect(b) =~= Set::empty());
    }
}

/// What two sets have in common is nothing exactly when no word is shared, and
/// everything exactly when the sets are one and hold a word. It is a fraction, and
/// the same whichever set comes first.
pub proof fn law_dice_measures_what_is_shared(a: Set<Seq<char>>, b: Set<Seq<char>>)
    requires
        a.finite(),
        b.finite(),
        a.len() + b.len() <= u64::MAX,
    ensures
        dice_of(a, b) == dice_of(b, a),
        0 < dice_of(a, b).den,
        dice_of(a, b).num <= dice_of(a, b).den,
        dice_of(a, b).num == 0 <==> a.disjoint(b),
        dice_of(a, b).num == dice_of(a, b).den <==> a == b && a.len() > 0,
{
    law_dice_is_symmetric(a, b);
    law_dice_is_a_fraction(a, b);
    let shared = a.intersect(b);
    assert(shared =~= b.intersect(a));
    vstd::set_lib::lemma_len_intersect(a, b);
    vstd::set_lib::lemma_len_intersect(b, a);
    if a.disjoint(b) {
        assert(shared =~= Set::empty());
    }
    if shared =~= Set::empty() {
        assert forall|w: Seq<char>| a.contains(w) implies !b.contains(w) by {
            if b.contains(w) {
                assert(shared.contains(w));
            }
        }
    }
    if 2 * shared.len() == a.len() + b.len() {
        vstd::set_lib::lemma_subset_equality(shared, a);
        vstd::set_lib::lemma_subset_equality(shared, b);
    }
    if a == b {
        assert(shared =~= a);
    }
}

/// A word of either text, in its place in the joined one.
proof fn lemma_joined_words(x: Seq<bool>, y: Seq<bool>, i: int, j: int)
    ensures
        is_word(x, i, j) ==> is_word(x + seq![false] + y, i, j),
        is_word(y, i, j) ==> is_word(
            x + seq![false] + y,
            i + x.len() + 1,
            j + x.len() + 1,
        ),
        is_word(x + seq![false] + y, i, j) ==> is_word(x, i, j) || is_word(
            y,
            i - x.len() - 1,
            j - x.len() - 1,
        ),
{
    let m = x + seq![false] + y;
    let n = x.len() as int;
    assert(forall|k: int| 0 <= k < n ==> m[k] == x[k]);
    assert(!m[n]);
    assert(forall|k: int| 0 <= k < y.len() ==> m[k + n + 1] == y[k]);
    if is_word(y, i, j) {
        assert forall|k: int| i + n + 1 <= k < j + n + 1 implies #[trigger] m[k] by {
            assert(y[k - n - 1]);
        }
        assert(i > 0 ==> m[i + n] == y[i - 1]);
        assert(j < y.len() ==> m[j + n + 1] == y[j]);
    }
    if is_word(m, i, j) {
        if i <= n && n < j {
            assert(m[n]);
        }
        if j <= n {
            assert forall|k: int| i <= k < j implies #[trigger] x[k] by {
                assert(m[k]);
            }
            assert(is_word(x, i, j));
        } else {
            assert forall|k: int| i - n - 1 <= k < j - n - 1 implies #[trigger] y[k] by {
                assert(m[k + n + 1]);
            }
            assert(i - n - 1 > 0 ==> m[i - 1] == y[i - n - 2]);
            assert(j - n - 1 < y.len() ==> m[j] == y[j - n - 1]);
            assert(is_word(y, i - n - 1, j - n - 1));
        }
    }
}

/// A separator joins two lists of words and makes no word of its own: the words
/// of two texts with a character between them that is part of no word are the
/// words of the one and of the other.
pub proof fn law_separator_joins_words(
    x: Seq<char>,
    y: Seq<char>,
    sep: char,
    in_x: Seq<bool>,
    in_y: Seq<bool>,
)
    requires
        x.len() == in_x.len(),
        y.len() == in_y.len(),
    ensures
        tokens_in(x + seq![sep] + y, in_x + seq![false] + in_y) == tokens_in(x, in_x).union(
            tokens_in(y, in_y),
        ),
{
    let all = x + seq![sep] + y;
    let mask = in_x + seq![false] + in_y;
    let n = x.len() as int;
    let both = tokens_in(x, in_x).union(tokens_in(y, in_y));
    assert forall|t: Seq<char>| tokens_in(all, mask).contains(t) <==> both.contains(t) by {
        if tokens_in(all, mask).contains(t) {
            let (i, j) = choose|i: int, j: int| gives_token(all, mask, i, j, t);
            lemma_joined_words(in_x, in_y, i, j);
            if is_word(in_x, i, j) {
                assert(all.subrange(i, j) =~= x.subrange(i, j));
                assert(gives_token(x, in_x, i, j, t));
            } else {
                assert(all.subrange(i, j) =~= y.subrange(i - n - 1, j - n - 1));
                assert(gives_token(y, in_y, i - n - 1, j - n - 1, t));
            }
        }
        if tokens_in(x, in_x).contains(t) {
            let (i, j) = choose|i: int, j: int| gives_token(x, in_x, i, j, t);
            lemma_joined_words(in_x, in_y, i, j);
            assert(all.subrange(i, j) =~= x.subrange(i, j));
            assert(gives_token(all, mask, i, j, t));
        }
        if tokens_in(y, in_y).contains(t) {
            let (i, j) = choose|i: int, j: int| gives_token(y, in_y, i, j, t);
            lemma_joined_words(in_x, in_y, i, j);
            assert(all.subrange(i + n + 1, j + n + 1) =~= y.subrange(i, j));
            assert(gives_token(all, mask, i + n + 1, j + n + 1, t));
        }
    }
    assert(tokens_in(all, mask) =~= both);
}

/// The words of two texts joined by a separator are the words of both, wherever
/// the letters of the one do not change the case of the letters of the other.
pub proof fn law_joined_texts_have_the_words_of_both(a: Seq<char>, b: Seq<char>, sep: char)
    requires
        !alphanumeric(sep),
        lowercase(a + seq![sep] + b) == lowercase(a) + seq![sep] + lowercase(b),
    ensures
        tokens_of(a + seq![sep] + b) == tokens_of(a).union(tokens_of(b)),
{
    let x = lowercase(a);
    let y = lowercase(b);
    law_separator_joins_words(x, y, sep, word_mask(x), word_mask(y));
    assert(word_mask(x + seq![sep] + y) =~= word_mask(x) + seq![false] + word_mask(y));
}

} // verus!
