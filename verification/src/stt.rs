//! Small helpers of the speech-to-text bench.

use vstd::prelude::*;
use crate::text::concat2;
use crate::text::join;
use crate::text::joined;
use crate::text::skip_chars;
use crate::text::take_chars;
use crate::text::text_eq;
use crate::text::trim;
use crate::text::trimmed;
use crate::views::option_view;
use crate::views::seq_views;

verus! {

/// The text begins with the other.
pub open spec fn begins_with(s: Seq<char>, prefix: Seq<char>) -> bool {
    prefix.len() <= s.len() && s.take(prefix.len() as int) == prefix
}

/// The text without a beginning, if it has it.
fn without_prefix(s: &str, prefix: &str) -> (r: Option<String>)
    ensures
        match r {
            Some(rest) => begins_with(s@, prefix@) && rest@ == s@.skip(prefix@.len() as int),
            None => !begins_with(s@, prefix@),
        },
{
    let n: usize = prefix.unicode_len();
    if s.unicode_len() < n {
        return None;
    }
    let start = take_chars(s, n);
    assert(start@ =~= s@.take(n as int));
    if text_eq(start.as_str(), prefix) {
        let rest = skip_chars(s, n);
        assert(rest@ =~= s@.skip(n as int));
        Some(rest)
    } else {
        None
    }
}

/// Where a character stands last in a text; -1 if nowhere.
pub open spec fn last_place(s: Seq<char>, c: char) -> int
    decreases s.len(),
{
    if s.len() == 0 {
        -1
    } else if s.last() == c {
        s.len() - 1
    } else {
        last_place(s.drop_last(), c)
    }
}

/// What follows the last slash.
pub open spec fn last_part(path: Seq<char>) -> Seq<char> {
    path.skip(last_place(path, '/') + 1)
}

/// A file name without its extension: without the last dot and what follows it,
/// unless the name has no dot or begins with its only one.
pub open spec fn stem_part(name: Seq<char>) -> Seq<char> {
    if last_place(name, '.') <= 0 {
        name
    } else {
        name.take(last_place(name, '.'))
    }
}

/// A path without what its end does not need: slashes, and dots that stand for
/// the directory before them.
pub open spec fn bare_path(path: Seq<char>) -> Seq<char>
    decreases path.len(),
{
    if path.len() > 0 && path.last() == '/' {
        bare_path(path.drop_last())
    } else if path.len() > 1 && path.last() == '.' && path[path.len() - 2] == '/' {
        bare_path(path.drop_last())
    } else {
        path
    }
}

/// The name that a path ends in, without its extension. A path that ends in two
/// dots, and one without any name, has none.
pub open spec fn stem_of(path: Seq<char>) -> Option<Seq<char>> {
    let name = last_part(bare_path(path));
    if name.len() == 0 || name == ".."@ {
        None
    } else {
        Some(stem_part(name))
    }
}

/// A path that is the same one on every machine: it holds no sign that separates
/// a path on some machines only, and does not begin with two slashes. The
/// current directory by itself is left out.
pub open spec fn portable(path: Seq<char>) -> bool {
    &&& !path.contains('\\')
    &&& !path.contains(':')
    &&& !begins_with(path, "//"@)
    &&& bare_path(path) != "."@
}

/// Calls `std::path::Path::file_stem`: the last name in the path without its
/// extension, where slashes and single dots at the end do not count; none for a
/// path that ends in two dots or has no name. What separates a path depends on
/// the machine, so nothing is promised of a path that machines read differently,
/// nor of the current directory by itself.
#[verifier::external_body]
fn file_stem(path: &str) -> (r: Option<String>)
    ensures
        portable(path@) ==> option_view(r) == stem_of(path@),
{
    std::path::Path::new(path).file_stem().and_then(|s| s.to_str()).map(|s| s.to_string())
}

/// The label of a model, given the name of its file: without `ggml-`. A path
/// that names no file is its own label.
pub open spec fn label_of(stem: Option<Seq<char>>, model: Seq<char>) -> Seq<char> {
    let name = match stem {
        Some(s) => s,
        None => model,
    };
    if begins_with(name, "ggml-"@) {
        name.skip("ggml-"@.len() as int)
    } else {
        name
    }
}

/// The label of a model, given the name of its file.
pub fn label_for(stem: Option<String>, model: &str) -> (r: String)
    ensures
        r@ == label_of(option_view(stem), model@),
{
    let name = match stem {
        Some(s) => s,
        None => model.to_string(),
    };
    match without_prefix(name.as_str(), "ggml-") {
        Some(rest) => rest,
        None => name,
    }
}

/// A short label such as `base.en` for the path of a model.
pub fn model_label(model: &str) -> (r: String)
    ensures
        exists|stem: Option<Seq<char>>| r@ == #[trigger] label_of(stem, model@),
        portable(model@) ==> r@ == label_of(stem_of(model@), model@),
{
    let stem = file_stem(model);
    label_for(stem, model)
}

/// The flags of a command line: what follows `--` names a flag, and the next
/// argument is its value, empty at the end of the line. A later one counts.
pub open spec fn flags_from(args: Seq<Seq<char>>, i: int) -> Map<Seq<char>, Seq<char>>
    decreases args.len() + 1 - i,
{
    if i < 0 || i >= args.len() {
        Map::empty()
    } else if begins_with(args[i], "--"@) {
        let value = if i + 1 < args.len() {
            args[i + 1]
        } else {
            Seq::empty()
        };
        let later = flags_from(args, i + 2);
        let name = args[i].skip(2);
        if later.contains_key(name) {
            later
        } else {
            later.insert(name, value)
        }
    } else {
        flags_from(args, i + 1)
    }
}

/// The flags of a command line.
#[derive(Clone, Debug)]
pub struct Flags {
    pairs: Vec<(String, String)>,
}

/// The flags from a place on; the latest of a name counts.
spec fn pairs_from(pairs: Seq<(String, String)>, i: int) -> Map<Seq<char>, Seq<char>>
    decreases pairs.len() - i,
{
    if i < 0 || i >= pairs.len() {
        Map::empty()
    } else {
        let later = pairs_from(pairs, i + 1);
        if later.contains_key(pairs[i].0@) {
            later
        } else {
            later.insert(pairs[i].0@, pairs[i].1@)
        }
    }
}

/// The flags added to others: where both have a name, the added one counts.
spec fn over(base: Map<Seq<char>, Seq<char>>, top: Map<Seq<char>, Seq<char>>) -> Map<
    Seq<char>,
    Seq<char>,
> {
    base.union_prefer_right(top)
}

impl View for Flags {
    type V = Map<Seq<char>, Seq<char>>;

    closed spec fn view(&self) -> Map<Seq<char>, Seq<char>> {
        pairs_from(self.pairs@, 0)
    }
}

proof fn lemma_pair_added(pairs: Seq<(String, String)>, p: (String, String), i: int)
    requires
        0 <= i <= pairs.len(),
    ensures
        pairs_from(pairs.push(p), i) == pairs_from(pairs, i).insert(p.0@, p.1@),
    decreases pairs.len() - i,
{
    let after = pairs.push(p);
    if i < pairs.len() {
        lemma_pair_added(pairs, p, i + 1);
        assert(after[i] == pairs[i]);
        assert(pairs_from(after, i) =~= pairs_from(pairs, i).insert(p.0@, p.1@));
    } else {
        assert(after[i] == p);
        assert(pairs_from(after, i + 1) =~= Map::<Seq<char>, Seq<char>>::empty());
        assert(pairs_from(pairs, i) =~= Map::<Seq<char>, Seq<char>>::empty());
    }
}

impl Flags {
    /// The value of a flag.
    pub fn get(&self, name: &str) -> (r: Option<&str>)
        ensures
            match r {
                Some(v) => self@.contains_key(name@) && self@[name@] == v@,
                None => !self@.contains_key(name@),
            },
    {
        let mut left: usize = self.pairs.len();
        assert(pairs_from(self.pairs@, left as int) =~= Map::<Seq<char>, Seq<char>>::empty());
        while left > 0
            invariant
                left <= self.pairs.len(),
                !pairs_from(self.pairs@, left as int).contains_key(name@),
            decreases left,
        {
            left = left - 1;
            if text_eq(self.pairs[left].0.as_str(), name) {
                proof {
                    lemma_earlier_pairs_yield(self.pairs@, left as int, name@, 0);
                }
                return Some(self.pairs[left].1.as_str());
            }
        }
        None
    }
}

/// What is known from a place on does not change by what stands before it.
proof fn lemma_earlier_pairs_yield(
    pairs: Seq<(String, String)>,
    i: int,
    name: Seq<char>,
    from: int,
)
    requires
        0 <= from <= i < pairs.len(),
        pairs_from(pairs, i).contains_key(name),
    ensures
        pairs_from(pairs, from).contains_key(name),
        pairs_from(pairs, from)[name] == pairs_from(pairs, i)[name],
    decreases i - from,
{
    if from < i {
        lemma_earlier_pairs_yield(pairs, i, name, from + 1);
    }
}

/// Reads the flags of a command line.
pub fn parse_flags(args: &[String]) -> (r: Flags)
    ensures
        r@ == flags_from(seq_views(args@), 0),
{
    let ghost all = seq_views(args@);
    let mut pairs: Vec<(String, String)> = Vec::new();
    let mut i: usize = 0;
    assert(pairs_from(pairs@, 0) =~= Map::<Seq<char>, Seq<char>>::empty());
    assert(over(pairs_from(pairs@, 0), flags_from(all, 0)) =~= flags_from(all, 0));
    proof {
        reveal_strlit("--");
    }
    while i < args.len()
        invariant
            i <= args.len(),
            "--"@.len() == 2,
            all == seq_views(args@),
            over(pairs_from(pairs@, 0), flags_from(all, i as int)) == flags_from(all, 0),
        decreases args.len() - i,
    {
        assert(all[i as int] == args@[i as int]@);
        match without_prefix(args[i].as_str(), "--") {
            Some(name) => {
                let last = i + 1 >= args.len();
                let value = if last {
                    String::new()
                } else {
                    args[i + 1].clone()
                };
                let ghost before = pairs@;
                let ghost pair = (name, value);
                let next: usize = if last {
                    i + 1
                } else {
                    i + 2
                };
                pairs.push((name, value));
                proof {
                    lemma_pair_added(before, pair, 0);
                    let later = flags_from(all, i + 2);
                    if last {
                        assert(later =~= flags_from(all, next as int));
                    }
                    assert(over(
                        pairs_from(before, 0).insert(pair.0@, pair.1@),
                        later,
                    ) =~= over(pairs_from(before, 0), flags_from(all, i as int)));
                }
                i = next;
            },
            None => {
                i = i + 1;
            },
        }
    }
    assert(over(pairs_from(pairs@, 0), flags_from(all, i as int)) =~= pairs_from(pairs@, 0));
    Flags { pairs }
}

/// The text of a transcription: its segments, one after the other, without the
/// white space at the ends.
pub fn transcript_text(segments: &Vec<String>) -> (r: String)
    ensures
        r@ == trimmed(joined(seq_views(segments@), ""@)),
{
    trim(join(segments, "").as_str())
}

/// The beginning of a text, marked when it was cut.
pub open spec fn previewed(s: Seq<char>, n: int) -> Seq<char> {
    if s.len() > n {
        s.take(n) + "…"@
    } else {
        s
    }
}

/// The first `n` characters of a text.
pub fn preview(s: &str, n: usize) -> (r: String)
    ensures
        r@ == previewed(s@, n as int),
{
    let start = take_chars(s, n);
    if s.unicode_len() > n {
        concat2(start.as_str(), "…")
    } else {
        start
    }
}

} // verus!
