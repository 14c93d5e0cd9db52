//! What the transcription bench's helpers do, said of their texts.

use vstd::prelude::*;
use crate::stt::begins_with;
use crate::stt::Flags;
use crate::stt::flags_from;
use crate::stt::label_for;
use crate::stt::last_part;
use crate::stt::last_place;
use crate::stt::parse_flags;
use crate::stt::preview;
use crate::stt::stem_part;
use crate::views::seq_views;

verus! {

/// A label is the name of the file, or the path where there is none, without one
/// `ggml-` at its beginning.
pub proof fn law_label_for(stem: Option<String>, model: &str, r: String)
    requires
        call_ensures(label_for, (stem, model), r),
    ensures
        ({
            let name = match stem {
                Some(s) => s@,
                None => model@,
            };
            ||| name == "ggml-"@ + r@
            ||| name == r@ && !"ggml-"@.is_prefix_of(name)
        }),
{
    let name = match stem {
        Some(s) => s@,
        None => model@,
    };
    if begins_with(name, "ggml-"@) {
        assert(name =~= name.take("ggml-"@.len() as int) + name.skip("ggml-"@.len() as int));
    } else if "ggml-"@.is_prefix_of(name) {
        assert(name.take("ggml-"@.len() as int) =~= "ggml-"@);
    }
}

proof fn lemma_last_place(s: Seq<char>, c: char)
    ensures
        -1 <= last_place(s, c) < s.len(),
        last_place(s, c) >= 0 ==> s[last_place(s, c)] == c,
        forall|i: int| last_place(s, c) < i < s.len() ==> #[trigger] s[i] != c,
    decreases s.len(),
{
    if s.len() > 0 && s.last() != c {
        lemma_last_place(s.drop_last(), c);
        assert forall|i: int| last_place(s, c) < i < s.len() implies #[trigger] s[i] != c by {
            if i < s.len() - 1 {
                assert(s.drop_last()[i] == s[i]);
            }
        }
    }
}

/// The last part of a path holds no slash, and only a slash can stand before it.
pub proof fn law_last_part(path: Seq<char>)
    ensures
        last_part(path).is_suffix_of(path),
        !last_part(path).contains('/'),
        last_part(path).len() < path.len() ==> path[path.len() - last_part(path).len() - 1] == '/',
{
    lemma_last_place(path, '/');
    let at = last_place(path, '/');
    let part = last_part(path);
    assert(part =~= path.subrange(path.len() - part.len(), path.len() as int));
    if part.contains('/') {
        let i = choose|i: int| 0 <= i < part.len() && part[i] == '/';
        assert(path[at + 1 + i] == '/');
    }
}

/// The stem of a name is the name up to its last dot; a name without a dot behind
/// its first sign is its own stem.
pub proof fn law_stem_part(name: Seq<char>)
    ensures
        stem_part(name).is_prefix_of(name),
        stem_part(name) != name ==> name[stem_part(name).len() as int] == '.' && stem_part(
            name,
        ).len() > 0 && forall|i: int|
            stem_part(name).len() < i < name.len() ==> #[trigger] name[i] != '.',
        stem_part(name) == name ==> forall|i: int| 0 < i < name.len() ==> #[trigger] name[i] != '.',
{
    lemma_last_place(name, '.');
}

/// A preview is the whole text where that is short enough, and otherwise its
/// beginning with a mark.
pub proof fn law_preview(s: &str, n: usize, r: String)
    requires
        call_ensures(preview, (s, n), r),
    ensures
        s@.len() <= n ==> r@ == s@,
        s@.len() > n ==> r@ == s@.take(n as int) + "…"@,
{
}

/// The last flag of a line that has a value counts, and one at the end of the line
/// has none.
pub proof fn law_flags_one_by_one(args: Seq<Seq<char>>, i: int, name: Seq<char>)
    requires
        0 <= i < args.len(),
    ensures
        !"--"@.is_prefix_of(args[i]) ==> flags_from(args, i) == flags_from(args, i + 1),
        args[i] == "--"@ + name ==> flags_from(args, i).contains_key(name),
        args[i] == "--"@ + name && !flags_from(args, i + 2).contains_key(name) ==> flags_from(
            args,
            i,
        )[name] == (if i + 1 < args.len() {
            args[i + 1]
        } else {
            Seq::empty()
        }),
        args[i] == "--"@ + name && flags_from(args, i + 2).contains_key(name) ==> flags_from(
            args,
            i,
        )[name] == flags_from(args, i + 2)[name],
        forall|other: Seq<char>|
            #![trigger flags_from(args, i).contains_key(other)]
            args[i] == "--"@ + name && other != name ==> flags_from(args, i).contains_key(other)
                == flags_from(args, i + 2).contains_key(other) && (flags_from(
                args,
                i,
            ).contains_key(other) ==> flags_from(args, i)[other] == flags_from(args, i + 2)[other]),
        flags_from(args, args.len() as int).dom() =~= Set::<Seq<char>>::empty(),
{
    reveal_strlit("--");
    assert("--"@.len() == 2);
    if args[i] == "--"@ + name {
        assert(args[i].take(2) =~= "--"@);
        assert(args[i].skip(2) =~= name);
        assert(begins_with(args[i], "--"@));
    }
    if begins_with(args[i], "--"@) {
        assert("--"@.is_prefix_of(args[i]));
    }
}

/// A flag that is asked for is the one of the line.
pub proof fn law_flags(args: &[String], flags: Flags, name: &str, r: Option<&str>)
    requires
        call_ensures(parse_flags, (args,), flags),
        call_ensures(Flags::get, (&flags, name), r),
    ensures
        r is Some <==> flags_from(seq_views(args@), 0).contains_key(name@),
        r matches Some(v) ==> v@ == flags_from(seq_views(args@), 0)[name@],
{
}

} // verus!
