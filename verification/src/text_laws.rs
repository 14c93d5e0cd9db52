//! What the text primitives do, said of the characters themselves.

use vstd::prelude::*;
use crate::text::blank;
use crate::text::count_words;
use crate::text::decimal;
use crate::text::decimal_text;
use crate::text::digit;
use crate::text::is_blank;
use crate::text::is_white;
use crate::text::is_white_space;
use crate::text::join;
use crate::text::joined;
use crate::text::skip_chars;
use crate::text::take_chars;
use crate::text::trim;
use crate::text::trimmed;
use crate::text::word_total;
use crate::views::seq_views;

verus! {

/// The white space of plain text: the space, the tab and the ends of lines are,
/// and a sign that can be seen in ASCII is not.
pub proof fn law_white_space(c: char, r: bool)
    requires
        call_ensures(is_white_space, (c,), r),
    ensures
        c == ' ' || c == '\t' || c == '\n' || c == '\r' ==> r,
        '!' <= c <= '~' ==> !r,
{
}

/// A text is blank exactly when none of its characters can be seen.
pub proof fn law_blank(s: &str, r: bool)
    requires
        call_ensures(is_blank, (s,), r),
    ensures
        !r <==> exists|i: int| 0 <= i < s@.len() && !is_white(#[trigger] s@[i]),
{
}

/// Words of two texts with white space between them are counted apart.
pub proof fn law_words_add_up(a: Seq<char>, w: char, b: Seq<char>)
    requires
        is_white(w),
    ensures
        word_total(a.push(w) + b) == word_total(a) + word_total(b),
    decreases b.len(),
{
    let all = a.push(w) + b;
    if b.len() == 0 {
        assert(all =~= a.push(w));
        assert(all.drop_last() =~= a);
        assert(all.last() == w);
    } else {
        assert(all.drop_last() =~= a.push(w) + b.drop_last());
        law_words_add_up(a, w, b.drop_last());
        assert(all.last() == b.last());
        if b.len() > 1 {
            assert(all[all.len() - 2] == b[b.len() - 2]);
        } else {
            assert(all[all.len() - 2] == w);
        }
    }
}

/// A text that is visible throughout is one word.
pub proof fn law_a_visible_run_is_one_word(s: Seq<char>)
    requires
        s.len() > 0,
        forall|i: int| 0 <= i < s.len() ==> !is_white(#[trigger] s[i]),
    ensures
        word_total(s) == 1,
    decreases s.len(),
{
    if s.len() > 1 {
        let shorter = s.drop_last();
        assert forall|i: int| 0 <= i < shorter.len() implies !is_white(#[trigger] shorter[i]) by {
            assert(shorter[i] == s[i]);
        }
        law_a_visible_run_is_one_word(shorter);
        assert(!is_white(s[s.len() - 2]));
    } else {
        assert(word_total(s.drop_last()) == 0);
        assert(!is_white(s[0]));
    }
}

/// A text has a word exactly when it is not blank.
pub proof fn law_only_blank_texts_have_no_word(s: Seq<char>)
    ensures
        word_total(s) == 0 <==> blank(s),
    decreases s.len(),
{
    if s.len() > 0 {
        let shorter = s.drop_last();
        law_only_blank_texts_have_no_word(shorter);
        assert forall|i: int| 0 <= i < shorter.len() implies #[trigger] shorter[i] == s[i] by {}
        if blank(s) {
            assert forall|i: int| 0 <= i < shorter.len() implies is_white(#[trigger] shorter[i]) by {
                assert(is_white(s[i]));
            }
            assert(is_white(s[s.len() - 1]));
        } else if blank(shorter) {
            assert forall|i: int| 0 <= i < s.len() - 1 implies is_white(#[trigger] s[i]) by {
                assert(is_white(shorter[i]));
            }
            if s.len() > 1 {
                assert(is_white(s[s.len() - 2]));
            }
        }
    }
}

/// The words that are counted are those of the text.
pub proof fn law_count_words(s: &str, r: usize)
    requires
        call_ensures(count_words, (s,), r),
    ensures
        r == 0 <==> blank(s@),
        s@.len() > 0 && (forall|i: int| 0 <= i < s@.len() ==> !is_white(#[trigger] s@[i])) ==> r
            == 1,
        forall|a: Seq<char>, w: char, b: Seq<char>|
            s@ == #[trigger] (a.push(w) + b) && is_white(w) ==> r == word_total(a) + word_total(b),
{
    law_only_blank_texts_have_no_word(s@);
    if s@.len() > 0 && (forall|i: int| 0 <= i < s@.len() ==> !is_white(#[trigger] s@[i])) {
        law_a_visible_run_is_one_word(s@);
    }
    assert forall|a: Seq<char>, w: char, b: Seq<char>|
        s@ == #[trigger] (a.push(w) + b) && is_white(w) implies r == word_total(a) + word_total(
        b,
    ) by {
        law_words_add_up(a, w, b);
    }
}

/// Texts are joined one after the other, with the separator between them and
/// nowhere else.
pub proof fn law_joined_one_by_one(parts: Seq<Seq<char>>, more: Seq<char>, sep: Seq<char>)
    ensures
        joined(Seq::empty(), sep).len() == 0,
        joined(parts.push(more), sep) == (if parts.len() == 0 {
            more
        } else {
            joined(parts, sep) + sep + more
        }),
{
    assert(parts.push(more).drop_last() =~= parts);
}

/// Every text that is joined stands whole in the result.
pub proof fn law_joined_holds_every_part(parts: Seq<Seq<char>>, sep: Seq<char>, i: int)
    requires
        0 <= i < parts.len(),
    ensures
        exists|a: Seq<char>, b: Seq<char>| joined(parts, sep) == #[trigger] (a + parts[i] + b),
    decreases parts.len(),
{
    if i == parts.len() - 1 {
        if parts.len() == 1 {
            let none = Seq::<char>::empty();
            assert(joined(parts, sep) =~= none + parts[i] + none);
        } else {
            let a = joined(parts.drop_last(), sep) + sep;
            assert(joined(parts, sep) =~= a + parts[i] + Seq::<char>::empty());
        }
    } else {
        law_joined_holds_every_part(parts.drop_last(), sep, i);
        assert(parts.drop_last()[i] == parts[i]);
        let (a, b) = choose|a: Seq<char>, b: Seq<char>|
            joined(parts.drop_last(), sep) == #[trigger] (a + parts[i] + b);
        assert(joined(parts, sep) =~= a + parts[i] + (b + sep + parts.last()));
    }
}

/// Joining holds every text that is given.
pub proof fn law_join(parts: &Vec<String>, sep: &str, r: String, i: int)
    requires
        call_ensures(join, (parts, sep), r),
    ensures
        parts@.len() == 0 ==> r@.len() == 0,
        parts@.len() == 1 ==> r@ == parts@[0]@,
        parts@.len() == 2 ==> r@ == parts@[0]@ + sep@ + parts@[1]@,
        0 <= i < parts@.len() ==> exists|a: Seq<char>, b: Seq<char>|
            r@ == #[trigger] (a + parts@[i]@ + b),
{
    let all = seq_views(parts@);
    if 0 <= i < parts@.len() {
        law_joined_holds_every_part(all, sep@, i);
    }
    if parts@.len() == 2 {
        assert(all.drop_last().len() == 1);
        assert(all.drop_last()[0] == parts@[0]@);
        assert(joined(all.drop_last(), sep@) == parts@[0]@);
        assert(all.last() == parts@[1]@);
    }
}

/// The worth of a row of decimal digits.
pub open spec fn worth(s: Seq<char>) -> int
    decreases s.len(),
{
    if s.len() == 0 {
        0
    } else {
        worth(s.drop_last()) * 10 + (s.last() as int - '0' as int)
    }
}

/// A number is written in decimal digits that are worth it, without a leading
/// zero.
pub proof fn law_decimal_is_worth_the_number(n: nat)
    ensures
        worth(decimal(n)) == n,
        decimal(n).len() > 0,
        forall|i: int| 0 <= i < decimal(n).len() ==> '0' <= #[trigger] decimal(n)[i] <= '9',
        n > 0 ==> decimal(n)[0] != '0',
    decreases n,
{
    if n < 10 {
        let s = seq![digit(n)];
        assert(s.drop_last() =~= Seq::<char>::empty());
        assert(worth(s.drop_last()) == 0);
        assert(decimal(n) == s);
    } else {
        law_decimal_is_worth_the_number(n / 10);
        let s = decimal(n / 10).push(digit(n % 10));
        assert(s.drop_last() =~= decimal(n / 10));
        assert(decimal(n) == s);
        assert forall|i: int| 0 <= i < s.len() implies '0' <= #[trigger] s[i] <= '9' by {
            if i < s.len() - 1 {
                assert(s[i] == decimal(n / 10)[i]);
            }
        }
        assert(s[0] == decimal(n / 10)[0]);
    }
}

/// A number that is rendered is worth itself.
pub proof fn law_decimal_text(n: u64, r: String)
    requires
        call_ensures(decimal_text, (n,), r),
    ensures
        worth(r@) == n,
        r@.len() > 0,
        forall|i: int| 0 <= i < r@.len() ==> '0' <= #[trigger] r@[i] <= '9',
        n > 0 ==> r@[0] != '0',
{
    law_decimal_is_worth_the_number(n as nat);
}

/// A text is cut in two without loss: the beginning is as long as asked for, or
/// is the whole text.
pub proof fn law_take_and_skip(s: &str, n: usize, start: String, rest: String)
    requires
        call_ensures(take_chars, (s, n), start),
        call_ensures(skip_chars, (s, n), rest),
    ensures
        start@ + rest@ == s@,
        start@.len() <= n,
        rest@.len() > 0 ==> start@.len() == n,
{
    assert(start@ + rest@ =~= s@);
}

/// Trimming takes white space from the ends, all of it and nothing else.
pub proof fn law_trimmed_loses_white_ends_only(s: Seq<char>)
    ensures
        exists|a: Seq<char>, b: Seq<char>|
            s == #[trigger] (a + trimmed(s) + b) && blank(a) && blank(b),
        trimmed(s).len() > 0 ==> !is_white(trimmed(s).first()) && !is_white(trimmed(s).last()),
    decreases s.len(),
{
    let none = Seq::<char>::empty();
    if s.len() > 0 && is_white(s.first()) {
        let rest = s.drop_first();
        law_trimmed_loses_white_ends_only(rest);
        let (a, b) = choose|a: Seq<char>, b: Seq<char>|
            rest == #[trigger] (a + trimmed(rest) + b) && blank(a) && blank(b);
        let longer = seq![s.first()] + a;
        let core = trimmed(rest);
        assert(trimmed(s) == core);
        assert(s =~= seq![s.first()] + rest);
        assert(s =~= longer + core + b);
        assert forall|i: int| 0 <= i < longer.len() implies is_white(#[trigger] longer[i]) by {
            if i > 0 {
                assert(longer[i] == a[i - 1]);
            }
        }
    } else if s.len() > 0 && is_white(s.last()) {
        let rest = s.drop_last();
        law_trimmed_loses_white_ends_only(rest);
        let (a, b) = choose|a: Seq<char>, b: Seq<char>|
            rest == #[trigger] (a + trimmed(rest) + b) && blank(a) && blank(b);
        let longer = b.push(s.last());
        let core = trimmed(rest);
        assert(trimmed(s) == core);
        assert(s =~= rest.push(s.last()));
        assert(s =~= a + core + longer);
        assert forall|i: int| 0 <= i < longer.len() implies is_white(#[trigger] longer[i]) by {
            if i < b.len() {
                assert(longer[i] == b[i]);
            }
        }
    } else {
        assert(s =~= none + s + none);
        assert(trimmed(s) == s);
    }
}

/// Trimming a text.
pub proof fn law_trim(s: &str, r: String)
    requires
        call_ensures(trim, (s,), r),
    ensures
        exists|a: Seq<char>, b: Seq<char>| s@ == #[trigger] (a + r@ + b) && blank(a) && blank(b),
        r@.len() > 0 ==> !is_white(r@.first()) && !is_white(r@.last()),
{
    law_trimmed_loses_white_ends_only(s@);
}

} // verus!
