//! Assembling prompt context under a token budget. Tokens are approximated by
//! four characters each: close enough to keep a budget; exact counts come from
//! the provider.

use vstd::prelude::*;
use crate::text::concat2;
use crate::text::concat3;
use crate::text::join;
use crate::text::joined;
use crate::text::take_chars;
use crate::views::seq_views;

verus! {

/// The tokens that a number of characters stands for, rounded up.
pub open spec fn tokens_of(chars: nat) -> nat {
    (chars + 3) / 4
}

/// Approximate token count of a text.
pub fn approx_tokens(text: &str) -> (r: usize)
    ensures
        r as nat == tokens_of(text@.len()),
{
    let n: usize = text.unicode_len();
    if n % 4 == 0 {
        n / 4
    } else {
        n / 4 + 1
    }
}

/// One named block of prompt context with its own budget.
pub struct ContextSection {
    pub title: String,
    pub content: String,
    pub budget_tokens: usize,
}

/// The mathematical counterpart of [`ContextSection`].
pub struct SectionView {
    pub title: Seq<char>,
    pub content: Seq<char>,
    pub budget_tokens: nat,
}

impl View for ContextSection {
    type V = SectionView;

    open spec fn view(&self) -> SectionView {
        SectionView {
            title: self.title@,
            content: self.content@,
            budget_tokens: self.budget_tokens as nat,
        }
    }
}

/// The assembled prompt context.
pub struct AssembledContext {
    pub text: String,
    pub approx_tokens: usize,
    /// Titles of the sections that had to be cut.
    pub truncated_sections: Vec<String>,
}

/// The section is larger than its budget.
pub open spec fn over_budget(s: SectionView) -> bool {
    s.content.len() > s.budget_tokens * 4
}

/// The content as far as the budget allows, marked where it was cut.
pub open spec fn cut_content(s: SectionView) -> Seq<char> {
    if over_budget(s) {
        s.content.take((s.budget_tokens * 4) as int) + "\n…[truncated]"@
    } else {
        s.content
    }
}

/// How a section is rendered.
pub open spec fn section_text(s: SectionView) -> Seq<char> {
    "## "@ + s.title + "\n"@ + cut_content(s)
}

/// The rendered sections; an empty one is left out.
pub open spec fn section_texts_of(sections: Seq<SectionView>) -> Seq<Seq<char>>
    decreases sections.len(),
{
    if sections.len() == 0 {
        Seq::empty()
    } else if sections.last().content.len() == 0 {
        section_texts_of(sections.drop_last())
    } else {
        section_texts_of(sections.drop_last()).push(section_text(sections.last()))
    }
}

/// The titles of the sections that are cut.
pub open spec fn cut_titles(sections: Seq<SectionView>) -> Seq<Seq<char>>
    decreases sections.len(),
{
    if sections.len() == 0 {
        Seq::empty()
    } else if over_budget(sections.last()) {
        cut_titles(sections.drop_last()).push(sections.last().title)
    } else {
        cut_titles(sections.drop_last())
    }
}

/// The whole prompt context.
pub open spec fn assembled_text(sections: Seq<SectionView>) -> Seq<char> {
    joined(section_texts_of(sections), "\n\n"@)
}

/// The characters that a budget allows. No text is longer than the largest
/// count there is.
pub(crate) fn budget_chars_of(tokens: usize) -> (r: usize)
    ensures
        r == (if tokens * 4 > usize::MAX {
            usize::MAX as int
        } else {
            tokens * 4
        }),
{
    if tokens <= usize::MAX / 4 {
        tokens * 4
    } else {
        usize::MAX
    }
}

/// Assembles prompt context.
pub struct ContextAssembler;

impl ContextAssembler {
    /// Renders each section under a heading, cut to its own budget with a
    /// marker. Empty sections are left out.
    pub fn assemble(sections: &[ContextSection]) -> (r: AssembledContext)
        ensures
            r.text@ == assembled_text(seq_views(sections@)),
            r.approx_tokens as nat == tokens_of(r.text@.len()),
            seq_views(r.truncated_sections@) == cut_titles(seq_views(sections@)),
    {
        let ghost all = seq_views(sections@);
        let mut parts: Vec<String> = Vec::new();
        let mut truncated: Vec<String> = Vec::new();
        let mut i: usize = 0;
        assert(seq_views(parts@) =~= section_texts_of(all.take(0)));
        assert(seq_views(truncated@) =~= cut_titles(all.take(0)));
        while i < sections.len()
            invariant
                i <= sections.len(),
                all == seq_views(sections@),
                seq_views(parts@) == section_texts_of(all.take(i as int)),
                seq_views(truncated@) == cut_titles(all.take(i as int)),
            decreases sections.len() - i,
        {
            let section = &sections[i];
            let ghost p = parts@;
            let ghost t = truncated@;
            proof {
                assert(all.take(i + 1).drop_last() =~= all.take(i as int));
                assert(all.take(i + 1).last() == section@);
            }
            if !section.content.as_str().is_empty() {
                let budget_chars: usize = budget_chars_of(section.budget_tokens);
                let content = if section.content.as_str().unicode_len() > budget_chars {
                    truncated.push(section.title.clone());
                    let cut = take_chars(section.content.as_str(), budget_chars);
                    let out = concat2(cut.as_str(), "\n…[truncated]");
                    assert(over_budget(section@));
                    assert(seq_views(truncated@) =~= seq_views(t).push(section@.title));
                    out
                } else {
                    assert(!over_budget(section@));
                    section.content.clone()
                };
                let mut part = concat3("## ", section.title.as_str(), "\n");
                part.append(content.as_str());
                parts.push(part);
                assert(seq_views(parts@) =~= seq_views(p).push(section_text(section@)));
            }
            i = i + 1;
        }
        assert(all.take(all.len() as int) =~= all);
        let text = join(&parts, "\n\n");
        AssembledContext {
            approx_tokens: approx_tokens(text.as_str()),
            text,
            truncated_sections: truncated,
        }
    }
}

/// What is kept of a section is the beginning of its content and fits the
/// budget; a section within its budget is kept whole.
pub proof fn law_sections_fit_their_budget(s: SectionView)
    ensures
        over_budget(s) ==> exists|kept: Seq<char>| #[trigger]
            kept.is_prefix_of(s.content) && kept.len() == s.budget_tokens * 4 && cut_content(s)
                == kept + "\n…[truncated]"@,
        !over_budget(s) ==> cut_content(s) == s.content,
{
    if over_budget(s) {
        let kept = s.content.take((s.budget_tokens * 4) as int);
        assert(kept.is_prefix_of(s.content));
    }
}

} // verus!
