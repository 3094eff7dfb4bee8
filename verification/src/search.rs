//! The web search results that the chatbot is given along with a message.
use scraper::{Html, Selector};
use vstd::prelude::*;
use crate::text::{push_char, push_str, trim_end_str, trimmed_end, views};

verus! {

/// The texts of the result snippets of a search page: the text of each element that the
/// selector `article.result-default p.content` picks, in the order in which scraper's
/// `select` visits the nodes of the parsed tree (the order in which the parser created them).
pub uninterp spec fn snippet_texts(html: Seq<char>) -> Seq<Seq<char>>;

/// scraper's `Html::parse_document` of `html`, then `select` with the selector
/// `article.result-default p.content`, each picked element taken by its text
/// (`ElementRef::text`, its pieces run together). The result is named by `snippet_texts`.
/// The selector is a valid literal, so `Selector::parse` does not fail.
#[verifier::external_body]
fn result_snippets(html: &str) -> (texts: Vec<String>)
    ensures
        views(texts@) == snippet_texts(html@),
{
    let page = Html::parse_document(html);
    let selector = Selector::parse("article.result-default p.content").expect("valid selector");
    page.select(&selector).map(|e| e.text().collect::<String>()).collect()
}

/// Each text followed by a space.
pub open spec fn spaced(texts: Seq<Seq<char>>) -> Seq<char>
    decreases texts.len(),
{
    if texts.len() == 0 {
        Seq::empty()
    } else {
        spaced(texts.drop_last()) + texts.last() + seq![' ']
    }
}

/// The summary of a list of snippets: each followed by a space, trailing whitespace removed.
pub fn summarize_snippets(texts: &Vec<String>) -> (s: String)
    ensures
        s@ == trimmed_end(spaced(views(texts@))),
{
    let mut acc = String::new();
    let mut i: usize = 0;
    while i < texts.len()
        invariant
            i <= texts@.len(),
            acc@ == spaced(views(texts@).take(i as int)),
        decreases texts.len() - i,
    {
        assert(views(texts@).take(i + 1).drop_last() =~= views(texts@).take(i as int));
        assert(views(texts@).take(i + 1).last() == texts@[i as int]@);
        push_str(&mut acc, texts[i].as_str());
        push_char(&mut acc, ' ');
        i += 1;
    }
    assert(views(texts@).take(texts@.len() as int) =~= views(texts@));
    trim_end_str(acc.as_str())
}

/// What a search page says: its result snippets, each followed by a space, without trailing
/// whitespace.
pub fn search_summary(html: &str) -> (s: String)
    ensures
        s@ == trimmed_end(spaced(snippet_texts(html@))),
{
    let texts = result_snippets(html);
    summarize_snippets(&texts)
}

} // verus!
