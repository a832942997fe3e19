//! The whole build: every page of the site with the route it is written to.

use vstd::prelude::*;
use crate::assets::AssetResolver;
use crate::content::{
    article_of, articles, date_sorted, lemma_only_dated_non_drafts, included_articles, is_untitled, publication_date_of,
    publication_dates, selection_result, Article, BuildError, SourceDocument,
};
use crate::html::{tree_of, Node, Tree};
use crate::pages::{
    article_list, article_page, article_trees, home_trees, index, layout, layout_tree, list_trees,
    standalone_page, standalone_trees, SiteConfig, StandalonePage,
};
use crate::route::{article_url, route_url, Route};

verus! {

/// A composed page and where it goes.
pub struct OutputPage {
    pub route: Route,
    pub root: Node,
}

impl OutputPage {
    /// The file the page is written to, relative to the output root.
    pub fn file(&self) -> (r: String)
        requires
            self.route.wf(),
        ensures
            r@ == crate::route::route_file(self.route),
    {
        self.route.file()
    }
}

pub open spec fn article_route_of(a: Article) -> Route {
    Route::Article { year: a.date.year, week: a.date.week_number(), slug: a.slug }
}

pub open spec fn article_entry<R: AssetResolver>(c: SiteConfig, assets: R, a: Article) -> (
    Route,
    Tree,
) {
    (article_route_of(a), layout_tree(c, assets, article_trees(a)))
}

pub open spec fn page_entry<R: AssetResolver>(c: SiteConfig, assets: R, p: StandalonePage) -> (
    Route,
    Tree,
) {
    (Route::Page { slug: p.slug }, layout_tree(c, assets, standalone_trees(p)))
}

/// Every page of the site: the home page, the article listing, each
/// article in the given order, then each standalone page.
pub open spec fn site_pages<R: AssetResolver>(
    c: SiteConfig,
    assets: R,
    articles: Seq<Article>,
    pages: Seq<StandalonePage>,
) -> Seq<(Route, Tree)> {
    seq![
        (Route::Home, layout_tree(c, assets, home_trees(c, articles))),
        (Route::ArticleList, layout_tree(c, assets, list_trees(articles))),
    ] + articles.map_values(|a: Article| article_entry(c, assets, a)) + pages.map_values(
        |p: StandalonePage| page_entry(c, assets, p),
    )
}

pub open spec fn pages_view(ps: Seq<OutputPage>) -> Seq<(Route, Tree)> {
    ps.map_values(|p: OutputPage| (p.route, tree_of(p.root)))
}

pub open spec fn page_of(d: SourceDocument) -> StandalonePage {
    StandalonePage { slug: d.slug, title: d.title->0, body: d.body }
}

/// The outcome of reading standalone pages: the first untitled document is
/// an error, else every document is a page.
pub open spec fn pages_result(docs: Seq<SourceDocument>, r: Result<Seq<StandalonePage>, BuildError>) -> bool {
    match r {
        Ok(v) => (forall|i: int| 0 <= i < docs.len() ==> (#[trigger] docs[i]).title is Some)
            && v == docs.map_values(|d: SourceDocument| page_of(d)),
        Err(e) => exists|i: int|
            0 <= i < docs.len() && docs[i].title is None && (forall|j: int|
                0 <= j < i ==> (#[trigger] docs[j]).title is Some) && e == (BuildError::MissingTitle {
                slug: docs[i].slug,
            }),
    }
}

/// The standalone pages, one for each document; every one needs a title.
pub fn standalone_pages(docs: &Vec<SourceDocument>) -> (r: Result<Vec<StandalonePage>, BuildError>)
    ensures
        pages_result(
            docs@,
            match r {
                Ok(v) => Ok(v@),
                Err(e) => Err(e),
            },
        ),
{
    let mut out: Vec<StandalonePage> = Vec::new();
    let mut i: usize = 0;
    while i < docs.len()
        invariant
            i <= docs.len(),
            forall|k: int| 0 <= k < i ==> (#[trigger] docs[k]).title is Some,
            out@ =~= docs@.take(i as int).map_values(|d: SourceDocument| page_of(d)),
        decreases docs.len() - i,
    {
        let doc = &docs[i];
        match &doc.title {
            Some(title) => {
                out.push(
                    StandalonePage {
                        slug: doc.slug.clone(),
                        title: title.clone(),
                        body: doc.body.clone(),
                    },
                );
                proof {
                    assert(docs@.take(i + 1) =~= docs@.take(i as int).push(docs@[i as int]));
                }
            },
            None => {
                return Err(BuildError::MissingTitle { slug: doc.slug.clone() });
            },
        }
        i = i + 1;
    }
    proof {
        assert(docs@.take(i as int) =~= docs@);
    }
    Ok(out)
}

/// Composes every page of the site.
pub fn render_site<R: AssetResolver>(
    config: &SiteConfig,
    assets: &R,
    articles: &Vec<Article>,
    pages: &Vec<StandalonePage>,
) -> (r: Vec<OutputPage>)
    requires
        forall|i: int| 0 <= i < articles.len() ==> articles[i].wf(),
    ensures
        pages_view(r@) == site_pages(*config, *assets, articles@, pages@),
        forall|i: int| 0 <= i < r.len() ==> (#[trigger] r[i]).route.wf(),
{
    let mut out: Vec<OutputPage> = Vec::new();
    out.push(OutputPage { route: Route::Home, root: layout(config, assets, index(config, articles)) });
    out.push(
        OutputPage { route: Route::ArticleList, root: layout(config, assets, article_list(articles)) },
    );
    let ghost head = seq![
        (Route::Home, layout_tree(*config, *assets, home_trees(*config, articles@))),
        (Route::ArticleList, layout_tree(*config, *assets, list_trees(articles@))),
    ];
    proof {
        assert(pages_view(out@) =~= head);
    }
    let mut i: usize = 0;
    while i < articles.len()
        invariant
            i <= articles.len(),
            forall|k: int| 0 <= k < articles.len() ==> articles[k].wf(),
            forall|k: int| 0 <= k < out.len() ==> (#[trigger] out[k]).route.wf(),
            pages_view(out@) =~= head + articles@.take(i as int).map_values(
                |a: Article| article_entry(*config, *assets, a),
            ),
        decreases articles.len() - i,
    {
        let a = &articles[i];
        let route = Route::for_article(a);
        let page = OutputPage { route, root: layout(config, assets, article_page(a)) };
        let ghost before = out@;
        out.push(page);
        proof {
            assert(pages_view(out@) =~= pages_view(before).push(
                article_entry(*config, *assets, articles@[i as int]),
            ));
            assert(articles@.take(i + 1) =~= articles@.take(i as int).push(articles@[i as int]));
        }
        i = i + 1;
    }
    let ghost middle = head + articles@.map_values(|a: Article| article_entry(*config, *assets, a));
    proof {
        assert(articles@.take(i as int) =~= articles@);
    }
    let mut j: usize = 0;
    while j < pages.len()
        invariant
            j <= pages.len(),
            forall|k: int| 0 <= k < out.len() ==> (#[trigger] out[k]).route.wf(),
            pages_view(out@) =~= middle + pages@.take(j as int).map_values(
                |p: StandalonePage| page_entry(*config, *assets, p),
            ),
        decreases pages.len() - j,
    {
        let p = &pages[j];
        let page = OutputPage {
            route: Route::Page { slug: p.slug.clone() },
            root: layout(config, assets, standalone_page(p)),
        };
        let ghost before = out@;
        out.push(page);
        proof {
            assert(pages_view(out@) =~= pages_view(before).push(
                page_entry(*config, *assets, pages@[j as int]),
            ));
            assert(pages@.take(j + 1) =~= pages@.take(j as int).push(pages@[j as int]));
        }
        j = j + 1;
    }
    proof {
        assert(pages@.take(j as int) =~= pages@);
    }
    out
}

/// The corpus of articles drawn from the article documents.
pub open spec fn corpus(docs: Seq<SourceDocument>) -> Seq<Article> {
    date_sorted(included_articles(docs, publication_dates(docs)))
}

/// Builds the site from the configuration, the asset resolver, the
/// processed article documents and the processed standalone documents.
pub fn build_site<R: AssetResolver>(
    config: &SiteConfig,
    assets: &R,
    article_docs: &Vec<SourceDocument>,
    page_docs: &Vec<SourceDocument>,
) -> (r: Result<Vec<OutputPage>, BuildError>)
    ensures
        match r {
            Ok(v) => {
                &&& forall|i: int| !is_untitled(article_docs@, publication_dates(article_docs@), i)
                &&& pages_result(page_docs@, Ok(page_docs@.map_values(|d: SourceDocument| page_of(d))))
                &&& pages_view(v@) == site_pages(
                    *config,
                    *assets,
                    corpus(article_docs@),
                    page_docs@.map_values(|d: SourceDocument| page_of(d)),
                )
                &&& forall|i: int| 0 <= i < v.len() ==> (#[trigger] v[i]).route.wf()
            },
            Err(e) => selection_result(article_docs@, publication_dates(article_docs@), Err(e)) || (
            (forall|i: int| !is_untitled(article_docs@, publication_dates(article_docs@), i))
                && pages_result(page_docs@, Err(e))),
        },
{
    let corpus = articles(article_docs)?;
    let pages = standalone_pages(page_docs)?;
    Ok(render_site(config, assets, &corpus, &pages))
}

/// Each article page is written under `/{year:04}/{iso_week:02}/{slug}/` of
/// its article, and that article is drawn from a document that is no draft
/// and whose date reads as a date.
pub proof fn lemma_article_pages<R: AssetResolver>(
    c: SiteConfig,
    assets: R,
    docs: Seq<SourceDocument>,
    pages: Seq<StandalonePage>,
)
    ensures
        forall|k: int|
            #![trigger corpus(docs)[k]]
            0 <= k < corpus(docs).len() ==> {
                let route = site_pages(c, assets, corpus(docs), pages)[2 + k].0;
                &&& route == article_route_of(corpus(docs)[k])
                &&& route_url(route) == article_url(corpus(docs)[k])
                &&& exists|i: int|
                    0 <= i < docs.len() && !docs[i].draft && docs[i].date is Some
                        && publication_date_of(docs[i]) is Some && corpus(docs)[k] == article_of(
                        docs[i],
                        publication_date_of(docs[i])->0,
                    )
            },
{
    lemma_only_dated_non_drafts(docs);
    let site = site_pages(c, assets, corpus(docs), pages);
    assert forall|k: int| 0 <= k < corpus(docs).len() implies site[2 + k].0 == article_route_of(
        corpus(docs)[k],
    ) && route_url(site[2 + k].0) == article_url(corpus(docs)[k]) by {
        assert(route_url(article_route_of(corpus(docs)[k])) =~= article_url(corpus(docs)[k]));
    }
}

/// Building twice from unchanged inputs composes the same pages under the
/// same routes: what `build_site` returns is determined by its inputs.
pub proof fn lemma_build_repeatable<R: AssetResolver>(
    c: SiteConfig,
    assets: R,
    article_docs: Seq<SourceDocument>,
    page_docs: Seq<SourceDocument>,
    first: Seq<OutputPage>,
    second: Seq<OutputPage>,
)
    requires
        pages_view(first) == site_pages(
            c,
            assets,
            corpus(article_docs),
            page_docs.map_values(|d: SourceDocument| page_of(d)),
        ),
        pages_view(second) == site_pages(
            c,
            assets,
            corpus(article_docs),
            page_docs.map_values(|d: SourceDocument| page_of(d)),
        ),
    ensures
        first.len() == second.len(),
        forall|i: int|
            0 <= i < first.len() ==> (#[trigger] first[i]).route == second[i].route && tree_of(
                first[i].root,
            ) == tree_of(second[i].root),
{
    assert(pages_view(first).len() == first.len());
    assert(pages_view(second).len() == second.len());
    assert forall|i: int| 0 <= i < first.len() implies (#[trigger] first[i]).route == second[i].route
        && tree_of(first[i].root) == tree_of(second[i].root) by {
        assert(pages_view(first)[i] == pages_view(second)[i]);
    }
}

/// The text of an output file: the document type declaration, then the
/// serialised page.
pub fn html_document(serialized: &str) -> (r: String)
    ensures
        r@ == "<!DOCTYPE html>\n"@ + serialized@,
{
    let mut r = String::from_str("<!DOCTYPE html>\n");
    r.append(serialized);
    r
}

} // verus!
