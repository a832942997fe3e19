//! Where each page is served and written.

use vstd::prelude::*;
use crate::content::Article;
use crate::date::{push_year_field, year_field};
use crate::text::{padded, push_padded};

verus! {

#[derive(Clone, Debug, PartialEq, Eq)]
pub enum Route {
    /// The home page.
    Home,
    /// The listing of all articles.
    ArticleList,
    /// An article, under the year and ISO week of its date.
    Article { year: i32, week: u8, slug: String },
    /// A standalone page.
    Page { slug: String },
}

/// The route's directory below the output root, with a trailing `/`
/// (empty for the root itself).
pub open spec fn route_dir(r: Route) -> Seq<char> {
    match r {
        Route::Home => Seq::empty(),
        Route::ArticleList => "articles/"@,
        Route::Article { year, week, slug } => year_field(year as int) + "/"@ + padded(
            week as nat,
            2,
        ) + "/"@ + slug@ + "/"@,
        Route::Page { slug } => slug@ + "/"@,
    }
}

/// The URL path the route is served under.
pub open spec fn route_url(r: Route) -> Seq<char> {
    "/"@ + route_dir(r)
}

/// The file the route is written to, relative to the output root.
pub open spec fn route_file(r: Route) -> Seq<char> {
    route_dir(r) + "index.html"@
}

/// The URL of an article: `/{year:04}/{iso_week:02}/{slug}/`.
pub open spec fn article_url(a: Article) -> Seq<char> {
    "/"@ + year_field(a.date.year as int) + "/"@ + padded(a.date.week_number() as nat, 2) + "/"@
        + a.slug@ + "/"@
}

impl Route {
    pub open spec fn wf(&self) -> bool {
        *self matches Route::Article { year, .. } ==> -9999 <= year <= 9999
    }

    /// The route of an article, from the year and ISO week of its date.
    pub fn for_article(a: &Article) -> (r: Route)
        requires
            a.wf(),
        ensures
            r.wf(),
            r == (Route::Article {
                year: a.date.year,
                week: a.date.week_number(),
                slug: a.slug,
            }),
            route_url(r) == article_url(*a),
    {
        let r = Route::Article { year: a.date.year, week: a.date.iso_week(), slug: a.slug.clone() };
        proof {
            assert(route_url(r) =~= article_url(*a));
        }
        r
    }

    fn push_dir(&self, out: &mut String)
        requires
            self.wf(),
        ensures
            final(out)@ == old(out)@ + route_dir(*self),
    {
        match self {
            Route::Home => {
                proof {
                    assert(old(out)@ + route_dir(*self) =~= old(out)@);
                }
            },
            Route::ArticleList => {
                out.append("articles/");
            },
            Route::Article { year, week, slug } => {
                push_year_field(out, *year);
                out.append("/");
                push_padded(out, *week as u32, 2);
                out.append("/");
                out.append(slug.as_str());
                out.append("/");
                proof {
                    assert(final(out)@ =~= old(out)@ + route_dir(*self));
                }
            },
            Route::Page { slug } => {
                out.append(slug.as_str());
                out.append("/");
                proof {
                    assert(final(out)@ =~= old(out)@ + route_dir(*self));
                }
            },
        }
    }

    /// The URL path the route is served under.
    pub fn url(&self) -> (r: String)
        requires
            self.wf(),
        ensures
            r@ == route_url(*self),
    {
        let mut r = String::from_str("/");
        self.push_dir(&mut r);
        r
    }

    /// The file the route is written to, relative to the output root.
    pub fn file(&self) -> (r: String)
        requires
            self.wf(),
        ensures
            r@ == route_file(*self),
    {
        let mut r = String::new();
        self.push_dir(&mut r);
        r.append("index.html");
        proof {
            assert(r@ =~= route_file(*self));
        }
        r
    }
}

} // verus!
