//! From processed documents to the article corpus: which documents are
//! published as articles, and in what order.

use vstd::prelude::*;
use crate::date::{parsed_date, CalendarDate};

verus! {

broadcast use vstd::seq_lib::group_to_multiset_ensures;

/// A source file after the document processor has run on it.
#[derive(Clone, Debug, PartialEq, Eq)]
pub struct SourceDocument {
    /// The file's base name without its extension.
    pub slug: String,
    pub title: Option<String>,
    /// The date as written in the metadata, unparsed.
    pub date: Option<String>,
    pub draft: bool,
    /// The body, rendered by the document processor.
    pub body: String,
    /// The summary, rendered by the document processor.
    pub summary: Option<String>,
}

/// A published article: a titled, non-draft document with a valid date.
#[derive(Clone, Debug, PartialEq, Eq)]
pub struct Article {
    pub slug: String,
    pub title: String,
    pub date: CalendarDate,
    pub body: String,
    pub summary: Option<String>,
}

#[derive(Clone, Debug, PartialEq, Eq)]
pub enum BuildError {
    /// A document that has to be published carries no title.
    MissingTitle { slug: String },
}

pub fn copy_text(s: &Option<String>) -> (r: Option<String>)
    ensures
        r == *s,
{
    match s {
        Some(t) => Some(t.clone()),
        None => None,
    }
}

impl Article {
    pub open spec fn wf(&self) -> bool {
        self.date.wf()
    }

    pub fn duplicate(&self) -> (r: Article)
        ensures
            r == *self,
    {
        Article {
            slug: self.slug.clone(),
            title: self.title.clone(),
            date: self.date,
            body: self.body.clone(),
            summary: copy_text(&self.summary),
        }
    }
}

/// The date a document is published under: its metadata date, if that reads
/// as a date.
pub open spec fn publication_date_of(doc: SourceDocument) -> Option<CalendarDate> {
    match doc.date {
        Some(text) => match parsed_date(text@) {
            Some(t) => Some(CalendarDate { year: t.0 as i32, month: t.1 as u8, day: t.2 as u8 }),
            None => None,
        },
        None => None,
    }
}

pub open spec fn publication_dates(docs: Seq<SourceDocument>) -> Seq<Option<CalendarDate>> {
    docs.map_values(|d: SourceDocument| publication_date_of(d))
}

pub open spec fn date_ok(date: Option<CalendarDate>) -> bool {
    date matches Some(d) ==> d.wf()
}

/// A document is published as an article when it is no draft and has a date.
pub open spec fn is_included(doc: SourceDocument, date: Option<CalendarDate>) -> bool {
    !doc.draft && date is Some
}

pub open spec fn article_of(doc: SourceDocument, date: CalendarDate) -> Article {
    Article {
        slug: doc.slug,
        title: doc.title->0,
        date,
        body: doc.body,
        summary: doc.summary,
    }
}

/// The articles drawn from `docs`, whose dates are `dates`, in input order.
pub open spec fn included_articles(
    docs: Seq<SourceDocument>,
    dates: Seq<Option<CalendarDate>>,
) -> Seq<Article>
    decreases docs.len(),
{
    if docs.len() == 0 {
        Seq::empty()
    } else {
        let n = docs.len() - 1;
        let prev = included_articles(docs.take(n), dates.take(n));
        if is_included(docs[n], dates[n]) {
            prev.push(article_of(docs[n], dates[n]->0))
        } else {
            prev
        }
    }
}

/// Document `i` is to be published but has no title.
pub open spec fn is_untitled(
    docs: Seq<SourceDocument>,
    dates: Seq<Option<CalendarDate>>,
    i: int,
) -> bool {
    0 <= i < docs.len() && is_included(docs[i], dates[i]) && docs[i].title is None
}

/// The outcome of selecting articles: the first untitled publishable
/// document is an error, else the included articles in input order.
pub open spec fn selection_result(
    docs: Seq<SourceDocument>,
    dates: Seq<Option<CalendarDate>>,
    r: Result<Seq<Article>, BuildError>,
) -> bool {
    match r {
        Ok(v) => (forall|i: int| !is_untitled(docs, dates, i)) && v == included_articles(
            docs,
            dates,
        ),
        Err(e) => exists|i: int|
            is_untitled(docs, dates, i) && (forall|j: int| 0 <= j < i ==> !is_untitled(docs, dates, j))
                && e == (BuildError::MissingTitle { slug: docs[i].slug }),
    }
}

pub open spec fn sorted_by_date(s: Seq<Article>) -> bool {
    forall|i: int, j: int| 0 <= i < j < s.len() ==> s[i].date.key() <= s[j].date.key()
}

/// `a` placed after every article of `s` dated no later than it.
pub open spec fn insert_by_date(s: Seq<Article>, a: Article) -> Seq<Article>
    decreases s.len(),
{
    if s.len() == 0 {
        seq![a]
    } else if s.last().date.key() <= a.date.key() {
        s.push(a)
    } else {
        insert_by_date(s.drop_last(), a).push(s.last())
    }
}

/// The articles in ascending date order; articles of the same date keep
/// their relative order.
pub open spec fn date_sorted(s: Seq<Article>) -> Seq<Article>
    decreases s.len(),
{
    if s.len() == 0 {
        s
    } else {
        insert_by_date(date_sorted(s.drop_last()), s.last())
    }
}

proof fn lemma_insert_at(s: Seq<Article>, a: Article, p: int)
    requires
        sorted_by_date(s),
        0 <= p <= s.len(),
        forall|k: int| 0 <= k < p ==> s[k].date.key() <= a.date.key(),
        forall|k: int| p <= k < s.len() ==> s[k].date.key() > a.date.key(),
    ensures
        insert_by_date(s, a) == s.insert(p, a),
    decreases s.len(),
{
    if s.len() == 0 {
        assert(s.insert(p, a) =~= seq![a]);
    } else if s.last().date.key() <= a.date.key() {
        assert(s.insert(p, a) =~= s.push(a));
    } else {
        let t = s.drop_last();
        lemma_insert_at(t, a, p);
        assert(s.insert(p, a) =~= t.insert(p, a).push(s.last()));
    }
}

proof fn lemma_insert_multiset(s: Seq<Article>, a: Article)
    ensures
        insert_by_date(s, a).to_multiset() == s.to_multiset().insert(a),
    decreases s.len(),
{
    if s.len() == 0 {
        assert(seq![a] =~= Seq::<Article>::empty().push(a));
    } else if s.last().date.key() <= a.date.key() {
    } else {
        let t = s.drop_last();
        lemma_insert_multiset(t, a);
        assert(s =~= t.push(s.last()));
        assert(insert_by_date(s, a).to_multiset() =~= s.to_multiset().insert(a));
    }
}

proof fn lemma_insert_sorted(s: Seq<Article>, a: Article)
    requires
        sorted_by_date(s),
    ensures
        sorted_by_date(insert_by_date(s, a)),
    decreases s.len(),
{
    if s.len() == 0 {
    } else if s.last().date.key() <= a.date.key() {
    } else {
        let t = s.drop_last();
        let r = insert_by_date(t, a);
        lemma_insert_sorted(t, a);
        lemma_insert_multiset(t, a);
        assert forall|k: int| 0 <= k < r.len() implies r[k].date.key() <= s.last().date.key() by {
            assert(r.to_multiset().count(r[k]) > 0);
            if r[k] != a {
                assert(t.to_multiset().count(r[k]) > 0);
                let m = choose|m: int| 0 <= m < t.len() && t[m] == r[k];
                assert(s[m] == t[m]);
            }
        }
    }
}

/// The ascending order is a sorted rearrangement of the articles.
pub proof fn lemma_date_sorted(s: Seq<Article>)
    ensures
        sorted_by_date(date_sorted(s)),
        date_sorted(s).to_multiset() == s.to_multiset(),
    decreases s.len(),
{
    if s.len() > 0 {
        let t = s.drop_last();
        lemma_date_sorted(t);
        lemma_insert_sorted(date_sorted(t), s.last());
        lemma_insert_multiset(date_sorted(t), s.last());
        assert(s =~= t.push(s.last()));
    }
}

/// The date under which `doc` would be published, if it has one that reads.
pub fn publication_date(doc: &SourceDocument) -> (r: Option<CalendarDate>)
    ensures
        r == publication_date_of(*doc),
        r matches Some(d) ==> d.wf(),
{
    match &doc.date {
        Some(text) => CalendarDate::parse(text.as_str()),
        None => None,
    }
}

/// Keeps the documents to be published as articles, given the date each
/// one reads as (`None` where it has none or it does not read).
pub fn select_articles(docs: &Vec<SourceDocument>, dates: &Vec<Option<CalendarDate>>) -> (r:
    Result<Vec<Article>, BuildError>)
    requires
        docs.len() == dates.len(),
        forall|i: int| 0 <= i < dates.len() ==> date_ok(#[trigger] dates[i]),
    ensures
        selection_result(
            docs@,
            dates@,
            match r {
                Ok(v) => Ok(v@),
                Err(e) => Err(e),
            },
        ),
        r matches Ok(v) ==> forall|i: int| 0 <= i < v.len() ==> v[i].wf(),
{
    let mut out: Vec<Article> = Vec::new();
    let mut i: usize = 0;
    while i < docs.len()
        invariant
            i <= docs.len() == dates.len(),
            forall|k: int| 0 <= k < dates.len() ==> date_ok(#[trigger] dates[k]),
            forall|k: int| 0 <= k < i ==> !is_untitled(docs@, dates@, k),
            out@ == included_articles(docs@.take(i as int), dates@.take(i as int)),
            forall|k: int| 0 <= k < out.len() ==> out[k].wf(),
        decreases docs.len() - i,
    {
        let doc = &docs[i];
        proof {
            assert(docs@.take(i + 1).take(i as int) =~= docs@.take(i as int));
            assert(dates@.take(i + 1).take(i as int) =~= dates@.take(i as int));
        }
        if !doc.draft {
            if let Some(date) = dates[i] {
                match &doc.title {
                    Some(title) => {
                        out.push(
                            Article {
                                slug: doc.slug.clone(),
                                title: title.clone(),
                                date,
                                body: doc.body.clone(),
                                summary: copy_text(&doc.summary),
                            },
                        );
                    },
                    None => {
                        proof {
                            assert(is_untitled(docs@, dates@, i as int));
                        }
                        return Err(BuildError::MissingTitle { slug: doc.slug.clone() });
                    },
                }
            }
        }
        i = i + 1;
    }
    proof {
        assert(docs@.take(i as int) =~= docs@);
        assert(dates@.take(i as int) =~= dates@);
    }
    Ok(out)
}

/// The articles in ascending date order, stable for equal dates.
pub fn sort_by_date(articles: &Vec<Article>) -> (r: Vec<Article>)
    requires
        forall|i: int| 0 <= i < articles.len() ==> articles[i].wf(),
    ensures
        r@ == date_sorted(articles@),
{
    let mut out: Vec<Article> = Vec::new();
    let mut i: usize = 0;
    while i < articles.len()
        invariant
            i <= articles.len(),
            forall|k: int| 0 <= k < articles.len() ==> articles[k].wf(),
            out@ == date_sorted(articles@.take(i as int)),
            sorted_by_date(out@),
            forall|k: int| 0 <= k < out.len() ==> out[k].wf(),
        decreases articles.len() - i,
    {
        let a = articles[i].duplicate();
        let key = a.date.key_value();
        let mut p: usize = out.len();
        while p > 0 && out[p - 1].date.key_value() > key
            invariant
                p <= out.len(),
                forall|k: int| 0 <= k < out.len() ==> out[k].wf(),
                forall|k: int| p <= k < out.len() ==> out[k].date.key() > key,
            decreases p,
        {
            p = p - 1;
        }
        proof {
            assert forall|k: int| 0 <= k < p implies out[k].date.key() <= key by {
                if k < p - 1 {
                    assert(out@[k].date.key() <= out@[p - 1].date.key());
                }
            }
            lemma_insert_at(out@, a, p as int);
            let t = articles@.take(i + 1);
            assert(t.drop_last() =~= articles@.take(i as int));
            lemma_date_sorted(t);
        }
        out.insert(p, a);
        i = i + 1;
    }
    proof {
        assert(articles@.take(i as int) =~= articles@);
    }
    out
}

/// The article corpus: the documents to be published, in ascending date
/// order, or the error for the first of them that has no title.
pub fn articles(docs: &Vec<SourceDocument>) -> (r: Result<Vec<Article>, BuildError>)
    ensures
        match r {
            Ok(v) => {
                &&& forall|i: int| !is_untitled(docs@, publication_dates(docs@), i)
                &&& v@ == date_sorted(included_articles(docs@, publication_dates(docs@)))
                &&& forall|i: int| 0 <= i < v.len() ==> v[i].wf()
            },
            Err(e) => selection_result(docs@, publication_dates(docs@), Err(e)),
        },
{
    let mut dates: Vec<Option<CalendarDate>> = Vec::new();
    let mut i: usize = 0;
    while i < docs.len()
        invariant
            i <= docs.len(),
            dates.len() == i,
            forall|k: int| 0 <= k < i ==> dates[k] == publication_date_of(docs[k]),
            forall|k: int| 0 <= k < i ==> date_ok(#[trigger] dates[k]),
        decreases docs.len() - i,
    {
        dates.push(publication_date(&docs[i]));
        i = i + 1;
    }
    proof {
        assert(dates@ =~= publication_dates(docs@));
    }
    let selected = select_articles(docs, &dates)?;
    let sorted = sort_by_date(&selected);
    proof {
        lemma_date_sorted(selected@);
        assert forall|k: int| 0 <= k < sorted.len() implies sorted[k].wf() by {
            assert(sorted@.to_multiset().count(sorted@[k]) > 0);
            assert(selected@.to_multiset().count(sorted@[k]) > 0);
            let m = choose|m: int| 0 <= m < selected.len() && selected@[m] == sorted@[k];
        }
    }
    Ok(sorted)
}

proof fn lemma_included_from(docs: Seq<SourceDocument>, dates: Seq<Option<CalendarDate>>)
    requires
        docs.len() == dates.len(),
    ensures
        forall|k: int|
            0 <= k < included_articles(docs, dates).len() ==> exists|i: int|
                0 <= i < docs.len() && is_included(docs[i], dates[i]) && #[trigger] included_articles(
                    docs,
                    dates,
                )[k] == article_of(docs[i], dates[i]->0),
    decreases docs.len(),
{
    if docs.len() > 0 {
        let n = docs.len() - 1;
        let (d, t) = (docs.take(n), dates.take(n));
        lemma_included_from(d, t);
        let prev = included_articles(d, t);
        assert forall|k: int| 0 <= k < included_articles(docs, dates).len() implies exists|i: int|
            0 <= i < docs.len() && is_included(docs[i], dates[i]) && #[trigger] included_articles(
                docs,
                dates,
            )[k] == article_of(docs[i], dates[i]->0) by {
            if k < prev.len() {
                let i = choose|i: int|
                    0 <= i < d.len() && is_included(d[i], t[i]) && #[trigger] prev[k] == article_of(
                        d[i],
                        t[i]->0,
                    );
                assert(d[i] == docs[i] && t[i] == dates[i]);
            } else {
                assert(is_included(docs[n], dates[n]));
            }
        }
    }
}

/// Only documents that are no draft and whose date reads are published:
/// every article of the corpus, and of the listing (the corpus most recent
/// first), is drawn from such a document.
pub proof fn lemma_only_dated_non_drafts(docs: Seq<SourceDocument>)
    ensures
        forall|k: int|
            0 <= k < date_sorted(included_articles(docs, publication_dates(docs))).len()
                ==> exists|i: int|
                0 <= i < docs.len() && !docs[i].draft && docs[i].date is Some
                    && publication_date_of(docs[i]) is Some && #[trigger] date_sorted(
                    included_articles(docs, publication_dates(docs)),
                )[k] == article_of(docs[i], publication_date_of(docs[i])->0),
        forall|k: int|
            0 <= k < date_sorted(included_articles(docs, publication_dates(docs))).len()
                ==> exists|i: int|
                0 <= i < docs.len() && !docs[i].draft && docs[i].date is Some
                    && publication_date_of(docs[i]) is Some && #[trigger] date_sorted(
                    included_articles(docs, publication_dates(docs)),
                ).reverse()[k] == article_of(docs[i], publication_date_of(docs[i])->0),
{
    let dates = publication_dates(docs);
    let inc = included_articles(docs, dates);
    let s = date_sorted(inc);
    lemma_included_from(docs, dates);
    lemma_date_sorted(inc);
    assert forall|k: int| 0 <= k < s.len() implies exists|i: int|
        0 <= i < docs.len() && !docs[i].draft && docs[i].date is Some && publication_date_of(docs[i]) is Some
            && #[trigger] s[k] == article_of(docs[i], publication_date_of(docs[i])->0) by {
        assert(s.to_multiset().count(s[k]) > 0);
        assert(inc.to_multiset().count(s[k]) > 0);
        let m = choose|m: int| 0 <= m < inc.len() && inc[m] == s[k];
        assert(inc[m] == s[k]);
        let i = choose|i: int|
            0 <= i < docs.len() && is_included(docs[i], dates[i]) && #[trigger] inc[m] == article_of(
                docs[i],
                dates[i]->0,
            );
        assert(dates[i] == publication_date_of(docs[i]));
    }
    assert forall|k: int| 0 <= k < s.len() implies exists|i: int|
        0 <= i < docs.len() && !docs[i].draft && docs[i].date is Some && publication_date_of(docs[i]) is Some
            && #[trigger] s.reverse()[k] == article_of(docs[i], publication_date_of(docs[i])->0) by {
        assert(s.reverse()[k] == s[s.len() - 1 - k]);
    }
}

/// Listings show the ascending date order reversed: they hold the same
/// articles, and an article dated before another comes after it.
pub proof fn lemma_listing_order(s: Seq<Article>)
    ensures
        date_sorted(s).reverse().to_multiset() == s.to_multiset(),
        forall|i: int, j: int|
            0 <= i < s.len() && 0 <= j < s.len() && (#[trigger] date_sorted(s).reverse()[i]).date.key()
                < (#[trigger] date_sorted(s).reverse()[j]).date.key() ==> j < i,
{
    lemma_date_sorted(s);
    let d = date_sorted(s);
    d.lemma_reverse_to_multiset();
    assert(d.len() == s.len()) by {
        assert(d.to_multiset().len() == s.to_multiset().len());
    }
    assert forall|i: int, j: int|
        0 <= i < s.len() && 0 <= j < s.len() && (#[trigger] d.reverse()[i]).date.key() < (
        #[trigger] d.reverse()[j]).date.key() implies j < i by {
        assert(d.reverse()[i] == d[d.len() - 1 - i]);
        assert(d.reverse()[j] == d[d.len() - 1 - j]);
    }
}

} // verus!
