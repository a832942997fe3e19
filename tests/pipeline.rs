use blogsite::assets::{AssetResolver, IdentityAssets, ManifestAssets};
use blogsite::content::{articles, publication_date, sort_by_date, Article, BuildError, SourceDocument};
use blogsite::date::CalendarDate;
use blogsite::html::Node;
use blogsite::pages::{
    article_list, article_page, article_preview, index, layout, separator, SiteConfig, Social,
    StandalonePage,
};
use blogsite::route::Route;
use blogsite::site::{build_site, html_document, standalone_pages, OutputPage};

fn render(n: &Node) -> String {
    match n {
        Node::Text(t) => t.clone(),
        Node::Markup(m) => m.clone(),
        Node::Element { tag, attributes, children } => {
            let mut s = format!("<{}", tag);
            for a in attributes {
                s.push_str(&format!(" {}=\"{}\"", a.name, a.value));
            }
            s.push('>');
            for c in children {
                s.push_str(&render(c));
            }
            s.push_str(&format!("</{}>", tag));
            s
        }
    }
}

fn render_all(ns: &[Node]) -> String {
    ns.iter().map(render).collect()
}

fn doc(slug: &str, title: Option<&str>, date: Option<&str>, draft: bool, summary: Option<&str>) -> SourceDocument {
    SourceDocument {
        slug: slug.to_string(),
        title: title.map(|t| t.to_string()),
        date: date.map(|d| d.to_string()),
        draft,
        body: format!("<p>body of {}</p>", slug),
        summary: summary.map(|s| s.to_string()),
    }
}

fn config() -> SiteConfig {
    SiteConfig {
        title: "My Blog".to_string(),
        tagline: "<em>words</em>".to_string(),
        footer: "<span>footer</span>".to_string(),
        socials: vec![Social {
            name: "Mastodon".to_string(),
            icon_name: "mastodon".to_string(),
            url: "https://example.social/@me".to_string(),
        }],
        stylesheets: vec!["style.css".to_string()],
    }
}

fn date(y: i32, m: u8, d: u8) -> CalendarDate {
    CalendarDate::new(y, m, d).unwrap()
}

fn article(slug: &str, title: &str, d: CalendarDate, summary: Option<&str>) -> Article {
    Article {
        slug: slug.to_string(),
        title: title.to_string(),
        date: d,
        body: format!("<p>body of {}</p>", slug),
        summary: summary.map(|s| s.to_string()),
    }
}

fn slugs(v: &[Article]) -> Vec<String> {
    v.iter().map(|a| a.slug.clone()).collect()
}

#[test]
fn parse_reads_calendar_dates() {
    assert_eq!(CalendarDate::parse("2024-03-15"), Some(date(2024, 3, 15)));
    assert_eq!(CalendarDate::parse("2024-02-29"), Some(date(2024, 2, 29)));
    assert_eq!(CalendarDate::parse("2023-02-29"), None);
    assert_eq!(CalendarDate::parse("2024-13-01"), None);
    assert_eq!(CalendarDate::parse("15/03/2024"), None);
    assert_eq!(CalendarDate::parse(""), None);
}

#[test]
fn new_checks_validity() {
    assert!(CalendarDate::new(2000, 2, 29).is_some());
    assert!(CalendarDate::new(1900, 2, 29).is_none());
    assert!(CalendarDate::new(2024, 4, 31).is_none());
    assert!(CalendarDate::new(2024, 0, 1).is_none());
    assert!(CalendarDate::new(10000, 1, 1).is_none());
}

#[test]
fn iso_weeks_of_known_dates() {
    assert_eq!(date(2024, 3, 15).iso_week(), 11);
    assert_eq!(date(2019, 1, 1).iso_week(), 1);
    assert_eq!(date(2019, 10, 4).iso_week(), 40);
    assert_eq!(date(2020, 12, 31).iso_week(), 53);
    assert_eq!(date(2021, 1, 1).iso_week(), 53);
    assert_eq!(date(2024, 12, 30).iso_week(), 1);
}

#[test]
fn iso_weeks_of_a_whole_year() {
    // 2024 begins on a Monday, so week n holds ordinal days 7n-6 ..= 7n,
    // and its last two days belong to week 1 of 2025.
    let lengths = [31u8, 29, 31, 30, 31, 30, 31, 31, 30, 31, 30, 31];
    let mut ordinal: u32 = 0;
    for (m, len) in lengths.iter().enumerate() {
        for d in 1..=*len {
            ordinal += 1;
            let expected = if ordinal > 364 { 1 } else { ((ordinal - 1) / 7 + 1) as u8 };
            assert_eq!(date(2024, m as u8 + 1, d).iso_week(), expected, "2024-{}-{}", m + 1, d);
        }
    }
    assert_eq!(ordinal, 366);
}

#[test]
fn date_text_is_zero_padded() {
    assert_eq!(date(2024, 3, 15).text(), "2024-03-15");
    assert_eq!(date(42, 1, 5).text(), "0042-01-05");
    assert_eq!(date(-42, 1, 5).text(), "-0042-01-05");
}

#[test]
fn routes_of_each_page_kind() {
    let a = article("hello", "Hello", date(2024, 3, 15), None);
    let r = Route::for_article(&a);
    assert_eq!(r.url(), "/2024/11/hello/");
    assert_eq!(r.file(), "2024/11/hello/index.html");
    assert_eq!(Route::Home.url(), "/");
    assert_eq!(Route::Home.file(), "index.html");
    assert_eq!(Route::ArticleList.url(), "/articles/");
    assert_eq!(Route::ArticleList.file(), "articles/index.html");
    let p = Route::Page { slug: "me".to_string() };
    assert_eq!(p.url(), "/me/");
    assert_eq!(p.file(), "me/index.html");
}

#[test]
fn route_pads_year_and_week() {
    let a = article("jan", "Jan", date(2009, 1, 7), None);
    assert_eq!(Route::for_article(&a).url(), "/2009/02/jan/");
    let old = article("old", "Old", date(987, 1, 7), None);
    assert!(Route::for_article(&old).url().starts_with("/0987/"));
}

#[test]
fn drafts_are_not_published() {
    let docs = vec![
        doc("kept", Some("Kept"), Some("2024-01-10"), false, None),
        doc("draft", Some("Draft"), Some("2024-01-11"), true, None),
    ];
    let v = articles(&docs).unwrap();
    assert_eq!(slugs(&v), vec!["kept".to_string()]);
    let site = build_site(&config(), &IdentityAssets, &docs, &Vec::new()).unwrap();
    assert_eq!(site.len(), 3);
    assert!(!render(&site[1].root).contains("Draft"));
    assert!(site.iter().all(|p| !p.route.url().contains("draft")));
}

#[test]
fn undated_and_unreadable_dates_are_not_published() {
    let docs = vec![
        doc("undated", Some("Undated"), None, false, None),
        doc("garbled", Some("Garbled"), Some("yesterday"), false, None),
        doc("dated", Some("Dated"), Some("2023-05-05"), false, None),
    ];
    let v = articles(&docs).unwrap();
    assert_eq!(slugs(&v), vec!["dated".to_string()]);
    assert_eq!(publication_date(&docs[0]), None);
    assert_eq!(publication_date(&docs[1]), None);
    assert_eq!(publication_date(&docs[2]), Some(date(2023, 5, 5)));
}

#[test]
fn untitled_drafts_are_no_error() {
    let docs = vec![doc("wip", None, Some("2024-01-01"), true, None), doc("x", None, None, false, None)];
    assert_eq!(articles(&docs), Ok(Vec::new()));
}

#[test]
fn untitled_article_is_an_error() {
    let docs = vec![
        doc("fine", Some("Fine"), Some("2024-01-01"), false, None),
        doc("nameless", None, Some("2024-01-02"), false, None),
        doc("other", None, Some("2024-01-03"), false, None),
    ];
    assert_eq!(articles(&docs), Err(BuildError::MissingTitle { slug: "nameless".to_string() }));
    assert!(build_site(&config(), &IdentityAssets, &docs, &Vec::new()).is_err());
}

#[test]
fn untitled_page_is_an_error() {
    let pages = vec![doc("me", Some("About"), None, false, None), doc("bare", None, None, false, None)];
    assert_eq!(standalone_pages(&pages), Err(BuildError::MissingTitle { slug: "bare".to_string() }));
    let r = build_site(&config(), &IdentityAssets, &Vec::new(), &pages);
    assert!(matches!(r, Err(BuildError::MissingTitle { .. })));
}

#[test]
fn articles_sorted_ascending_and_stable() {
    let docs = vec![
        doc("c", Some("C"), Some("2024-06-01"), false, None),
        doc("a", Some("A"), Some("2023-01-01"), false, None),
        doc("b1", Some("B1"), Some("2023-07-01"), false, None),
        doc("b2", Some("B2"), Some("2023-07-01"), false, None),
    ];
    let v = articles(&docs).unwrap();
    assert_eq!(slugs(&v), vec!["a", "b1", "b2", "c"]);
}

#[test]
fn sort_by_date_keeps_equal_dates_in_order() {
    let input = vec![
        article("x", "X", date(2020, 1, 2), None),
        article("y", "Y", date(2020, 1, 1), None),
        article("z", "Z", date(2020, 1, 2), None),
    ];
    assert_eq!(slugs(&sort_by_date(&input)), vec!["y", "x", "z"]);
    assert_eq!(sort_by_date(&Vec::new()), Vec::new());
}

#[test]
fn listing_is_most_recent_first() {
    let sorted = vec![
        article("first", "First", date(2021, 1, 1), None),
        article("second", "Second", date(2022, 1, 1), None),
        article("third", "Third", date(2023, 1, 1), None),
    ];
    let list = render_all(&article_list(&sorted));
    let p3 = list.find("Third").unwrap();
    let p2 = list.find("Second").unwrap();
    let p1 = list.find("First").unwrap();
    assert!(p3 < p2 && p2 < p1);
}

#[test]
fn identity_assets_resolve_under_assets() {
    assert_eq!(IdentityAssets.resolve("style.css"), "/assets/style.css");
    assert_eq!(IdentityAssets.resolve(""), "/assets/");
}

#[test]
fn manifest_assets_map_or_fall_back() {
    let m = ManifestAssets::new(vec![
        ("style.css".to_string(), "/assets/style.3f2a.css".to_string()),
        ("icons.svg".to_string(), "/assets/icons.77b0.svg".to_string()),
        ("style.css".to_string(), "/assets/ignored.css".to_string()),
    ]);
    assert_eq!(m.resolve("style.css"), "/assets/style.3f2a.css");
    assert_eq!(m.resolve("icons.svg"), "/assets/icons.77b0.svg");
    assert_eq!(m.resolve("app.js"), "/assets/app.js");
    assert_eq!(m.lookup("app.js"), None);
}

#[test]
fn layout_uses_resolver_for_sprites_and_stylesheets() {
    let m = ManifestAssets::new(vec![
        ("icons.svg".to_string(), "/static/i.svg".to_string()),
        ("style.css".to_string(), "/static/s.css".to_string()),
    ]);
    let page = render(&layout(&config(), &m, vec![Node::Text("inner".to_string())]));
    assert!(page.contains("<use href=\"/static/i.svg#mastodon\">"));
    assert!(page.contains("href=\"/static/s.css\""));
    assert!(page.contains("inner"));
    assert!(page.starts_with("<html lang=\"en\"><head><meta charset=\"utf-8\">"));
    assert!(page.contains("<title>My Blog</title>"));
    assert!(page.contains("<a href=\"/articles/\">Articles</a>"));
    assert!(page.contains("<span>footer</span>"));
}

#[test]
fn layout_omits_missing_optional_parts() {
    let mut c = config();
    c.socials.clear();
    c.stylesheets.clear();
    let page = render(&layout(&c, &IdentityAssets, Vec::new()));
    assert!(!page.contains("<link"));
    assert!(!page.contains("<svg"));
    assert!(page.contains("<span class=\"bl-separator\"></span></div></nav><footer>"));
}

#[test]
fn preview_links_to_article_route() {
    let a = article("hello", "Hello", date(2024, 3, 15), Some("<p>gist</p>"));
    let p = render(&article_preview(&a));
    assert_eq!(
        p,
        "<article class=\"bl-article-preview\"><a href=\"/2024/11/hello/\"><p>2024-03-15</p><h3>Hello</h3></a><div><p>gist</p></div></article>"
    );
    let b = article("bye", "Bye", date(2024, 3, 15), None);
    assert!(!render(&article_preview(&b)).contains("<div>"));
}

#[test]
fn article_page_with_and_without_abstract() {
    let a = article("hello", "Hello", date(2024, 3, 15), Some("<p>gist</p>"));
    let with = render_all(&article_page(&a));
    assert!(with.contains("<div class=\"bl-abstract\"><p>gist</p><p class=\"bl-separator\" role=\"presentation\">\u{25C7}</p></div>"));
    assert!(with.contains("<header><p>2024-03-15</p><h1>Hello</h1></header>"));
    let b = article("hello", "Hello", date(2024, 3, 15), None);
    assert!(!render_all(&article_page(&b)).contains("bl-abstract"));
}

#[test]
fn separator_glyph() {
    assert_eq!(render(&separator()), "<p class=\"bl-separator\" role=\"presentation\">\u{25C7}</p>");
}

#[test]
fn home_page_shows_title_tagline_and_latest() {
    let v = vec![article("a", "A", date(2024, 1, 1), None)];
    let home = render_all(&index(&config(), &v));
    assert!(home.contains("<header class=\"bl-home\"><h1>My Blog</h1><p><em>words</em></p></header>"));
    assert!(home.contains("<h2>Latest articles</h2>"));
    assert!(home.contains("/2024/01/a/"));
}

#[test]
fn single_article_scenario() {
    let docs = vec![doc("hello", Some("Hello"), Some("2024-03-15"), false, None)];
    let site = build_site(&config(), &IdentityAssets, &docs, &Vec::new()).unwrap();
    let files: Vec<String> = site.iter().map(|p| p.file()).collect();
    assert_eq!(files, vec!["index.html", "articles/index.html", "2024/11/hello/index.html"]);
    let page = render(&site[2].root);
    assert!(page.contains("<header><p>2024-03-15</p><h1>Hello</h1></header>"));
    assert!(!page.contains("bl-abstract"));
    assert!(page.contains("<title>My Blog</title>"));
}

#[test]
fn two_articles_scenario() {
    let docs = vec![
        doc("older", Some("Older"), Some("2023-01-01"), false, None),
        doc("newer", Some("Newer"), Some("2024-06-01"), false, None),
    ];
    let site = build_site(&config(), &IdentityAssets, &docs, &Vec::new()).unwrap();
    let home = render(&site[0].root);
    assert!(home.find("Newer").unwrap() < home.find("Older").unwrap());
}

#[test]
fn standalone_pages_are_routed_by_slug() {
    let pages = vec![doc("me", Some("About me"), None, true, None)];
    let site = build_site(&config(), &IdentityAssets, &Vec::new(), &pages).unwrap();
    let last: &OutputPage = site.last().unwrap();
    assert_eq!(last.file(), "me/index.html");
    let page = render(&last.root);
    assert!(page.contains("<main class=\"bl-main-wrapper\"><header><h1>About me</h1></header><p>body of me</p></main>"));
    let ps = standalone_pages(&pages).unwrap();
    assert_eq!(ps, vec![StandalonePage { slug: "me".to_string(), title: "About me".to_string(), body: "<p>body of me</p>".to_string() }]);
}

#[test]
fn building_twice_gives_identical_output() {
    let docs = vec![
        doc("b", Some("B"), Some("2024-02-02"), false, Some("<p>s</p>")),
        doc("a", Some("A"), Some("2024-01-01"), false, None),
    ];
    let pages = vec![doc("me", Some("Me"), None, false, None)];
    let one = build_site(&config(), &IdentityAssets, &docs, &pages).unwrap();
    let two = build_site(&config(), &IdentityAssets, &docs, &pages).unwrap();
    let text = |v: &Vec<OutputPage>| -> Vec<(String, String)> {
        v.iter().map(|p| (p.file(), html_document(&render(&p.root)))).collect()
    };
    assert_eq!(text(&one), text(&two));
}

#[test]
fn document_text_starts_with_doctype() {
    assert_eq!(html_document("<html></html>"), "<!DOCTYPE html>\n<html></html>");
}
