//! Page composition: the content of each kind of page, and the layout
//! that wraps every page.

use vstd::prelude::*;
use crate::assets::AssetResolver;
use crate::content::Article;
use crate::html::{
    append_nodes, attributes1, attributes2, attributes3, element, make_element, no_attributes,
    no_nodes, nodes1, nodes2, nodes3, push_node, text_node, tree_of, trees_of, Node, Tree,
};
use crate::route::{article_url, Route};

verus! {

/// A social profile linked from the navigation bar.
#[derive(Clone, Debug, PartialEq, Eq)]
pub struct Social {
    pub name: String,
    pub icon_name: String,
    pub url: String,
}

/// Site-wide settings.
#[derive(Clone, Debug, PartialEq, Eq)]
pub struct SiteConfig {
    /// The site's title, as literal text.
    pub title: String,
    /// The tagline, rendered by the document processor.
    pub tagline: String,
    /// The footer, rendered by the document processor.
    pub footer: String,
    pub socials: Vec<Social>,
    /// Stylesheet asset names, in the order they are linked.
    pub stylesheets: Vec<String>,
}

/// A page outside the article corpus, such as an about page.
#[derive(Clone, Debug, PartialEq, Eq)]
pub struct StandalonePage {
    pub slug: String,
    pub title: String,
    /// The body, rendered by the document processor.
    pub body: String,
}

pub open spec fn plain(tag: Seq<char>, children: Seq<Tree>) -> Tree {
    element(tag, Seq::empty(), children)
}

pub open spec fn class_of(class: Seq<char>) -> Seq<(Seq<char>, Seq<char>)> {
    seq![("class"@, class)]
}

/// The decorative separator glyph.
pub open spec fn separator_tree() -> Tree {
    element(
        "p"@,
        seq![("class"@, "bl-separator"@), ("role"@, "presentation"@)],
        seq![Tree::Text("\u{25C7}"@)],
    )
}

pub open spec fn preview_summary(summary: Option<String>) -> Seq<Tree> {
    match summary {
        Some(s) => seq![plain("div"@, seq![Tree::Markup(s@)])],
        None => Seq::empty(),
    }
}

/// An article's preview: a link to it showing its date and title, and its
/// summary if it has one.
pub open spec fn preview_tree(a: Article) -> Tree {
    element(
        "article"@,
        class_of("bl-article-preview"@),
        seq![
            element(
                "a"@,
                seq![("href"@, article_url(a))],
                seq![
                    plain("p"@, seq![Tree::Text(a.date.text_spec())]),
                    plain("h3"@, seq![Tree::Text(a.title@)]),
                ],
            ),
        ] + preview_summary(a.summary),
    )
}

/// The previews of the articles, most recent first.
pub open spec fn previews_tree(articles: Seq<Article>) -> Seq<Tree> {
    articles.reverse().map_values(|a: Article| preview_tree(a))
}

/// The home page: the site's title and tagline, then the previews.
pub open spec fn home_trees(c: SiteConfig, articles: Seq<Article>) -> Seq<Tree> {
    seq![
        plain(
            "main"@,
            seq![
                element(
                    "div"@,
                    class_of("bl-main-wrapper"@),
                    seq![
                        element(
                            "header"@,
                            class_of("bl-home"@),
                            seq![
                                plain("h1"@, seq![Tree::Text(c.title@)]),
                                plain("p"@, seq![Tree::Markup(c.tagline@)]),
                            ],
                        ),
                    ],
                ),
            ],
        ),
        element(
            "div"@,
            class_of("bl-main-wrapper"@),
            seq![plain("header"@, seq![plain("h2"@, seq![Tree::Text("Latest articles"@)])])]
                + previews_tree(articles),
        ),
    ]
}

/// The listing of all articles.
pub open spec fn list_trees(articles: Seq<Article>) -> Seq<Tree> {
    seq![element("div"@, class_of("bl-main-wrapper"@), previews_tree(articles))]
}

pub open spec fn abstract_trees(summary: Option<String>) -> Seq<Tree> {
    match summary {
        Some(s) => seq![
            element("div"@, class_of("bl-abstract"@), seq![Tree::Markup(s@), separator_tree()]),
        ],
        None => Seq::empty(),
    }
}

/// An article's own page: its date and title, its abstract if it has a
/// summary, then its body.
pub open spec fn article_trees(a: Article) -> Seq<Tree> {
    seq![
        element(
            "main"@,
            class_of("bl-main-wrapper"@),
            seq![
                plain(
                    "header"@,
                    seq![
                        plain("p"@, seq![Tree::Text(a.date.text_spec())]),
                        plain("h1"@, seq![Tree::Text(a.title@)]),
                    ],
                ),
            ] + abstract_trees(a.summary) + seq![Tree::Markup(a.body@)],
        ),
    ]
}

/// A standalone page: its title, then its body.
pub open spec fn standalone_trees(p: StandalonePage) -> Seq<Tree> {
    seq![
        element(
            "main"@,
            class_of("bl-main-wrapper"@),
            seq![
                plain("header"@, seq![plain("h1"@, seq![Tree::Text(p.title@)])]),
                Tree::Markup(p.body@),
            ],
        ),
    ]
}

fn owned(s: &str) -> (r: String)
    ensures
        r@ == s@,
{
    String::from_str(s)
}

/// The decorative separator glyph.
pub fn separator() -> (r: Node)
    ensures
        tree_of(r) == separator_tree(),
{
    make_element(
        "p",
        attributes2("class", owned("bl-separator"), "role", owned("presentation")),
        nodes1(text_node("\u{25C7}")),
    )
}

fn plain_node(tag: &str, children: Vec<Node>) -> (r: Node)
    ensures
        tree_of(r) == plain(tag@, trees_of(children@)),
{
    let r = make_element(tag, no_attributes(), children);
    r
}

fn classed(tag: &str, class: &str, children: Vec<Node>) -> (r: Node)
    ensures
        tree_of(r) == element(tag@, class_of(class@), trees_of(children@)),
{
    make_element(tag, attributes1("class", owned(class)), children)
}

/// The preview of an article in a listing.
pub fn article_preview(a: &Article) -> (r: Node)
    requires
        a.wf(),
    ensures
        tree_of(r) == preview_tree(*a),
{
    let href = Route::for_article(a).url();
    let date = plain_node("p", nodes1(Node::Text(a.date.text())));
    let title = plain_node("h3", nodes1(Node::Text(a.title.clone())));
    let link = make_element("a", attributes1("href", href), nodes2(date, title));
    let ghost link_tree = tree_of(link);
    let mut children = nodes1(link);
    match &a.summary {
        Some(s) => {
            push_node(&mut children, plain_node("div", nodes1(Node::Markup(s.clone()))));
        },
        None => {},
    }
    proof {
        assert(trees_of(children@) =~= seq![link_tree] + preview_summary(a.summary));
    }
    classed("article", "bl-article-preview", children)
}

/// The previews of the articles, most recent first.
pub fn previews(articles: &Vec<Article>) -> (r: Vec<Node>)
    requires
        forall|i: int| 0 <= i < articles.len() ==> articles[i].wf(),
    ensures
        trees_of(r@) == previews_tree(articles@),
{
    let n = articles.len();
    let mut out = no_nodes();
    let mut i: usize = n;
    while i > 0
        invariant
            i <= n == articles.len(),
            forall|k: int| 0 <= k < articles.len() ==> articles[k].wf(),
            trees_of(out@) =~= Seq::new(
                (n - i) as nat,
                |j: int| preview_tree(articles@[n - 1 - j]),
            ),
        decreases i,
    {
        i = i - 1;
        push_node(&mut out, article_preview(&articles[i]));
    }
    proof {
        assert(trees_of(out@) =~= previews_tree(articles@));
    }
    out
}

/// The content of the home page.
pub fn index(config: &SiteConfig, articles: &Vec<Article>) -> (r: Vec<Node>)
    requires
        forall|i: int| 0 <= i < articles.len() ==> articles[i].wf(),
    ensures
        trees_of(r@) == home_trees(*config, articles@),
{
    let title = plain_node("h1", nodes1(Node::Text(config.title.clone())));
    let tagline = plain_node("p", nodes1(Node::Markup(config.tagline.clone())));
    let hero = classed("header", "bl-home", nodes2(title, tagline));
    let main = plain_node("main", nodes1(classed("div", "bl-main-wrapper", nodes1(hero))));
    let heading = plain_node("header", nodes1(plain_node("h2", nodes1(text_node("Latest articles")))));
    let mut listing = nodes1(heading);
    append_nodes(&mut listing, previews(articles));
    let latest = classed("div", "bl-main-wrapper", listing);
    nodes2(main, latest)
}

/// The content of the listing of all articles.
pub fn article_list(articles: &Vec<Article>) -> (r: Vec<Node>)
    requires
        forall|i: int| 0 <= i < articles.len() ==> articles[i].wf(),
    ensures
        trees_of(r@) == list_trees(articles@),
{
    nodes1(classed("div", "bl-main-wrapper", previews(articles)))
}

/// The content of an article's own page.
pub fn article_page(a: &Article) -> (r: Vec<Node>)
    requires
        a.wf(),
    ensures
        trees_of(r@) == article_trees(*a),
{
    let date = plain_node("p", nodes1(Node::Text(a.date.text())));
    let title = plain_node("h1", nodes1(Node::Text(a.title.clone())));
    let header = plain_node("header", nodes2(date, title));
    let ghost header_tree = tree_of(header);
    let mut children = nodes1(header);
    match &a.summary {
        Some(s) => {
            push_node(
                &mut children,
                classed("div", "bl-abstract", nodes2(Node::Markup(s.clone()), separator())),
            );
        },
        None => {},
    }
    push_node(&mut children, Node::Markup(a.body.clone()));
    proof {
        assert(trees_of(children@) =~= seq![header_tree] + abstract_trees(a.summary) + seq![
            Tree::Markup(a.body@),
        ]);
    }
    nodes1(classed("main", "bl-main-wrapper", children))
}

/// The content of a standalone page.
pub fn standalone_page(p: &StandalonePage) -> (r: Vec<Node>)
    ensures
        trees_of(r@) == standalone_trees(*p),
{
    let title = plain_node("h1", nodes1(Node::Text(p.title.clone())));
    let header = plain_node("header", nodes1(title));
    nodes1(classed("main", "bl-main-wrapper", nodes2(header, Node::Markup(p.body.clone()))))
}

/// A social profile in the navigation bar: a link to it, with its icon
/// drawn from the icon sprite and its name.
pub open spec fn social_tree<R: AssetResolver>(s: Social, assets: R) -> Tree {
    element(
        "a"@,
        seq![("href"@, s.url@), ("target"@, "_blank"@), ("title"@, s.name@)],
        seq![
            element(
                "svg"@,
                seq![
                    ("xmlns"@, "http://www.w3.org/2000/svg"@),
                    ("viewbox"@, "0 0 16 16"@),
                    ("alt"@, s.name@),
                ],
                seq![
                    element(
                        "use"@,
                        seq![("href"@, assets.resolved("icons.svg"@) + "#"@ + s.icon_name@)],
                        Seq::empty(),
                    ),
                ],
            ),
            plain("span"@, seq![Tree::Text(s.name@)]),
        ],
    )
}

pub open spec fn social_trees<R: AssetResolver>(socials: Seq<Social>, assets: R) -> Seq<Tree> {
    socials.map_values(|s: Social| social_tree(s, assets))
}

pub open spec fn stylesheet_tree<R: AssetResolver>(name: String, assets: R) -> Tree {
    element(
        "link"@,
        seq![("rel"@, "stylesheet"@), ("type"@, "text/css"@), ("href"@, assets.resolved(name@))],
        Seq::empty(),
    )
}

pub open spec fn stylesheet_trees<R: AssetResolver>(names: Seq<String>, assets: R) -> Seq<Tree> {
    names.map_values(|n: String| stylesheet_tree(n, assets))
}

pub open spec fn head_tree<R: AssetResolver>(c: SiteConfig, assets: R) -> Tree {
    plain(
        "head"@,
        seq![
            element("meta"@, seq![("charset"@, "utf-8"@)], Seq::empty()),
            element(
                "meta"@,
                seq![("name"@, "viewport"@), ("content"@, "width=device-width, initial-scale=1"@)],
                Seq::empty(),
            ),
            plain("title"@, seq![Tree::Text(c.title@)]),
        ] + stylesheet_trees(c.stylesheets@, assets),
    )
}

pub open spec fn nav_tree<R: AssetResolver>(c: SiteConfig, assets: R) -> Tree {
    plain(
        "nav"@,
        seq![
            element(
                "div"@,
                class_of("bl-wrapper"@),
                seq![
                    element("a"@, seq![("href"@, "/"@)], seq![Tree::Text(c.title@)]),
                    element("a"@, seq![("href"@, "/articles/"@)], seq![Tree::Text("Articles"@)]),
                    element("a"@, seq![("href"@, "/me/"@)], seq![Tree::Text("About me"@)]),
                    element("span"@, class_of("bl-separator"@), Seq::empty()),
                ] + social_trees(c.socials@, assets),
            ),
        ],
    )
}

pub open spec fn footer_tree(c: SiteConfig) -> Tree {
    plain(
        "footer"@,
        seq![
            element(
                "div"@,
                class_of("bl-wrapper"@),
                seq![separator_tree(), Tree::Markup(c.footer@)],
            ),
        ],
    )
}

/// The document every page is wrapped in: head, navigation bar, the
/// page's content, footer.
pub open spec fn layout_tree<R: AssetResolver>(c: SiteConfig, assets: R, inner: Seq<Tree>) -> Tree {
    element(
        "html"@,
        seq![("lang"@, "en"@)],
        seq![
            head_tree(c, assets),
            plain("body"@, seq![nav_tree(c, assets)] + inner + seq![footer_tree(c)]),
        ],
    )
}

fn link_node(href: String, text: Node) -> (r: Node)
    ensures
        tree_of(r) == element("a"@, seq![("href"@, href@)], seq![tree_of(text)]),
{
    make_element("a", attributes1("href", href), nodes1(text))
}

fn social_node<R: AssetResolver>(s: &Social, sprite: &String, assets: &R) -> (r: Node)
    requires
        sprite@ == assets.resolved("icons.svg"@),
    ensures
        tree_of(r) == social_tree(*s, *assets),
{
    let mut href = sprite.clone();
    href.append("#");
    href.append(s.icon_name.as_str());
    let icon = make_element("use", attributes1("href", href), no_nodes());
    let svg = make_element(
        "svg",
        attributes3(
            "xmlns",
            owned("http://www.w3.org/2000/svg"),
            "viewbox",
            owned("0 0 16 16"),
            "alt",
            s.name.clone(),
        ),
        nodes1(icon),
    );
    let name = plain_node("span", nodes1(Node::Text(s.name.clone())));
    make_element(
        "a",
        attributes3("href", s.url.clone(), "target", owned("_blank"), "title", s.name.clone()),
        nodes2(svg, name),
    )
}

fn social_nodes<R: AssetResolver>(socials: &Vec<Social>, assets: &R) -> (r: Vec<Node>)
    ensures
        trees_of(r@) == social_trees(socials@, *assets),
{
    let sprite = assets.resolve("icons.svg");
    let mut out = no_nodes();
    let mut i: usize = 0;
    while i < socials.len()
        invariant
            i <= socials.len(),
            sprite@ == assets.resolved("icons.svg"@),
            trees_of(out@) =~= social_trees(socials@.take(i as int), *assets),
        decreases socials.len() - i,
    {
        push_node(&mut out, social_node(&socials[i], &sprite, assets));
        proof {
            assert(socials@.take(i + 1) =~= socials@.take(i as int).push(socials@[i as int]));
        }
        i = i + 1;
    }
    proof {
        assert(socials@.take(i as int) =~= socials@);
    }
    out
}

fn stylesheet_nodes<R: AssetResolver>(names: &Vec<String>, assets: &R) -> (r: Vec<Node>)
    ensures
        trees_of(r@) == stylesheet_trees(names@, *assets),
{
    let mut out = no_nodes();
    let mut i: usize = 0;
    while i < names.len()
        invariant
            i <= names.len(),
            trees_of(out@) =~= stylesheet_trees(names@.take(i as int), *assets),
        decreases names.len() - i,
    {
        let link = make_element(
            "link",
            attributes3(
                "rel",
                owned("stylesheet"),
                "type",
                owned("text/css"),
                "href",
                assets.resolve(names[i].as_str()),
            ),
            no_nodes(),
        );
        push_node(&mut out, link);
        proof {
            assert(names@.take(i + 1) =~= names@.take(i as int).push(names@[i as int]));
        }
        i = i + 1;
    }
    proof {
        assert(names@.take(i as int) =~= names@);
    }
    out
}

/// Wraps a page's content in the site's layout.
pub fn layout<R: AssetResolver>(config: &SiteConfig, assets: &R, inner: Vec<Node>) -> (r: Node)
    ensures
        tree_of(r) == layout_tree(*config, *assets, trees_of(inner@)),
{
    let ghost inner_trees = trees_of(inner@);
    let charset = make_element("meta", attributes1("charset", owned("utf-8")), no_nodes());
    let viewport = make_element(
        "meta",
        attributes2(
            "name",
            owned("viewport"),
            "content",
            owned("width=device-width, initial-scale=1"),
        ),
        no_nodes(),
    );
    let title = plain_node("title", nodes1(Node::Text(config.title.clone())));
    let mut head_children = nodes3(charset, viewport, title);
    append_nodes(&mut head_children, stylesheet_nodes(&config.stylesheets, assets));
    let head = plain_node("head", head_children);

    let home = link_node(owned("/"), Node::Text(config.title.clone()));
    let list = link_node(owned("/articles/"), text_node("Articles"));
    let about = link_node(owned("/me/"), text_node("About me"));
    let gap = classed("span", "bl-separator", no_nodes());
    let ghost (t1, t2, t3, t4) = (tree_of(home), tree_of(list), tree_of(about), tree_of(gap));
    let mut bar = nodes3(home, list, about);
    push_node(&mut bar, gap);
    proof {
        assert(trees_of(bar@) =~= seq![t1, t2, t3, t4]);
    }
    append_nodes(&mut bar, social_nodes(&config.socials, assets));
    let nav = plain_node("nav", nodes1(classed("div", "bl-wrapper", bar)));

    let footer_content = nodes2(separator(), Node::Markup(config.footer.clone()));
    let footer = plain_node("footer", nodes1(classed("div", "bl-wrapper", footer_content)));

    let ghost nav_t = tree_of(nav);
    let ghost footer_t = tree_of(footer);
    let mut body_children = nodes1(nav);
    append_nodes(&mut body_children, inner);
    push_node(&mut body_children, footer);
    let body = plain_node("body", body_children);
    proof {
        assert(seq![nav_t] + inner_trees + seq![footer_t] =~= (seq![nav_t] + inner_trees).push(
            footer_t,
        ));
    }
    make_element("html", attributes1("lang", owned("en")), nodes2(head, body))
}

} // verus!
