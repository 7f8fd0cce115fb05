//! Matching queries against the catalogue, and resolving a selected result
//! back to its launch line.
use crate::config::{AppConfig, AppEntry};
use crate::pattern::opt_view;
use crate::text::{
    codes_equal, contains, contains_codes, folded, folded_codes, fragment_of, shorthand_of,
    split_query,
};
use vstd::prelude::*;
use vstd::string::*;

verus! {

/// One row of the answer to a query. `launch` is what activating it runs.
pub struct SearchResult {
    pub id: usize,
    pub name: String,
    pub description: String,
    pub icon: Option<String>,
    pub launch: String,
}

pub struct ResultView {
    pub name: Seq<char>,
    pub description: Seq<char>,
    pub icon: Option<Seq<char>>,
    pub launch: Seq<char>,
}

impl View for SearchResult {
    type V = ResultView;

    open spec fn view(&self) -> ResultView {
        ResultView {
            name: self.name@,
            description: self.description@,
            icon: opt_view(self.icon),
            launch: self.launch@,
        }
    }
}

/// The answer to a query: its rows, numbered from 0, and an error to show
/// when the catalogue is empty.
pub struct SearchReply {
    pub results: Vec<SearchResult>,
    pub error: Option<String>,
}

pub open spec fn results_view(v: Seq<SearchResult>) -> Seq<ResultView> {
    v.map_values(|r: SearchResult| r@)
}

/// The leading row when the shorthand is known but no profile matches.
pub open spec fn unknown_profile() -> ResultView {
    ResultView {
        name: "Unknown profile - try one of the following"@,
        description: "...or add a profile of that name."@,
        icon: Some("dialog-error"@),
        launch: Seq::empty(),
    }
}

/// The leading row when no application has the shorthand.
pub open spec fn unknown_shorthand() -> ResultView {
    ResultView {
        name: "Unknown shorthand - try one of the following"@,
        description: "...or add/edit a ron file in the config folder"@,
        icon: Some("system-help-symbolic"@),
        launch: Seq::empty(),
    }
}

pub open spec fn match_desc(e: AppEntry) -> Seq<char> {
    if e.desc@.len() > 0 {
        e.desc@
    } else {
        "open "@ + e.name@ + " in new window"@
    }
}

pub open spec fn browse_desc(e: AppEntry) -> Seq<char> {
    if e.desc@.len() > 0 {
        e.desc@
    } else {
        "Open "@ + e.name@ + " profile in new window"@
    }
}

/// The row for a profile that the fragment matches.
pub open spec fn match_result(app: AppConfig, e: AppEntry) -> ResultView {
    ResultView {
        name: e.name@,
        description: match_desc(e),
        icon: opt_view(app.conf.icon),
        launch: e.cmd@,
    }
}

/// The row for a profile offered after no profile matched.
pub open spec fn browse_result(app: AppConfig, e: AppEntry) -> ResultView {
    ResultView {
        name: e.name@,
        description: browse_desc(e),
        icon: opt_view(app.conf.icon),
        launch: e.cmd@,
    }
}

/// The row offering an application's shorthand.
pub open spec fn shorthand_result(app: AppConfig) -> ResultView {
    ResultView {
        name: app.conf.shorthand@,
        description: "Try the shorthand for "@ + app.name@ + "!"@,
        icon: opt_view(app.conf.icon),
        launch: app.conf.shorthand@,
    }
}

/// The profile's name holds the folded fragment, ignoring ASCII case.
pub open spec fn profile_hit(e: AppEntry, frag: Seq<u32>) -> bool {
    contains(folded(e.name@), frag)
}

/// The rows for the profiles among `es` that the fragment matches, in order.
pub open spec fn hits(app: AppConfig, es: Seq<AppEntry>, frag: Seq<u32>) -> Seq<ResultView>
    decreases es.len(),
{
    if es.len() == 0 {
        Seq::empty()
    } else {
        let prev = hits(app, es.drop_last(), frag);
        if profile_hit(es.last(), frag) {
            prev.push(match_result(app, es.last()))
        } else {
            prev
        }
    }
}

/// Index of the first application at or after `i` whose folded shorthand
/// is `tok`, or the length of the catalogue.
pub open spec fn first_app(cat: Seq<AppConfig>, tok: Seq<u32>, i: int) -> int
    decreases cat.len() - i,
{
    if i >= cat.len() {
        cat.len() as int
    } else if folded(cat[i].conf.shorthand@) == tok {
        i
    } else {
        first_app(cat, tok, i + 1)
    }
}

pub open spec fn query_app(cat: Seq<AppConfig>, q: Seq<char>) -> int {
    first_app(cat, folded(shorthand_of(q)), 0)
}

/// The rows answering the query `q`.
pub open spec fn search_spec(cat: Seq<AppConfig>, q: Seq<char>) -> Seq<ResultView> {
    let k = query_app(cat, q);
    if 0 <= k < cat.len() {
        let app = cat[k];
        let found = hits(app, app.entries@, folded(fragment_of(q)));
        if found.len() > 0 {
            found
        } else {
            seq![unknown_profile()] + app.entries@.map_values(|e: AppEntry| browse_result(app, e))
        }
    } else {
        seq![unknown_shorthand()] + cat.map_values(|a: AppConfig| shorthand_result(a))
    }
}

fn cat(a: &str, b: &str) -> (r: String)
    ensures
        r@ == a@ + b@,
{
    String::from_str(a).concat(b)
}

fn shorthand_is(app: &AppConfig, tok: &Vec<u32>) -> (r: bool)
    ensures
        r == (folded(app.conf.shorthand@) == tok@),
{
    let sh = folded_codes(app.conf.shorthand.as_str());
    codes_equal(&sh, tok)
}

fn push_row(
    rows: &mut Vec<SearchResult>,
    name: String,
    description: String,
    icon: Option<String>,
    launch: String,
)
    ensures
        final(rows)@ == old(rows)@.push(
            SearchResult { id: old(rows)@.len() as usize, name, description, icon, launch },
        ),
        final(rows)@[old(rows)@.len() as int].id == old(rows)@.len(),
{
    let id = rows.len();
    rows.push(SearchResult { id, name, description, icon, launch });
}

fn match_row(app: &AppConfig, e: &AppEntry) -> (r: (String, String, Option<String>, String))
    ensures
        (ResultView { name: r.0@, description: r.1@, icon: opt_view(r.2), launch: r.3@ })
            == match_result(*app, *e),
{
    let description = if e.desc.unicode_len() > 0 {
        e.desc.clone()
    } else {
        cat("open ", e.name.as_str()).concat(" in new window")
    };
    (e.name.clone(), description, app.conf.icon.clone(), e.cmd.clone())
}

fn browse_row(app: &AppConfig, e: &AppEntry) -> (r: (String, String, Option<String>, String))
    ensures
        (ResultView { name: r.0@, description: r.1@, icon: opt_view(r.2), launch: r.3@ })
            == browse_result(*app, *e),
{
    let description = if e.desc.unicode_len() > 0 {
        e.desc.clone()
    } else {
        cat("Open ", e.name.as_str()).concat(" profile in new window")
    };
    (e.name.clone(), description, app.conf.icon.clone(), e.cmd.clone())
}

/// Answers the query `query` over `catalogue`. The query's shorthand
/// selects the first application whose shorthand equals it, ignoring ASCII
/// case; its profiles whose names hold the fragment are the rows. With no
/// such profile the rows are a header and all its profiles; with no such
/// application, a header and every application's shorthand. Rows are
/// numbered from 0. The error is set exactly when the catalogue is empty.
pub fn search(catalogue: &Vec<AppConfig>, query: &str) -> (r: SearchReply)
    ensures
        results_view(r.results@) == search_spec(catalogue@, query@),
        forall|i: int| 0 <= i < r.results@.len() ==> #[trigger] r.results@[i].id == i,
        r.error is Some <==> catalogue@.len() == 0,
        r.error matches Some(m) ==> m@ == "no profiles"@,
{
    let (tok, frag) = split_query(query);
    let ghost cat_v = catalogue@;
    let mut k: usize = 0;
    while k < catalogue.len() && !shorthand_is(&catalogue[k], &tok)
        invariant
            k <= catalogue@.len(),
            first_app(cat_v, tok@, 0) == first_app(cat_v, tok@, k as int),
            cat_v == catalogue@,
        decreases catalogue@.len() - k,
    {
        k += 1;
    }
    let mut rows: Vec<SearchResult> = Vec::new();
    if k < catalogue.len() {
        let app = &catalogue[k];
        let ghost es = app.entries@;
        let mut j: usize = 0;
        while j < app.entries.len()
            invariant
                j <= es.len(),
                es == app.entries@,
                results_view(rows@) == hits(*app, es.take(j as int), frag@),
                forall|i: int| 0 <= i < rows@.len() ==> #[trigger] rows@[i].id == i,
            decreases es.len() - j,
        {
            let e = &app.entries[j];
            proof {
                assert(es.take(j + 1).drop_last() =~= es.take(j as int));
                assert(es.take(j + 1).last() == *e);
            }
            let name_codes = folded_codes(e.name.as_str());
            if contains_codes(&name_codes, &frag) {
                let (n, d, ic, l) = match_row(app, e);
                let ghost before = rows@;
                push_row(&mut rows, n, d, ic, l);
                assert(forall|i: int| 0 <= i < before.len() ==> rows@[i] == before[i]);
                assert(results_view(rows@) =~= results_view(before).push(
                    match_result(*app, *e),
                ));
            }
            j += 1;
        }
        assert(es.take(j as int) =~= es);
        if rows.len() == 0 {
            push_row(
                &mut rows,
                String::from_str("Unknown profile - try one of the following"),
                String::from_str("...or add a profile of that name."),
                Some(String::from_str("dialog-error")),
                String::new(),
            );
            let mut j: usize = 0;
            while j < app.entries.len()
                invariant
                    j <= es.len(),
                    es == app.entries@,
                    rows@.len() == j + 1,
                    rows@[0]@ == unknown_profile(),
                    forall|i: int| 0 <= i < j ==> #[trigger] rows@[i + 1]@ == browse_result(*app, es[i]),
                    forall|i: int| 0 <= i < rows@.len() ==> #[trigger] rows@[i].id == i,
                decreases es.len() - j,
            {
                let (n, d, ic, l) = browse_row(app, &app.entries[j]);
                push_row(&mut rows, n, d, ic, l);
                j += 1;
            }
            assert forall|i: int| 1 <= i < rows@.len() implies rows@[i]@ == browse_result(
                *app,
                es[i - 1],
            ) by {
                assert(rows@[(i - 1) + 1]@ == browse_result(*app, es[i - 1]));
            }
            assert(results_view(rows@) =~= seq![unknown_profile()] + es.map_values(
                |e: AppEntry| browse_result(*app, e),
            ));
        }
        SearchReply { results: rows, error: None }
    } else {
        push_row(
            &mut rows,
            String::from_str("Unknown shorthand - try one of the following"),
            String::from_str("...or add/edit a ron file in the config folder"),
            Some(String::from_str("system-help-symbolic")),
            String::new(),
        );
        let mut j: usize = 0;
        while j < catalogue.len()
            invariant
                j <= cat_v.len(),
                cat_v == catalogue@,
                rows@.len() == j + 1,
                rows@[0]@ == unknown_shorthand(),
                forall|i: int| 0 <= i < j ==> #[trigger] rows@[i + 1]@ == shorthand_result(cat_v[i]),
                forall|i: int| 0 <= i < rows@.len() ==> #[trigger] rows@[i].id == i,
            decreases cat_v.len() - j,
        {
            let a = &catalogue[j];
            let description = cat("Try the shorthand for ", a.name.as_str()).concat("!");
            push_row(
                &mut rows,
                a.conf.shorthand.clone(),
                description,
                a.conf.icon.clone(),
                a.conf.shorthand.clone(),
            );
            j += 1;
        }
        assert forall|i: int| 1 <= i < rows@.len() implies rows@[i]@ == shorthand_result(
            cat_v[i - 1],
        ) by {
            assert(rows@[(i - 1) + 1]@ == shorthand_result(cat_v[i - 1]));
        }
        assert(results_view(rows@) =~= seq![unknown_shorthand()] + cat_v.map_values(
            |a: AppConfig| shorthand_result(a),
        ));
        let error = if catalogue.len() == 0 {
            Some(String::from_str("no profiles"))
        } else {
            None
        };
        SearchReply { results: rows, error }
    }
}

/// The plugin's state between requests: the catalogue, and the launch
/// lines of the rows of the last answer, by row number.
pub struct App {
    pub results: Vec<String>,
    pub catalogue: Vec<AppConfig>,
}

impl App {
    pub fn new() -> (r: App)
        ensures
            r.results@.len() == 0,
            r.catalogue@.len() == 0,
    {
        App { results: Vec::new(), catalogue: Vec::new() }
    }

    /// Replaces the catalogue wholesale.
    pub fn reload(&mut self, catalogue: Vec<AppConfig>)
        ensures
            final(self).catalogue == catalogue,
            final(self).results == old(self).results,
    {
        self.catalogue = catalogue;
    }

    /// Answers `query` over the catalogue and keeps the launch line of each
    /// row, in place of those of the previous answer.
    pub fn search(&mut self, query: &str) -> (r: SearchReply)
        ensures
            results_view(r.results@) == search_spec(old(self).catalogue@, query@),
            forall|i: int| 0 <= i < r.results@.len() ==> #[trigger] r.results@[i].id == i,
            r.error is Some <==> old(self).catalogue@.len() == 0,
            r.error matches Some(m) ==> m@ == "no profiles"@,
            final(self).catalogue == old(self).catalogue,
            final(self).results@.len() == r.results@.len(),
            forall|i: int|
                0 <= i < r.results@.len() ==> #[trigger] final(self).results@[i]@
                    == r.results@[i].launch@,
    {
        let reply = search(&self.catalogue, query);
        let mut lines: Vec<String> = Vec::new();
        let mut i: usize = 0;
        while i < reply.results.len()
            invariant
                i <= reply.results@.len(),
                lines@.len() == i,
                forall|k: int| 0 <= k < i ==> #[trigger] lines@[k]@ == reply.results@[k].launch@,
            decreases reply.results@.len() - i,
        {
            lines.push(reply.results[i].launch.clone());
            i += 1;
        }
        self.results = lines;
        reply
    }

    /// The launch line of row `id` of the last answer; `None`, and nothing
    /// to do, when there is no such row.
    pub fn activate(&self, id: u32) -> (r: Option<String>)
        ensures
            (id as int) < self.results@.len() ==> (r matches Some(l) && l@ == self.results@[id as int]@),
            (id as int) >= self.results@.len() ==> r is None,
    {
        let i = id as usize;
        if i < self.results.len() {
            Some(self.results[i].clone())
        } else {
            None
        }
    }
}

proof fn lemma_first_app_none(cat: Seq<AppConfig>, tok: Seq<u32>, i: int)
    requires
        0 <= i <= cat.len(),
        forall|b: int| 0 <= b < cat.len() ==> folded(#[trigger] cat[b].conf.shorthand@) != tok,
    ensures
        first_app(cat, tok, i) == cat.len(),
    decreases cat.len() - i,
{
    if i < cat.len() {
        lemma_first_app_none(cat, tok, i + 1);
    }
}

proof fn lemma_first_app_at(cat: Seq<AppConfig>, tok: Seq<u32>, i: int, a: int)
    requires
        0 <= i <= a < cat.len(),
        folded(cat[a].conf.shorthand@) == tok,
        forall|b: int| 0 <= b < a ==> folded(#[trigger] cat[b].conf.shorthand@) != tok,
    ensures
        first_app(cat, tok, i) == a,
    decreases a - i,
{
    if i < a {
        lemma_first_app_at(cat, tok, i + 1, a);
    }
}

proof fn lemma_hits_none(app: AppConfig, es: Seq<AppEntry>, frag: Seq<u32>)
    requires
        forall|m: int| 0 <= m < es.len() ==> !profile_hit(#[trigger] es[m], frag),
    ensures
        hits(app, es, frag).len() == 0,
    decreases es.len(),
{
    if es.len() > 0 {
        lemma_hits_none(app, es.drop_last(), frag);
    }
}

proof fn lemma_hits_one(app: AppConfig, es: Seq<AppEntry>, frag: Seq<u32>, j: int, n: int)
    requires
        0 <= j < es.len(),
        0 <= n <= es.len(),
        profile_hit(es[j], frag),
        forall|m: int| 0 <= m < es.len() && m != j ==> !profile_hit(#[trigger] es[m], frag),
    ensures
        hits(app, es.take(n), frag) == (if n > j {
            seq![match_result(app, es[j])]
        } else {
            Seq::empty()
        }),
    decreases n,
{
    if n > 0 {
        assert(es.take(n).drop_last() =~= es.take(n - 1));
        lemma_hits_one(app, es, frag, j, n - 1);
    }
}

/// When the query's shorthand names exactly one application and its
/// fragment is held by exactly one of that application's profile names,
/// the answer is that one profile, launched by its own launch line.
pub proof fn lemma_single_match(cat: Seq<AppConfig>, q: Seq<char>, a: int, j: int)
    requires
        0 <= a < cat.len(),
        folded(cat[a].conf.shorthand@) == folded(shorthand_of(q)),
        forall|b: int|
            0 <= b < cat.len() && b != a ==> folded(#[trigger] cat[b].conf.shorthand@) != folded(
                shorthand_of(q),
            ),
        0 <= j < cat[a].entries@.len(),
        profile_hit(cat[a].entries@[j], folded(fragment_of(q))),
        forall|m: int|
            0 <= m < cat[a].entries@.len() && m != j ==> !profile_hit(
                #[trigger] cat[a].entries@[m],
                folded(fragment_of(q)),
            ),
    ensures
        search_spec(cat, q).len() == 1,
        search_spec(cat, q)[0] == match_result(cat[a], cat[a].entries@[j]),
        search_spec(cat, q)[0].launch == cat[a].entries@[j].cmd@,
{
    lemma_first_app_at(cat, folded(shorthand_of(q)), 0, a);
    let es = cat[a].entries@;
    lemma_hits_one(cat[a], es, folded(fragment_of(q)), j, es.len() as int);
    assert(es.take(es.len() as int) =~= es);
}

/// When no application has the query's shorthand, the answer is the
/// "unknown shorthand" header followed by one row per application.
pub proof fn lemma_unknown_shorthand(cat: Seq<AppConfig>, q: Seq<char>)
    requires
        forall|b: int|
            0 <= b < cat.len() ==> folded(#[trigger] cat[b].conf.shorthand@) != folded(
                shorthand_of(q),
            ),
    ensures
        search_spec(cat, q).len() == 1 + cat.len(),
        search_spec(cat, q)[0] == unknown_shorthand(),
{
    lemma_first_app_none(cat, folded(shorthand_of(q)), 0);
}

/// When the query's shorthand selects an application and its fragment is
/// held by none of that application's profile names, the answer is the
/// "unknown profile" header followed by all its profiles, unfiltered.
pub proof fn lemma_unknown_profile(cat: Seq<AppConfig>, q: Seq<char>, a: int)
    requires
        0 <= a < cat.len(),
        folded(cat[a].conf.shorthand@) == folded(shorthand_of(q)),
        forall|b: int|
            0 <= b < a ==> folded(#[trigger] cat[b].conf.shorthand@) != folded(shorthand_of(q)),
        forall|m: int|
            0 <= m < cat[a].entries@.len() ==> !profile_hit(
                #[trigger] cat[a].entries@[m],
                folded(fragment_of(q)),
            ),
    ensures
        search_spec(cat, q).len() == 1 + cat[a].entries@.len(),
        search_spec(cat, q)[0] == unknown_profile(),
        forall|m: int|
            0 <= m < cat[a].entries@.len() ==> search_spec(cat, q)[m + 1] == browse_result(
                cat[a],
                #[trigger] cat[a].entries@[m],
            ),
{
    lemma_first_app_at(cat, folded(shorthand_of(q)), 0, a);
    lemma_hits_none(cat[a], cat[a].entries@, folded(fragment_of(q)));
}

} // verus!
