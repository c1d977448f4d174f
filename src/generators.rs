//! What the document generators read out of project data: services and API
//! keys named by a tech stack or by dependencies, and the design items listed
//! in feature plans.
use vstd::prelude::*;
use crate::naming::strip_dashes;
use crate::text::{
    chars_of, contains, has_infix, has_prefix, lines_of, lower_of, lowercase, split_lines,
    starts_with, string_of, trim, trimmed, views,
};

verus! {

/// Whether `pat` occurs in `l`.
fn occurs(l: &[char], pat: &str) -> (r: bool)
    ensures
        r == has_infix(l@, pat@),
{
    let p = chars_of(pat);
    contains(l, p.as_slice())
}

/// The view of an optional pair of strings.
pub open spec fn pair_view(o: Option<(String, String)>) -> Option<(Seq<char>, Seq<char>)> {
    match o {
        Some((a, b)) => Some((a@, b@)),
        None => None,
    }
}

/// The views of strings.
pub open spec fn string_views(v: Seq<String>) -> Seq<Seq<char>> {
    v.map_values(|s: String| s@)
}

fn pair(a: &str, b: &str) -> (r: Option<(String, String)>)
    ensures
        pair_view(r) == Some((a@, b@)),
{
    Some((a.to_string(), b.to_string()))
}

/// The service (category and name) that a lower-cased tech-stack entry names.
pub open spec fn service_for_tech(l: Seq<char>) -> Option<(Seq<char>, Seq<char>)> {
    if has_infix(l, "postgresql"@) || has_infix(l, "postgres"@) {
        Some(("database"@, "postgresql"@))
    } else if has_infix(l, "mongodb"@) {
        Some(("database"@, "mongodb"@))
    } else if has_infix(l, "redis"@) {
        Some(("cache"@, "redis"@))
    } else if has_infix(l, "docker"@) {
        Some(("deployment"@, "docker"@))
    } else if has_infix(l, "vercel"@) {
        Some(("deployment"@, "vercel"@))
    } else if has_infix(l, "railway"@) {
        Some(("deployment"@, "railway"@))
    } else {
        None
    }
}

/// The service (category and name) that a lower-cased package dependency
/// names.
pub open spec fn service_for_dependency(l: Seq<char>) -> Option<(Seq<char>, Seq<char>)> {
    if has_infix(l, "postgres"@) || has_infix(l, "pg"@) {
        Some(("database"@, "postgresql"@))
    } else if has_infix(l, "mongodb"@) || has_infix(l, "mongoose"@) {
        Some(("database"@, "mongodb"@))
    } else if has_infix(l, "redis"@) {
        Some(("cache"@, "redis"@))
    } else if has_infix(l, "aws"@) {
        Some(("cloud"@, "aws"@))
    } else if has_infix(l, "azure"@) {
        Some(("cloud"@, "azure"@))
    } else {
        None
    }
}

/// The service (category and name) that a lower-cased line of a Cargo
/// manifest names.
pub open spec fn service_for_cargo_line(l: Seq<char>) -> Option<(Seq<char>, Seq<char>)> {
    if has_infix(l, "postgres"@) || has_infix(l, "sqlx"@) {
        Some(("database"@, "postgresql"@))
    } else if has_infix(l, "redis"@) {
        Some(("cache"@, "redis"@))
    } else {
        None
    }
}

/// The service that a lower-cased tech-stack entry names.
pub fn service_from_tech(lowered: &str) -> (r: Option<(String, String)>)
    ensures
        pair_view(r) == service_for_tech(lowered@),
{
    let l = chars_of(lowered);
    let l = l.as_slice();
    if occurs(l, "postgresql") || occurs(l, "postgres") {
        pair("database", "postgresql")
    } else if occurs(l, "mongodb") {
        pair("database", "mongodb")
    } else if occurs(l, "redis") {
        pair("cache", "redis")
    } else if occurs(l, "docker") {
        pair("deployment", "docker")
    } else if occurs(l, "vercel") {
        pair("deployment", "vercel")
    } else if occurs(l, "railway") {
        pair("deployment", "railway")
    } else {
        None
    }
}

/// The service that a tech-stack entry names, matched case-insensitively.
pub fn detect_service(tech: &str) -> (r: Option<(String, String)>)
    ensures
        pair_view(r) == service_for_tech(lower_of(tech@)),
{
    let l = lowercase(tech);
    service_from_tech(l.as_str())
}

/// The service that a lower-cased package dependency names.
pub fn service_from_dependency(lowered: &str) -> (r: Option<(String, String)>)
    ensures
        pair_view(r) == service_for_dependency(lowered@),
{
    let l = chars_of(lowered);
    let l = l.as_slice();
    if occurs(l, "postgres") || occurs(l, "pg") {
        pair("database", "postgresql")
    } else if occurs(l, "mongodb") || occurs(l, "mongoose") {
        pair("database", "mongodb")
    } else if occurs(l, "redis") {
        pair("cache", "redis")
    } else if occurs(l, "aws") {
        pair("cloud", "aws")
    } else if occurs(l, "azure") {
        pair("cloud", "azure")
    } else {
        None
    }
}

/// The service that a package dependency names, matched case-insensitively.
pub fn detect_service_from_dependency(dep: &str) -> (r: Option<(String, String)>)
    ensures
        pair_view(r) == service_for_dependency(lower_of(dep@)),
{
    let l = lowercase(dep);
    service_from_dependency(l.as_str())
}

/// The service that a lower-cased line of a Cargo manifest names.
pub fn service_from_cargo_line(lowered: &str) -> (r: Option<(String, String)>)
    ensures
        pair_view(r) == service_for_cargo_line(lowered@),
{
    let l = chars_of(lowered);
    let l = l.as_slice();
    if occurs(l, "postgres") || occurs(l, "sqlx") {
        pair("database", "postgresql")
    } else if occurs(l, "redis") {
        pair("cache", "redis")
    } else {
        None
    }
}

/// The service that a line of a Cargo manifest names, matched
/// case-insensitively.
pub fn detect_service_from_cargo_dep(line: &str) -> (r: Option<(String, String)>)
    ensures
        pair_view(r) == service_for_cargo_line(lower_of(line@)),
{
    let l = lowercase(line);
    service_from_cargo_line(l.as_str())
}

/// `keys` if `cond`, else nothing.
pub open spec fn when(cond: bool, keys: Seq<Seq<char>>) -> Seq<Seq<char>> {
    if cond {
        keys
    } else {
        Seq::empty()
    }
}

/// The API keys that a lower-cased tech-stack entry calls for, in order.
pub open spec fn api_keys_for(l: Seq<char>) -> Seq<Seq<char>> {
    when(has_infix(l, "aws"@), seq!["AWS_ACCESS_KEY_ID"@, "AWS_SECRET_ACCESS_KEY"@]) + when(
        has_infix(l, "mongodb"@),
        seq!["MONGODB_URI"@],
    ) + when(has_infix(l, "postgres"@), seq!["DATABASE_URL"@]) + when(
        has_infix(l, "redis"@),
        seq!["REDIS_URL"@],
    ) + when(has_infix(l, "vercel"@), seq!["VERCEL_TOKEN"@])
}

fn push_text(keys: &mut Vec<String>, key: &str)
    ensures
        string_views(final(keys)@) == string_views(old(keys)@).push(key@),
{
    keys.push(key.to_string());
    assert(string_views(keys@) =~= string_views(old(keys)@).push(key@));
}

/// The API keys that a lower-cased tech-stack entry calls for; none if it
/// calls for no key.
pub fn api_keys_from(lowered: &str) -> (r: Option<Vec<String>>)
    ensures
        r is None <==> api_keys_for(lowered@).len() == 0,
        r matches Some(v) ==> string_views(v@) == api_keys_for(lowered@),
{
    let l = chars_of(lowered);
    let l = l.as_slice();
    let mut keys: Vec<String> = Vec::new();
    let ghost lw = lowered@;
    if occurs(l, "aws") {
        push_text(&mut keys, "AWS_ACCESS_KEY_ID");
        push_text(&mut keys, "AWS_SECRET_ACCESS_KEY");
    }
    assert(string_views(keys@) =~= when(
        has_infix(lw, "aws"@),
        seq!["AWS_ACCESS_KEY_ID"@, "AWS_SECRET_ACCESS_KEY"@],
    ));
    let ghost k1 = string_views(keys@);
    if occurs(l, "mongodb") {
        push_text(&mut keys, "MONGODB_URI");
    }
    assert(string_views(keys@) =~= k1 + when(has_infix(lw, "mongodb"@), seq!["MONGODB_URI"@]));
    let ghost k2 = string_views(keys@);
    if occurs(l, "postgres") {
        push_text(&mut keys, "DATABASE_URL");
    }
    assert(string_views(keys@) =~= k2 + when(has_infix(lw, "postgres"@), seq!["DATABASE_URL"@]));
    let ghost k3 = string_views(keys@);
    if occurs(l, "redis") {
        push_text(&mut keys, "REDIS_URL");
    }
    assert(string_views(keys@) =~= k3 + when(has_infix(lw, "redis"@), seq!["REDIS_URL"@]));
    let ghost k4 = string_views(keys@);
    if occurs(l, "vercel") {
        push_text(&mut keys, "VERCEL_TOKEN");
    }
    assert(string_views(keys@) =~= k4 + when(has_infix(lw, "vercel"@), seq!["VERCEL_TOKEN"@]));
    assert(string_views(keys@) =~= api_keys_for(lw));
    if keys.len() == 0 {
        None
    } else {
        Some(keys)
    }
}

/// The API keys that a tech-stack entry calls for, matched
/// case-insensitively; none if it calls for no key.
pub fn detect_api_keys(tech: &str) -> (r: Option<Vec<String>>)
    ensures
        r is None <==> api_keys_for(lower_of(tech@)).len() == 0,
        r matches Some(v) ==> string_views(v@) == api_keys_for(lower_of(tech@)),
{
    let l = lowercase(tech);
    api_keys_from(l.as_str())
}

/// The list of a feature plan that a line belongs to.
#[derive(Clone, Copy, Debug, PartialEq, Eq, Structural)]
pub enum DesignSection {
    Outside,
    Pages,
    Sections,
    Components,
    Cards,
}

/// The list that a heading line opens, if the line is a heading.
pub open spec fn heading_section(line: Seq<char>) -> Option<DesignSection> {
    if has_infix(line, "### Pages"@) {
        Some(DesignSection::Pages)
    } else if has_infix(line, "### Sections"@) {
        Some(DesignSection::Sections)
    } else if has_infix(line, "### Components"@) {
        Some(DesignSection::Components)
    } else if has_infix(line, "### Cards/UI Elements"@) || has_infix(line, "### Cards"@) {
        Some(DesignSection::Cards)
    } else if has_prefix(line, "##"@) || has_prefix(line, "#"@) {
        Some(DesignSection::Outside)
    } else {
        None
    }
}

/// The item that a list line holds: the line without its leading dashes and
/// surrounding white space, for a line that starts (after white space) with a
/// dash and is not a placeholder.
pub open spec fn list_item(line: Seq<char>) -> Option<Seq<char>> {
    if has_prefix(trim(line), "-"@) && !has_infix(line, "_to be defined_"@) && trim(
        strip_dashes(line),
    ).len() > 0 {
        Some(trim(strip_dashes(line)))
    } else {
        None
    }
}

/// The design items found so far, and the list being read.
pub ghost struct DesignScan {
    pub section: DesignSection,
    pub pages: Seq<Seq<char>>,
    pub sections: Seq<Seq<char>>,
    pub components: Seq<Seq<char>>,
    pub cards: Seq<Seq<char>>,
}

/// `item` added to the list being read.
pub open spec fn add_item(st: DesignScan, item: Seq<char>) -> DesignScan {
    match st.section {
        DesignSection::Pages => DesignScan { pages: st.pages.push(item), ..st },
        DesignSection::Sections => DesignScan { sections: st.sections.push(item), ..st },
        DesignSection::Components => DesignScan { components: st.components.push(item), ..st },
        DesignSection::Cards => DesignScan { cards: st.cards.push(item), ..st },
        DesignSection::Outside => st,
    }
}

/// One line of a feature plan.
pub open spec fn design_step(st: DesignScan, line: Seq<char>) -> DesignScan {
    match heading_section(line) {
        Some(s) => DesignScan { section: s, ..st },
        None => match list_item(line) {
            Some(item) => add_item(st, item),
            None => st,
        },
    }
}

/// The scan of the given lines, from outside any list.
pub open spec fn design_scan(lines: Seq<Seq<char>>) -> DesignScan
    decreases lines.len(),
{
    if lines.len() == 0 {
        DesignScan {
            section: DesignSection::Outside,
            pages: Seq::empty(),
            sections: Seq::empty(),
            components: Seq::empty(),
            cards: Seq::empty(),
        }
    } else {
        design_step(design_scan(lines.drop_last()), lines.last())
    }
}

/// The design items of a feature plan.
pub open spec fn design_of(text: Seq<char>) -> DesignScan {
    design_scan(split_lines(text))
}

fn heading_section_of(line: &[char]) -> (r: Option<DesignSection>)
    ensures
        r == heading_section(line@),
{
    if occurs(line, "### Pages") {
        Some(DesignSection::Pages)
    } else if occurs(line, "### Sections") {
        Some(DesignSection::Sections)
    } else if occurs(line, "### Components") {
        Some(DesignSection::Components)
    } else if occurs(line, "### Cards/UI Elements") || occurs(line, "### Cards") {
        Some(DesignSection::Cards)
    } else if starts_with(line, chars_of("##").as_slice()) || starts_with(
        line,
        chars_of("#").as_slice(),
    ) {
        Some(DesignSection::Outside)
    } else {
        None
    }
}

fn without_dashes(line: &[char]) -> (r: Vec<char>)
    ensures
        r@ == strip_dashes(line@),
{
    let n = line.len();
    let mut k: usize = 0;
    assert(line@.subrange(0, n as int) =~= line@);
    while k < n && line[k] == '-'
        invariant
            k <= n == line@.len(),
            strip_dashes(line@) == strip_dashes(line@.subrange(k as int, n as int)),
        decreases n - k,
    {
        assert(line@.subrange(k as int, n as int).drop_first() =~= line@.subrange(
            k + 1,
            n as int,
        ));
        k = k + 1;
    }
    if k < n {
        assert(line@.subrange(k as int, n as int)[0] == line@[k as int]);
    }
    crate::text::slice_of(line, k, n)
}

fn list_item_of(line: &[char]) -> (r: Option<Vec<char>>)
    ensures
        r matches Some(v) ==> list_item(line@) == Some(v@),
        r is None ==> list_item(line@) is None,
{
    let t = trimmed(line);
    if starts_with(t.as_slice(), chars_of("-").as_slice()) && !occurs(line, "_to be defined_") {
        let bare = without_dashes(line);
        let item = trimmed(bare.as_slice());
        if item.len() > 0 {
            return Some(item);
        }
    }
    None
}

/// Reads the design items listed in a feature plan: the lines starting with a
/// dash under the `### Pages`, `### Sections`, `### Components` and
/// `### Cards` headings are appended, in order, to the list of their heading;
/// any other heading ends a list.
pub fn extract_design_info(
    content: &str,
    pages: &mut Vec<String>,
    sections: &mut Vec<String>,
    components: &mut Vec<String>,
    cards: &mut Vec<String>,
)
    ensures
        string_views(final(pages)@) == string_views(old(pages)@) + design_of(content@).pages,
        string_views(final(sections)@) == string_views(old(sections)@) + design_of(
            content@,
        ).sections,
        string_views(final(components)@) == string_views(old(components)@) + design_of(
            content@,
        ).components,
        string_views(final(cards)@) == string_views(old(cards)@) + design_of(content@).cards,
{
    let text = chars_of(content);
    let lines = lines_of(text.as_slice());
    let ghost ls = views(lines@);
    let ghost p0 = string_views(pages@);
    let ghost s0 = string_views(sections@);
    let ghost c0 = string_views(components@);
    let ghost d0 = string_views(cards@);
    let mut section = DesignSection::Outside;
    assert(ls.take(0) =~= Seq::<Seq<char>>::empty());
    assert(p0 + Seq::<Seq<char>>::empty() =~= p0);
    assert(s0 + Seq::<Seq<char>>::empty() =~= s0);
    assert(c0 + Seq::<Seq<char>>::empty() =~= c0);
    assert(d0 + Seq::<Seq<char>>::empty() =~= d0);
    for i in 0..lines.len()
        invariant
            ls == views(lines@),
            section == design_scan(ls.take(i as int)).section,
            string_views(pages@) == p0 + design_scan(ls.take(i as int)).pages,
            string_views(sections@) == s0 + design_scan(ls.take(i as int)).sections,
            string_views(components@) == c0 + design_scan(ls.take(i as int)).components,
            string_views(cards@) == d0 + design_scan(ls.take(i as int)).cards,
    {
        assert(ls.take(i + 1).drop_last() =~= ls.take(i as int));
        assert(ls.take(i + 1).last() == lines@[i as int]@);
        let line = lines[i].as_slice();
        let ghost before = design_scan(ls.take(i as int));
        match heading_section_of(line) {
            Some(s) => {
                section = s;
            },
            None => {
                match list_item_of(line) {
                    Some(item) => {
                        let ghost iv = item@;
                        let it = string_of(item.as_slice());
                        match section {
                            DesignSection::Pages => {
                                let ghost prev = pages@;
                                pages.push(it);
                                assert(string_views(pages@) =~= string_views(prev).push(iv));
                                assert(string_views(pages@) =~= p0 + before.pages.push(iv));
                            },
                            DesignSection::Sections => {
                                let ghost prev = sections@;
                                sections.push(it);
                                assert(string_views(sections@) =~= string_views(prev).push(iv));
                                assert(string_views(sections@) =~= s0 + before.sections.push(iv));
                            },
                            DesignSection::Components => {
                                let ghost prev = components@;
                                components.push(it);
                                assert(string_views(components@) =~= string_views(prev).push(iv));
                                assert(string_views(components@) =~= c0 + before.components.push(iv));
                            },
                            DesignSection::Cards => {
                                let ghost prev = cards@;
                                cards.push(it);
                                assert(string_views(cards@) =~= string_views(prev).push(iv));
                                assert(string_views(cards@) =~= d0 + before.cards.push(iv));
                            },
                            DesignSection::Outside => {},
                        }
                    },
                    None => {},
                }
            },
        }
    }
    assert(ls.take(lines@.len() as int) =~= ls);
}

/// Improvement suggestions for a project, from its lower-cased idea and its
/// number of features, in order.
pub open spec fn improvements_for(idea: Seq<char>, feature_count: nat) -> Seq<Seq<char>> {
    when(
        has_infix(idea, "user"@) || has_infix(idea, "auth"@),
        seq!["Consider implementing user authentication and authorization"@],
    ) + when(
        feature_count > 5,
        seq!["Consider prioritizing features - start with MVP and iterate"@],
    ) + when(
        has_infix(idea, "data"@) || has_infix(idea, "storage"@),
        seq!["Plan your data model and storage strategy early"@],
    ) + seq![
        "Set up proper error handling and logging from the start"@,
        "Consider implementing automated testing (unit, integration, e2e)"@,
        "Plan for scalability - design with growth in mind"@,
        "Document your API contracts early for better team collaboration"@,
    ]
}

/// Improvement suggestions for a project idea with the given features; the
/// idea is matched case-insensitively.
pub fn generate_improvements(idea: &str, features: &Vec<crate::state::Feature>) -> (r: Vec<String>)
    ensures
        string_views(r@) == improvements_for(lower_of(idea@), features@.len()),
{
    let lowered = lowercase(idea);
    let l = chars_of(lowered.as_str());
    let l = l.as_slice();
    let ghost lw = lower_of(idea@);
    let mut out: Vec<String> = Vec::new();
    if occurs(l, "user") || occurs(l, "auth") {
        push_text(&mut out, "Consider implementing user authentication and authorization");
    }
    let ghost o1 = string_views(out@);
    if features.len() > 5 {
        push_text(&mut out, "Consider prioritizing features - start with MVP and iterate");
    }
    let ghost o2 = string_views(out@);
    if occurs(l, "data") || occurs(l, "storage") {
        push_text(&mut out, "Plan your data model and storage strategy early");
    }
    let ghost o3 = string_views(out@);
    push_text(&mut out, "Set up proper error handling and logging from the start");
    push_text(&mut out, "Consider implementing automated testing (unit, integration, e2e)");
    push_text(&mut out, "Plan for scalability - design with growth in mind");
    push_text(&mut out, "Document your API contracts early for better team collaboration");
    assert(o1 =~= when(
        has_infix(lw, "user"@) || has_infix(lw, "auth"@),
        seq!["Consider implementing user authentication and authorization"@],
    ));
    assert(o2 =~= o1 + when(
        features@.len() > 5,
        seq!["Consider prioritizing features - start with MVP and iterate"@],
    ));
    assert(o3 =~= o2 + when(
        has_infix(lw, "data"@) || has_infix(lw, "storage"@),
        seq!["Plan your data model and storage strategy early"@],
    ));
    assert(string_views(out@) =~= improvements_for(lw, features@.len()));
    out
}

} // verus!
