//! Request plumbing the screens share: the browser's timezone offset, the project a
//! "+ New" dialog targets, and how an error becomes an HTTP status and escaped text.
use vstd::prelude::*;
use crate::domain::Project;
use crate::text::{
    str_eq, trim, trim_spec, strip_prefix, strip_prefix_spec, split_char, split_spec,
    strings_view, parse_i32, parse_i32_spec,
};

verus! {

/// The browser's timezone offset in minutes (`new Date().getTimezoneOffset()`).
#[derive(Clone, Copy, Debug, PartialEq, Eq, Structural)]
pub struct TzOffset(pub i32);

/// The offset a header value spells, after trimming.
pub open spec fn header_offset(header: Option<Seq<char>>) -> Option<i32> {
    match header {
        Some(h) => parse_i32_spec(trim_spec(h)),
        None => None,
    }
}

/// The value of the first `;`-separated cookie part that, trimmed, starts `tz_offset=`.
pub open spec fn tz_cookie_value(parts: Seq<Seq<char>>) -> Option<Seq<char>>
    decreases parts.len(),
{
    if parts.len() == 0 {
        None
    } else {
        match strip_prefix_spec(trim_spec(parts[0]), "tz_offset="@) {
            Some(v) => Some(v),
            None => tz_cookie_value(parts.drop_first()),
        }
    }
}

/// The offset the `tz_offset` cookie spells.
pub open spec fn cookie_offset(cookie: Option<Seq<char>>) -> Option<i32> {
    match cookie {
        Some(c) => match tz_cookie_value(split_spec(c, ';')) {
            Some(v) => parse_i32_spec(trim_spec(v)),
            None => None,
        },
        None => None,
    }
}

/// The header wins, then the cookie, then UTC.
pub open spec fn tz_offset_spec(header: Option<Seq<char>>, cookie: Option<Seq<char>>) -> i32 {
    match header_offset(header) {
        Some(v) => v,
        None => match cookie_offset(cookie) {
            Some(v) => v,
            None => 0,
        },
    }
}

pub open spec fn opt_str(o: Option<&str>) -> Option<Seq<char>> {
    match o {
        Some(s) => Some(s@),
        None => None,
    }
}

fn find_tz_cookie(parts: &Vec<String>) -> (r: Option<String>)
    ensures
        crate::domain::opt_view(r) == tz_cookie_value(strings_view(parts@)),
{
    let mut i: usize = 0;
    assert(strings_view(parts@).skip(0) =~= strings_view(parts@));
    while i < parts.len()
        invariant
            i <= parts@.len(),
            tz_cookie_value(strings_view(parts@)) == tz_cookie_value(
                strings_view(parts@).skip(i as int),
            ),
        decreases parts@.len() - i,
    {
        let ghost rest = strings_view(parts@).skip(i as int);
        assert(rest[0] == parts@[i as int]@);
        assert(rest.drop_first() =~= strings_view(parts@).skip(i + 1));
        match strip_prefix(trim(parts[i].as_str()), "tz_offset=") {
            Some(v) => {
                return Some(String::from_str(v));
            },
            None => {},
        }
        i = i + 1;
    }
    assert(strings_view(parts@).skip(i as int).len() == 0);
    None
}

/// The offset a request carries: the `X-Tz-Offset-Minutes` header value (trimmed and
/// parsed), else the `tz_offset` cookie, else `0` (UTC).
pub fn tz_offset_from(header: Option<&str>, cookie: Option<&str>) -> (r: TzOffset)
    ensures
        r.0 == tz_offset_spec(opt_str(header), opt_str(cookie)),
{
    let from_header = match header {
        Some(h) => parse_i32(trim(h)),
        None => None,
    };
    match from_header {
        Some(v) => TzOffset(v),
        None => {
            let from_cookie = match cookie {
                Some(c) => {
                    let parts = split_char(c, ';');
                    match find_tz_cookie(&parts) {
                        Some(v) => parse_i32(trim(v.as_str())),
                        None => None,
                    }
                },
                None => None,
            };
            match from_cookie {
                Some(v) => TzOffset(v),
                None => TzOffset(0),
            }
        },
    }
}

/// Index of the first project whose id is `id`.
pub open spec fn project_index(projects: Seq<Project>, id: Seq<char>) -> Option<int>
    decreases projects.len(),
{
    if projects.len() == 0 {
        None
    } else if projects.last().id@ == id {
        match project_index(projects.drop_last(), id) {
            Some(i) => Some(i),
            None => Some(projects.len() - 1),
        }
    } else {
        project_index(projects.drop_last(), id)
    }
}

/// The project a "+ New" dialog targets: the requested project if it is one of the user's,
/// else the personal project if it still is, else the first of them.
pub open spec fn new_item_project_spec(
    projects: Seq<Project>,
    query_project: Option<Seq<char>>,
    personal_project_id: Option<Seq<char>>,
) -> Option<int> {
    let from_query = match query_project {
        Some(id) => project_index(projects, id),
        None => None,
    };
    let from_personal = match personal_project_id {
        Some(id) => project_index(projects, id),
        None => None,
    };
    if from_query is Some {
        from_query
    } else if from_personal is Some {
        from_personal
    } else if projects.len() > 0 {
        Some(0)
    } else {
        None
    }
}

proof fn lemma_project_index_bounds(projects: Seq<Project>, id: Seq<char>)
    ensures
        project_index(projects, id) matches Some(i) ==> 0 <= i < projects.len() && projects[i].id@ == id,
        project_index(projects, id) matches Some(i) ==> forall|k: int| 0 <= k < i ==> projects[k].id@ != id,
        project_index(projects, id) is None ==> forall|k: int| 0 <= k < projects.len() ==> projects[k].id@ != id,
    decreases projects.len(),
{
    if projects.len() > 0 {
        let init = projects.drop_last();
        lemma_project_index_bounds(init, id);
        match project_index(init, id) {
            Some(j) => {
                assert(init[j] == projects[j]);
                assert forall|k: int| 0 <= k < j implies projects[k].id@ != id by {
                    assert(init[k] == projects[k]);
                }
            },
            None => {
                assert forall|k: int| 0 <= k < projects.len() - 1 implies projects[k].id@ != id by {
                    assert(init[k] == projects[k]);
                }
            },
        }
    }
}

fn find_project(projects: &Vec<Project>, id: &str) -> (r: Option<usize>)
    ensures
        match r {
            Some(i) => i < projects@.len() && project_index(projects@, id@) == Some(i as int),
            None => project_index(projects@, id@) is None,
        },
{
    proof {
        lemma_project_index_bounds(projects@, id@);
    }
    let mut i: usize = 0;
    while i < projects.len()
        invariant
            i <= projects@.len(),
            forall|k: int| 0 <= k < i ==> projects@[k].id@ != id@,
        decreases projects@.len() - i,
    {
        if str_eq(projects[i].id.as_str(), id) {
            proof {
                lemma_project_index_bounds(projects@, id@);
                lemma_project_index_first(projects@, id@, i as int);
            }
            return Some(i);
        }
        i = i + 1;
    }
    None
}

proof fn lemma_project_index_first(projects: Seq<Project>, id: Seq<char>, i: int)
    requires
        0 <= i < projects.len(),
        projects[i].id@ == id,
        forall|k: int| 0 <= k < i ==> projects[k].id@ != id,
    ensures
        project_index(projects, id) == Some(i),
    decreases projects.len(),
{
    let init = projects.drop_last();
    if i < projects.len() - 1 {
        assert(init[i] == projects[i]);
        assert forall|k: int| 0 <= k < i implies init[k].id@ != id by {
            assert(init[k] == projects[k]);
        }
        lemma_project_index_first(init, id, i);
    } else {
        lemma_project_index_bounds(init, id);
        if project_index(init, id) is Some {
            let j = project_index(init, id)->0;
            assert(init[j] == projects[j]);
        }
    }
}

/// Which of the user's projects an all-projects "+ New" dialog targets.
pub fn resolve_new_item_project<'a>(
    user_projects: &'a Vec<Project>,
    query_project: Option<&str>,
    personal_project_id: Option<&str>,
) -> (r: Option<&'a Project>)
    ensures
        match new_item_project_spec(user_projects@, opt_str(query_project), opt_str(personal_project_id)) {
            Some(i) => r matches Some(p) && *p == user_projects@[i],
            None => r is None,
        },
{
    let from_query = match query_project {
        Some(id) => find_project(user_projects, id),
        None => None,
    };
    let from_personal = match personal_project_id {
        Some(id) => find_project(user_projects, id),
        None => None,
    };
    match from_query {
        Some(i) => Some(&user_projects[i]),
        None => match from_personal {
            Some(i) => Some(&user_projects[i]),
            None => if user_projects.len() > 0 {
                Some(&user_projects[0])
            } else {
                None
            },
        },
    }
}

/// What a screen's service call can fail with.
#[derive(Clone, Debug)]
pub enum ItemError {
    NotFound,
    Invalid(String),
    Internal(String),
}

/// The HTTP status an error is answered with.
pub open spec fn status_code_spec(e: ItemError) -> u16 {
    match e {
        ItemError::NotFound => 404,
        ItemError::Invalid(_) => 422,
        ItemError::Internal(_) => 500,
    }
}

/// Not found is 404, a rejected input 422, anything else 500.
pub fn status_code(e: &ItemError) -> (r: u16)
    ensures
        r == status_code_spec(*e),
{
    match e {
        ItemError::NotFound => 404,
        ItemError::Invalid(_) => 422,
        ItemError::Internal(_) => 500,
    }
}

/// How one character is written in HTML text.
pub open spec fn escape_char(c: char) -> Seq<char> {
    if c == '&' {
        "&amp;"@
    } else if c == '<' {
        "&lt;"@
    } else if c == '>' {
        "&gt;"@
    } else if c == '"' {
        "&quot;"@
    } else if c == '\'' {
        "&#39;"@
    } else {
        seq![c]
    }
}

/// `s` with every markup-significant character replaced by its entity.
pub open spec fn escape_spec(s: Seq<char>) -> Seq<char>
    decreases s.len(),
{
    if s.len() == 0 {
        Seq::empty()
    } else {
        escape_spec(s.drop_last()) + escape_char(s.last())
    }
}

fn special_entity(c: char) -> (r: Option<&'static str>)
    ensures
        r matches Some(e) ==> e@ == escape_char(c),
        r is None ==> escape_char(c) == seq![c],
{
    if c == '&' {
        Some("&amp;")
    } else if c == '<' {
        Some("&lt;")
    } else if c == '>' {
        Some("&gt;")
    } else if c == '"' {
        Some("&quot;")
    } else if c == '\'' {
        Some("&#39;")
    } else {
        None
    }
}

/// Escapes `&`, `<`, `>`, `"` and `'` for HTML.
pub fn escape_html(s: &str) -> (r: String)
    ensures
        r@ == escape_spec(s@),
{
    let n = s.unicode_len();
    let mut out = String::new();
    let mut i: usize = 0;
    while i < n
        invariant
            n == s@.len(),
            i <= n,
            out@ == escape_spec(s@.take(i as int)),
        decreases n - i,
    {
        let c = s.get_char(i);
        assert(s@.take(i + 1).drop_last() =~= s@.take(i as int));
        match special_entity(c) {
            Some(e) => out.append(e),
            None => {
                let one = s.substring_char(i, i + 1);
                assert(one@ =~= seq![c]);
                out.append(one);
            },
        }
        i = i + 1;
    }
    assert(s@.take(n as int) =~= s@);
    out
}

/// Escaped text holds no `<`, `>`, `"` or `'`: whatever the message, it cannot open a tag or
/// leave an attribute value.
pub proof fn lemma_escaped_has_no_markup(s: Seq<char>)
    ensures
        forall|k: int|
            0 <= k < escape_spec(s).len() ==> {
                let c = #[trigger] escape_spec(s)[k];
                c != '<' && c != '>' && c != '"' && c != '\''
            },
    decreases s.len(),
{
    reveal_strlit("&amp;");
    reveal_strlit("&lt;");
    reveal_strlit("&gt;");
    reveal_strlit("&quot;");
    reveal_strlit("&#39;");
    if s.len() > 0 {
        lemma_escaped_has_no_markup(s.drop_last());
        let a = escape_spec(s.drop_last());
        let b = escape_char(s.last());
        assert forall|k: int| 0 <= k < escape_spec(s).len() implies {
            let c = #[trigger] escape_spec(s)[k];
            c != '<' && c != '>' && c != '"' && c != '\''
        } by {
            if k < a.len() {
                assert(escape_spec(s)[k] == a[k]);
            } else {
                assert(escape_spec(s)[k] == b[k - a.len()]);
            }
        }
    }
}

} // verus!
