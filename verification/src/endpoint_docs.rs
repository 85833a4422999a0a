//! The reference that the assistant reads on the HTTP endpoints it may call.

use vstd::prelude::*;
use vstd::string::*;
use crate::json::{json_quoted, quoted};
use crate::telegram_progress::holds;
use crate::text::{
    CharClass, begins_with, cat2, cat3, cat5, chars_of, decimal, decimal_u64, is_alphanumeric,
    is_digit, is_lower, join, joined, lemma_skip_from, lemma_tail_before, lemma_trim_id,
    lemma_trimmed, lower, owned, pair_views, skip_from, str_eq, to_lower, trim_class, trimmed,
};

verus! {

/// How a call to an endpoint authenticates.
#[derive(Clone, Debug)]
pub enum AuthMethod {
    NoAuth,
    BearerToken,
    Header { name: String },
    HeaderPrefixed { name: String, prefix: String },
    QueryParam { name: String },
    BasicAuth { user: String },
}

/// An endpoint that the user registered.
#[derive(Clone, Debug)]
pub struct RegisteredEndpoint {
    pub name: String,
    pub provider: String,
    pub base_url: String,
    pub auth_method: AuthMethod,
    pub enabled: bool,
    pub notes: Option<String>,
    pub default_headers: Vec<(String, String)>,
    pub default_query_params: Vec<(String, String)>,
    pub requests_per_minute: Option<u32>,
}

/// What the app knows of a service.
#[derive(Clone, Debug)]
pub struct EndpointPreset {
    pub label: String,
    pub base_url: String,
    pub free_tier_blurb: String,
    pub signup_url: String,
    pub test_path: String,
    pub usage_hints: String,
}

// ---------------------------------------------------------------------------
// File names
// ---------------------------------------------------------------------------

/// Letters and digits in lower case, and one underscore for each run of
/// anything else.
pub open spec fn collapsed(s: Seq<char>) -> Seq<char>
    decreases s.len(),
{
    if s.len() == 0 {
        Seq::empty()
    } else {
        let before = collapsed(s.drop_last());
        let c = s.last();
        if is_alphanumeric(c) {
            before.push(lower(c))
        } else if before.len() > 0 && before.last() == '_' {
            before
        } else {
            before.push('_')
        }
    }
}

/// The file name of an endpoint, without its extension.
pub open spec fn file_stem(name: Seq<char>) -> Seq<char> {
    let t = trimmed(collapsed(name), CharClass::Is('_'));
    if t.len() == 0 {
        "endpoint"@
    } else {
        t
    }
}

/// The file name of an endpoint, without its extension.
pub fn sanitize_endpoint_filename(name: &str) -> (r: String)
    ensures
        r@ == file_stem(name@),
{
    let v = chars_of(name);
    let mut out = String::new();
    let mut under = false;
    let mut i: usize = 0;
    while i < v.len()
        invariant
            v@ == name@,
            i <= v@.len(),
            out@ == collapsed(name@.take(i as int)),
            under == (out@.len() > 0 && out@.last() == '_'),
        decreases v@.len() - i,
    {
        proof {
            assert(name@.take(i + 1).drop_last() =~= name@.take(i as int));
            assert(name@.take(i + 1).last() == v@[i as int]);
        }
        let c = v[i];
        if ('A' <= c && c <= 'Z') || ('a' <= c && c <= 'z') || ('0' <= c && c <= '9') {
            out.push(to_lower(c));
            under = false;
        } else if !under {
            out.push('_');
            under = true;
        }
        i += 1;
    }
    proof {
        assert(name@.take(i as int) =~= name@);
    }
    let t = trim_class(out.as_str(), CharClass::Is('_'));
    if t.as_str().is_empty() {
        owned("endpoint")
    } else {
        t
    }
}

/// A character of a file name.
pub open spec fn is_file_char(c: char) -> bool {
    is_lower(c) || is_digit(c) || c == '_'
}

/// Only characters of file names, and no two underscores side by side.
pub open spec fn is_clean(s: Seq<char>) -> bool {
    &&& forall|i: int| 0 <= i < s.len() ==> is_file_char(#[trigger] s[i])
    &&& forall|i: int, j: int|
        0 <= i && j == i + 1 && j < s.len() ==> !(#[trigger] s[i] == '_' && #[trigger] s[j] == '_')
}

proof fn lemma_collapsed_is_clean(s: Seq<char>)
    ensures
        is_clean(collapsed(s)),
    decreases s.len(),
{
    if s.len() > 0 {
        let before = collapsed(s.drop_last());
        lemma_collapsed_is_clean(s.drop_last());
        let c = s.last();
        let after = collapsed(s);
        if is_alphanumeric(c) {
            assert(is_file_char(lower(c)) && lower(c) != '_');
        }
        assert forall|i: int| 0 <= i < after.len() implies is_file_char(#[trigger] after[i]) by {
            if i < before.len() {
                assert(after[i] == before[i]);
            }
        }
        assert forall|i: int, j: int| 0 <= i && j == i + 1 && j < after.len() implies !(
        #[trigger] after[i] == '_' && #[trigger] after[j] == '_') by {
            assert(after[i] == before[i]);
            if j < before.len() {
                assert(after[j] == before[j]);
            }
        }
    }
}

proof fn lemma_clean_is_kept(s: Seq<char>)
    requires
        is_clean(s),
    ensures
        collapsed(s) == s,
    decreases s.len(),
{
    if s.len() > 0 {
        let init = s.drop_last();
        assert(is_clean(init)) by {
            assert forall|i: int| 0 <= i < init.len() implies is_file_char(#[trigger] init[i]) by {
                assert(init[i] == s[i]);
            }
            assert forall|i: int, j: int| 0 <= i && j == i + 1 && j < init.len() implies !(
            #[trigger] init[i] == '_' && #[trigger] init[j] == '_') by {
                assert(init[i] == s[i] && init[j] == s[j]);
            }
        }
        lemma_clean_is_kept(init);
        let c = s.last();
        assert(is_file_char(s[s.len() - 1]));
        assert(init.push(c) =~= s);
        if c == '_' && init.len() > 0 {
            assert(!(s[s.len() - 2] == '_' && s[s.len() - 1] == '_'));
            assert(init.last() == s[s.len() - 2]);
        }
    } else {
        assert(collapsed(s) =~= s);
    }
}

/// A file name holds only lower-case letters, digits and single underscores,
/// neither begins nor ends with one, and is never empty.
pub proof fn file_stems_are_clean(name: Seq<char>)
    ensures
        is_clean(file_stem(name)),
        file_stem(name).len() > 0,
        file_stem(name)[0] != '_',
        file_stem(name).last() != '_',
{
    let c = collapsed(name);
    let k = CharClass::Is('_');
    let t = trimmed(c, k);
    lemma_collapsed_is_clean(name);
    lemma_trimmed(c, k);
    reveal_strlit("endpoint");
    if t.len() > 0 {
        let a = skip_from(c, k, 0);
        lemma_skip_from(c, k, 0);
        lemma_tail_before(c, k, c.len() as int);
        assert forall|i: int| 0 <= i < t.len() implies is_file_char(#[trigger] t[i]) by {
            assert(t[i] == c[a + i]);
        }
        assert forall|i: int, j: int| 0 <= i && j == i + 1 && j < t.len() implies !(#[trigger] t[i]
            == '_' && #[trigger] t[j] == '_') by {
            assert(t[i] == c[a + i] && t[j] == c[a + j]);
        }
    }
}

/// A file name is its own file name.
pub proof fn file_stems_are_stable(name: Seq<char>)
    ensures
        file_stem(file_stem(name)) == file_stem(name),
{
    let f = file_stem(name);
    file_stems_are_clean(name);
    lemma_clean_is_kept(f);
    lemma_trim_id(f, CharClass::Is('_'));
}

// ---------------------------------------------------------------------------
// One line per endpoint
// ---------------------------------------------------------------------------

/// How calls authenticate, in words.
pub open spec fn auth_text(a: AuthMethod) -> Seq<char> {
    match a {
        AuthMethod::NoAuth => "no auth"@,
        AuthMethod::BearerToken => "Bearer token"@,
        AuthMethod::Header { name } => "header `"@ + name@ + "`"@,
        AuthMethod::HeaderPrefixed { name, prefix } => "header `"@ + name@ + "` (prefix `"@
            + prefix@ + "`)"@,
        AuthMethod::QueryParam { name } => "query param `"@ + name@ + "`"@,
        AuthMethod::BasicAuth { user } => "basic auth (user `"@ + user@ + "`)"@,
    }
}

/// How calls authenticate, in words.
pub fn auth_method_short(a: &AuthMethod) -> (r: String)
    ensures
        r@ == auth_text(*a),
{
    match a {
        AuthMethod::NoAuth => owned("no auth"),
        AuthMethod::BearerToken => owned("Bearer token"),
        AuthMethod::Header { name } => cat3("header `", name.as_str(), "`"),
        AuthMethod::HeaderPrefixed { name, prefix } => cat5(
            "header `",
            name.as_str(),
            "` (prefix `",
            prefix.as_str(),
            "`)",
        ),
        AuthMethod::QueryParam { name } => cat3("query param `", name.as_str(), "`"),
        AuthMethod::BasicAuth { user } => cat3("basic auth (user `", user.as_str(), "`)"),
    }
}

/// The user's notes, where there are any.
pub open spec fn notes_of(ep: RegisteredEndpoint) -> Option<Seq<char>> {
    match ep.notes {
        Some(n) => if n@.len() > 0 {
            Some(n@)
        } else {
            None
        },
        None => None,
    }
}

/// The parts of the line on an endpoint.
pub open spec fn line_parts(ep: RegisteredEndpoint, preset: Option<EndpointPreset>) -> Seq<
    Seq<char>,
> {
    seq![auth_text(ep.auth_method)] + (match preset {
        Some(p) => seq![p.free_tier_blurb@],
        None => Seq::empty(),
    }) + (match notes_of(ep) {
        Some(n) => seq![n],
        None => Seq::empty(),
    }) + (if ep.enabled {
        Seq::empty()
    } else {
        seq!["DISABLED"@]
    })
}

/// The line on an endpoint.
pub open spec fn one_liner(ep: RegisteredEndpoint, preset: Option<EndpointPreset>) -> Seq<char> {
    joined(line_parts(ep, preset), " — "@)
}

/// The preset, taken by value.
pub open spec fn preset_of(preset: Option<&EndpointPreset>) -> Option<EndpointPreset> {
    match preset {
        Some(p) => Some(*p),
        None => None,
    }
}

fn push_part(v: &mut Vec<String>, s: String)
    ensures
        final(v).deep_view() == old(v).deep_view().push(s@),
{
    let ghost before = v.deep_view();
    v.push(s);
    proof {
        assert(v.deep_view() =~= before.push(s@));
    }
}

/// The line on an endpoint.
pub fn endpoint_one_liner(ep: &RegisteredEndpoint, preset: Option<&EndpointPreset>) -> (r: String)
    ensures
        r@ == one_liner(*ep, preset_of(preset)),
{
    let mut parts: Vec<String> = Vec::new();
    push_part(&mut parts, auth_method_short(&ep.auth_method));
    if let Some(p) = preset {
        push_part(&mut parts, p.free_tier_blurb.clone());
    }
    if let Some(n) = &ep.notes {
        if !n.as_str().is_empty() {
            push_part(&mut parts, n.clone());
        }
    }
    if !ep.enabled {
        push_part(&mut parts, owned("DISABLED"));
    }
    proof {
        assert(parts.deep_view() =~= line_parts(*ep, preset_of(preset)));
    }
    join(&parts, " — ")
}

/// The preset fits the endpoint: by its address or by its name.
pub open spec fn preset_fits(p: EndpointPreset, ep: RegisteredEndpoint) -> bool {
    p.base_url@ == ep.base_url@ || p.label@ == ep.name@
}

/// The first preset that fits, from `i` on, or the length.
pub open spec fn preset_index(presets: Seq<EndpointPreset>, ep: RegisteredEndpoint, i: int) -> int
    decreases presets.len() - i,
{
    if i < 0 || i >= presets.len() {
        presets.len() as int
    } else if preset_fits(presets[i], ep) {
        i
    } else {
        preset_index(presets, ep, i + 1)
    }
}

/// The first preset that fits the endpoint.
pub fn find_preset<'a>(presets: &'a Vec<EndpointPreset>, ep: &RegisteredEndpoint) -> (r: Option<
    &'a EndpointPreset,
>)
    ensures
        match r {
            Some(p) => preset_index(presets@, *ep, 0) < presets@.len() && *p
                == presets@[preset_index(presets@, *ep, 0)],
            None => preset_index(presets@, *ep, 0) == presets@.len(),
        },
{
    let mut i: usize = 0;
    while i < presets.len()
        invariant
            i <= presets@.len(),
            preset_index(presets@, *ep, 0) == preset_index(presets@, *ep, i as int),
        decreases presets@.len() - i,
    {
        if str_eq(presets[i].base_url.as_str(), ep.base_url.as_str()) || str_eq(
            presets[i].label.as_str(),
            ep.name.as_str(),
        ) {
            return Some(&presets[i]);
        }
        i += 1;
    }
    None
}

// ---------------------------------------------------------------------------
// The index
// ---------------------------------------------------------------------------

/// A line of the index: the endpoint, what is said of it, and its file.
#[derive(Clone, Debug)]
pub struct IndexRow {
    pub name: String,
    pub blurb: String,
    pub path: String,
}

/// The lines of the index.
pub open spec fn index_lines(rows: Seq<IndexRow>) -> Seq<char>
    decreases rows.len(),
{
    if rows.len() == 0 {
        Seq::empty()
    } else {
        let r = rows.last();
        index_lines(rows.drop_last()) + "- **"@ + r.name@ + "** — "@ + r.blurb@ + "\n  Detail: `"@
            + r.path@ + "`\n"@
    }
}

/// The index.
pub open spec fn index_text(rows: Seq<IndexRow>) -> Seq<char> {
    if rows.len() == 0 {
        "# Registered HTTP endpoints (`http_request`)\n\nNo endpoints registered. The user manages this list in Settings → Cloud APIs. Until at least one is registered, the `http_request` tool has nothing to call.\n"@
    } else {
        "# Registered HTTP endpoints (`http_request`)\n\nIndex of every endpoint Athen can reach via `http_request`. For the full per-endpoint usage (sample paths, auth specifics, free-tier limits), `read` the linked detail file — they are tiny so reads stay cheap.\n\n"@
            + index_lines(rows)
            + "\nCall shape: `http_request(endpoint=\"<name>\", path=\"<rest>\", method=\"GET\"|\"POST\"|...)`. The path is joined onto the endpoint's base_url; query parameters can ride in `path` or in a structured `query` object.\n"@
    }
}

/// The index.
pub fn render_cloud_apis_index(rows: &Vec<IndexRow>) -> (r: String)
    ensures
        r@ == index_text(rows@),
{
    if rows.len() == 0 {
        return owned(
            "# Registered HTTP endpoints (`http_request`)\n\nNo endpoints registered. The user manages this list in Settings → Cloud APIs. Until at least one is registered, the `http_request` tool has nothing to call.\n",
        );
    }
    let mut lines = String::new();
    let mut i: usize = 0;
    while i < rows.len()
        invariant
            i <= rows@.len(),
            lines@ == index_lines(rows@.take(i as int)),
        decreases rows@.len() - i,
    {
        lines.append("- **");
        lines.append(rows[i].name.as_str());
        lines.append("** — ");
        lines.append(rows[i].blurb.as_str());
        lines.append("\n  Detail: `");
        lines.append(rows[i].path.as_str());
        lines.append("`\n");
        proof {
            assert(rows@.take(i + 1).drop_last() =~= rows@.take(i as int));
            assert(rows@.take(i + 1).last() == rows@[i as int]);
        }
        i += 1;
    }
    proof {
        assert(rows@.take(i as int) =~= rows@);
    }
    cat3(
        "# Registered HTTP endpoints (`http_request`)\n\nIndex of every endpoint Athen can reach via `http_request`. For the full per-endpoint usage (sample paths, auth specifics, free-tier limits), `read` the linked detail file — they are tiny so reads stay cheap.\n\n",
        lines.as_str(),
        "\nCall shape: `http_request(endpoint=\"<name>\", path=\"<rest>\", method=\"GET\"|\"POST\"|...)`. The path is joined onto the endpoint's base_url; query parameters can ride in `path` or in a structured `query` object.\n",
    )
}

// ---------------------------------------------------------------------------
// The details
// ---------------------------------------------------------------------------

/// A call that can be tried.
pub open spec fn sample_call(name: Seq<char>, path: Seq<char>) -> Seq<char> {
    "## Sample call\n\n```json\n{\n  \"endpoint\": "@ + json_quoted(name)
        + ",\n  \"method\": \"GET\",\n  \"path\": "@ + json_quoted(path) + "\n}\n```\n\n"@
}

/// The section that a preset adds first.
pub open spec fn preset_section(ep: RegisteredEndpoint, preset: Option<EndpointPreset>) -> Seq<
    char,
> {
    match preset {
        Some(p) => {
            "Free tier: "@ + p.free_tier_blurb@ + "\n\nSign-up / docs: "@ + p.signup_url@ + "\n\n"@
                + (if p.test_path@.len() > 0 {
                sample_call(ep.name@, p.test_path@)
            } else {
                Seq::empty()
            }) + (if p.usage_hints@.len() > 0 {
                "## Usage hints\n\n"@ + p.usage_hints@ + "\n\n"@
            } else {
                Seq::empty()
            })
        },
        None => Seq::empty(),
    }
}

/// The lines of pairs.
pub open spec fn pair_lines(rows: Seq<(Seq<char>, Seq<char>)>, sep: Seq<char>) -> Seq<char>
    decreases rows.len(),
{
    if rows.len() == 0 {
        Seq::empty()
    } else {
        pair_lines(rows.drop_last(), sep) + "- `"@ + rows.last().0 + sep + rows.last().1 + "`\n"@
    }
}

/// A section of pairs, under a title; nothing where there are none.
pub open spec fn pair_section(
    title: Seq<char>,
    rows: Seq<(Seq<char>, Seq<char>)>,
    sep: Seq<char>,
) -> Seq<char> {
    if rows.len() == 0 {
        Seq::empty()
    } else {
        title + pair_lines(rows, sep) + "\n"@
    }
}

/// The section on the rate limit.
pub open spec fn rate_section(limit: Option<u32>) -> Seq<char> {
    match limit {
        Some(n) => if n > 0 {
            "Rate limit: "@ + decimal(n as nat)
                + " req/min (in-process; exceeding returns a structured `rate_limited` error).\n\n"@
        } else {
            Seq::empty()
        },
        None => Seq::empty(),
    }
}

/// Everything on one endpoint.
pub open spec fn detail_text(ep: RegisteredEndpoint, preset: Option<EndpointPreset>) -> Seq<char> {
    "# "@ + ep.name@ + "\n\nProvider: "@ + ep.provider@ + "\n\nBase URL: `"@ + ep.base_url@
        + "`\n\nAuth: "@ + auth_text(ep.auth_method) + "\n\n"@ + (if ep.enabled {
        Seq::empty()
    } else {
        "⚠ Endpoint is currently DISABLED — calls will refuse.\n\n"@
    }) + preset_section(ep, preset) + (match notes_of(ep) {
        Some(n) => "## Notes (user-provided)\n\n"@ + n + "\n\n"@,
        None => Seq::empty(),
    }) + pair_section(
        "## Default headers (sent on every call)\n\n"@,
        pair_views(ep.default_headers@),
        ": "@,
    ) + pair_section(
        "## Default query params (sent on every call)\n\n"@,
        pair_views(ep.default_query_params@),
        "="@,
    ) + rate_section(ep.requests_per_minute)
}

fn render_pairs(title: &str, rows: &Vec<(String, String)>, sep: &str) -> (r: String)
    ensures
        r@ == pair_section(title@, pair_views(rows@), sep@),
{
    let ghost all = pair_views(rows@);
    if rows.len() == 0 {
        return String::new();
    }
    let mut lines = String::new();
    let mut i: usize = 0;
    while i < rows.len()
        invariant
            all == pair_views(rows@),
            i <= rows@.len(),
            lines@ == pair_lines(all.take(i as int), sep@),
        decreases rows@.len() - i,
    {
        lines.append("- `");
        lines.append(rows[i].0.as_str());
        lines.append(sep);
        lines.append(rows[i].1.as_str());
        lines.append("`\n");
        proof {
            assert(all.take(i + 1).drop_last() =~= all.take(i as int));
            assert(all.take(i + 1).last() == all[i as int]);
        }
        i += 1;
    }
    proof {
        assert(all.take(i as int) =~= all);
    }
    cat3(title, lines.as_str(), "\n")
}

fn render_preset(ep: &RegisteredEndpoint, preset: Option<&EndpointPreset>) -> (r: String)
    ensures
        r@ == preset_section(*ep, preset_of(preset)),
{
    let p = match preset {
        Some(p) => p,
        None => {
            return String::new();
        },
    };
    let sample = if p.test_path.as_str().is_empty() {
        String::new()
    } else {
        let name = quoted(ep.name.as_str());
        let path = quoted(p.test_path.as_str());
        cat5(
            "## Sample call\n\n```json\n{\n  \"endpoint\": ",
            name.as_str(),
            ",\n  \"method\": \"GET\",\n  \"path\": ",
            path.as_str(),
            "\n}\n```\n\n",
        )
    };
    let hints = if p.usage_hints.as_str().is_empty() {
        String::new()
    } else {
        cat3("## Usage hints\n\n", p.usage_hints.as_str(), "\n\n")
    };
    let mut out = cat5(
        "Free tier: ",
        p.free_tier_blurb.as_str(),
        "\n\nSign-up / docs: ",
        p.signup_url.as_str(),
        "\n\n",
    );
    out.append(sample.as_str());
    out.append(hints.as_str());
    out
}

/// Everything on one endpoint.
pub fn render_endpoint_detail(ep: &RegisteredEndpoint, preset: Option<&EndpointPreset>) -> (r:
    String)
    ensures
        r@ == detail_text(*ep, preset_of(preset)),
{
    let auth = auth_method_short(&ep.auth_method);
    let disabled = if ep.enabled {
        String::new()
    } else {
        owned("⚠ Endpoint is currently DISABLED — calls will refuse.\n\n")
    };
    let preset_text = render_preset(ep, preset);
    let notes = match &ep.notes {
        Some(n) => if n.as_str().is_empty() {
            String::new()
        } else {
            cat3("## Notes (user-provided)\n\n", n.as_str(), "\n\n")
        },
        None => String::new(),
    };
    let headers = render_pairs(
        "## Default headers (sent on every call)\n\n",
        &ep.default_headers,
        ": ",
    );
    let params = render_pairs(
        "## Default query params (sent on every call)\n\n",
        &ep.default_query_params,
        "=",
    );
    let rate = match ep.requests_per_minute {
        Some(n) => if n > 0 {
            let num = decimal_u64(n as u64);
            cat3(
                "Rate limit: ",
                num.as_str(),
                " req/min (in-process; exceeding returns a structured `rate_limited` error).\n\n",
            )
        } else {
            String::new()
        },
        None => String::new(),
    };
    let mut out = cat5(
        "# ",
        ep.name.as_str(),
        "\n\nProvider: ",
        ep.provider.as_str(),
        "\n\nBase URL: `",
    );
    out.append(ep.base_url.as_str());
    out.append("`\n\nAuth: ");
    out.append(auth.as_str());
    out.append("\n\n");
    out.append(disabled.as_str());
    out.append(preset_text.as_str());
    out.append(notes.as_str());
    out.append(headers.as_str());
    out.append(params.as_str());
    out.append(rate.as_str());
    out
}

// ---------------------------------------------------------------------------
// Stray files
// ---------------------------------------------------------------------------

/// A file in the directory of details.
#[derive(Clone, Debug)]
pub struct DocFile {
    pub name: String,
    pub is_markdown: bool,
}

/// The files to remove: the markdown files that no endpoint has any more.
pub open spec fn stale(files: Seq<DocFile>, current: Seq<Seq<char>>) -> Seq<Seq<char>>
    decreases files.len(),
{
    if files.len() == 0 {
        Seq::empty()
    } else {
        let before = stale(files.drop_last(), current);
        let f = files.last();
        if f.is_markdown && !current.contains(f.name@) {
            before.push(f.name@)
        } else {
            before
        }
    }
}

/// The files to remove.
pub fn stale_files(files: &Vec<DocFile>, current: &Vec<String>) -> (r: Vec<String>)
    ensures
        r.deep_view() == stale(files@, current.deep_view()),
{
    let mut out: Vec<String> = Vec::new();
    let mut i: usize = 0;
    proof {
        assert(out.deep_view() =~= stale(files@.take(0), current.deep_view()));
    }
    while i < files.len()
        invariant
            i <= files@.len(),
            out.deep_view() == stale(files@.take(i as int), current.deep_view()),
        decreases files@.len() - i,
    {
        proof {
            assert(files@.take(i + 1).drop_last() =~= files@.take(i as int));
            assert(files@.take(i + 1).last() == files@[i as int]);
        }
        if files[i].is_markdown && !holds(current, files[i].name.as_str()) {
            push_part(&mut out, files[i].name.clone());
        }
        i += 1;
    }
    proof {
        assert(files@.take(i as int) =~= files@);
    }
    out
}

/// A file that an endpoint has is never removed.
pub proof fn current_files_are_kept(files: Seq<DocFile>, current: Seq<Seq<char>>, i: int)
    requires
        0 <= i < stale(files, current).len(),
    ensures
        !current.contains(stale(files, current)[i]),
    decreases files.len(),
{
    if i < stale(files.drop_last(), current).len() {
        current_files_are_kept(files.drop_last(), current, i);
    }
}

// ---------------------------------------------------------------------------
// All files
// ---------------------------------------------------------------------------

/// The file on one endpoint, and its line in the index.
#[derive(Clone, Debug)]
pub struct EndpointDoc {
    pub file_name: String,
    pub detail: String,
    pub name: String,
    pub one_liner: String,
}

/// The preset of an endpoint, if one fits.
pub open spec fn fitting_preset(presets: Seq<EndpointPreset>, ep: RegisteredEndpoint) -> Option<
    EndpointPreset,
> {
    let i = preset_index(presets, ep, 0);
    if 0 <= i < presets.len() {
        Some(presets[i])
    } else {
        None
    }
}

/// `d` is the file on the endpoint.
pub open spec fn documents(d: EndpointDoc, ep: RegisteredEndpoint, presets: Seq<EndpointPreset>)
    -> bool {
    let preset = fitting_preset(presets, ep);
    &&& d.file_name@ == file_stem(ep.name@) + ".md"@
    &&& d.detail@ == detail_text(ep, preset)
    &&& d.name@ == ep.name@
    &&& d.one_liner@ == one_liner(ep, preset)
}

/// The files on the endpoints, in order.
pub fn refresh_cloud_apis_doc(
    endpoints: &Vec<RegisteredEndpoint>,
    presets: &Vec<EndpointPreset>,
) -> (r: Vec<EndpointDoc>)
    ensures
        r@.len() == endpoints@.len(),
        forall|i: int|
            0 <= i < r@.len() ==> documents(#[trigger] r@[i], endpoints@[i], presets@),
{
    let mut out: Vec<EndpointDoc> = Vec::new();
    let mut i: usize = 0;
    while i < endpoints.len()
        invariant
            i <= endpoints@.len(),
            out@.len() == i,
            forall|j: int|
                0 <= j < i ==> documents(#[trigger] out@[j], endpoints@[j], presets@),
        decreases endpoints@.len() - i,
    {
        let ep = &endpoints[i];
        let preset = find_preset(presets, ep);
        proof {
            lemma_preset_index(presets@, *ep, 0);
            assert(preset_of(preset) == fitting_preset(presets@, *ep));
        }
        let stem = sanitize_endpoint_filename(ep.name.as_str());
        out.push(
            EndpointDoc {
                file_name: cat2(stem.as_str(), ".md"),
                detail: render_endpoint_detail(ep, preset),
                name: ep.name.clone(),
                one_liner: endpoint_one_liner(ep, preset),
            },
        );
        i += 1;
    }
    out
}

proof fn lemma_preset_index(presets: Seq<EndpointPreset>, ep: RegisteredEndpoint, i: int)
    requires
        0 <= i <= presets.len(),
    ensures
        i <= preset_index(presets, ep, i) <= presets.len(),
    decreases presets.len() - i,
{
    if i < presets.len() && !preset_fits(presets[i], ep) {
        lemma_preset_index(presets, ep, i + 1);
    }
}

// ---------------------------------------------------------------------------
// What the documentation of endpoints promises
// ---------------------------------------------------------------------------

/// A file name keeps the letters and digits of a name, in lower case and in
/// order. Whatever stands between them becomes one underscore, and what is
/// left of the ends is cut.
pub proof fn file_names_keep_letters_and_digits(name: Seq<char>, c: char)
    ensures
        collapsed(Seq::empty()).len() == 0,
        is_alphanumeric(c) ==> collapsed(name.push(c)) == collapsed(name).push(lower(c)),
        !is_alphanumeric(c) && collapsed(name).len() > 0 && collapsed(name).last() == '_'
            ==> collapsed(name.push(c)) == collapsed(name),
        !is_alphanumeric(c) && (collapsed(name).len() == 0 || collapsed(name).last() != '_')
            ==> collapsed(name.push(c)) == collapsed(name).push('_'),
        is_alphanumeric(c) <==> ('a' <= c <= 'z' || 'A' <= c <= 'Z' || '0' <= c <= '9'),
        trimmed(collapsed(name), CharClass::Is('_')).len() > 0 ==> file_stem(name) == trimmed(
            collapsed(name),
            CharClass::Is('_'),
        ),
        trimmed(collapsed(name), CharClass::Is('_')).len() == 0 ==> file_stem(name) == "endpoint"@,
{
    assert(name.push(c).drop_last() =~= name);
    assert(name.push(c).last() == c);
}

/// Each way to authenticate is told in its own words, with the names that it
/// uses.
pub proof fn authentication_is_told(name: String, prefix: String)
    ensures
        auth_text(AuthMethod::NoAuth) == "no auth"@,
        auth_text(AuthMethod::BearerToken) == "Bearer token"@,
        auth_text(AuthMethod::Header { name }) == "header `"@ + name@ + "`"@,
        auth_text(AuthMethod::HeaderPrefixed { name, prefix }) == "header `"@ + name@
            + "` (prefix `"@ + prefix@ + "`)"@,
        auth_text(AuthMethod::QueryParam { name }) == "query param `"@ + name@ + "`"@,
        auth_text(AuthMethod::BasicAuth { user: name }) == "basic auth (user `"@ + name@ + "`)"@,
{
}

/// The line on an endpoint tells how it authenticates, then what its free tier
/// is, then what the user noted, and last that it is disabled, each only where
/// there is anything to tell.
pub proof fn lines_tell_auth_tier_notes_and_state(
    ep: RegisteredEndpoint,
    preset: Option<EndpointPreset>,
)
    ensures
        ({
            let v = line_parts(ep, preset);
            let noted = ep.notes is Some && ep.notes->0@.len() > 0;
            let n = 1 + (if preset is Some {
                1int
            } else {
                0int
            });
            let m = n + (if noted {
                1int
            } else {
                0int
            });
            &&& v[0] == auth_text(ep.auth_method)
            &&& preset matches Some(p) ==> v[1] == p.free_tier_blurb@
            &&& noted ==> v[n] == ep.notes->0@
            &&& ep.enabled ==> v.len() == m
            &&& !ep.enabled ==> v.len() == m + 1 && v[m] == "DISABLED"@
            &&& one_liner(ep, preset) == joined(v, " — "@)
        }),
{
}

proof fn lemma_preset_place(presets: Seq<EndpointPreset>, ep: RegisteredEndpoint, i: int)
    requires
        0 <= i <= presets.len(),
    ensures
        i <= preset_index(presets, ep, i) <= presets.len(),
        preset_index(presets, ep, i) < presets.len() ==> preset_fits(
            presets[preset_index(presets, ep, i)],
            ep,
        ),
        forall|j: int|
            i <= j < preset_index(presets, ep, i) ==> !preset_fits(#[trigger] presets[j], ep),
    decreases presets.len() - i,
{
    if i < presets.len() && !preset_fits(presets[i], ep) {
        lemma_preset_place(presets, ep, i + 1);
    }
}

/// The preset of an endpoint is the first one with its base URL or its name.
pub proof fn the_first_fitting_preset_is_used(
    presets: Seq<EndpointPreset>,
    ep: RegisteredEndpoint,
    i: int,
)
    requires
        0 <= i <= presets.len(),
        forall|j: int|
            0 <= j < i ==> (#[trigger] presets[j]).base_url@ != ep.base_url@ && presets[j].label@
                != ep.name@,
    ensures
        i == presets.len() ==> fitting_preset(presets, ep) is None,
        i < presets.len() && (presets[i].base_url@ == ep.base_url@ || presets[i].label@ == ep.name@)
            ==> fitting_preset(presets, ep) == Some(presets[i]),
{
    lemma_preset_place(presets, ep, 0);
    let k = preset_index(presets, ep, 0);
    if k < i {
        assert(preset_fits(presets[k], ep));
    }
    if i < presets.len() && i < k {
        assert(!preset_fits(presets[i], ep));
    }
}

spec fn index_line(r: IndexRow) -> Seq<char> {
    "- **"@ + r.name@ + "** — "@ + r.blurb@ + "\n  Detail: `"@ + r.path@ + "`\n"@
}

proof fn lemma_index_step(rows: Seq<IndexRow>)
    requires
        rows.len() > 0,
    ensures
        index_lines(rows) == index_lines(rows.drop_last()) + index_line(rows.last()),
{
    assert(index_lines(rows) =~= index_lines(rows.drop_last()) + index_line(rows.last()));
}

proof fn lemma_index_join(a: Seq<IndexRow>, b: Seq<IndexRow>)
    ensures
        index_lines(a + b) == index_lines(a) + index_lines(b),
    decreases b.len(),
{
    if b.len() == 0 {
        assert(a + b =~= a);
        assert(index_lines(a) + index_lines(b) =~= index_lines(a));
    } else {
        lemma_index_join(a, b.drop_last());
        lemma_index_step(b);
        lemma_index_step(a + b);
        assert((a + b).drop_last() =~= a + b.drop_last());
        assert((a + b).last() == b.last());
        let x = index_lines(a);
        let y = index_lines(b.drop_last());
        let z = index_line(b.last());
        assert((x + y) + z =~= x + (y + z));
    }
}

/// The index has one entry for each endpoint, in order, with its name, its
/// line and the file on it.
pub proof fn the_index_lists_every_endpoint(a: Seq<IndexRow>, b: Seq<IndexRow>, r: IndexRow)
    ensures
        index_lines(a + b) == index_lines(a) + index_lines(b),
        index_lines(seq![r]) == "- **"@ + r.name@ + "** — "@ + r.blurb@ + "\n  Detail: `"@ + r.path@
            + "`\n"@,
        a.len() > 0 ==> exists|head: Seq<char>, foot: Seq<char>|
            index_text(a) == #[trigger] (head + index_lines(a) + foot),
{
    lemma_index_join(a, b);
    assert(seq![r].drop_last() =~= Seq::<IndexRow>::empty());
    assert(seq![r].last() == r);
    lemma_index_step(seq![r]);
    assert(index_lines(Seq::<IndexRow>::empty()) =~= Seq::<char>::empty());
    assert(index_lines(seq![r]) =~= index_line(r));
    if a.len() > 0 {
        let head =
            "# Registered HTTP endpoints (`http_request`)\n\nIndex of every endpoint Athen can reach via `http_request`. For the full per-endpoint usage (sample paths, auth specifics, free-tier limits), `read` the linked detail file — they are tiny so reads stay cheap.\n\n"@;
        let foot =
            "\nCall shape: `http_request(endpoint=\"<name>\", path=\"<rest>\", method=\"GET\"|\"POST\"|...)`. The path is joined onto the endpoint's base_url; query parameters can ride in `path` or in a structured `query` object.\n"@;
        assert(index_text(a) == head + index_lines(a) + foot);
    }
}

spec fn pair_line(row: (Seq<char>, Seq<char>), sep: Seq<char>) -> Seq<char> {
    "- `"@ + row.0 + sep + row.1 + "`\n"@
}

proof fn lemma_pair_step(rows: Seq<(Seq<char>, Seq<char>)>, sep: Seq<char>)
    requires
        rows.len() > 0,
    ensures
        pair_lines(rows, sep) == pair_lines(rows.drop_last(), sep) + pair_line(rows.last(), sep),
{
    assert(pair_lines(rows, sep) =~= pair_lines(rows.drop_last(), sep) + pair_line(
        rows.last(),
        sep,
    ));
}

/// Pairs are listed one by one, in order, and a section without any is left
/// out.
pub proof fn pairs_are_listed_in_order(
    a: Seq<(Seq<char>, Seq<char>)>,
    b: Seq<(Seq<char>, Seq<char>)>,
    one: (Seq<char>, Seq<char>),
    sep: Seq<char>,
    title: Seq<char>,
)
    ensures
        pair_lines(a + b, sep) == pair_lines(a, sep) + pair_lines(b, sep),
        pair_lines(seq![one], sep) == "- `"@ + one.0 + sep + one.1 + "`\n"@,
        a.len() == 0 ==> pair_section(title, a, sep).len() == 0,
        a.len() > 0 ==> pair_section(title, a, sep) == title + pair_lines(a, sep) + "\n"@,
    decreases b.len(),
{
    if b.len() == 0 {
        assert(a + b =~= a);
        assert(pair_lines(a, sep) + pair_lines(b, sep) =~= pair_lines(a, sep));
    } else {
        pairs_are_listed_in_order(a, b.drop_last(), one, sep, title);
        lemma_pair_step(b, sep);
        lemma_pair_step(a + b, sep);
        assert((a + b).drop_last() =~= a + b.drop_last());
        assert((a + b).last() == b.last());
        let x = pair_lines(a, sep);
        let y = pair_lines(b.drop_last(), sep);
        let z = pair_line(b.last(), sep);
        assert((x + y) + z =~= x + (y + z));
    }
    assert(seq![one].drop_last() =~= Seq::<(Seq<char>, Seq<char>)>::empty());
    assert(seq![one].last() == one);
    lemma_pair_step(seq![one], sep);
    assert(pair_lines(Seq::<(Seq<char>, Seq<char>)>::empty(), sep) =~= Seq::<char>::empty());
    assert(pair_lines(seq![one], sep) =~= pair_line(one, sep));
}

/// A limit is told where there is one, and a preset with its free tier, its
/// address, and a sample call and hints where it has them.
pub proof fn limits_and_presets_are_told(n: u32, ep: RegisteredEndpoint, p: EndpointPreset)
    ensures
        rate_section(None).len() == 0,
        rate_section(Some(0)).len() == 0,
        n > 0 ==> rate_section(Some(n)) == "Rate limit: "@ + decimal(n as nat)
            + " req/min (in-process; exceeding returns a structured `rate_limited` error).\n\n"@,
        preset_section(ep, None).len() == 0,
        ({
            let head = "Free tier: "@ + p.free_tier_blurb@ + "\n\nSign-up / docs: "@ + p.signup_url@
                + "\n\n"@;
            let sample = sample_call(ep.name@, p.test_path@);
            let hints = "## Usage hints\n\n"@ + p.usage_hints@ + "\n\n"@;
            let r = preset_section(ep, Some(p));
            &&& p.test_path@.len() == 0 && p.usage_hints@.len() == 0 ==> r == head
            &&& p.test_path@.len() > 0 && p.usage_hints@.len() == 0 ==> r == head + sample
            &&& p.test_path@.len() == 0 && p.usage_hints@.len() > 0 ==> r == head + hints
            &&& p.test_path@.len() > 0 && p.usage_hints@.len() > 0 ==> r == head + sample + hints
        }),
{
    let head = "Free tier: "@ + p.free_tier_blurb@ + "\n\nSign-up / docs: "@ + p.signup_url@
        + "\n\n"@;
    let none = Seq::<char>::empty();
    let sample = sample_call(ep.name@, p.test_path@);
    let hints = "## Usage hints\n\n"@ + p.usage_hints@ + "\n\n"@;
    assert(head + none + none =~= head);
    assert(head + sample + none =~= head + sample);
    assert(head + none + hints =~= head + hints);
}

/// The file on an endpoint begins with what it is called, who provides it,
/// where it is and how calls authenticate.
pub proof fn files_begin_with_the_endpoint(ep: RegisteredEndpoint, preset: Option<EndpointPreset>)
    ensures
        begins_with(
            detail_text(ep, preset),
            "# "@ + ep.name@ + "\n\nProvider: "@ + ep.provider@ + "\n\nBase URL: `"@ + ep.base_url@
                + "`\n\nAuth: "@ + auth_text(ep.auth_method) + "\n\n"@,
        ),
        exists|a: Seq<char>, b: Seq<char>, c: Seq<char>|
            detail_text(ep, preset) == #[trigger] (a + preset_section(ep, preset) + b
                + pair_section(
                "## Default headers (sent on every call)\n\n"@,
                pair_views(ep.default_headers@),
                ": "@,
            ) + pair_section(
                "## Default query params (sent on every call)\n\n"@,
                pair_views(ep.default_query_params@),
                "="@,
            ) + c) && c == rate_section(ep.requests_per_minute) && (ep.notes is Some
                && ep.notes->0@.len() > 0 ==> b == "## Notes (user-provided)\n\n"@ + ep.notes->0@
                + "\n\n"@) && (!ep.enabled ==> exists|h: Seq<char>|
                a == #[trigger] (h
                    + "⚠ Endpoint is currently DISABLED — calls will refuse.\n\n"@)),
{
    let head = "# "@ + ep.name@ + "\n\nProvider: "@ + ep.provider@ + "\n\nBase URL: `"@
        + ep.base_url@ + "`\n\nAuth: "@ + auth_text(ep.auth_method) + "\n\n"@;
    let warning = if ep.enabled {
        Seq::<char>::empty()
    } else {
        "⚠ Endpoint is currently DISABLED — calls will refuse.\n\n"@
    };
    let a = head + warning;
    let b = match notes_of(ep) {
        Some(n) => "## Notes (user-provided)\n\n"@ + n + "\n\n"@,
        None => Seq::empty(),
    };
    let d = pair_section(
        "## Default headers (sent on every call)\n\n"@,
        pair_views(ep.default_headers@),
        ": "@,
    );
    let e = pair_section(
        "## Default query params (sent on every call)\n\n"@,
        pair_views(ep.default_query_params@),
        "="@,
    );
    let c = rate_section(ep.requests_per_minute);
    assert(detail_text(ep, preset) == a + preset_section(ep, preset) + b + d + e + c);
    let t = detail_text(ep, preset);
    assert(t.subrange(0, head.len() as int) =~= head);
    if !ep.enabled {
        assert(a == head + "⚠ Endpoint is currently DISABLED — calls will refuse.\n\n"@);
    }
}

/// Files are weeded out one by one: those that are documentation and belong to
/// no endpoint any more.
pub proof fn stale_files_are_weeded_out(
    a: Seq<DocFile>,
    b: Seq<DocFile>,
    one: DocFile,
    current: Seq<Seq<char>>,
)
    ensures
        stale(a + b, current) == stale(a, current) + stale(b, current),
        one.is_markdown && !current.contains(one.name@) ==> stale(seq![one], current) == seq![
            one.name@,
        ],
        !one.is_markdown || current.contains(one.name@) ==> stale(seq![one], current).len() == 0,
    decreases b.len(),
{
    if b.len() == 0 {
        assert(a + b =~= a);
        assert(stale(a, current) + stale(b, current) =~= stale(a, current));
    } else {
        stale_files_are_weeded_out(a, b.drop_last(), one, current);
        assert((a + b).drop_last() =~= a + b.drop_last());
        assert(stale(a + b, current) =~= stale(a, current) + stale(b, current));
    }
    assert(seq![one].drop_last() =~= Seq::<DocFile>::empty());
    assert(seq![one].last() == one);
    reveal_with_fuel(stale, 2);
    if one.is_markdown && !current.contains(one.name@) {
        assert(stale(seq![one], current) =~= seq![one.name@]);
    }
}

/// The file on an endpoint is named after it and holds its details and its
/// line.
pub proof fn endpoints_are_documented(
    d: EndpointDoc,
    ep: RegisteredEndpoint,
    presets: Seq<EndpointPreset>,
)
    requires
        documents(d, ep, presets),
    ensures
        d.file_name@ == file_stem(ep.name@) + ".md"@,
        d.name@ == ep.name@,
        d.detail@ == detail_text(ep, fitting_preset(presets, ep)),
        d.one_liner@ == one_liner(ep, fitting_preset(presets, ep)),
{
}

} // verus!
