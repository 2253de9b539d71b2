//! Forges: where a remote lies, and what the forge says about it.

use vstd::prelude::*;

use crate::json::{json_document, low_32_bits, Json, JsonField, JsonView};
use crate::model::{opt_remote, ForgeKind, ForgeStats, RemoteInfo, RemoteInfoView, Scheme};
use crate::number::{decimal, decimal_reads_back, is_digit, number, parse_u32};
use crate::text::{
    after_prefix, before, concat, concat3, contains, drop_suffix, find, find_char, find_first,
    find_is_first, first_at_is, first_at_is_first, halves, halves_of_concatenation, has_prefix, has_suffix, is_space,
    lowercase, opt_slice, opt_text, part_after, parts, parts_of_concatenation, prefix_comes_off,
    replace_char, replaced, replacing_is_piecewise, rest_behind, rest_from, same_text, second_part,
    slices, split, split_once, split_then_join, starts_with, strip_prefix, suffix_comes_off, texts,
    trim, trim_back, trim_char, trim_char_back, trim_char_front, trim_front, trimmed,
    trimming_leaves_the_middle, without_suffix,
};

verus! {

// ---------------------------------------------------------------------------
// Remote URLs
// ---------------------------------------------------------------------------

/// What follows the first `@` of a text, or the text where it has none.
pub open spec fn without_user(s: Seq<char>) -> Seq<char> {
    match find_first(s, '@') {
        Some(i) => s.skip(i + 1),
        None => s,
    }
}

/// Host and path of `host:port/path`, where the port may be missing. The path keeps its
/// slash; the port is left out.
pub open spec fn host_port_and_path(s: Seq<char>) -> Option<(Seq<char>, Seq<char>)> {
    match (find_first(s, ':'), find_first(s, '/')) {
        (None, None) => None,
        (None, Some(slash)) => Some((s.take(slash), s.skip(slash))),
        (Some(colon), slash) => if slash is Some && slash->0 < colon {
            Some((s.take(slash->0), s.skip(slash->0)))
        } else {
            let rest = s.skip(colon + 1);
            match find_first(rest, '/') {
                Some(i) => Some((s.take(colon), rest.skip(i))),
                None => None,
            }
        },
    }
}

/// Host and path of a URL with an SSH scheme: `ssh://user@host:port/path`, where user
/// and port may be missing.
pub open spec fn ssh_host_and_path(url: Seq<char>) -> Option<(Seq<char>, Seq<char>)> {
    match second_part(url, "://"@) {
        Some(after_scheme) => host_port_and_path(without_user(after_scheme)),
        None => None,
    }
}

/// Host and path of a web URL: what stands before the first slash that follows the
/// scheme, and the rest with that slash.
pub open spec fn web_host_and_path(url: Seq<char>) -> Option<(Seq<char>, Seq<char>)> {
    match second_part(url, "://"@) {
        Some(s) => match find_first(s, '/') {
            Some(slash) => Some((s.take(slash), s.skip(slash))),
            None => None,
        },
        None => None,
    }
}

/// Host and path of an address in the form `user@host:path`.
pub open spec fn scp_host_and_path(url: Seq<char>) -> Option<(Seq<char>, Seq<char>)> {
    match halves(url, ':') {
        Some((host, path)) => Some((without_user(host), path)),
        None => None,
    }
}

/// The scheme that the forge is reached by, the host as it is written, and the path.
pub open spec fn location(url: Seq<char>) -> Option<(Scheme, Seq<char>, Seq<char>)> {
    if has_prefix(url, "ssh://"@) || has_prefix(url, "git+ssh://"@) {
        with_scheme(Scheme::Https, ssh_host_and_path(url))
    } else if has_prefix(url, "https://"@) {
        with_scheme(Scheme::Https, web_host_and_path(url))
    } else if has_prefix(url, "http://"@) {
        with_scheme(Scheme::Http, web_host_and_path(url))
    } else if find_first(url, ':') is Some && find(url, "://"@) is None {
        with_scheme(Scheme::Https, scp_host_and_path(url))
    } else {
        None
    }
}

/// A host and a path, with a scheme.
pub open spec fn with_scheme(scheme: Scheme, o: Option<(Seq<char>, Seq<char>)>) -> Option<
    (Scheme, Seq<char>, Seq<char>),
> {
    match o {
        Some((host, path)) => Some((scheme, host, path)),
        None => None,
    }
}

/// Owner and repository that a path names: two parts without a slash in them, neither
/// of them empty. Slashes around the path and the ending `.git` do not count.
pub open spec fn owner_and_repo(path: Seq<char>) -> Option<(Seq<char>, Seq<char>)> {
    let bare = without_suffix(trim_char_back(trim_char_front(path, '/'), '/'), ".git"@);
    match halves(bare, '/') {
        Some((owner, repo)) => if owner.len() > 0 && repo.len() > 0 && find_first(repo, '/') is None {
            Some((owner, repo))
        } else {
            None
        },
        None => None,
    }
}

/// The forge that runs on a host: a well-known one, or one of the lists of Gitea and
/// GitLab hosts, of which the Gitea hosts come first.
pub open spec fn kind_of_host(
    host: Seq<char>,
    gitea: Seq<Seq<char>>,
    gitlab: Seq<Seq<char>>,
) -> Option<ForgeKind> {
    if host == "github.com"@ {
        Some(ForgeKind::GitHub)
    } else if host == "gitlab.com"@ {
        Some(ForgeKind::GitLab)
    } else if host == "codeberg.org"@ {
        Some(ForgeKind::Gitea)
    } else if gitea.contains(host) {
        Some(ForgeKind::Gitea)
    } else if gitlab.contains(host) {
        Some(ForgeKind::GitLab)
    } else {
        None
    }
}

/// The remote at a location whose host is written in lower case.
pub open spec fn remote_at(
    scheme: Scheme,
    host: Seq<char>,
    path: Seq<char>,
    gitea: Seq<Seq<char>>,
    gitlab: Seq<Seq<char>>,
) -> Option<RemoteInfoView> {
    match (kind_of_host(host, gitea, gitlab), owner_and_repo(path)) {
        (Some(kind), Some((owner, repo))) => Some(
            RemoteInfoView { kind, host, scheme, owner, repo_name: repo },
        ),
        _ => None,
    }
}

/// The remote that a URL denotes, if its host is a known forge.
pub open spec fn remote_of_url(
    url: Seq<char>,
    gitea: Seq<Seq<char>>,
    gitlab: Seq<Seq<char>>,
) -> Option<RemoteInfoView> {
    match location(trimmed(url)) {
        Some((scheme, host, path)) => remote_at(scheme, lowercase(host), path, gitea, gitlab),
        None => None,
    }
}

/// The model of an optional pair of texts.
pub open spec fn opt_pair(o: Option<(&str, &str)>) -> Option<(Seq<char>, Seq<char>)> {
    match o {
        Some((a, b)) => Some((a@, b@)),
        None => None,
    }
}

/// A host and a path, the host in lower case.
pub open spec fn with_lower_host(o: Option<(Seq<char>, Seq<char>)>) -> Option<
    (Seq<char>, Seq<char>),
> {
    match o {
        Some((host, path)) => Some((lowercase(host), path)),
        None => None,
    }
}

/// The model of an optional pair of strings.
pub open spec fn opt_strings(o: Option<(String, String)>) -> Option<(Seq<char>, Seq<char>)> {
    match o {
        Some((a, b)) => Some((a@, b@)),
        None => None,
    }
}

fn lower_host(host: &str, path: &str) -> (r: (String, String))
    ensures
        r.0@ == lowercase(host@),
        r.1@ == path@,
{
    (host.to_lowercase(), path.to_owned())
}

fn skip_user(s: &str) -> (r: &str)
    ensures
        r@ == without_user(s@),
{
    proof {
        first_at_is_first(s@, '@');
    }
    match find_char(s, '@') {
        Some(i) => rest_behind(s, i),
        None => s,
    }
}

/// Host and path of a URL with an SSH scheme, the host in lower case.
pub fn parse_ssh_scheme(url: &str) -> (r: Option<(String, String)>)
    ensures
        opt_strings(r) == with_lower_host(ssh_host_and_path(url@)),
{
    let after_scheme = match part_after(url, "://") {
        Some(s) => s,
        None => {
            return None;
        },
    };
    let s = skip_user(after_scheme);
    proof {
        first_at_is_first(s@, ':');
        first_at_is_first(s@, '/');
    }
    let slash = find_char(s, '/');
    match find_char(s, ':') {
        Some(colon) => {
            match slash {
                Some(si) => {
                    if si < colon {
                        return Some(lower_host(before(s, si), rest_from(s, si)));
                    }
                },
                None => {},
            }
            let rest = rest_behind(s, colon);
            proof {
                first_at_is_first(rest@, '/');
            }
            match find_char(rest, '/') {
                Some(i) => Some(lower_host(before(s, colon), rest_from(rest, i))),
                None => None,
            }
        },
        None => {
            match slash {
                Some(si) => Some(lower_host(before(s, si), rest_from(s, si))),
                None => None,
            }
        },
    }
}

/// Host and path of a web URL, the host in lower case.
pub fn parse_https(url: &str) -> (r: Option<(String, String)>)
    ensures
        opt_strings(r) == with_lower_host(web_host_and_path(url@)),
{
    let s = match part_after(url, "://") {
        Some(s) => s,
        None => {
            return None;
        },
    };
    proof {
        first_at_is_first(s@, '/');
    }
    match find_char(s, '/') {
        Some(slash) => Some(lower_host(before(s, slash), rest_from(s, slash))),
        None => None,
    }
}

/// Host and path of an address in the form `user@host:path`, the host in lower case.
pub fn parse_scp_style(url: &str) -> (r: Option<(String, String)>)
    ensures
        opt_strings(r) == with_lower_host(scp_host_and_path(url@)),
{
    match split_once(url, ':') {
        Some((host, path)) => Some(lower_host(skip_user(host), path)),
        None => None,
    }
}

/// The scheme, the host in lower case, and the path of a remote URL.
pub fn locate(url: &str) -> (r: Option<(Scheme, String, String)>)
    ensures
        match (r, location(url@)) {
            (Some((scheme, host, path)), Some(at)) => {
                &&& scheme == at.0
                &&& host@ == lowercase(at.1)
                &&& path@ == at.2
            },
            (None, None) => true,
            _ => false,
        },
{
    let (scheme, found) = if starts_with(url, "ssh://") || starts_with(url, "git+ssh://") {
        (Scheme::Https, parse_ssh_scheme(url))
    } else if starts_with(url, "https://") {
        (Scheme::Https, parse_https(url))
    } else if starts_with(url, "http://") {
        (Scheme::Http, parse_https(url))
    } else if find_char(url, ':').is_some() && !contains(url, "://") {
        (Scheme::Https, parse_scp_style(url))
    } else {
        return None;
    };
    match found {
        Some((host, path)) => Some((scheme, host, path)),
        None => None,
    }
}

fn listed(host: &str, hosts: &[String]) -> (r: bool)
    ensures
        r == texts(hosts@).contains(host@),
{
    let mut k: usize = 0;
    while k < hosts.len()
        invariant
            k <= hosts.len(),
            forall|j: int| 0 <= j < k ==> texts(hosts@)[j] != host@,
        decreases hosts.len() - k,
    {
        if same_text(hosts[k].as_str(), host) {
            assert(texts(hosts@)[k as int] == host@);
            return true;
        }
        k = k + 1;
    }
    false
}

/// Matches a host against the well-known forges and the lists of custom hosts.
pub fn forge_kind_for_host(host: &str, custom_gitea: &[String], custom_gitlab: &[String]) -> (r:
    Option<ForgeKind>)
    ensures
        r == kind_of_host(host@, texts(custom_gitea@), texts(custom_gitlab@)),
{
    if same_text(host, "github.com") {
        Some(ForgeKind::GitHub)
    } else if same_text(host, "gitlab.com") {
        Some(ForgeKind::GitLab)
    } else if same_text(host, "codeberg.org") {
        Some(ForgeKind::Gitea)
    } else if listed(host, custom_gitea) {
        Some(ForgeKind::Gitea)
    } else if listed(host, custom_gitlab) {
        Some(ForgeKind::GitLab)
    } else {
        None
    }
}

/// Splits a path into owner and repository.
pub fn split_owner_repo(path: &str) -> (r: Option<(&str, &str)>)
    ensures
        opt_pair(r) == owner_and_repo(path@),
{
    let bare = drop_suffix(trim_char(path, '/'), ".git");
    match split_once(bare, '/') {
        Some((owner, repo)) => {
            if owner.is_empty() || repo.is_empty() || find_char(repo, '/').is_some() {
                None
            } else {
                Some((owner, repo))
            }
        },
        None => None,
    }
}

/// The remote at a location whose host is written in lower case.
pub fn remote_at_location(
    scheme: Scheme,
    host: String,
    path: &str,
    custom_gitea: &[String],
    custom_gitlab: &[String],
) -> (r: Option<RemoteInfo>)
    ensures
        opt_remote(r) == remote_at(
            scheme,
            host@,
            path@,
            texts(custom_gitea@),
            texts(custom_gitlab@),
        ),
{
    let kind = match forge_kind_for_host(host.as_str(), custom_gitea, custom_gitlab) {
        Some(kind) => kind,
        None => {
            return None;
        },
    };
    match split_owner_repo(path) {
        Some((owner, repo)) => Some(
            RemoteInfo {
                kind,
                host,
                scheme,
                owner: owner.to_owned(),
                repo_name: repo.to_owned(),
            },
        ),
        None => None,
    }
}

/// Parses a git remote URL into forge info. Yields `None` if the host is not a
/// recognized forge.
pub fn parse_remote_url(url: &str, custom_gitea: &[String], custom_gitlab: &[String]) -> (r: Option<
    RemoteInfo,
>)
    ensures
        opt_remote(r) == remote_of_url(
            url@,
            texts(custom_gitea@),
            texts(custom_gitlab@),
        ),
{
    match locate(trim(url)) {
        Some((scheme, host, path)) => remote_at_location(
            scheme,
            host,
            path.as_str(),
            custom_gitea,
            custom_gitlab,
        ),
        None => None,
    }
}

// ---------------------------------------------------------------------------
// Custom hosts
// ---------------------------------------------------------------------------

/// The hosts of a comma-separated list, in lower case and without white space around
/// them; entries that hold nothing are left out.
pub open spec fn hosts_among(entries: Seq<Seq<char>>) -> Seq<Seq<char>>
    decreases entries.len(),
{
    if entries.len() == 0 {
        seq![]
    } else {
        let head = hosts_among(entries.drop_last());
        let host = lowercase(trimmed(entries.last()));
        if host.len() > 0 {
            head.push(host)
        } else {
            head
        }
    }
}

/// Parses a comma-separated list of `host[:port]` entries.
pub fn parse_host_list(list: &str) -> (r: Vec<String>)
    ensures
        texts(r@) == hosts_among(parts(list@, ',')),
{
    let entries = split(list, ',');
    let ghost es = parts(list@, ',');
    let mut out: Vec<String> = Vec::new();
    let mut k: usize = 0;
    assert(texts(out@) =~= hosts_among(es.take(0)));
    while k < entries.len()
        invariant
            k <= entries.len(),
            es == slices(entries@),
            texts(out@) == hosts_among(es.take(k as int)),
        decreases entries.len() - k,
    {
        let host = trim(entries[k]).to_lowercase();
        proof {
            assert(es.take(k + 1).drop_last() =~= es.take(k as int));
            assert(es.take(k + 1).last() == entries@[k as int]@);
            assert(texts(out@.push(host)) =~= texts(out@).push(host@));
        }
        if !host.as_str().is_empty() {
            out.push(host);
        }
        k = k + 1;
    }
    assert(es.take(es.len() as int) =~= es);
    out
}

// ---------------------------------------------------------------------------
// Page counts
// ---------------------------------------------------------------------------

/// What follows `page=` in the first parameter that begins with it.
pub open spec fn page_among(params: Seq<Seq<char>>) -> Option<Seq<char>>
    decreases params.len(),
{
    if params.len() == 0 {
        None
    } else {
        match after_prefix(params[0], "page="@) {
            Some(value) => Some(value),
            None => page_among(params.drop_first()),
        }
    }
}

/// The query of the URL that stands between angle brackets at the beginning of a link.
pub open spec fn link_query(link: Seq<char>) -> Option<Seq<char>> {
    match after_prefix(trimmed(link), "<"@) {
        Some(rest) => {
            let pieces = parts(parts(rest, '>')[0], '?');
            if pieces.len() > 1 {
                Some(pieces[1])
            } else {
                None
            }
        },
        None => None,
    }
}

/// The page number of the first link that is marked as the last page and names a page.
/// A link that is marked so but has no URL with a query ends the search.
pub open spec fn last_page_among(links: Seq<Seq<char>>) -> Option<u32>
    decreases links.len(),
{
    if links.len() == 0 {
        None
    } else if find(links[0], "rel=\"last\""@) is None {
        last_page_among(links.drop_first())
    } else {
        match link_query(links[0]) {
            Some(query) => match page_among(parts(query, '&')) {
                Some(value) => number(value),
                None => last_page_among(links.drop_first()),
            },
            None => None,
        }
    }
}

/// The number of the last page that a `Link` header gives.
pub open spec fn last_page(header: Option<Seq<char>>) -> Option<u32> {
    match header {
        Some(h) => last_page_among(parts(h, ',')),
        None => None,
    }
}

fn find_page<'a>(params: &Vec<&'a str>) -> (r: Option<&'a str>)
    ensures
        opt_slice(r) == page_among(slices(params@)),
{
    let ghost all = slices(params@);
    let mut k: usize = 0;
    assert(all.skip(0) =~= all);
    while k < params.len()
        invariant
            k <= params.len(),
            all == slices(params@),
            page_among(all) == page_among(all.skip(k as int)),
        decreases params.len() - k,
    {
        assert(all.skip(k as int)[0] == params@[k as int]@);
        assert(all.skip(k as int).drop_first() =~= all.skip(k + 1));
        match strip_prefix(params[k], "page=") {
            Some(value) => {
                return Some(value);
            },
            None => {},
        }
        k = k + 1;
    }
    None
}

fn query_of_link(link: &str) -> (r: Option<&str>)
    ensures
        opt_slice(r) == link_query(link@),
{
    match strip_prefix(trim(link), "<") {
        Some(rest) => {
            let pieces = split(rest, '>');
            assert(slices(pieces@).len() > 0) by {
                split_then_join(rest@, '>');
            }
            assert(slices(pieces@)[0] == pieces@[0]@);
            let halves = split(pieces[0], '?');
            if halves.len() > 1 {
                assert(slices(halves@)[1] == halves@[1]@);
                Some(halves[1])
            } else {
                None
            }
        },
        None => None,
    }
}

/// Parses a `Link` header for the number of the last page.
/// Example: `<...?page=5>; rel="last"` gives 5.
pub fn parse_link_last_page(link_header: Option<&str>) -> (r: Option<u32>)
    ensures
        r == last_page(opt_slice(link_header)),
{
    let header = match link_header {
        Some(h) => h,
        None => {
            return None;
        },
    };
    let links = split(header, ',');
    let ghost all = slices(links@);
    let mut k: usize = 0;
    assert(all.skip(0) =~= all);
    while k < links.len()
        invariant
            k <= links.len(),
            all == slices(links@),
            last_page_among(all) == last_page_among(all.skip(k as int)),
            last_page(opt_slice(link_header)) == last_page_among(all),
        decreases links.len() - k,
    {
        assert(all.skip(k as int)[0] == links@[k as int]@);
        assert(all.skip(k as int).drop_first() =~= all.skip(k + 1));
        if contains(links[k], "rel=\"last\"") {
            match query_of_link(links[k]) {
                Some(query) => {
                    let params = split(query, '&');
                    match find_page(&params) {
                        Some(value) => {
                            return parse_u32(value);
                        },
                        None => {},
                    }
                },
                None => {
                    return None;
                },
            }
        }
        k = k + 1;
    }
    None
}

/// Percent-encodes `/` for project path parameters. Nothing else is encoded, because
/// forges restrict project names to letters, digits, hyphens, underscores and dots.
pub fn urlencode_path(s: &str) -> (r: String)
    ensures
        r@ == replaced(s@, '/', "%2F"@),
{
    replace_char(s, '/', "%2F")
}

// ---------------------------------------------------------------------------
// Tokens
// ---------------------------------------------------------------------------

/// The values of the environment variables that may hold a token.
#[derive(Debug)]
pub struct TokenEnv {
    pub github: Option<String>,
    pub gitlab: Option<String>,
    pub codeberg: Option<String>,
    pub gitea: Option<String>,
}

/// The token that the output of the GitHub command line tool holds, if it ran and
/// printed one.
pub open spec fn printed_token(output: Option<Seq<char>>) -> Option<Seq<char>> {
    match output {
        Some(text) => if trimmed(text).len() > 0 {
            Some(trimmed(text))
        } else {
            None
        },
        None => None,
    }
}

/// The token for a forge on a host. For GitHub the variable comes before the command
/// line tool; for Codeberg its own variable comes before the one of Gitea.
pub open spec fn token_for(
    kind: ForgeKind,
    host: Seq<char>,
    env: TokenEnv,
    gh_output: Option<Seq<char>>,
) -> Option<Seq<char>> {
    match kind {
        ForgeKind::GitHub => match env.github {
            Some(token) => Some(token@),
            None => printed_token(gh_output),
        },
        ForgeKind::GitLab => opt_text(env.gitlab),
        ForgeKind::Gitea => if host == "codeberg.org"@ && env.codeberg is Some {
            opt_text(env.codeberg)
        } else {
            opt_text(env.gitea)
        },
    }
}

fn copy_opt(o: &Option<String>) -> (r: Option<String>)
    ensures
        opt_text(r) == opt_text(*o),
{
    match o {
        Some(s) => Some(s.clone()),
        None => None,
    }
}

/// The GitHub token: the variable's value, or else what the command line tool printed.
pub fn resolve_github_token(env: &Option<String>, gh_output: Option<String>) -> (r: Option<String>)
    ensures
        opt_text(r) == match *env {
            Some(token) => Some(token@),
            None => printed_token(opt_text(gh_output)),
        },
{
    match env {
        Some(token) => Some(token.clone()),
        None => match gh_output {
            Some(text) => {
                let token = trim(text.as_str());
                if token.is_empty() {
                    None
                } else {
                    Some(token.to_owned())
                }
            },
            None => None,
        },
    }
}

/// Whether the token depends on the output of the GitHub command line tool.
pub fn needs_gh_output(kind: &ForgeKind, env: &TokenEnv) -> (r: bool)
    ensures
        r == (*kind is GitHub && env.github is None),
        !r ==> forall|host: Seq<char>, a: Option<Seq<char>>, b: Option<Seq<char>>|
            #![trigger token_for(*kind, host, *env, a), token_for(*kind, host, *env, b)]
            token_for(*kind, host, *env, a) == token_for(*kind, host, *env, b),
{
    match kind {
        ForgeKind::GitHub => env.github.is_none(),
        _ => false,
    }
}

/// The token to send to the forge on a host.
pub fn resolve_token(kind: &ForgeKind, host: &str, env: &TokenEnv, gh_output: Option<String>) -> (r:
    Option<String>)
    ensures
        opt_text(r) == token_for(*kind, host@, *env, opt_text(gh_output)),
{
    match kind {
        ForgeKind::GitHub => resolve_github_token(&env.github, gh_output),
        ForgeKind::GitLab => copy_opt(&env.gitlab),
        ForgeKind::Gitea => {
            if same_text(host, "codeberg.org") && env.codeberg.is_some() {
                copy_opt(&env.codeberg)
            } else {
                copy_opt(&env.gitea)
            }
        },
    }
}

// ---------------------------------------------------------------------------
// Queries
// ---------------------------------------------------------------------------

/// A request to a forge's interface.
#[derive(Debug)]
pub struct ApiRequest {
    pub url: String,
    /// Name and value of the header that carries the token.
    pub header: Option<(String, String)>,
}

/// The model of an `ApiRequest`.
pub struct ApiRequestView {
    pub url: Seq<char>,
    pub header: Option<(Seq<char>, Seq<char>)>,
}

impl View for ApiRequest {
    type V = ApiRequestView;

    open spec fn view(&self) -> ApiRequestView {
        ApiRequestView {
            url: self.url@,
            header: match self.header {
                Some((name, value)) => Some((name@, value@)),
                None => None,
            },
        }
    }
}

/// What is read of the reply to a request.
#[derive(Debug)]
pub struct ApiReply {
    pub body: Vec<u8>,
    /// The header `link`.
    pub link: Option<String>,
    /// The header `x-total`.
    pub total: Option<String>,
}

/// What the first reply tells about a repository.
#[derive(Debug, Clone, Copy, PartialEq, Eq, Structural)]
pub struct RepoFacts {
    /// Open issues, as the forge counts them.
    pub issues: u32,
    /// Open pull requests, where the forge gives them with the first reply.
    pub prs: u32,
    pub is_fork: bool,
}

/// Where the query of a forge has got to.
#[derive(Debug)]
pub enum ForgeStep {
    /// Another request is to be sent.
    Ask(ApiRequest, RepoFacts),
    /// The query is over.
    Finished(Result<ForgeStats, String>),
}

/// The model of a `ForgeStep`.
pub enum ForgeStepView {
    Ask(ApiRequestView, RepoFacts),
    Finished(Result<ForgeStats, Seq<char>>),
}

impl View for ForgeStep {
    type V = ForgeStepView;

    open spec fn view(&self) -> ForgeStepView {
        match *self {
            ForgeStep::Ask(request, facts) => ForgeStepView::Ask(request@, facts),
            ForgeStep::Finished(Ok(stats)) => ForgeStepView::Finished(Ok(stats)),
            ForgeStep::Finished(Err(e)) => ForgeStepView::Finished(Err(e@)),
        }
    }
}

/// The header that carries a token to a forge.
pub open spec fn token_header(kind: ForgeKind, token: Option<Seq<char>>) -> Option<
    (Seq<char>, Seq<char>),
> {
    match token {
        Some(t) => Some(
            match kind {
                ForgeKind::GitHub => ("Authorization"@, "Bearer "@ + t),
                ForgeKind::GitLab => ("PRIVATE-TOKEN"@, t),
                ForgeKind::Gitea => ("Authorization"@, "token "@ + t),
            },
        ),
        None => None,
    }
}

/// The URL under which a forge tells about a repository.
pub open spec fn repo_url(info: RemoteInfoView) -> Seq<char> {
    let project = info.owner + "/"@ + info.repo_name;
    match info.kind {
        ForgeKind::GitHub => "https://api.github.com/repos/"@ + project,
        ForgeKind::GitLab => info.scheme.text() + "://"@ + info.host + "/api/v4/projects/"@
            + replaced(project, '/', "%2F"@),
        ForgeKind::Gitea => info.scheme.text() + "://"@ + info.host + "/api/v1/repos/"@ + project,
    }
}

/// The URL under which a forge lists the open pull requests, where the first reply
/// does not count them.
pub open spec fn pulls_url(info: RemoteInfoView) -> Option<Seq<char>> {
    match info.kind {
        ForgeKind::GitHub => Some(repo_url(info) + "/pulls?state=open&per_page=1"@),
        ForgeKind::GitLab => Some(repo_url(info) + "/merge_requests?state=opened&per_page=1"@),
        ForgeKind::Gitea => None,
    }
}

/// What a document tells about a repository on a forge.
pub open spec fn facts_in(kind: ForgeKind, doc: JsonView) -> RepoFacts {
    RepoFacts {
        issues: doc.count("open_issues_count"@),
        prs: match kind {
            ForgeKind::Gitea => doc.count("open_pr_counter"@),
            _ => 0,
        },
        is_fork: match kind {
            ForgeKind::GitLab => doc.has_object("forked_from_project"@),
            _ => doc.flag("fork"@),
        },
    }
}

/// The number of open pull requests that the reply to the second request gives. GitHub
/// lists one on each page, so the last page counts them; where there is no such page,
/// the reply lists them all. GitLab counts them in a header.
pub open spec fn pulls_in(
    kind: ForgeKind,
    link: Option<Seq<char>>,
    total: Option<Seq<char>>,
    doc: Result<JsonView, Seq<char>>,
) -> u32 {
    match kind {
        ForgeKind::GitHub => match last_page(link) {
            Some(n) => n,
            None => match doc {
                Ok(JsonView::Array(n)) => (n % 0x1_0000_0000) as u32,
                _ => 0,
            },
        },
        _ => match total {
            Some(text) => match number(text) {
                Some(n) => n,
                None => 0,
            },
            None => 0,
        },
    }
}

/// The figures that follow from both replies. GitHub counts pull requests among the
/// issues.
pub open spec fn stats_from(kind: ForgeKind, facts: RepoFacts, pulls: u32) -> ForgeStats {
    ForgeStats {
        open_prs: pulls,
        open_issues: match kind {
            ForgeKind::GitHub => if facts.issues >= pulls {
                (facts.issues - pulls) as u32
            } else {
                0
            },
            _ => facts.issues,
        },
        is_fork: facts.is_fork,
    }
}

/// What is to be done after the first reply.
pub open spec fn step_after_repo(
    info: RemoteInfoView,
    token: Option<Seq<char>>,
    doc: Result<JsonView, Seq<char>>,
) -> ForgeStepView {
    match doc {
        Ok(doc) => {
            let facts = facts_in(info.kind, doc);
            match pulls_url(info) {
                Some(url) => ForgeStepView::Ask(
                    ApiRequestView { url, header: token_header(info.kind, token) },
                    facts,
                ),
                None => ForgeStepView::Finished(Ok(stats_from(info.kind, facts, facts.prs))),
            }
        },
        Err(e) => ForgeStepView::Finished(Err("Failed to read JSON: "@ + e)),
    }
}

fn header_for(kind: ForgeKind, token: Option<&str>) -> (r: Option<(String, String)>)
    ensures
        match r {
            Some((name, value)) => token_header(kind, opt_slice(token)) == Some((name@, value@)),
            None => token_header(kind, opt_slice(token)) is None,
        },
{
    match token {
        Some(t) => Some(
            match kind {
                ForgeKind::GitHub => ("Authorization".to_owned(), concat("Bearer ", t)),
                ForgeKind::GitLab => ("PRIVATE-TOKEN".to_owned(), t.to_owned()),
                ForgeKind::Gitea => ("Authorization".to_owned(), concat("token ", t)),
            },
        ),
        None => None,
    }
}

fn repo_url_text(info: &RemoteInfo) -> (r: String)
    ensures
        r@ == repo_url(info@),
{
    let project = concat3(info.owner.as_str(), "/", info.repo_name.as_str());
    match info.kind {
        ForgeKind::GitHub => concat("https://api.github.com/repos/", project.as_str()),
        ForgeKind::GitLab => {
            let mut url = concat3(info.scheme.as_str(), "://", info.host.as_str());
            url.append("/api/v4/projects/");
            url.append(urlencode_path(project.as_str()).as_str());
            url
        },
        ForgeKind::Gitea => {
            let mut url = concat3(info.scheme.as_str(), "://", info.host.as_str());
            url.append("/api/v1/repos/");
            url.append(project.as_str());
            url
        },
    }
}

/// The request that a query of a forge begins with.
pub fn fetch_forge_stats(info: &RemoteInfo, token: Option<&str>) -> (r: ApiRequest)
    ensures
        r@ == (ApiRequestView {
            url: repo_url(info@),
            header: token_header(info.kind, opt_slice(token)),
        }),
{
    ApiRequest { url: repo_url_text(info), header: header_for(info.kind, token) }
}

/// What a document tells about a repository on a forge.
pub fn read_facts(kind: ForgeKind, doc: &Json) -> (r: RepoFacts)
    ensures
        r == facts_in(kind, doc@),
{
    RepoFacts {
        issues: doc.count("open_issues_count"),
        prs: match kind {
            ForgeKind::Gitea => doc.count("open_pr_counter"),
            _ => 0,
        },
        is_fork: match kind {
            ForgeKind::GitLab => doc.has_object("forked_from_project"),
            _ => doc.flag("fork"),
        },
    }
}

/// Decides how the query goes on after the facts about the repository are known.
pub fn after_facts(info: &RemoteInfo, token: Option<&str>, facts: RepoFacts) -> (r: ForgeStep)
    ensures
        r@ == match pulls_url(info@) {
            Some(url) => ForgeStepView::Ask(
                ApiRequestView { url, header: token_header(info.kind, opt_slice(token)) },
                facts,
            ),
            None => ForgeStepView::Finished(Ok(stats_from(info.kind, facts, facts.prs))),
        },
{
    let suffix = match info.kind {
        ForgeKind::GitHub => "/pulls?state=open&per_page=1",
        ForgeKind::GitLab => "/merge_requests?state=opened&per_page=1",
        ForgeKind::Gitea => {
            return ForgeStep::Finished(Ok(combine(info.kind, facts, facts.prs)));
        },
    };
    ForgeStep::Ask(
        ApiRequest {
            url: concat(repo_url_text(info).as_str(), suffix),
            header: header_for(info.kind, token),
        },
        facts,
    )
}

/// Decides how the query goes on after the first reply.
pub fn after_repo_reply(info: &RemoteInfo, token: Option<&str>, reply: &ApiReply) -> (r: ForgeStep)
    ensures
        r@ == step_after_repo(info@, opt_slice(token), json_document(reply.body@)),
{
    match Json::read(reply.body.as_slice()) {
        Ok(doc) => {
            let facts = read_facts(info.kind, &doc);
            after_facts(info, token, facts)
        },
        Err(e) => ForgeStep::Finished(Err(e)),
    }
}

fn combine(kind: ForgeKind, facts: RepoFacts, pulls: u32) -> (r: ForgeStats)
    ensures
        r == stats_from(kind, facts, pulls),
{
    ForgeStats {
        open_prs: pulls,
        open_issues: match kind {
            ForgeKind::GitHub => if facts.issues >= pulls {
                facts.issues - pulls
            } else {
                0
            },
            _ => facts.issues,
        },
        is_fork: facts.is_fork,
    }
}

/// The number of open pull requests where no page count is given: the length of the
/// list in the reply.
pub fn listed_pulls(doc: &Result<Json, String>) -> (r: u32)
    ensures
        r == match *doc {
            Ok(d) => match d@ {
                JsonView::Array(n) => (n % 0x1_0000_0000) as u32,
                _ => 0,
            },
            Err(_) => 0,
        },
{
    match doc {
        Ok(Json::Array(n)) => low_32_bits(*n as u64),
        _ => 0,
    }
}

fn slice_of(o: &Option<String>) -> (r: Option<&str>)
    ensures
        opt_slice(r) == opt_text(*o),
{
    match o {
        Some(s) => Some(s.as_str()),
        None => None,
    }
}

/// The figures that follow from the facts and the reply to the second request.
pub fn after_pulls_reply(info: &RemoteInfo, facts: RepoFacts, reply: &ApiReply) -> (r: ForgeStats)
    ensures
        r == stats_from(
            info.kind,
            facts,
            pulls_in(
                info.kind,
                opt_text(reply.link),
                opt_text(reply.total),
                json_document(reply.body@),
            ),
        ),
{
    let pulls: u32 = match info.kind {
        ForgeKind::GitHub => match parse_link_last_page(slice_of(&reply.link)) {
            Some(n) => n,
            None => listed_pulls(&Json::read(reply.body.as_slice())),
        },
        _ => match slice_of(&reply.total) {
            Some(text) => match parse_u32(text) {
                Some(n) => n,
                None => 0,
            },
            None => 0,
        },
    };
    combine(info.kind, facts, pulls)
}

// ---------------------------------------------------------------------------
// Laws
// ---------------------------------------------------------------------------

/// A custom list cannot take a well-known host over, and a host on both lists is a
/// Gitea host.
pub proof fn well_known_hosts_come_first(
    host: Seq<char>,
    gitea: Seq<Seq<char>>,
    gitlab: Seq<Seq<char>>,
)
    ensures
        host == "github.com"@ || host == "gitlab.com"@ || host == "codeberg.org"@
            ==> kind_of_host(host, gitea, gitlab) == kind_of_host(host, seq![], seq![]),
        host == "github.com"@ ==> kind_of_host(host, gitea, gitlab) == Some(ForgeKind::GitHub),
        kind_of_host(host, seq![], seq![]) is None && gitea.contains(host) ==> kind_of_host(
            host,
            gitea,
            gitlab,
        ) == Some(ForgeKind::Gitea),
{
}

/// A remote has an owner and a repository name, neither of them empty and none with a
/// slash in it.
pub proof fn remote_names_are_plain(
    url: Seq<char>,
    gitea: Seq<Seq<char>>,
    gitlab: Seq<Seq<char>>,
)
    ensures
        remote_of_url(url, gitea, gitlab) matches Some(info) ==> {
            &&& info.owner.len() > 0
            &&& info.repo_name.len() > 0
            &&& !info.owner.contains('/')
            &&& !info.repo_name.contains('/')
            &&& kind_of_host(info.host, gitea, gitlab) == Some(info.kind)
        },
{
    if let Some((scheme, host, path)) = location(trimmed(url)) {
        let bare = without_suffix(trim_char_back(trim_char_front(path, '/'), '/'), ".git"@);
        first_at_is_first(bare, '/');
        if let Some((owner, repo)) = owner_and_repo(path) {
            first_at_is_first(repo, '/');
        }
    }
}

/// The figures of GitHub count no pull request as an issue: both together are what
/// the forge counts as issues, unless there are more pull requests than that.
pub proof fn github_issues_exclude_pulls(facts: RepoFacts, pulls: u32)
    ensures
        ({
            let stats = stats_from(ForgeKind::GitHub, facts, pulls);
            &&& stats.open_prs == pulls
            &&& pulls <= facts.issues ==> stats.open_prs + stats.open_issues == facts.issues
            &&& pulls > facts.issues ==> stats.open_issues == 0
        }),
{
}

// ---------------------------------------------------------------------------
// The forms of a remote's address
// ---------------------------------------------------------------------------

/// A host name as it stands in an address: something without a slash, a colon or an `@`.
pub open spec fn is_host_name(s: Seq<char>) -> bool {
    s.len() > 0 && !s.contains('/') && !s.contains(':') && !s.contains('@')
}

/// An owner or a repository as it stands in an address: something without a slash.
pub open spec fn is_plain_name(s: Seq<char>) -> bool {
    s.len() > 0 && !s.contains('/')
}

/// An address may end with `.git`. One that does not must not end with a repository that
/// does.
pub open spec fn is_ending(repo: Seq<char>, ending: Seq<char>) -> bool {
    ending == ".git"@ || ending.len() == 0 && !has_suffix(repo, ".git"@)
}

/// Owner and repository as they stand in an address.
pub open spec fn project_path(
    owner: Seq<char>,
    repo: Seq<char>,
    ending: Seq<char>,
) -> Seq<char> {
    owner + seq!['/'] + repo + ending
}

proof fn project_path_chars(owner: Seq<char>, repo: Seq<char>, ending: Seq<char>)
    requires
        is_plain_name(owner),
        is_plain_name(repo),
        is_ending(repo, ending),
    ensures
        ({
            let p = project_path(owner, repo, ending);
            &&& p.len() == owner.len() + 1 + repo.len() + ending.len()
            &&& forall|i: int| 0 <= i < p.len() ==> (#[trigger] p[i] == '/' <==> i == owner.len())
        }),
{
    let p = project_path(owner, repo, ending);
    reveal_strlit(".git");
    assert forall|i: int| 0 <= i < p.len() implies (#[trigger] p[i] == '/' <==> i
        == owner.len()) by {
        if i < owner.len() {
            assert(p[i] == owner[i]);
            assert(owner.contains(owner[i]));
        } else if i > owner.len() {
            let k = i - owner.len() - 1;
            if k < repo.len() {
                assert(p[i] == repo[k]);
                assert(repo.contains(repo[k]));
            } else {
                assert(p[i] == ending[k - repo.len()]);
            }
        }
    }
}

proof fn project_of_path(
    owner: Seq<char>,
    repo: Seq<char>,
    ending: Seq<char>,
)
    requires
        is_plain_name(owner),
        is_plain_name(repo),
        is_ending(repo, ending),
    ensures
        owner_and_repo(project_path(owner, repo, ending)) == Some((owner, repo)),
        owner_and_repo(seq!['/'] + project_path(owner, repo, ending)) == Some((owner, repo)),
{
    let p = project_path(owner, repo, ending);
    let q = seq!['/'] + p;
    let bare = owner + seq!['/'] + repo;
    project_path_chars(owner, repo, ending);
    reveal_strlit(".git");
    assert(q.drop_first() =~= p);
    assert(p[0] != '/' && p.last() != '/');
    assert(trim_char_front(p, '/') == p);
    assert(trim_char_front(q, '/') == trim_char_front(p, '/'));
    assert(trim_char_back(p, '/') == p);
    assert(without_suffix(p, ".git"@) =~= bare) by {
        if ending == ".git"@ {
            assert(p.skip(p.len() - 4) =~= ".git"@);
        } else {
            assert(p =~= bare);
            if has_suffix(p, ".git"@) {
                if repo.len() >= 4 {
                    assert(repo.skip(repo.len() - 4) =~= p.skip(p.len() - 4));
                } else {
                    let k = owner.len() - (p.len() - 4);
                    assert(p.skip(p.len() - 4)[k] == p[owner.len() as int]);
                    assert(".git"@[k] == '/');
                }
            }
        }
    }
    assert(bare =~= project_path(owner, repo, seq![]));
    assert forall|j: int| 0 <= j < owner.len() implies bare[j] != '/' by {
        assert(bare[j] == owner[j]);
        assert(owner.contains(owner[j]));
    }
    first_at_is(bare, '/', owner.len() as int);
    assert(bare.take(owner.len() as int) =~= owner);
    assert(bare.skip(owner.len() as int + 1) =~= repo);
    first_at_is_first(repo, '/');
}

proof fn no_scheme_without_slashes(s: Seq<char>)
    requires
        forall|i: int| 0 <= i < s.len() - 1 ==> !(#[trigger] s[i] == '/' && s[i + 1] == '/'),
    ensures
        find(s, "://"@) is None,
{
    let mark = "://"@;
    reveal_strlit("://");
    find_is_first(s, mark);
    if let Some(i) = find(s, mark) {
        let t = s.skip(i);
        assert(t.take(3)[1] == s[i + 1]);
        assert(t.take(3)[2] == s[i + 2]);
    }
}

proof fn part_after_scheme(scheme: Seq<char>, rest: Seq<char>)
    requires
        !scheme.contains(':'),
        forall|i: int|
            0 <= i < rest.len() - 1 ==> !(#[trigger] rest[i] == '/' && rest[i + 1] == '/'),
    ensures
        second_part(scheme + "://"@ + rest, "://"@) == Some(rest),
{
    let mark = "://"@;
    let url = scheme + mark + rest;
    let n = scheme.len() as int;
    reveal_strlit("://");
    find_is_first(url, mark);
    assert(url.skip(n).take(3) =~= mark);
    assert(has_prefix(url.skip(n), mark));
    let i = find(url, mark)->0;
    if i < n {
        assert(url.skip(i).take(3)[0] == scheme[i]);
        assert(scheme.contains(scheme[i]));
    }
    assert(i == n);
    assert(url.skip(n + 3) =~= rest);
    no_scheme_without_slashes(rest);
}

/// A text of nothing but white space.
pub open spec fn is_blank(s: Seq<char>) -> bool {
    forall|i: int| 0 <= i < s.len() ==> is_space(#[trigger] s[i])
}

proof fn front_space_is_trimmed(space: Seq<char>, s: Seq<char>)
    requires
        is_blank(space),
    ensures
        trim_front(space + s) == trim_front(s),
    decreases space.len(),
{
    if space.len() == 0 {
        assert(space + s =~= s);
    } else {
        assert((space + s)[0] == space[0]);
        assert((space + s).drop_first() =~= space.drop_first() + s);
        front_space_is_trimmed(space.drop_first(), s);
    }
}

proof fn back_space_is_trimmed(s: Seq<char>, space: Seq<char>)
    requires
        is_blank(space),
    ensures
        trim_back(s + space) == trim_back(s),
    decreases space.len(),
{
    if space.len() == 0 {
        assert(s + space =~= s);
    } else {
        assert((s + space).last() == space.last());
        assert((s + space).drop_last() =~= s + space.drop_last());
        back_space_is_trimmed(s, space.drop_last());
    }
}

proof fn space_around_is_trimmed(left: Seq<char>, s: Seq<char>, right: Seq<char>)
    requires
        is_blank(left),
        is_blank(right),
        s.len() > 0,
        !is_space(s[0]),
        !is_space(s.last()),
    ensures
        trimmed(left + s + right) == s,
{
    assert(left + s + right =~= left + (s + right));
    front_space_is_trimmed(left, s + right);
    assert((s + right)[0] == s[0]);
    back_space_is_trimmed(s, right);
}

/// The remote of a project on a host, if the host is a known forge.
pub open spec fn remote_of_project(
    scheme: Scheme,
    host: Seq<char>,
    owner: Seq<char>,
    repo: Seq<char>,
    gitea: Seq<Seq<char>>,
    gitlab: Seq<Seq<char>>,
) -> Option<RemoteInfoView> {
    match kind_of_host(lowercase(host), gitea, gitlab) {
        Some(kind) => Some(
            RemoteInfoView { kind, host: lowercase(host), scheme, owner, repo_name: repo },
        ),
        None => None,
    }
}

/// Whichever form the address of a project has, with or without the ending `.git`, a
/// port of SSH or white space around it, it denotes the same remote; only the scheme
/// `http` is kept. The port of a web address belongs to the host.
pub proof fn every_form_denotes_the_project(
    left: Seq<char>,
    host: Seq<char>,
    port: Seq<char>,
    owner: Seq<char>,
    repo: Seq<char>,
    ending: Seq<char>,
    right: Seq<char>,
    gitea: Seq<Seq<char>>,
    gitlab: Seq<Seq<char>>,
)
    requires
        is_blank(left),
        is_blank(right),
        is_host_name(host),
        !port.contains('/'),
        is_plain_name(owner),
        is_plain_name(repo),
        is_ending(repo, ending),
        !is_space(repo.last()),
    ensures
        ({
            let path = project_path(owner, repo, ending);
            let tail = host + seq!['/'] + path;
            let site = host + seq![':'] + port;
            let ported = site + seq!['/'] + path;
            let want = remote_of_project(Scheme::Https, host, owner, repo, gitea, gitlab);
            let plain = remote_of_project(Scheme::Http, host, owner, repo, gitea, gitlab);
            let want_at = remote_of_project(Scheme::Https, site, owner, repo, gitea, gitlab);
            let plain_at = remote_of_project(Scheme::Http, site, owner, repo, gitea, gitlab);
            let scp = "git@"@ + host + seq![':'] + path;
            &&& remote_of_url(left + ("https://"@ + tail) + right, gitea, gitlab) == want
            &&& remote_of_url(left + ("http://"@ + tail) + right, gitea, gitlab) == plain
            &&& remote_of_url(left + ("ssh://git@"@ + tail) + right, gitea, gitlab) == want
            &&& remote_of_url(left + ("git+ssh://git@"@ + tail) + right, gitea, gitlab) == want
            &&& remote_of_url(left + scp + right, gitea, gitlab) == want
            &&& remote_of_url(left + ("ssh://git@"@ + ported) + right, gitea, gitlab) == want
            &&& remote_of_url(left + ("git+ssh://git@"@ + ported) + right, gitea, gitlab) == want
            &&& remote_of_url(left + ("https://"@ + ported) + right, gitea, gitlab) == want_at
            &&& remote_of_url(left + ("http://"@ + ported) + right, gitea, gitlab) == plain_at
        }),
{
    let path = project_path(owner, repo, ending);
    let rooted = seq!['/'] + path;
    let tail = host + seq!['/'] + path;
    let site = host + seq![':'] + port;
    let ported = site + seq!['/'] + path;
    project_path_chars(owner, repo, ending);
    project_of_path(owner, repo, ending);
    assert(!site.contains('/')) by {
        if site.contains('/') {
            let k = choose|k: int| 0 <= k < site.len() && site[k] == '/';
            if k < host.len() {
                assert(host.contains(host[k]));
            } else if k > host.len() {
                assert(port.contains(port[k - host.len() - 1]));
            }
        }
    }
    address_tail(host, owner, repo, ending);
    address_tail(site, owner, repo, ending);
    host_before_path(host, rooted);
    host_before_port(host, port, rooted);
    assert(tail =~= host + rooted);
    assert(ported =~= host + seq![':'] + port + rooted);
    web_form(left, site, ported, right, "https"@);
    web_form(left, site, ported, right, "http"@);
    web_form(left, host, tail, right, "https"@);
    web_form(left, host, tail, right, "http"@);
    ssh_form(left, tail, right, "ssh"@);
    ssh_form(left, tail, right, "git+ssh"@);
    ssh_form(left, ported, right, "ssh"@);
    ssh_form(left, ported, right, "git+ssh"@);
    scp_form(left, host, path, right);
}

/// What follows the scheme and the user: something without a slash, and a path.
proof fn address_tail(front: Seq<char>, owner: Seq<char>, repo: Seq<char>, ending: Seq<char>)
    requires
        front.len() > 0,
        !front.contains('/'),
        is_plain_name(owner),
        is_plain_name(repo),
        is_ending(repo, ending),
        !is_space(repo.last()),
    ensures
        ({
            let path = project_path(owner, repo, ending);
            let tail = front + seq!['/'] + path;
            &&& forall|i: int|
                0 <= i < tail.len() - 1 ==> !(#[trigger] tail[i] == '/' && tail[i + 1] == '/')
            &&& find_first(tail, '/') == Some(front.len() as int)
            &&& tail.take(front.len() as int) == front
            &&& tail.skip(front.len() as int) == seq!['/'] + path
            &&& !is_space(tail.last())
            &&& !is_space(path.last())
        }),
{
    let path = project_path(owner, repo, ending);
    let rooted = seq!['/'] + path;
    let tail = front + seq!['/'] + path;
    project_path_chars(owner, repo, ending);
    reveal_strlit(".git");
    assert(!is_space(path.last())) by {
        if ending.len() == 0 {
            assert(path.last() == repo.last());
        } else {
            assert(path.last() == ending.last());
        }
    }
    assert(tail.last() == path.last());
    assert forall|i: int| 0 <= i < tail.len() - 1 implies !(#[trigger] tail[i] == '/' && tail[i
        + 1] == '/') by {
        if i < front.len() {
            assert(front.contains(front[i]));
        } else {
            let k = i - front.len() - 1;
            if k >= 0 {
                assert(tail[i] == path[k]);
            }
            assert(tail[i + 1] == path[k + 1]);
        }
    }
    assert forall|j: int| 0 <= j < front.len() implies tail[j] != '/' by {
        assert(front.contains(front[j]));
    }
    first_at_is(tail, '/', front.len() as int);
    assert(tail.take(front.len() as int) =~= front);
    assert(tail.skip(front.len() as int) =~= rooted);
}

proof fn host_before_path(host: Seq<char>, rooted: Seq<char>)
    requires
        is_host_name(host),
        rooted.len() > 0,
        rooted[0] == '/',
    ensures
        host_port_and_path(host + rooted) == Some((host, rooted)),
{
    let tail = host + rooted;
    let n = host.len() as int;
    assert forall|j: int| 0 <= j < n implies tail[j] != '/' && tail[j] != ':' by {
        assert(host.contains(host[j]));
    }
    first_at_is(tail, '/', n);
    first_at_is_first(tail, ':');
    if let Some(colon) = find_first(tail, ':') {
        assert(tail[colon] == ':');
        assert(colon > n);
    }
    assert(tail.take(n) =~= host);
    assert(tail.skip(n) =~= rooted);
}

proof fn host_before_port(host: Seq<char>, port: Seq<char>, rooted: Seq<char>)
    requires
        is_host_name(host),
        !port.contains('/'),
        rooted.len() > 0,
        rooted[0] == '/',
    ensures
        host_port_and_path(host + seq![':'] + port + rooted) == Some((host, rooted)),
{
    let tail = host + seq![':'] + port + rooted;
    let n = host.len() as int;
    assert forall|j: int| 0 <= j < n implies tail[j] != '/' && tail[j] != ':' by {
        assert(tail[j] == host[j]);
        assert(host.contains(host[j]));
    }
    first_at_is(tail, ':', n);
    first_at_is_first(tail, '/');
    if let Some(slash) = find_first(tail, '/') {
        assert(tail[slash] == '/');
        assert(slash > n);
    }
    let rest = tail.skip(n + 1);
    assert(rest =~= port + rooted);
    assert forall|j: int| 0 <= j < port.len() implies rest[j] != '/' by {
        assert(rest[j] == port[j]);
        assert(port.contains(port[j]));
    }
    first_at_is(rest, '/', port.len() as int);
    assert(tail.take(n) =~= host);
    assert(rest.skip(port.len() as int) =~= rooted);
}

proof fn web_form(
    left: Seq<char>,
    host: Seq<char>,
    tail: Seq<char>,
    right: Seq<char>,
    scheme: Seq<char>,
)
    requires
        is_blank(left),
        is_blank(right),
        scheme == "https"@ || scheme == "http"@,
        tail.len() > host.len(),
        forall|i: int|
            0 <= i < tail.len() - 1 ==> !(#[trigger] tail[i] == '/' && tail[i + 1] == '/'),
        find_first(tail, '/') == Some(host.len() as int),
        !is_space(tail.last()),
    ensures
        scheme == "https"@ ==> location(trimmed(left + ("https://"@ + tail) + right)) == Some(
            (Scheme::Https, tail.take(host.len() as int), tail.skip(host.len() as int)),
        ),
        scheme == "http"@ ==> location(trimmed(left + ("http://"@ + tail) + right)) == Some(
            (Scheme::Http, tail.take(host.len() as int), tail.skip(host.len() as int)),
        ),
{
    reveal_strlit("https");
    reveal_strlit("http");
    reveal_strlit("https://");
    reveal_strlit("http://");
    reveal_strlit("ssh://");
    reveal_strlit("git+ssh://");
    reveal_strlit("://");
    let url = scheme + "://"@ + tail;
    assert(!scheme.contains(':'));
    part_after_scheme(scheme, tail);
    assert(url.last() == tail.last());
    space_around_is_trimmed(left, url, right);
    assert(url[0] == 'h');
    assert(!has_prefix(url, "ssh://"@)) by {
        if has_prefix(url, "ssh://"@) {
            assert(url.take(6)[0] == url[0]);
        }
    }
    assert(!has_prefix(url, "git+ssh://"@)) by {
        if has_prefix(url, "git+ssh://"@) {
            assert(url.take(10)[0] == url[0]);
        }
    }
    if scheme == "https"@ {
        assert(url =~= "https://"@ + tail);
        assert(url.take(8) =~= "https://"@);
    } else {
        assert(url =~= "http://"@ + tail);
        assert(url.take(7) =~= "http://"@);
        assert(!has_prefix(url, "https://"@)) by {
            if has_prefix(url, "https://"@) {
                assert(url.take(8)[4] == url[4]);
            }
        }
    }
}

proof fn ssh_form(left: Seq<char>, tail: Seq<char>, right: Seq<char>, scheme: Seq<char>)
    requires
        is_blank(left),
        is_blank(right),
        scheme == "ssh"@ || scheme == "git+ssh"@,
        tail.len() > 0,
        forall|i: int|
            0 <= i < tail.len() - 1 ==> !(#[trigger] tail[i] == '/' && tail[i + 1] == '/'),
        !is_space(tail.last()),
    ensures
        scheme == "ssh"@ ==> location(trimmed(left + ("ssh://git@"@ + tail) + right))
            == with_scheme(Scheme::Https, host_port_and_path(tail)),
        scheme == "git+ssh"@ ==> location(trimmed(left + ("git+ssh://git@"@ + tail) + right))
            == with_scheme(Scheme::Https, host_port_and_path(tail)),
{
    reveal_strlit("ssh");
    reveal_strlit("git+ssh");
    reveal_strlit("ssh://");
    reveal_strlit("git+ssh://");
    reveal_strlit("ssh://git@");
    reveal_strlit("git+ssh://git@");
    reveal_strlit("git@");
    reveal_strlit("://");
    let named = "git@"@ + tail;
    let url = scheme + "://"@ + named;
    assert forall|i: int| 0 <= i < named.len() - 1 implies !(#[trigger] named[i] == '/' && named[i
        + 1] == '/') by {
        if i >= 4 {
            assert(named[i] == tail[i - 4]);
            assert(named[i + 1] == tail[i - 3]);
        }
    }
    assert(!scheme.contains(':'));
    part_after_scheme(scheme, named);
    first_at_is(named, '@', 3);
    assert(named.skip(4) =~= tail);
    assert(without_user(named) == tail);
    assert(url.last() == tail.last());
    space_around_is_trimmed(left, url, right);
    assert(ssh_host_and_path(url) == host_port_and_path(tail));
    if scheme == "ssh"@ {
        assert(url =~= "ssh://git@"@ + tail);
        assert(url.take(6) =~= "ssh://"@);
    } else {
        assert(url =~= "git+ssh://git@"@ + tail);
        assert(url.take(10) =~= "git+ssh://"@);
    }
}

proof fn scp_form(left: Seq<char>, host: Seq<char>, path: Seq<char>, right: Seq<char>)
    requires
        is_blank(left),
        is_blank(right),
        is_host_name(host),
        path.len() > 0,
        path[0] != '/',
        !is_space(path.last()),
        forall|i: int|
            0 <= i < path.len() - 1 ==> !(#[trigger] path[i] == '/' && path[i + 1] == '/'),
    ensures
        location(trimmed(left + ("git@"@ + host + seq![':'] + path) + right)) == Some(
            (Scheme::Https, host, path),
        ),
{
    reveal_strlit("git@");
    reveal_strlit("ssh://");
    reveal_strlit("git+ssh://");
    reveal_strlit("https://");
    reveal_strlit("http://");
    let user = "git@"@;
    let named = user + host;
    let url = user + host + seq![':'] + path;
    let n = named.len() as int;
    assert forall|j: int| 0 <= j < n implies named[j] != ':' && named[j] != '/' by {
        if j >= 4 {
            assert(host.contains(host[j - 4]));
        }
    }
    assert forall|j: int| 0 <= j < n implies url[j] != ':' && url[j] != '/' by {
        assert(url[j] == named[j]);
    }
    assert(url[n] == ':');
    first_at_is(url, ':', n);
    assert(url.take(n) =~= named);
    assert(url.skip(n + 1) =~= path);
    first_at_is(named, '@', 3);
    assert(named.skip(4) =~= host);
    assert forall|i: int| 0 <= i < url.len() - 1 implies !(#[trigger] url[i] == '/' && url[i + 1]
        == '/') by {
        if i > n {
            assert(url[i] == path[i - n - 1]);
            assert(url[i + 1] == path[i - n]);
        } else if i < n {
            assert(url[i] != '/');
        }
    }
    no_scheme_without_slashes(url);
    assert(url.last() == path.last());
    space_around_is_trimmed(left, url, right);
    assert(url[0] == 'g' && url[1] == 'i' && url[2] == 't' && url[3] == '@');
    assert(!has_prefix(url, "ssh://"@)) by {
        if has_prefix(url, "ssh://"@) {
            assert(url.take(6)[0] == url[0]);
        }
    }
    assert(!has_prefix(url, "git+ssh://"@)) by {
        if has_prefix(url, "git+ssh://"@) {
            assert(url.take(10)[3] == url[3]);
        }
    }
    assert(!has_prefix(url, "https://"@)) by {
        if has_prefix(url, "https://"@) {
            assert(url.take(8)[0] == url[0]);
        }
    }
    assert(!has_prefix(url, "http://"@)) by {
        if has_prefix(url, "http://"@) {
            assert(url.take(7)[0] == url[0]);
        }
    }
}

// ---------------------------------------------------------------------------
// Laws on the figures of a forge
// ---------------------------------------------------------------------------

/// The pull requests are shown as they are counted, and whether the project is a fork as
/// the forge says it, on every forge. Only GitHub counts pull requests among the issues:
/// elsewhere the issues are those of the first reply, however many pull requests there
/// are.
pub proof fn figures_are_those_of_the_forge(
    kind: ForgeKind,
    facts: RepoFacts,
    pulls: u32,
    other: u32,
)
    ensures
        ({
            let stats = stats_from(kind, facts, pulls);
            &&& stats.open_prs == pulls
            &&& stats.is_fork == facts.is_fork
            &&& stats.open_issues <= facts.issues
            &&& kind != ForgeKind::GitHub ==> stats.open_issues == facts.issues
            &&& kind != ForgeKind::GitHub ==> stats.open_issues == stats_from(
                kind,
                facts,
                other,
            ).open_issues
            &&& kind == ForgeKind::GitHub && pulls <= facts.issues ==> stats.open_issues + pulls
                == facts.issues
            &&& kind == ForgeKind::GitHub && pulls > facts.issues ==> stats.open_issues == 0
        }),
{
}

/// The first reply gives the open issues on every forge. Gitea counts the pull requests
/// there too. A fork is marked by a flag, or on GitLab by the project that it was forked
/// from. Each of them is read for itself.
pub proof fn first_reply_is_read(kind: ForgeKind, doc: JsonView, n: u64)
    requires
        n <= u32::MAX,
    ensures
        ({
            let facts = facts_in(kind, doc);
            let given = Some(JsonField::Number(Some(n)));
            &&& doc.member("open_issues_count"@) == given ==> facts.issues == n
            &&& kind == ForgeKind::Gitea && doc.member("open_pr_counter"@) == given ==> facts.prs
                == n
            &&& kind != ForgeKind::GitLab ==> (facts.is_fork <==> doc.member("fork"@) == Some(
                JsonField::Bool(true),
            ))
            &&& kind == ForgeKind::GitLab ==> (facts.is_fork <==> doc.member(
                "forked_from_project"@,
            ) == Some(JsonField::Object))
        }),
{
}

/// What the first reply does not hold counts as none.
pub proof fn missing_figures_are_none(kind: ForgeKind, doc: JsonView)
    requires
        !(doc is Object),
    ensures
        facts_in(kind, doc) == (RepoFacts { issues: 0, prs: 0, is_fork: false }),
{
}

/// On Gitea the first reply is the only one: its figures are shown. On the others the pull
/// requests are asked for with a second request, which carries the same token. A reply
/// that cannot be read ends the query with an error.
pub proof fn query_goes_on(
    info: RemoteInfoView,
    token: Option<Seq<char>>,
    doc: JsonView,
    issues: u64,
    pulls: u64,
    error: Seq<char>,
)
    requires
        issues <= u32::MAX,
        pulls <= u32::MAX,
        doc.member("open_issues_count"@) == Some(JsonField::Number(Some(issues))),
    ensures
        info.kind == ForgeKind::Gitea ==> (step_after_repo(info, token, Ok(doc)) matches
            ForgeStepView::Finished(Ok(stats)) && stats.open_issues == issues && (doc.member(
            "open_pr_counter"@,
        ) == Some(JsonField::Number(Some(pulls))) ==> stats.open_prs == pulls)),
        info.kind != ForgeKind::Gitea ==> (step_after_repo(info, token, Ok(doc)) matches
            ForgeStepView::Ask(request, facts) && facts.issues == issues && request.header
            == token_header(info.kind, token) && has_prefix(request.url, repo_url(info) + "/"@)),
        step_after_repo(info, token, Err(error)) matches ForgeStepView::Finished(Err(e))
            && has_suffix(e, error),
{
    reveal_strlit("/");
    reveal_strlit("/pulls?state=open&per_page=1");
    reveal_strlit("/merge_requests?state=opened&per_page=1");
    let base = repo_url(info);
    let head = base + "/"@;
    if let Some(url) = pulls_url(info) {
        assert(url.take(head.len() as int) =~= head);
    }
    suffix_comes_off("Failed to read JSON: "@, error);
}

/// GitLab counts the open merge requests in a header, whatever else its reply holds. Where
/// the header is missing there are none.
pub proof fn gitlab_counts_in_a_header(
    n: u32,
    link: Option<Seq<char>>,
    doc: Result<JsonView, Seq<char>>,
    facts: RepoFacts,
)
    ensures
        pulls_in(ForgeKind::GitLab, link, Some(decimal(n as nat)), doc) == n,
        pulls_in(ForgeKind::GitLab, link, None, doc) == 0,
        ({
            let pulls = pulls_in(ForgeKind::GitLab, link, Some(decimal(n as nat)), doc);
            let stats = stats_from(ForgeKind::GitLab, facts, pulls);
            stats.open_prs == n && stats.open_issues == facts.issues
        }),
{
    decimal_reads_back(n as nat);
}

/// The last page that GitHub links to is the number of pull requests, one to a page,
/// whichever links stand before it. Where there is no such link, the reply lists them.
pub proof fn github_counts_in_pages(
    first: Seq<char>,
    base: Seq<char>,
    params: Seq<char>,
    n: u32,
    total: Option<Seq<char>>,
    doc: Result<JsonView, Seq<char>>,
)
    requires
        !first.contains(','),
        find(first, "rel=\"last\""@) is None,
        !base.contains(',') && !base.contains('>') && !base.contains('?'),
        !params.contains(',') && !params.contains('>') && !params.contains('?') && !params.contains(
            '&',
        ),
        after_prefix(params, "page="@) is None,
    ensures
        ({
            let page = "page="@ + decimal(n as nat);
            let end = ">; rel=\"last\""@;
            let only = "<"@ + base + "?"@ + page + end;
            let behind = "<"@ + base + "?"@ + params + "&"@ + page + end;
            &&& last_page(Some(only)) == Some(n)
            &&& last_page(Some(behind)) == Some(n)
            &&& last_page(Some(first + seq![','] + only)) == Some(n)
            &&& last_page(Some(first + seq![','] + behind)) == Some(n)
            &&& last_page(Some(first)) is None
            &&& last_page(None) is None
            &&& pulls_in(ForgeKind::GitHub, Some(behind), total, doc) == n
            &&& doc matches Ok(JsonView::Array(len)) ==> len <= u32::MAX ==> pulls_in(
                ForgeKind::GitHub,
                None,
                total,
                doc,
            ) == len
        }),
{
    let page = "page="@ + decimal(n as nat);
    let end = ">; rel=\"last\""@;
    let only = "<"@ + base + "?"@ + page + end;
    let behind = "<"@ + base + "?"@ + params + "&"@ + page + end;
    page_text(n);
    link_with_query(base, page);
    let query = params + seq!['&'] + page;
    assert(!query.contains(',') && !query.contains('>') && !query.contains('?')) by {
        no_char_in_three(params, seq!['&'], page, ',');
        no_char_in_three(params, seq!['&'], page, '>');
        no_char_in_three(params, seq!['&'], page, '?');
    }
    link_with_query(base, query);
    reveal_strlit("&");
    assert("&"@ =~= seq!['&']);
    assert(behind =~= "<"@ + base + "?"@ + query + end);
    parts_of_concatenation(params, '&', page);
    parts_of_concatenation(page, '&', page);
    assert(parts(query, '&') =~= seq![params, page]);
    assert(parts(query, '&').drop_first() =~= seq![page]);
    assert(page_among(seq![page]) == Some(decimal(n as nat)));
    assert(page_among(parts(query, '&')) == Some(decimal(n as nat)));
    parts_of_concatenation(first, ',', only);
    parts_of_concatenation(first, ',', behind);
    parts_of_concatenation(only, ',', only);
    parts_of_concatenation(behind, ',', behind);
    let links = seq![first] + seq![only];
    assert(links.drop_first() =~= seq![only]);
    let more = seq![first] + seq![behind];
    assert(more.drop_first() =~= seq![behind]);
    assert(seq![first].drop_first() =~= Seq::<Seq<char>>::empty());
    assert(last_page_among(Seq::<Seq<char>>::empty()) is None);
}

proof fn no_char_in_three(a: Seq<char>, b: Seq<char>, c: Seq<char>, x: char)
    requires
        !a.contains(x),
        !b.contains(x),
        !c.contains(x),
    ensures
        !(a + b + c).contains(x),
{
    let s = a + b + c;
    if s.contains(x) {
        let k = choose|k: int| 0 <= k < s.len() && s[k] == x;
        if k < a.len() {
            assert(a[k] == x);
        } else if k < a.len() + b.len() {
            assert(b[k - a.len()] == x);
        } else {
            assert(c[k - a.len() - b.len()] == x);
        }
    }
}

proof fn page_text(n: u32)
    ensures
        ({
            let page = "page="@ + decimal(n as nat);
            &&& after_prefix(page, "page="@) == Some(decimal(n as nat))
            &&& number(decimal(n as nat)) == Some(n)
            &&& !page.contains(',') && !page.contains('>') && !page.contains('?')
            &&& !page.contains('&')
        }),
{
    let d = decimal(n as nat);
    let page = "page="@ + d;
    reveal_strlit("page=");
    decimal_reads_back(n as nat);
    prefix_comes_off("page="@, d);
    assert forall|k: int| 0 <= k < page.len() implies page[k] != ',' && page[k] != '>' && page[k]
        != '?' && page[k] != '&' by {
        if k >= 5 {
            assert(page[k] == d[k - 5]);
            assert(is_digit(d[k - 5]));
        }
    }
}

proof fn link_with_query(base: Seq<char>, query: Seq<char>)
    requires
        !base.contains(',') && !base.contains('>') && !base.contains('?'),
        !query.contains(',') && !query.contains('>') && !query.contains('?'),
    ensures
        ({
            let link = "<"@ + base + "?"@ + query + ">; rel=\"last\""@;
            &&& !link.contains(',')
            &&& find(link, "rel=\"last\""@) is Some
            &&& link_query(link) == Some(query)
        }),
{
    let link = "<"@ + base + "?"@ + query + ">; rel=\"last\""@;
    let url = base + seq!['?'] + query;
    let tail = "; rel=\"last\""@;
    assert(link == "<"@ + (url + seq!['>'] + tail) && link.len() > 0 && link[0] == '<'
        && link.last() == '"' && !"<"@.contains(',') && !(seq!['>'] + tail).contains(',')) by {
        reveal_strlit("<");
        reveal_strlit("?");
        reveal_strlit("; rel=\"last\"");
        reveal_strlit(">; rel=\"last\"");
        assert(link =~= "<"@ + (url + seq!['>'] + tail));
    }
    assert(!link.contains(',')) by {
        no_char_in_three(base, seq!['?'], query, ',');
        no_char_in_three("<"@, url, seq!['>'] + tail, ',');
        assert(link =~= "<"@ + url + (seq!['>'] + tail));
    }
    assert(find(link, "rel=\"last\""@) is Some) by {
        let mark = "rel=\"last\""@;
        reveal_strlit("rel=\"last\"");
        reveal_strlit("; rel=\"last\"");
        let at = link.len() - mark.len();
        find_is_first(link, mark);
        assert(link.skip(at) =~= mark);
        assert(link.skip(at).take(mark.len() as int) =~= mark);
        assert(has_prefix(link.skip(at), mark));
    }
    assert(trimmed(link) == link) by {
        let none = Seq::<char>::empty();
        trimming_leaves_the_middle(none, link, none);
        assert(none + link + none =~= link);
    }
    assert(parts(url + seq!['>'] + tail, '>')[0] == url) by {
        no_char_in_three(base, seq!['?'], query, '>');
        parts_of_concatenation(url, '>', tail);
    }
    assert(parts(url, '?') == seq![base, query]) by {
        parts_of_concatenation(base, '?', query);
        parts_of_concatenation(query, '?', query);
        assert(parts(url, '?') =~= seq![base, query]);
    }
    prefix_comes_off("<"@, url + seq!['>'] + tail);
}

// ---------------------------------------------------------------------------
// Laws on requests
// ---------------------------------------------------------------------------

/// A forge is asked about the project under its owner and its name: GitHub at its own
/// interface, the others at the host of the remote and by its scheme. GitLab takes both as
/// one name, with the slash encoded.
pub proof fn requests_name_the_project(info: RemoteInfoView)
    requires
        !info.owner.contains('/'),
        !info.repo_name.contains('/'),
    ensures
        ({
            let url = repo_url(info);
            let site = info.scheme.text() + "://"@ + info.host + "/api/"@;
            &&& info.kind == ForgeKind::GitHub ==> has_prefix(url, "https://api.github.com/"@)
            &&& info.kind != ForgeKind::GitHub ==> has_prefix(url, site)
            &&& info.kind != ForgeKind::GitLab ==> has_suffix(
                url,
                seq!['/'] + info.owner + seq!['/'] + info.repo_name,
            )
            &&& info.kind == ForgeKind::GitLab ==> has_suffix(
                url,
                seq!['/'] + info.owner + "%2F"@ + info.repo_name,
            )
            &&& pulls_url(info) is None <==> info.kind == ForgeKind::Gitea
        }),
{
    reveal_strlit("https://api.github.com/");
    reveal_strlit("https://api.github.com/repos/");
    reveal_strlit("/api/");
    reveal_strlit("/api/v4/projects/");
    reveal_strlit("/api/v1/repos/");
    reveal_strlit("/");
    reveal_strlit("://");
    reveal_strlit("%2F");
    let url = repo_url(info);
    let project = info.owner + "/"@ + info.repo_name;
    assert("/"@ =~= seq!['/']);
    let site = info.scheme.text() + "://"@ + info.host + "/api/"@;
    match info.kind {
        ForgeKind::GitHub => {
            assert(url.take(23) =~= "https://api.github.com/"@);
            let tail = seq!['/'] + info.owner + seq!['/'] + info.repo_name;
            assert(url.skip(url.len() - tail.len()) =~= tail);
        },
        ForgeKind::Gitea => {
            assert(url.take(site.len() as int) =~= site);
            let tail = seq!['/'] + info.owner + seq!['/'] + info.repo_name;
            assert(url.skip(url.len() - tail.len()) =~= tail);
        },
        ForgeKind::GitLab => {
            replacing_is_piecewise(info.owner + "/"@, info.repo_name, '/', "%2F"@);
            replacing_is_piecewise(info.owner, "/"@, '/', "%2F"@);
            replacing_is_piecewise(info.repo_name, info.repo_name, '/', "%2F"@);
            let coded = info.owner + "%2F"@ + info.repo_name;
            assert(replaced(project, '/', "%2F"@) =~= coded);
            assert(url.take(site.len() as int) =~= site);
            let tail = seq!['/'] + info.owner + "%2F"@ + info.repo_name;
            assert(url.skip(url.len() - tail.len()) =~= tail);
        },
    }
}

/// A request carries a token exactly where there is one, and as it is.
pub proof fn tokens_are_sent(kind: ForgeKind, token: Seq<char>)
    ensures
        token_header(kind, None) is None,
        token_header(kind, Some(token)) matches Some((name, value)) && has_suffix(value, token),
        kind == ForgeKind::GitLab ==> token_header(kind, Some(token)) == Some(
            ("PRIVATE-TOKEN"@, token),
        ),
        kind != ForgeKind::GitLab ==> (token_header(kind, Some(token)) matches Some((name, _))
            && name == "Authorization"@),
{
    suffix_comes_off("Bearer "@, token);
    suffix_comes_off("token "@, token);
    suffix_comes_off(Seq::<char>::empty(), token);
    assert(Seq::<char>::empty() + token =~= token);
}

/// A forge gets a token of its own only: those of the others do not matter to it. For
/// GitHub the variable comes first and the command line tool second; Codeberg takes its own
/// variable before that of Gitea, and no other host takes it.
pub proof fn tokens_stay_with_their_forge(
    host: Seq<char>,
    a: TokenEnv,
    b: TokenEnv,
    printed: Option<Seq<char>>,
)
    ensures
        a.github == b.github ==> token_for(ForgeKind::GitHub, host, a, printed) == token_for(
            ForgeKind::GitHub,
            host,
            b,
            printed,
        ),
        a.gitlab == b.gitlab ==> token_for(ForgeKind::GitLab, host, a, printed) == token_for(
            ForgeKind::GitLab,
            host,
            b,
            None,
        ),
        a.gitea == b.gitea && (host != "codeberg.org"@ || a.codeberg == b.codeberg) ==> token_for(
            ForgeKind::Gitea,
            host,
            a,
            printed,
        ) == token_for(ForgeKind::Gitea, host, b, None),
        a.github matches Some(t) ==> token_for(ForgeKind::GitHub, host, a, printed) == Some(t@),
        a.gitlab matches Some(t) ==> token_for(ForgeKind::GitLab, host, a, printed) == Some(t@),
        a.gitlab is None ==> token_for(ForgeKind::GitLab, host, a, printed) is None,
        a.codeberg matches Some(t) ==> token_for(
            ForgeKind::Gitea,
            "codeberg.org"@,
            a,
            printed,
        ) == Some(t@),
        a.gitea matches Some(t) ==> host != "codeberg.org"@ || a.codeberg is None ==> token_for(
            ForgeKind::Gitea,
            host,
            a,
            printed,
        ) == Some(t@),
        a.gitea is None && (host != "codeberg.org"@ || a.codeberg is None) ==> token_for(
            ForgeKind::Gitea,
            host,
            a,
            printed,
        ) is None,
{
}

/// What the command line tool prints is the token, without the white space around it, where
/// the variable is not set; nothing is no token.
pub proof fn printed_tokens_are_trimmed(host: Seq<char>, env: TokenEnv, token: Seq<char>)
    requires
        env.github is None,
        token.len() > 0 && !is_space(token[0]) && !is_space(token.last()),
    ensures
        token_for(ForgeKind::GitHub, host, env, Some(token + seq!['\n'])) == Some(token),
        token_for(ForgeKind::GitHub, host, env, Some(seq!['\n'])) is None,
        token_for(ForgeKind::GitHub, host, env, None) is None,
{
    let none = Seq::<char>::empty();
    trimming_leaves_the_middle(none, token, seq!['\n']);
    assert(none + token + seq!['\n'] =~= token + seq!['\n']);
    trimming_leaves_the_middle(seq!['\n'], none, none);
    assert(seq!['\n'] + none + none =~= seq!['\n']);
}

/// A host is the forge that it is known for or listed as, and no forge where it is neither.
pub proof fn hosts_are_what_they_are_listed_as(
    host: Seq<char>,
    gitea: Seq<Seq<char>>,
    gitlab: Seq<Seq<char>>,
)
    ensures
        kind_of_host("github.com"@, gitea, gitlab) == Some(ForgeKind::GitHub),
        kind_of_host("gitlab.com"@, gitea, gitlab) == Some(ForgeKind::GitLab),
        kind_of_host("codeberg.org"@, gitea, gitlab) == Some(ForgeKind::Gitea),
        host != "github.com"@ && host != "gitlab.com"@ && host != "codeberg.org"@ ==> {
            &&& gitea.contains(host) ==> kind_of_host(host, gitea, gitlab) == Some(ForgeKind::Gitea)
            &&& !gitea.contains(host) && gitlab.contains(host) ==> kind_of_host(
                host,
                gitea,
                gitlab,
            ) == Some(ForgeKind::GitLab)
            &&& !gitea.contains(host) && !gitlab.contains(host) ==> kind_of_host(
                host,
                gitea,
                gitlab,
            ) is None
        },
{
    reveal_strlit("github.com");
    reveal_strlit("gitlab.com");
    reveal_strlit("codeberg.org");
    assert("gitlab.com"@[3] == 'l' && "github.com"@[3] == 'h');
    assert("codeberg.org"@.len() == 12);
}

/// The hosts of a list are its entries in lower case, one after the other, without those
/// that are empty.
pub proof fn listed_hosts_are_read(entry: Seq<char>, rest: Seq<char>)
    requires
        !entry.contains(','),
    ensures
        ({
            let host = lowercase(trimmed(entry));
            let others = hosts_among(parts(rest, ','));
            hosts_among(parts(entry + seq![','] + rest, ',')) == (if host.len() > 0 {
                seq![host]
            } else {
                Seq::<Seq<char>>::empty()
            }) + others
        }),
{
    parts_of_concatenation(entry, ',', rest);
    hosts_of_one_more(entry, parts(rest, ','));
}

proof fn hosts_of_one_more(entry: Seq<char>, entries: Seq<Seq<char>>)
    ensures
        ({
            let host = lowercase(trimmed(entry));
            hosts_among(seq![entry] + entries) == (if host.len() > 0 {
                seq![host]
            } else {
                Seq::<Seq<char>>::empty()
            }) + hosts_among(entries)
        }),
    decreases entries.len(),
{
    let host = lowercase(trimmed(entry));
    let head = if host.len() > 0 {
        seq![host]
    } else {
        Seq::<Seq<char>>::empty()
    };
    let all = seq![entry] + entries;
    if entries.len() == 0 {
        assert(all.drop_last() =~= Seq::<Seq<char>>::empty());
        assert(all.last() == entry);
        assert(hosts_among(all.drop_last()) =~= Seq::<Seq<char>>::empty());
        assert(hosts_among(all) =~= head + hosts_among(entries));
    } else {
        hosts_of_one_more(entry, entries.drop_last());
        assert(all.drop_last() =~= seq![entry] + entries.drop_last());
        assert(all.last() == entries.last());
        assert(hosts_among(all) =~= head + hosts_among(entries));
    }
}

/// The second request asks for the open ones only, and for one to a page, so that the pages
/// count them.
pub proof fn open_pulls_are_asked_for(info: RemoteInfoView)
    ensures
        info.kind == ForgeKind::GitHub ==> (pulls_url(info) matches Some(url) && url == repo_url(
            info,
        ) + "/pulls"@ + "?state=open"@ + "&per_page=1"@),
        info.kind == ForgeKind::GitLab ==> (pulls_url(info) matches Some(url) && url == repo_url(
            info,
        ) + "/merge_requests"@ + "?state=opened"@ + "&per_page=1"@),
{
    reveal_strlit("/pulls");
    reveal_strlit("/merge_requests");
    reveal_strlit("?state=open");
    reveal_strlit("?state=opened");
    reveal_strlit("&per_page=1");
    reveal_strlit("/pulls?state=open&per_page=1");
    reveal_strlit("/merge_requests?state=opened&per_page=1");
    let base = repo_url(info);
    assert(base + "/pulls?state=open&per_page=1"@ =~= base + "/pulls"@ + "?state=open"@
        + "&per_page=1"@);
    assert(base + "/merge_requests?state=opened&per_page=1"@ =~= base + "/merge_requests"@
        + "?state=opened"@ + "&per_page=1"@);
}

/// What stands before a token tells the forge what it is, and is no part of it.
pub proof fn tokens_have_their_word(token: Seq<char>)
    ensures
        token_header(ForgeKind::GitHub, Some(token)) matches Some((_, value)) && after_prefix(
            value,
            "Bearer "@,
        ) == Some(token),
        token_header(ForgeKind::Gitea, Some(token)) matches Some((_, value)) && after_prefix(
            value,
            "token "@,
        ) == Some(token),
{
    prefix_comes_off("Bearer "@, token);
    prefix_comes_off("token "@, token);
}

/// A path names a project only where it has two parts: one with fewer or more names none,
/// and slashes around it do not count.
pub proof fn projects_have_two_parts(a: Seq<char>, b: Seq<char>, c: Seq<char>)
    requires
        is_plain_name(a),
        is_plain_name(b),
        is_plain_name(c),
        !has_suffix(a, ".git"@) && !has_suffix(b, ".git"@) && !has_suffix(c, ".git"@),
    ensures
        owner_and_repo(a + seq!['/'] + b) == Some((a, b)),
        owner_and_repo(seq!['/'] + (a + seq!['/'] + b)) == Some((a, b)),
        owner_and_repo(a) is None,
        owner_and_repo(a + seq!['/'] + (b + seq!['/'] + c)) is None,
{
    let none = Seq::<char>::empty();
    project_of_path(a, b, none);
    assert(project_path(a, b, none) =~= a + seq!['/'] + b);
    assert(a.contains(a[0]) && a.contains(a.last()));
    assert(trim_char_front(a, '/') == a && trim_char_back(a, '/') == a);
    halves_of_concatenation(a, '/', a);
    let tail = b + seq!['/'] + c;
    let long = a + seq!['/'] + tail;
    assert(long[0] == a[0]);
    assert(long.last() == c.last());
    assert(c.contains(c.last()));
    assert(trim_char_front(long, '/') == long && trim_char_back(long, '/') == long);
    assert(!has_suffix(long, ".git"@)) by {
        reveal_strlit(".git");
        if has_suffix(long, ".git"@) {
            let end = long.skip(long.len() - 4);
            if c.len() >= 4 {
                assert(c.skip(c.len() - 4) =~= end);
            } else {
                let k = 3 - c.len();
                assert(end[k] == long[long.len() - 4 + k]);
                assert(long[long.len() - c.len() - 1] == '/');
                assert(".git"@[k] == '/');
            }
        }
    }
    halves_of_concatenation(a, '/', tail);
    halves_of_concatenation(b, '/', c);
    assert(find_first(tail, '/') is Some);
}

// ---------------------------------------------------------------------------
// Users in addresses
// ---------------------------------------------------------------------------

/// Whoever the user in an address is, and whether there is one, it denotes the same place:
/// in an address with the scheme of SSH, and in one of the form `user@host:path`.
pub proof fn users_do_not_matter(
    user: Seq<char>,
    host: Seq<char>,
    owner: Seq<char>,
    repo: Seq<char>,
    ending: Seq<char>,
)
    requires
        !user.contains('@') && !user.contains('/') && !user.contains(':'),
        is_host_name(host),
        is_plain_name(owner) && !owner.contains('@'),
        is_plain_name(repo) && !repo.contains('@'),
        is_ending(repo, ending),
        !is_space(repo.last()),
    ensures
        ({
            let path = project_path(owner, repo, ending);
            let rooted = seq!['/'] + path;
            let tail = host + seq!['/'] + path;
            let there = Some((Scheme::Https, host, rooted));
            &&& location("ssh://"@ + (user + seq!['@'] + tail)) == there
            &&& location("ssh://"@ + tail) == there
            &&& location("git+ssh://"@ + (user + seq!['@'] + tail)) == there
            &&& location("git+ssh://"@ + tail) == there
            &&& location(user + seq!['@'] + host + seq![':'] + path) == Some(
                (Scheme::Https, host, path),
            )
            &&& location(host + seq![':'] + path) == Some((Scheme::Https, host, path))
        }),
{
    let path = project_path(owner, repo, ending);
    let rooted = seq!['/'] + path;
    let tail = host + seq!['/'] + path;
    assert(host_port_and_path(tail) == Some((host, rooted))) by {
        host_before_path(host, rooted);
        assert(tail =~= host + rooted);
    }
    assert(!tail.contains('@')) by {
        assert(!ending.contains('@')) by {
            reveal_strlit(".git");
        }
        no_char_in_three(owner, seq!['/'], repo, '@');
        no_char_in_three(owner + seq!['/'] + repo, ending, Seq::empty(), '@');
        assert(owner + seq!['/'] + repo + ending + Seq::<char>::empty() =~= path);
        no_char_in_three(host, seq!['/'], path, '@');
    }
    ssh_users(user, host, owner, repo, ending);
    scp_users(user, host, owner, repo, ending);
}

proof fn ssh_users(
    user: Seq<char>,
    host: Seq<char>,
    owner: Seq<char>,
    repo: Seq<char>,
    ending: Seq<char>,
)
    requires
        !user.contains('@') && !user.contains('/'),
        is_host_name(host),
        is_plain_name(owner),
        is_plain_name(repo),
        is_ending(repo, ending),
        !is_space(repo.last()),
        !(host + seq!['/'] + project_path(owner, repo, ending)).contains('@'),
    ensures
        ({
            let tail = host + seq!['/'] + project_path(owner, repo, ending);
            let there = with_scheme(Scheme::Https, host_port_and_path(tail));
            &&& location("ssh://"@ + (user + seq!['@'] + tail)) == there
            &&& location("ssh://"@ + tail) == there
            &&& location("git+ssh://"@ + (user + seq!['@'] + tail)) == there
            &&& location("git+ssh://"@ + tail) == there
        }),
{
    let tail = host + seq!['/'] + project_path(owner, repo, ending);
    address_tail(host, owner, repo, ending);
    user_comes_off(user, tail);
    no_slashes_in_user(user, tail);
    ssh_location(user + seq!['@'] + tail);
    ssh_location(tail);
}

proof fn scp_users(
    user: Seq<char>,
    host: Seq<char>,
    owner: Seq<char>,
    repo: Seq<char>,
    ending: Seq<char>,
)
    requires
        !user.contains('@') && !user.contains('/') && !user.contains(':'),
        is_host_name(host),
        is_plain_name(owner),
        is_plain_name(repo),
        is_ending(repo, ending),
    ensures
        ({
            let path = project_path(owner, repo, ending);
            let there = Some((Scheme::Https, host, path));
            &&& location(user + seq!['@'] + host + seq![':'] + path) == there
            &&& location(host + seq![':'] + path) == there
        }),
{
    let path = project_path(owner, repo, ending);
    let front = user + seq!['@'] + host;
    project_path_chars(owner, repo, ending);
    assert(!front.contains(':') && !front.contains('/')) by {
        no_char_in_three(user, seq!['@'], host, ':');
        no_char_in_three(user, seq!['@'], host, '/');
    }
    assert forall|i: int| 0 <= i < path.len() - 1 implies !(#[trigger] path[i] == '/' && path[i
        + 1] == '/') by {
        assert(path[i] == '/' ==> i == owner.len());
        assert(path[i + 1] == '/' ==> i + 1 == owner.len());
    }
    user_comes_off(user, host);
    scp_location(front, path);
    scp_location(host, path);
}

proof fn no_slashes_in_user(user: Seq<char>, tail: Seq<char>)
    requires
        !user.contains('/'),
        forall|i: int|
            0 <= i < tail.len() - 1 ==> !(#[trigger] tail[i] == '/' && tail[i + 1] == '/'),
    ensures
        ({
            let named = user + seq!['@'] + tail;
            forall|i: int|
                0 <= i < named.len() - 1 ==> !(#[trigger] named[i] == '/' && named[i + 1] == '/')
        }),
{
    let named = user + seq!['@'] + tail;
    assert forall|i: int| 0 <= i < named.len() - 1 implies !(#[trigger] named[i] == '/' && named[i
        + 1] == '/') by {
        if i < user.len() {
            assert(user.contains(user[i]));
        } else if i > user.len() {
            let k = i - user.len() - 1;
            assert(named[i] == tail[k]);
            assert(named[i + 1] == tail[k + 1]);
        }
    }
}

proof fn user_comes_off(user: Seq<char>, rest: Seq<char>)
    requires
        !user.contains('@'),
    ensures
        without_user(user + seq!['@'] + rest) == rest,
        !rest.contains('@') ==> without_user(rest) == rest,
{
    let s = user + seq!['@'] + rest;
    let n = user.len() as int;
    assert forall|j: int| 0 <= j < n implies s[j] != '@' by {
        assert(user.contains(user[j]));
    }
    first_at_is(s, '@', n);
    assert(s.skip(n + 1) =~= rest);
    first_at_is_first(rest, '@');
    if find_first(rest, '@') is Some {
        assert(rest.contains(rest[find_first(rest, '@')->0]));
    }
}

proof fn ssh_location(named: Seq<char>)
    requires
        forall|i: int|
            0 <= i < named.len() - 1 ==> !(#[trigger] named[i] == '/' && named[i + 1] == '/'),
    ensures
        location("ssh://"@ + named) == with_scheme(
            Scheme::Https,
            host_port_and_path(without_user(named)),
        ),
        location("git+ssh://"@ + named) == with_scheme(
            Scheme::Https,
            host_port_and_path(without_user(named)),
        ),
{
    reveal_strlit("ssh");
    reveal_strlit("git+ssh");
    reveal_strlit("ssh://");
    reveal_strlit("git+ssh://");
    reveal_strlit("://");
    assert(!"ssh"@.contains(':') && !"git+ssh"@.contains(':'));
    part_after_scheme("ssh"@, named);
    part_after_scheme("git+ssh"@, named);
    let a = "ssh://"@ + named;
    let b = "git+ssh://"@ + named;
    assert(a =~= "ssh"@ + "://"@ + named);
    assert(b =~= "git+ssh"@ + "://"@ + named);
    assert(a.take(6) =~= "ssh://"@);
    assert(b.take(10) =~= "git+ssh://"@);
}

proof fn scp_location(front: Seq<char>, path: Seq<char>)
    requires
        !front.contains(':') && !front.contains('/'),
        path.len() > 0 && path[0] != '/',
        forall|i: int|
            0 <= i < path.len() - 1 ==> !(#[trigger] path[i] == '/' && path[i + 1] == '/'),
    ensures
        location(front + seq![':'] + path) == Some((Scheme::Https, without_user(front), path)),
{
    let url = front + seq![':'] + path;
    let n = front.len() as int;
    halves_of_concatenation(front, ':', path);
    assert forall|i: int| 0 <= i < url.len() - 1 implies !(#[trigger] url[i] == '/' && url[i + 1]
        == '/') by {
        if i < n {
            assert(front.contains(front[i]));
        } else if i > n {
            assert(url[i] == path[i - n - 1]);
            assert(url[i + 1] == path[i - n]);
        }
    }
    no_scheme_without_slashes(url);
    no_prefix_without_scheme(url);
}

proof fn no_prefix_without_scheme(url: Seq<char>)
    requires
        find(url, "://"@) is None,
    ensures
        !has_prefix(url, "ssh://"@),
        !has_prefix(url, "git+ssh://"@),
        !has_prefix(url, "https://"@),
        !has_prefix(url, "http://"@),
{
    let mark = "://"@;
    reveal_strlit("://");
    reveal_strlit("ssh://");
    reveal_strlit("git+ssh://");
    reveal_strlit("https://");
    reveal_strlit("http://");
    find_is_first(url, mark);
    if has_prefix(url, "ssh://"@) {
        scheme_mark(url, "ssh://"@, 3);
    }
    if has_prefix(url, "git+ssh://"@) {
        scheme_mark(url, "git+ssh://"@, 7);
    }
    if has_prefix(url, "https://"@) {
        scheme_mark(url, "https://"@, 5);
    }
    if has_prefix(url, "http://"@) {
        scheme_mark(url, "http://"@, 4);
    }
}

proof fn scheme_mark(url: Seq<char>, prefix: Seq<char>, at: int)
    requires
        has_prefix(url, prefix),
        0 <= at,
        prefix.len() == at + 3,
        prefix[at] == ':' && prefix[at + 1] == '/' && prefix[at + 2] == '/',
    ensures
        has_prefix(url.skip(at), "://"@),
{
    reveal_strlit("://");
    let head = url.take(prefix.len() as int);
    assert(head[at] == url[at] && head[at + 1] == url[at + 1] && head[at + 2] == url[at + 2]);
    assert(url.skip(at).take(3) =~= "://"@);
}

} // verus!
