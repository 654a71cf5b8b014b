//! Web addresses: completing what a user typed, and which origins the settings let through.

use crate::config::Config;
use crate::config::ConfigV;
use crate::text;
use crate::text::Text;
use vstd::prelude::*;

verus! {

/// An address that names its scheme.
pub open spec fn has_scheme(u: Text) -> bool {
    text::text_has(u, "://"@) || text::text_starts(u, "about:"@) || text::text_starts(u, "data:"@) || text::text_starts(
        u,
        "javascript:"@,
    ) || text::text_starts(u, "file:"@) || text::text_starts(u, "chrome:"@) || text::text_starts(u, "blob:"@)
}

/// An address on this machine.
pub open spec fn is_local(u: Text) -> bool {
    text::text_starts(u, "localhost"@) || text::text_starts(u, "127.0.0.1"@) || text::text_starts(u, "[::1]"@)
}

/// A typed address with a scheme: `http` on this machine, `https` elsewhere.
pub open spec fn full_url(url: Text) -> Text {
    let u = text::trimmed(url);
    if has_scheme(u) {
        u
    } else if is_local(u) {
        "http://"@ + u
    } else {
        "https://"@ + u
    }
}

pub fn normalize_url(url: &str) -> (r: String)
    ensures
        r@ == full_url(url@),
{
    let u = text::trim(url);
    if text::contains(&u, "://") || text::starts_with(&u, "about:") || text::starts_with(&u, "data:") || text::starts_with(
        &u,
        "javascript:",
    ) || text::starts_with(&u, "file:") || text::starts_with(&u, "chrome:") || text::starts_with(&u, "blob:") {
        return u;
    }
    if text::starts_with(&u, "localhost") || text::starts_with(&u, "127.0.0.1") || text::starts_with(&u, "[::1]") {
        return text::concat("http://", &u);
    }
    text::concat("https://", &u)
}

/// Scheme and host of an address.
pub open spec fn url_origin(url: Text) -> Option<Text> {
    match text::cut_at(url, "://"@) {
        Some((scheme, rest)) => Some(scheme + "://"@ + text::pieces(rest, "/?#"@)[0]),
        None => None,
    }
}

pub fn origin_of(url: &str) -> (r: Option<String>)
    ensures
        text::opt_text(r) == url_origin(url@),
{
    match text::split_once(url, "://") {
        Some((scheme, rest)) => {
            let parts = text::split_on(&rest, "/?#");
            let mut s = scheme;
            s.append("://");
            proof {
                assert(text::views(parts@)[0] == parts@[0]@);
            }
            s.append(&parts[0]);
            Some(s)
        },
        None => None,
    }
}

/// The host of an origin, without its port.
pub open spec fn host_of(origin: Text) -> Text {
    let host = match text::cut_at(origin, "://"@) {
        Some((_, h)) => h,
        None => origin,
    };
    text::pieces(host, ":"@)[0]
}

/// An origin matches a pattern: with a scheme, the pattern is the origin; without one, it is the
/// host or a domain above it.
pub open spec fn matches_origin(origin: Text, pattern: Text) -> bool {
    let p = text::trimmed_end_of(pattern, '/');
    if text::text_has(p, "://"@) {
        origin == p
    } else {
        host_of(origin) == p || text::text_ends(host_of(origin), "."@ + p)
    }
}

pub fn origin_matches(origin: &str, pattern: &str) -> (r: bool)
    ensures
        r == matches_origin(origin@, pattern@),
{
    let p = text::trim_end_of(pattern, '/');
    if text::contains(&p, "://") {
        return text::same(origin, &p);
    }
    let host = match text::split_once(origin, "://") {
        Some((_, h)) => h,
        None => origin.to_string(),
    };
    let parts = text::split_on(&host, ":");
    proof {
        assert(text::views(parts@)[0] == parts@[0]@);
    }
    text::same(&parts[0], &p) || text::ends_with(&parts[0], &text::concat(".", &p))
}

/// Some pattern of the list matches.
pub open spec fn matches_any(origin: Text, patterns: Seq<Text>) -> bool {
    exists|i: int| 0 <= i < patterns.len() && matches_origin(origin, #[trigger] patterns[i])
}

fn any_matches(origin: &str, patterns: &Vec<String>) -> (r: bool)
    ensures
        r == matches_any(origin@, text::views(patterns@)),
{
    let ghost all = text::views(patterns@);
    let mut i: usize = 0;
    while i < patterns.len()
        invariant
            i <= patterns@.len(),
            all == text::views(patterns@),
            forall|k: int| 0 <= k < i ==> !matches_origin(origin@, #[trigger] all[k]),
        decreases patterns@.len() - i,
    {
        proof {
            assert(all[i as int] == patterns@[i as int]@);
        }
        if origin_matches(origin, &patterns[i]) {
            return true;
        }
        i = i + 1;
    }
    false
}

/// Why the settings do not let an address through, if they do not. They speak of `http` and
/// `https` only; a blocked origin stays blocked though it is allowed too.
pub open spec fn block_reason(url: Text, cfg: ConfigV) -> Option<Text> {
    match url_origin(url) {
        None => None,
        Some(o) => if !text::text_starts(o, "http"@) {
            None
        } else if matches_any(o, cfg.blocked_origins) {
            Some("access to "@ + o + " is blocked by --blocked-origins"@)
        } else if cfg.allowed_origins.len() > 0 && !matches_any(o, cfg.allowed_origins) {
            Some("access to "@ + o + " is not in --allowed-origins"@)
        } else {
            None
        },
    }
}

pub fn origin_blocked(url: &str, cfg: &Config) -> (r: Option<String>)
    ensures
        text::opt_text(r) == block_reason(url@, cfg@),
{
    match origin_of(url) {
        None => None,
        Some(origin) => {
            if !text::starts_with(&origin, "http") {
                return None;
            }
            if any_matches(&origin, &cfg.blocked_origins) {
                let mut s = "access to ".to_string();
                s.append(&origin);
                s.append(" is blocked by --blocked-origins");
                return Some(s);
            }
            if cfg.allowed_origins.len() > 0 && !any_matches(&origin, &cfg.allowed_origins) {
                let mut s = "access to ".to_string();
                s.append(&origin);
                s.append(" is not in --allowed-origins");
                return Some(s);
            }
            None
        },
    }
}

/// Whatever else is allowed, an origin that matches a blocked pattern is not let through.
pub proof fn law_blocked_beats_allowed(url: Text, cfg: ConfigV, allowed: Seq<Text>)
    requires
        url_origin(url) is Some,
        text::text_starts(url_origin(url)->0, "http"@),
        matches_any(url_origin(url)->0, cfg.blocked_origins),
    ensures
        block_reason(url, ConfigV { allowed_origins: allowed, ..cfg }) is Some,
{
}

/// Without lists of origins every address is let through.
pub proof fn law_no_lists_no_blocks(url: Text, cfg: ConfigV)
    requires
        cfg.blocked_origins.len() == 0,
        cfg.allowed_origins.len() == 0,
    ensures
        block_reason(url, cfg) is None,
{
}

/// A complete address stays as it is: completing twice is completing once.
pub proof fn law_complete_once(url: Text)
    ensures
        full_url(full_url(url)) == full_url(url),
{
    let u = text::trimmed(url);
    let f = full_url(url);
    reveal_strlit("http://");
    reveal_strlit("https://");
    reveal_strlit("://");
    text::lemma_trimmed_twice(url);
    if !has_scheme(u) {
        let head = if is_local(u) {
            "http://"@
        } else {
            "https://"@
        };
        text::lemma_trimmed_ends(url);
        assert(!text::is_space(head[0]));
        assert(!text::is_space(head.last()));
        text::lemma_trimmed_prefixed(head, u);
        let k = head.len() - 3;
        assert(f.subrange(k, k + 3) =~= "://"@);
        assert(text::occurs_at(f, "://"@, k));
    }
}

/// An address names its scheme where `://` stands in it, or where it begins with one of the schemes that do
/// without.
pub proof fn law_schemes(u: Text)
    ensures
        has_scheme(u) <==> text::text_has(u, "://"@) || text::text_starts(u, "about:"@) || text::text_starts(u, "data:"@)
            || text::text_starts(u, "javascript:"@) || text::text_starts(u, "file:"@) || text::text_starts(u, "chrome:"@)
            || text::text_starts(u, "blob:"@),
        is_local(u) <==> text::text_starts(u, "localhost"@) || text::text_starts(u, "127.0.0.1"@) || text::text_starts(
            u,
            "[::1]"@,
        ),
{
}

/// An address without a scheme is one of `http` on this machine and of `https` elsewhere; blanks around an
/// address do not count.
pub proof fn law_addresses_are_completed(url: Text)
    ensures
        ({
            let u = text::trimmed(url);
            &&& has_scheme(u) ==> full_url(url) == u
            &&& !has_scheme(u) && is_local(u) ==> full_url(url) == "http://"@ + u
            &&& !has_scheme(u) && !is_local(u) ==> full_url(url) == "https://"@ + u
        }),
{
}

/// The origin of an address is its scheme and its host with the port, up to the path, the query or the
/// fragment; an address without `://` has none.
pub proof fn law_origins_of_addresses(scheme: Text, host: Text, rest: Text, c: char, other: Text)
    requires
        !scheme.contains(':'),
        forall|k: int| 0 <= k < host.len() ==> #[trigger] host[k] != '/' && host[k] != '?' && host[k] != '#',
        c == '/' || c == '?' || c == '#',
    ensures
        url_origin(scheme + "://"@ + host) == Some(scheme + "://"@ + host),
        url_origin(scheme + "://"@ + (host.push(c) + rest)) == Some(scheme + "://"@ + host),
        !text::text_has(other, "://"@) ==> url_origin(other) is None,
{
    reveal_strlit("://");
    reveal_strlit("/?#");
    let seps = "/?#"@;
    assert("://"@.len() == 3 && "://"@[0] == ':');
    assert(seps.len() == 3 && seps[0] == '/' && seps[1] == '?' && seps[2] == '#');
    text::law_cut_where_it_stands(scheme, "://"@, host);
    text::law_cut_where_it_stands(scheme, "://"@, host.push(c) + rest);
    text::law_cut_at_the_first(other, "://"@);
    assert forall|k: int| 0 <= k < host.len() implies !seps.contains(#[trigger] host[k]) by {
        assert(host[k] != '/');
    }
    text::law_pieces_end_at_separators(host, c, rest, seps);
    assert((seq![host] + text::pieces(rest, seps))[0] == host);
    if text::cut_at(other, "://"@) is Some {
        let (a, b) = text::cut_at(other, "://"@)->0;
        text::law_texts_in_texts(a, "://"@, b);
    }
}

/// The host of an origin is what stands behind its scheme and before its port.
pub proof fn law_hosts_of_origins(scheme: Text, host: Text, port: Text)
    requires
        !scheme.contains(':'),
        !host.contains(':'),
    ensures
        host_of(scheme + "://"@ + host) == host,
        host_of(scheme + "://"@ + (host.push(':') + port)) == host,
{
    reveal_strlit("://");
    reveal_strlit(":");
    let seps = ":"@;
    assert("://"@.len() == 3 && "://"@[0] == ':');
    assert(seps.len() == 1 && seps[0] == ':');
    text::law_cut_where_it_stands(scheme, "://"@, host);
    text::law_cut_where_it_stands(scheme, "://"@, host.push(':') + port);
    assert forall|k: int| 0 <= k < host.len() implies !seps.contains(#[trigger] host[k]) by {
        assert(host.contains(host[k]));
    }
    text::law_pieces_end_at_separators(host, ':', port, seps);
    assert((seq![host] + text::pieces(port, seps))[0] == host);
}

/// Slashes at the end of a pattern do not count.
pub proof fn law_slashes_behind_patterns(origin: Text, pattern: Text)
    ensures
        matches_origin(origin, pattern.push('/')) == matches_origin(origin, pattern),
{
    text::law_ends_come_off(pattern, '/');
}

/// A pattern with a scheme is for its origin alone. One without is for its host, on any scheme and port, and
/// for every host below it, and for no other.
pub proof fn law_patterns_of_origins(origin: Text, pattern: Text)
    requires
        pattern.len() > 0 && pattern.last() != '/',
    ensures
        text::text_has(pattern, "://"@) ==> (matches_origin(origin, pattern) <==> origin == pattern),
        !text::text_has(pattern, "://"@) ==> (matches_origin(origin, pattern) <==> host_of(origin) == pattern
            || text::text_ends(host_of(origin), "."@ + pattern)),
{
    text::law_ends_come_off(pattern, '/');
}

/// A host below the host of a pattern is matched by it.
pub proof fn law_hosts_below_a_pattern(origin: Text, pattern: Text, sub: Text)
    requires
        pattern.len() > 0 && pattern.last() != '/',
        !text::text_has(pattern, "://"@),
        host_of(origin) == sub + ("."@ + pattern),
    ensures
        matches_origin(origin, pattern),
{
    text::law_ends_come_off(pattern, '/');
    text::law_texts_in_texts(sub, "."@ + pattern, Seq::empty());
}

/// An address is let through unless its origin, one of `http` or `https`, matches a blocked pattern, or
/// there are allowed patterns and it matches none of them.
pub proof fn law_origins_let_through(url: Text, cfg: ConfigV)
    ensures
        ({
            let o = url_origin(url);
            let web = o is Some && text::text_starts(o->0, "http"@);
            let blocked = exists|i: int|
                0 <= i < cfg.blocked_origins.len() && matches_origin(o->0, #[trigger] cfg.blocked_origins[i]);
            let allowed = cfg.allowed_origins.len() == 0 || exists|i: int|
                0 <= i < cfg.allowed_origins.len() && matches_origin(o->0, #[trigger] cfg.allowed_origins[i]);
            &&& !web ==> block_reason(url, cfg) is None
            &&& web && blocked ==> block_reason(url, cfg) == Some(
                "access to "@ + o->0 + " is blocked by --blocked-origins"@,
            )
            &&& web && !blocked && !allowed ==> block_reason(url, cfg) == Some(
                "access to "@ + o->0 + " is not in --allowed-origins"@,
            )
            &&& web && !blocked && allowed ==> block_reason(url, cfg) is None
        }),
{
}

} // verus!
