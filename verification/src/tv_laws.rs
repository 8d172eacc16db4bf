//! What holds of every relayed body.

use crate::http::RawHeader;
use crate::rewrite::{
    apply_rules, clear_of, replace_leaves_none, replace_without_match, rules_keep_other_text,
    rules_leave_none, rules_run_in_order, runs_into, settles, single_rule_replaces,
    wider_pattern_absent, RuleText,
};
use crate::script::{script_colons, sync_script, SYNC_SCRIPT_HEAD, SYNC_SCRIPT_TAIL};
use crate::text::{
    first_at, includes, occurs_at, part_is_included, replace_all, replace_goes_on, replace_puts_in,
    trim_end,
};
use crate::tv_proxy::{
    content_type_of, has_suffix, is_html, is_text, process_tv_response, relayed_body, tv_rules,
    with_script, TvResponse,
};
use vstd::prelude::*;

verus! {

/// A body that is not text passes as it is, and so does a text that is no page and holds none of
/// the widget's addresses.
pub proof fn other_bodies_pass(
    body: Seq<char>,
    content_type: Seq<char>,
    path: Seq<char>,
    backend: Seq<char>,
)
    requires
        !is_text(content_type, path) || (!is_html(content_type, path) && forall|j: int|
            0 <= j < tv_rules(backend).len() ==> !includes(
                body,
                (#[trigger] tv_rules(backend)[j]).from,
            )),
    ensures
        relayed_body(body, content_type, path, backend) == body,
{
    if is_text(content_type, path) && body.len() > 0 {
        rules_keep_other_text(body, tv_rules(backend));
    }
}

/// A page that is not empty carries the script for the backend.
pub proof fn pages_carry_the_script(
    body: Seq<char>,
    content_type: Seq<char>,
    path: Seq<char>,
    backend: Seq<char>,
)
    requires
        is_text(content_type, path),
        is_html(content_type, path),
        body.len() > 0,
    ensures
        includes(relayed_body(body, content_type, path, backend), sync_script(backend)),
{
    let page = apply_rules(body, tv_rules(backend));
    let script = sync_script(backend);
    reveal_strlit("</body>");
    reveal_strlit("</head>");
    if includes(page, "</body>"@) {
        replace_puts_in(page, "</body>"@, script + " </body>"@);
        front_is_included(with_script(page, script), script, " </body>"@);
    } else if includes(page, "</head>"@) {
        replace_puts_in(page, "</head>"@, script + " </head>"@);
        front_is_included(with_script(page, script), script, " </head>"@);
    } else {
        let n = page.len() as int;
        assert((page + script).subrange(n, n + script.len()) =~= script);
        assert(occurs_at(page + script, script, n));
    }
}

proof fn front_is_included(s: Seq<char>, a: Seq<char>, b: Seq<char>)
    requires
        includes(s, a + b),
    ensures
        includes(s, a),
{
    let i = choose|i: int| occurs_at(s, a + b, i);
    assert(s.subrange(i, i + a.len()) =~= s.subrange(i, i + (a + b).len()).take(a.len() as int));
    assert((a + b).take(a.len() as int) =~= a);
    assert(occurs_at(s, a, i));
}

/// A pattern that holds `mark` from position `t` on cannot touch `to`, where `to` does not hold
/// `mark`, has in it a character foreign to the pattern with nothing behind it that starts the
/// pattern, and does not start like what follows `t` in the pattern.
proof fn clear_by_mark(to: Seq<char>, q: Seq<char>, mark: Seq<char>, t: int, p: int)
    requires
        occurs_at(q, mark, t),
        mark.len() > 0,
        !includes(to, mark),
        0 <= p < to.len(),
        !q.contains(to[p]),
        forall|i: int| p < i < to.len() ==> #[trigger] to[i] != q[0],
        to.len() >= 2,
        forall|k: int|
            t < k < q.len() ==> (#[trigger] q[k] != to[0] || (k + 1 < q.len() && q[k + 1]
                != to[1])),
    ensures
        clear_of(to, q),
{
    assert(includes(q, mark));
    assert(!includes(to, q)) by {
        wider_pattern_absent(to, q, mark);
    }
    assert forall|i: int| 0 <= i < to.len() && to.len() - i < q.len() implies #[trigger] to.skip(i)
        != q.take(to.len() - i) by {
        let w = to.skip(i);
        if w == q.take(to.len() - i) {
            if i <= p {
                assert(w[p - i] == to[p]);
                assert(q[p - i] == to[p]);
                assert(q.contains(to[p]));
            } else {
                assert(w[0] == to[i]);
                assert(q[0] == to[i]);
            }
        }
    }
    assert forall|k: int| 0 < k < q.len() implies !runs_into(#[trigger] q.skip(k), to) by {
        let w = q.skip(k);
        if runs_into(w, to) {
            if w.len() <= to.len() {
                assert(w.take(w.len() as int) =~= w);
                assert(to.take(w.len() as int) == w);
                if k <= t {
                    assert(to.subrange(t - k, t - k + mark.len()) =~= w.subrange(
                        t - k,
                        t - k + mark.len(),
                    ));
                    assert(w.subrange(t - k, t - k + mark.len()) =~= q.subrange(
                        t,
                        t + mark.len(),
                    ));
                    assert(occurs_at(to, mark, t - k));
                } else {
                    assert(q[k] == w[0] && w[0] == to[0]);
                    if k + 1 < q.len() {
                        assert(q[k + 1] == w[1] && w[1] == to[1]);
                    }
                }
            } else {
                assert(to.take(to.len() as int) =~= to);
                assert(w.take(to.len() as int)[p] == to[p]);
                assert(q[k + p] == to[p]);
                assert(q.contains(to[p]));
            }
        }
    }
}

/// A pattern that is not in `to` cannot touch it where `to` starts with a character foreign to the
/// pattern, and has in it another one with nothing behind it that starts the pattern.
proof fn clear_by_ends(to: Seq<char>, q: Seq<char>, p: int)
    requires
        q.len() > 0,
        !includes(to, q),
        0 <= p < to.len(),
        !q.contains(to[0]),
        !q.contains(to[p]),
        forall|i: int| p < i < to.len() ==> #[trigger] to[i] != q[0],
    ensures
        clear_of(to, q),
{
    assert forall|i: int| 0 <= i < to.len() && to.len() - i < q.len() implies #[trigger] to.skip(i)
        != q.take(to.len() - i) by {
        let w = to.skip(i);
        if w == q.take(to.len() - i) {
            if i <= p {
                assert(w[p - i] == to[p]);
                assert(q[p - i] == to[p]);
                assert(q.contains(to[p]));
            } else {
                assert(w[0] == to[i]);
                assert(q[0] == to[i]);
            }
        }
    }
    assert forall|k: int| 0 < k < q.len() implies !runs_into(#[trigger] q.skip(k), to) by {
        let w = q.skip(k);
        if runs_into(w, to) {
            let n = if w.len() <= to.len() {
                w.len() as int
            } else {
                to.len() as int
            };
            assert(w.take(n)[0] == to.take(n)[0]);
            assert(q[k] == to[0]);
            assert(q.contains(to[0]));
        }
    }
}

/// A text of which no character is in a pattern cannot be touched by it.
proof fn clear_if_foreign(to: Seq<char>, q: Seq<char>)
    requires
        to.len() > 0,
        q.len() > 0,
        forall|i: int| 0 <= i < to.len() ==> !q.contains(#[trigger] to[i]),
    ensures
        clear_of(to, q),
{
    assert forall|i: int| !occurs_at(to, q, i) by {
        if occurs_at(to, q, i) {
            assert(to.subrange(i, i + q.len())[0] == q[0]);
            assert(q.contains(to[i]));
        }
    }
    clear_by_ends(to, q, to.len() - 1);
}

/// A pattern is in neither part of a text nor across their border where the second part starts
/// with a character foreign to it.
proof fn absent_in_joined(a: Seq<char>, b: Seq<char>, q: Seq<char>)
    requires
        q.len() > 0,
        !includes(a, q),
        !includes(b, q),
        b.len() > 0 ==> !q.contains(b[0]),
    ensures
        !includes(a + b, q),
{
    assert forall|i: int| !occurs_at(a + b, q, i) by {
        if occurs_at(a + b, q, i) {
            let w = (a + b).subrange(i, i + q.len());
            if i >= a.len() {
                assert(b.subrange(i - a.len(), i - a.len() + q.len()) =~= w);
                assert(occurs_at(b, q, i - a.len()));
            } else if i + q.len() <= a.len() {
                assert(a.subrange(i, i + q.len()) =~= w);
                assert(occurs_at(a, q, i));
            } else {
                assert(w[a.len() - i] == b[0]);
                assert(q[a.len() - i] == b[0]);
                assert(q.contains(b[0]));
            }
        }
    }
}

/// A pattern is not in a text behind a part that does not hold the pattern's first character.
proof fn absent_behind(a: Seq<char>, b: Seq<char>, q: Seq<char>)
    requires
        q.len() > 0,
        !a.contains(q[0]),
        !includes(b, q),
    ensures
        !includes(a + b, q),
{
    assert forall|i: int| !occurs_at(a + b, q, i) by {
        if occurs_at(a + b, q, i) {
            let w = (a + b).subrange(i, i + q.len());
            if i >= a.len() {
                assert(b.subrange(i - a.len(), i - a.len() + q.len()) =~= w);
                assert(occurs_at(b, q, i - a.len()));
            } else {
                assert(w[0] == a[i]);
                assert(a.contains(q[0]));
            }
        }
    }
}

/// Replacing a single character works part by part.
proof fn replace_char_joined(a: Seq<char>, b: Seq<char>, c: char, to: Seq<char>)
    ensures
        replace_all(a + b, seq![c], to) == replace_all(a, seq![c], to) + replace_all(
            b,
            seq![c],
            to,
        ),
    decreases a.len(),
{
    let from = seq![c];
    if a.len() == 0 {
        assert(a + b =~= b);
        assert(replace_all(a, from, to) =~= Seq::<char>::empty());
    } else {
        let s = a + b;
        assert(s.skip(1) =~= a.skip(1) + b);
        replace_char_joined(a.skip(1), b, c, to);
        assert(s.take(1) =~= seq![a[0]]);
        assert(a.take(1) =~= seq![a[0]]);
        assert((s.take(1) == from) == (a[0] == c)) by {
            if a[0] == c {
                assert(s.take(1) =~= from);
            } else {
                assert(s.take(1)[0] != from[0]);
            }
        }
        assert(replace_all(s, from, to) =~= replace_all(a, from, to) + replace_all(b, from, to));
    }
}

/// A pattern is in neither part of a text nor across their border where the first part ends with
/// a character foreign to it.
proof fn absent_across(a: Seq<char>, b: Seq<char>, q: Seq<char>)
    requires
        a.len() > 0,
        !includes(a, q),
        !includes(b, q),
        !q.contains(a.last()),
    ensures
        !includes(a + b, q),
{
    assert forall|i: int| !occurs_at(a + b, q, i) by {
        if occurs_at(a + b, q, i) {
            let w = (a + b).subrange(i, i + q.len());
            if i >= a.len() {
                assert(b.subrange(i - a.len(), i - a.len() + q.len()) =~= w);
                assert(occurs_at(b, q, i - a.len()));
            } else if i + q.len() <= a.len() {
                assert(a.subrange(i, i + q.len()) =~= w);
                assert(occurs_at(a, q, i));
            } else {
                assert(w[a.len() - 1 - i] == a.last());
                assert(q.contains(a.last()));
            }
        }
    }
}

/// `backend` is one of the two web protocols and behind it `rest`, without a further one.
pub open spec fn is_web_address(backend: Seq<char>, rest: Seq<char>) -> bool {
    &&& backend == "http://"@ + rest || backend == "https://"@ + rest
    &&& !includes(rest, "http://"@)
    &&& !includes(rest, "https://"@)
}

/// The widget's own hosts.
pub open spec fn widget_hosts() -> Seq<Seq<char>> {
    seq![
        "prodata.tradingview.com"@,
        "data.tradingview.com"@,
        "pushstream.tradingview.com"@,
        "widgetdata.tradingview.com"@,
        "widgetdata-backup.tradingview.com"@,
        "www.tradingview-widget.com"@,
        "s3.tradingview.com"@,
        "s.tradingview.com"@,
    ]
}

/// The web address of a backend that names none of the widget's own hosts.
pub open spec fn is_plain_backend(backend: Seq<char>) -> bool {
    &&& forall|i: int|
        0 <= i < widget_hosts().len() ==> !includes(backend, #[trigger] widget_hosts()[i])
    &&& exists|rest: Seq<char>| is_web_address(backend, rest)
}

/// The shape of a host: longer than what the rules put behind a backend, and without slashes.
spec fn is_host(host: Seq<char>) -> bool {
    host.len() >= 17 && !host.contains('/') && !host.contains('\\')
}

proof fn widget_hosts_are_hosts(i: int)
    requires
        0 <= i < widget_hosts().len(),
    ensures
        is_host(widget_hosts()[i]),
{
    reveal_strlit("prodata.tradingview.com");
    reveal_strlit("data.tradingview.com");
    reveal_strlit("pushstream.tradingview.com");
    reveal_strlit("widgetdata.tradingview.com");
    reveal_strlit("widgetdata-backup.tradingview.com");
    reveal_strlit("www.tradingview-widget.com");
    reveal_strlit("s3.tradingview.com");
    reveal_strlit("s.tradingview.com");
}

/// A replacement that no address of a host can touch.
spec fn is_harmless(to: Seq<char>, host: Seq<char>) -> bool {
    &&& !includes(to, host)
    &&& to.len() >= 2
    &&& (to[0] == 'h' && to[1] == 't') || (to[0] == 'w' && to[1] == 's') || (to[0] == '/' && to[1]
        == '/')
    &&& exists|p: int|
        0 <= p < to.len() && #[trigger] to[p] == 'y' && forall|i: int|
            p < i < to.len() ==> (#[trigger] to[i] == '/' || to[i] == '\\')
}

/// An address of a host: a protocol, two slashes, plain or escaped, and the host from position
/// `t` on.
spec fn is_address(q: Seq<char>, host: Seq<char>, t: int) -> bool {
    &&& occurs_at(q, host, t)
    &&& host.len() > 0
    &&& t + host.len() == q.len()
    &&& !q.contains('y')
    &&& q[0] == 'w' || q[0] == 'h'
    &&& 0 < t && q[t] != '/'
    &&& forall|k: int|
        t < k < q.len() ==> {
            &&& #[trigger] q[k] != '/'
            &&& q[k] == 'h' ==> k + 1 < q.len() && q[k + 1] != 't'
            &&& q[k] == 'w' ==> k + 1 < q.len() && q[k + 1] != 's'
        }
}

proof fn harmless_is_clear(to: Seq<char>, q: Seq<char>, host: Seq<char>, t: int)
    requires
        is_harmless(to, host),
        is_address(q, host, t),
    ensures
        clear_of(to, q),
{
    let p = choose|p: int|
        0 <= p < to.len() && #[trigger] to[p] == 'y' && forall|i: int|
            p < i < to.len() ==> (#[trigger] to[i] == '/' || to[i] == '\\');
    assert(to[p] == 'y');
    clear_by_mark(to, q, host, t, p);
}

proof fn absent_in_rest(a: Seq<char>, b: Seq<char>, q: Seq<char>)
    requires
        !includes(a + b, q),
    ensures
        !includes(b, q),
{
    assert forall|i: int| !occurs_at(b, q, i) by {
        if occurs_at(b, q, i) {
            let j = i + a.len();
            assert((a + b).subrange(j, j + q.len()) =~= b.subrange(i, i + q.len()));
            assert(occurs_at(a + b, q, j));
        }
    }
}

proof fn shorter_is_absent(s: Seq<char>, q: Seq<char>)
    requires
        s.len() < q.len(),
    ensures
        !includes(s, q),
{
    assert forall|i: int| !occurs_at(s, q, i) by {}
}

/// How a backend's address is taken apart: its WebSocket form and its host.
proof fn backend_forms(backend: Seq<char>, rest: Seq<char>)
    requires
        is_web_address(backend, rest),
    ensures
        ({
            let ws = replace_all(
                replace_all(backend, "http://"@, "ws://"@),
                "https://"@,
                "wss://"@,
            );
            &&& backend == "http://"@ + rest ==> ws == "ws://"@ + rest
            &&& backend == "https://"@ + rest ==> ws == "wss://"@ + rest
        }),
        replace_all(replace_all(backend, "http://"@, ""@), "https://"@, ""@) == rest,
{
    let h = "http://"@;
    let hs = "https://"@;
    reveal_strlit("http://");
    reveal_strlit("https://");
    reveal_strlit("ws://");
    reveal_strlit("wss://");
    reveal_strlit("");
    assert((h + rest).len() != (hs + rest).len());
    if backend == h + rest {
        assert(backend.take(7) =~= h);
        assert(backend.skip(7) =~= rest);
        replace_without_match(rest, h, "ws://"@);
        replace_without_match(rest, h, ""@);
        assert(replace_all(backend, h, "ws://"@) == "ws://"@ + rest);
        assert(replace_all(backend, h, ""@) =~= rest);
        assert(!"ws://"@.contains(hs[0]));
        absent_behind("ws://"@, rest, hs);
        replace_without_match("ws://"@ + rest, hs, "wss://"@);
        replace_without_match(rest, hs, ""@);
    } else {
        assert forall|i: int| !occurs_at(backend, h, i) by {
            if occurs_at(backend, h, i) {
                let w = backend.subrange(i, i + 7);
                assert(w[0] == 'h' && w[4] == ':');
                assert(backend[i] == 'h' && backend[i + 4] == ':');
                if i >= 8 {
                    assert(rest.subrange(i - 8, i - 8 + 7) =~= w);
                    assert(occurs_at(rest, h, i - 8));
                }
            }
        }
        replace_without_match(backend, h, "ws://"@);
        replace_without_match(backend, h, ""@);
        assert(backend.take(8) =~= hs);
        assert(backend.skip(8) =~= rest);
        replace_without_match(rest, hs, "wss://"@);
        replace_without_match(rest, hs, ""@);
        assert(replace_all(backend, hs, ""@) =~= rest);
    }
}

proof fn ws_is_harmless(ws: Seq<char>, rest: Seq<char>, host: Seq<char>)
    requires
        ws == "ws://"@ + rest || ws == "wss://"@ + rest,
        is_host(host),
        !includes(rest, host),
    ensures
        is_harmless(ws + "/api/ws/tv-proxy"@, host),
{
    let tail = "/api/ws/tv-proxy"@;
    reveal_strlit("ws://");
    reveal_strlit("wss://");
    reveal_strlit("/api/ws/tv-proxy");
    shorter_is_absent("ws://"@, host);
    shorter_is_absent("wss://"@, host);
    shorter_is_absent(tail, host);
    if ws == "ws://"@ + rest {
        absent_across("ws://"@, rest, host);
    } else {
        absent_across("wss://"@, rest, host);
    }
    absent_in_joined(ws, tail, host);
    let to = ws + tail;
    assert(to[to.len() - 1] == 'y');
}

proof fn prefixes_are_harmless(backend: Seq<char>, host: Seq<char>)
    requires
        backend.len() >= 2,
        backend[0] == 'h' && backend[1] == 't',
        is_host(host),
        !includes(backend, host),
    ensures
        is_harmless(backend + "/tv-proxy"@, host),
        is_harmless(backend + "/tv-proxy/"@, host),
{
    reveal_strlit("/tv-proxy");
    reveal_strlit("/tv-proxy/");
    shorter_is_absent("/tv-proxy"@, host);
    shorter_is_absent("/tv-proxy/"@, host);
    absent_in_joined(backend, "/tv-proxy"@, host);
    absent_in_joined(backend, "/tv-proxy/"@, host);
    let a = backend + "/tv-proxy"@;
    let b = backend + "/tv-proxy/"@;
    assert(a[a.len() - 1] == 'y');
    assert(b[b.len() - 2] == 'y');
}

proof fn host_prefix_is_harmless(rest: Seq<char>, host: Seq<char>)
    requires
        is_host(host),
        !includes(rest, host),
    ensures
        is_harmless("//"@ + rest + "/tv-proxy/"@, host),
{
    reveal_strlit("//");
    reveal_strlit("/tv-proxy/");
    shorter_is_absent("//"@, host);
    shorter_is_absent("/tv-proxy/"@, host);
    absent_across("//"@, rest, host);
    absent_in_joined("//"@ + rest, "/tv-proxy/"@, host);
    let to = "//"@ + rest + "/tv-proxy/"@;
    assert(to[to.len() - 2] == 'y');
}

proof fn escaped_prefixes_are_harmless(backend: Seq<char>, host: Seq<char>)
    requires
        backend.len() >= 2,
        backend[0] == 'h' && backend[1] == 't',
        is_host(host),
        !includes(backend, host),
    ensures
        is_harmless(replace_all(backend + "/tv-proxy"@, "/"@, "\\/"@), host),
        is_harmless(replace_all(backend + "/tv-proxy/"@, "/"@, "\\/"@), host),
        replace_all(backend + "/tv-proxy"@, "/"@, "\\/"@).last() == 'y',
{
    let from = "/"@;
    let to = "\\/"@;
    reveal_strlit("/tv-proxy");
    reveal_strlit("/tv-proxy/");
    reveal_strlit("/");
    reveal_strlit("\\/");
    reveal_strlit("tv-proxy");
    assert(from =~= seq!['/']);
    prefixes_are_harmless(backend, host);
    assert forall|i: int| 0 <= i < to.len() implies !host.contains(#[trigger] to[i]) by {}
    clear_if_foreign(to, host);
    replace_leaves_none(backend + "/tv-proxy"@, from, to, host);
    replace_leaves_none(backend + "/tv-proxy/"@, from, to, host);
    let front = seq!['h', 't'];
    let back = backend.skip(2);
    assert(backend =~= front + back);
    let e = replace_all(backend, from, to);
    replace_char_joined(front, back, '/', to);
    assert forall|i: int| !occurs_at(front, from, i) by {
        if occurs_at(front, from, i) {
            assert(front.subrange(i, i + 1)[0] == '/');
        }
    }
    replace_without_match(front, from, to);
    assert(e.len() >= 2 && e[0] == 'h' && e[1] == 't');
    let name = "tv-proxy"@;
    assert forall|i: int| !occurs_at(name, from, i) by {
        if occurs_at(name, from, i) {
            assert(name.subrange(i, i + 1)[0] == '/');
        }
    }
    replace_without_match(name, from, to);
    assert(from.take(1) =~= from);
    assert(from.skip(1) =~= Seq::empty());
    assert(replace_all(from.skip(1), from, to) =~= Seq::<char>::empty());
    assert(replace_all(from, from, to) =~= to);
    assert("/tv-proxy"@ =~= from + name);
    assert("/tv-proxy/"@ =~= "/tv-proxy"@ + from);
    replace_char_joined(from, name, '/', to);
    replace_char_joined("/tv-proxy"@, from, '/', to);
    replace_char_joined(backend, "/tv-proxy"@, '/', to);
    replace_char_joined(backend, "/tv-proxy/"@, '/', to);
    let a = replace_all(backend + "/tv-proxy"@, from, to);
    let b = replace_all(backend + "/tv-proxy/"@, from, to);
    assert(a =~= e + (to + name));
    assert(b =~= e + (to + name + to));
    assert(a[a.len() - 1] == 'y');
    assert(b[b.len() - 3] == 'y');
    assert(a[0] == e[0] && a[1] == e[1]);
    assert(b[0] == e[0] && b[1] == e[1]);
}

proof fn replacements_are_harmless(backend: Seq<char>, host: Seq<char>)
    requires
        is_plain_backend(backend),
        is_host(host),
        !includes(backend, host),
    ensures
        forall|j: int|
            0 <= j < tv_rules(backend).len() ==> is_harmless(
                (#[trigger] tv_rules(backend)[j]).to,
                host,
            ),
{
    let rest = choose|rest: Seq<char>| is_web_address(backend, rest);
    reveal_strlit("http://");
    reveal_strlit("https://");
    if backend == "http://"@ + rest {
        absent_in_rest("http://"@, rest, host);
    } else {
        absent_in_rest("https://"@, rest, host);
    }
    backend_forms(backend, rest);
    let ws = replace_all(replace_all(backend, "http://"@, "ws://"@), "https://"@, "wss://"@);
    ws_is_harmless(ws, rest, host);
    prefixes_are_harmless(backend, host);
    escaped_prefixes_are_harmless(backend, host);
    host_prefix_is_harmless(rest, host);
}

/// The widget's own addresses: its sockets, and its files with plain and with escaped slashes.
pub open spec fn widget_addresses() -> Seq<Seq<char>> {
    seq![
        "wss://prodata.tradingview.com"@,
        "wss://data.tradingview.com"@,
        "wss://pushstream.tradingview.com"@,
        "wss://widgetdata.tradingview.com"@,
        "wss://widgetdata-backup.tradingview.com"@,
        "https://www.tradingview-widget.com"@,
        "https://s3.tradingview.com"@,
        "https://s.tradingview.com"@,
        "https:\\/\\/www.tradingview-widget.com"@,
        "https:\\/\\/s3.tradingview.com"@,
        "https:\\/\\/s.tradingview.com"@,
    ]
}

/// Which host an address is of.
spec fn host_of(i: int) -> int {
    if i < 8 {
        i
    } else {
        i - 3
    }
}

/// Which rule looks for an address.
spec fn rule_of(i: int) -> int {
    if i < 8 {
        i + 5
    } else {
        i + 8
    }
}

/// Where the host of an address starts.
spec fn host_start(i: int) -> int {
    if i < 5 {
        6
    } else if i < 8 {
        8
    } else {
        10
    }
}

proof fn widget_addresses_are_addresses(i: int)
    requires
        0 <= i < widget_addresses().len(),
    ensures
        is_address(widget_addresses()[i], widget_hosts()[host_of(i)], host_start(i)),
{
    let q = widget_addresses()[i];
    let host = widget_hosts()[host_of(i)];
    let t = host_start(i);
    if i == 0 {
        reveal_strlit("wss://prodata.tradingview.com");
        reveal_strlit("prodata.tradingview.com");
        assert(q.subrange(t, q.len() as int) =~= host);
    } else if i == 1 {
        reveal_strlit("wss://data.tradingview.com");
        reveal_strlit("data.tradingview.com");
        assert(q.subrange(t, q.len() as int) =~= host);
    } else if i == 2 {
        reveal_strlit("wss://pushstream.tradingview.com");
        reveal_strlit("pushstream.tradingview.com");
        assert(q.subrange(t, q.len() as int) =~= host);
    } else if i == 3 {
        reveal_strlit("wss://widgetdata.tradingview.com");
        reveal_strlit("widgetdata.tradingview.com");
        assert(q.subrange(t, q.len() as int) =~= host);
    } else if i == 4 {
        reveal_strlit("wss://widgetdata-backup.tradingview.com");
        reveal_strlit("widgetdata-backup.tradingview.com");
        assert(q.subrange(t, q.len() as int) =~= host);
    } else if i == 5 {
        reveal_strlit("https://www.tradingview-widget.com");
        reveal_strlit("www.tradingview-widget.com");
        assert(q.subrange(t, q.len() as int) =~= host);
    } else if i == 6 {
        reveal_strlit("https://s3.tradingview.com");
        reveal_strlit("s3.tradingview.com");
        assert(q.subrange(t, q.len() as int) =~= host);
    } else if i == 7 {
        reveal_strlit("https://s.tradingview.com");
        reveal_strlit("s.tradingview.com");
        assert(q.subrange(t, q.len() as int) =~= host);
    } else if i == 8 {
        reveal_strlit("https:\\/\\/www.tradingview-widget.com");
        reveal_strlit("www.tradingview-widget.com");
        assert(q.subrange(t, q.len() as int) =~= host);
    } else if i == 9 {
        reveal_strlit("https:\\/\\/s3.tradingview.com");
        reveal_strlit("s3.tradingview.com");
        assert(q.subrange(t, q.len() as int) =~= host);
    } else if i == 10 {
        reveal_strlit("https:\\/\\/s.tradingview.com");
        reveal_strlit("s.tradingview.com");
        assert(q.subrange(t, q.len() as int) =~= host);
    }
}

proof fn address_rule_settles(backend: Seq<char>, i: int)
    requires
        is_plain_backend(backend),
        0 <= i < widget_addresses().len(),
    ensures
        settles(tv_rules(backend), rule_of(i)),
        tv_rules(backend)[rule_of(i)].from == widget_addresses()[i],
{
    let rules = tv_rules(backend);
    let m = rule_of(i);
    let t = host_start(i);
    let host = widget_hosts()[host_of(i)];
    let q = widget_addresses()[i];
    widget_addresses_are_addresses(i);
    widget_hosts_are_hosts(host_of(i));
    replacements_are_harmless(backend, host);
    assert(rules[m].from == q);
    harmless_is_clear(rules[m].to, q, host, t);
    assert forall|j: int| m < j < rules.len() implies clear_of((#[trigger] rules[j]).to, q)
        || includes(rules[j].from, q) by {
        harmless_is_clear(rules[j].to, q, host, t);
    }
}

/// Whatever text comes from upstream, none of the widget's own addresses is left in it once it has
/// been rewritten for a backend that names none of the widget's hosts.
pub proof fn no_widget_address_is_left(body: Seq<char>, backend: Seq<char>, i: int)
    requires
        is_plain_backend(backend),
        0 <= i < widget_addresses().len(),
    ensures
        !includes(apply_rules(body, tv_rules(backend)), widget_addresses()[i]),
{
    address_rule_settles(backend, i);
    rules_leave_none(body, tv_rules(backend), rule_of(i));
}

/// What an address shows outside its host: a colon at position `c`, slashes from there to the
/// host at `t`, and none of the characters that surround the script in a page.
spec fn has_protocol(q: Seq<char>, c: int, t: int) -> bool {
    &&& 0 <= c
    &&& c + 1 < t < q.len()
    &&& q[c] == ':'
    &&& forall|k: int| c < k < t ==> (#[trigger] q[k] == '/' || q[k] == '\\')
    &&& q[t] != 'a'
    &&& !q.contains('\n')
    &&& !q.contains(' ')
    &&& !q.contains('>')
}

/// Where the colon of an address stands.
spec fn colon_at(i: int) -> int {
    if i < 5 {
        3
    } else {
        5
    }
}

proof fn widget_addresses_have_protocols(i: int)
    requires
        0 <= i < widget_addresses().len(),
    ensures
        has_protocol(widget_addresses()[i], colon_at(i), host_start(i)),
{
    reveal_strlit("wss://prodata.tradingview.com");
    reveal_strlit("wss://data.tradingview.com");
    reveal_strlit("wss://pushstream.tradingview.com");
    reveal_strlit("wss://widgetdata.tradingview.com");
    reveal_strlit("wss://widgetdata-backup.tradingview.com");
    reveal_strlit("https://www.tradingview-widget.com");
    reveal_strlit("https://s3.tradingview.com");
    reveal_strlit("https://s.tradingview.com");
    reveal_strlit("https:\\/\\/www.tradingview-widget.com");
    reveal_strlit("https:\\/\\/s3.tradingview.com");
    reveal_strlit("https:\\/\\/s.tradingview.com");
}

/// The script holds no address of a host that its backend does not name.
proof fn script_is_free(backend: Seq<char>, q: Seq<char>, host: Seq<char>, c: int, t: int)
    requires
        is_address(q, host, t),
        has_protocol(q, c, t),
        !includes(backend, host),
    ensures
        !includes(sync_script(backend), q),
{
    script_colons();
    let head = SYNC_SCRIPT_HEAD@;
    let tail = SYNC_SCRIPT_TAIL@;
    let s = sync_script(backend);
    let e = (head.len() + backend.len()) as int;
    assert forall|i: int| !occurs_at(s, q, i) by {
        if occurs_at(s, q, i) {
            let w = s.subrange(i, i + q.len());
            assert forall|k: int| 0 <= k < q.len() implies s[i + k] == #[trigger] q[k] by {
                assert(w[k] == q[k]);
            }
            assert(s[i + c] == q[c] && s[i + c + 1] == q[c + 1]);
            if i + c < head.len() {
                assert(head[i + c] == ':');
            } else if i + c >= e {
                assert(tail[i + c - e] == ':');
                assert(tail[i + c - e + 1] == s[i + c + 1]);
            } else if i + q.len() <= e {
                assert(backend.subrange(i + t - head.len(), i + t - head.len() + host.len())
                    =~= q.subrange(t, t + host.len()));
                assert(occurs_at(backend, host, i + t - head.len()));
            } else {
                assert(s[e] == '/');
                assert(q[e - i] == '/');
                assert(e - i < t);
                assert(s[e + 1] == 'a');
                assert(q[e - i + 1] == 'a');
            }
        }
    }
}

/// Putting the script into a page brings no address of a host into it that its backend does not
/// name.
proof fn page_stays_free(
    page: Seq<char>,
    backend: Seq<char>,
    q: Seq<char>,
    host: Seq<char>,
    c: int,
    t: int,
)
    requires
        is_address(q, host, t),
        has_protocol(q, c, t),
        host.len() >= 17,
        !includes(backend, host),
        !includes(page, q),
    ensures
        !includes(with_script(page, sync_script(backend)), q),
{
    let script = sync_script(backend);
    let at_body = script + " </body>"@;
    let at_head = script + " </head>"@;
    reveal_strlit(" </body>");
    reveal_strlit(" </head>");
    script_colons();
    script_is_free(backend, q, host, c, t);
    assert(script[0] == '\n');
    shorter_is_absent(" </body>"@, q);
    shorter_is_absent(" </head>"@, q);
    absent_in_joined(script, " </body>"@, q);
    absent_in_joined(script, " </head>"@, q);
    absent_in_joined(page, script, q);
    assert(at_body[0] == '\n' && at_body.last() == '>');
    assert(at_head[0] == '\n' && at_head.last() == '>');
    clear_by_ends(at_body, q, at_body.len() - 1);
    clear_by_ends(at_head, q, at_head.len() - 1);
    replace_leaves_none(page, "</body>"@, at_body, q);
    replace_leaves_none(page, "</head>"@, at_head, q);
}

/// A relayed text, page or not, holds none of the widget's own addresses, for a backend that names
/// none of the widget's hosts.
pub proof fn relayed_text_is_free_of_widget_addresses(
    body: Seq<char>,
    content_type: Seq<char>,
    path: Seq<char>,
    backend: Seq<char>,
    i: int,
)
    requires
        is_plain_backend(backend),
        is_text(content_type, path),
        0 <= i < widget_addresses().len(),
    ensures
        !includes(relayed_body(body, content_type, path, backend), widget_addresses()[i]),
{
    let q = widget_addresses()[i];
    let host = widget_hosts()[host_of(i)];
    widget_addresses_are_addresses(i);
    if body.len() > 0 {
        no_widget_address_is_left(body, backend, i);
        widget_addresses_have_protocols(i);
        widget_hosts_are_hosts(host_of(i));
        let page = apply_rules(body, tv_rules(backend));
        page_stays_free(page, backend, q, host, colon_at(i), host_start(i));
    } else {
        shorter_is_absent(body, q);
    }
}

/// Two slashes as they stand between a protocol and a host, plain or escaped.
spec fn slashes(escaped: bool) -> Seq<char> {
    if escaped {
        "\\/\\/"@
    } else {
        "//"@
    }
}

/// Which host a rule looks for.
spec fn rule_host(j: int) -> int {
    if j < 5 {
        j
    } else if j < 13 {
        j - 5
    } else if j < 16 {
        j - 8
    } else if j < 19 {
        j - 11
    } else if j < 22 {
        j - 14
    } else {
        j - 17
    }
}

/// Whether a rule looks for escaped slashes.
spec fn rule_escaped(j: int) -> bool {
    16 <= j < 22
}

/// Where the slashes stand in what a rule looks for.
spec fn slashes_at(j: int) -> int {
    if j < 10 {
        4
    } else if j < 22 {
        6
    } else {
        0
    }
}

/// What a rule looks for holds two slashes, its host behind them, and before them nothing or a
/// protocol.
#[verifier::rlimit(60)]
proof fn rule_shape(backend: Seq<char>, j: int)
    requires
        0 <= j < tv_rules(backend).len(),
    ensures
        ({
            let q = tv_rules(backend)[j].from;
            let mark = slashes(rule_escaped(j));
            let k = slashes_at(j);
            &&& occurs_at(q, mark, k)
            &&& occurs_at(q, widget_hosts()[rule_host(j)], k + mark.len())
            &&& k > 0 ==> q[k - 1] == ':'
        }),
{
    let q = tv_rules(backend)[j].from;
    let mark = slashes(rule_escaped(j));
    let k = slashes_at(j);
    let host = widget_hosts()[rule_host(j)];
    reveal_strlit("//");
    reveal_strlit("\\/\\/");
    if j == 0 {
        reveal_strlit("wss://prodata.tradingview.com/socket.io/websocket");
        reveal_strlit("prodata.tradingview.com");
        assert(q.subrange(k, k + mark.len()) =~= mark);
        assert(q.subrange(k + mark.len(), k + mark.len() + host.len()) =~= host);
    } else if j == 1 {
        reveal_strlit("wss://data.tradingview.com/socket.io/websocket");
        reveal_strlit("data.tradingview.com");
        assert(q.subrange(k, k + mark.len()) =~= mark);
        assert(q.subrange(k + mark.len(), k + mark.len() + host.len()) =~= host);
    } else if j == 2 {
        reveal_strlit("wss://pushstream.tradingview.com/message-pipe-ws/public");
        reveal_strlit("pushstream.tradingview.com");
        assert(q.subrange(k, k + mark.len()) =~= mark);
        assert(q.subrange(k + mark.len(), k + mark.len() + host.len()) =~= host);
    } else if j == 3 {
        reveal_strlit("wss://widgetdata.tradingview.com/socket.io/websocket");
        reveal_strlit("widgetdata.tradingview.com");
        assert(q.subrange(k, k + mark.len()) =~= mark);
        assert(q.subrange(k + mark.len(), k + mark.len() + host.len()) =~= host);
    } else if j == 4 {
        reveal_strlit("wss://widgetdata-backup.tradingview.com/socket.io/websocket");
        reveal_strlit("widgetdata-backup.tradingview.com");
        assert(q.subrange(k, k + mark.len()) =~= mark);
        assert(q.subrange(k + mark.len(), k + mark.len() + host.len()) =~= host);
    } else if j == 5 {
        reveal_strlit("wss://prodata.tradingview.com");
        reveal_strlit("prodata.tradingview.com");
        assert(q.subrange(k, k + mark.len()) =~= mark);
        assert(q.subrange(k + mark.len(), k + mark.len() + host.len()) =~= host);
    } else if j == 6 {
        reveal_strlit("wss://data.tradingview.com");
        reveal_strlit("data.tradingview.com");
        assert(q.subrange(k, k + mark.len()) =~= mark);
        assert(q.subrange(k + mark.len(), k + mark.len() + host.len()) =~= host);
    } else if j == 7 {
        reveal_strlit("wss://pushstream.tradingview.com");
        reveal_strlit("pushstream.tradingview.com");
        assert(q.subrange(k, k + mark.len()) =~= mark);
        assert(q.subrange(k + mark.len(), k + mark.len() + host.len()) =~= host);
    } else if j == 8 {
        reveal_strlit("wss://widgetdata.tradingview.com");
        reveal_strlit("widgetdata.tradingview.com");
        assert(q.subrange(k, k + mark.len()) =~= mark);
        assert(q.subrange(k + mark.len(), k + mark.len() + host.len()) =~= host);
    } else if j == 9 {
        reveal_strlit("wss://widgetdata-backup.tradingview.com");
        reveal_strlit("widgetdata-backup.tradingview.com");
        assert(q.subrange(k, k + mark.len()) =~= mark);
        assert(q.subrange(k + mark.len(), k + mark.len() + host.len()) =~= host);
    } else if j == 10 {
        reveal_strlit("https://www.tradingview-widget.com");
        reveal_strlit("www.tradingview-widget.com");
        assert(q.subrange(k, k + mark.len()) =~= mark);
        assert(q.subrange(k + mark.len(), k + mark.len() + host.len()) =~= host);
    } else if j == 11 {
        reveal_strlit("https://s3.tradingview.com");
        reveal_strlit("s3.tradingview.com");
        assert(q.subrange(k, k + mark.len()) =~= mark);
        assert(q.subrange(k + mark.len(), k + mark.len() + host.len()) =~= host);
    } else if j == 12 {
        reveal_strlit("https://s.tradingview.com");
        reveal_strlit("s.tradingview.com");
        assert(q.subrange(k, k + mark.len()) =~= mark);
        assert(q.subrange(k + mark.len(), k + mark.len() + host.len()) =~= host);
    } else if j == 13 {
        reveal_strlit("https://www.tradingview-widget.com/");
        reveal_strlit("www.tradingview-widget.com");
        assert(q.subrange(k, k + mark.len()) =~= mark);
        assert(q.subrange(k + mark.len(), k + mark.len() + host.len()) =~= host);
    } else if j == 14 {
        reveal_strlit("https://s3.tradingview.com/");
        reveal_strlit("s3.tradingview.com");
        assert(q.subrange(k, k + mark.len()) =~= mark);
        assert(q.subrange(k + mark.len(), k + mark.len() + host.len()) =~= host);
    } else if j == 15 {
        reveal_strlit("https://s.tradingview.com/");
        reveal_strlit("s.tradingview.com");
        assert(q.subrange(k, k + mark.len()) =~= mark);
        assert(q.subrange(k + mark.len(), k + mark.len() + host.len()) =~= host);
    } else if j == 16 {
        reveal_strlit("https:\\/\\/www.tradingview-widget.com");
        reveal_strlit("www.tradingview-widget.com");
        assert(q.subrange(k, k + mark.len()) =~= mark);
        assert(q.subrange(k + mark.len(), k + mark.len() + host.len()) =~= host);
    } else if j == 17 {
        reveal_strlit("https:\\/\\/s3.tradingview.com");
        reveal_strlit("s3.tradingview.com");
        assert(q.subrange(k, k + mark.len()) =~= mark);
        assert(q.subrange(k + mark.len(), k + mark.len() + host.len()) =~= host);
    } else if j == 18 {
        reveal_strlit("https:\\/\\/s.tradingview.com");
        reveal_strlit("s.tradingview.com");
        assert(q.subrange(k, k + mark.len()) =~= mark);
        assert(q.subrange(k + mark.len(), k + mark.len() + host.len()) =~= host);
    } else if j == 19 {
        reveal_strlit("https:\\/\\/www.tradingview-widget.com\\/");
        reveal_strlit("www.tradingview-widget.com");
        assert(q.subrange(k, k + mark.len()) =~= mark);
        assert(q.subrange(k + mark.len(), k + mark.len() + host.len()) =~= host);
    } else if j == 20 {
        reveal_strlit("https:\\/\\/s3.tradingview.com\\/");
        reveal_strlit("s3.tradingview.com");
        assert(q.subrange(k, k + mark.len()) =~= mark);
        assert(q.subrange(k + mark.len(), k + mark.len() + host.len()) =~= host);
    } else if j == 21 {
        reveal_strlit("https:\\/\\/s.tradingview.com\\/");
        reveal_strlit("s.tradingview.com");
        assert(q.subrange(k, k + mark.len()) =~= mark);
        assert(q.subrange(k + mark.len(), k + mark.len() + host.len()) =~= host);
    } else if j == 22 {
        reveal_strlit("//www.tradingview-widget.com/");
        reveal_strlit("www.tradingview-widget.com");
        assert(q.subrange(k, k + mark.len()) =~= mark);
        assert(q.subrange(k + mark.len(), k + mark.len() + host.len()) =~= host);
    } else if j == 23 {
        reveal_strlit("//s3.tradingview.com/");
        reveal_strlit("s3.tradingview.com");
        assert(q.subrange(k, k + mark.len()) =~= mark);
        assert(q.subrange(k + mark.len(), k + mark.len() + host.len()) =~= host);
    } else if j == 24 {
        reveal_strlit("//s.tradingview.com/");
        reveal_strlit("s.tradingview.com");
        assert(q.subrange(k, k + mark.len()) =~= mark);
        assert(q.subrange(k + mark.len(), k + mark.len() + host.len()) =~= host);
    }
}

/// None of the widget's hosts is the start of another.
proof fn hosts_differ_early(a: int, b: int)
    requires
        0 <= a < widget_hosts().len(),
        0 <= b < widget_hosts().len(),
        a != b,
    ensures
        exists|d: int|
            0 <= d < 17 && #[trigger] widget_hosts()[a][d] != widget_hosts()[b][d],
{
    reveal_strlit("prodata.tradingview.com");
    reveal_strlit("data.tradingview.com");
    reveal_strlit("pushstream.tradingview.com");
    reveal_strlit("widgetdata.tradingview.com");
    reveal_strlit("widgetdata-backup.tradingview.com");
    reveal_strlit("www.tradingview-widget.com");
    reveal_strlit("s3.tradingview.com");
    reveal_strlit("s.tradingview.com");
    let x = widget_hosts()[a];
    let y = widget_hosts()[b];
    assert(x[0] != y[0] || x[1] != y[1] || x[10] != y[10]);
    let d: int = if x[0] != y[0] {
        0
    } else if x[1] != y[1] {
        1
    } else {
        10
    };
    assert(x[d] != y[d]);
}

/// What stands around an address: nothing with a slash or a backslash before it, and no two
/// slashes behind it.
pub open spec fn are_surroundings(before: Seq<char>, after: Seq<char>) -> bool {
    &&& !before.contains('/')
    &&& !before.contains('\\')
    &&& !includes(after, "//"@)
    &&& !includes(after, "\\/\\/"@)
}

/// The only two slashes of their kind in a text are those of the address in it.
proof fn slashes_are_unique(
    before: Seq<char>,
    protocol: Seq<char>,
    escaped: bool,
    host: Seq<char>,
    after: Seq<char>,
    p: int,
)
    requires
        are_surroundings(before, after),
        !protocol.contains('/'),
        !protocol.contains('\\'),
        is_host(host),
        occurs_at(before + protocol + slashes(escaped) + host + after, slashes(escaped), p),
    ensures
        p == before.len() + protocol.len(),
{
    reveal_strlit("//");
    reveal_strlit("\\/\\/");
    let mark = slashes(escaped);
    let t = (before.len() + protocol.len()) as int;
    let s = before + protocol + mark + host + after;
    let w = s.subrange(p, p + mark.len());
    let e = t + mark.len() + host.len();
    assert(w[0] == s[p] && w[1] == s[p + 1]);
    assert(w[mark.len() - 1] == s[p + mark.len() - 1]);
    assert forall|x: int| 0 <= x < host.len() implies host[x] != '/' && host[x] != '\\' by {
        assert(host.contains(host[x]));
    }
    assert(s[t + mark.len()] == host[0]);
    assert(s[e - 1] == host[host.len() - 1]);
    if p < t {
        if p < before.len() {
            assert(before.contains(before[p]));
            assert(s[p] == before[p]);
        } else {
            assert(protocol.contains(protocol[p - before.len()]));
            assert(s[p] == protocol[p - before.len()]);
        }
    } else if t < p < t + mark.len() {
        if escaped {
            assert(s[p] == mark[p - t]);
            assert(w[2] == s[p + 2]);
        }
    } else if t + mark.len() <= p < e {
        assert(s[p] == host[p - t - mark.len()]);
    } else if p >= e {
        assert(after.subrange(p - e, p - e + mark.len()) =~= w);
        assert(occurs_at(after, mark, p - e));
    }
}

/// Slashes of the other kind stand nowhere in such a text.
proof fn other_slashes_are_absent(
    before: Seq<char>,
    protocol: Seq<char>,
    escaped: bool,
    host: Seq<char>,
    after: Seq<char>,
)
    requires
        are_surroundings(before, after),
        !protocol.contains('/'),
        !protocol.contains('\\'),
        is_host(host),
    ensures
        !includes(before + protocol + slashes(escaped) + host + after, slashes(!escaped)),
{
    reveal_strlit("//");
    reveal_strlit("\\/\\/");
    let mark = slashes(escaped);
    let other = slashes(!escaped);
    let t = (before.len() + protocol.len()) as int;
    let s = before + protocol + mark + host + after;
    let e = t + mark.len() + host.len();
    assert forall|x: int| 0 <= x < host.len() implies host[x] != '/' && host[x] != '\\' by {
        assert(host.contains(host[x]));
    }
    assert forall|p: int| !occurs_at(s, other, p) by {
        if occurs_at(s, other, p) {
            let w = s.subrange(p, p + other.len());
            assert(w[0] == s[p] && w[1] == s[p + 1]);
            assert(s[t + mark.len()] == host[0]);
            if p < t {
                if p < before.len() {
                    assert(before.contains(before[p]));
                    assert(s[p] == before[p]);
                } else {
                    assert(protocol.contains(protocol[p - before.len()]));
                    assert(s[p] == protocol[p - before.len()]);
                }
            } else if p < t + mark.len() {
                assert(s[p] == mark[p - t]);
                if p + 1 < t + mark.len() {
                    assert(s[p + 1] == mark[p + 1 - t]);
                }
            } else if p < e {
                assert(s[p] == host[p - t - mark.len()]);
            } else {
                assert(after.subrange(p - e, p - e + other.len()) =~= w);
                assert(occurs_at(after, other, p - e));
            }
        }
    }
}

/// A rule for another host finds nothing in a text with one address, and a rule for slashes of the
/// other kind finds nothing either.
proof fn other_rule_finds_nothing(
    backend: Seq<char>,
    j: int,
    before: Seq<char>,
    protocol: Seq<char>,
    escaped: bool,
    h: int,
    after: Seq<char>,
)
    requires
        0 <= j < tv_rules(backend).len(),
        0 <= h < widget_hosts().len(),
        are_surroundings(before, after),
        !protocol.contains('/'),
        !protocol.contains('\\'),
        rule_host(j) != h || rule_escaped(j) != escaped,
    ensures
        !includes(
            before + protocol + slashes(escaped) + widget_hosts()[h] + after,
            tv_rules(backend)[j].from,
        ),
{
    let host = widget_hosts()[h];
    let q = tv_rules(backend)[j].from;
    let mark = slashes(rule_escaped(j));
    let k = slashes_at(j);
    let s = before + protocol + slashes(escaped) + host + after;
    rule_shape(backend, j);
    widget_hosts_are_hosts(h);
    widget_hosts_are_hosts(rule_host(j));
    if rule_escaped(j) != escaped {
        other_slashes_are_absent(before, protocol, escaped, host, after);
        assert(includes(q, mark));
        wider_pattern_absent(s, q, mark);
    } else {
        let t = (before.len() + protocol.len()) as int;
        hosts_differ_early(h, rule_host(j));
        let d = choose|d: int|
            0 <= d < 17 && #[trigger] widget_hosts()[h][d] != widget_hosts()[rule_host(j)][d];
        assert forall|i: int| !occurs_at(s, q, i) by {
            if occurs_at(s, q, i) {
                let w = s.subrange(i, i + q.len());
                assert(s.subrange(i + k, i + k + mark.len()) =~= w.subrange(k, k + mark.len()));
                assert(occurs_at(s, mark, i + k));
                slashes_are_unique(before, protocol, escaped, host, after, i + k);
                let x = k + mark.len() + d;
                assert(q.subrange(
                    k + mark.len(),
                    k + mark.len() + widget_hosts()[rule_host(j)].len(),
                )[d] == widget_hosts()[rule_host(j)][d]);
                assert(q[x] == widget_hosts()[rule_host(j)][d]);
                assert(w[x] == s[i + x]);
                assert(s[t + mark.len() + d] == host[d]);
            }
        }
    }
}

/// Once an address has been replaced, no rule finds anything in the text.
proof fn nothing_is_found_behind(
    backend: Seq<char>,
    j: int,
    before: Seq<char>,
    to: Seq<char>,
    after: Seq<char>,
)
    requires
        0 <= j < tv_rules(backend).len(),
        are_surroundings(before, after),
        to.len() > 0,
        to.last() == 'y',
        !includes(to, widget_hosts()[rule_host(j)]),
    ensures
        !includes(before + to + after, tv_rules(backend)[j].from),
{
    reveal_strlit("//");
    reveal_strlit("\\/\\/");
    let host = widget_hosts()[rule_host(j)];
    let q = tv_rules(backend)[j].from;
    let mark = slashes(rule_escaped(j));
    let k = slashes_at(j);
    let s = before + to + after;
    let e = (before.len() + to.len()) as int;
    rule_shape(backend, j);
    widget_hosts_are_hosts(rule_host(j));
    widget_hosts_lack_y(rule_host(j));
    assert forall|i: int| !occurs_at(s, q, i) by {
        if occurs_at(s, q, i) {
            let w = s.subrange(i, i + q.len());
            let a = i + k;
            let u = i + k + mark.len();
            assert(s.subrange(a, u) =~= w.subrange(k, k + mark.len()));
            assert(s.subrange(u, u + host.len()) =~= w.subrange(
                k + mark.len(),
                k + mark.len() + host.len(),
            ));
            assert(s.subrange(a, u)[0] == mark[0] && s.subrange(a, u)[1] == mark[1]);
            assert(s.subrange(a, u)[mark.len() - 1] == mark[mark.len() - 1]);
            assert(s[a] == mark[0] && s[u - 1] == '/');
            if a < before.len() {
                assert(before.contains(before[a]));
                assert(s[a] == before[a]);
            } else if a >= e {
                assert(after.subrange(a - e, a - e + mark.len()) =~= s.subrange(a, u));
                assert(occurs_at(after, mark, a - e));
            } else if u > e - 1 {
                assert(s[e - 1] == 'y');
                assert(s.subrange(a, u)[e - 1 - a] == mark[e - 1 - a]);
            } else if u + host.len() <= e {
                assert(to.subrange(u - before.len(), u - before.len() + host.len())
                    =~= s.subrange(u, u + host.len()));
                assert(occurs_at(to, host, u - before.len()));
            } else {
                assert(s[e - 1] == 'y');
                assert(s.subrange(u, u + host.len())[e - 1 - u] == host[e - 1 - u]);
                assert(host.contains('y'));
            }
        }
    }
}

proof fn widget_hosts_lack_y(i: int)
    requires
        0 <= i < widget_hosts().len(),
    ensures
        !widget_hosts()[i].contains('y'),
{
    reveal_strlit("prodata.tradingview.com");
    reveal_strlit("data.tradingview.com");
    reveal_strlit("pushstream.tradingview.com");
    reveal_strlit("widgetdata.tradingview.com");
    reveal_strlit("widgetdata-backup.tradingview.com");
    reveal_strlit("www.tradingview-widget.com");
    reveal_strlit("s3.tradingview.com");
    reveal_strlit("s.tradingview.com");
}

/// Where only one rule finds anything before it runs, and none does after it has run, that rule
/// alone makes the text.
proof fn one_rule_makes_the_text(s: Seq<char>, rules: Seq<RuleText>, m: int, r: Seq<char>)
    requires
        0 <= m < rules.len(),
        forall|j: int| 0 <= j < m ==> !includes(s, (#[trigger] rules[j]).from),
        replace_all(s, rules[m].from, rules[m].to) == r,
        forall|j: int| m < j < rules.len() ==> !includes(r, (#[trigger] rules[j]).from),
    ensures
        apply_rules(s, rules) == r,
{
    let front = rules.take(m);
    let back = rules.skip(m + 1);
    assert forall|j: int| 0 <= j < front.len() implies !includes(s, (#[trigger] front[j]).from) by {
        assert(front[j] == rules[j]);
    }
    assert forall|j: int| 0 <= j < back.len() implies !includes(r, (#[trigger] back[j]).from) by {
        assert(back[j] == rules[j + m + 1]);
    }
    rules_keep_other_text(s, front);
    rules_keep_other_text(r, back);
    single_rule_replaces(s, rules[m]);
    rules_run_in_order(s, front, seq![rules[m]]);
    rules_run_in_order(s, front + seq![rules[m]], back);
    assert(front + seq![rules[m]] + back =~= rules);
}

/// The one occurrence of an address is replaced, and what stands around it is kept.
proof fn address_is_replaced_once(
    before: Seq<char>,
    protocol: Seq<char>,
    escaped: bool,
    host: Seq<char>,
    tail: Seq<char>,
    after: Seq<char>,
    to: Seq<char>,
)
    requires
        are_surroundings(before, tail + after),
        are_surroundings(before, after),
        !protocol.contains('/'),
        !protocol.contains('\\'),
        is_host(host),
    ensures
        replace_all(
            before + (protocol + slashes(escaped) + host + tail) + after,
            protocol + slashes(escaped) + host + tail,
            to,
        ) == before + to + after,
{
    reveal_strlit("//");
    reveal_strlit("\\/\\/");
    let mark = slashes(escaped);
    let q = protocol + mark + host + tail;
    let s = before + q + after;
    let n = before.len() as int;
    let k = protocol.len() as int;
    assert(s =~= before + protocol + mark + host + (tail + after));
    part_is_included(before, q, after);
    assert(q.subrange(k, k + mark.len()) =~= mark);
    assert forall|i: int| 0 <= i < n implies !occurs_at(s, q, i) by {
        if occurs_at(s, q, i) {
            assert(s.subrange(i + k, i + k + mark.len()) =~= s.subrange(i, i + q.len()).subrange(
                k,
                k + mark.len(),
            ));
            assert(occurs_at(s, mark, i + k));
            slashes_are_unique(before, protocol, escaped, host, tail + after, i + k);
        }
    }
    assert(first_at(s, q, n));
    replace_goes_on(before, q, to, after);
    assert(occurs_at(q, mark, k));
    assert(includes(q, mark));
    wider_pattern_absent(after, q, mark);
    replace_without_match(after, q, to);
}

proof fn protocols_lack_slashes()
    ensures
        !"https:"@.contains('/') && !"https:"@.contains('\\'),
        !"wss:"@.contains('/') && !"wss:"@.contains('\\'),
        !Seq::<char>::empty().contains('/') && !Seq::<char>::empty().contains('\\'),
{
    reveal_strlit("https:");
    reveal_strlit("wss:");
}

/// The address of one of the widget's file hosts becomes the address of the backend's own proxy,
/// whatever path follows it, and what stands around it is kept.
pub proof fn file_address_is_rewritten(
    backend: Seq<char>,
    before: Seq<char>,
    h: int,
    after: Seq<char>,
)
    requires
        is_plain_backend(backend),
        are_surroundings(before, after),
        5 <= h < 8,
    ensures
        apply_rules(before + "https://"@ + widget_hosts()[h] + after, tv_rules(backend)) == before
            + backend + "/tv-proxy"@ + after,
{
    let rules = tv_rules(backend);
    let m = h + 5;
    let host = widget_hosts()[h];
    let none = Seq::<char>::empty();
    reveal_strlit("https:");
    reveal_strlit("https://");
    reveal_strlit("//");
    protocols_lack_slashes();
    widget_hosts_are_hosts(h);
    let s = before + "https://"@ + host + after;
    let q = "https:"@ + slashes(false) + host + none;
    let to = backend + "/tv-proxy"@;
    assert(s =~= before + "https:"@ + slashes(false) + host + after);
    assert(s =~= before + q + after);
    assert(none + after =~= after);
    address_is_replaced_once(before, "https:"@, false, host, none, after, to);
    widget_addresses_are_addresses(h);
    assert(rules[m].from =~= q) by {
        assert(rules[m].from == widget_addresses()[h]);
        assert(widget_addresses()[h].subrange(8, widget_addresses()[h].len() as int) =~= host);
        file_addresses_start_with_https(h);
        assert(rules[m].from =~= rules[m].from.take(8) + host);
    }
    assert forall|j: int| 0 <= j < m implies !includes(s, (#[trigger] rules[j]).from) by {
        other_rule_finds_nothing(backend, j, before, "https:"@, false, h, after);
    }
    proxy_is_free(backend, to);
    assert forall|j: int| m < j < rules.len() implies !includes(
        before + to + after,
        (#[trigger] rules[j]).from,
    ) by {
        nothing_is_found_behind(backend, j, before, to, after);
    }
    one_rule_makes_the_text(s, rules, m, before + to + after);
    assert(before + to + after =~= before + backend + "/tv-proxy"@ + after);
}

proof fn file_addresses_start_with_https(h: int)
    requires
        5 <= h < 8,
    ensures
        widget_addresses()[h].take(8) == "https://"@,
{
    reveal_strlit("https://");
    reveal_strlit("https://www.tradingview-widget.com");
    reveal_strlit("https://s3.tradingview.com");
    reveal_strlit("https://s.tradingview.com");
    assert(widget_addresses()[h].take(8) =~= "https://"@);
}

/// The address under which the backend relays files ends as every such address does and names none
/// of the widget's hosts.
proof fn proxy_is_free(backend: Seq<char>, to: Seq<char>)
    requires
        is_plain_backend(backend),
        to == backend + "/tv-proxy"@,
    ensures
        to.len() > 0 && to.last() == 'y',
        forall|i: int|
            0 <= i < widget_hosts().len() ==> !includes(to, #[trigger] widget_hosts()[i]),
{
    reveal_strlit("/tv-proxy");
    assert forall|i: int| 0 <= i < widget_hosts().len() implies !includes(
        to,
        #[trigger] widget_hosts()[i],
    ) by {
        widget_hosts_are_hosts(i);
        shorter_is_absent("/tv-proxy"@, widget_hosts()[i]);
        assert(!widget_hosts()[i].contains("/tv-proxy"@[0]));
        absent_in_joined(backend, "/tv-proxy"@, widget_hosts()[i]);
    }
}

/// The path of a socket on one of the widget's socket hosts.
pub open spec fn socket_path(h: int) -> Seq<char> {
    if h == 2 {
        "/message-pipe-ws/public"@
    } else {
        "/socket.io/websocket"@
    }
}

/// What the rules for a socket host look for.
proof fn socket_rules_by_host(backend: Seq<char>, h: int)
    requires
        0 <= h < 5,
    ensures
        tv_rules(backend)[h].from == "wss:"@ + slashes(false) + widget_hosts()[h] + socket_path(h),
        tv_rules(backend)[h + 5].from == "wss:"@ + slashes(false) + widget_hosts()[h] + Seq::<
            char,
        >::empty(),
{
    let host = widget_hosts()[h];
    let path = socket_path(h);
    let exact = tv_rules(backend)[h].from;
    let base = tv_rules(backend)[h + 5].from;
    reveal_strlit("wss:");
    reveal_strlit("//");
    reveal_strlit("/socket.io/websocket");
    reveal_strlit("/message-pipe-ws/public");
    if h == 0 {
        reveal_strlit("wss://prodata.tradingview.com/socket.io/websocket");
        reveal_strlit("wss://prodata.tradingview.com");
        reveal_strlit("prodata.tradingview.com");
        assert(exact =~= "wss:"@ + slashes(false) + host + path);
        assert(base =~= "wss:"@ + slashes(false) + host + Seq::<char>::empty());
    } else if h == 1 {
        reveal_strlit("wss://data.tradingview.com/socket.io/websocket");
        reveal_strlit("wss://data.tradingview.com");
        reveal_strlit("data.tradingview.com");
        assert(exact =~= "wss:"@ + slashes(false) + host + path);
        assert(base =~= "wss:"@ + slashes(false) + host + Seq::<char>::empty());
    } else if h == 2 {
        reveal_strlit("wss://pushstream.tradingview.com/message-pipe-ws/public");
        reveal_strlit("wss://pushstream.tradingview.com");
        reveal_strlit("pushstream.tradingview.com");
        assert(exact =~= "wss:"@ + slashes(false) + host + path);
        assert(base =~= "wss:"@ + slashes(false) + host + Seq::<char>::empty());
    } else if h == 3 {
        reveal_strlit("wss://widgetdata.tradingview.com/socket.io/websocket");
        reveal_strlit("wss://widgetdata.tradingview.com");
        reveal_strlit("widgetdata.tradingview.com");
        assert(exact =~= "wss:"@ + slashes(false) + host + path);
        assert(base =~= "wss:"@ + slashes(false) + host + Seq::<char>::empty());
    } else if h == 4 {
        reveal_strlit("wss://widgetdata-backup.tradingview.com/socket.io/websocket");
        reveal_strlit("wss://widgetdata-backup.tradingview.com");
        reveal_strlit("widgetdata-backup.tradingview.com");
        assert(exact =~= "wss:"@ + slashes(false) + host + path);
        assert(base =~= "wss:"@ + slashes(false) + host + Seq::<char>::empty());
    }
}

/// What the rules for a file host with escaped slashes look for.
proof fn escaped_rule_by_host(backend: Seq<char>, h: int)
    requires
        5 <= h < 8,
    ensures
        tv_rules(backend)[h + 11].from == "https:"@ + slashes(true) + widget_hosts()[h] + Seq::<
            char,
        >::empty(),
{
    let host = widget_hosts()[h];
    let rules = tv_rules(backend);
    reveal_strlit("https:");
    reveal_strlit("\\/\\/");
    if h == 5 {
        reveal_strlit("https:\\/\\/www.tradingview-widget.com");
        reveal_strlit("www.tradingview-widget.com");
        assert(rules[h + 11].from =~= "https:"@ + slashes(true) + host + Seq::<char>::empty());
    } else if h == 6 {
        reveal_strlit("https:\\/\\/s3.tradingview.com");
        reveal_strlit("s3.tradingview.com");
        assert(rules[h + 11].from =~= "https:"@ + slashes(true) + host + Seq::<char>::empty());
    } else if h == 7 {
        reveal_strlit("https:\\/\\/s.tradingview.com");
        reveal_strlit("s.tradingview.com");
        assert(rules[h + 11].from =~= "https:"@ + slashes(true) + host + Seq::<char>::empty());
    }
}

/// What the rules for a file host without a protocol look for.
proof fn relative_rule_by_host(backend: Seq<char>, h: int)
    requires
        5 <= h < 8,
    ensures
        tv_rules(backend)[h + 17].from == Seq::<char>::empty() + slashes(false) + widget_hosts()[h]
            + "/"@,
{
    let host = widget_hosts()[h];
    let rules = tv_rules(backend);
    reveal_strlit("//");
    reveal_strlit("/");
    if h == 5 {
        reveal_strlit("//www.tradingview-widget.com/");
        reveal_strlit("www.tradingview-widget.com");
        assert(rules[h + 17].from =~= Seq::<char>::empty() + slashes(false) + host + "/"@);
    } else if h == 6 {
        reveal_strlit("//s3.tradingview.com/");
        reveal_strlit("s3.tradingview.com");
        assert(rules[h + 17].from =~= Seq::<char>::empty() + slashes(false) + host + "/"@);
    } else if h == 7 {
        reveal_strlit("//s.tradingview.com/");
        reveal_strlit("s.tradingview.com");
        assert(rules[h + 17].from =~= Seq::<char>::empty() + slashes(false) + host + "/"@);
    }
}

/// A backend's address with or without transport security.
pub open spec fn web_address(secure: bool, rest: Seq<char>) -> Seq<char> {
    if secure {
        "https://"@ + rest
    } else {
        "http://"@ + rest
    }
}

/// The address of the same backend's sockets.
pub open spec fn socket_address(secure: bool, rest: Seq<char>) -> Seq<char> {
    if secure {
        "wss://"@ + rest
    } else {
        "ws://"@ + rest
    }
}

proof fn sockets_are_free(secure: bool, rest: Seq<char>)
    requires
        is_plain_backend(web_address(secure, rest)),
        is_web_address(web_address(secure, rest), rest),
    ensures
        ({
            let to = socket_address(secure, rest) + "/api/ws/tv-proxy"@;
            &&& to.len() > 0 && to.last() == 'y'
            &&& forall|i: int|
                0 <= i < widget_hosts().len() ==> !includes(to, #[trigger] widget_hosts()[i])
        }),
        forall|j: int|
            0 <= j < 10 ==> (#[trigger] tv_rules(web_address(secure, rest))[j]).to
                == socket_address(secure, rest) + "/api/ws/tv-proxy"@,
{
    let backend = web_address(secure, rest);
    let to = socket_address(secure, rest) + "/api/ws/tv-proxy"@;
    reveal_strlit("/api/ws/tv-proxy");
    assert forall|i: int| 0 <= i < widget_hosts().len() implies !includes(
        to,
        #[trigger] widget_hosts()[i],
    ) by {
        widget_hosts_are_hosts(i);
        if secure {
            absent_in_rest("https://"@, rest, widget_hosts()[i]);
        } else {
            absent_in_rest("http://"@, rest, widget_hosts()[i]);
        }
        ws_is_harmless(socket_address(secure, rest), rest, widget_hosts()[i]);
    }
    backend_forms(backend, rest);
}

/// A socket of the widget, at its own path on one of its socket hosts, becomes the backend's own
/// socket: the path goes with the host, and what stands around is kept.
pub proof fn socket_is_rewritten(
    secure: bool,
    rest: Seq<char>,
    before: Seq<char>,
    h: int,
    after: Seq<char>,
)
    requires
        is_plain_backend(web_address(secure, rest)),
        is_web_address(web_address(secure, rest), rest),
        are_surroundings(before, after),
        0 <= h < 5,
    ensures
        apply_rules(
            before + "wss://"@ + widget_hosts()[h] + socket_path(h) + after,
            tv_rules(web_address(secure, rest)),
        ) == before + socket_address(secure, rest) + "/api/ws/tv-proxy"@ + after,
{
    let backend = web_address(secure, rest);
    let rules = tv_rules(backend);
    let host = widget_hosts()[h];
    let path = socket_path(h);
    let to = socket_address(secure, rest) + "/api/ws/tv-proxy"@;
    reveal_strlit("wss:");
    reveal_strlit("wss://");
    reveal_strlit("//");
    reveal_strlit("\\/\\/");
    reveal_strlit("/socket.io/websocket");
    reveal_strlit("/message-pipe-ws/public");
    protocols_lack_slashes();
    widget_hosts_are_hosts(h);
    socket_rules_by_host(backend, h);
    sockets_are_free(secure, rest);
    let q = rules[h].from;
    let s = before + "wss://"@ + host + path + after;
    assert(s =~= before + "wss:"@ + slashes(false) + host + (path + after));
    assert(s =~= before + q + after);
    assert forall|i: int| !occurs_at(path, "//"@, i) by {
        if occurs_at(path, "//"@, i) {
            let w = path.subrange(i, i + 2);
            assert(w[0] == path[i] && w[1] == path[i + 1]);
        }
    }
    assert forall|i: int| !occurs_at(path, "\\/\\/"@, i) by {
        if occurs_at(path, "\\/\\/"@, i) {
            let w = path.subrange(i, i + 4);
            assert(w[0] == path[i]);
        }
    }
    absent_across(path, after, "//"@);
    absent_across(path, after, "\\/\\/"@);
    address_is_replaced_once(before, "wss:"@, false, host, path, after, to);
    assert forall|j: int| 0 <= j < h implies !includes(s, (#[trigger] rules[j]).from) by {
        other_rule_finds_nothing(backend, j, before, "wss:"@, false, h, path + after);
    }
    assert forall|j: int| h < j < rules.len() implies !includes(
        before + to + after,
        (#[trigger] rules[j]).from,
    ) by {
        nothing_is_found_behind(backend, j, before, to, after);
    }
    one_rule_makes_the_text(s, rules, h, before + to + after);
    assert(before + to + after =~= before + socket_address(secure, rest) + "/api/ws/tv-proxy"@
        + after);
}

/// Any other address on one of the widget's socket hosts has its host replaced by the backend's own
/// socket, and keeps what follows the host.
pub proof fn socket_host_is_rewritten(
    secure: bool,
    rest: Seq<char>,
    before: Seq<char>,
    h: int,
    after: Seq<char>,
)
    requires
        is_plain_backend(web_address(secure, rest)),
        is_web_address(web_address(secure, rest), rest),
        are_surroundings(before, after),
        0 <= h < 5,
        !occurs_at(after, socket_path(h), 0),
    ensures
        apply_rules(
            before + "wss://"@ + widget_hosts()[h] + after,
            tv_rules(web_address(secure, rest)),
        ) == before + socket_address(secure, rest) + "/api/ws/tv-proxy"@ + after,
{
    let backend = web_address(secure, rest);
    let rules = tv_rules(backend);
    let m = h + 5;
    let host = widget_hosts()[h];
    let none = Seq::<char>::empty();
    let to = socket_address(secure, rest) + "/api/ws/tv-proxy"@;
    reveal_strlit("wss:");
    reveal_strlit("wss://");
    reveal_strlit("//");
    protocols_lack_slashes();
    widget_hosts_are_hosts(h);
    socket_rules_by_host(backend, h);
    sockets_are_free(secure, rest);
    let q = rules[m].from;
    let s = before + "wss://"@ + host + after;
    assert(s =~= before + "wss:"@ + slashes(false) + host + after);
    assert(s =~= before + q + after);
    assert(none + after =~= after);
    address_is_replaced_once(before, "wss:"@, false, host, none, after, to);
    assert forall|j: int| 0 <= j < m implies !includes(s, (#[trigger] rules[j]).from) by {
        if j != h {
            other_rule_finds_nothing(backend, j, before, "wss:"@, false, h, after);
        } else {
            let exact = rules[h].from;
            let path = socket_path(h);
            assert forall|i: int| !occurs_at(s, exact, i) by {
                if occurs_at(s, exact, i) {
                    let w = s.subrange(i, i + exact.len());
                    assert(s.subrange(i + 4, i + 6) =~= w.subrange(4, 6));
                    assert(w.subrange(4, 6) =~= "//"@);
                    assert(occurs_at(s, slashes(false), i + 4));
                    slashes_are_unique(before, "wss:"@, false, host, after, i + 4);
                    let e = 6 + host.len();
                    assert(after.subrange(0, path.len() as int) =~= w.subrange(
                        e as int,
                        (e + path.len()) as int,
                    ));
                    assert(w.subrange(e as int, (e + path.len()) as int) =~= path);
                    assert(occurs_at(after, path, 0));
                }
            }
        }
    }
    assert forall|j: int| m < j < rules.len() implies !includes(
        before + to + after,
        (#[trigger] rules[j]).from,
    ) by {
        nothing_is_found_behind(backend, j, before, to, after);
    }
    one_rule_makes_the_text(s, rules, m, before + to + after);
    assert(before + to + after =~= before + socket_address(secure, rest) + "/api/ws/tv-proxy"@
        + after);
}

/// The address of one of the widget's file hosts, with its slashes escaped, becomes the address of
/// the backend's own proxy with its slashes escaped, and what stands around it is kept.
pub proof fn escaped_address_is_rewritten(
    backend: Seq<char>,
    before: Seq<char>,
    h: int,
    after: Seq<char>,
)
    requires
        is_plain_backend(backend),
        are_surroundings(before, after),
        5 <= h < 8,
    ensures
        apply_rules(
            before + "https:"@ + "\\/\\/"@ + widget_hosts()[h] + after,
            tv_rules(backend),
        ) == before + replace_all(backend + "/tv-proxy"@, "/"@, "\\/"@) + after,
{
    let rules = tv_rules(backend);
    let m = h + 11;
    let host = widget_hosts()[h];
    let none = Seq::<char>::empty();
    let to = replace_all(backend + "/tv-proxy"@, "/"@, "\\/"@);
    reveal_strlit("http://");
    reveal_strlit("https://");
    protocols_lack_slashes();
    widget_hosts_are_hosts(h);
    escaped_rule_by_host(backend, h);
    let q = rules[m].from;
    let s = before + "https:"@ + "\\/\\/"@ + host + after;
    assert(s =~= before + "https:"@ + slashes(true) + host + after);
    assert(s =~= before + q + after);
    assert(none + after =~= after);
    address_is_replaced_once(before, "https:"@, true, host, none, after, to);
    assert forall|j: int| 0 <= j < m implies !includes(s, (#[trigger] rules[j]).from) by {
        other_rule_finds_nothing(backend, j, before, "https:"@, true, h, after);
    }
    let rest = choose|rest: Seq<char>| is_web_address(backend, rest);
    assert(backend.len() >= 2 && backend[0] == 'h' && backend[1] == 't');
    assert forall|j: int| m < j < rules.len() implies !includes(
        before + to + after,
        (#[trigger] rules[j]).from,
    ) by {
        widget_hosts_are_hosts(rule_host(j));
        escaped_prefixes_are_harmless(backend, widget_hosts()[rule_host(j)]);
        nothing_is_found_behind(backend, j, before, to, after);
    }
    one_rule_makes_the_text(s, rules, m, before + to + after);
}

/// The address of one of the widget's file hosts without a protocol becomes the address of the
/// backend's own proxy without one, and what stands around it is kept.
pub proof fn relative_address_is_rewritten(
    secure: bool,
    rest: Seq<char>,
    before: Seq<char>,
    h: int,
    after: Seq<char>,
)
    requires
        is_plain_backend(web_address(secure, rest)),
        is_web_address(web_address(secure, rest), rest),
        are_surroundings(before, "/"@ + after),
        before.len() > 0 ==> before.last() != ':',
        5 <= h < 8,
    ensures
        apply_rules(
            before + "//"@ + widget_hosts()[h] + "/"@ + after,
            tv_rules(web_address(secure, rest)),
        ) == before + "//"@ + rest + "/tv-proxy/"@ + after,
{
    let backend = web_address(secure, rest);
    let rules = tv_rules(backend);
    let m = h + 17;
    let host = widget_hosts()[h];
    let none = Seq::<char>::empty();
    let to = "//"@ + rest + "/tv-proxy/"@;
    let cut = "//"@ + rest + "/tv-proxy"@;
    reveal_strlit("//");
    reveal_strlit("/");
    reveal_strlit("/tv-proxy");
    reveal_strlit("/tv-proxy/");
    protocols_lack_slashes();
    widget_hosts_are_hosts(h);
    relative_rule_by_host(backend, h);
    backend_forms(backend, rest);
    absent_in_rest("/"@, after, "//"@);
    absent_in_rest("/"@, after, "\\/\\/"@);
    let q = rules[m].from;
    let s = before + "//"@ + host + "/"@ + after;
    assert(s =~= before + none + slashes(false) + host + ("/"@ + after));
    assert(s =~= before + q + after);
    assert(rules[m].to == to);
    address_is_replaced_once(before, none, false, host, "/"@, after, to);
    assert forall|j: int| 0 <= j < m implies !includes(s, (#[trigger] rules[j]).from) by {
        if rule_host(j) != h || rule_escaped(j) {
            other_rule_finds_nothing(backend, j, before, none, false, h, "/"@ + after);
        } else {
            let from = rules[j].from;
            let k = slashes_at(j);
            rule_shape(backend, j);
            assert forall|i: int| !occurs_at(s, from, i) by {
                if occurs_at(s, from, i) {
                    let w = s.subrange(i, i + from.len());
                    assert(s.subrange(i + k, i + k + 2) =~= w.subrange(k, k + 2));
                    assert(occurs_at(s, slashes(false), i + k));
                    slashes_are_unique(before, none, false, host, "/"@ + after, i + k);
                    assert(w[k - 1] == s[i + k - 1]);
                    assert(before.last() == ':');
                }
            }
        }
    }
    let r = before + to + after;
    assert(r =~= before + cut + ("/"@ + after));
    assert forall|j: int| m < j < rules.len() implies !includes(r, (#[trigger] rules[j]).from) by {
        let other = widget_hosts()[rule_host(j)];
        widget_hosts_are_hosts(rule_host(j));
        if secure {
            absent_in_rest("https://"@, rest, other);
        } else {
            absent_in_rest("http://"@, rest, other);
        }
        shorter_is_absent("//"@, other);
        shorter_is_absent("/tv-proxy"@, other);
        absent_across("//"@, rest, other);
        absent_in_joined("//"@ + rest, "/tv-proxy"@, other);
        nothing_is_found_behind(backend, j, before, cut, "/"@ + after);
    }
    one_rule_makes_the_text(s, rules, m, r);
    assert(r =~= before + "//"@ + rest + "/tv-proxy/"@ + after);
}

/// A content type that holds the word `html` anywhere, with or without parameters, is that of a
/// page, and so of a text; one that holds `javascript` or `json` is that of a text. The path does
/// not matter.
pub proof fn kind_by_content_type(a: Seq<char>, b: Seq<char>, path: Seq<char>)
    ensures
        is_text(a + "html"@ + b, path),
        is_html(a + "html"@ + b, path),
        is_text(a + "javascript"@ + b, path),
        is_text(a + "json"@ + b, path),
{
    part_is_included(a, "html"@, b);
    part_is_included(a, "javascript"@, b);
    part_is_included(a, "json"@, b);
}

/// A path that ends as the path of a script, a page, a style sheet or a source map does is that of
/// a text; one that ends as that of a page does, or in a slash, is that of a page. The content
/// type does not matter.
pub proof fn kind_by_path(content_type: Seq<char>, a: Seq<char>)
    ensures
        is_text(content_type, a + ".js"@),
        is_text(content_type, a + ".html"@),
        is_text(content_type, a + ".css"@),
        is_text(content_type, a + ".map"@),
        is_html(content_type, a + ".html"@),
        is_html(content_type, a + "/"@),
{
    end_is_suffix(a, ".js"@);
    end_is_suffix(a, ".html"@);
    end_is_suffix(a, ".css"@);
    end_is_suffix(a, ".map"@);
    end_is_suffix(a, "/"@);
}

/// A text ends with what stands at its end, and what it ends with stands there.
pub proof fn end_is_suffix(a: Seq<char>, p: Seq<char>)
    ensures
        has_suffix(a + p, p),
{
    assert((a + p).subrange(a.len() as int, (a.len() + p.len()) as int) =~= p);
}

/// A text that ends with another is that other behind something.
pub proof fn suffix_is_end(s: Seq<char>, p: Seq<char>)
    requires
        has_suffix(s, p),
    ensures
        p.len() <= s.len(),
        s == s.take(s.len() - p.len()) + p,
{
    assert(s =~= s.take(s.len() - p.len()) + s.subrange(s.len() - p.len(), s.len() as int));
}

/// Nothing else is a text or a page.
pub proof fn other_kinds(content_type: Seq<char>, path: Seq<char>)
    requires
        !includes(content_type, "html"@),
        !has_suffix(path, ".html"@),
    ensures
        !includes(content_type, "javascript"@) && !includes(content_type, "json"@) && !has_suffix(
            path,
            ".js"@,
        ) && !has_suffix(path, ".css"@) && !has_suffix(path, ".map"@) ==> !is_text(
            content_type,
            path,
        ),
        !has_suffix(path, "/"@) ==> !is_html(content_type, path),
{
}

/// Every page by content type that is not empty carries the script for the backend, and none of
/// the widget's own addresses is left in it, whatever its path.
pub proof fn page_by_type_is_rewritten(
    body: Seq<char>,
    a: Seq<char>,
    b: Seq<char>,
    path: Seq<char>,
    backend: Seq<char>,
    i: int,
)
    requires
        body.len() > 0,
        0 <= i < widget_addresses().len(),
    ensures
        includes(
            relayed_body(body, a + "html"@ + b, path, backend),
            SYNC_SCRIPT_HEAD@ + backend + SYNC_SCRIPT_TAIL@,
        ),
        is_plain_backend(backend) ==> !includes(
            relayed_body(body, a + "html"@ + b, path, backend),
            widget_addresses()[i],
        ),
{
    kind_by_content_type(a, b, path);
    pages_carry_the_script(body, a + "html"@ + b, path, backend);
    if is_plain_backend(backend) {
        relayed_text_is_free_of_widget_addresses(body, a + "html"@ + b, path, backend, i);
    }
}

/// A body is relayed by its kind: a text that is no page is rewritten and nothing more, a page is
/// rewritten and then gets the script, and an empty body or one that is no text passes.
pub proof fn body_is_relayed_by_kind(
    body: Seq<char>,
    content_type: Seq<char>,
    path: Seq<char>,
    backend: Seq<char>,
)
    ensures
        body.len() > 0 && is_text(content_type, path) && !is_html(content_type, path)
            ==> relayed_body(body, content_type, path, backend) == apply_rules(
            body,
            tv_rules(backend),
        ),
        body.len() > 0 && is_text(content_type, path) && is_html(content_type, path)
            ==> relayed_body(body, content_type, path, backend) == with_script(
            apply_rules(body, tv_rules(backend)),
            SYNC_SCRIPT_HEAD@ + backend + SYNC_SCRIPT_TAIL@,
        ),
        body.len() == 0 || !is_text(content_type, path) ==> relayed_body(
            body,
            content_type,
            path,
            backend,
        ) == body,
{
}

/// The script goes before the end of the body where there is one, else before the end of the head
/// where there is one, and else at the end; the rest of the page is kept.
pub proof fn script_has_its_place(before: Seq<char>, after: Seq<char>, script: Seq<char>)
    ensures
        first_at(before + "</body>"@ + after, "</body>"@, before.len() as int) && !includes(
            after,
            "</body>"@,
        ) ==> with_script(before + "</body>"@ + after, script) == before + script + " </body>"@
            + after,
        !includes(before + "</head>"@ + after, "</body>"@) && first_at(
            before + "</head>"@ + after,
            "</head>"@,
            before.len() as int,
        ) && !includes(after, "</head>"@) ==> with_script(before + "</head>"@ + after, script)
            == before + script + " </head>"@ + after,
        !includes(before, "</body>"@) && !includes(before, "</head>"@) ==> with_script(
            before,
            script,
        ) == before + script,
{
    reveal_strlit("</body>");
    reveal_strlit("</head>");
    part_is_included(before, "</body>"@, after);
    part_is_included(before, "</head>"@, after);
    let at_body = script + " </body>"@;
    let at_head = script + " </head>"@;
    if first_at(before + "</body>"@ + after, "</body>"@, before.len() as int) && !includes(
        after,
        "</body>"@,
    ) {
        replace_goes_on(before, "</body>"@, at_body, after);
        replace_without_match(after, "</body>"@, at_body);
        assert(before + at_body + after =~= before + script + " </body>"@ + after);
    }
    if first_at(before + "</head>"@ + after, "</head>"@, before.len() as int) && !includes(
        after,
        "</head>"@,
    ) {
        replace_goes_on(before, "</head>"@, at_head, after);
        replace_without_match(after, "</head>"@, at_head);
        assert(before + at_head + after =~= before + script + " </head>"@ + after);
    }
}

/// A response whose content type holds the word `html` anywhere, with or without parameters, is
/// relayed as a page: with the script for the backend in it, with none of the widget's own
/// addresses, and not to be cached.
pub proof fn html_response_is_relayed_as_a_page(
    status: u16,
    headers: &Vec<RawHeader>,
    body: String,
    backend_url: &str,
    clean_path: &str,
    a: Seq<char>,
    b: Seq<char>,
    r: TvResponse,
    i: int,
)
    requires
        call_ensures(process_tv_response, (status, headers, body, backend_url, clean_path), r),
        content_type_of(headers@) == a + "html"@ + b,
        body@.len() > 0,
        0 <= i < widget_addresses().len(),
    ensures
        includes(
            r.body@,
            SYNC_SCRIPT_HEAD@ + trim_end(backend_url@, '/') + SYNC_SCRIPT_TAIL@,
        ),
        is_plain_backend(trim_end(backend_url@, '/')) ==> !includes(
            r.body@,
            widget_addresses()[i],
        ),
        r.cache_control matches Some(s) && s@ == "no-cache, no-store, must-revalidate"@,
        100 <= status <= 999 ==> r.status == status,
{
    kind_by_content_type(a, b, clean_path@);
    page_by_type_is_rewritten(body@, a, b, clean_path@, trim_end(backend_url@, '/'), i);
}

} // verus!
