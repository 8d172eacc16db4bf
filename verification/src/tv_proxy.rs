//! Relaying the chart widget's pages: where to fetch them, and how to make them talk to this
//! backend in place of their own servers.

use crate::http::{header_text, header_views, pass_status, passed_status, visible_text, RawHeader};
use crate::rewrite::{apply_rules, rewrite, rule_texts, Rule, RuleText};
use crate::script::{sync_script, SYNC_SCRIPT_HEAD, SYNC_SCRIPT_TAIL};
use crate::text::{
    chars_of, contains, ends_with, find, includes, occurs_at, replace, replace_all, same,
    string_of, trim_end, trim_start, without_leading, without_trailing,
};
use vstd::prelude::*;
use vstd::string::*;

verus! {

/// The replacements that turn the widget's own addresses into addresses of the backend, in the
/// order in which they run: exact WebSocket paths before their hosts, then absolute addresses,
/// absolute addresses with escaped slashes, and addresses without a protocol.
pub open spec fn tv_rules(backend: Seq<char>) -> Seq<RuleText> {
    let ws = replace_all(replace_all(backend, "http://"@, "ws://"@), "https://"@, "wss://"@)
        + "/api/ws/tv-proxy"@;
    let proxy = backend + "/tv-proxy"@;
    let prefix = backend + "/tv-proxy/"@;
    let proxy_escaped = replace_all(proxy, "/"@, "\\/"@);
    let prefix_escaped = replace_all(prefix, "/"@, "\\/"@);
    let host_prefix = "//"@ + replace_all(
        replace_all(backend, "http://"@, ""@),
        "https://"@,
        ""@,
    ) + "/tv-proxy/"@;
    seq![
        RuleText { from: "wss://prodata.tradingview.com/socket.io/websocket"@, to: ws },
        RuleText { from: "wss://data.tradingview.com/socket.io/websocket"@, to: ws },
        RuleText { from: "wss://pushstream.tradingview.com/message-pipe-ws/public"@, to: ws },
        RuleText { from: "wss://widgetdata.tradingview.com/socket.io/websocket"@, to: ws },
        RuleText { from: "wss://widgetdata-backup.tradingview.com/socket.io/websocket"@, to: ws },
        RuleText { from: "wss://prodata.tradingview.com"@, to: ws },
        RuleText { from: "wss://data.tradingview.com"@, to: ws },
        RuleText { from: "wss://pushstream.tradingview.com"@, to: ws },
        RuleText { from: "wss://widgetdata.tradingview.com"@, to: ws },
        RuleText { from: "wss://widgetdata-backup.tradingview.com"@, to: ws },
        RuleText { from: "https://www.tradingview-widget.com"@, to: proxy },
        RuleText { from: "https://s3.tradingview.com"@, to: proxy },
        RuleText { from: "https://s.tradingview.com"@, to: proxy },
        RuleText { from: "https://www.tradingview-widget.com/"@, to: prefix },
        RuleText { from: "https://s3.tradingview.com/"@, to: prefix },
        RuleText { from: "https://s.tradingview.com/"@, to: prefix },
        RuleText { from: "https:\\/\\/www.tradingview-widget.com"@, to: proxy_escaped },
        RuleText { from: "https:\\/\\/s3.tradingview.com"@, to: proxy_escaped },
        RuleText { from: "https:\\/\\/s.tradingview.com"@, to: proxy_escaped },
        RuleText { from: "https:\\/\\/www.tradingview-widget.com\\/"@, to: prefix_escaped },
        RuleText { from: "https:\\/\\/s3.tradingview.com\\/"@, to: prefix_escaped },
        RuleText { from: "https:\\/\\/s.tradingview.com\\/"@, to: prefix_escaped },
        RuleText { from: "//www.tradingview-widget.com/"@, to: host_prefix },
        RuleText { from: "//s3.tradingview.com/"@, to: host_prefix },
        RuleText { from: "//s.tradingview.com/"@, to: host_prefix },
    ]
}

fn push_rule(rules: &mut Vec<Rule>, from: &str, to: &String)
    ensures
        rule_texts(final(rules)@) == rule_texts(old(rules)@).push(
            RuleText { from: from@, to: to@ },
        ),
{
    rules.push(Rule { from: from.to_owned(), to: to.clone() });
    assert(rule_texts(rules@) =~= rule_texts(old(rules)@).push(
        RuleText { from: from@, to: to@ },
    ));
}

fn replaced(s: &str, from: &str, to: &str) -> (r: String)
    ensures
        r@ == replace_all(s@, from@, to@),
{
    string_of(&replace(&chars_of(s), &chars_of(from), &chars_of(to)))
}

fn joined(a: &str, b: &str) -> (r: String)
    ensures
        r@ == a@ + b@,
{
    let mut r = a.to_owned();
    r.append(b);
    r
}

/// The replacements for a backend.
pub fn rules_for(backend: &str) -> (r: Vec<Rule>)
    ensures
        rule_texts(r@) == tv_rules(backend@),
{
    let ws = joined(
        replaced(replaced(backend, "http://", "ws://").as_str(), "https://", "wss://").as_str(),
        "/api/ws/tv-proxy",
    );
    let proxy = joined(backend, "/tv-proxy");
    let prefix = joined(backend, "/tv-proxy/");
    let proxy_escaped = replaced(proxy.as_str(), "/", "\\/");
    let prefix_escaped = replaced(prefix.as_str(), "/", "\\/");
    let host = replaced(replaced(backend, "http://", "").as_str(), "https://", "");
    let host_prefix = joined(joined("//", host.as_str()).as_str(), "/tv-proxy/");
    let mut rules: Vec<Rule> = Vec::new();
    assert(rule_texts(rules@) =~= Seq::<RuleText>::empty());
    push_rule(&mut rules, "wss://prodata.tradingview.com/socket.io/websocket", &ws);
    push_rule(&mut rules, "wss://data.tradingview.com/socket.io/websocket", &ws);
    push_rule(&mut rules, "wss://pushstream.tradingview.com/message-pipe-ws/public", &ws);
    push_rule(&mut rules, "wss://widgetdata.tradingview.com/socket.io/websocket", &ws);
    push_rule(&mut rules, "wss://widgetdata-backup.tradingview.com/socket.io/websocket", &ws);
    push_rule(&mut rules, "wss://prodata.tradingview.com", &ws);
    push_rule(&mut rules, "wss://data.tradingview.com", &ws);
    push_rule(&mut rules, "wss://pushstream.tradingview.com", &ws);
    push_rule(&mut rules, "wss://widgetdata.tradingview.com", &ws);
    push_rule(&mut rules, "wss://widgetdata-backup.tradingview.com", &ws);
    push_rule(&mut rules, "https://www.tradingview-widget.com", &proxy);
    push_rule(&mut rules, "https://s3.tradingview.com", &proxy);
    push_rule(&mut rules, "https://s.tradingview.com", &proxy);
    push_rule(&mut rules, "https://www.tradingview-widget.com/", &prefix);
    push_rule(&mut rules, "https://s3.tradingview.com/", &prefix);
    push_rule(&mut rules, "https://s.tradingview.com/", &prefix);
    push_rule(&mut rules, "https:\\/\\/www.tradingview-widget.com", &proxy_escaped);
    push_rule(&mut rules, "https:\\/\\/s3.tradingview.com", &proxy_escaped);
    push_rule(&mut rules, "https:\\/\\/s.tradingview.com", &proxy_escaped);
    push_rule(&mut rules, "https:\\/\\/www.tradingview-widget.com\\/", &prefix_escaped);
    push_rule(&mut rules, "https:\\/\\/s3.tradingview.com\\/", &prefix_escaped);
    push_rule(&mut rules, "https:\\/\\/s.tradingview.com\\/", &prefix_escaped);
    push_rule(&mut rules, "//www.tradingview-widget.com/", &host_prefix);
    push_rule(&mut rules, "//s3.tradingview.com/", &host_prefix);
    push_rule(&mut rules, "//s.tradingview.com/", &host_prefix);
    assert(rule_texts(rules@) =~= tv_rules(backend@));
    rules
}

/// Where the script goes: before each end of the body, or else before each end of the head, or
/// else at the end.
pub open spec fn with_script(body: Seq<char>, script: Seq<char>) -> Seq<char> {
    if includes(body, "</body>"@) {
        replace_all(body, "</body>"@, script + " </body>"@)
    } else if includes(body, "</head>"@) {
        replace_all(body, "</head>"@, script + " </head>"@)
    } else {
        body + script
    }
}

/// Puts the script into a page.
fn put_script(body: Vec<char>, script: &str) -> (r: Vec<char>)
    ensures
        r@ == with_script(body@, script@),
{
    let end_of_body = chars_of("</body>");
    let end_of_head = chars_of("</head>");
    match find(&body, &end_of_body) {
        Some(i) => {
            assert(occurs_at(body@, "</body>"@, i as int));
            replace(&body, &end_of_body, &chars_of(joined(script, " </body>").as_str()))
        },
        None => match find(&body, &end_of_head) {
            Some(i) => {
                assert(occurs_at(body@, "</head>"@, i as int));
                replace(&body, &end_of_head, &chars_of(joined(script, " </head>").as_str()))
            },
            None => chars_of(joined(string_of(&body).as_str(), script).as_str()),
        },
    }
}

/// `s` ends with `p`.
pub open spec fn has_suffix(s: Seq<char>, p: Seq<char>) -> bool {
    occurs_at(s, p, s.len() - p.len())
}

/// A response is text by its content type or by the end of its path.
pub open spec fn is_text(content_type: Seq<char>, path: Seq<char>) -> bool {
    ||| includes(content_type, "javascript"@)
    ||| includes(content_type, "html"@)
    ||| includes(content_type, "json"@)
    ||| has_suffix(path, ".js"@)
    ||| has_suffix(path, ".html"@)
    ||| has_suffix(path, ".css"@)
    ||| has_suffix(path, ".map"@)
}

/// A response is a page by its content type or by the end of its path.
pub open spec fn is_html(content_type: Seq<char>, path: Seq<char>) -> bool {
    ||| includes(content_type, "html"@)
    ||| has_suffix(path, ".html"@)
    ||| has_suffix(path, "/"@)
}

fn looks_like_text(content_type: &str, path: &str) -> (r: bool)
    ensures
        r == is_text(content_type@, path@),
{
    contains(content_type, "javascript") || contains(content_type, "html") || contains(
        content_type,
        "json",
    ) || ends_with(path, ".js") || ends_with(path, ".html") || ends_with(path, ".css")
        || ends_with(path, ".map")
}

fn looks_like_html(content_type: &str, path: &str) -> (r: bool)
    ensures
        r == is_html(content_type@, path@),
{
    contains(content_type, "html") || ends_with(path, ".html") || ends_with(path, "/")
}

/// The value of the first header of a name.
pub open spec fn first_value(headers: Seq<RawHeader>, name: Seq<char>) -> Option<Seq<u8>>
    decreases headers.len(),
{
    if headers.len() == 0 {
        None
    } else if headers[0].name@ == name {
        Some(headers[0].value@)
    } else {
        first_value(headers.skip(1), name)
    }
}

/// The value of the last header of a name that can be read as text.
pub open spec fn last_text(headers: Seq<RawHeader>, name: Seq<char>) -> Option<Seq<char>>
    decreases headers.len(),
{
    if headers.len() == 0 {
        None
    } else if headers.last().name@ == name && visible_text(headers.last().value@) is Some {
        visible_text(headers.last().value@)
    } else {
        last_text(headers.drop_last(), name)
    }
}

/// The content type by which a response is judged: the first one that was sent, or nothing where
/// it cannot be read as text.
pub open spec fn content_type_of(headers: Seq<RawHeader>) -> Seq<char> {
    match first_value(headers, "content-type"@) {
        Some(value) => match visible_text(value) {
            Some(s) => s,
            None => Seq::empty(),
        },
        None => Seq::empty(),
    }
}

fn judged_content_type(headers: &Vec<RawHeader>) -> (r: String)
    ensures
        r@ == content_type_of(headers@),
{
    let n: usize = headers.len();
    let mut i: usize = 0;
    assert(headers@.skip(0) == headers@);
    while i < n
        invariant
            n == headers@.len(),
            i <= n,
            first_value(headers@, "content-type"@) == first_value(
                headers@.skip(i as int),
                "content-type"@,
            ),
        decreases n - i,
    {
        assert(headers@.skip(i as int).skip(1) == headers@.skip(i + 1));
        if same(headers[i].name.as_str(), "content-type") {
            return match header_text(&headers[i].value) {
                Some(s) => s,
                None => String::new(),
            };
        }
        i += 1;
    }
    String::new()
}

fn relayed_value(headers: &Vec<RawHeader>, name: &str) -> (r: Option<String>)
    ensures
        match r {
            Some(s) => last_text(headers@, name@) == Some(s@),
            None => last_text(headers@, name@) is None,
        },
{
    let mut n: usize = headers.len();
    assert(headers@.take(n as int) == headers@);
    while n > 0
        invariant
            n <= headers@.len(),
            last_text(headers@, name@) == last_text(headers@.take(n as int), name@),
        decreases n,
    {
        assert(headers@.take(n as int).drop_last() == headers@.take(n - 1));
        if same(headers[n - 1].name.as_str(), name) {
            match header_text(&headers[n - 1].value) {
                Some(s) => {
                    return Some(s);
                },
                None => {},
            }
        }
        n -= 1;
    }
    None
}

/// A relayed response. Of its three headers, one that is absent here is not set: no cache control
/// and no entity tag is then sent, and the content type is left to the server.
#[derive(Debug, PartialEq, Eq)]
pub struct TvResponse {
    pub status: u16,
    pub content_type: Option<String>,
    pub cache_control: Option<String>,
    pub etag: Option<String>,
    pub body: String,
}

/// The view of an optional string.
pub open spec fn text_view(s: Option<String>) -> Option<Seq<char>> {
    match s {
        Some(s) => Some(s@),
        None => None,
    }
}

/// The body that is relayed in place of an upstream's body.
pub open spec fn relayed_body(
    body: Seq<char>,
    content_type: Seq<char>,
    path: Seq<char>,
    backend: Seq<char>,
) -> Seq<char> {
    if is_text(content_type, path) && body.len() > 0 {
        let rewritten = apply_rules(body, tv_rules(backend));
        if is_html(content_type, path) {
            with_script(rewritten, sync_script(backend))
        } else {
            rewritten
        }
    } else {
        body
    }
}

/// Relays an upstream response: text is rewritten to address the backend and not cached, pages
/// get the script, and anything else passes with its content type, cache control and entity tag.
pub fn process_tv_response(
    status: u16,
    headers: &Vec<RawHeader>,
    body: String,
    backend_url: &str,
    clean_path: &str,
) -> (r: TvResponse)
    ensures
        r.status == passed_status(status),
        text_view(r.content_type) == last_text(headers@, "content-type"@),
        text_view(r.etag) == last_text(headers@, "etag"@),
        text_view(r.cache_control) == if is_text(content_type_of(headers@), clean_path@)
            && body@.len() > 0 {
            Some("no-cache, no-store, must-revalidate"@)
        } else {
            last_text(headers@, "cache-control"@)
        },
        r.body@ == relayed_body(
            body@,
            content_type_of(headers@),
            clean_path@,
            trim_end(backend_url@, '/'),
        ),
{
    let judged = judged_content_type(headers);
    let is_text = looks_like_text(judged.as_str(), clean_path);
    let is_html = looks_like_html(judged.as_str(), clean_path);
    let content_type = relayed_value(headers, "content-type");
    let etag = relayed_value(headers, "etag");
    let status = pass_status(status);
    if is_text && !body.as_str().is_empty() {
        let backend = without_trailing(backend_url, '/');
        let rules = rules_for(backend.as_str());
        let mut text = rewrite(chars_of(body.as_str()), &rules);
        if is_html {
            let mut script = SYNC_SCRIPT_HEAD.to_owned();
            script.append(backend.as_str());
            script.append(SYNC_SCRIPT_TAIL);
            text = put_script(text, script.as_str());
        }
        TvResponse {
            status,
            content_type,
            cache_control: Some("no-cache, no-store, must-revalidate".to_owned()),
            etag,
            body: string_of(&text),
        }
    } else {
        let cache_control = relayed_value(headers, "cache-control");
        TvResponse { status, content_type, cache_control, etag, body }
    }
}

/// The path that is asked of the upstreams: the requested path without its leading slashes, with
/// the query put back.
pub open spec fn target_path(path: Seq<char>, query: Option<Seq<char>>) -> Seq<char> {
    match query {
        Some(q) => trim_start(path, '/') + "?"@ + q,
        None => trim_start(path, '/'),
    }
}

/// The addresses at which a path is tried, in this order.
pub open spec fn upstream_urls(clean_path: Seq<char>) -> Seq<Seq<char>> {
    seq![
        "https://www.tradingview-widget.com/"@ + clean_path,
        "https://s.tradingview.com/"@ + clean_path,
        "https://s3.tradingview.com/"@ + clean_path,
    ]
}

/// What came of one attempt to fetch from an upstream.
#[derive(Debug, PartialEq, Eq)]
pub enum FetchOutcome {
    Response(u16),
    NetworkError,
}

/// What to do next for a request.
#[derive(Debug, PartialEq, Eq)]
pub enum FetchStep {
    /// Fetch this address.
    Fetch(String),
    /// Relay the response that just came.
    Serve,
    /// Reply with this status.
    Reply(u16),
}

/// An attempt that leads to the next upstream: nothing came, or the upstream does not have the
/// path or does not hand it out.
pub open spec fn is_retried(outcome: FetchOutcome) -> bool {
    match outcome {
        FetchOutcome::Response(status) => status == 404 || status == 403,
        FetchOutcome::NetworkError => true,
    }
}

/// How many upstreams have failed after an attempt.
pub open spec fn failed_after(failed: nat, outcome: FetchOutcome) -> nat {
    if is_retried(outcome) {
        failed + 1
    } else {
        failed
    }
}

/// A request for a widget file, while its upstreams are tried.
#[derive(Debug, PartialEq, Eq)]
pub struct TvFetch {
    clean_path: String,
    attempt: usize,
}

impl TvFetch {
    /// The path that is asked of the upstreams.
    pub closed spec fn path(self) -> Seq<char> {
        self.clean_path@
    }

    /// How many upstreams have failed so far.
    pub closed spec fn failed(self) -> nat {
        self.attempt as nat
    }

    /// The path that is asked of the upstreams.
    pub fn clean_path(&self) -> (r: &str)
        ensures
            r@ == self.path(),
    {
        self.clean_path.as_str()
    }

    /// Begins a request: the first address, or no request where nothing is asked for.
    pub fn begin(path: &str, query: Option<&String>) -> (r: (TvFetch, FetchStep))
        ensures
            r.0.path() == target_path(
                path@,
                match query {
                    Some(q) => Some(q@),
                    None => None,
                },
            ),
            r.0.failed() == 0,
            if r.0.path().len() == 0 {
                r.1 == FetchStep::Reply(400)
            } else {
                r.1 matches FetchStep::Fetch(url) && url@ == upstream_urls(r.0.path())[0]
            },
    {
        let mut clean_path = without_leading(path, '/');
        match query {
            Some(q) => {
                clean_path.append("?");
                clean_path.append(q.as_str());
            },
            None => {},
        }
        let step = if clean_path.as_str().is_empty() {
            FetchStep::Reply(400)
        } else {
            FetchStep::Fetch(joined("https://www.tradingview-widget.com/", clean_path.as_str()))
        };
        (TvFetch { clean_path, attempt: 0 }, step)
    }

    /// Goes on after an attempt: relay what came, try the next upstream, or give up.
    pub fn on_outcome(&mut self, outcome: FetchOutcome) -> (r: FetchStep)
        requires
            old(self).failed() < 3,
        ensures
            final(self).path() == old(self).path(),
            final(self).failed() == failed_after(old(self).failed(), outcome),
            if !is_retried(outcome) {
                r == FetchStep::Serve
            } else if final(self).failed() < 3 {
                r matches FetchStep::Fetch(url) && url@ == upstream_urls(
                    final(self).path(),
                )[final(self).failed() as int]
            } else {
                r == FetchStep::Reply(502)
            },
    {
        let retried = match outcome {
            FetchOutcome::Response(status) => status == 404 || status == 403,
            FetchOutcome::NetworkError => true,
        };
        if !retried {
            return FetchStep::Serve;
        }
        self.attempt = self.attempt + 1;
        if self.attempt == 1 {
            FetchStep::Fetch(joined("https://s.tradingview.com/", self.clean_path.as_str()))
        } else if self.attempt == 2 {
            FetchStep::Fetch(joined("https://s3.tradingview.com/", self.clean_path.as_str()))
        } else {
            FetchStep::Reply(502)
        }
    }
}

/// Which attempt is served of the outcomes that the three upstreams would have, once some have
/// failed; none where all fail.
pub open spec fn served(failed: nat, outcomes: Seq<FetchOutcome>) -> Option<nat>
    decreases 3 - failed,
{
    if failed >= 3 {
        None
    } else if is_retried(outcomes[failed as int]) {
        served(failed_after(failed, outcomes[failed as int]), outcomes)
    } else {
        Some(failed)
    }
}

/// The first upstream is served that answers with anything but a refusal or a missing path, and
/// a request is given up only when all three have failed.
pub proof fn first_answer_is_served(outcomes: Seq<FetchOutcome>)
    ensures
        match served(0, outcomes) {
            Some(k) => {
                &&& k < 3
                &&& !is_retried(outcomes[k as int])
                &&& forall|j: int| 0 <= j < k ==> is_retried(#[trigger] outcomes[j])
            },
            None => forall|j: int| 0 <= j < 3 ==> is_retried(#[trigger] outcomes[j]),
        },
{
    reveal_with_fuel(served, 4);
}

/// The headers under which an upstream is asked, in this order. No encoding is offered, so that
/// the body comes as plain text.
pub open spec fn upstream_headers() -> Seq<(Seq<char>, Seq<char>)> {
    seq![
        ("User-Agent"@, "Mozilla/5.0 (Windows NT 10.0; Win64; x64) AppleWebKit/537.36 (KHTML, like Gecko) Chrome/126.0.0.0 Safari/537.36"@),
        ("Accept"@, "text/html,application/xhtml+xml,application/xml;q=0.9,image/avif,image/webp,image/apng,*/*;q=0.8,application/signed-exchange;v=b3;q=0.7"@),
        ("Accept-Language"@, "en-US,en;q=0.9"@),
        ("Referer"@, "https://www.tradingview-widget.com/"@),
        ("Sec-Fetch-Dest"@, "iframe"@),
        ("Sec-Fetch-Mode"@, "navigate"@),
        ("Sec-Fetch-Site"@, "cross-site"@),
        ("Sec-Ch-Ua"@, "\"Chromium\";v=\"126\", \"Google Chrome\";v=\"126\", \"Not-A.Brand\";v=\"8\""@),
        ("Sec-Ch-Ua-Mobile"@, "?0"@),
        ("Sec-Ch-Ua-Platform"@, "\"Windows\""@),
    ]
}

/// The headers under which an upstream is asked.
pub fn tv_request_headers() -> (r: Vec<(String, String)>)
    ensures
        header_views(r@) == upstream_headers(),
{
    let mut r: Vec<(String, String)> = Vec::new();
    r.push(("User-Agent".to_owned(), "Mozilla/5.0 (Windows NT 10.0; Win64; x64) AppleWebKit/537.36 (KHTML, like Gecko) Chrome/126.0.0.0 Safari/537.36".to_owned()));
    r.push(("Accept".to_owned(), "text/html,application/xhtml+xml,application/xml;q=0.9,image/avif,image/webp,image/apng,*/*;q=0.8,application/signed-exchange;v=b3;q=0.7".to_owned()));
    r.push(("Accept-Language".to_owned(), "en-US,en;q=0.9".to_owned()));
    r.push(("Referer".to_owned(), "https://www.tradingview-widget.com/".to_owned()));
    r.push(("Sec-Fetch-Dest".to_owned(), "iframe".to_owned()));
    r.push(("Sec-Fetch-Mode".to_owned(), "navigate".to_owned()));
    r.push(("Sec-Fetch-Site".to_owned(), "cross-site".to_owned()));
    r.push(("Sec-Ch-Ua".to_owned(), "\"Chromium\";v=\"126\", \"Google Chrome\";v=\"126\", \"Not-A.Brand\";v=\"8\"".to_owned()));
    r.push(("Sec-Ch-Ua-Mobile".to_owned(), "?0".to_owned()));
    r.push(("Sec-Ch-Ua-Platform".to_owned(), "\"Windows\"".to_owned()));
    assert(header_views(r@) =~= upstream_headers());
    r
}

/// Of several headers of a name the first one counts, and there is no value where no header has the
/// name.
pub proof fn first_header_counts(
    a: Seq<RawHeader>,
    header: RawHeader,
    b: Seq<RawHeader>,
    name: Seq<char>,
)
    requires
        forall|i: int| 0 <= i < a.len() ==> (#[trigger] a[i]).name@ != name,
    ensures
        header.name@ == name ==> first_value(a + seq![header] + b, name) == Some(header.value@),
        first_value(a, name) is None,
    decreases a.len(),
{
    let s = a + seq![header] + b;
    if a.len() > 0 {
        let rest = a.skip(1);
        assert(s.skip(1) =~= rest + seq![header] + b);
        assert(s[0] == a[0]);
        assert forall|i: int| 0 <= i < rest.len() implies (#[trigger] rest[i]).name@ != name by {
            assert(rest[i] == a[i + 1]);
        }
        first_header_counts(rest, header, b, name);
    } else {
        assert(s[0] == header);
    }
}

/// Of several headers of a name the last one that can be read as text is relayed, and none where
/// none can be.
pub proof fn last_readable_header_counts(
    a: Seq<RawHeader>,
    header: RawHeader,
    b: Seq<RawHeader>,
    name: Seq<char>,
)
    requires
        forall|i: int|
            0 <= i < b.len() ==> (#[trigger] b[i]).name@ != name || visible_text(b[i].value@) is None,
    ensures
        header.name@ == name && visible_text(header.value@) is Some ==> last_text(
            a + seq![header] + b,
            name,
        ) == visible_text(header.value@),
        last_text(b, name) is None,
    decreases b.len(),
{
    let s = a + seq![header] + b;
    if b.len() > 0 {
        let front = b.drop_last();
        assert(s.drop_last() =~= a + seq![header] + front);
        assert(s.last() == b[b.len() - 1]);
        assert forall|i: int| 0 <= i < front.len() implies (#[trigger] front[i]).name@ != name
            || visible_text(front[i].value@) is None by {
            assert(front[i] == b[i]);
        }
        last_readable_header_counts(a, header, front, name);
    } else {
        assert(s.last() == header);
    }
}

/// A response is judged by the first content type that was sent, whole and as it stands; it is
/// judged to have none where none was sent or the first one cannot be read.
pub proof fn first_content_type_is_judged(
    a: Seq<RawHeader>,
    header: RawHeader,
    b: Seq<RawHeader>,
)
    requires
        forall|i: int| 0 <= i < a.len() ==> (#[trigger] a[i]).name@ != "content-type"@,
    ensures
        header.name@ == "content-type"@ ==> content_type_of(a + seq![header] + b) == (
            match visible_text(header.value@) {
                Some(s) => s,
                None => Seq::empty(),
            }),
        content_type_of(a) == Seq::<char>::empty(),
{
    first_header_counts(a, header, b, "content-type"@);
}

/// The leading slashes of a path are left out, whatever their number, and nothing else is; a query
/// is put back behind a question mark, also where it is empty.
pub proof fn path_is_asked_without_leading_slashes(
    slashes: Seq<char>,
    path: Seq<char>,
    query: Seq<char>,
)
    requires
        forall|i: int| 0 <= i < slashes.len() ==> #[trigger] slashes[i] == '/',
        path.len() > 0 ==> path[0] != '/',
    ensures
        target_path(slashes + path, None) == path,
        target_path(slashes + path, Some(query)) == path + seq!['?'] + query,
    decreases slashes.len(),
{
    reveal_strlit("?");
    assert("?"@ =~= seq!['?']);
    if slashes.len() > 0 {
        assert((slashes + path).skip(1) =~= slashes.skip(1) + path);
        assert((slashes + path)[0] == slashes[0]);
        assert forall|i: int| 0 <= i < slashes.skip(1).len() implies #[trigger] slashes.skip(1)[i]
            == '/' by {
            assert(slashes[i + 1] == '/');
        }
        path_is_asked_without_leading_slashes(slashes.skip(1), path, query);
    } else {
        assert(slashes + path =~= path);
    }
}

/// The three upstreams are asked for the whole path, in their order.
pub proof fn upstreams_are_asked_for_the_path(path: Seq<char>)
    ensures
        upstream_urls(path).len() == 3,
        upstream_urls(path)[0] == "https://"@ + "www.tradingview-widget.com"@ + "/"@ + path,
        upstream_urls(path)[1] == "https://"@ + "s.tradingview.com"@ + "/"@ + path,
        upstream_urls(path)[2] == "https://"@ + "s3.tradingview.com"@ + "/"@ + path,
{
    reveal_strlit("https://");
    reveal_strlit("/");
    reveal_strlit("www.tradingview-widget.com");
    reveal_strlit("s.tradingview.com");
    reveal_strlit("s3.tradingview.com");
    reveal_strlit("https://www.tradingview-widget.com/");
    reveal_strlit("https://s.tradingview.com/");
    reveal_strlit("https://s3.tradingview.com/");
    assert("https://www.tradingview-widget.com/"@ =~= "https://"@ + "www.tradingview-widget.com"@
        + "/"@);
    assert("https://s.tradingview.com/"@ =~= "https://"@ + "s.tradingview.com"@ + "/"@);
    assert("https://s3.tradingview.com/"@ =~= "https://"@ + "s3.tradingview.com"@ + "/"@);
}

/// The next upstream is tried where nothing came, or a 403 or a 404; any other status is served.
pub proof fn retried_by_number(status: u16, failed: nat)
    ensures
        is_retried(FetchOutcome::Response(status)) == (status == 403 || status == 404),
        is_retried(FetchOutcome::NetworkError),
        status == 403 || status == 404 ==> failed_after(failed, FetchOutcome::Response(status))
            == failed + 1,
        status != 403 && status != 404 ==> failed_after(failed, FetchOutcome::Response(status))
            == failed,
        failed_after(failed, FetchOutcome::NetworkError) == failed + 1,
{
}

/// An upstream is asked as a browser asks for a frame, and no encoding is offered to it.
pub proof fn upstreams_are_asked_as_by_a_browser(i: int)
    requires
        0 <= i < upstream_headers().len(),
    ensures
        upstream_headers().len() == 10,
        upstream_headers()[i].0 != "Accept-Encoding"@,
        upstream_headers().contains(("Accept-Language"@, "en-US,en;q=0.9"@)),
        upstream_headers().contains(("Referer"@, "https://www.tradingview-widget.com/"@)),
        upstream_headers().contains(("Sec-Fetch-Dest"@, "iframe"@)),
        upstream_headers().contains(("Sec-Fetch-Mode"@, "navigate"@)),
        upstream_headers().contains(("Sec-Fetch-Site"@, "cross-site"@)),
        upstream_headers().contains(("Sec-Ch-Ua-Mobile"@, "?0"@)),
        upstream_headers().contains(("Sec-Ch-Ua-Platform"@, "\"Windows\""@)),
        upstream_headers().contains(
            (
                "User-Agent"@,
                "Mozilla/5.0 (Windows NT 10.0; Win64; x64) AppleWebKit/537.36 (KHTML, like Gecko) Chrome/126.0.0.0 Safari/537.36"@,
            ),
        ),
        upstream_headers().contains(
            (
                "Accept"@,
                "text/html,application/xhtml+xml,application/xml;q=0.9,image/avif,image/webp,image/apng,*/*;q=0.8,application/signed-exchange;v=b3;q=0.7"@,
            ),
        ),
{
    reveal_strlit("Accept-Encoding");
    reveal_strlit("User-Agent");
    reveal_strlit("Accept");
    reveal_strlit("Accept-Language");
    reveal_strlit("Referer");
    reveal_strlit("Sec-Fetch-Dest");
    reveal_strlit("Sec-Fetch-Mode");
    reveal_strlit("Sec-Fetch-Site");
    reveal_strlit("Sec-Ch-Ua");
    reveal_strlit("Sec-Ch-Ua-Mobile");
    reveal_strlit("Sec-Ch-Ua-Platform");
    let h = upstream_headers();
    assert("Accept-Encoding"@.len() == 15 && "Accept-Encoding"@[7] == 'E');
    assert("Accept-Language"@[7] == 'L');
    assert(h[i].0.len() != 15 || h[i].0[7] == 'L');
    assert(h.contains(h[0]) && h.contains(h[1]) && h.contains(h[2]) && h.contains(h[3]));
    assert(h.contains(h[4]) && h.contains(h[5]) && h.contains(h[6]) && h.contains(h[8]));
    assert(h.contains(h[9]));
}

/// The view of an optional string is the view of the string where there is one, also an empty one.
pub proof fn text_view_is_the_text(s: String)
    ensures
        text_view(Some(s)) == Some(s@),
        text_view(None) is None,
{
}

/// A request for a path asks the first upstream for that path, leading slashes left out, and a
/// request for nothing is refused.
pub proof fn first_upstream_is_asked(
    path: &str,
    slashes: Seq<char>,
    rest: Seq<char>,
    r: (TvFetch, FetchStep),
)
    requires
        call_ensures(TvFetch::begin, (path, None::<&String>), r),
        path@ == slashes + rest,
        forall|i: int| 0 <= i < slashes.len() ==> #[trigger] slashes[i] == '/',
        rest.len() > 0 ==> rest[0] != '/',
    ensures
        r.0.path() == rest,
        r.0.failed() == 0,
        rest.len() == 0 ==> r.1 == FetchStep::Reply(400),
        rest.len() > 0 ==> (r.1 matches FetchStep::Fetch(url) && url@
            == "https://www.tradingview-widget.com/"@ + rest),
{
    path_is_asked_without_leading_slashes(slashes, rest, Seq::empty());
}

} // verus!
