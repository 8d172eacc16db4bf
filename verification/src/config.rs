//! Settings: environment variables, allowed origins and the secret key.

use crate::decimal::{decimal, parse_port, port_reads_back, port_value};
use crate::http::{is_sendable, sendable};
use crate::text::{
    is_space, pieces, split, split_at_separator, split_without_separator, string_of, trim_space,
    trim_space_takes_the_ends, trimmed, views, whitespace_by_number,
};
use vstd::prelude::*;

verus! {

/// The environment variables that the service reads; one that is not set, or not set to text, is
/// absent.
#[derive(Debug, PartialEq, Eq)]
pub struct EnvVars {
    pub port: Option<String>,
    pub nim_base: Option<String>,
    pub kucoin_base: Option<String>,
    pub phemex_ws: Option<String>,
    pub phemex_origin: Option<String>,
    pub redis_url: Option<String>,
    pub aes_secret_hex: Option<String>,
    pub backend_url: Option<String>,
}

/// The settings of the service.
#[derive(Debug, PartialEq, Eq)]
pub struct Config {
    pub port: u16,
    pub nim_base: String,
    pub kucoin_base: String,
    pub phemex_ws: String,
    pub phemex_origin: String,
    pub redis_url: String,
    pub aes_secret_hex: String,
    pub backend_url: String,
}

/// Why the service cannot start.
#[derive(Debug, PartialEq, Eq)]
pub enum ConfigError {
    MissingRedisUrl,
    MissingAesSecret,
    InvalidAesSecret,
}

/// A setting, or its default where it is not set.
pub open spec fn setting(value: Option<String>, default: Seq<char>) -> Seq<char> {
    match value {
        Some(s) => s@,
        None => default,
    }
}

/// The port, or 3000 where none is named.
pub open spec fn port_setting(value: Option<String>) -> nat {
    match value {
        Some(s) => match port_value(s@) {
            Some(p) => p,
            None => 3000,
        },
        None => 3000,
    }
}

fn or_default(value: Option<String>, default: &str) -> (r: String)
    ensures
        r@ == setting(value, default@),
{
    match value {
        Some(s) => s,
        None => default.to_owned(),
    }
}

/// Reads the settings. The address of the store and the secret key have no defaults.
pub fn load_config(vars: EnvVars) -> (r: Result<Config, ConfigError>)
    ensures
        match r {
            Ok(c) => {
                &&& vars.redis_url is Some
                &&& vars.aes_secret_hex is Some
                &&& c.redis_url@ == vars.redis_url->0@
                &&& c.aes_secret_hex@ == vars.aes_secret_hex->0@
                &&& c.port == port_setting(vars.port)
                &&& c.nim_base@ == setting(vars.nim_base, "https://integrate.api.nvidia.com/v1"@)
                &&& c.kucoin_base@ == setting(vars.kucoin_base, "https://api.kucoin.com"@)
                &&& c.phemex_ws@ == setting(vars.phemex_ws, "wss://vapi.phemex.com/ws"@)
                &&& c.phemex_origin@ == setting(vars.phemex_origin, "https://phemex.com"@)
                &&& c.backend_url@ == setting(vars.backend_url, "http://localhost:8080"@)
            },
            Err(e) => if vars.redis_url is None {
                e == ConfigError::MissingRedisUrl
            } else {
                vars.aes_secret_hex is None && e == ConfigError::MissingAesSecret
            },
        },
{
    let port: u16 = match vars.port {
        Some(s) => match parse_port(s.as_str()) {
            Some(p) => p,
            None => 3000,
        },
        None => 3000,
    };
    let redis_url = match vars.redis_url {
        Some(s) => s,
        None => {
            return Err(ConfigError::MissingRedisUrl);
        },
    };
    let aes_secret_hex = match vars.aes_secret_hex {
        Some(s) => s,
        None => {
            return Err(ConfigError::MissingAesSecret);
        },
    };
    Ok(
        Config {
            port,
            nim_base: or_default(vars.nim_base, "https://integrate.api.nvidia.com/v1"),
            kucoin_base: or_default(vars.kucoin_base, "https://api.kucoin.com"),
            phemex_ws: or_default(vars.phemex_ws, "wss://vapi.phemex.com/ws"),
            phemex_origin: or_default(vars.phemex_origin, "https://phemex.com"),
            redis_url,
            aes_secret_hex,
            backend_url: or_default(vars.backend_url, "http://localhost:8080"),
        },
    )
}

/// The line that says why the service cannot start.
pub open spec fn fatal_text(e: ConfigError) -> Seq<char> {
    match e {
        ConfigError::MissingRedisUrl => "[FATAL] REDIS_URL is missing!"@,
        ConfigError::MissingAesSecret => "[FATAL] AES_SECRET_HEX is missing!"@,
        ConfigError::InvalidAesSecret => "[FATAL] AES_SECRET_HEX is not valid hex!"@,
    }
}

impl ConfigError {
    /// The line that says why the service cannot start.
    pub fn message(&self) -> (r: String)
        ensures
            r@ == fatal_text(*self),
    {
        match self {
            ConfigError::MissingRedisUrl => "[FATAL] REDIS_URL is missing!".to_owned(),
            ConfigError::MissingAesSecret => "[FATAL] AES_SECRET_HEX is missing!".to_owned(),
            ConfigError::InvalidAesSecret => "[FATAL] AES_SECRET_HEX is not valid hex!".to_owned(),
        }
    }
}

/// `hex::FromHexError`: why a text is no hexadecimal number, opaque here.
#[verifier::external_type_specification]
#[verifier::external_body]
pub struct ExFromHexError(hex::FromHexError);

/// The value of a hexadecimal digit.
pub open spec fn hex_digit(c: char) -> Option<nat> {
    if '0' <= c <= '9' {
        Some((c as int - '0' as int) as nat)
    } else if 'a' <= c <= 'f' {
        Some((c as int - 'a' as int + 10) as nat)
    } else if 'A' <= c <= 'F' {
        Some((c as int - 'A' as int + 10) as nat)
    } else {
        None
    }
}

/// The bytes that a text spells in hexadecimal, two digits each.
pub open spec fn hex_bytes(s: Seq<char>) -> Option<Seq<u8>> {
    if s.len() % 2 == 0 && forall|i: int| 0 <= i < s.len() ==> hex_digit(#[trigger] s[i]) is Some {
        Some(
            Seq::new(
                s.len() / 2,
                |i: int| (hex_digit(s[2 * i])->0 * 16 + hex_digit(s[2 * i + 1])->0) as u8,
            ),
        )
    } else {
        None
    }
}

/// `hex::decode`: the bytes that a text spells in hexadecimal with digits of either case, and an
/// error for an odd number of digits or any other character.
#[verifier::external_body]
fn hex_decode(text: &str) -> (r: Result<Vec<u8>, hex::FromHexError>)
    ensures
        match r {
            Ok(bytes) => hex_bytes(text@) == Some(bytes@),
            Err(_) => hex_bytes(text@) is None,
        },
{
    hex::decode(text)
}

/// Reads the secret key.
pub fn decode_aes_key(aes_secret_hex: &str) -> (r: Result<Vec<u8>, ConfigError>)
    ensures
        match r {
            Ok(key) => hex_bytes(aes_secret_hex@) == Some(key@),
            Err(e) => hex_bytes(aes_secret_hex@) is None && e == ConfigError::InvalidAesSecret,
        },
{
    match hex_decode(aes_secret_hex) {
        Ok(key) => Ok(key),
        Err(_) => Err(ConfigError::InvalidAesSecret),
    }
}

/// Which origins may call the service from a browser.
#[derive(Debug, PartialEq, Eq)]
pub enum CorsPolicy {
    /// Any origin, with any method and header.
    Permissive,
    /// These origins, with these methods and headers.
    Restricted { origins: Vec<String>, methods: Vec<String>, headers: Vec<String> },
}

/// The entries of a list of pieces: without the whitespace around them, and without those that
/// are then empty.
pub open spec fn entries(pieces: Seq<Seq<char>>) -> Seq<Seq<char>>
    decreases pieces.len(),
{
    if pieces.len() == 0 {
        Seq::empty()
    } else {
        let before = entries(pieces.drop_last());
        let last = trim_space(pieces.last());
        if last.len() == 0 {
            before
        } else {
            before.push(last)
        }
    }
}

/// The entries that can be sent as a header value.
pub open spec fn sendable_entries(list: Seq<Seq<char>>) -> Seq<Seq<char>>
    decreases list.len(),
{
    if list.len() == 0 {
        Seq::empty()
    } else {
        let before = sendable_entries(list.drop_last());
        if is_sendable(list.last()) {
            before.push(list.last())
        } else {
            before
        }
    }
}

/// The origins that a comma-separated setting names.
pub open spec fn named_origins(raw: Seq<char>) -> Seq<Seq<char>> {
    entries(split(raw, ','))
}

/// Every origin is allowed where none is named, or where the star is among those that are.
pub open spec fn allows_all(raw: Seq<char>) -> bool {
    named_origins(raw).len() == 0 || named_origins(raw).contains("*"@)
}

/// Reads the allowed origins.
pub fn build_cors(raw: &str) -> (r: CorsPolicy)
    ensures
        match r {
            CorsPolicy::Permissive => allows_all(raw@),
            CorsPolicy::Restricted { origins, methods, headers } => {
                &&& !allows_all(raw@)
                &&& views(origins@) == sendable_entries(named_origins(raw@))
                &&& views(methods@) == seq!["GET"@, "POST"@, "OPTIONS"@]
                &&& views(headers@) == seq!["authorization"@, "content-type"@]
            },
        },
{
    let list = pieces(raw, ',');
    let ghost parts = split(raw@, ',');
    let n: usize = list.len();
    let mut any: bool = false;
    let mut star: bool = false;
    let mut origins: Vec<String> = Vec::new();
    proof {
        reveal_strlit("*");
    }
    assert(views(origins@) =~= Seq::<Seq<char>>::empty());
    for i in 0..n
        invariant
            n == list@.len(),
            list@.len() == parts.len(),
            forall|k: int| 0 <= k < list@.len() ==> (#[trigger] list@[k])@ == parts[k],
            any == (entries(parts.take(i as int)).len() > 0),
            star == entries(parts.take(i as int)).contains("*"@),
            views(origins@) == sendable_entries(entries(parts.take(i as int))),
    {
        let ghost seen = parts.take(i + 1);
        let ghost before = entries(parts.take(i as int));
        assert(seen.drop_last() == parts.take(i as int));
        assert(seen.last() == list@[i as int]@);
        let entry = trimmed(&list[i]);
        if entry.len() > 0 {
            assert(entries(seen) == before.push(entry@));
            assert(before.push(entry@).drop_last() == before);
            proof {
                reveal_strlit("*");
                assert forall|x: Seq<char>| before.push(entry@).contains(x) == (before.contains(x)
                    || x == entry@) by {
                    if before.contains(x) {
                        let k = choose|k: int| 0 <= k < before.len() && before[k] == x;
                        assert(before.push(entry@)[k] == x);
                    }
                    assert(before.push(entry@)[before.len() as int] == entry@);
                }
            }
            any = true;
            if entry.len() == 1 && entry[0] == '*' {
                assert(entry@ =~= "*"@);
                star = true;
            } else {
                assert(entry@ != "*"@);
            }
            if sendable(&entry) {
                let ghost earlier = origins@;
                origins.push(string_of(&entry));
                assert(views(origins@) =~= views(earlier).push(entry@));
            }
        }
    }
    assert(parts.take(n as int) == parts);
    if !any || star {
        return CorsPolicy::Permissive;
    }
    let mut methods: Vec<String> = Vec::new();
    methods.push("GET".to_owned());
    methods.push("POST".to_owned());
    methods.push("OPTIONS".to_owned());
    let mut headers: Vec<String> = Vec::new();
    headers.push("authorization".to_owned());
    headers.push("content-type".to_owned());
    assert(views(methods@) =~= seq!["GET"@, "POST"@, "OPTIONS"@]);
    assert(views(headers@) =~= seq!["authorization"@, "content-type"@]);
    CorsPolicy::Restricted { origins, methods, headers }
}

proof fn entries_are_not_empty(pieces: Seq<Seq<char>>, i: int)
    requires
        0 <= i < entries(pieces).len(),
    ensures
        entries(pieces)[i].len() > 0,
    decreases pieces.len(),
{
    let before = entries(pieces.drop_last());
    if i < before.len() {
        entries_are_not_empty(pieces.drop_last(), i);
    }
}

proof fn sendable_entries_are_entries(list: Seq<Seq<char>>, i: int)
    requires
        0 <= i < sendable_entries(list).len(),
    ensures
        list.contains(sendable_entries(list)[i]),
        is_sendable(sendable_entries(list)[i]),
    decreases list.len(),
{
    let before = sendable_entries(list.drop_last());
    if i < before.len() {
        sendable_entries_are_entries(list.drop_last(), i);
        let k = choose|k: int|
            0 <= k < list.drop_last().len() && list.drop_last()[k] == before[i];
        assert(list[k] == before[i]);
    } else {
        assert(list[list.len() - 1] == list.last());
    }
}

/// Where not every origin is allowed, each allowed one was named, is not empty, can be sent as a
/// header value, and is not the star.
pub proof fn restricted_origins_were_named(raw: Seq<char>, i: int)
    requires
        !allows_all(raw),
        0 <= i < sendable_entries(named_origins(raw)).len(),
    ensures
        ({
            let origin = sendable_entries(named_origins(raw))[i];
            &&& named_origins(raw).contains(origin)
            &&& origin.len() > 0
            &&& is_sendable(origin)
            &&& origin != "*"@
        }),
{
    let list = named_origins(raw);
    sendable_entries_are_entries(list, i);
    let k = choose|k: int| 0 <= k < list.len() && list[k] == sendable_entries(list)[i];
    entries_are_not_empty(split(raw, ','), k);
}

/// An origin that was named and can be sent as a header value is allowed, unless every origin is.
pub proof fn named_origins_are_allowed(raw: Seq<char>, origin: Seq<char>)
    requires
        named_origins(raw).contains(origin),
        is_sendable(origin),
    ensures
        sendable_entries(named_origins(raw)).contains(origin),
{
    entries_are_kept(named_origins(raw), origin);
}

proof fn entries_are_kept(list: Seq<Seq<char>>, origin: Seq<char>)
    requires
        list.contains(origin),
        is_sendable(origin),
    ensures
        sendable_entries(list).contains(origin),
    decreases list.len(),
{
    let before = sendable_entries(list.drop_last());
    if list.last() == origin {
        assert(sendable_entries(list)[before.len() as int] == origin);
    } else {
        let k = choose|k: int| 0 <= k < list.len() && list[k] == origin;
        assert(list.drop_last()[k] == origin);
        entries_are_kept(list.drop_last(), origin);
        let j = choose|j: int| 0 <= j < before.len() && before[j] == origin;
        assert(sendable_entries(list)[j] == origin);
    }
}

/// A setting that is set stands as it is, and its default stands where it is not.
pub proof fn set_value_stands(s: String, default: Seq<char>)
    ensures
        setting(Some(s), default) == s@,
        setting(None, default) == default,
{
}

/// A port that is named is used, whichever it is, and 3000 where none is named or it cannot be
/// read.
pub proof fn named_port_is_used(s: String, p: u16)
    ensures
        s@ == decimal(p as nat) ==> port_setting(Some(s)) == p,
        port_value(s@) is None ==> port_setting(Some(s)) == 3000,
        port_setting(None) == 3000,
{
    port_reads_back(p);
}

proof fn entries_in_parts(a: Seq<Seq<char>>, b: Seq<Seq<char>>)
    ensures
        entries(a + b) == entries(a) + entries(b),
    decreases b.len(),
{
    if b.len() == 0 {
        assert(a + b =~= a);
        assert(entries(a) + entries(b) =~= entries(a));
    } else {
        assert((a + b).drop_last() =~= a + b.drop_last());
        entries_in_parts(a, b.drop_last());
        assert(entries(a + b) =~= entries(a) + entries(b));
    }
}

/// A comma ends one origin and begins the next.
pub proof fn comma_parts_origins(a: Seq<char>, b: Seq<char>)
    ensures
        named_origins(a + seq![','] + b) == named_origins(a) + named_origins(b),
{
    split_at_separator(a, ',', b);
    entries_in_parts(split(a, ','), split(b, ','));
}

/// One origin is named by its text, with or without whitespace around it; a blank names none.
pub proof fn origin_is_named(before: Seq<char>, origin: Seq<char>, after: Seq<char>)
    requires
        forall|i: int| 0 <= i < before.len() ==> is_space(#[trigger] before[i]),
        forall|i: int| 0 <= i < after.len() ==> is_space(#[trigger] after[i]),
        origin.len() > 0 ==> !is_space(origin[0]) && !is_space(origin.last()),
        !origin.contains(','),
    ensures
        named_origins(before + origin + after) == if origin.len() > 0 {
            seq![origin]
        } else {
            Seq::empty()
        },
{
    let s = before + origin + after;
    assert(!s.contains(',')) by {
        whitespace_by_number(',');
        if s.contains(',') {
            let i = choose|i: int| 0 <= i < s.len() && s[i] == ',';
            if i < before.len() {
                assert(is_space(before[i]));
            } else if i < before.len() + origin.len() {
                assert(origin[i - before.len()] == ',');
            } else {
                assert(is_space(after[i - before.len() - origin.len()]));
            }
        }
    }
    split_without_separator(s, ',');
    trim_space_takes_the_ends(before, origin, after);
    assert(seq![s].drop_last() =~= Seq::<Seq<char>>::empty());
    assert(entries(seq![s].drop_last()) =~= Seq::<Seq<char>>::empty());
    assert(named_origins(s) =~= if origin.len() > 0 {
        seq![origin]
    } else {
        Seq::empty()
    });
}

/// Every origin is allowed exactly where no origin is named or one of them is the star.
pub proof fn all_are_allowed_by_star_or_silence(raw: Seq<char>)
    ensures
        named_origins(raw).len() == 0 ==> allows_all(raw),
        named_origins(raw).contains("*"@) ==> allows_all(raw),
        named_origins(raw).len() > 0 && !named_origins(raw).contains("*"@) ==> !allows_all(raw),
{
}

/// Each named origin is kept or left out by itself, in order: kept where it can be sent.
pub proof fn origins_are_kept_one_by_one(list: Seq<Seq<char>>, origin: Seq<char>)
    ensures
        is_sendable(origin) ==> sendable_entries(list.push(origin)) == sendable_entries(list).push(
            origin,
        ),
        !is_sendable(origin) ==> sendable_entries(list.push(origin)) == sendable_entries(list),
        sendable_entries(Seq::empty()) == Seq::<Seq<char>>::empty(),
{
    assert(list.push(origin).drop_last() =~= list);
}

/// The service starts exactly where the store and the secret are set, and then uses each of them,
/// and every other setting that is set, as it is.
pub proof fn set_values_are_used(vars: EnvVars, r: Result<Config, ConfigError>)
    requires
        call_ensures(load_config, (vars,), r),
    ensures
        r is Ok == (vars.redis_url is Some && vars.aes_secret_hex is Some),
        r matches Ok(c) ==> {
            &&& c.redis_url@ == vars.redis_url->0@
            &&& c.aes_secret_hex@ == vars.aes_secret_hex->0@
            &&& vars.nim_base matches Some(s) ==> c.nim_base@ == s@
            &&& vars.kucoin_base matches Some(s) ==> c.kucoin_base@ == s@
            &&& vars.phemex_ws matches Some(s) ==> c.phemex_ws@ == s@
            &&& vars.phemex_origin matches Some(s) ==> c.phemex_origin@ == s@
            &&& vars.backend_url matches Some(s) ==> c.backend_url@ == s@
            &&& vars.port is None ==> c.port == 3000
        },
        r matches Err(e) ==> (e is MissingRedisUrl == vars.redis_url is None),
{
}

/// Where origins are named and the star is not among them, exactly those that can be sent are
/// allowed, and otherwise every origin is.
pub proof fn policy_allows_the_named_origins(
    raw: &str,
    policy: CorsPolicy,
    origin: Seq<char>,
    i: int,
)
    requires
        call_ensures(build_cors, (raw,), policy),
    ensures
        policy is Permissive == (named_origins(raw@).len() == 0 || named_origins(raw@).contains(
            "*"@,
        )),
        policy matches CorsPolicy::Restricted { origins, .. } ==> {
            &&& named_origins(raw@).contains(origin) && is_sendable(origin) ==> views(
                origins@,
            ).contains(origin)
            &&& 0 <= i < origins@.len() ==> named_origins(raw@).contains(origins@[i]@)
        },
{
    if named_origins(raw@).contains(origin) && is_sendable(origin) {
        named_origins_are_allowed(raw@, origin);
    }
    match policy {
        CorsPolicy::Restricted { origins, .. } => {
            if 0 <= i < origins@.len() {
                assert(views(origins@)[i] == origins@[i]@);
                restricted_origins_were_named(raw@, i);
            }
        },
        _ => {},
    }
}

} // verus!
