//! Finding Chrome's debugging endpoint: where Chrome profiles live, what its
//! `DevToolsActivePort` file says, and the URL of its version endpoint.
use vstd::prelude::*;
use crate::text::{chars_of, decimal, find, find_exec, lemma_find_from_bounds, push_decimal, push_str, string_of, trim, trim_string};

verus! {

broadcast use vstd::seq_lib::group_seq_properties;

/// The file Chrome writes its debug port and WebSocket path to, inside each
/// profile directory.
pub open spec fn active_port_file() -> Seq<char> {
    "DevToolsActivePort"@
}

pub fn devtools_active_port() -> (r: &'static str)
    ensures
        r@ == active_port_file(),
{
    "DevToolsActivePort"
}

/// Common Chrome/Chromium profile directories to search, absolute or under
/// the home directory.
pub open spec fn search_paths() -> Seq<Seq<char>> {
    seq![
        "/tmp/.org.chromium.Chromium"@,
        "/tmp/.com.google.Chrome"@,
        "/tmp/chromium-profile"@,
        ".config/google-chrome"@,
        ".config/chromium"@,
        ".config/microsoft-edge"@,
        ".config/BraveSoftware/Brave-Browser"@,
        ".var/app/com.google.Chrome/config/google-chrome"@,
        ".var/app/org.chromium.Chromium/config/chromium"@,
        "snap/chromium/common/chromium"@,
        "snap/google-chrome/common/google-chrome"@,
    ]
}

pub fn chrome_search_paths() -> (r: Vec<&'static str>)
    ensures
        r@.map_values(|s: &str| s@) == search_paths(),
{
    let r = vec![
        "/tmp/.org.chromium.Chromium",
        "/tmp/.com.google.Chrome",
        "/tmp/chromium-profile",
        ".config/google-chrome",
        ".config/chromium",
        ".config/microsoft-edge",
        ".config/BraveSoftware/Brave-Browser",
        ".var/app/com.google.Chrome/config/google-chrome",
        ".var/app/org.chromium.Chromium/config/chromium",
        "snap/chromium/common/chromium",
        "snap/google-chrome/common/google-chrome",
    ];
    assert(r@.map_values(|s: &str| s@) =~= search_paths());
    r
}

/// `home` joined with `path` as a path: an absolute path stands alone, and
/// a separator goes between them unless `home` is empty or ends with one.
pub open spec fn joined_path(home: Seq<char>, path: Seq<char>) -> Seq<char> {
    if path.len() > 0 && path[0] == '/' {
        path
    } else if home.len() == 0 {
        path
    } else if home.last() == '/' {
        home + path
    } else {
        home + seq!['/'] + path
    }
}

/// The directory a search path stands for; `home` defaults to `/root`.
pub open spec fn search_root(home: Option<Seq<char>>, path: Seq<char>) -> Seq<char> {
    joined_path(match home { Some(h) => h, None => "/root"@ }, path)
}

pub fn expand_search_path(home: Option<&str>, path: &str) -> (r: String)
    ensures
        r@ == search_root(match home { Some(h) => Some(h@), None => None }, path@),
{
    match home {
        Some(h) => join_paths(h, path),
        None => join_paths("/root", path),
    }
}

/// `home` joined with `path` (`joined_path`).
pub fn join_paths(h: &str, path: &str) -> (r: String)
    ensures
        r@ == joined_path(h@, path@),
{
    let pc = chars_of(path);
    let hc = chars_of(h);
    if pc.len() > 0 && pc[0] == '/' {
        return String::from_str(path);
    }
    let mut out = String::new();
    push_str(&mut out, h);
    if hc.len() > 0 && hc[hc.len() - 1] != '/' {
        out.push('/');
    }
    push_str(&mut out, path);
    proof {
        if hc@.len() > 0 && hc@.last() == '/' {
            assert(out@ =~= h@ + path@);
        }
        if hc@.len() == 0 {
            assert(out@ =~= path@);
        }
    }
    out
}

/// The first line of a text and what follows it (`None` for an empty text),
/// as `str::lines` reads it.
pub open spec fn first_line(s: Seq<char>) -> Option<(Seq<char>, Seq<char>)> {
    if s.len() == 0 {
        None
    } else {
        match find(s, seq!['\n']) {
            Some(i) => Some((s.take(i), s.skip(i + 1))),
            None => Some((s, Seq::empty())),
        }
    }
}

pub open spec fn is_digit(c: char) -> bool {
    '0' <= c <= '9'
}

pub open spec fn digits_value(s: Seq<char>) -> nat
    decreases s.len(),
{
    if s.len() == 0 {
        0
    } else {
        digits_value(s.drop_last()) * 10 + ((s.last() as u32) - ('0' as u32)) as nat
    }
}

/// What `str::parse::<u16>` gives: an optional `+`, then one or more ASCII
/// digits whose value fits.
pub open spec fn parse_u16(s: Seq<char>) -> Option<u16> {
    let d = unsigned_part(s);
    if d.len() > 0 && all_digits(d) && digits_value(d) <= 65535 {
        Some(digits_value(d) as u16)
    } else {
        None
    }
}

/// The text after an optional leading `+`.
pub open spec fn unsigned_part(s: Seq<char>) -> Seq<char> {
    if s.len() > 0 && s[0] == '+' { s.skip(1) } else { s }
}

pub open spec fn all_digits(d: Seq<char>) -> bool {
    forall|i: int| 0 <= i < d.len() ==> #[trigger] is_digit(d[i])
}

proof fn lemma_digits_grow(s: Seq<char>, k: int)
    requires
        0 <= k <= s.len(),
        forall|i: int| 0 <= i < s.len() ==> #[trigger] is_digit(s[i]),
    ensures
        digits_value(s.take(k)) <= digits_value(s),
    decreases s.len() - k,
{
    if k < s.len() {
        lemma_digits_grow(s, k + 1);
        assert(s.take(k + 1).drop_last() =~= s.take(k));
        assert(is_digit(s[k]));
    } else {
        assert(s.take(k) =~= s);
    }
}

fn parse_u16_exec(s: &str) -> (r: Option<u16>)
    ensures
        r == parse_u16(s@),
{
    let cs = chars_of(s);
    let start: usize = if cs.len() > 0 && cs[0] == '+' { 1 } else { 0 };
    let ghost d = unsigned_part(s@);
    assert(d =~= cs@.skip(start as int));
    if start >= cs.len() {
        return None;
    }
    let mut v: u32 = 0;
    let mut i = start;
    while i < cs.len()
        invariant
            start <= i <= cs.len(),
            start < cs.len(),
            cs@ == s@,
            d == unsigned_part(s@),
            d == cs@.skip(start as int),
            forall|k: int| 0 <= k < i - start ==> #[trigger] is_digit(d[k]),
            v == digits_value(d.take(i - start)),
            v <= 65535,
        decreases cs.len() - i,
    {
        let c = cs[i];
        if !('0' <= c && c <= '9') {
            assert(!is_digit(d[i - start]));
            assert(!all_digits(d));
            assert(parse_u16(s@) is None);
            return None;
        }
        assert(d.take(i - start + 1).drop_last() =~= d.take(i - start));
        assert(d.take(i - start + 1).last() == c);
        let next: u32 = v * 10 + ((c as u32) - ('0' as u32));
        if next > 65535 {
            proof {
                let k = i - start + 1;
                assert(digits_value(d.take(k)) == next);
                if all_digits(d) {
                    lemma_digits_grow(d, k);
                }
                assert(parse_u16(s@) is None);
            }
            return None;
        }
        v = next;
        i = i + 1;
    }
    assert(d.take(i - start) =~= d);
    Some(v as u16)
}

/// What a `DevToolsActivePort` file says: the port on its first line and
/// the WebSocket path on its second, each trimmed.
pub open spec fn active_port_of(contents: Seq<char>) -> Result<(u16, Seq<char>), Seq<char>> {
    match first_line(contents) {
        None => Err("DevToolsActivePort: missing port line"@),
        Some((port_line, rest)) => match first_line(rest) {
            None => Err("DevToolsActivePort: missing WebSocket path line"@),
            Some((path_line, _)) => match parse_u16(trim(port_line)) {
                Some(port) => Ok((port, trim(path_line))),
                None => Err("Invalid port number: '"@ + trim(port_line) + "'"@),
            },
        },
    }
}

fn first_line_exec(cs: &Vec<char>, from: usize) -> (r: Option<(usize, usize)>)
    requires
        from <= cs.len(),
    ensures
        match first_line(cs@.skip(from as int)) {
            None => r is None,
            Some((line, rest)) => r matches Some((e, next)) && from <= e <= next <= cs.len()
                && line == cs@.subrange(from as int, e as int) && rest == cs@.skip(next as int),
        },
{
    let ghost s = cs@.skip(from as int);
    if from == cs.len() {
        return None;
    }
    let nl = vec!['\n'];
    assert(nl@ =~= seq!['\n']);
    proof {
        crate::text::lemma_find_from_bounds(cs@, nl@, from as int);
        crate::text::lemma_find_in_suffix(cs@, nl@, from as int);
    }
    match find_exec(cs, &nl, from) {
        Some(i) => {
            assert(s.take(i - from) =~= cs@.subrange(from as int, i as int));
            assert(s.skip(i - from + 1) =~= cs@.skip(i + 1));
            Some((i, i + 1))
        },
        None => {
            assert(s =~= cs@.subrange(from as int, cs.len() as int));
            assert(Seq::<char>::empty() =~= cs@.skip(cs.len() as int));
            Some((cs.len(), cs.len()))
        },
    }
}

/// Read the DevToolsActivePort file's contents and extract the debug port
/// and WebSocket path.
pub fn parse_devtools_active_port(contents: &str) -> (r: Result<(u16, String), String>)
    ensures
        match active_port_of(contents@) {
            Ok((port, path)) => r matches Ok((p, w)) && p == port && w@ == path,
            Err(msg) => r matches Err(m) && m@ == msg,
        },
{
    let cs = chars_of(contents);
    assert(cs@.skip(0) =~= contents@);
    let (e1, n1) = match first_line_exec(&cs, 0) {
        None => return Err(String::from_str("DevToolsActivePort: missing port line")),
        Some(p) => p,
    };
    let (e2, _n2) = match first_line_exec(&cs, n1) {
        None => return Err(String::from_str("DevToolsActivePort: missing WebSocket path line")),
        Some(p) => p,
    };
    let port_str = trim_string(&cs, 0, e1);
    let ws_path = trim_string(&cs, n1, e2);
    match parse_u16_exec(port_str.as_str()) {
        Some(port) => Ok((port, ws_path)),
        None => {
            let mut m = String::new();
            push_str(&mut m, "Invalid port number: '");
            push_str(&mut m, port_str.as_str());
            push_str(&mut m, "'");
            Err(m)
        },
    }
}

/// The URL of Chrome's version endpoint on a debug port.
pub open spec fn version_url_of(port: u16) -> Seq<char> {
    "http://127.0.0.1:"@ + decimal(port as nat) + "/json/version"@
}

pub fn version_url(port: u16) -> (r: String)
    ensures
        r@ == version_url_of(port),
{
    let mut out = String::new();
    push_str(&mut out, "http://127.0.0.1:");
    push_decimal(&mut out, port as u64);
    push_str(&mut out, "/json/version");
    out
}

} // verus!
