//! Startup settings: a flat list of keys, each followed by its value.
use vstd::prelude::*;

verus! {

/// Why the startup arguments could not be read.
#[derive(Debug, Clone, PartialEq)]
pub enum ConfigError {
    /// The last key has no value after it.
    MissingValue(String),
}

impl ConfigError {
    pub fn message(&self) -> (r: String)
        ensures
            self matches ConfigError::MissingValue(k) ==> r@ == "missing value for key `"@ + k@
                + "`"@,
    {
        match self {
            ConfigError::MissingValue(k) => {
                let head = String::from_str("missing value for key `");
                let with_key = head.concat(k.as_str());
                with_key.concat("`")
            },
        }
    }
}

pub open spec fn args_view(args: Seq<String>) -> Seq<Seq<char>> {
    args.map_values(|a: String| a@)
}

pub open spec fn pairs_view(p: Seq<(String, String)>) -> Seq<(Seq<char>, Seq<char>)> {
    p.map_values(|x: (String, String)| (x.0@, x.1@))
}

/// Each key at an even position together with the value after it.
pub open spec fn pairs_of(args: Seq<Seq<char>>) -> Seq<(Seq<char>, Seq<char>)> {
    Seq::new(args.len() / 2, |i: int| (args[2 * i], args[2 * i + 1]))
}

/// The value of the last pair with this key.
pub open spec fn lookup(p: Seq<(Seq<char>, Seq<char>)>, key: Seq<char>) -> Option<Seq<char>>
    decreases p.len(),
{
    if p.len() == 0 {
        None
    } else if p.last().0 == key {
        Some(p.last().1)
    } else {
        lookup(p.drop_last(), key)
    }
}

pub open spec fn or_default(v: Option<Seq<char>>, d: Seq<char>) -> Seq<char> {
    match v {
        Some(s) => s,
        None => d,
    }
}

/// `host:port`, from `reapi_host` (default `127.0.0.1`) and `reapi_port`
/// (default `9098`).
pub open spec fn listen_text(p: Seq<(Seq<char>, Seq<char>)>) -> Seq<char> {
    or_default(lookup(p, "reapi_host"@), "127.0.0.1"@) + ":"@ + or_default(
        lookup(p, "reapi_port"@),
        "9098"@,
    )
}

/// Pairs each key with the value that follows it, in order. A key with no
/// value after it is an error.
pub fn parse_args(args: Vec<String>) -> (r: Result<Vec<(String, String)>, ConfigError>)
    ensures
        args@.len() % 2 == 0 <==> r is Ok,
        r matches Ok(p) ==> pairs_view(p@) == pairs_of(args_view(args@)),
        r matches Err(ConfigError::MissingValue(k)) ==> k@ == args@[args@.len() - 1]@,
{
    let mut out: Vec<(String, String)> = Vec::new();
    let mut i: usize = 0;
    while i < args.len()
        invariant
            i <= args@.len(),
            i % 2 == 0,
            out@.len() == i / 2,
            forall|j: int|
                0 <= j < i / 2 ==> #[trigger] out@[j].0@ == args@[2 * j]@ && out@[j].1@ == args@[2
                    * j + 1]@,
        decreases args@.len() - i,
    {
        if i + 1 >= args.len() {
            return Err(ConfigError::MissingValue(args[i].clone()));
        }
        let key = args[i].clone();
        let value = args[i + 1].clone();
        out.push((key, value));
        i = i + 2;
    }
    assert(pairs_view(out@) =~= pairs_of(args_view(args@)));
    Ok(out)
}

/// The value of the last pair whose key is `key`.
pub fn config_value(pairs: &Vec<(String, String)>, key: &str) -> (r: Option<String>)
    ensures
        match r {
            Some(v) => lookup(pairs_view(pairs@), key@) == Some(v@),
            None => lookup(pairs_view(pairs@), key@) is None,
        },
{
    let wanted = String::from_str(key);
    let ghost pv = pairs_view(pairs@);
    let mut i: usize = pairs.len();
    assert(pv.subrange(0, i as int) =~= pv);
    while i > 0
        invariant
            i <= pairs@.len(),
            pv == pairs_view(pairs@),
            wanted@ == key@,
            lookup(pv, key@) == lookup(pv.subrange(0, i as int), key@),
        decreases i,
    {
        let ghost pre = pv.subrange(0, i as int);
        assert(pre.drop_last() =~= pv.subrange(0, i - 1));
        if pairs[i - 1].0 == wanted {
            return Some(pairs[i - 1].1.clone());
        }
        i = i - 1;
    }
    None
}

/// The address to listen on, `host:port`, with the defaults filled in.
pub fn listen_address(pairs: &Vec<(String, String)>) -> (r: String)
    ensures
        r@ == listen_text(pairs_view(pairs@)),
{
    let host = match config_value(pairs, "reapi_host") {
        Some(h) => h,
        None => String::from_str("127.0.0.1"),
    };
    let port = match config_value(pairs, "reapi_port") {
        Some(p) => p,
        None => String::from_str("9098"),
    };
    let with_colon = host.concat(":");
    with_colon.concat(port.as_str())
}

} // verus!
