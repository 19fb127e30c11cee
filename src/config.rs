//! Worker configuration, built from the raw values of its settings.

use vstd::prelude::*;
use vstd::utf8::encode_utf8;

verus! {

/// Value of the ASCII decimal digits `d` (most significant first).
pub open spec fn digits_value(d: Seq<u8>) -> int
    decreases d.len(),
{
    if d.len() == 0 {
        0
    } else {
        digits_value(d.drop_last()) * 10 + (d.last() - 48)
    }
}

pub open spec fn all_digits(d: Seq<u8>) -> bool {
    forall|i: int| 0 <= i < d.len() ==> 48 <= #[trigger] d[i] <= 57
}

/// The digits of a decimal numeral: what follows an optional leading `+`.
pub open spec fn numeral_digits(b: Seq<u8>) -> Seq<u8> {
    if b.len() > 0 && b[0] == 43 {
        b.subrange(1, b.len() as int)
    } else {
        b
    }
}

/// The unsigned integer that `b` writes in decimal, if it fits in 64 bits:
/// an optional `+` and at least one digit, nothing else.
pub open spec fn decimal_u64(b: Seq<u8>) -> Option<u64> {
    let d = numeral_digits(b);
    if d.len() > 0 && all_digits(d) && digits_value(d) <= u64::MAX {
        Some(digits_value(d) as u64)
    } else {
        None
    }
}

proof fn lemma_digits_value_monotone(d: Seq<u8>, n: int)
    requires
        all_digits(d),
        0 <= n <= d.len(),
    ensures
        0 <= digits_value(d.subrange(0, n)) <= digits_value(d),
    decreases d.len() - n,
{
    if n < d.len() {
        lemma_digits_value_monotone(d, n + 1);
        assert(d.subrange(0, n + 1).drop_last() =~= d.subrange(0, n));
        lemma_digits_value_nonneg(d.subrange(0, n));
    } else {
        assert(d.subrange(0, n) =~= d);
        lemma_digits_value_nonneg(d);
    }
}

proof fn lemma_digits_value_nonneg(d: Seq<u8>)
    requires
        all_digits(d),
    ensures
        digits_value(d) >= 0,
    decreases d.len(),
{
    if d.len() > 0 {
        assert(all_digits(d.drop_last()));
        lemma_digits_value_nonneg(d.drop_last());
    }
}

/// Reads an unsigned decimal numeral, as the standard library's integer
/// parsing does: an optional `+`, then one or more digits, within 64 bits.
pub fn parse_decimal_u64(b: &[u8]) -> (r: Option<u64>)
    ensures
        r == decimal_u64(b@),
{
    let n = b.len();
    let mut i: usize = 0;
    if n > 0 && b[0] == 43 {
        i = 1;
    }
    let start = i;
    let ghost d = numeral_digits(b@);
    assert(d =~= b@.subrange(start as int, n as int));
    if start == n {
        return None;
    }
    let mut v: u64 = 0;
    while i < n
        invariant
            start <= i <= n,
            n == b@.len(),
            d =~= b@.subrange(start as int, n as int),
            d == numeral_digits(b@),
            all_digits(d.subrange(0, i - start)),
            v == digits_value(d.subrange(0, i - start)),
        decreases n - i,
    {
        let c = b[i];
        let ghost p = d.subrange(0, i - start + 1);
        assert(p.drop_last() =~= d.subrange(0, i - start));
        assert(d[i - start] == c);
        if c < 48 || c > 57 {
            assert(!all_digits(d));
            return None;
        }
        assert(all_digits(p));
        if v > (u64::MAX - (c - 48) as u64) / 10 {
            proof {
                assert(digits_value(p) > u64::MAX);
                if all_digits(d) {
                    lemma_digits_value_monotone(d, i - start + 1);
                }
            }
            return None;
        }
        v = v * 10 + (c - 48) as u64;
        i = i + 1;
    }
    assert(d.subrange(0, n - start) =~= d);
    Some(v)
}


/// The character views of a list of strings.
pub open spec fn views(v: Seq<String>) -> Seq<Seq<char>> {
    v.map_values(|x: String| x@)
}

/// `s[a..b]` lies between two commas of `s`, or an end of it.
pub open spec fn is_segment_at(s: Seq<char>, a: int, b: int) -> bool {
    &&& 0 <= a <= b <= s.len()
    &&& (a == 0 || s[a - 1] == ',')
    &&& (b == s.len() || s[b] == ',')
    &&& forall|k: int| a <= k < b ==> s[k] != ','
}

/// `t` is a topic named in the comma-separated list `s`: a non-empty
/// segment of it.
pub open spec fn is_topic_of(s: Seq<char>, t: Seq<char>) -> bool {
    &&& t.len() > 0
    &&& exists|a: int, b: int| is_segment_at(s, a, b) && s.subrange(a, b) == t
}

/// The topic every worker listens on.
pub open spec fn catch_all_topic() -> Seq<char> {
    "all"@
}

pub open spec fn no_duplicates(v: Seq<Seq<char>>) -> bool {
    forall|i: int, j: int| 0 <= i < j < v.len() ==> v[i] != v[j]
}

/// `r` holds, once each, every topic named in `raw` and the catch-all topic,
/// and nothing else.
pub open spec fn effective_topics_of(raw: Seq<char>, r: Seq<Seq<char>>) -> bool {
    &&& no_duplicates(r)
    &&& r.contains(catch_all_topic())
    &&& forall|t: Seq<char>| is_topic_of(raw, t) ==> r.contains(t)
    &&& forall|i: int| 0 <= i < r.len() ==> r[i] == catch_all_topic() || is_topic_of(raw, r[i])
}

/// Whether `v` holds a string equal to `t`.
pub(crate) fn contains_str(v: &Vec<String>, t: &str) -> (r: bool)
    ensures
        r == views(v@).contains(t@),
{
    let mut i: usize = 0;
    while i < v.len()
        invariant
            0 <= i <= v@.len(),
            forall|k: int| 0 <= k < i ==> v@[k]@ != t@,
        decreases v@.len() - i,
    {
        if crate::broker::str_equal(v[i].as_str(), t) {
            assert(views(v@)[i as int] == t@);
            return true;
        }
        i = i + 1;
    }
    assert forall|k: int| 0 <= k < views(v@).len() implies views(v@)[k] != t@ by {
        assert(views(v@)[k] == v@[k]@);
    }
    false
}

/// Appends `t` unless it is empty or present already.
fn add_topic(v: &mut Vec<String>, t: &str)
    requires
        no_duplicates(views(old(v)@)),
    ensures
        no_duplicates(views(final(v)@)),
        if t@.len() == 0 || views(old(v)@).contains(t@) {
            views(final(v)@) == views(old(v)@)
        } else {
            views(final(v)@) == views(old(v)@).push(t@)
        },
{
    if t.unicode_len() == 0 || contains_str(v, t) {
        return;
    }
    v.push(String::from_str(t));
    assert(views(v@) =~= views(old(v)@).push(t@));
}

/// Topics a worker subscribes to, from the comma-separated setting `raw`:
/// each non-empty name once, and `all`.
pub fn effective_topics(raw: &str) -> (r: Vec<String>)
    ensures
        effective_topics_of(raw@, views(r@)),
{
    let ghost s = raw@;
    let n = raw.unicode_len();
    let mut r: Vec<String> = Vec::new();
    let mut start: usize = 0;
    let mut i: usize = 0;
    assert(views(r@) =~= Seq::<Seq<char>>::empty());
    while i < n
        invariant
            s == raw@,
            n == s.len(),
            0 <= start <= i <= n,
            start == 0 || s[start - 1] == ',',
            forall|k: int| start <= k < i ==> s[k] != ',',
            no_duplicates(views(r@)),
            forall|k: int| 0 <= k < views(r@).len() ==> is_topic_of(s, #[trigger] views(r@)[k]),
            forall|a: int, b: int|
                is_segment_at(s, a, b) && b < start && a < b ==> views(r@).contains(
                    s.subrange(a, b),
                ),
        decreases n - i,
    {
        if raw.get_char(i) == ',' {
            let seg = raw.substring_char(start, i);
            proof {
                assert(is_segment_at(s, start as int, i as int));
            }
            let ghost before = views(r@);
            add_topic(&mut r, seg);
            proof {
                assert forall|k: int| 0 <= k < views(r@).len() implies is_topic_of(
                    s,
                    #[trigger] views(r@)[k],
                ) by {
                    if k < before.len() {
                        assert(views(r@)[k] == before[k]);
                    }
                }
                assert forall|a: int, b: int|
                    is_segment_at(s, a, b) && b < i + 1 && a < b implies views(r@).contains(
                    s.subrange(a, b),
                ) by {
                    if b < start {
                        let k = choose|k: int| 0 <= k < before.len() && before[k] == s.subrange(a, b);
                        assert(views(r@)[k] == before[k]);
                    } else {
                        if a < start {
                            assert(s[start - 1] == ',');
                        }
                        if a > start {
                            assert(s[a - 1] == ',');
                        }
                        assert(a == start);
                        assert(b == i);
                        assert(seg@ == s.subrange(a, b));
                        assert(seg@.len() > 0);
                        if before.contains(seg@) {
                            let k = choose|k: int| 0 <= k < before.len() && before[k] == seg@;
                            assert(views(r@)[k] == before[k]);
                        } else {
                            assert(views(r@)[before.len() as int] == seg@);
                        }
                    }
                }
            }
            start = i + 1;
        }
        i = i + 1;
    }
    let seg = raw.substring_char(start, n);
    let ghost before = views(r@);
    proof {
        assert(is_segment_at(s, start as int, n as int));
    }
    add_topic(&mut r, seg);
    proof {
        assert forall|k: int| 0 <= k < views(r@).len() implies is_topic_of(
            s,
            #[trigger] views(r@)[k],
        ) by {
            if k < before.len() {
                assert(views(r@)[k] == before[k]);
            }
        }
        assert forall|t: Seq<char>| is_topic_of(s, t) implies views(r@).contains(t) by {
            let (a, b) = choose|a: int, b: int| is_segment_at(s, a, b) && s.subrange(a, b) == t;
            if b < start {
                let k = choose|k: int| 0 <= k < before.len() && before[k] == s.subrange(a, b);
                assert(views(r@)[k] == before[k]);
            } else {
                if a < start {
                    assert(s[start - 1] == ',');
                }
                if a > start {
                    assert(s[a - 1] == ',');
                }
                if b < n {
                    assert(s[b] == ',');
                }
                assert(a == start && b == n);
                if before.contains(seg@) {
                    let k = choose|k: int| 0 <= k < before.len() && before[k] == seg@;
                    assert(views(r@)[k] == before[k]);
                } else {
                    assert(views(r@)[before.len() as int] == seg@);
                }
            }
        }
    }
    let ghost named = views(r@);
    let all = "all";
    proof {
        reveal_strlit("all");
    }
    add_topic(&mut r, all);
    proof {
        assert(all@ == catch_all_topic());
        if named.contains(all@) {
            assert(views(r@) == named);
        } else {
            assert(views(r@)[named.len() as int] == all@);
            assert forall|t: Seq<char>| is_topic_of(s, t) implies views(r@).contains(t) by {
                let k = choose|k: int| 0 <= k < named.len() && named[k] == t;
                assert(views(r@)[k] == named[k]);
            }
            assert forall|k: int| 0 <= k < views(r@).len() implies views(r@)[k]
                == catch_all_topic() || is_topic_of(s, views(r@)[k]) by {
                if k < named.len() {
                    assert(views(r@)[k] == named[k]);
                }
            }
        }
    }
    r
}


/// Seconds between heartbeats when the setting is absent.
pub const DEFAULT_HEARTBEAT_INTERVAL_SEC: u64 = 5;

/// Settings of one worker process, fixed at start-up.
pub struct Config {
    pub worker_name: String,
    pub worker_topics: Vec<String>,
    pub log_level: String,
    pub heartbeat_interval_sec: u64,
}

/// Why a worker cannot start with the settings it was given.
#[derive(Clone, Copy, PartialEq, Eq, Structural, Debug)]
pub enum ConfigError {
    MissingWorkerName,
    InvalidHeartbeatInterval,
}

impl ConfigError {
    pub fn message(&self) -> (r: String)
        ensures
            *self == ConfigError::MissingWorkerName ==> r@ == "WORKER_NAME is not set"@,
            *self == ConfigError::InvalidHeartbeatInterval ==> r@ == "Invalid HEARTBEAT_INTERVAL value"@,
    {
        match self {
            ConfigError::MissingWorkerName => String::from_str("WORKER_NAME is not set"),
            ConfigError::InvalidHeartbeatInterval => String::from_str("Invalid HEARTBEAT_INTERVAL value"),
        }
    }
}

impl Config {
    /// Builds the configuration from the raw settings, `None` where one is
    /// not set: the worker name is required; topics default to `all`; the
    /// heartbeat interval defaults to five seconds and must otherwise be a
    /// decimal number; the log level defaults to `info`.
    pub fn from_values(
        worker_name: Option<String>,
        worker_topics: Option<String>,
        heartbeat_interval_sec: Option<String>,
        log_level: Option<String>,
    ) -> (r: Result<Config, ConfigError>)
        ensures
            worker_name is None ==> r == Err::<Config, _>(ConfigError::MissingWorkerName),
            worker_name is Some ==> (heartbeat_interval_sec matches Some(h) && decimal_u64(
                encode_utf8(h@),
            ) is None <==> r == Err::<Config, _>(ConfigError::InvalidHeartbeatInterval)),
            worker_name is Some && (heartbeat_interval_sec matches Some(h) ==> decimal_u64(
                encode_utf8(h@),
            ) is Some) ==> r is Ok,
            r matches Ok(c) ==> {
                &&& worker_name == Some(c.worker_name)
                &&& effective_topics_of(
                    match worker_topics {
                        Some(t) => t@,
                        None => catch_all_topic(),
                    },
                    views(c.worker_topics@),
                )
                &&& c.heartbeat_interval_sec == match heartbeat_interval_sec {
                    Some(h) => decimal_u64(encode_utf8(h@)).unwrap(),
                    None => DEFAULT_HEARTBEAT_INTERVAL_SEC,
                }
                &&& c.log_level@ == match log_level {
                    Some(l) => l@,
                    None => "info"@,
                }
            },
    {
        let topics = match worker_topics {
            Some(t) => effective_topics(t.as_str()),
            None => {
                proof {
                    reveal_strlit("all");
                }
                effective_topics("all")
            },
        };
        let name = match worker_name {
            Some(n) => n,
            None => return Err(ConfigError::MissingWorkerName),
        };
        let heartbeat = match heartbeat_interval_sec {
            Some(h) => match parse_decimal_u64(h.as_str().as_bytes()) {
                Some(v) => v,
                None => return Err(ConfigError::InvalidHeartbeatInterval),
            },
            None => DEFAULT_HEARTBEAT_INTERVAL_SEC,
        };
        let level = match log_level {
            Some(l) => l,
            None => String::from_str("info"),
        };
        Ok(Config {
            worker_name: name,
            worker_topics: topics,
            log_level: level,
            heartbeat_interval_sec: heartbeat,
        })
    }
}

} // verus!
