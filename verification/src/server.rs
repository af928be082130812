//! The server's decisions: what a sample upload must contain, how its raw
//! PCM bytes decode, and how startup configuration resolves from the
//! environment's raw values.
use vstd::prelude::*;
use vstd::string::*;

use std::path::PathBuf;

use crate::paths::{joined_path, path_from, path_join, path_of};
use crate::text::{decimal, push_decimal};

verus! {

/// The handler-facing error: malformed client input, or a failure of the
/// archive write itself.
#[derive(Debug, Clone, PartialEq)]
pub enum AppError {
    /// Bad request body: a missing part, malformed metadata, or PCM bytes
    /// that are not a whole number of 32-bit samples.
    BadRequest(String),
    /// The archive write failed.
    Internal(String),
}

/// The little-endian 32-bit word at word index `i` of `bytes`.
pub open spec fn le_word(bytes: Seq<u8>, i: int) -> int {
    bytes[4 * i] + 256 * bytes[4 * i + 1] + 65536 * bytes[4 * i + 2] + 16777216 * bytes[4 * i + 3]
}

/// `'pcm' byte length <n> is not a multiple of 4 (expected little-endian f32 samples)`.
pub open spec fn pcm_length_message(n: nat) -> Seq<char> {
    "'pcm' byte length "@ + decimal(n) + " is not a multiple of 4 (expected little-endian f32 samples)"@
}

/// The raw PCM part as little-endian 32-bit words (the bit patterns of
/// `f32` samples); refused when its length is not a multiple of four.
pub fn decode_pcm_words(bytes: &[u8]) -> (r: Result<Vec<u32>, AppError>)
    ensures
        bytes@.len() % 4 != 0 <==> r is Err,
        r matches Err(AppError::BadRequest(m)) ==> m@ == pcm_length_message(bytes@.len()),
        r matches Ok(words) ==> words@.len() == bytes@.len() / 4 && forall|i: int|
            0 <= i < words@.len() ==> #[trigger] words@[i] as int == le_word(bytes@, i),
        !(r matches Err(AppError::Internal(_))),
{
    let n = bytes.len();
    if n % 4 != 0 {
        proof {
            reveal_strlit("'pcm' byte length ");
            reveal_strlit(" is not a multiple of 4 (expected little-endian f32 samples)");
        }
        let mut m = String::from_str("'pcm' byte length ");
        push_decimal(&mut m, n as u64);
        m.append(" is not a multiple of 4 (expected little-endian f32 samples)");
        return Err(AppError::BadRequest(m));
    }
    let count = n / 4;
    let mut words: Vec<u32> = Vec::new();
    let mut i: usize = 0;
    while i < count
        invariant
            n == bytes@.len(),
            count == n / 4,
            0 <= i <= count,
            words@.len() == i,
            forall|j: int| 0 <= j < i ==> #[trigger] words@[j] as int == le_word(bytes@, j),
        decreases count - i,
    {
        let b0 = bytes[4 * i] as u32;
        let b1 = bytes[4 * i + 1] as u32;
        let b2 = bytes[4 * i + 2] as u32;
        let b3 = bytes[4 * i + 3] as u32;
        let w = b0 + 256 * b1 + 65536 * b2 + 16777216 * b3;
        words.push(w);
        i = i + 1;
    }
    Ok(words)
}

/// The upload once every part is in hand: the metadata and the PCM words,
/// or the first thing wrong with it.
pub open spec fn upload_ok<M>(meta: Option<M>, pcm: Option<Seq<u8>>) -> bool {
    meta is Some && pcm is Some && pcm.unwrap().len() % 4 == 0
}

/// Checks a decoded upload: the metadata part must be there, then the PCM
/// part, then the PCM must be whole samples. Reports the first failure.
pub fn upload_parts<M>(meta: Option<M>, pcm: Option<Vec<u8>>) -> (r: Result<(M, Vec<u32>), AppError>)
    ensures
        r is Ok <==> upload_ok(meta, match pcm {
            Some(p) => Some(p@),
            None => None,
        }),
        meta is None ==> (r matches Err(AppError::BadRequest(m)) && m@ == "missing 'meta' part"@),
        meta is Some && pcm is None ==> (r matches Err(AppError::BadRequest(m)) && m@
            == "missing 'pcm' part"@),
        (meta is Some && pcm is Some && pcm.unwrap()@.len() % 4 != 0) ==> (r matches Err(
            AppError::BadRequest(m),
        ) && m@ == pcm_length_message(pcm.unwrap()@.len())),
        r matches Ok((mt, words)) ==> meta == Some(mt) && words@.len() == pcm.unwrap()@.len() / 4
            && forall|i: int|
            0 <= i < words@.len() ==> #[trigger] words@[i] as int == le_word(pcm.unwrap()@, i),
{
    let meta = match meta {
        Some(m) => m,
        None => return Err(AppError::BadRequest(String::from_str("missing 'meta' part"))),
    };
    let pcm = match pcm {
        Some(p) => p,
        None => return Err(AppError::BadRequest(String::from_str("missing 'pcm' part"))),
    };
    match decode_pcm_words(pcm.as_slice()) {
        Ok(words) => Ok((meta, words)),
        Err(e) => Err(e),
    }
}

/// Where the data root lives unless `MT_DATA_ROOT` says otherwise.
pub const DEFAULT_DATA_ROOT: &'static str = "~/Dropbox/Music/2026-08-19-music-practice";

/// The port unless `MT_PORT` says otherwise.
pub const DEFAULT_PORT: u16 = 4826;

/// Where the built web bundle lands unless `MT_STATIC_DIR` says otherwise,
/// relative to the workspace root.
pub const DEFAULT_STATIC_DIR: &'static str = "target/dx/mt-app-web/debug/web/public";

/// `path` with a leading `~` or `~/` expanded against `home`, when there is
/// a home to expand against; any other path as it is.
pub open spec fn tilde_expansion(path: Seq<char>, home: Option<Seq<char>>) -> PathBuf {
    if path.len() >= 2 && path[0] == '~' && path[1] == '/' && home is Some {
        joined_path(home.unwrap(), path.skip(2))
    } else if path == seq!['~'] && home is Some {
        path_of(home.unwrap())
    } else {
        path_of(path)
    }
}

/// The string views of an optional string.
pub open spec fn opt_view(s: Option<String>) -> Option<Seq<char>> {
    match s {
        Some(v) => Some(v@),
        None => None,
    }
}

/// Expands a leading `~` or `~/...` against `home` (the `HOME` variable, when
/// set). Relative and absolute paths pass through unchanged.
pub fn expand_tilde(path: &str, home: Option<&str>) -> (r: PathBuf)
    ensures
        r == tilde_expansion(path@, match home {
            Some(h) => Some(h@),
            None => None,
        }),
{
    let n = path.unicode_len();
    if n >= 2 && path.get_char(0) == '~' && path.get_char(1) == '/' {
        if let Some(h) = home {
            let rest = path.substring_char(2, n);
            proof {
                assert(rest@ =~= path@.skip(2));
            }
            return path_join(h, rest);
        }
    } else if n == 1 && path.get_char(0) == '~' {
        if let Some(h) = home {
            proof {
                assert(path@ =~= seq!['~']);
            }
            return path_from(h);
        }
    }
    proof {
        if path@ == seq!['~'] {
            assert(path@[0] == '~');
        }
    }
    path_from(path)
}

/// Decimal digit characters.
pub open spec fn is_digit(c: char) -> bool {
    '0' <= c <= '9'
}

/// The value of a string of decimal digits.
pub open spec fn digits_value(s: Seq<char>) -> int
    decreases s.len(),
{
    if s.len() == 0 {
        0
    } else {
        10 * digits_value(s.drop_last()) + (s.last() as int - '0' as int)
    }
}

/// What `str::parse::<u16>` accepts: an optional `+`, then one or more ASCII
/// digits whose value fits in 16 bits.
pub open spec fn u16_of(s: Seq<char>) -> Option<u16> {
    if all_digits(unsigned_body(s)) && digits_value(unsigned_body(s)) <= 65535 {
        Some(digits_value(unsigned_body(s)) as u16)
    } else {
        None
    }
}

/// The digits of an unsigned numeral: everything after an optional `+`.
pub open spec fn unsigned_body(s: Seq<char>) -> Seq<char> {
    if s.len() > 0 && s[0] == '+' {
        s.skip(1)
    } else {
        s
    }
}

/// One or more decimal digits and nothing else.
pub open spec fn all_digits(s: Seq<char>) -> bool {
    s.len() > 0 && forall|i: int| 0 <= i < s.len() ==> is_digit(#[trigger] s[i])
}

/// A longer digit string never has a smaller value than its prefix.
proof fn lemma_digits_grow(s: Seq<char>, k: int)
    requires
        0 <= k <= s.len(),
        forall|i: int| 0 <= i < s.len() ==> is_digit(#[trigger] s[i]),
    ensures
        digits_value(s.take(k)) <= digits_value(s),
        0 <= digits_value(s.take(k)),
    decreases s.len(),
{
    if k == s.len() {
        assert(s.take(k) =~= s);
        if s.len() > 0 {
            lemma_digits_grow(s.drop_last(), k - 1);
        }
    } else {
        lemma_digits_grow(s.drop_last(), k);
        assert(s.drop_last().take(k) =~= s.take(k));
        let l = s.len() - 1;
        assert(is_digit(s[l]));
        assert(s.last() == s[l]);
    }
}

/// Parses a port number as `str::parse::<u16>` does.
pub fn parse_port(s: &str) -> (r: Option<u16>)
    ensures
        r == u16_of(s@),
{
    let n = s.unicode_len();
    let start: usize = if n > 0 && s.get_char(0) == '+' {
        1
    } else {
        0
    };
    let ghost body = s@.skip(start as int);
    proof {
        assert(s@.skip(0) =~= s@);
        assert(body == (if s@.len() > 0 && s@[0] == '+' {
            s@.skip(1)
        } else {
            s@
        }));
    }
    if start >= n {
        return None;
    }
    let mut value: u32 = 0;
    let mut i: usize = start;
    while i < n
        invariant
            n == s@.len(),
            start <= i <= n,
            body == s@.skip(start as int),
            body == (if s@.len() > 0 && s@[0] == '+' {
                s@.skip(1)
            } else {
                s@
            }),
            forall|j: int| 0 <= j < i - start ==> is_digit(#[trigger] body[j]),
            value as int == digits_value(body.take(i - start)),
            value <= 65535,
        decreases n - i,
    {
        let c = s.get_char(i);
        if !('0' <= c && c <= '9') {
            proof {
                assert(body[i - start] == c);
                assert(!is_digit(body[i - start]));
                assert(!(forall|j: int| 0 <= j < body.len() ==> is_digit(#[trigger] body[j])));
                assert(!all_digits(body));
            }
            return None;
        }
        let d = (c as u32) - ('0' as u32);
        proof {
            assert(body.take(i - start + 1).drop_last() =~= body.take(i - start));
            assert(body.take(i - start + 1).last() == c);
        }
        let next = value * 10 + d;
        if next > 65535 {
            proof {
                assert forall|j: int| 0 <= j < i - start + 1 implies is_digit(
                    #[trigger] body.take(i - start + 1)[j],
                ) by {
                    if j == i - start {
                        assert(body.take(i - start + 1)[j] == c);
                    }
                }
                if all_digits(body) {
                    lemma_digits_grow(body, i - start + 1);
                    assert(digits_value(body.take(i - start + 1)) == next);
                    assert(digits_value(body) > 65535);
                }
            }
            return None;
        }
        value = next;
        i = i + 1;
    }
    proof {
        assert(body.take(n - start) =~= body);
    }
    Some(value as u16)
}

/// Resolved server configuration.
#[derive(Debug)]
pub struct Config {
    pub data_root: PathBuf,
    pub port: u16,
    pub static_dir: PathBuf,
}

impl Config {
    /// Resolves the configuration from the raw values of `MT_DATA_ROOT`,
    /// `MT_PORT`, `MT_STATIC_DIR` and `HOME` (each `None` when unset or not
    /// unicode): defaults fill what is unset, an unparseable port falls back
    /// to the default, and `~`-prefixed paths expand against the home.
    pub fn from_values(
        data_root: Option<String>,
        port: Option<String>,
        static_dir: Option<String>,
        home: Option<String>,
    ) -> (r: Config)
        ensures
            r.data_root == tilde_expansion(
                match data_root {
                    Some(d) => d@,
                    None => DEFAULT_DATA_ROOT@,
                },
                opt_view(home),
            ),
            r.static_dir == tilde_expansion(
                match static_dir {
                    Some(d) => d@,
                    None => DEFAULT_STATIC_DIR@,
                },
                opt_view(home),
            ),
            r.port == (match port {
                Some(p) => match u16_of(p@) {
                    Some(v) => v,
                    None => DEFAULT_PORT,
                },
                None => DEFAULT_PORT,
            }),
    {
        let data_root_raw = match data_root {
            Some(d) => d,
            None => String::from_str(DEFAULT_DATA_ROOT),
        };
        let static_dir_raw = match static_dir {
            Some(d) => d,
            None => String::from_str(DEFAULT_STATIC_DIR),
        };
        let parsed = match &port {
            Some(p) => parse_port(p.as_str()),
            None => None,
        };
        let port = match parsed {
            Some(v) => v,
            None => DEFAULT_PORT,
        };
        let home_str: Option<&str> = match &home {
            Some(h) => Some(h.as_str()),
            None => None,
        };
        Config {
            data_root: expand_tilde(data_root_raw.as_str(), home_str),
            port,
            static_dir: expand_tilde(static_dir_raw.as_str(), home_str),
        }
    }
}

} // verus!
