//! The command line: `lychee [-f|--fullscreen] [--slideshow SECONDS] PATH...`.
//!
//! The words after the program name are read left to right. `--` makes
//! every later word a path. A long option is `--name` or `--name=value`; the
//! value of `--slideshow` may also be the next word, unless that word looks
//! like an option. A word of a `-` and letters is a cluster of short options;
//! one whose first letter is not a known option but a digit or `.` is a
//! path, as is `-` alone and any word not starting with `-`. `-h`/`--help`
//! and `-V`/`--version` stop the reading. At least one path is required; the
//! slideshow interval defaults to 5 seconds.
use vstd::prelude::*;

use crate::text::str_is;

verus! {

/// What the command line asks for.
pub struct Args {
    /// Paths to images or directories; at least one is required.
    pub paths: Vec<String>,
    /// Open in fullscreen mode.
    pub fullscreen: bool,
    /// Slideshow interval in seconds.
    pub slideshow: u64,
}

/// Why a command line is not a request to view images.
#[derive(Debug, Clone, PartialEq, Eq)]
pub enum ArgsError {
    /// Help was asked for.
    Help,
    /// The version was asked for.
    Version,
    /// An option that the program does not have, as written.
    UnknownArgument(String),
    /// A value given to a flag, which takes none.
    UnexpectedValue(String),
    /// An option that needs a value was given none.
    MissingValue(String),
    /// A value that is not a number of seconds.
    InvalidValue(String),
    /// No path was given.
    MissingPaths,
}

/// An `ArgsError` as a value.
pub enum Rejection {
    Help,
    Version,
    UnknownArgument(Seq<char>),
    UnexpectedValue(Seq<char>),
    MissingValue(Seq<char>),
    InvalidValue(Seq<char>),
    MissingPaths,
}

pub open spec fn rejection(e: ArgsError) -> Rejection {
    match e {
        ArgsError::Help => Rejection::Help,
        ArgsError::Version => Rejection::Version,
        ArgsError::UnknownArgument(s) => Rejection::UnknownArgument(s@),
        ArgsError::UnexpectedValue(s) => Rejection::UnexpectedValue(s@),
        ArgsError::MissingValue(s) => Rejection::MissingValue(s@),
        ArgsError::InvalidValue(s) => Rejection::InvalidValue(s@),
        ArgsError::MissingPaths => Rejection::MissingPaths,
    }
}

/// What has been read of the command line so far.
pub struct Scan {
    pub paths: Seq<Seq<char>>,
    pub fullscreen: bool,
    pub slideshow: Option<Seq<char>>,
    pub only_paths: bool,
}

pub open spec fn scan_start() -> Scan {
    Scan { paths: seq![], fullscreen: false, slideshow: None, only_paths: false }
}

pub open spec fn is_digit(c: char) -> bool {
    '0' <= c <= '9'
}

/// A word is taken for an option when it is a `-` followed by something
/// that does not start like a number.
pub open spec fn looks_like_option(w: Seq<char>) -> bool {
    w.len() >= 2 && w[0] == '-' && !(is_digit(w[1]) || w[1] == '.')
}

/// A long option's name, and its value when written `name=value`.
pub open spec fn split_at_eq(s: Seq<char>) -> (Seq<char>, Option<Seq<char>>) {
    if exists|i: int| 0 <= i < s.len() && s[i] == '=' {
        let i = choose|i: int| 0 <= i < s.len() && s[i] == '=' && forall|j: int| 0 <= j < i ==> s[j] != '=';
        (s.take(i), Some(s.skip(i + 1)))
    } else {
        (s, None)
    }
}

/// Reading a cluster of short options.
pub open spec fn scan_shorts(cluster: Seq<char>, st: Scan) -> Result<Scan, Rejection>
    decreases cluster.len(),
{
    if cluster.len() == 0 {
        Ok(st)
    } else {
        let c = cluster[0];
        if c == 'h' {
            Err(Rejection::Help)
        } else if c == 'V' {
            Err(Rejection::Version)
        } else if c == 'f' {
            scan_shorts(cluster.drop_first(), Scan { fullscreen: true, ..st })
        } else {
            Err(Rejection::UnknownArgument(seq!['-', c]))
        }
    }
}

/// Reading the words `words`, the first error stopping the reading.
pub open spec fn scan(words: Seq<Seq<char>>, st: Scan) -> Result<Scan, Rejection>
    decreases words.len(),
{
    if words.len() == 0 {
        Ok(st)
    } else {
        let w = words[0];
        let rest = words.drop_first();
        if st.only_paths {
            scan(rest, Scan { paths: st.paths.push(w), ..st })
        } else if w == seq!['-', '-'] {
            scan(rest, Scan { only_paths: true, ..st })
        } else if w.len() >= 2 && w[0] == '-' && w[1] == '-' {
            let (name, inline) = split_at_eq(w.skip(2));
            if name == seq!['h', 'e', 'l', 'p'] {
                Err(Rejection::Help)
            } else if name == seq!['v', 'e', 'r', 's', 'i', 'o', 'n'] {
                Err(Rejection::Version)
            } else if name == seq!['f', 'u', 'l', 'l', 's', 'c', 'r', 'e', 'e', 'n'] {
                if inline is Some {
                    Err(Rejection::UnexpectedValue(seq!['-', '-'] + name))
                } else {
                    scan(rest, Scan { fullscreen: true, ..st })
                }
            } else if name == seq!['s', 'l', 'i', 'd', 'e', 's', 'h', 'o', 'w'] {
                match inline {
                    Some(v) => scan(rest, Scan { slideshow: Some(v), ..st }),
                    None => if rest.len() > 0 && !looks_like_option(rest[0]) {
                        scan(rest.drop_first(), Scan { slideshow: Some(rest[0]), ..st })
                    } else {
                        Err(Rejection::MissingValue(seq!['-', '-'] + name))
                    },
                }
            } else {
                Err(Rejection::UnknownArgument(seq!['-', '-'] + name))
            }
        } else if w.len() >= 2 && w[0] == '-' {
            let first = w[1];
            if first == 'f' || first == 'h' || first == 'V' {
                match scan_shorts(w.skip(1), st) {
                    Ok(st2) => scan(rest, st2),
                    Err(e) => Err(e),
                }
            } else if is_digit(first) || first == '.' {
                scan(rest, Scan { paths: st.paths.push(w), ..st })
            } else {
                Err(Rejection::UnknownArgument(seq!['-', first]))
            }
        } else {
            scan(rest, Scan { paths: st.paths.push(w), ..st })
        }
    }
}

/// The value of a string of decimal digits.
pub open spec fn digits_value(s: Seq<char>) -> int
    decreases s.len(),
{
    if s.len() == 0 {
        0
    } else {
        digits_value(s.drop_last()) * 10 + (s.last() as int - '0' as int)
    }
}

/// The digits of a number, after an optional leading `+`.
pub open spec fn unsigned_digits(s: Seq<char>) -> Seq<char> {
    if s.len() > 0 && s[0] == '+' {
        s.drop_first()
    } else {
        s
    }
}

pub open spec fn all_digits(d: Seq<char>) -> bool {
    forall|i: int| 0 <= i < d.len() ==> is_digit(#[trigger] d[i])
}

/// What `u64::from_str` gives: an optional `+` and then one or more
/// decimal digits, whose value fits in 64 bits.
pub open spec fn decimal_u64(s: Seq<char>) -> Option<u64> {
    let digits = unsigned_digits(s);
    if digits.len() > 0 && all_digits(digits) && digits_value(digits) <= u64::MAX {
        Some(digits_value(digits) as u64)
    } else {
        None
    }
}

/// What the command line `words` asks for: its paths, whether to start in
/// fullscreen, and the slideshow interval; or why it asks for no viewing.
pub open spec fn parse_args(words: Seq<Seq<char>>) -> Result<(Seq<Seq<char>>, bool, u64), Rejection> {
    match scan(words, scan_start()) {
        Err(e) => Err(e),
        Ok(st) => if st.paths.len() == 0 {
            Err(Rejection::MissingPaths)
        } else {
            match st.slideshow {
                None => Ok((st.paths, st.fullscreen, 5)),
                Some(v) => match decimal_u64(v) {
                    Some(n) => Ok((st.paths, st.fullscreen, n)),
                    None => Err(Rejection::InvalidValue(v)),
                },
            }
        },
    }
}

/// Digits are worth no less after more digits follow them.
proof fn lemma_digits_grow(s: Seq<char>, k: int)
    requires
        0 <= k <= s.len(),
        forall|i: int| 0 <= i < s.len() ==> is_digit(#[trigger] s[i]),
    ensures
        0 <= digits_value(s.take(k)) <= digits_value(s),
    decreases s.len(),
{
    if k < s.len() {
        assert(s.drop_last().take(k) =~= s.take(k));
        lemma_digits_grow(s.drop_last(), k);
        assert forall|i: int| 0 <= i < s.drop_last().len() implies is_digit(#[trigger] s.drop_last()[i]) by {
            assert(s.drop_last()[i] == s[i]);
        }
        lemma_digits_grow(s.drop_last(), s.drop_last().len() as int);
        assert(s.drop_last().take(s.drop_last().len() as int) =~= s.drop_last());
    } else {
        assert(s.take(k) =~= s);
        if s.len() > 0 {
            assert forall|i: int| 0 <= i < s.drop_last().len() implies is_digit(#[trigger] s.drop_last()[i]) by {
                assert(s.drop_last()[i] == s[i]);
            }
            lemma_digits_grow(s.drop_last(), 0);
            assert(s.drop_last().take(0) =~= s.drop_last().take(s.drop_last().len() as int).take(0));
        }
    }
}

/// Reads a number of seconds as `u64::from_str` does: an optional `+`, then
/// one or more decimal digits whose value fits in 64 bits.
fn parse_u64(s: &str) -> (r: Option<u64>)
    ensures
        r == decimal_u64(s@),
{
    let n: usize = s.unicode_len();
    let start: usize = if n > 0 && s.get_char(0) == '+' {
        1
    } else {
        0
    };
    let ghost digits = s@.skip(start as int);
    assert(digits =~= if s@.len() > 0 && s@[0] == '+' {
        s@.drop_first()
    } else {
        s@
    });
    if start >= n {
        return None;
    }
    let mut acc: u64 = 0;
    let mut i: usize = start;
    assert(digits.take(0) =~= Seq::<char>::empty());
    while i < n
        invariant
            n == s@.len(),
            start < n,
            digits == s@.skip(start as int),
            digits == unsigned_digits(s@),
            start <= i <= n,
            forall|k: int| 0 <= k < i - start ==> is_digit(#[trigger] digits[k]),
            acc == digits_value(digits.take(i - start)),
        decreases n - i,
    {
        let c: char = s.get_char(i);
        assert(digits[i - start] == c);
        if !('0' <= c && c <= '9') {
            assert(!is_digit(digits[i - start]));
            assert(!all_digits(digits));
            return None;
        }
        let d: u64 = ((c as u32) - ('0' as u32)) as u64;
        assert(digits.take(i - start + 1).drop_last() =~= digits.take(i - start));
        if acc > (u64::MAX - d) / 10 {
            proof {
                assert(digits_value(digits.take(i - start + 1)) == acc * 10 + d);
                if all_digits(digits) {
                    lemma_digits_grow(digits, i - start + 1);
                }
            }
            return None;
        }
        acc = acc * 10 + d;
        i = i + 1;
    }
    assert(digits.take(n - start) =~= digits);
    assert(all_digits(digits));
    Some(acc)
}

pub open spec fn opt_text(o: Option<String>) -> Option<Seq<char>> {
    match o {
        Some(v) => Some(v@),
        None => None,
    }
}

pub open spec fn words_of(args: Seq<&str>) -> Seq<Seq<char>> {
    args.map_values(|a: &str| a@)
}

pub open spec fn texts_of(v: Seq<String>) -> Seq<Seq<char>> {
    v.map_values(|s: String| s@)
}

/// Where the first `=` of `s` is, if it has one.
fn find_eq(s: &str) -> (r: Option<usize>)
    ensures
        match r {
            Some(i) => i < s@.len() && s@[i as int] == '=' && forall|j: int| 0 <= j < i ==> s@[j] != '=',
            None => forall|j: int| 0 <= j < s@.len() ==> s@[j] != '=',
        },
{
    let n: usize = s.unicode_len();
    let mut i: usize = 0;
    while i < n
        invariant
            n == s@.len(),
            i <= n,
            forall|j: int| 0 <= j < i ==> s@[j] != '=',
        decreases n - i,
    {
        if s.get_char(i) == '=' {
            return Some(i);
        }
        i = i + 1;
    }
    None
}

/// The outcome of reading one long option.
enum LongStep {
    Flag,
    Value(String),
    /// The value is the next word.
    ValueNext,
}

impl Args {
    /// Reads the words of a command line, without the program's name, as
    /// `parse_args` says.
    pub fn try_parse_from(args: &[&str]) -> (r: Result<Args, ArgsError>)
        ensures
            match (r, parse_args(words_of(args@))) {
                (Ok(a), Ok((paths, fullscreen, slideshow))) => texts_of(a.paths@) == paths
                    && a.fullscreen == fullscreen && a.slideshow == slideshow,
                (Err(e), Err(k)) => rejection(e) == k,
                _ => false,
            },
    {
        let ghost words = words_of(args@);
        let mut paths: Vec<String> = Vec::new();
        let mut fullscreen = false;
        let mut slideshow: Option<String> = None;
        let mut only_paths = false;
        let n: usize = args.len();
        let mut i: usize = 0;
        proof {
            reveal_strlit("--");
            reveal_strlit("help");
            reveal_strlit("version");
            reveal_strlit("fullscreen");
            reveal_strlit("slideshow");
        }
        assert(words.skip(0) =~= words);
        assert(texts_of(paths@) =~= scan_start().paths);
        while i < n
            invariant
                n == args@.len(),
                words == words_of(args@),
                i <= n,
                scan(words, scan_start()) == scan(
                    words.skip(i as int),
                    Scan {
                        paths: texts_of(paths@),
                        fullscreen,
                        slideshow: opt_text(slideshow),
                        only_paths,
                    },
                ),
            decreases n - i,
        {
            let ghost st = Scan {
                paths: texts_of(paths@),
                fullscreen,
                slideshow: opt_text(slideshow),
                only_paths,
            };
            let ghost ws = words.skip(i as int);
            proof {
                reveal_strlit("--");
                reveal_strlit("help");
                reveal_strlit("version");
                reveal_strlit("fullscreen");
                reveal_strlit("slideshow");
            }
            let w: &str = args[i];
            assert(ws[0] == w@);
            assert(ws.drop_first() =~= words.skip(i + 1));
            let len: usize = w.unicode_len();
            let starts_dash = len >= 1 && w.get_char(0) == '-';
            let second_dash = len >= 2 && w.get_char(1) == '-';
            if only_paths || (!starts_dash) || len < 2 {
                if !only_paths && starts_dash && len < 2 {
                    assert(w@ != seq!['-', '-']);
                }
                paths.push(w.to_string());
                assert(texts_of(paths@) =~= st.paths.push(w@));
                i = i + 1;
            } else if len == 2 && second_dash {
                assert(w@ =~= seq!['-', '-']);
                only_paths = true;
                i = i + 1;
            } else if second_dash {
                assert(w@ != seq!['-', '-']);
                let long = w.substring_char(2, len);
                assert(long@ =~= w@.skip(2));
                let (name, inline): (&str, Option<&str>) = match find_eq(long) {
                    Some(k) => {
                        let name = long.substring_char(0, k);
                        let value = long.substring_char(k + 1, long.unicode_len());
                        proof {
                            assert(exists|j: int| 0 <= j < long@.len() && long@[j] == '=');
                            let c = choose|j: int|
                                0 <= j < long@.len() && long@[j] == '=' && forall|m: int|
                                    0 <= m < j ==> long@[m] != '=';
                            assert(c == k) by {
                                if c < k {
                                } else if c > k {
                                }
                            }
                            assert(name@ =~= long@.take(k as int));
                            assert(value@ =~= long@.skip(k + 1));
                        }
                        (name, Some(value))
                    },
                    None => (long, None),
                };
                assert(split_at_eq(w@.skip(2)) == (name@, match inline {
                    Some(v) => Some(v@),
                    None => None::<Seq<char>>,
                }));
                assert(seq!['h', 'e', 'l', 'p'] =~= "help"@);
                assert(seq!['v', 'e', 'r', 's', 'i', 'o', 'n'] =~= "version"@);
                assert(seq!['f', 'u', 'l', 'l', 's', 'c', 'r', 'e', 'e', 'n'] =~= "fullscreen"@);
                assert(seq!['s', 'l', 'i', 'd', 'e', 's', 'h', 'o', 'w'] =~= "slideshow"@);
                let step = if str_is(name, "help") {
                    return Err(ArgsError::Help);
                } else if str_is(name, "version") {
                    return Err(ArgsError::Version);
                } else if str_is(name, "fullscreen") {
                    if inline.is_some() {
                        let e = ArgsError::UnexpectedValue("--fullscreen".to_string());
                        proof {
                            reveal_strlit("--fullscreen");
                            assert("--fullscreen"@ =~= seq!['-', '-'] + name@);
                        }
                        return Err(e);
                    }
                    LongStep::Flag
                } else if str_is(name, "slideshow") {
                    match inline {
                        Some(v) => LongStep::Value(v.to_string()),
                        None => LongStep::ValueNext,
                    }
                } else {
                    let mut text = "--".to_string();
                    text.append(name);
                    assert(text@ =~= seq!['-', '-'] + name@);
                    return Err(ArgsError::UnknownArgument(text));
                };
                match step {
                    LongStep::Flag => {
                        fullscreen = true;
                        i = i + 1;
                    },
                    LongStep::Value(v) => {
                        slideshow = Some(v);
                        i = i + 1;
                    },
                    LongStep::ValueNext => {
                        if i + 1 < n && !self::option_like(args[i + 1]) {
                            assert(ws.drop_first()[0] == args@[i + 1]@);
                            assert(ws.drop_first().drop_first() =~= words.skip(i + 2));
                            slideshow = Some(args[i + 1].to_string());
                            i = i + 2;
                        } else {
                            if i + 1 < n {
                                assert(ws.drop_first()[0] == args@[i + 1]@);
                            }
                            let e = ArgsError::MissingValue("--slideshow".to_string());
                            proof {
                                reveal_strlit("--slideshow");
                                assert("--slideshow"@ =~= seq!['-', '-'] + name@);
                            }
                            return Err(e);
                        }
                    },
                }
            } else {
                let first: char = w.get_char(1);
                if first == 'f' || first == 'h' || first == 'V' {
                    let cluster = w.substring_char(1, len);
                    assert(cluster@ =~= w@.skip(1));
                    let mut k: usize = 0;
                    let ghost cl = cluster@;
                    assert(cl.skip(0) =~= cl);
                    while k < len - 1
                        invariant
                            cl == cluster@,
                            cl.len() == len - 1,
                            k <= len - 1,
                            scan_shorts(cl, st) == scan_shorts(
                                cl.skip(k as int),
                                Scan { fullscreen, ..st },
                            ),
                            cl == w@.skip(1),
                            w@.len() == len,
                            len >= 2,
                            w@[0] == '-',
                            w@[1] == first,
                            first == 'f' || first == 'h' || first == 'V',
                            !only_paths,
                            !st.only_paths,
                            words == words_of(args@),
                            ws[0] == w@,
                            ws.len() > 0,
                            scan(words, scan_start()) == scan(ws, st),
                        decreases len - 1 - k,
                    {
                        let c = cluster.get_char(k);
                        assert(cl.skip(k as int)[0] == c);
                        assert(cl.skip(k as int).drop_first() =~= cl.skip(k + 1));
                        if c == 'h' {
                            assert(scan_shorts(cl, st) == Err::<Scan, Rejection>(Rejection::Help));
                            assert(scan(ws, st) == Err::<Scan, Rejection>(Rejection::Help));
                            return Err(ArgsError::Help);
                        } else if c == 'V' {
                            return Err(ArgsError::Version);
                        } else if c == 'f' {
                            fullscreen = true;
                        } else {
                            let mut text = "-".to_string();
                            let one = cluster.substring_char(k, k + 1);
                            text.append(one);
                            proof {
                                reveal_strlit("-");
                                assert(text@ =~= seq!['-', c]);
                                assert(scan_shorts(cl, st) == Err::<Scan, Rejection>(
                                    Rejection::UnknownArgument(seq!['-', c]),
                                ));
                                assert(scan(ws, st) == Err::<Scan, Rejection>(
                                    Rejection::UnknownArgument(seq!['-', c]),
                                ));
                            }
                            return Err(ArgsError::UnknownArgument(text));
                        }
                        k = k + 1;
                    }
                    assert(cl.skip((len - 1) as int) =~= Seq::<char>::empty());
                    i = i + 1;
                } else if ('0' <= first && first <= '9') || first == '.' {
                    paths.push(w.to_string());
                    assert(texts_of(paths@) =~= st.paths.push(w@));
                    i = i + 1;
                } else {
                    let mut text = "-".to_string();
                    let one = w.substring_char(1, 2);
                    text.append(one);
                    proof {
                        reveal_strlit("-");
                        assert(text@ =~= seq!['-', first]);
                    }
                    return Err(ArgsError::UnknownArgument(text));
                }
            }
        }
        assert(words.skip(n as int) =~= Seq::<Seq<char>>::empty());
        if paths.len() == 0 {
            return Err(ArgsError::MissingPaths);
        }
        let seconds = match slideshow {
            None => 5,
            Some(v) => match parse_u64(v.as_str()) {
                Some(s) => s,
                None => {
                    return Err(ArgsError::InvalidValue(v));
                },
            },
        };
        Ok(Args { paths, fullscreen, slideshow: seconds })
    }
}

/// Whether a word is taken for an option rather than a value.
fn option_like(w: &str) -> (r: bool)
    ensures
        r == looks_like_option(w@),
{
    let len: usize = w.unicode_len();
    if len < 2 || w.get_char(0) != '-' {
        return false;
    }
    let c = w.get_char(1);
    !(('0' <= c && c <= '9') || c == '.')
}

} // verus!
