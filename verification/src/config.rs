//! The settings that the engine consumes.

use vstd::prelude::*;
use vstd::string::StringExecFns;
use crate::text::{
    chars_of, find_from, lines_of, next_index, slice_of, split_lines, string_of, trim, trimmed,
};
use crate::timestamp::{all_digits, decimal_value, is_digit, lemma_decimal_value_push};

verus! {

/// The settings of the program.
#[derive(Debug)]
pub struct Config {
    pub navidrome_url: String,
    pub navidrome_user: String,
    pub navidrome_token: String,
    pub navidrome_salt: String,
    /// Seconds between two polls of the media server.
    pub refresh_interval: u64,
    /// Whether the word in progress is highlighted.
    pub karaoke_enabled: bool,
}

/// The settings as a mathematical value.
pub struct ConfigView {
    pub navidrome_url: Seq<char>,
    pub navidrome_user: Seq<char>,
    pub navidrome_token: Seq<char>,
    pub navidrome_salt: Seq<char>,
    pub refresh_interval: u64,
    pub karaoke_enabled: bool,
}

impl View for Config {
    type V = ConfigView;

    open spec fn view(&self) -> ConfigView {
        ConfigView {
            navidrome_url: self.navidrome_url@,
            navidrome_user: self.navidrome_user@,
            navidrome_token: self.navidrome_token@,
            navidrome_salt: self.navidrome_salt@,
            refresh_interval: self.refresh_interval,
            karaoke_enabled: self.karaoke_enabled,
        }
    }
}

impl Clone for Config {
    fn clone(&self) -> (out: Self)
        ensures
            out@ == self@,
    {
        Config {
            navidrome_url: self.navidrome_url.clone(),
            navidrome_user: self.navidrome_user.clone(),
            navidrome_token: self.navidrome_token.clone(),
            navidrome_salt: self.navidrome_salt.clone(),
            refresh_interval: self.refresh_interval,
            karaoke_enabled: self.karaoke_enabled,
        }
    }
}

/// The first index at or after `i` that holds no double quote.
pub open spec fn skip_quotes(s: Seq<char>, i: int) -> int
    decreases s.len() - i,
{
    if 0 <= i < s.len() && s[i] == '"' {
        skip_quotes(s, i + 1)
    } else {
        i
    }
}

/// The end of the text before `j` once trailing double quotes are removed,
/// never going below `lo`.
pub open spec fn skip_quotes_back(s: Seq<char>, lo: int, j: int) -> int
    decreases j,
{
    if 0 <= lo < j <= s.len() && s[j - 1] == '"' {
        skip_quotes_back(s, lo, j - 1)
    } else {
        j
    }
}

/// `s` without the double quotes at its start and at its end.
pub open spec fn unquoted(s: Seq<char>) -> Seq<char> {
    let lo = skip_quotes(s, 0);
    s.subrange(lo, skip_quotes_back(s, lo, s.len() as int))
}

/// The setting that a line of the settings text makes: its key and its
/// value. A line that is empty once trimmed, that starts with `#`, or that
/// holds no `=` makes none. The key is what stands before the first `=`,
/// trimmed; the value is what follows it, trimmed and without the double
/// quotes around it.
pub open spec fn setting_of(line: Seq<char>) -> Option<(Seq<char>, Seq<char>)> {
    let l = trimmed(line);
    let eq = next_index(l, '=', 0);
    if l.len() == 0 || l[0] == '#' || eq >= l.len() {
        None
    } else {
        Some((trimmed(l.subrange(0, eq)), unquoted(trimmed(l.subrange(eq + 1, l.len() as int)))))
    }
}

/// The value that the lines give to `key`: that of the last line that sets
/// it.
pub open spec fn lookup(lines: Seq<Seq<char>>, key: Seq<char>) -> Option<Seq<char>>
    decreases lines.len(),
{
    if lines.len() == 0 {
        None
    } else {
        match setting_of(lines.last()) {
            Some((k, v)) => if k == key {
                Some(v)
            } else {
                lookup(lines.drop_last(), key)
            },
            None => lookup(lines.drop_last(), key),
        }
    }
}

/// The number that `s` writes in decimal digits, where it has at least one
/// digit, nothing else, and fits in 64 bits.
pub open spec fn u64_of(s: Seq<char>) -> Option<u64> {
    if s.len() > 0 && all_digits(s) && decimal_value(s) <= u64::MAX {
        Some(decimal_value(s) as u64)
    } else {
        None
    }
}

/// Whether `c` is the letter `lower` in either case; `lower` is a small
/// letter of ASCII.
pub open spec fn is_letter(c: char, lower: char) -> bool {
    c == lower || (c as u32) + 32 == (lower as u32)
}

/// Whether `s` is the word `true`, in any mix of cases.
pub open spec fn is_true(s: Seq<char>) -> bool {
    s.len() == 4 && is_letter(s[0], 't') && is_letter(s[1], 'r') && is_letter(s[2], 'u')
        && is_letter(s[3], 'e')
}

/// The seconds between polls that the lines set: 2 where they set none or
/// no number.
pub open spec fn refresh_interval_of(lines: Seq<Seq<char>>) -> u64 {
    match lookup(lines, "REFRESH_INTERVAL"@) {
        Some(v) => match u64_of(v) {
            Some(n) => n,
            None => 2,
        },
        None => 2,
    }
}

/// Whether the lines switch karaoke on.
pub open spec fn karaoke_of(lines: Seq<Seq<char>>) -> bool {
    match lookup(lines, "KARAOKE_ENABLED"@) {
        Some(v) => is_true(v),
        None => false,
    }
}

/// The settings that a settings text holds; none where it does not set the
/// server's address, the user, the token or the salt.
pub open spec fn config_of(text: Seq<char>) -> Option<ConfigView> {
    let lines = lines_of(text);
    match (
        lookup(lines, "NAVIDROME_URL"@),
        lookup(lines, "NAVIDROME_USER"@),
        lookup(lines, "NAVIDROME_TOKEN"@),
        lookup(lines, "NAVIDROME_SALT"@),
    ) {
        (Some(url), Some(user), Some(token), Some(salt)) => Some(
            ConfigView {
                navidrome_url: url,
                navidrome_user: user,
                navidrome_token: token,
                navidrome_salt: salt,
                refresh_interval: refresh_interval_of(lines),
                karaoke_enabled: karaoke_of(lines),
            },
        ),
        _ => None,
    }
}

/// The decimal digit for `d`, which is below 10.
pub open spec fn digit_char(d: nat) -> char {
    ((0x30 + d) as u8) as char
}

/// `n` in decimal digits, without leading zeros.
pub open spec fn decimal_text(n: nat) -> Seq<char>
    decreases n,
{
    if n < 10 {
        seq![digit_char(n)]
    } else {
        decimal_text(n / 10).push(digit_char(n % 10))
    }
}

/// `true` or `false`.
pub open spec fn bool_text(b: bool) -> Seq<char> {
    if b {
        "true"@
    } else {
        "false"@
    }
}

/// The settings text that holds `cfg`.
pub open spec fn config_text(cfg: ConfigView) -> Seq<char> {
    "# Sonix Lyrics Config\n\nNAVIDROME_URL = "@ + cfg.navidrome_url + "\nNAVIDROME_USER = "@
        + cfg.navidrome_user + "\nNAVIDROME_TOKEN = "@ + cfg.navidrome_token
        + "\nNAVIDROME_SALT = "@ + cfg.navidrome_salt + "\n\nREFRESH_INTERVAL = "@ + decimal_text(
        cfg.refresh_interval as nat,
    ) + "\nKARAOKE_ENABLED = "@ + bool_text(cfg.karaoke_enabled) + "\n"@
}

/// `chars` without the double quotes at its start and at its end.
pub fn unquote(chars: &Vec<char>) -> (out: Vec<char>)
    ensures
        out@ == unquoted(chars@),
{
    let mut lo: usize = 0;
    while lo < chars.len() && chars[lo] == '"'
        invariant
            lo <= chars@.len(),
            skip_quotes(chars@, lo as int) == skip_quotes(chars@, 0),
        decreases chars@.len() - lo,
    {
        lo += 1;
    }
    let mut hi: usize = chars.len();
    while lo < hi && chars[hi - 1] == '"'
        invariant
            lo <= hi <= chars@.len(),
            skip_quotes_back(chars@, lo as int, hi as int) == skip_quotes_back(
                chars@,
                lo as int,
                chars@.len() as int,
            ),
        decreases hi,
    {
        hi -= 1;
    }
    slice_of(chars, lo, hi)
}

/// The setting that a line makes, if any.
pub fn parse_setting(line: &Vec<char>) -> (r: Option<(Vec<char>, Vec<char>)>)
    ensures
        match r {
            Some((k, v)) => setting_of(line@) == Some((k@, v@)),
            None => setting_of(line@) is None,
        },
{
    let l = trim(line);
    if l.len() == 0 || l[0] == '#' {
        return None;
    }
    let eq = find_from(&l, '=', 0);
    if eq >= l.len() {
        return None;
    }
    let before = slice_of(&l, 0, eq);
    let after = slice_of(&l, eq + 1, l.len());
    let key = trim(&before);
    let value = trim(&after);
    Some((key, unquote(&value)))
}

/// Whether the two hold the same characters.
pub fn same_chars(a: &Vec<char>, b: &Vec<char>) -> (same: bool)
    ensures
        same == (a@ == b@),
{
    if a.len() != b.len() {
        return false;
    }
    let mut i: usize = 0;
    while i < a.len()
        invariant
            i <= a@.len(),
            a@.len() == b@.len(),
            forall|k: int| 0 <= k < i ==> a@[k] == b@[k],
        decreases a@.len() - i,
    {
        if a[i] != b[i] {
            return false;
        }
        i += 1;
    }
    assert(a@ =~= b@);
    true
}

/// The value that the lines give to `key`.
pub fn find_setting(lines: &Vec<Vec<char>>, key: &str) -> (r: Option<Vec<char>>)
    ensures
        match r {
            Some(v) => lookup(lines@.map_values(|l: Vec<char>| l@), key@) == Some(v@),
            None => lookup(lines@.map_values(|l: Vec<char>| l@), key@) is None,
        },
{
    let wanted = chars_of(key);
    let ghost all = lines@.map_values(|l: Vec<char>| l@);
    let mut i: usize = lines.len();
    assert(all.take(i as int) =~= all);
    while i > 0
        invariant
            i <= lines@.len(),
            all == lines@.map_values(|l: Vec<char>| l@),
            wanted@ == key@,
            lookup(all.take(i as int), key@) == lookup(all, key@),
        decreases i,
    {
        assert(all.take(i as int).last() == lines@[i - 1]@);
        assert(all.take(i as int).drop_last() =~= all.take(i - 1));
        match parse_setting(&lines[i - 1]) {
            Some((k, v)) => {
                if same_chars(&k, &wanted) {
                    return Some(v);
                }
            },
            None => {},
        }
        i -= 1;
    }
    None
}

/// The number that `chars` writes in decimal digits.
pub fn parse_u64(chars: &Vec<char>) -> (r: Option<u64>)
    ensures
        r == u64_of(chars@),
{
    if chars.len() == 0 {
        return None;
    }
    let mut acc: u64 = 0;
    let mut i: usize = 0;
    while i < chars.len()
        invariant
            i <= chars@.len(),
            forall|j: int| 0 <= j < i ==> is_digit(#[trigger] chars@[j]),
            acc == decimal_value(chars@.take(i as int)),
        decreases chars@.len() - i,
    {
        let n: u32 = chars[i] as u32;
        if n < 0x30 || n > 0x39 {
            return None;
        }
        let d: u64 = (n - 0x30) as u64;
        proof {
            lemma_decimal_value_push(chars@.take(i as int), chars@[i as int]);
            assert(chars@.take(i + 1) =~= chars@.take(i as int).push(chars@[i as int]));
        }
        if acc > (u64::MAX - d) / 10 {
            proof {
                lemma_decimal_value_grows(chars@, i + 1);
            }
            return None;
        }
        acc = acc * 10 + d;
        i += 1;
    }
    assert(chars@.take(i as int) =~= chars@);
    Some(acc)
}

/// The digits read so far never write more than all the digits do.
pub proof fn lemma_decimal_value_grows(s: Seq<char>, n: int)
    requires
        0 <= n <= s.len(),
    ensures
        decimal_value(s.take(n)) <= decimal_value(s),
    decreases s.len() - n,
{
    if n < s.len() {
        lemma_decimal_value_push(s.take(n), s[n]);
        assert(s.take(n + 1) =~= s.take(n).push(s[n]));
        lemma_decimal_value_grows(s, n + 1);
    } else {
        assert(s.take(n) =~= s);
    }
}

/// Whether `c` is the letter `lower` in either case.
fn letter_is(c: char, lower: char) -> (b: bool)
    ensures
        b == is_letter(c, lower),
{
    c == lower || (c as u32) + 32 == (lower as u32)
}

/// Whether `chars` is the word `true`, in any mix of cases.
pub fn reads_true(chars: &Vec<char>) -> (b: bool)
    ensures
        b == is_true(chars@),
{
    chars.len() == 4 && letter_is(chars[0], 't') && letter_is(chars[1], 'r') && letter_is(
        chars[2],
        'u',
    ) && letter_is(chars[3], 'e')
}

/// Appends `n` in decimal digits.
pub fn push_decimal(out: &mut String, n: u64)
    ensures
        final(out)@ == old(out)@ + decimal_text(n as nat),
    decreases n,
{
    if n >= 10 {
        push_decimal(out, n / 10);
    }
    let d: u8 = (n % 10) as u8;
    out.push((0x30 + d) as char);
    assert(final(out)@ =~= old(out)@ + decimal_text(n as nat));
}

impl Config {
    /// Reads the settings from a settings text. The text is taken line by
    /// line; of several lines that set the same key the last counts. The
    /// result is none where the server's address, the user, the token or the
    /// salt is not set.
    pub fn load(contents: &str) -> (r: Option<Config>)
        ensures
            match r {
                Some(cfg) => config_of(contents@) == Some(cfg@),
                None => config_of(contents@) is None,
            },
    {
        let chars = chars_of(contents);
        let lines = split_lines(&chars);
        assert(lines@.map_values(|l: Vec<char>| l@) =~= lines_of(contents@));
        let url = find_setting(&lines, "NAVIDROME_URL");
        let user = find_setting(&lines, "NAVIDROME_USER");
        let token = find_setting(&lines, "NAVIDROME_TOKEN");
        let salt = find_setting(&lines, "NAVIDROME_SALT");
        let refresh_interval = match find_setting(&lines, "REFRESH_INTERVAL") {
            Some(v) => match parse_u64(&v) {
                Some(n) => n,
                None => 2,
            },
            None => 2,
        };
        let karaoke_enabled = match find_setting(&lines, "KARAOKE_ENABLED") {
            Some(v) => reads_true(&v),
            None => false,
        };
        match (url, user, token, salt) {
            (Some(url), Some(user), Some(token), Some(salt)) => Some(
                Config {
                    navidrome_url: string_of(&url),
                    navidrome_user: string_of(&user),
                    navidrome_token: string_of(&token),
                    navidrome_salt: string_of(&salt),
                    refresh_interval,
                    karaoke_enabled,
                },
            ),
            _ => None,
        }
    }

    /// Writes the settings as a settings text.
    pub fn save(&self) -> (out: String)
        ensures
            out@ == config_text(self@),
    {
        let mut out = String::from_str("# Sonix Lyrics Config\n\nNAVIDROME_URL = ");
        out.append(self.navidrome_url.as_str());
        out.append("\nNAVIDROME_USER = ");
        out.append(self.navidrome_user.as_str());
        out.append("\nNAVIDROME_TOKEN = ");
        out.append(self.navidrome_token.as_str());
        out.append("\nNAVIDROME_SALT = ");
        out.append(self.navidrome_salt.as_str());
        out.append("\n\nREFRESH_INTERVAL = ");
        push_decimal(&mut out, self.refresh_interval);
        out.append("\nKARAOKE_ENABLED = ");
        if self.karaoke_enabled {
            out.append("true");
        } else {
            out.append("false");
        }
        out.append("\n");
        out
    }
}

} // verus!
