//! Progress extraction from lines of package-manager output.
//!
//! Two textual forms carry a percentage: a bracketed bar followed by a
//! percentage (`[###---] 37%`) and a download line (`downloading x (42%)`).
//! The bracketed form is tried first; a captured number that does not read as
//! a percentage from 0 to 100 makes the line carry no progress at all.

use vstd::prelude::*;

use crate::text::chars_of;

verus! {

/// Pattern of the bracketed progress bar; its first group is the percentage.
pub const BRACKET_PATTERN: &'static str = r"\[#*-*\]\s+(\d+)%";

/// Pattern of a download line; its first group is the percentage.
pub const DOWNLOAD_PATTERN: &'static str = r"downloading.*?\((\d+)%\)";

/// What `regex` yields as the text of the first capture group when `pattern`
/// is compiled and searched for in `line` (leftmost-first); `None` when the
/// pattern does not compile, does not match, or its first group takes no part
/// in the match.
pub uninterp spec fn regex_first_group(pattern: Seq<char>, line: Seq<char>) -> Option<Seq<char>>;

/// Relies on `regex::Regex::new` to compile `pattern`, and on
/// `Regex::captures` and `Captures::get(1)` for the text of the first group of
/// the leftmost-first match in `line`.
#[verifier::external_body]
fn first_group(pattern: &str, line: &str) -> (r: Option<String>)
    ensures
        opt_chars(r) == regex_first_group(pattern@, line@),
{
    let re = regex::Regex::new(pattern).ok()?;
    re.captures(line).and_then(|c| c.get(1)).map(|m| m.as_str().to_string())
}

/// The characters of an optional string.
pub open spec fn opt_chars(o: Option<String>) -> Option<Seq<char>> {
    match o {
        Some(s) => Some(s@),
        None => None,
    }
}

pub open spec fn is_ascii_digit(c: char) -> bool {
    '0' <= c && c <= '9'
}

pub open spec fn digit_value(c: char) -> nat {
    (c as int - '0' as int) as nat
}

pub open spec fn digit_char(d: nat) -> char {
    (d + '0' as nat) as char
}

pub open spec fn all_ascii_digits(s: Seq<char>) -> bool {
    forall|i: int| 0 <= i < s.len() ==> is_ascii_digit(#[trigger] s[i])
}

/// The number that a run of decimal digits denotes.
pub open spec fn decimal_value(s: Seq<char>) -> nat
    decreases s.len(),
{
    if s.len() == 0 {
        0
    } else {
        decimal_value(s.drop_last()) * 10 + digit_value(s.last())
    }
}

/// The percentage that a captured number denotes: a non-empty run of ASCII
/// digits whose value is at most 100.
pub open spec fn percent_value(s: Seq<char>) -> Option<u8> {
    if s.len() > 0 && all_ascii_digits(s) && decimal_value(s) <= 100 {
        Some(decimal_value(s) as u8)
    } else {
        None
    }
}

/// The decimal text of `n`, without leading zeros.
pub open spec fn decimal_text(n: nat) -> Seq<char>
    decreases n,
{
    if n < 10 {
        seq![digit_char(n)]
    } else {
        decimal_text(n / 10).push(digit_char(n % 10))
    }
}

/// The status text of a percentage: its decimal digits and a percent sign.
pub open spec fn percent_text(p: nat) -> Seq<char> {
    decimal_text(p).push('%')
}

proof fn lemma_decimal_value_grows(s: Seq<char>, c: char)
    requires
        is_ascii_digit(c),
    ensures
        decimal_value(s.push(c)) == decimal_value(s) * 10 + digit_value(c),
{
    assert(s.push(c).drop_last() =~= s);
}

/// Reads a captured number as a percentage.
pub fn parse_percent(digits: &str) -> (r: Option<u8>)
    ensures
        r == percent_value(digits@),
{
    let cs = chars_of(digits);
    let n = cs.len();
    if n == 0 {
        return None;
    }
    let mut value: u32 = 0;
    let mut over = false;
    let mut i: usize = 0;
    while i < n
        invariant
            0 <= i <= n,
            n == cs@.len(),
            cs@ == digits@,
            all_ascii_digits(cs@.take(i as int)),
            !over ==> value as nat == decimal_value(cs@.take(i as int)) && value <= 100,
            over ==> decimal_value(cs@.take(i as int)) > 100,
        decreases n - i,
    {
        let c = cs[i];
        if !('0' <= c && c <= '9') {
            assert(!all_ascii_digits(digits@)) by {
                assert(!is_ascii_digit(digits@[i as int]));
            }
            return None;
        }
        proof {
            lemma_decimal_value_grows(cs@.take(i as int), c);
            assert(cs@.take(i as int).push(c) =~= cs@.take(i as int + 1));
        }
        if !over {
            let d = (c as u32) - ('0' as u32);
            value = value * 10 + d;
            if value > 100 {
                over = true;
            }
        }
        i += 1;
    }
    assert(cs@.take(n as int) =~= cs@);
    if over {
        None
    } else {
        Some(value as u8)
    }
}

/// The decimal digit `d` as a one-character string.
fn digit_str(d: u8) -> (r: &'static str)
    requires
        d < 10,
    ensures
        r@ == seq![digit_char(d as nat)],
{
    proof {
        reveal_strlit("0");
        reveal_strlit("1");
        reveal_strlit("2");
        reveal_strlit("3");
        reveal_strlit("4");
        reveal_strlit("5");
        reveal_strlit("6");
        reveal_strlit("7");
        reveal_strlit("8");
        reveal_strlit("9");
    }
    let r = match d {
        0 => "0",
        1 => "1",
        2 => "2",
        3 => "3",
        4 => "4",
        5 => "5",
        6 => "6",
        7 => "7",
        8 => "8",
        _ => "9",
    };
    assert(r@ =~= seq![digit_char(d as nat)]);
    r
}

/// The decimal text of `n`.
pub fn decimal_string(n: u64) -> (r: String)
    ensures
        r@ == decimal_text(n as nat),
    decreases n,
{
    if n < 10 {
        String::from_str(digit_str(n as u8))
    } else {
        let mut s = decimal_string(n / 10);
        s.append(digit_str((n % 10) as u8));
        s
    }
}

/// The status text of a percentage, such as `42%`.
pub fn percent_label(p: u8) -> (r: String)
    ensures
        r@ == percent_text(p as nat),
{
    let mut s = decimal_string(p as u64);
    proof {
        reveal_strlit("%");
    }
    s.append("%");
    assert(s@ =~= percent_text(p as nat));
    s
}

/// The percentage carried by a line, given the first groups that the two
/// patterns captured in it: the bracketed form decides whenever it matched.
pub open spec fn spec_progress_of(bracket: Option<Seq<char>>, download: Option<Seq<char>>) -> Option<
    u8,
> {
    match bracket {
        Some(d) => percent_value(d),
        None => match download {
            Some(d) => percent_value(d),
            None => None,
        },
    }
}

/// The percentage carried by a line with the given captured groups.
pub fn progress_from_groups(bracket: Option<&str>, download: Option<&str>) -> (r: Option<u8>)
    ensures
        r == spec_progress_of(
            match bracket { Some(b) => Some(b@), None => None },
            match download { Some(d) => Some(d@), None => None },
        ),
{
    match bracket {
        Some(b) => parse_percent(b),
        None => match download {
            Some(d) => parse_percent(d),
            None => None,
        },
    }
}

/// The percentage carried by one line of output, if any.
pub fn match_progress(line: &str) -> (r: Option<u8>)
    ensures
        r == spec_progress_of(
            regex_first_group(BRACKET_PATTERN@, line@),
            regex_first_group(DOWNLOAD_PATTERN@, line@),
        ),
        r matches Some(p) ==> p <= 100,
{
    let bracket = first_group(BRACKET_PATTERN, line);
    match bracket {
        Some(b) => parse_percent(b.as_str()),
        None => {
            let download = first_group(DOWNLOAD_PATTERN, line);
            match download {
                Some(d) => parse_percent(d.as_str()),
                None => None,
            }
        },
    }
}

/// A line in which the bracketed progress form captured the decimal digits
/// of a percentage P from 0 to 100 carries exactly P hundredths.
pub proof fn lemma_bracket_line(line: Seq<char>, digits: Seq<char>)
    requires
        regex_first_group(BRACKET_PATTERN@, line) == Some(digits),
        digits.len() > 0,
        all_ascii_digits(digits),
        decimal_value(digits) <= 100,
    ensures
        spec_progress_of(
            regex_first_group(BRACKET_PATTERN@, line),
            regex_first_group(DOWNLOAD_PATTERN@, line),
        ) == Some(decimal_value(digits) as u8),
{
}

/// A line that has no bracketed progress form but a download form that
/// captured the decimal digits of a percentage P from 0 to 100 carries
/// exactly P hundredths; a line that has neither form carries nothing.
pub proof fn lemma_download_line(line: Seq<char>)
    requires
        regex_first_group(BRACKET_PATTERN@, line) is None,
    ensures
        regex_first_group(DOWNLOAD_PATTERN@, line) is None ==> spec_progress_of(
            regex_first_group(BRACKET_PATTERN@, line),
            regex_first_group(DOWNLOAD_PATTERN@, line),
        ) is None,
        forall|digits: Seq<char>|
            regex_first_group(DOWNLOAD_PATTERN@, line) == Some(digits) && digits.len() > 0
                && all_ascii_digits(digits) && decimal_value(digits) <= 100 ==> spec_progress_of(
                regex_first_group(BRACKET_PATTERN@, line),
                regex_first_group(DOWNLOAD_PATTERN@, line),
            ) == Some(decimal_value(digits) as u8),
{
}

/// The digits of a percentage read back as that percentage.
pub proof fn lemma_percent_text_round_trip(p: nat)
    requires
        p <= 100,
    ensures
        percent_value(decimal_text(p)) == Some(p as u8),
    decreases p,
{
    lemma_decimal_text(p);
}

proof fn lemma_decimal_text(n: nat)
    ensures
        decimal_text(n).len() > 0,
        all_ascii_digits(decimal_text(n)),
        decimal_value(decimal_text(n)) == n,
    decreases n,
{
    if n >= 10 {
        lemma_decimal_text(n / 10);
        let t = decimal_text(n / 10);
        assert(decimal_text(n).drop_last() =~= t);
        assert(digit_value(digit_char(n % 10)) == n % 10);
        assert(n == (n / 10) * 10 + n % 10);
        assert(decimal_text(n).last() == digit_char(n % 10));
        assert(decimal_value(decimal_text(n)) == decimal_value(t) * 10 + digit_value(
            digit_char(n % 10),
        ));
        assert(all_ascii_digits(decimal_text(n))) by {
            assert forall|i: int| 0 <= i < decimal_text(n).len() implies is_ascii_digit(
                #[trigger] decimal_text(n)[i],
            ) by {
                if i < t.len() {
                    assert(decimal_text(n)[i] == t[i]);
                }
            }
        }
    } else {
        assert(decimal_text(n).drop_last() =~= Seq::<char>::empty());
        assert(digit_value(digit_char(n)) == n);
        assert(decimal_value(Seq::<char>::empty()) == 0);
        assert(decimal_value(decimal_text(n)) == decimal_value(decimal_text(n).drop_last()) * 10
            + digit_value(decimal_text(n).last()));
    }
}

} // verus!
