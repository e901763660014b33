//! Turning command-line words into a rain configuration.

use crate::columns::Speed;
use crate::frame::{RainColor, RainConfig};
use vstd::prelude::*;
use vstd::string::is_ascii;

verus! {

broadcast use vstd::string::group_string_axioms;

/// Tail lifespan, in seconds, when none or no number is given.
pub const DEFAULT_TAIL_SECS: u64 = 10;

/// What the command line asks for.
#[derive(Clone, Copy, Debug, PartialEq, Eq)]
pub enum Command {
    Help,
    Run(RainConfig),
}

/// The color a name stands for, `fallback` for a name it does not know.
pub open spec fn color_of(name: Seq<char>, fallback: RainColor) -> RainColor {
    if name == "black"@ {
        RainColor::Black
    } else if name == "red"@ {
        RainColor::Red
    } else if name == "green"@ {
        RainColor::Green
    } else if name == "yellow"@ {
        RainColor::Yellow
    } else if name == "blue"@ {
        RainColor::Blue
    } else if name == "magenta"@ {
        RainColor::Magenta
    } else if name == "cyan"@ {
        RainColor::Cyan
    } else if name == "white"@ {
        RainColor::White
    } else if name == "dark_gray"@ {
        RainColor::DarkGray
    } else if name == "light_red"@ {
        RainColor::LightRed
    } else if name == "light_green"@ {
        RainColor::LightGreen
    } else if name == "light_yellow"@ {
        RainColor::LightYellow
    } else if name == "light_blue"@ {
        RainColor::LightBlue
    } else if name == "light_magenta"@ {
        RainColor::LightMagenta
    } else if name == "light_cyan"@ {
        RainColor::LightCyan
    } else if name == "gray"@ {
        RainColor::Gray
    } else if name == "light_gray"@ {
        RainColor::Gray
    } else {
        fallback
    }
}

/// `Slow` for the name `slow`, `Fast` for anything else.
pub open spec fn speed_of(name: Seq<char>) -> Speed {
    if name == "slow"@ {
        Speed::Slow
    } else {
        Speed::Fast
    }
}

pub open spec fn is_digit(c: char) -> bool {
    '0' <= c <= '9'
}

pub open spec fn all_digits(s: Seq<char>) -> bool {
    forall|i: int| 0 <= i < s.len() ==> is_digit(#[trigger] s[i])
}

/// The number that a string of decimal digits writes.
pub open spec fn digits_value(s: Seq<char>) -> int
    decreases s.len(),
{
    if s.len() == 0 {
        0
    } else {
        digits_value(s.drop_last()) * 10 + (s.last() as int - '0' as int)
    }
}

/// The digits of `s` once an optional leading `+` is removed.
pub open spec fn unsigned_part(s: Seq<char>) -> Seq<char> {
    if s.len() > 0 && s[0] == '+' {
        s.drop_first()
    } else {
        s
    }
}

/// An unsigned decimal number: an optional `+`, then one or more digits whose
/// value fits in 64 bits.
pub open spec fn number_of(s: Seq<char>) -> Option<u64> {
    let d = unsigned_part(s);
    if d.len() > 0 && all_digits(d) && digits_value(d) <= u64::MAX {
        Some(digits_value(d) as u64)
    } else {
        None
    }
}

/// Milliseconds in `secs` seconds, held at the largest value on overflow.
pub open spec fn secs_to_ms(secs: u64) -> u64 {
    if secs * 1000 <= u64::MAX {
        (secs * 1000) as u64
    } else {
        u64::MAX
    }
}

/// Tail lifespan in milliseconds for the text given as its seconds.
pub open spec fn lifespan_of(text: Seq<char>) -> u64 {
    match number_of(text) {
        Some(n) => secs_to_ms(n),
        None => secs_to_ms(DEFAULT_TAIL_SECS),
    }
}

/// The texts of tail color, head color, speed and tail length.
pub type Words = (Seq<char>, Seq<char>, Seq<char>, Seq<char>);

pub open spec fn default_words() -> Words {
    ("red"@, "yellow"@, "fast"@, "10"@)
}

pub open spec fn takes_value(a: Seq<char>) -> bool {
    a == "--tail-color"@ || a == "-t"@ || a == "--head-color"@ || a == "-d"@ || a == "--speed"@
        || a == "-s"@ || a == "--tail-length"@ || a == "-l"@
}

/// `w` with the word that flag `a` sets replaced by `v`.
pub open spec fn set_word(w: Words, a: Seq<char>, v: Seq<char>) -> Words {
    if a == "--tail-color"@ || a == "-t"@ {
        (v, w.1, w.2, w.3)
    } else if a == "--head-color"@ || a == "-d"@ {
        (w.0, v, w.2, w.3)
    } else if a == "--speed"@ || a == "-s"@ {
        (w.0, w.1, v, w.3)
    } else {
        (w.0, w.1, w.2, v)
    }
}

/// Reads the arguments from position `i` on: a flag that takes a value sets
/// its word to the next argument and skips it; other arguments are ignored.
pub open spec fn scan(args: Seq<Seq<char>>, i: int, w: Words) -> Words
    decreases args.len() - i,
{
    if i < 0 || i >= args.len() {
        w
    } else if takes_value(args[i]) {
        if i + 1 < args.len() {
            scan(args, i + 2, set_word(w, args[i], args[i + 1]))
        } else {
            w
        }
    } else {
        scan(args, i + 1, w)
    }
}

pub open spec fn config_of(w: Words) -> RainConfig {
    RainConfig {
        tail_color: color_of(w.0, RainColor::Red),
        head_color: color_of(w.1, RainColor::Yellow),
        speed: speed_of(w.2),
        tail_lifespan_ms: lifespan_of(w.3),
    }
}

pub open spec fn asks_help(args: Seq<Seq<char>>) -> bool {
    exists|i: int| 0 <= i < args.len() && (#[trigger] args[i] == "--help"@ || args[i] == "-h"@)
}

/// What a command line (program name first) asks for: help wherever `-h` or
/// `--help` stands, else a configuration from the flags after the name.
pub open spec fn command_of(args: Seq<Seq<char>>) -> Command {
    if asks_help(args) {
        Command::Help
    } else {
        Command::Run(config_of(scan(args, 1, default_words())))
    }
}

pub open spec fn texts(args: Seq<String>) -> Seq<Seq<char>> {
    args.map_values(|s: String| s@)
}

fn is_word(a: &String, w: &str) -> (r: bool)
    ensures
        r == (a@ == w@),
{
    let o = w.to_owned();
    a.eq(&o)
}

/// The color that `name` stands for, or `fallback`.
pub fn color_named(name: &String, fallback: RainColor) -> (r: RainColor)
    ensures
        r == color_of(name@, fallback),
{
    if is_word(name, "black") {
        RainColor::Black
    } else if is_word(name, "red") {
        RainColor::Red
    } else if is_word(name, "green") {
        RainColor::Green
    } else if is_word(name, "yellow") {
        RainColor::Yellow
    } else if is_word(name, "blue") {
        RainColor::Blue
    } else if is_word(name, "magenta") {
        RainColor::Magenta
    } else if is_word(name, "cyan") {
        RainColor::Cyan
    } else if is_word(name, "white") {
        RainColor::White
    } else if is_word(name, "dark_gray") {
        RainColor::DarkGray
    } else if is_word(name, "light_red") {
        RainColor::LightRed
    } else if is_word(name, "light_green") {
        RainColor::LightGreen
    } else if is_word(name, "light_yellow") {
        RainColor::LightYellow
    } else if is_word(name, "light_blue") {
        RainColor::LightBlue
    } else if is_word(name, "light_magenta") {
        RainColor::LightMagenta
    } else if is_word(name, "light_cyan") {
        RainColor::LightCyan
    } else if is_word(name, "gray") {
        RainColor::Gray
    } else if is_word(name, "light_gray") {
        RainColor::Gray
    } else {
        fallback
    }
}

/// The speed that `name` stands for.
pub fn speed_named(name: &String) -> (r: Speed)
    ensures
        r == speed_of(name@),
{
    if is_word(name, "slow") {
        Speed::Slow
    } else {
        Speed::Fast
    }
}

proof fn lemma_value_nonneg(d: Seq<char>)
    requires
        all_digits(d),
    ensures
        digits_value(d) >= 0,
    decreases d.len(),
{
    if d.len() > 0 {
        lemma_value_nonneg(d.drop_last());
    }
}

proof fn lemma_prefix_value_bounded(d: Seq<char>, j: int)
    requires
        all_digits(d),
        0 <= j <= d.len(),
    ensures
        digits_value(d.subrange(0, j)) <= digits_value(d),
    decreases d.len(),
{
    if j < d.len() {
        lemma_prefix_value_bounded(d.drop_last(), j);
        assert(d.drop_last().subrange(0, j) =~= d.subrange(0, j));
        lemma_value_nonneg(d.drop_last());
    } else {
        assert(d.subrange(0, j) =~= d);
    }
}

/// Reads `text` as an unsigned decimal number: an optional `+` and one or
/// more digits that fit in 64 bits.
pub fn parse_number(text: &String) -> (r: Option<u64>)
    ensures
        r == number_of(text@),
{
    let s = text.as_str();
    let ghost d = unsigned_part(s@);
    if !s.is_ascii() {
        proof {
            let i = choose|i: int| 0 <= i < s@.len() && !('\0' <= #[trigger] s@[i] <= '\u{7f}');
            if d.len() > 0 && all_digits(d) {
                if s@[0] == '+' {
                    assert(d[i - 1] == s@[i]);
                } else {
                    assert(d[i] == s@[i]);
                }
            }
        }
        return None;
    }
    let b = s.as_bytes();
    let n = b.len();
    proof {
        assert(b@.len() == s@.len());
    }
    let mut start: usize = 0;
    if n > 0 && b[0] == 43u8 {
        start = 1;
    }
    assert(d =~= s@.subrange(start as int, s@.len() as int));
    if start == n {
        return None;
    }
    let mut v: u64 = 0;
    let mut k: usize = start;
    while k < n
        invariant
            start <= k <= n,
            s@ == text@,
            d == unsigned_part(s@),
            n == s@.len(),
            b@.len() == n,
            is_ascii(s),
            d =~= s@.subrange(start as int, n as int),
            all_digits(d.subrange(0, k - start)),
            v == digits_value(d.subrange(0, k - start)),
            forall|i: int| 0 <= i < n ==> b@[i] == #[trigger] s@[i] as u8,
        decreases n - k,
    {
        let c = b[k];
        assert(d[k - start] == s@[k as int]);
        assert('\0' <= s@[k as int] <= '\u{7f}');
        assert(c as int == s@[k as int] as int);
        if c < 48u8 || c > 57u8 {
            assert(!is_digit(d[k - start]));
            assert(!all_digits(d));
            return None;
        }
        let digit = (c - 48u8) as u64;
        let m: Ghost<int> = Ghost(k - start);
        assert(d.subrange(0, m@ + 1).drop_last() =~= d.subrange(0, m@));
        assert(all_digits(d.subrange(0, m@ + 1)));
        if v > (u64::MAX - digit) / 10 {
            proof {
                let q = (u64::MAX - digit) as int;
                assert(v * 10 + digit > u64::MAX) by (nonlinear_arith)
                    requires
                        v > q / 10,
                        q == u64::MAX - digit,
                        q >= 0,
                {}
                assert(digits_value(d.subrange(0, m@ + 1)) == v * 10 + digit);
                if all_digits(d) {
                    lemma_prefix_value_bounded(d, m@ + 1);
                }
            }
            return None;
        }
        v = v * 10 + digit;
        k = k + 1;
    }
    assert(d.subrange(0, n - start) =~= d);
    Some(v)
}

/// Tail lifespan in milliseconds for `text` given as seconds: the default
/// when it is not a number, the largest value when it overflows.
pub fn lifespan_ms(text: &String) -> (r: u64)
    ensures
        r == lifespan_of(text@),
{
    let secs = match parse_number(text) {
        Some(n) => n,
        None => DEFAULT_TAIL_SECS,
    };
    if secs <= u64::MAX / 1000 {
        secs * 1000
    } else {
        u64::MAX
    }
}

/// What the command line `args` (program name first) asks for.
pub fn parse_args(args: &Vec<String>) -> (r: Command)
    ensures
        r == command_of(texts(args@)),
{
    let ghost a = texts(args@);
    let n = args.len();
    let mut j: usize = 0;
    while j < n
        invariant
            j <= n,
            n == args@.len(),
            a == texts(args@),
            forall|i: int| 0 <= i < j ==> !(#[trigger] a[i] == "--help"@ || a[i] == "-h"@),
        decreases n - j,
    {
        assert(a[j as int] == args@[j as int]@);
        if is_word(&args[j], "--help") || is_word(&args[j], "-h") {
            return Command::Help;
        }
        j = j + 1;
    }
    let mut tail = "red".to_owned();
    let mut head = "yellow".to_owned();
    let mut speed = "fast".to_owned();
    let mut length = "10".to_owned();
    let mut i: usize = 1;
    while i < n
        invariant
            1 <= i <= n || n == 0,
            n == args@.len(),
            a == texts(args@),
            a.len() == n,
            scan(a, i as int, (tail@, head@, speed@, length@)) == scan(a, 1, default_words()),
        decreases n - i,
    {
        let arg = &args[i];
        assert(a[i as int] == arg@);
        let to_tail = is_word(arg, "--tail-color") || is_word(arg, "-t");
        let to_head = is_word(arg, "--head-color") || is_word(arg, "-d");
        let to_speed = is_word(arg, "--speed") || is_word(arg, "-s");
        let to_length = is_word(arg, "--tail-length") || is_word(arg, "-l");
        if to_tail || to_head || to_speed || to_length {
            if i + 1 < n {
                let v = args[i + 1].clone();
                assert(a[i + 1] == v@);
                if to_tail {
                    tail = v;
                } else if to_head {
                    head = v;
                } else if to_speed {
                    speed = v;
                } else {
                    length = v;
                }
                i = i + 2;
            } else {
                i = n;
            }
        } else {
            i = i + 1;
        }
    }
    let tail_color = color_named(&tail, RainColor::Red);
    let head_color = color_named(&head, RainColor::Yellow);
    let pace = speed_named(&speed);
    let tail_lifespan_ms = lifespan_ms(&length);
    Command::Run(RainConfig { tail_color, head_color, speed: pace, tail_lifespan_ms })
}

} // verus!
