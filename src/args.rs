//! The agent's settings, made from the text values of its command-line
//! options and environment variables.
use vstd::prelude::*;
use vstd::string::*;
use crate::text::{find, find_from, same_text};

verus! {

/// Whether `c` is an ASCII decimal digit.
pub open spec fn is_digit(c: char) -> bool {
    '0' <= c && c <= '9'
}

/// The number that the decimal digits of `s` spell.
pub open spec fn digits_value(s: Seq<char>) -> nat
    decreases s.len(),
{
    if s.len() == 0 {
        0
    } else {
        digits_value(s.drop_last()) * 10 + ((s.last() as u32) - ('0' as u32)) as nat
    }
}

/// What `str::parse::<u32>` accepts: an optional `+`, then one or more
/// decimal digits spelling a number that fits in 32 bits.
pub open spec fn u32_of(s: Seq<char>) -> Option<u32> {
    let body = unsigned_body(s);
    if body.len() > 0 && all_digits(body) && digits_value(body) <= u32::MAX {
        Some(digits_value(body) as u32)
    } else {
        None
    }
}

/// Whether every character of `s` is a decimal digit.
pub open spec fn all_digits(s: Seq<char>) -> bool {
    forall|i: int| 0 <= i < s.len() ==> is_digit(#[trigger] s[i])
}

/// `s` without a leading `+`.
pub open spec fn unsigned_body(s: Seq<char>) -> Seq<char> {
    if s.len() > 0 && s[0] == '+' {
        s.skip(1)
    } else {
        s
    }
}

/// What `str::parse::<i32>` accepts: an optional `+` or `-`, then one or
/// more decimal digits spelling a number within the 32-bit signed range.
pub open spec fn i32_of(s: Seq<char>) -> Option<i32> {
    let neg = s.len() > 0 && s[0] == '-';
    let body = if neg {
        s.skip(1)
    } else {
        unsigned_body(s)
    };
    let v: int = if neg {
        -(digits_value(body) as int)
    } else {
        digits_value(body) as int
    };
    if body.len() > 0 && all_digits(body) && i32::MIN <= v <= i32::MAX {
        Some(v as i32)
    } else {
        None
    }
}

/// The decimal digits of `n`, without leading zeros.
pub open spec fn decimal(n: nat) -> Seq<char>
    decreases n,
{
    if n < 10 {
        seq![digit_char(n)]
    } else {
        decimal(n / 10) + seq![digit_char(n % 10)]
    }
}

/// The digit character for `d` (below ten).
pub open spec fn digit_char(d: nat) -> char {
    ((d + ('0' as u32)) as u32) as char
}

/// Whether an on/off option's value turns it on: `true` or `1`.
pub open spec fn flag_on(s: Seq<char>) -> bool {
    s == "true"@ || s == "1"@
}

/// The resolution that a `WxH` value gives: the text before the first `x`
/// and the text between it and the next `x`, each read as a number, with
/// 1280 and 720 in place of what does not read; 1280x720 without any `x`.
pub open spec fn resolution_of(s: Seq<char>) -> (u32, u32) {
    let i1 = find(s, 0, 'x');
    if i1 >= s.len() {
        (1280, 720)
    } else {
        let i2 = find(s, i1 + 1, 'x');
        (
            match u32_of(s.take(i1)) {
                Some(w) => w,
                None => 1280,
            },
            match u32_of(s.subrange(i1 + 1, i2)) {
                Some(h) => h,
                None => 720,
            },
        )
    }
}

proof fn lemma_digits_prefix(s: Seq<char>, k: int)
    requires
        0 <= k <= s.len(),
    ensures
        digits_value(s.take(k)) <= digits_value(s),
    decreases s.len() - k,
{
    if k < s.len() {
        lemma_digits_prefix(s, k + 1);
        let t = s.take(k + 1);
        assert(t.drop_last() =~= s.take(k));
        assert(digits_value(t) == digits_value(s.take(k)) * 10 + ((t.last() as u32) - ('0' as u32)) as nat);
    } else {
        assert(s.take(k) =~= s);
    }
}

/// Reads a decimal number as `str::parse::<u32>` does.
pub fn parse_u32(s: &str) -> (r: Option<u32>)
    ensures
        r == u32_of(s@),
{
    let n = s.unicode_len();
    let start: usize = if n > 0 && s.get_char(0) == '+' {
        1
    } else {
        0
    };
    let ghost body = unsigned_body(s@);
    assert(body =~= s@.subrange(start as int, n as int));
    if start >= n {
        return None;
    }
    let mut value: u64 = 0;
    let mut i: usize = start;
    while i < n
        invariant
            start <= i <= n,
            n as nat == s@.len(),
            body == s@.subrange(start as int, n as int),
            body == unsigned_body(s@),
            forall|j: int| 0 <= j < i - start ==> is_digit(#[trigger] body[j]),
            value as nat == digits_value(body.take(i - start)),
            value <= u32::MAX,
        decreases n - i,
    {
        let c = s.get_char(i);
        if !('0' <= c && c <= '9') {
            assert(!is_digit(body[i - start]));
            return None;
        }
        let d = (c as u32 - '0' as u32) as u64;
        assert(body.take(i - start + 1).drop_last() =~= body.take(i - start));
        value = value * 10 + d;
        i = i + 1;
        if value > u32::MAX as u64 {
            proof {
                lemma_digits_prefix(body, i - start);
            }
            return None;
        }
    }
    assert(body.take(i - start) =~= body);
    Some(value as u32)
}

/// Reads a decimal number as `str::parse::<i32>` does.
pub fn parse_i32(s: &str) -> (r: Option<i32>)
    ensures
        r == i32_of(s@),
{
    let n = s.unicode_len();
    let neg = n > 0 && s.get_char(0) == '-';
    let start: usize = if n > 0 && (s.get_char(0) == '+' || s.get_char(0) == '-') {
        1
    } else {
        0
    };
    let ghost body = if neg {
        s@.skip(1)
    } else {
        unsigned_body(s@)
    };
    assert(body =~= s@.subrange(start as int, n as int));
    if start >= n {
        return None;
    }
    let mut value: u64 = 0;
    let mut i: usize = start;
    while i < n
        invariant
            start <= i <= n,
            n as nat == s@.len(),
            body == s@.subrange(start as int, n as int),
            neg == (s@.len() > 0 && s@[0] == '-'),
            body == (if neg {
                s@.skip(1)
            } else {
                unsigned_body(s@)
            }),
            forall|j: int| 0 <= j < i - start ==> is_digit(#[trigger] body[j]),
            value as nat == digits_value(body.take(i - start)),
            value <= 0x8000_0000,
        decreases n - i,
    {
        let c = s.get_char(i);
        if !('0' <= c && c <= '9') {
            assert(!is_digit(body[i - start]));
            assert(!all_digits(body));
            return None;
        }
        let d = (c as u32 - '0' as u32) as u64;
        assert(body.take(i - start + 1).drop_last() =~= body.take(i - start));
        value = value * 10 + d;
        i = i + 1;
        if value > 0x8000_0000 {
            proof {
                lemma_digits_prefix(body, i - start);
            }
            return None;
        }
    }
    assert(body.take(i - start) =~= body);
    assert(all_digits(body));
    if neg {
        Some((0 - value as i64) as i32)
    } else if value > 0x7fff_ffff {
        None
    } else {
        Some(value as i32)
    }
}

fn digit_text(d: u32) -> (r: &'static str)
    requires
        d < 10,
    ensures
        r@ == seq![digit_char(d as nat)],
{
    proof {
        reveal_strlit("0");
        reveal_strlit("1");
        reveal_strlit("2");
        reveal_strlit("3");
        reveal_strlit("4");
        reveal_strlit("5");
        reveal_strlit("6");
        reveal_strlit("7");
        reveal_strlit("8");
        reveal_strlit("9");
    }
    let r = match d {
        0 => "0",
        1 => "1",
        2 => "2",
        3 => "3",
        4 => "4",
        5 => "5",
        6 => "6",
        7 => "7",
        8 => "8",
        _ => "9",
    };
    assert(r@ =~= seq![digit_char(d as nat)]);
    r
}

/// The decimal form of `n`, as `u32::to_string` writes it.
pub fn to_decimal(n: u32) -> (r: String)
    ensures
        r@ == decimal(n as nat),
    decreases n,
{
    if n < 10 {
        digit_text(n).to_owned()
    } else {
        to_decimal(n / 10).concat(digit_text(n % 10))
    }
}

/// Whether an on/off option's value turns it on.
pub fn flag_value(s: &str) -> (r: bool)
    ensures
        r == flag_on(s@),
{
    same_text(s, "true") || same_text(s, "1")
}

/// Reads a `WxH` resolution; see `resolution_of`.
pub fn parse_resolution(s: &str) -> (r: (u32, u32))
    ensures
        r == resolution_of(s@),
{
    let n = s.unicode_len();
    let i1 = find_from(s, n, 0, 'x');
    if i1 >= n {
        return (1280, 720);
    }
    let i2 = find_from(s, n, i1 + 1, 'x');
    let w = match parse_u32(s.substring_char(0, i1)) {
        Some(w) => w,
        None => 1280,
    };
    let h = match parse_u32(s.substring_char(i1 + 1, i2)) {
        Some(h) => h,
        None => 720,
    };
    (w, h)
}

/// General settings of the agent.
pub struct AppArgs {
    /// Verbose output mode
    pub verbose: bool,
    /// Debug the pipeline by showing a window on host
    pub debug_feed: bool,
    /// Debug the latency by showing time in stream
    pub debug_latency: bool,
    /// Virtual display resolution
    pub resolution: (u32, u32),
    /// Virtual display framerate
    pub framerate: u32,
    /// Relay url
    pub relay_url: String,
    /// Room name/identifier
    pub room: String,
    /// Experimental DMA-BUF support
    pub dma_buf: bool,
}

impl AppArgs {
    /// The settings that the given option values make. A framerate that does
    /// not read as a number gives 60; without a room, the decimal form of
    /// `random_room` names it.
    pub fn from_values(
        verbose: &str,
        debug_feed: &str,
        debug_latency: &str,
        resolution: &str,
        framerate: &str,
        relay_url: String,
        room: Option<String>,
        random_room: u32,
        dma_buf: &str,
    ) -> (r: Self)
        ensures
            r.verbose == flag_on(verbose@),
            r.debug_feed == flag_on(debug_feed@),
            r.debug_latency == flag_on(debug_latency@),
            r.resolution == resolution_of(resolution@),
            r.framerate == (match u32_of(framerate@) {
                Some(f) => f,
                None => 60,
            }),
            r.relay_url@ == relay_url@,
            r.room@ == (match room {
                Some(x) => x@,
                None => decimal(random_room as nat),
            }),
            r.dma_buf == flag_on(dma_buf@),
    {
        AppArgs {
            verbose: flag_value(verbose),
            debug_feed: flag_value(debug_feed),
            debug_latency: flag_value(debug_latency),
            resolution: parse_resolution(resolution),
            framerate: match parse_u32(framerate) {
                Some(f) => f,
                None => 60,
            },
            relay_url,
            room: match room {
                Some(x) => x,
                None => to_decimal(random_room),
            },
            dma_buf: flag_value(dma_buf),
        }
    }
}

/// Which GPU the agent uses.
pub struct DeviceArgs {
    /// Vendor to pick by (empty: any)
    pub gpu_vendor: String,
    /// Text the GPU name must hold (empty: any)
    pub gpu_name: String,
    /// Which of the GPUs left by the filters to use; negative: all of a known vendor
    pub gpu_index: i32,
    /// Card or render node that forces one GPU (empty: none)
    pub gpu_card_path: String,
}

impl DeviceArgs {
    /// The settings that the given option values make; an index that does
    /// not read as a number gives 0.
    pub fn from_values(
        gpu_vendor: String,
        gpu_name: String,
        gpu_index: &str,
        gpu_card_path: String,
    ) -> (r: Self)
        ensures
            r.gpu_vendor@ == gpu_vendor@,
            r.gpu_name@ == gpu_name@,
            r.gpu_index == (match i32_of(gpu_index@) {
                Some(i) => i,
                None => 0,
            }),
            r.gpu_card_path@ == gpu_card_path@,
    {
        DeviceArgs {
            gpu_vendor,
            gpu_name,
            gpu_index: match parse_i32(gpu_index) {
                Some(i) => i,
                None => 0,
            },
            gpu_card_path,
        }
    }
}

/// All settings of the agent.
pub struct Args {
    pub app: AppArgs,
    pub device: DeviceArgs,
}

} // verus!
