//! Configuration of the proxy service, read from environment variables.

use vstd::prelude::*;
use vstd::string::*;

use crate::text;
use crate::text::{chars_of, same_text};

verus! {

/// Runtime configuration assembled from environment variables.
#[derive(Debug)]
pub struct AppConfig {
    pub database_url: String,
    pub listen_addr: String,
    pub rate_limit_per_min: u32,
    pub rate_limit_burst: u32,
    pub metrics_listen_addr: String,
    pub sse_broadcast_capacity: usize,
    pub sse_backlog_limit: usize,
    pub binary_pool_size: usize,
    pub binary_rate_limit_per_min: u32,
    pub binary_rate_limit_burst: u32,
}

/// The view of [`AppConfig`].
#[verifier::ext_equal]
pub struct ConfigView {
    pub database_url: Seq<char>,
    pub listen_addr: Seq<char>,
    pub rate_limit_per_min: u32,
    pub rate_limit_burst: u32,
    pub metrics_listen_addr: Seq<char>,
    pub sse_broadcast_capacity: usize,
    pub sse_backlog_limit: usize,
    pub binary_pool_size: usize,
    pub binary_rate_limit_per_min: u32,
    pub binary_rate_limit_burst: u32,
}

impl View for AppConfig {
    type V = ConfigView;

    open spec fn view(&self) -> ConfigView {
        ConfigView {
            database_url: self.database_url@,
            listen_addr: self.listen_addr@,
            rate_limit_per_min: self.rate_limit_per_min,
            rate_limit_burst: self.rate_limit_burst,
            metrics_listen_addr: self.metrics_listen_addr@,
            sse_broadcast_capacity: self.sse_broadcast_capacity,
            sse_backlog_limit: self.sse_backlog_limit,
            binary_pool_size: self.binary_pool_size,
            binary_rate_limit_per_min: self.binary_rate_limit_per_min,
            binary_rate_limit_burst: self.binary_rate_limit_burst,
        }
    }
}

/// The value of the first variable of that name.
pub open spec fn lookup(vars: Seq<(String, String)>, key: Seq<char>) -> Option<Seq<char>>
    decreases vars.len(),
{
    if vars.len() == 0 {
        None
    } else if vars.first().0@ == key {
        Some(vars.first().1@)
    } else {
        lookup(vars.drop_first(), key)
    }
}

/// Whether a character is a decimal digit.
pub open spec fn is_digit(c: char) -> bool {
    '0' <= c && c <= '9'
}

/// The number that digits stand for.
pub open spec fn digits_value(digits: Seq<char>) -> nat
    decreases digits.len(),
{
    if digits.len() == 0 {
        0
    } else {
        10 * digits_value(digits.drop_last()) + (digits.last() as u32 - '0' as u32) as nat
    }
}

/// A text without a plus sign in front.
pub open spec fn unsigned_part(text: Seq<char>) -> Seq<char> {
    if text.len() > 0 && text.first() == '+' {
        text.drop_first()
    } else {
        text
    }
}

/// The number that a text stands for, up to a largest one: digits, behind a
/// plus sign or not.
pub open spec fn number_of(text: Seq<char>, max: nat) -> Option<nat> {
    let digits = unsigned_part(text);
    if digits.len() > 0 && (forall|i: int| 0 <= i < digits.len() ==> is_digit(#[trigger] digits[i]))
        && digits_value(digits) <= max {
        Some(digits_value(digits))
    } else {
        None
    }
}

/// The text of a variable, or a default.
pub open spec fn text_setting(
    vars: Seq<(String, String)>,
    key: Seq<char>,
    default: Seq<char>,
) -> Seq<char> {
    match lookup(vars, key) {
        Some(value) => value,
        None => default,
    }
}

/// The number of a variable, or a default where it is no number.
pub open spec fn number_setting(
    vars: Seq<(String, String)>,
    key: Seq<char>,
    default: nat,
    max: nat,
) -> nat {
    match lookup(vars, key) {
        Some(value) => match number_of(value, max) {
            Some(n) => n,
            None => default,
        },
        None => default,
    }
}

/// The configuration that environment variables make.
pub open spec fn configured(vars: Seq<(String, String)>) -> ConfigView {
    let max32 = u32::MAX as nat;
    let max = usize::MAX as nat;
    let per_min = number_setting(vars, "RATE_LIMIT_PER_MIN"@, 60, max32);
    let burst = number_setting(vars, "RATE_LIMIT_BURST"@, 20, max32);
    ConfigView {
        database_url: text_setting(vars, "DATABASE_URL"@, "sqlite://./db.sqlite"@),
        listen_addr: text_setting(vars, "BIND_ADDR"@, "0.0.0.0:8080"@),
        rate_limit_per_min: per_min as u32,
        rate_limit_burst: burst as u32,
        metrics_listen_addr: text_setting(vars, "METRICS_BIND_ADDR"@, "127.0.0.1:9090"@),
        sse_broadcast_capacity: number_setting(vars, "SSE_BROADCAST_CAPACITY"@, 256, max) as usize,
        sse_backlog_limit: number_setting(vars, "SSE_BACKLOG_LIMIT"@, 16384, max) as usize,
        binary_pool_size: number_setting(vars, "BINARY_POOL_SIZE"@, 4, max) as usize,
        binary_rate_limit_per_min: number_setting(
            vars,
            "BINARY_RATE_LIMIT_PER_MIN"@,
            per_min,
            max32,
        ) as u32,
        binary_rate_limit_burst: number_setting(
            vars,
            "BINARY_RATE_LIMIT_BURST"@,
            burst,
            max32,
        ) as u32,
    }
}

impl AppConfig {
    /// Loads the configuration from environment variables, given as pairs of
    /// name and value, with sensible defaults for local development.
    pub fn from_env(vars: &Vec<(String, String)>) -> (r: Self)
        ensures
            r@ == configured(vars@),
    {
        let rate_limit_per_min = env_u32(vars, "RATE_LIMIT_PER_MIN", 60);
        let rate_limit_burst = env_u32(vars, "RATE_LIMIT_BURST", 20);
        AppConfig {
            database_url: env_string(vars, "DATABASE_URL", "sqlite://./db.sqlite"),
            listen_addr: env_string(vars, "BIND_ADDR", "0.0.0.0:8080"),
            rate_limit_per_min,
            rate_limit_burst,
            metrics_listen_addr: env_string(vars, "METRICS_BIND_ADDR", "127.0.0.1:9090"),
            sse_broadcast_capacity: env_usize(vars, "SSE_BROADCAST_CAPACITY", 256),
            sse_backlog_limit: env_usize(vars, "SSE_BACKLOG_LIMIT", 16384),
            binary_pool_size: env_usize(vars, "BINARY_POOL_SIZE", 4),
            binary_rate_limit_per_min: env_u32(
                vars,
                "BINARY_RATE_LIMIT_PER_MIN",
                rate_limit_per_min,
            ),
            binary_rate_limit_burst: env_u32(vars, "BINARY_RATE_LIMIT_BURST", rate_limit_burst),
        }
    }
}

/// Finds a variable.
pub fn env_var<'a>(vars: &'a Vec<(String, String)>, key: &str) -> (r: Option<&'a String>)
    ensures
        match r {
            Some(value) => lookup(vars@, key@) == Some(value@),
            None => lookup(vars@, key@) is None,
        },
{
    assert(vars@.skip(0) =~= vars@);
    for i in 0..vars.len()
        invariant
            lookup(vars@, key@) == lookup(vars@.skip(i as int), key@),
    {
        assert(vars@.skip(i as int).drop_first() =~= vars@.skip(i + 1));
        if same_text(vars[i].0.as_str(), key) {
            return Some(&vars[i].1);
        }
    }
    None
}

fn env_string(vars: &Vec<(String, String)>, key: &str, default: &str) -> (r: String)
    ensures
        r@ == text_setting(vars@, key@, default@),
{
    match env_var(vars, key) {
        Some(value) => value.clone(),
        None => default.to_owned(),
    }
}

fn env_u32(vars: &Vec<(String, String)>, key: &str, default: u32) -> (r: u32)
    ensures
        r == number_setting(vars@, key@, default as nat, u32::MAX as nat),
{
    match env_var(vars, key) {
        Some(value) => match parse_number(value.as_str(), u32::MAX as u64) {
            Some(n) => n as u32,
            None => default,
        },
        None => default,
    }
}

fn env_usize(vars: &Vec<(String, String)>, key: &str, default: usize) -> (r: usize)
    ensures
        r == number_setting(vars@, key@, default as nat, usize::MAX as nat),
{
    match env_var(vars, key) {
        Some(value) => match parse_number(value.as_str(), usize::MAX as u64) {
            Some(n) => n as usize,
            None => default,
        },
        None => default,
    }
}

/// Leading digits do not make a number smaller.
proof fn lemma_digits_grow(digits: Seq<char>, n: int)
    requires
        0 <= n <= digits.len(),
        forall|i: int| 0 <= i < digits.len() ==> is_digit(#[trigger] digits[i]),
    ensures
        digits_value(digits.take(n)) <= digits_value(digits),
    decreases digits.len(),
{
    if n == digits.len() {
        assert(digits.take(n) =~= digits);
    } else {
        lemma_digits_grow(digits.drop_last(), n);
        assert(digits.drop_last().take(n) =~= digits.take(n));
        assert(is_digit(digits.last()));
    }
}

/// Reads a decimal number of at most `max`.
pub fn parse_number(text: &str, max: u64) -> (r: Option<u64>)
    ensures
        match r {
            Some(n) => number_of(text@, max as nat) == Some(n as nat),
            None => number_of(text@, max as nat) is None,
        },
{
    let chars = chars_of(text);
    let mut start: usize = 0;
    if chars.len() > 0 && chars[0] == '+' {
        start = 1;
    }
    let ghost digits = unsigned_part(text@);
    assert(digits =~= chars@.skip(start as int));
    if start == chars.len() {
        return None;
    }
    let mut value: u64 = 0;
    let mut i: usize = start;
    assert(digits.take(0) =~= Seq::<char>::empty());
    while i < chars.len()
        invariant
            start <= i <= chars@.len(),
            digits == unsigned_part(text@),
            digits == chars@.skip(start as int),
            digits.len() > 0,
            forall|j: int| 0 <= j < i - start ==> is_digit(#[trigger] digits[j]),
            value == digits_value(digits.take(i - start)),
            value <= max,
        decreases chars@.len() - i,
    {
        let c = chars[i];
        assert(digits[i - start] == c);
        if c < '0' || c > '9' {
            return None;
        }
        let d: u64 = (c as u32 - '0' as u32) as u64;
        let ghost longer = digits.take(i - start + 1);
        proof {
            assert(longer.drop_last() =~= digits.take(i - start));
            assert(digits_value(longer) == 10 * value + d);
            if forall|j: int| 0 <= j < digits.len() ==> is_digit(#[trigger] digits[j]) {
                lemma_digits_grow(digits, i - start + 1);
            }
        }
        if value > max / 10 || (value == max / 10 && d > max % 10) {
            assert(10 * value + d > max);
            return None;
        }
        value = 10 * value + d;
        i = i + 1;
    }
    assert(digits.take(digits.len() as int) =~= digits);
    Some(value)
}

proof fn lemma_decimal(n: nat)
    ensures
        text::decimal(n).len() > 0,
        forall|i: int| 0 <= i < text::decimal(n).len() ==> is_digit(#[trigger] text::decimal(n)[i]),
        digits_value(text::decimal(n)) == n,
    decreases n,
{
    let digits = text::decimal(n);
    if n < 10 {
        assert(is_digit(text::digit(n)));
        assert(digits.drop_last() =~= Seq::<char>::empty());
        assert(digits_value(digits.drop_last()) == 0);
    } else {
        lemma_decimal(n / 10);
        assert(is_digit(text::digit(n % 10)));
        assert(digits.drop_last() =~= text::decimal(n / 10));
        assert forall|i: int| 0 <= i < digits.len() implies is_digit(#[trigger] digits[i]) by {
            if i < digits.len() - 1 {
                assert(digits[i] == text::decimal(n / 10)[i]);
            }
        }
    }
}

/// A number that was written in decimal is read back.
pub proof fn law_decimal_is_read_back(n: nat, max: nat)
    requires
        n <= max,
    ensures
        number_of(text::decimal(n), max) == Some(n),
{
    lemma_decimal(n);
    assert(is_digit(text::decimal(n)[0]));
}

/// A text of digits, with or without a plus sign, is read as the number that it
/// stands for; larger numbers than the largest are not read.
pub proof fn law_plus_sign_changes_nothing(digits: Seq<char>, max: nat)
    requires
        digits.len() > 0,
        is_digit(digits[0]),
    ensures
        number_of(seq!['+'] + digits, max) == number_of(digits, max),
{
    assert((seq!['+'] + digits).drop_first() =~= digits);
}

/// A variable has the value of the first entry of its name, and none where no
/// entry has its name.
pub proof fn law_the_first_entry_counts(vars: Seq<(String, String)>, key: Seq<char>, first: int)
    requires
        0 <= first <= vars.len(),
        forall|i: int| 0 <= i < first ==> (#[trigger] vars[i]).0@ != key,
        first < vars.len() ==> vars[first].0@ == key,
    ensures
        first < vars.len() ==> lookup(vars, key) == Some(vars[first].1@),
        first == vars.len() ==> lookup(vars, key) is None,
    decreases vars.len(),
{
    if vars.len() > 0 && first > 0 {
        let rest = vars.drop_first();
        assert(vars[0].0@ != key);
        assert forall|i: int| 0 <= i < first - 1 implies (#[trigger] rest[i]).0@ != key by {
            assert(rest[i] == vars[i + 1]);
        }
        if first < vars.len() {
            assert(rest[first - 1] == vars[first]);
        }
        law_the_first_entry_counts(rest, key, first - 1);
    }
}

/// Whether a setting is the number that a variable names, and a default where
/// the variable is missing, is no number or is too large.
pub open spec fn is_number_or(
    vars: Seq<(String, String)>,
    key: Seq<char>,
    default: nat,
    max: nat,
    setting: nat,
) -> bool {
    &&& lookup(vars, key) is None ==> setting == default
    &&& lookup(vars, key) is Some && number_of(lookup(vars, key)->0, max) is None ==> setting
        == default
    &&& lookup(vars, key) is Some && number_of(lookup(vars, key)->0, max) is Some ==> setting
        == number_of(lookup(vars, key)->0, max)->0
}

/// Whether a setting is the text of a variable, and a default where the
/// variable is missing.
pub open spec fn is_text_or(
    vars: Seq<(String, String)>,
    key: Seq<char>,
    default: Seq<char>,
    setting: Seq<char>,
) -> bool {
    &&& lookup(vars, key) is None ==> setting == default
    &&& lookup(vars, key) is Some ==> setting == lookup(vars, key)->0
}

/// Each setting follows its own variable and has its own default. The limits
/// for binary messages fall back to the general ones.
pub proof fn law_each_setting_follows_its_variable(vars: Seq<(String, String)>)
    ensures
        ({
            let settings = configured(vars);
            let max32 = u32::MAX as nat;
            let max = usize::MAX as nat;
            &&& is_text_or(vars, "DATABASE_URL"@, "sqlite://./db.sqlite"@, settings.database_url)
            &&& is_text_or(vars, "BIND_ADDR"@, "0.0.0.0:8080"@, settings.listen_addr)
            &&& is_text_or(
                vars,
                "METRICS_BIND_ADDR"@,
                "127.0.0.1:9090"@,
                settings.metrics_listen_addr,
            )
            &&& is_number_or(
                vars,
                "RATE_LIMIT_PER_MIN"@,
                60,
                max32,
                settings.rate_limit_per_min as nat,
            )
            &&& is_number_or(
                vars,
                "RATE_LIMIT_BURST"@,
                20,
                max32,
                settings.rate_limit_burst as nat,
            )
            &&& is_number_or(
                vars,
                "SSE_BROADCAST_CAPACITY"@,
                256,
                max,
                settings.sse_broadcast_capacity as nat,
            )
            &&& is_number_or(
                vars,
                "SSE_BACKLOG_LIMIT"@,
                16384,
                max,
                settings.sse_backlog_limit as nat,
            )
            &&& is_number_or(
                vars,
                "BINARY_POOL_SIZE"@,
                4,
                max,
                settings.binary_pool_size as nat,
            )
            &&& is_number_or(
                vars,
                "BINARY_RATE_LIMIT_PER_MIN"@,
                settings.rate_limit_per_min as nat,
                max32,
                settings.binary_rate_limit_per_min as nat,
            )
            &&& is_number_or(
                vars,
                "BINARY_RATE_LIMIT_BURST"@,
                settings.rate_limit_burst as nat,
                max32,
                settings.binary_rate_limit_burst as nat,
            )
        }),
{
}

/// What is read as a number is digits, behind a plus sign or not, and is not
/// larger than it may be; and all such texts are read.
pub proof fn law_only_digits_are_numbers(text: Seq<char>, max: nat, i: int)
    ensures
        text.len() == 0 ==> number_of(text, max) is None,
        text == seq!['+'] ==> number_of(text, max) is None,
        0 <= i < text.len() && !('0' <= text[i] && text[i] <= '9') && !(i == 0 && text[0] == '+')
            ==> number_of(text, max) is None,
        number_of(text, max) is Some ==> number_of(text, max)->0 <= max,
        text.len() > 0 && text[0] != '+' && (forall|k: int|
            0 <= k < text.len() ==> '0' <= (#[trigger] text[k]) && text[k] <= '9') ==> (
        number_of(text, max) is Some <==> digits_value(text) <= max),
{
    let digits = unsigned_part(text);
    if 0 <= i < text.len() && !('0' <= text[i] && text[i] <= '9') && !(i == 0 && text[0] == '+') {
        let k = if text.first() == '+' {
            i - 1
        } else {
            i
        };
        assert(digits[k] == text[i]);
        assert(!is_digit(digits[k]));
    }
}

/// A digit at the end counts once, and what stands before it ten times as much.
pub proof fn law_numbers_are_decimal(digits: Seq<char>, last: nat)
    requires
        last < 10,
    ensures
        digits_value(Seq::empty()) == 0,
        digits_value(digits.push(text::digit(last))) == 10 * digits_value(digits) + last,
{
    assert(digits.push(text::digit(last)).drop_last() =~= digits);
}

} // verus!
