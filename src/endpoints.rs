//! Worker endpoints that lean on outside crates: hashing, random numbers,
//! and the checks in front of file creation and deletion.
use vstd::prelude::*;
use vstd::string::StringSliceAdditionalSpecFns;
use crate::montecarlo::{all_digits, digits_value, u64_of};
use crate::text::{chars_of, decimal, digit_char, push_char, push_decimal, push_str};

verus! {

/// The SHA-256 digest of `data`.
pub uninterp spec fn sha256_of(data: Seq<u8>) -> Seq<u8>;

/// Relies on sha2's `Sha256::digest`: the SHA-256 digest of `data`, 32 bytes long.
#[verifier::external_body]
fn sha256_digest(data: &[u8]) -> (r: Vec<u8>)
    ensures
        r@ == sha256_of(data@),
        r@.len() == 32,
{
    <sha2::Sha256 as sha2::Digest>::digest(data).to_vec()
}

/// The lowercase hexadecimal digit of `d`.
pub open spec fn hex_char(d: nat) -> char {
    if d < 10 {
        digit_char(d)
    } else if d == 10 {
        'a'
    } else if d == 11 {
        'b'
    } else if d == 12 {
        'c'
    } else if d == 13 {
        'd'
    } else if d == 14 {
        'e'
    } else {
        'f'
    }
}

/// Two lowercase hexadecimal digits per byte.
pub open spec fn hex_of(bytes: Seq<u8>) -> Seq<char>
    decreases bytes.len(),
{
    if bytes.len() == 0 {
        Seq::empty()
    } else {
        hex_of(bytes.drop_last()).push(hex_char(bytes.last() as nat / 16)).push(
            hex_char(bytes.last() as nat % 16),
        )
    }
}

fn hex_char_exec(d: u8) -> (c: char)
    requires
        d < 16,
    ensures
        c == hex_char(d as nat),
{
    if d < 10 {
        if d == 0 { '0' } else if d == 1 { '1' } else if d == 2 { '2' } else if d == 3 { '3' }
        else if d == 4 { '4' } else if d == 5 { '5' } else if d == 6 { '6' } else if d == 7 { '7' }
        else if d == 8 { '8' } else { '9' }
    } else if d == 10 { 'a' } else if d == 11 { 'b' } else if d == 12 { 'c' } else if d == 13 { 'd' }
    else if d == 14 { 'e' } else { 'f' }
}

/// The SHA-256 digest of the UTF-8 bytes of `input`, in lowercase hexadecimal.
pub fn sha256_hash(input: &str) -> (r: String)
    ensures
        r@ == hex_of(sha256_of(input.spec_bytes())),
{
    let digest = sha256_digest(input.as_bytes());
    let mut r = String::new();
    let mut i: usize = 0;
    while i < digest.len()
        invariant
            i <= digest@.len(),
            r@ == hex_of(digest@.take(i as int)),
        decreases digest@.len() - i,
    {
        assert(digest@.take(i + 1).drop_last() =~= digest@.take(i as int));
        let b = digest[i];
        push_char(&mut r, hex_char_exec(b / 16));
        push_char(&mut r, hex_char_exec(b % 16));
        i = i + 1;
    }
    assert(digest@.take(digest@.len() as int) =~= digest@);
    r
}

/// Relies on rand's `Rng::random_range` on `low..=high` with the thread-local
/// generator: a value of that range; it panics only when the range is empty.
#[verifier::external_body]
fn random_between(low: i32, high: i32) -> (r: i32)
    requires
        low <= high,
    ensures
        low <= r <= high,
{
    rand::Rng::random_range(&mut rand::rng(), low..=high)
}

/// `count` random numbers, each between `min` and `max` inclusive.
pub fn generate_random_numbers(count: usize, min: i32, max: i32) -> (r: Vec<i32>)
    requires
        min <= max,
    ensures
        r@.len() == count,
        forall|i: int| 0 <= i < r@.len() ==> min <= #[trigger] r@[i] <= max,
{
    let mut r: Vec<i32> = Vec::new();
    let mut i: usize = 0;
    while i < count
        invariant
            min <= max,
            i <= count,
            r@.len() == i,
            forall|j: int| 0 <= j < r@.len() ==> min <= #[trigger] r@[j] <= max,
        decreases count - i,
    {
        r.push(random_between(min, max));
        i = i + 1;
    }
    r
}

/// The decimal rendering of a signed number.
pub open spec fn int_text(v: int) -> Seq<char> {
    if v < 0 { seq!['-'] + decimal((-v) as nat) } else { decimal(v as nat) }
}

/// The numbers of `v` as a bracketed, comma-and-space separated list.
pub open spec fn list_text(v: Seq<i32>) -> Seq<char> {
    "["@ + list_items(v) + "]"@
}

pub open spec fn list_items(v: Seq<i32>) -> Seq<char>
    decreases v.len(),
{
    if v.len() == 0 {
        Seq::empty()
    } else if v.len() == 1 {
        int_text(v[0] as int)
    } else {
        list_items(v.drop_last()) + ", "@ + int_text(v.last() as int)
    }
}

fn push_int(s: &mut String, v: i32)
    ensures
        final(s)@ == old(s)@ + int_text(v as int),
{
    if v < 0 {
        push_char(s, '-');
        let m: u64 = (0i64 - v as i64) as u64;
        push_decimal(s, m);
        assert(s@ =~= old(s)@ + int_text(v as int));
    } else {
        push_decimal(s, v as u64);
    }
}

/// Writes a list of numbers as `[a, b, c]`.
pub fn list_to_text(v: &Vec<i32>) -> (r: String)
    ensures
        r@ == list_text(v@),
{
    let mut r = String::new();
    push_str(&mut r, "[");
    let mut i: usize = 0;
    while i < v.len()
        invariant
            i <= v@.len(),
            r@ == "["@ + list_items(v@.take(i as int)),
        decreases v@.len() - i,
    {
        assert(v@.take(i + 1).drop_last() =~= v@.take(i as int));
        if i > 0 {
            push_str(&mut r, ", ");
        }
        push_int(&mut r, v[i]);
        assert(r@ =~= "["@ + list_items(v@.take(i + 1)));
        i = i + 1;
    }
    assert(v@.take(v@.len() as int) =~= v@);
    push_str(&mut r, "]");
    r
}

/// The 32-bit signed number that `s` spells: an optional sign, then one or
/// more decimal digits, with a value in range.
pub open spec fn i32_of(s: Seq<char>) -> Option<i32> {
    if s.len() > 0 && s[0] == '-' {
        let body = s.drop_first();
        if body.len() > 0 && all_digits(body) && digits_value(body) <= 0x8000_0000 {
            Some((0 - digits_value(body)) as i32)
        } else {
            None
        }
    } else {
        match u64_of(s) {
            Some(v) => if v <= 0x7fff_ffff { Some(v as i32) } else { None },
            None => None,
        }
    }
}

/// Reads a signed 32-bit decimal number.
pub fn parse_i32(s: &str) -> (r: Option<i32>)
    ensures
        r == i32_of(s@),
{
    let all = chars_of(s);
    if all.len() > 0 && all[0] == '-' {
        let mut body = String::new();
        let mut i: usize = 1;
        while i < all.len()
            invariant
                all@ == s@,
                1 <= i <= all@.len(),
                body@ == all@.subrange(1, i as int),
            decreases all@.len() - i,
        {
            push_char(&mut body, all[i]);
            i = i + 1;
        }
        assert(body@ =~= s@.drop_first());
        if all.len() > 1 && all[1] == '+' {
            // A sign after the minus is no number.
            proof {
                assert(body@[0] == '+');
                assert(!all_digits(body@)) by {
                    assert(crate::text::digit_value(body@[0]) is None);
                }
            }
            return None;
        }
        match crate::montecarlo::parse_u64(body.as_str()) {
            Some(v) => if v <= 0x8000_0000 {
                Some((0i64 - v as i64) as i32)
            } else {
                None
            },
            None => None,
        }
    } else {
        match crate::montecarlo::parse_u64(s) {
            Some(v) => if v <= 0x7fff_ffff { Some(v as i32) } else { None },
            None => None,
        }
    }
}

/// Whether `c` is alphanumeric in Unicode's sense.
pub uninterp spec fn alphanumeric(c: char) -> bool;

/// Relies on `char::is_alphanumeric`: whether `c` has Unicode's Alphabetic or
/// Numeric property.
#[verifier::external_body]
fn is_alphanumeric(c: char) -> (r: bool)
    ensures
        r == alphanumeric(c),
{
    c.is_alphanumeric()
}

/// A file name is accepted when it holds only alphanumeric characters and `_`.
pub open spec fn valid_file_name(name: Seq<char>) -> bool {
    forall|i: int| 0 <= i < name.len() ==> alphanumeric(#[trigger] name[i]) || name[i] == '_'
}

/// Where the file called `name` is kept.
pub open spec fn file_path_of(name: Seq<char>) -> Seq<char> {
    "archivos/"@ + name + ".txt"@
}

/// The message for a file name that is refused.
pub open spec fn invalid_name_message() -> Seq<char> {
    "Nombre del archivo invàlido (Solo se permiten alfanùmericos)"@
}

/// Checks a file name and gives the path of its file, or the message refusing it.
pub fn file_path(name: &str) -> (r: Result<String, String>)
    ensures
        valid_file_name(name@) <==> r is Ok,
        r matches Ok(p) ==> p@ == file_path_of(name@),
        r matches Err(m) ==> m@ == invalid_name_message(),
{
    let v = chars_of(name);
    let mut i: usize = 0;
    while i < v.len()
        invariant
            v@ == name@,
            i <= v@.len(),
            forall|j: int| 0 <= j < i ==> alphanumeric(#[trigger] v@[j]) || v@[j] == '_',
        decreases v@.len() - i,
    {
        if !(is_alphanumeric(v[i]) || v[i] == '_') {
            return Err("Nombre del archivo invàlido (Solo se permiten alfanùmericos)".to_string());
        }
        i = i + 1;
    }
    let mut p = String::new();
    push_str(&mut p, "archivos/");
    push_str(&mut p, name);
    push_str(&mut p, ".txt");
    assert(p@ =~= file_path_of(name@));
    Ok(p)
}

/// The instant `secs` seconds after the Unix epoch, in RFC 3339 form to the
/// second, with `Z` for UTC.
pub uninterp spec fn rfc3339_of(secs: int) -> Seq<char>;

/// Relies on chrono's `Utc::now`: the current time, in whole seconds since the
/// Unix epoch.
#[verifier::external_body]
fn unix_seconds_now() -> (r: i64) {
    chrono::Utc::now().timestamp()
}

/// Relies on chrono's `DateTime::from_timestamp(secs, 0)`, which gives nothing
/// outside chrono's range, and `to_rfc3339_opts(SecondsFormat::Secs, true)`.
#[verifier::external_body]
fn rfc3339_seconds(secs: i64) -> (r: Option<String>)
    ensures
        r matches Some(t) ==> t@ == rfc3339_of(secs as int),
{
    match chrono::DateTime::from_timestamp(secs, 0) {
        Some(t) => Some(t.to_rfc3339_opts(chrono::SecondsFormat::Secs, true)),
        None => None,
    }
}

/// The current UTC time in RFC 3339 form, to the second.
pub fn timestamp_iso() -> (r: String)
    ensures
        r@.len() == 0 || exists|secs: i64| r@ == rfc3339_of(secs as int),
{
    let now = unix_seconds_now();
    match rfc3339_seconds(now) {
        Some(t) => t,
        None => String::new(),
    }
}

} // verus!
